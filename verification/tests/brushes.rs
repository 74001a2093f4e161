//! The four brush kinds and the stroke interpolation, plus parameter
//! setters and external texture loading.

use watercolor_engine::WatercolorEngine;

const ONE: i64 = 65536;

#[test]
fn blend_brush_pulls_pigment_toward_neighbourhood_average() {
    let mut e = WatercolorEngine::new(30, 30);
    e.apply_brush(14, 14, 2 * ONE, ONE, ONE, 0, 0, 0, 0, ONE);
    // a cell just outside the painted blob has little pigment; blending
    // there averages pigment in from the painted neighbours
    let probe = e.suspended_at(17, 14);
    e.apply_blend_brush(17, 14, 2 * ONE, ONE, 0, ONE);
    let after = e.suspended_at(17, 14);
    assert!(after.0 >= probe.0);
    assert_eq!(e.mask_at(17, 14), ONE);
    assert!(e.water_at(17, 14) > 0);
}

#[test]
fn water_brush_lifts_dried_deposit_back_into_suspension() {
    let mut e = WatercolorEngine::new(30, 30);
    e.apply_brush(15, 15, 4 * ONE, ONE, ONE, 0, 0, 0, 0, ONE);
    for _ in 0..4 {
        e.step();
    }
    let d_before = e.deposited_at(15, 15);
    assert!(d_before.0 > 0);
    let s_before = e.suspended_at(15, 15);
    e.apply_water_brush(15, 15, 4 * ONE, ONE, 2 * ONE, 0, ONE);
    let d_after = e.deposited_at(15, 15);
    let s_after = e.suspended_at(15, 15);
    assert!(d_after.0 < d_before.0);
    assert!(s_after.0 > s_before.0);
}

#[test]
fn water_brush_adds_water_and_flow() {
    let mut e = WatercolorEngine::new(30, 30);
    e.apply_water_brush(15, 15, 4 * ONE, ONE, 2 * ONE, 0, ONE);
    assert!(e.water_at(15, 15) > 0);
    assert_eq!(e.mask_at(15, 15), ONE);
    assert_eq!(e.suspended_at(15, 15), (0, 0, 0));
}

#[test]
fn brush_stroke_paints_along_the_segment() {
    let mut e = WatercolorEngine::new(40, 40);
    e.apply_brush_stroke(5, 20, 35, 20, 3 * ONE, ONE, ONE, 0, 0, 0, 0);
    assert!(e.water_at(6, 20) > 0);
    assert!(e.water_at(20, 20) > 0);
    assert!(e.water_at(34, 20) > 0);
    // the attenuation makes the tail end lighter than the start
    assert!(e.water_at(5, 5) == 0);
}

#[test]
fn fade_brush_stroke_removes_pigment_along_the_segment() {
    let mut e = WatercolorEngine::new(40, 40);
    e.apply_brush_stroke(5, 20, 35, 20, 3 * ONE, ONE, ONE, 0, 0, 0, 0);
    let before = e.suspended_at(20, 20);
    assert!(before.0 > 0);
    e.apply_fade_brush_stroke(5, 20, 35, 20, 3 * ONE, ONE, 0);
    let after = e.suspended_at(20, 20);
    assert!(after.0 < before.0);
}

#[test]
fn blend_brush_stroke_runs_and_wets_the_path() {
    let mut e = WatercolorEngine::new(40, 40);
    e.apply_brush(18, 20, 3 * ONE, ONE, ONE, 0, 0, 0, 0, ONE);
    e.apply_blend_brush_stroke(10, 20, 30, 20, 3 * ONE, ONE, 0);
    assert_eq!(e.mask_at(20, 20), ONE);
}

#[test]
fn water_brush_stroke_wets_the_path() {
    let mut e = WatercolorEngine::new(40, 40);
    e.apply_water_brush_stroke(10, 20, 30, 20, 3 * ONE, ONE, ONE, 0);
    assert!(e.water_at(15, 20) > 0);
    assert!(e.water_at(25, 20) > 0);
    assert_eq!(e.water_at(10, 5), 0);
}

#[test]
fn a_point_stroke_still_stamps_once() {
    let mut e = WatercolorEngine::new(20, 20);
    e.apply_brush_stroke(10, 10, 10, 10, 3 * ONE, ONE, ONE, 0, 0, 0, 0);
    assert!(e.water_at(10, 10) > 0);
}

#[test]
fn physics_setters_take_effect() {
    let mut e = WatercolorEngine::new(20, 20);
    // with zero adhesion nothing deposits
    e.set_pigment_props(0, ONE / 2);
    e.apply_brush(10, 10, 3 * ONE, ONE, ONE, 0, 0, 0, 0, ONE);
    e.step();
    assert_eq!(e.deposited_at(10, 10), (0, 0, 0));
    // restoring a positive adhesion makes deposition work again
    e.set_pigment_props(ONE / 8, ONE / 2);
    e.step();
    let d = e.deposited_at(10, 10);
    assert!(d.0 > 0);
    e.set_physics(ONE / 8, 131, ONE / 16, 5 * ONE, 4);
    e.step();
}

#[test]
fn tiny_grids_run_every_operation() {
    let mut a = WatercolorEngine::new(1, 1);
    a.apply_brush(0, 0, 2 * ONE, ONE, ONE, 0, 0, 0, 0, ONE);
    a.step();
    let px = a.render();
    assert_eq!(px.len(), 4);
    a.reset();
    let mut b = WatercolorEngine::new(2, 3);
    b.apply_water_brush(1, 1, 2 * ONE, ONE, ONE, 0, ONE);
    b.apply_blend_brush(1, 1, 2 * ONE, ONE, 0, ONE);
    b.step();
    assert_eq!(b.render().len(), 2 * 3 * 4);
}

#[test]
fn stamps_reaching_past_the_border_are_clipped() {
    let mut e = WatercolorEngine::new(10, 10);
    e.apply_brush(0, 0, 4 * ONE, ONE, ONE, 0, 0, 0, 0, ONE);
    e.apply_brush(9, 9, 4 * ONE, ONE, ONE, 0, 0, 0, 0, ONE);
    // centres outside the grid only touch the cells they reach
    e.apply_brush(-2, 5, 4 * ONE, ONE, ONE, 0, 0, 0, 0, ONE);
    e.apply_brush(12, 5, 4 * ONE, ONE, ONE, 0, 0, 0, 0, ONE);
    assert!(e.water_at(0, 0) > 0);
    assert!(e.water_at(9, 9) > 0);
    assert!(e.water_at(0, 5) > 0);
    assert!(e.water_at(9, 5) > 0);
    e.step();
}

#[test]
fn texture_load_replaces_paper_with_luma() {
    let mut e = WatercolorEngine::new(4, 4);
    // a 2x2 source image of uniform mid-grey
    let data: Vec<u8> = vec![
        128, 128, 128, 255, 128, 128, 128, 255, 128, 128, 128, 255, 128, 128, 128, 255,
    ];
    e.load_paper_texture(&data, 2, 2);
    // luma of (128,128,128) is 128/255 in Q16.16, truncated
    let expected: i64 = 128 * ONE / 255;
    for y in 0..4usize {
        for x in 0..4usize {
            assert_eq!(e.paper_at(x, y), expected);
        }
    }
}

#[test]
fn short_texture_buffer_keeps_prior_paper_where_it_runs_out() {
    let mut e = WatercolorEngine::new(4, 4);
    let mut before = Vec::new();
    for y in 0..4usize {
        for x in 0..4usize {
            before.push(e.paper_at(x, y));
        }
    }
    // only the first source pixel exists, so only cells resampling from it
    // are overwritten
    let data: Vec<u8> = vec![0, 0, 0, 255];
    e.load_paper_texture(&data, 2, 2);
    assert_eq!(e.paper_at(0, 0), 0);
    assert_eq!(e.paper_at(3, 3), before[3 * 4 + 3]);
}
