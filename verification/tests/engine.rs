//! End-to-end behaviour of the watercolor engine, exercised through its
//! public API. All scalar parameters are Q16.16 fixed point: 65536 is 1.0.

use watercolor_engine::WatercolorEngine;

const ONE: i64 = 65536;

#[test]
fn dimensions_are_reported() {
    let e = WatercolorEngine::new(4, 3);
    assert_eq!(e.get_width(), 4);
    assert_eq!(e.get_height(), 3);
}

#[test]
fn paper_generation_is_deterministic() {
    let a = WatercolorEngine::new(20, 20);
    let b = WatercolorEngine::new(20, 20);
    for y in 0..20usize {
        for x in 0..20usize {
            assert_eq!(a.paper_at(x, y), b.paper_at(x, y));
        }
    }
}

#[test]
fn paper_has_exact_known_values() {
    let a = WatercolorEngine::new(1, 1);
    assert_eq!(a.paper_at(0, 0), 30844);
    let b = WatercolorEngine::new(2, 2);
    assert_eq!(b.paper_at(0, 0), 30844);
    assert_eq!(b.paper_at(1, 0), 41869);
}

#[test]
fn paper_values_stay_in_unit_interval() {
    let e = WatercolorEngine::new(16, 11);
    for y in 0..11usize {
        for x in 0..16usize {
            let p = e.paper_at(x, y);
            assert!(0 <= p && p <= ONE);
        }
    }
}

#[test]
fn centre_stamp_has_exact_known_values() {
    // the full fixed-point pipeline on one cell: paper generation, the
    // gaussian at the kernel centre, bristle noise and paper response
    let mut e = WatercolorEngine::new(30, 30);
    assert_eq!(e.paper_at(15, 15), 28033);
    e.apply_brush(15, 15, 3 * ONE, ONE, ONE, 0, 0, 0, 0, ONE);
    assert_eq!(e.water_at(15, 15), 27761);
    assert_eq!(e.suspended_at(15, 15).0, 19830);
}

#[test]
fn reset_zeroes_dynamic_fields_and_keeps_paper() {
    let mut e = WatercolorEngine::new(30, 30);
    let mut snapshot = Vec::new();
    for y in 0..30usize {
        for x in 0..30usize {
            snapshot.push(e.paper_at(x, y));
        }
    }
    e.apply_brush(15, 15, 4 * ONE, ONE, ONE, 0, ONE / 2, ONE, 0, ONE);
    e.step();
    e.reset();
    for y in 0..30usize {
        for x in 0..30usize {
            assert_eq!(e.water_at(x, y), 0);
            assert_eq!(e.mask_at(x, y), 0);
            assert_eq!(e.suspended_at(x, y), (0, 0, 0));
            assert_eq!(e.deposited_at(x, y), (0, 0, 0));
            assert_eq!(e.paper_at(x, y), snapshot[y * 30 + x]);
        }
    }
}

#[test]
fn render_after_reset_is_near_white() {
    let mut e = WatercolorEngine::new(20, 20);
    e.apply_brush(10, 10, 4 * ONE, ONE, ONE, 0, 0, 0, 0, ONE);
    e.reset();
    let px = e.render();
    assert_eq!(px.len(), 20 * 20 * 4);
    for k in 0..(20 * 20) {
        assert!(px[4 * k] >= 225);
        assert!(px[4 * k + 1] >= 225);
        assert!(px[4 * k + 2] >= 225);
        assert_eq!(px[4 * k + 3], 255);
    }
}

#[test]
fn render_without_texture_on_fresh_grid_is_pure_white() {
    let mut e = WatercolorEngine::new(10, 10);
    e.set_show_texture(false);
    let px = e.render();
    for k in 0..(10 * 10) {
        assert_eq!(px[4 * k], 255);
        assert_eq!(px[4 * k + 1], 255);
        assert_eq!(px[4 * k + 2], 255);
        assert_eq!(px[4 * k + 3], 255);
    }
}

#[test]
fn deposition_conserves_pigment_mass_per_cell() {
    let mut e = WatercolorEngine::new(40, 40);
    e.apply_brush(20, 20, 6 * ONE, ONE, ONE, 0, ONE / 4, ONE / 2, 0, ONE);
    let mut before = Vec::new();
    for y in 0..40usize {
        for x in 0..40usize {
            let s = e.suspended_at(x, y);
            let d = e.deposited_at(x, y);
            before.push((s.0 + d.0, s.1 + d.1, s.2 + d.2));
        }
    }
    e.deposition();
    for y in 0..40usize {
        for x in 0..40usize {
            let s = e.suspended_at(x, y);
            let d = e.deposited_at(x, y);
            assert_eq!((s.0 + d.0, s.1 + d.1, s.2 + d.2), before[y * 40 + x]);
        }
    }
    // and something actually moved into the deposit
    let d = e.deposited_at(20, 20);
    assert!(d.0 > 0);
}

#[test]
fn advection_keeps_fields_non_negative() {
    let mut e = WatercolorEngine::new(30, 30);
    e.apply_brush(15, 15, 5 * ONE, ONE, ONE, 0, 0, 0, ONE / 3, ONE);
    e.update_velocities();
    e.move_fluid();
    for y in 0..30usize {
        for x in 0..30usize {
            assert!(e.water_at(x, y) >= 0);
            let s = e.suspended_at(x, y);
            assert!(s.0 >= 0 && s.1 >= 0 && s.2 >= 0);
        }
    }
}

#[test]
fn simulation_steps_keep_fields_non_negative() {
    let mut e = WatercolorEngine::new(25, 25);
    e.apply_brush(12, 12, 5 * ONE, ONE, ONE, 0, 0, ONE, 0, ONE);
    for _ in 0..5 {
        e.step();
    }
    for y in 0..25usize {
        for x in 0..25usize {
            assert!(e.water_at(x, y) >= 0);
            let s = e.suspended_at(x, y);
            let d = e.deposited_at(x, y);
            assert!(s.0 >= 0 && s.1 >= 0 && s.2 >= 0);
            assert!(d.0 >= 0 && d.1 >= 0 && d.2 >= 0);
        }
    }
}

#[test]
fn stamp_far_outside_footprint_leaves_cells_untouched() {
    let mut e = WatercolorEngine::new(30, 30);
    e.apply_brush(15, 15, 3 * ONE, ONE, ONE, 0, 0, 0, 0, ONE);
    // a stamp of radius 3 cells around (15, 15) cannot reach (2, 2)
    assert_eq!(e.water_at(2, 2), 0);
    assert_eq!(e.suspended_at(2, 2), (0, 0, 0));
    assert_eq!(e.mask_at(2, 2), 0);
    // while the centre cell did change
    assert!(e.water_at(15, 15) > 0);
    assert_eq!(e.mask_at(15, 15), ONE);
}

#[test]
fn fade_with_zero_strength_is_a_no_op() {
    let mut e = WatercolorEngine::new(30, 30);
    e.apply_brush(15, 15, 4 * ONE, ONE, ONE, 0, 0, 0, 0, ONE);
    let mut before = Vec::new();
    for y in 0..30usize {
        for x in 0..30usize {
            before.push((e.water_at(x, y), e.suspended_at(x, y), e.mask_at(x, y)));
        }
    }
    e.apply_fade_brush(15, 15, 4 * ONE, 0, 0, ONE);
    for y in 0..30usize {
        for x in 0..30usize {
            let now = (e.water_at(x, y), e.suspended_at(x, y), e.mask_at(x, y));
            assert_eq!(now, before[y * 30 + x]);
        }
    }
}

#[test]
fn fade_at_full_strength_keeps_at_least_a_quarter() {
    let mut e = WatercolorEngine::new(30, 30);
    e.apply_brush(15, 15, 4 * ONE, ONE, ONE, 0, 0, 0, 0, ONE);
    let before = e.suspended_at(15, 15);
    assert!(before.0 > 0);
    e.apply_fade_brush(15, 15, 4 * ONE, ONE, 0, ONE);
    let after = e.suspended_at(15, 15);
    // the fade factor is hard-capped at 0.75, so at least a quarter stays
    assert!(after.0 >= before.0 / 4);
    assert!(after.1 >= before.1 / 4);
    // at kernel centre with full strength, some pigment does fade
    assert!(after.0 < before.0);
}

#[test]
fn blue_stamp_shifts_centre_pixel_toward_blue() {
    let mut e = WatercolorEngine::new(50, 50);
    e.apply_brush(25, 25, 5 * ONE, ONE, ONE, 0, 0, ONE, 0, ONE);
    let px = e.render();
    let k = 25 * 50 + 25;
    let (r, g, b) = (px[4 * k], px[4 * k + 1], px[4 * k + 2]);
    assert!(r < b);
    assert!(g < b);
    assert!((b as i32) - (r as i32) > 10);
    // an untouched corner stays near white
    let c = 0;
    assert!(px[4 * c] >= 225 && px[4 * c + 1] >= 225 && px[4 * c + 2] >= 225);
}

#[test]
fn repeated_painting_accumulates_deposit() {
    let mut e = WatercolorEngine::new(50, 50);
    e.apply_brush(25, 25, 5 * ONE, ONE, ONE, 0, 0, ONE, 0, ONE);
    e.step();
    let d1 = e.deposited_at(25, 25);
    e.apply_brush(25, 25, 5 * ONE, ONE, ONE, 0, 0, ONE, 0, ONE);
    e.step();
    let d2 = e.deposited_at(25, 25);
    assert!(d2.0 > d1.0);
    assert!(d2.1 > d1.1);
}

#[test]
fn capillary_flow_conserves_total_water() {
    let mut e = WatercolorEngine::new(30, 30);
    e.apply_brush(15, 15, 5 * ONE, ONE, ONE / 2, 0, 0, 0, 0, ONE);
    let mut before: i64 = 0;
    for y in 0..30usize {
        for x in 0..30usize {
            before += e.water_at(x, y);
        }
    }
    assert!(before > 0);
    e.capillary_flow();
    let mut after: i64 = 0;
    for y in 0..30usize {
        for x in 0..30usize {
            after += e.water_at(x, y);
        }
    }
    assert_eq!(before, after);
}

#[test]
fn capillary_flow_spreads_into_drier_neighbours() {
    let mut e = WatercolorEngine::new(30, 30);
    e.apply_brush(15, 15, 2 * ONE, ONE, 0, 0, 0, 0, 0, ONE);
    let centre_before = e.water_at(15, 15);
    e.capillary_flow();
    assert!(e.water_at(15, 15) < centre_before);
}
