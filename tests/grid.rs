use spin::{GridCell, PolarGrid, TURN};

fn eighth_turn() -> i64 {
    (TURN / 8) as i64
}

#[test]
fn quarter_disc_point_at_forty_five_degrees() {
    let grid = PolarGrid::new(2, 4);
    let cell = grid.cell_at(300, 300, 1000, eighth_turn());
    assert_eq!(cell, Some(GridCell { radial_index: 0, angular_index: 1 }));
}

#[test]
fn point_on_or_outside_circle_has_no_cell() {
    let grid = PolarGrid::new(2, 4);
    assert_eq!(grid.cell_at(1000, 0, 1000, 0), None);
    assert_eq!(grid.cell_at(600, 800, 1000, 0), None);
    assert_eq!(grid.cell_at(-5000, 7000, 1000, 0), None);
    assert_eq!(grid.cell_at(0, 0, 0, 0), None);
}

#[test]
fn ring_bounds_hold_for_points_inside() {
    let grid = PolarGrid::new(16, 72);
    let scale: u32 = 1000;
    for x in (-999i64..1000).step_by(37) {
        for y in (-999i64..1000).step_by(41) {
            let d2 = (x * x + y * y) as f64;
            if d2 >= (scale as f64) * (scale as f64) {
                assert_eq!(grid.ring(x, y, scale), None);
                continue;
            }
            let k = grid.ring(x, y, scale).unwrap() as f64;
            let r = d2.sqrt();
            let pitch = scale as f64 / 16.0;
            assert!(k * pitch <= r + 1e-9);
            assert!(r < (k + 1.0) * pitch);
        }
    }
}

#[test]
fn ring_index_exact_values() {
    let grid = PolarGrid::new(4, 8);
    assert_eq!(grid.ring(0, 0, 100), Some(0));
    assert_eq!(grid.ring(24, 0, 100), Some(0));
    assert_eq!(grid.ring(25, 0, 100), Some(1));
    assert_eq!(grid.ring(0, -50, 100), Some(2));
    assert_eq!(grid.ring(60, 80, 100), None);
    assert_eq!(grid.ring(59, 80, 100), Some(3));
}

#[test]
fn angle_just_below_zero_wraps_to_last_edge() {
    // a tenth of a milliradian below zero, in units of TURN
    let small = (0.0001 / (2.0 * std::f64::consts::PI) * TURN as f64).round() as i64;
    for bins in [1u32, 4, 7, 72, 360] {
        let grid = PolarGrid::new(3, bins);
        assert_eq!(grid.sector(-small), grid.sector(TURN as i64 - small));
    }
    assert_eq!(PolarGrid::new(3, 72).sector(-small), 0);
}

#[test]
fn sector_takes_upper_edge() {
    let grid = PolarGrid::new(1, 4);
    assert_eq!(grid.sector(0), 0);
    assert_eq!(grid.sector(1), 1);
    assert_eq!(grid.sector(250_000), 1);
    assert_eq!(grid.sector(250_001), 2);
    assert_eq!(grid.sector(999_999), 0);
    assert_eq!(grid.sector(-250_000), 3);
    assert_eq!(grid.sector(1_250_000), 1);
    assert_eq!(grid.sector(i64::MIN), grid.sector(i64::MIN + TURN as i64));
}

#[test]
fn inverse_angle_and_radius() {
    let grid = PolarGrid::new(16, 72);
    assert_eq!(grid.sector_angle(0), 0);
    assert_eq!(grid.sector_angle(18), 250_000);
    assert_eq!(grid.sector_angle(1), 13_888);
    assert_eq!(grid.ring_radius(0, 800), 0);
    assert_eq!(grid.ring_radius(4, 800), 200);
    assert_eq!(grid.ring_radius(15, 1000), 937);
}
