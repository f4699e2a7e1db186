//! Construction of the grid state: parallel arrays, initial condition,
//! inlet profile, circular obstacle mask.

use fluid_grid::fixed::Fx;
use fluid_grid::grid::{GridState, VelocityVector};

#[test]
fn velocity_vectors_subtract_componentwise() {
    let a = VelocityVector::new(Fx::from_int(3), Fx::from_int(1));
    let b = VelocityVector::new(Fx::from_int(1), Fx::from_int(2));
    let d = a.sub(b);
    assert_eq!(d.x.mantissa(), 2_000_000);
    assert_eq!(d.y.mantissa(), -1_000_000);
}

#[test]
fn parallel_arrays_share_one_length() {
    let g = GridState::new(7, 4, Fx::from_int(2), Fx::from_int(1));
    assert_eq!(g.width(), 7);
    assert_eq!(g.height(), 4);
    assert_eq!(g.velocity_field().len(), 28);
    assert_eq!(g.pressure_field().len(), 28);
    assert_eq!(g.obstacle_mask().len(), 28);
}

#[test]
fn pressure_starts_at_zero_everywhere() {
    let g = GridState::new(5, 5, Fx::from_int(30), Fx::from_int(1));
    for r in 0..5 {
        for c in 0..5 {
            assert_eq!(g.pressure_at(r, c).mantissa(), 0);
        }
    }
}

#[test]
fn inlet_column_follows_parabolic_profile() {
    // umax * 4 * (y/h) * (1 - y/h) with umax = 30, h = 5:
    // mantissas 0, 19.2, 28.8, 28.8, 19.2 (all times 10^6)
    let g = GridState::new(5, 5, Fx::from_int(30), Fx::from_int(1));
    let expected: [i64; 5] = [0, 19_200_000, 28_800_000, 28_800_000, 19_200_000];
    for y in 0..5 {
        let v = g.velocity_at(y, 0);
        assert_eq!(v.x.mantissa(), expected[y]);
        assert_eq!(v.y.mantissa(), 0);
    }
}

#[test]
fn uniform_initial_velocity_off_the_inlet() {
    let g = GridState::new(4, 3, Fx::from_int(2), Fx::from_int(1));
    for r in 0..3 {
        for c in 1..4 {
            let v = g.velocity_at(r, c);
            assert_eq!(v.x.mantissa(), 1_000_000);
            assert_eq!(v.y.mantissa(), 0);
        }
    }
}

#[test]
fn plain_grid_has_no_obstacle_and_zero_diameter() {
    let g = GridState::new(6, 6, Fx::from_int(2), Fx::from_int(1));
    for r in 0..6 {
        for c in 0..6 {
            assert!(!g.obstacle_at(r, c));
        }
    }
    assert_eq!(g.diameter().mantissa(), 0);
}

#[test]
fn zero_radius_circle_marks_exactly_the_center() {
    let g = GridState::with_circular_obstacle(3, 3, Fx::from_int(2), Fx::from_int(1), 1, 1, 0);
    for r in 0..3 {
        for c in 0..3 {
            assert_eq!(g.obstacle_at(r, c), r == 1 && c == 1);
        }
    }
    assert_eq!(g.velocity_at(1, 1).x.mantissa(), 0);
    assert_eq!(g.velocity_at(1, 1).y.mantissa(), 0);
    assert_eq!(g.pressure_at(1, 1).mantissa(), 0);
    assert_eq!(g.diameter().mantissa(), 0);
}

#[test]
fn radius_one_circle_marks_the_plus_shape() {
    let g = GridState::with_circular_obstacle(7, 7, Fx::from_int(2), Fx::from_int(1), 3, 3, 1);
    let mut count: usize = 0;
    for r in 0..7 {
        for c in 0..7 {
            let dr = r as i64 - 3;
            let dc = c as i64 - 3;
            let inside = dr * dr + dc * dc <= 1;
            assert_eq!(g.obstacle_at(r, c), inside);
            if inside {
                count += 1;
            }
        }
    }
    assert_eq!(count, 5);
    // diameter 2 * radius = 2
    assert_eq!(g.diameter().mantissa(), 2_000_000);
}

#[test]
fn mask_constructor_keeps_the_given_geometry() {
    let mut mask = vec![false; 12];
    mask[5] = true;
    let g = GridState::from_mask(4, 3, Fx::from_int(2), Fx::from_int(1), mask, Fx::from_int(1));
    assert!(g.obstacle_at(1, 1));
    assert!(!g.obstacle_at(0, 0));
    assert_eq!(g.velocity_at(1, 1).x.mantissa(), 0);
    assert_eq!(g.diameter().mantissa(), 1_000_000);
    assert_eq!(g.inflow_max().mantissa(), 2_000_000);
}
