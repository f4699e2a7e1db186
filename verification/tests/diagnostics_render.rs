//! The diagnostics and the textual rendering.

use fluid_grid::diagnostics::{drag_coefficient, max_divergence};
use fluid_grid::fixed::Fx;
use fluid_grid::grid::GridState;
use fluid_grid::render::render;
use fluid_grid::stepper;

#[test]
fn max_divergence_exact_on_a_fresh_grid() {
    // 3x3, umax = 30, uniform 1 elsewhere.  The single interior cell (1,1)
    // sees du/dx = (1 - profile(1)) / 2 with profile(1) = 30*8/9 =
    // 26.666666, so |divergence| = 12.833333.
    let g = GridState::new(3, 3, Fx::from_int(30), Fx::from_int(1));
    assert_eq!(max_divergence(&g).mantissa(), 12_833_333);
}

#[test]
fn max_divergence_zero_without_interior_cells() {
    let g = GridState::new(2, 2, Fx::from_int(30), Fx::from_int(1));
    assert_eq!(max_divergence(&g).mantissa(), 0);
}

#[test]
fn projection_reduces_divergence_against_unprojected_update() {
    // Freshly constructed 8x8 grid with uniform horizontal inflow and zero
    // obstacles: one projected step must leave less divergence than the
    // same update without any pressure sweeps.
    let mut projected = GridState::new(8, 8, Fx::from_int(1), Fx::from_int(1));
    let mut unprojected = GridState::new(8, 8, Fx::from_int(1), Fx::from_int(1));
    let before = max_divergence(&projected);
    stepper::step(&mut projected);
    stepper::step_with_iterations(&mut unprojected, 0);
    let with_projection = max_divergence(&projected);
    let without_projection = max_divergence(&unprojected);
    assert!(with_projection.lt(without_projection));
    assert!(with_projection.lt(before));
    assert_eq!(with_projection.mantissa(), 246_384);
    assert_eq!(without_projection.mantissa(), 281_250);
}

#[test]
fn divergence_decays_as_the_flow_develops() {
    // After enough projected steps the field settles well below a small
    // tolerance (0.05 in real units).
    let mut g = GridState::new(8, 8, Fx::from_int(1), Fx::from_int(1));
    for _ in 0..100 {
        stepper::step(&mut g);
    }
    assert!(max_divergence(&g).mantissa() < 50_000);
    assert_eq!(max_divergence(&g).mantissa(), 18_729);
}

#[test]
fn drag_is_zero_without_obstacle_cells() {
    let mut g = GridState::new(6, 6, Fx::from_int(2), Fx::from_int(1));
    assert_eq!(drag_coefficient(&g).mantissa(), 0);
    stepper::step(&mut g);
    // Pressure is no longer zero, but with no obstacle there is no
    // asymmetry to accumulate and the reference diameter is zero.
    assert_eq!(drag_coefficient(&g).mantissa(), 0);
}

#[test]
fn drag_golden_value_around_a_small_obstacle() {
    let mut g = GridState::with_circular_obstacle(7, 7, Fx::from_int(2), Fx::from_int(1), 3, 3, 1);
    // All pressures start at zero: no asymmetry yet.
    assert_eq!(drag_coefficient(&g).mantissa(), 0);
    stepper::step(&mut g);
    assert_eq!(drag_coefficient(&g).mantissa(), 32_813_262);
}

#[test]
fn render_marks_still_slow_and_fast_cells() {
    // 2x2 grid, umax = 2, uniform 1: inlet cells carry the profile (0 at
    // row 0, 2 at row 1), the others 1.  With threshold 1.5 the glyphs are
    // blank, light, solid, light.
    let g = GridState::new(2, 2, Fx::from_int(2), Fx::from_int(1));
    let s = render(&g, Fx::new(1_500_000));
    assert_eq!(s, " \u{25fb}\n\u{25fc}\u{25fb}\n");
}

#[test]
fn render_has_one_line_per_row() {
    let g = GridState::new(4, 3, Fx::from_int(2), Fx::from_int(1));
    let s = render(&g, Fx::from_int(10));
    assert_eq!(s.lines().count(), 3);
    for line in s.lines() {
        assert_eq!(line.chars().count(), 4);
    }
}
