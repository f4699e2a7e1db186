//! The step pipeline end to end: golden numeric regression, obstacle and
//! inlet policy over many steps, and Jacobi determinism.

use fluid_grid::fixed::Fx;
use fluid_grid::grid::GridState;
use fluid_grid::pressure;
use fluid_grid::stepper;

#[test]
fn golden_interior_update_on_five_by_five() {
    // 5x5, no obstacles, uniform (1, 0) off the inlet, parabolic inlet with
    // umax = 30.  After one step, cell (2, 2) must equal the value the
    // documented formulas give by hand.
    let mut g = GridState::new(5, 5, Fx::from_int(30), Fx::from_int(1));
    stepper::step(&mut g);
    let v = g.velocity_at(2, 2);
    assert_eq!(v.x.mantissa(), 3_807_142);
    assert_eq!(v.y.mantissa(), -171_428);
    // Recompute the horizontal component by hand from the committed
    // pressure field: around (2, 2) the initial field is uniform, so the
    // convection and diffusion terms vanish and only the pressure gradient
    // acts: v_new = 1 + dt * (-(p_right - p_left) / 2).
    let pgx = g.pressure_at(2, 3).sub(g.pressure_at(2, 1)).div_int(2);
    let expected = Fx::from_int(1).add(Fx::zero().sub(pgx).div_int(100));
    assert_eq!(v.x.mantissa(), expected.mantissa());
    // Golden value of the relaxed pressure itself.
    assert_eq!(g.pressure_at(2, 2).mantissa(), 317_499_985);
    // A cell next to the inlet sees convection and diffusion as well.
    let v11 = g.velocity_at(1, 1);
    assert_eq!(v11.x.mantissa(), 205_590);
    assert_eq!(v11.y.mantissa(), -1_164_732);
}

#[test]
fn boundary_cells_copy_the_nearest_interior_cell() {
    // The zero-gradient boundary reads the pre-step field: after the first
    // step the walls and the outlet still carry the old uniform (1, 0).
    let mut g = GridState::new(5, 5, Fx::from_int(30), Fx::from_int(1));
    stepper::step(&mut g);
    for (r, c) in [(0usize, 2usize), (4, 2), (2, 4), (0, 4)] {
        let v = g.velocity_at(r, c);
        assert_eq!(v.x.mantissa(), 1_000_000);
        assert_eq!(v.y.mantissa(), 0);
    }
    // The second step copies the interior values the first step produced:
    // the top-row cell (0, 2) now equals the previous step's cell (1, 2).
    let inner = g.velocity_at(1, 2);
    stepper::step(&mut g);
    let copied = g.velocity_at(0, 2);
    assert_eq!(copied.x.mantissa(), inner.x.mantissa());
    assert_eq!(copied.y.mantissa(), inner.y.mantissa());
    assert_eq!(copied.x.mantissa(), 2_839_285);
    assert_eq!(copied.y.mantissa(), -520_089);
}

#[test]
fn center_obstacle_stays_inert_over_many_steps() {
    // 3x3 grid, the single center cell solid: its velocity and pressure
    // stay exactly zero after any number of steps.
    let mut g = GridState::with_circular_obstacle(3, 3, Fx::from_int(2), Fx::from_int(1), 1, 1, 0);
    for _ in 0..5 {
        stepper::step(&mut g);
        let v = g.velocity_at(1, 1);
        assert_eq!(v.x.mantissa(), 0);
        assert_eq!(v.y.mantissa(), 0);
        assert_eq!(g.pressure_at(1, 1).mantissa(), 0);
    }
}

#[test]
fn all_obstacle_cells_stay_inert_after_steps() {
    let mut g = GridState::with_circular_obstacle(9, 9, Fx::from_int(2), Fx::from_int(1), 4, 4, 2);
    for _ in 0..3 {
        stepper::step(&mut g);
    }
    for r in 0..9 {
        for c in 0..9 {
            if g.obstacle_at(r, c) {
                let v = g.velocity_at(r, c);
                assert_eq!(v.x.mantissa(), 0);
                assert_eq!(v.y.mantissa(), 0);
                assert_eq!(g.pressure_at(r, c).mantissa(), 0);
            }
        }
    }
}

#[test]
fn inlet_column_holds_the_profile_after_steps() {
    let mut g = GridState::new(6, 5, Fx::from_int(30), Fx::from_int(1));
    for _ in 0..4 {
        stepper::step(&mut g);
    }
    let expected: [i64; 5] = [0, 19_200_000, 28_800_000, 28_800_000, 19_200_000];
    for y in 0..5 {
        let v = g.velocity_at(y, 0);
        assert_eq!(v.x.mantissa(), expected[y]);
        assert_eq!(v.y.mantissa(), 0);
    }
}

#[test]
fn step_preserves_the_array_lengths() {
    let mut g = GridState::new(8, 8, Fx::from_int(1), Fx::from_int(1));
    for _ in 0..3 {
        stepper::step(&mut g);
        assert_eq!(g.velocity_field().len(), 64);
        assert_eq!(g.pressure_field().len(), 64);
        assert_eq!(g.obstacle_mask().len(), 64);
    }
}

#[test]
fn relax_is_deterministic_in_the_snapshot() {
    // Two identical snapshots relax to identical pressure fields: the
    // sweeps are pure functions of the previous field (Jacobi).
    let mut a = GridState::new(6, 6, Fx::from_int(3), Fx::from_int(1));
    let mut b = GridState::new(6, 6, Fx::from_int(3), Fx::from_int(1));
    pressure::relax(&mut a, 25);
    pressure::relax(&mut b, 25);
    for r in 0..6 {
        for c in 0..6 {
            assert_eq!(a.pressure_at(r, c).mantissa(), b.pressure_at(r, c).mantissa());
        }
    }
}

#[test]
fn relax_is_a_no_op_on_degenerate_grids() {
    // No interior cells: 2 wide.  The solver must neither panic nor index
    // out of bounds, and must leave the pressure untouched.
    let mut g = GridState::new(2, 5, Fx::from_int(1), Fx::from_int(1));
    pressure::relax(&mut g, 50);
    for r in 0..5 {
        for c in 0..2 {
            assert_eq!(g.pressure_at(r, c).mantissa(), 0);
        }
    }
    stepper::step(&mut g);
    assert_eq!(g.width(), 2);
    assert_eq!(g.height(), 5);
}

#[test]
fn single_cell_grid_steps_without_panic() {
    let mut g = GridState::new(1, 1, Fx::from_int(1), Fx::from_int(1));
    stepper::step(&mut g);
    // The single cell is the inlet column: profile at y = 0 is zero.
    assert_eq!(g.velocity_at(0, 0).x.mantissa(), 0);
    assert_eq!(g.velocity_at(0, 0).y.mantissa(), 0);
}
