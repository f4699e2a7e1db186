//! The step controller.
//!
//! [`step`] advances the simulation by one generation: it relaxes the
//! pressure field, computes the next velocity for every cell into a fresh
//! buffer from the current full field, and then commits that buffer as a
//! single atomic replacement, so no partially updated generation is ever
//! observable.  The obstacle mask and the construction parameters never
//! change.

use vstd::prelude::*;

use crate::grid::{
    lemma_array_lengths, lemma_obstacle_cells_inert, lemma_row_major, lin, profile, GridState,
    VelocityVector,
};
use crate::pressure::{relax, relax_spec};
use crate::velocity::{advance, advance_cell};

verus! {

/// Number of Jacobi sweeps the pressure solver runs each step: a fixed
/// convergence-versus-cost budget, with no dynamic convergence check.
pub const PRESSURE_ITERATIONS: usize = 50;

/// Advance the grid by one generation with an explicit sweep budget for
/// the pressure solver; [`step`] uses the reference budget.
///
/// The contract pins both new fields down exactly; in particular every
/// solid cell ends with velocity `(0, 0)` and pressure `0`, and every
/// non-solid inlet cell ends at the parabolic profile with zero vertical
/// component.
pub fn step_with_iterations(state: &mut GridState, iterations: usize)
    requires
        old(state).wf(),
    ensures
        final(state).wf(),
        final(state).w() == old(state).w(),
        final(state).h() == old(state).h(),
        final(state).obs() == old(state).obs(),
        final(state).inflow() == old(state).inflow(),
        final(state).diam() == old(state).diam(),
        final(state).ps() == relax_spec(
            old(state).ps(),
            old(state).vels(),
            old(state).obs(),
            old(state).w(),
            old(state).h(),
            iterations as nat,
        ),
        final(state).vels().len() == old(state).w() * old(state).h(),
        forall|i: int|
            0 <= i < old(state).w() * old(state).h() ==> #[trigger] final(state).vels()[i]
                == advance_cell(
                old(state).vels(),
                final(state).ps(),
                old(state).obs(),
                old(state).w(),
                old(state).h(),
                old(state).inflow(),
                i,
            ),
        forall|i: int|
            0 <= i < old(state).w() * old(state).h() && #[trigger] old(state).obs()[i]
                ==> final(state).vels()[i] == (0int, 0int) && final(state).ps()[i] == 0,
        forall|r: int|
            0 <= r < old(state).h() && !old(state).obs()[lin(old(state).w(), r, 0)]
                ==> #[trigger] final(state).vels()[lin(old(state).w(), r, 0)] == (
            profile(old(state).inflow(), r, old(state).h()),
            0int,
            ),
{
    let ghost v0 = state.vels();
    let ghost obs0 = state.obs();
    let ghost inflow0 = state.inflow();
    let ghost diam0 = state.diam();
    relax(state, iterations);
    let ghost p1 = state.ps();
    let w = state.width();
    let h = state.height();
    proof {
        lemma_array_lengths(*state);
    }
    let n: usize = w * h;
    let mut newv: Vec<VelocityVector> = Vec::new();
    let mut r: usize = 0;
    while r < h
        invariant
            state.wf(),
            r <= h,
            1 <= w,
            1 <= h,
            w as int == state.w(),
            h as int == state.h(),
            n == w * h,
            v0 == state.vels(),
            obs0 == state.obs(),
            p1 == state.ps(),
            inflow0 == state.inflow(),
            diam0 == state.diam(),
            newv@.len() == r * w,
            forall|k: int|
                0 <= k < newv@.len() ==> (#[trigger] newv@[k])@ == advance_cell(
                    v0,
                    p1,
                    obs0,
                    w as int,
                    h as int,
                    inflow0,
                    k,
                ),
        decreases h - r,
    {
        let mut c: usize = 0;
        proof {
            assert(r * w + w <= h * w && h * w == w * h) by (nonlinear_arith)
                requires
                    r < h,
                    1 <= w,
            ;
        }
        while c < w
            invariant
                state.wf(),
                c <= w,
                r < h,
                1 <= w,
                1 <= h,
                w as int == state.w(),
                h as int == state.h(),
                n == w * h,
                v0 == state.vels(),
                obs0 == state.obs(),
                p1 == state.ps(),
                inflow0 == state.inflow(),
                diam0 == state.diam(),
                r * w + w <= w * h,
                newv@.len() == r * w + c,
                forall|k: int|
                    0 <= k < newv@.len() ==> (#[trigger] newv@[k])@ == advance_cell(
                        v0,
                        p1,
                        obs0,
                        w as int,
                        h as int,
                        inflow0,
                        k,
                    ),
            decreases w - c,
        {
            proof {
                lemma_row_major(w as int, h as int, r as int, c as int);
            }
            let val = advance(state, r, c);
            newv.push(val);
            c = c + 1;
        }
        proof {
            assert((r as int + 1) * w == r as int * w + w) by (nonlinear_arith);
        }
        r = r + 1;
    }
    proof {
        assert(h as int * w as int == w as int * h as int) by (nonlinear_arith);
    }
    state.replace_velocity(newv);
    proof {
        lemma_obstacle_cells_inert(*state);
        assert forall|r2: int|
            0 <= r2 < h as int && !obs0[lin(w as int, r2, 0)] implies #[trigger] state.vels()[lin(
            w as int,
            r2,
            0,
        )] == (profile(inflow0, r2, h as int), 0int) by {
            lemma_row_major(w as int, h as int, r2, 0);
        }
    }
}

/// Advance the grid by one generation: pressure relaxation with
/// [`PRESSURE_ITERATIONS`] sweeps, then one velocity update of every cell
/// from the current full field, committed atomically.
pub fn step(state: &mut GridState)
    requires
        old(state).wf(),
    ensures
        final(state).wf(),
        final(state).w() == old(state).w(),
        final(state).h() == old(state).h(),
        final(state).obs() == old(state).obs(),
        final(state).inflow() == old(state).inflow(),
        final(state).diam() == old(state).diam(),
        final(state).ps() == relax_spec(
            old(state).ps(),
            old(state).vels(),
            old(state).obs(),
            old(state).w(),
            old(state).h(),
            PRESSURE_ITERATIONS as nat,
        ),
        final(state).vels().len() == old(state).w() * old(state).h(),
        forall|i: int|
            0 <= i < old(state).w() * old(state).h() ==> #[trigger] final(state).vels()[i]
                == advance_cell(
                old(state).vels(),
                final(state).ps(),
                old(state).obs(),
                old(state).w(),
                old(state).h(),
                old(state).inflow(),
                i,
            ),
        forall|i: int|
            0 <= i < old(state).w() * old(state).h() && #[trigger] old(state).obs()[i]
                ==> final(state).vels()[i] == (0int, 0int) && final(state).ps()[i] == 0,
        forall|r: int|
            0 <= r < old(state).h() && !old(state).obs()[lin(old(state).w(), r, 0)]
                ==> #[trigger] final(state).vels()[lin(old(state).w(), r, 0)] == (
            profile(old(state).inflow(), r, old(state).h()),
            0int,
            ),
{
    step_with_iterations(state, PRESSURE_ITERATIONS)
}

} // verus!
