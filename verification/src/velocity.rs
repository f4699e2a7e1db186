//! The velocity integrator.
//!
//! [`advance`] computes the next velocity at one cell from the current full
//! field, by cell class in priority order: solid cells are held at zero
//! (no-slip); the inlet column takes the analytic parabolic profile; the
//! remaining boundary cells copy the nearest interior cell (zero-gradient);
//! interior fluid cells take one explicit Euler step combining first-order
//! upwind convection, central-difference diffusion with viscosity `0.5`,
//! and the pressure gradient, with `dt = 0.01` and `dx = dy = 1`.

use vstd::prelude::*;

use crate::fixed::{fadd, fdivi, fmuli, fmul, fsub, Fx};
use crate::grid::{
    clamp_interior, col_of, is_interior, lemma_array_lengths, lemma_row_major, lin, profile,
    profile_velocity, row_of, GridState, VelocityVector,
};

verus! {

/// The exact integer `1 / dt` with the fixed time step `dt = 0.01`:
/// multiplying by `dt` is dividing by this.
pub const INV_DT: i64 = 100;

/// First-order upwind convection term for one velocity component `w` of the
/// cell whose velocity is `(ux, uy)`: each spatial derivative is taken from
/// the upstream side of the transporting component.
pub open spec fn upwind_term(
    ux: int,
    uy: int,
    wc: int,
    wl: int,
    wr: int,
    wd: int,
    wu: int,
) -> int {
    let dwdx = if ux > 0 {
        fsub(wc, wl)
    } else {
        fsub(wr, wc)
    };
    let dwdy = if uy > 0 {
        fsub(wc, wd)
    } else {
        fsub(wu, wc)
    };
    fadd(fmul(ux, dwdx), fmul(uy, dwdy))
}

/// Central-difference diffusion term for one velocity component: the
/// five-point Laplacian scaled by the kinematic viscosity `0.5`.
pub open spec fn diffusion_term(wc: int, wl: int, wr: int, wd: int, wu: int) -> int {
    fdivi(fsub(fadd(fadd(wl, wr), fadd(wd, wu)), fmuli(wc, 4)), 2)
}

/// The next value of one velocity component of an interior fluid cell:
/// explicit forward Euler, `w + dt * (-convection + diffusion - dp)`, where
/// `dp` is the central pressure gradient `(pp - pm) / 2` in the component's
/// direction (`rho = 1`).
pub open spec fn next_component(
    ux: int,
    uy: int,
    wc: int,
    wl: int,
    wr: int,
    wd: int,
    wu: int,
    pm: int,
    pp: int,
) -> int {
    let conv = upwind_term(ux, uy, wc, wl, wr, wd, wu);
    let diff = diffusion_term(wc, wl, wr, wd, wu);
    let pg = fdivi(fsub(pp, pm), 2);
    fadd(wc, fdivi(fsub(fsub(diff, conv), pg), INV_DT as int))
}

/// The next velocity of the cell with linear index `i`, from the current
/// full velocity field `v`, pressure field `p` and obstacle mask `obs`:
/// solid cells are zero, the inlet column takes the parabolic profile, the
/// other boundary cells copy the nearest interior cell, and interior fluid
/// cells take the full convection-diffusion-pressure update.
pub open spec fn advance_cell(
    v: Seq<(int, int)>,
    p: Seq<int>,
    obs: Seq<bool>,
    w: int,
    h: int,
    umax: int,
    i: int,
) -> (int, int) {
    let r = row_of(w, i);
    let c = col_of(w, i);
    if obs[i] {
        (0int, 0int)
    } else if c == 0 {
        (profile(umax, r, h), 0int)
    } else if !is_interior(w, h, r, c) {
        v[lin(w, clamp_interior(r, h), clamp_interior(c, w))]
    } else {
        (
            next_component(
                v[i].0,
                v[i].1,
                v[i].0,
                v[i - 1].0,
                v[i + 1].0,
                v[i - w].0,
                v[i + w].0,
                p[i - 1],
                p[i + 1],
            ),
            next_component(
                v[i].0,
                v[i].1,
                v[i].1,
                v[i - 1].1,
                v[i + 1].1,
                v[i - w].1,
                v[i + w].1,
                p[i - w],
                p[i + w],
            ),
        )
    }
}

/// One explicit Euler update of one velocity component of an interior fluid
/// cell.
fn next_component_exec(
    ux: Fx,
    uy: Fx,
    wc: Fx,
    wl: Fx,
    wr: Fx,
    wd: Fx,
    wu: Fx,
    pm: Fx,
    pp: Fx,
) -> (r: Fx)
    ensures
        r@ == next_component(ux@, uy@, wc@, wl@, wr@, wd@, wu@, pm@, pp@),
{
    let dwdx = if ux.is_positive() {
        wc.sub(wl)
    } else {
        wr.sub(wc)
    };
    let dwdy = if uy.is_positive() {
        wc.sub(wd)
    } else {
        wu.sub(wc)
    };
    let conv = ux.mul(dwdx).add(uy.mul(dwdy));
    let diff = wl.add(wr).add(wd.add(wu)).sub(wc.mul_int(4)).div_int(2);
    let pg = pp.sub(pm).div_int(2);
    wc.add(diff.sub(conv).sub(pg).div_int(INV_DT))
}

/// Compute the next velocity at `(row, col)` from the current full field;
/// the caller gathers these into a fresh buffer and commits them at once.
pub fn advance(state: &GridState, row: usize, col: usize) -> (res: VelocityVector)
    requires
        state.wf(),
        (row as int) < state.h(),
        (col as int) < state.w(),
    ensures
        res@ == advance_cell(
            state.vels(),
            state.ps(),
            state.obs(),
            state.w(),
            state.h(),
            state.inflow(),
            lin(state.w(), row as int, col as int),
        ),
{
    let w = state.width();
    let h = state.height();
    proof {
        lemma_array_lengths(*state);
        lemma_row_major(w as int, h as int, row as int, col as int);
        assert(h <= 1_000_000_000) by (nonlinear_arith)
            requires
                1 <= w,
                1 <= h,
                w as int * h as int <= 1_000_000_000,
        ;
    }
    if state.obstacle_at(row, col) {
        VelocityVector::zero()
    } else if col == 0 {
        VelocityVector::new(profile_velocity(state.inflow_max(), row, h), Fx::zero())
    } else if !(1 <= row && row + 1 < h && 1 <= col && col + 1 < w) {
        let rr = if h >= 3 {
            if row < 1 {
                1
            } else if row > h - 2 {
                h - 2
            } else {
                row
            }
        } else {
            row
        };
        let cc = if w >= 3 {
            if col < 1 {
                1
            } else if col > w - 2 {
                w - 2
            } else {
                col
            }
        } else {
            col
        };
        proof {
            lemma_row_major(w as int, h as int, rr as int, cc as int);
        }
        state.velocity_at(rr, cc)
    } else {
        proof {
            lemma_row_major(w as int, h as int, row as int, (col - 1) as int);
            lemma_row_major(w as int, h as int, row as int, (col + 1) as int);
            lemma_row_major(w as int, h as int, (row - 1) as int, col as int);
            lemma_row_major(w as int, h as int, (row + 1) as int, col as int);
            assert((row - 1) as int * w + col == row as int * w + col - w && (row + 1) as int * w
                + col == row as int * w + col + w) by (nonlinear_arith);
        }
        let uc = state.velocity_at(row, col);
        let nl = state.velocity_at(row, col - 1);
        let nr = state.velocity_at(row, col + 1);
        let nd = state.velocity_at(row - 1, col);
        let nu = state.velocity_at(row + 1, col);
        let p_l = state.pressure_at(row, col - 1);
        let p_r = state.pressure_at(row, col + 1);
        let p_d = state.pressure_at(row - 1, col);
        let p_u = state.pressure_at(row + 1, col);
        let nx = next_component_exec(uc.x, uc.y, uc.x, nl.x, nr.x, nd.x, nu.x, p_l, p_r);
        let ny = next_component_exec(uc.x, uc.y, uc.y, nl.y, nr.y, nd.y, nu.y, p_d, p_u);
        VelocityVector::new(nx, ny)
    }
}

} // verus!
