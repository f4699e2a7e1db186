//! Flow-quality diagnostics: pure read-only functions over the grid.
//!
//! [`max_divergence`] scans all interior cells for the largest magnitude of
//! the central-difference divergence, a numerical proxy for how well
//! incompressibility is currently satisfied.  [`drag_coefficient`]
//! accumulates the pressure asymmetry on the fluid cells facing the
//! obstacle and normalizes it by the dynamic pressure; a non-positive
//! normalization denominator yields the neutral value zero.

use vstd::arithmetic::div_mod::{lemma_div_basics, lemma_fundamental_div_mod};
use vstd::prelude::*;

use crate::fixed::{fabs, fadd, fdiv, fdivi, fmul, fsub, Fx};
use crate::grid::{col_of, is_interior, lemma_array_lengths, lemma_row_major, row_of, GridState};
use crate::pressure::divergence_at;

verus! {

/// Largest divergence magnitude among the interior cells with linear index
/// below `n`; zero when there are none.
pub open spec fn max_div_upto(v: Seq<(int, int)>, w: int, h: int, n: nat) -> int
    decreases n,
{
    if n == 0 {
        0
    } else {
        let i = n - 1;
        let prev = max_div_upto(v, w, h, (n - 1) as nat);
        if is_interior(w, h, row_of(w, i), col_of(w, i)) {
            let d = fabs(divergence_at(v, w, i));
            if d > prev {
                d
            } else {
                prev
            }
        } else {
            prev
        }
    }
}

/// Largest divergence magnitude over all interior cells of the grid; zero
/// on grids with no interior cells.
pub open spec fn max_divergence_spec(v: Seq<(int, int)>, w: int, h: int) -> int {
    max_div_upto(v, w, h, (w * h) as nat)
}

/// The signed pressure sum over the fluid cells facing the obstacle, taken
/// over the interior cells with linear index below `n` in row-major order:
/// a fluid cell whose right neighbor is solid sits upstream of the obstacle
/// and adds its pressure; one whose left neighbor is solid sits downstream
/// and subtracts it.
pub open spec fn drag_sum_upto(p: Seq<int>, obs: Seq<bool>, w: int, h: int, n: nat) -> int
    decreases n,
{
    if n == 0 {
        0
    } else {
        let i = n - 1;
        let prev = drag_sum_upto(p, obs, w, h, (n - 1) as nat);
        if is_interior(w, h, row_of(w, i), col_of(w, i)) && !obs[i] {
            let a = if obs[i + 1] {
                fadd(prev, p[i])
            } else {
                prev
            };
            if obs[i - 1] {
                fsub(a, p[i])
            } else {
                a
            }
        } else {
            prev
        }
    }
}

/// The normalization denominator `0.5 * rho * umax^2 * diam` with
/// `rho = 1`.
pub open spec fn dynamic_pressure(umax: int, diam: int) -> int {
    fdivi(fmul(fmul(umax, umax), diam), 2)
}

/// The drag coefficient: the pressure asymmetry around the obstacle divided
/// by the dynamic pressure, or zero when the denominator is not positive.
pub open spec fn drag_spec(
    p: Seq<int>,
    obs: Seq<bool>,
    w: int,
    h: int,
    umax: int,
    diam: int,
) -> int {
    let denom = dynamic_pressure(umax, diam);
    if denom <= 0 {
        0
    } else {
        fdiv(drag_sum_upto(p, obs, w, h, (w * h) as nat), denom)
    }
}

/// With no solid cell anywhere, no cell faces the obstacle, so the pressure
/// sum is zero.
pub proof fn lemma_drag_sum_no_obstacle(p: Seq<int>, obs: Seq<bool>, w: int, h: int, n: nat)
    requires
        obs.len() == w * h,
        1 <= w,
        1 <= h,
        n <= obs.len(),
        forall|i: int| 0 <= i < obs.len() ==> !(#[trigger] obs[i]),
    ensures
        drag_sum_upto(p, obs, w, h, n) == 0,
    decreases n,
{
    if n > 0 {
        lemma_drag_sum_no_obstacle(p, obs, w, h, (n - 1) as nat);
        let i = n - 1;
        if is_interior(w, h, row_of(w, i), col_of(w, i)) && !obs[i] {
            lemma_fundamental_div_mod(i, w);
            assert(0 <= i - 1 && i + 1 < w * h) by (nonlinear_arith)
                requires
                    i == w * (i / w) + i % w,
                    1 <= i / w < h - 1,
                    1 <= i % w < w - 1,
                    1 <= w,
            ;
        }
    }
}

/// Maximum absolute central-difference divergence over all interior cells;
/// zero on grids with no interior cells.
pub fn max_divergence(state: &GridState) -> (res: Fx)
    requires
        state.wf(),
    ensures
        res@ == max_divergence_spec(state.vels(), state.w(), state.h()),
{
    let w = state.width();
    let h = state.height();
    let ghost v = state.vels();
    proof {
        lemma_array_lengths(*state);
    }
    let mut cur: Fx = Fx::zero();
    let mut r: usize = 0;
    while r < h
        invariant
            state.wf(),
            r <= h,
            1 <= w,
            1 <= h,
            w as int == state.w(),
            h as int == state.h(),
            v == state.vels(),
            v.len() == w * h,
            cur@ == max_div_upto(v, w as int, h as int, (r * w) as nat),
        decreases h - r,
    {
        let mut c: usize = 0;
        proof {
            assert(r * w + w <= h * w && h * w == w * h) by (nonlinear_arith)
                requires
                    r < h,
                    1 <= w,
            ;
        }
        while c < w
            invariant
                state.wf(),
                c <= w,
                r < h,
                1 <= w,
                1 <= h,
                w as int == state.w(),
                h as int == state.h(),
                v == state.vels(),
                v.len() == w * h,
                r * w + w <= w * h,
                cur@ == max_div_upto(v, w as int, h as int, (r * w + c) as nat),
            decreases w - c,
        {
            proof {
                lemma_row_major(w as int, h as int, r as int, c as int);
            }
            if 1 <= r && r + 1 < h && 1 <= c && c + 1 < w {
                let d = crate::pressure::divergence(state, r, c).abs();
                if d.gt(cur) {
                    cur = d;
                }
            }
            c = c + 1;
        }
        proof {
            assert((r as int + 1) * w == r as int * w + w) by (nonlinear_arith);
        }
        r = r + 1;
    }
    proof {
        assert(h as int * w as int == w as int * h as int) by (nonlinear_arith);
    }
    cur
}

/// Drag coefficient from the pressure asymmetry around the obstacle,
/// normalized by the dynamic pressure `0.5 * rho * umax^2 * diam`; zero
/// when that denominator is not positive, and zero on a grid with no
/// obstacle cells at all.
pub fn drag_coefficient(state: &GridState) -> (res: Fx)
    requires
        state.wf(),
    ensures
        res@ == drag_spec(
            state.ps(),
            state.obs(),
            state.w(),
            state.h(),
            state.inflow(),
            state.diam(),
        ),
        (forall|i: int| 0 <= i < state.obs().len() ==> !(#[trigger] state.obs()[i])) ==> res@
            == 0,
{
    let w = state.width();
    let h = state.height();
    let ghost p = state.ps();
    let ghost obs = state.obs();
    proof {
        lemma_array_lengths(*state);
    }
    let mut acc: Fx = Fx::zero();
    let mut r: usize = 0;
    while r < h
        invariant
            state.wf(),
            r <= h,
            1 <= w,
            1 <= h,
            w as int == state.w(),
            h as int == state.h(),
            p == state.ps(),
            obs == state.obs(),
            p.len() == w * h,
            obs.len() == w * h,
            acc@ == drag_sum_upto(p, obs, w as int, h as int, (r * w) as nat),
        decreases h - r,
    {
        let mut c: usize = 0;
        proof {
            assert(r * w + w <= h * w && h * w == w * h) by (nonlinear_arith)
                requires
                    r < h,
                    1 <= w,
            ;
        }
        while c < w
            invariant
                state.wf(),
                c <= w,
                r < h,
                1 <= w,
                1 <= h,
                w as int == state.w(),
                h as int == state.h(),
                p == state.ps(),
                obs == state.obs(),
                p.len() == w * h,
                obs.len() == w * h,
                r * w + w <= w * h,
                acc@ == drag_sum_upto(p, obs, w as int, h as int, (r * w + c) as nat),
            decreases w - c,
        {
            proof {
                lemma_row_major(w as int, h as int, r as int, c as int);
            }
            if 1 <= r && r + 1 < h && 1 <= c && c + 1 < w && !state.obstacle_at(r, c) {
                proof {
                    lemma_row_major(w as int, h as int, r as int, (c - 1) as int);
                    lemma_row_major(w as int, h as int, r as int, (c + 1) as int);
                }
                if state.obstacle_at(r, c + 1) {
                    acc = acc.add(state.pressure_at(r, c));
                }
                if state.obstacle_at(r, c - 1) {
                    acc = acc.sub(state.pressure_at(r, c));
                }
            }
            c = c + 1;
        }
        proof {
            assert((r as int + 1) * w == r as int * w + w) by (nonlinear_arith);
        }
        r = r + 1;
    }
    proof {
        assert(h as int * w as int == w as int * h as int) by (nonlinear_arith);
    }
    let denom = state.inflow_max().mul(state.inflow_max()).mul(state.diameter()).div_int(2);
    let res = if denom.is_positive() {
        acc.div(denom)
    } else {
        Fx::zero()
    };
    proof {
        if forall|i: int| 0 <= i < state.obs().len() ==> !(#[trigger] state.obs()[i]) {
            lemma_drag_sum_no_obstacle(p, obs, w as int, h as int, (w * h) as nat);
            if denom@ > 0 {
                lemma_div_basics(denom@);
            }
        }
    }
    res
}

} // verus!
