//! The pressure solver.
//!
//! [`relax`] performs a fixed number of Jacobi sweeps of the discrete
//! pressure-Poisson equation `laplacian(p) = (rho/dt) * div(u)` and then
//! applies the boundary policy once: inlet column fixed at zero, outlet
//! column and walls zero-gradient (copied from the nearest interior
//! neighbor), solid cells held at zero.
//!
//! Every sweep value is defined pointwise from the previous sweep's full
//! field (Jacobi, not Gauss-Seidel), so the result is a pure function of the
//! velocity/obstacle/pressure snapshot, independent of any scan order within
//! a sweep.  Grids with no interior cells (width or height below 3) are left
//! untouched.

use vstd::prelude::*;

use crate::fixed::{fadd, fdivi, fmuli, fsub, Fx};
use crate::grid::{
    clamp_interior, col_of, is_interior, lemma_row_major, lin, row_of, GridState,
};

verus! {

/// The exact integer `rho / dt` with the fixed parameters `rho = 1`,
/// `dt = 0.01`: the factor on the divergence source term.
pub const RHO_OVER_DT: i64 = 100;

/// Central-difference divergence `du/dx + dv/dy` at the interior cell with
/// linear index `i`, with `dx = dy = 1`.
pub open spec fn divergence_at(v: Seq<(int, int)>, w: int, i: int) -> int {
    fadd(
        fdivi(fsub(v[i + 1].0, v[i - 1].0), 2),
        fdivi(fsub(v[i + w].1, v[i - w].1), 2),
    )
}

/// The value one Jacobi sweep gives the cell with linear index `i`:
/// interior fluid cells take the five-point stencil with the divergence
/// source term, interior solid cells are forced to zero, and the outermost
/// ring keeps its pressure (the boundary policy handles it after the
/// sweeps).
pub open spec fn sweep_cell(
    p: Seq<int>,
    v: Seq<(int, int)>,
    obs: Seq<bool>,
    w: int,
    h: int,
    i: int,
) -> int {
    let r = row_of(w, i);
    let c = col_of(w, i);
    if is_interior(w, h, r, c) {
        if obs[i] {
            0
        } else {
            fdivi(
                fsub(
                    fadd(fadd(p[i - 1], p[i + 1]), fadd(p[i - w], p[i + w])),
                    fmuli(divergence_at(v, w, i), RHO_OVER_DT as int),
                ),
                4,
            )
        }
    } else {
        p[i]
    }
}

/// One full Jacobi sweep: every cell's new value reads only the previous
/// field `p`.
pub open spec fn sweep(
    p: Seq<int>,
    v: Seq<(int, int)>,
    obs: Seq<bool>,
    w: int,
    h: int,
) -> Seq<int> {
    Seq::new(p.len(), |i: int| sweep_cell(p, v, obs, w, h, i))
}

/// `n` Jacobi sweeps in order.
pub open spec fn sweeps(
    p: Seq<int>,
    v: Seq<(int, int)>,
    obs: Seq<bool>,
    w: int,
    h: int,
    n: nat,
) -> Seq<int>
    decreases n,
{
    if n == 0 {
        p
    } else {
        sweep(sweeps(p, v, obs, w, h, (n - 1) as nat), v, obs, w, h)
    }
}

/// The boundary policy's value for the cell with linear index `i`, given
/// the post-sweep field `p`: interior cells keep their value; solid cells
/// are held at zero; the inlet column is fixed at zero; every other
/// boundary cell copies the nearest interior cell (zero-gradient).
pub open spec fn boundary_cell(p: Seq<int>, obs: Seq<bool>, w: int, h: int, i: int) -> int {
    let r = row_of(w, i);
    let c = col_of(w, i);
    if is_interior(w, h, r, c) {
        p[i]
    } else if obs[i] {
        0
    } else if c == 0 {
        0
    } else {
        p[lin(w, clamp_interior(r, h), clamp_interior(c, w))]
    }
}

/// The pressure field after `relax` with `n` sweeps: unchanged on grids
/// with no interior cells, otherwise `n` Jacobi sweeps followed by one
/// boundary pass.
pub open spec fn relax_spec(
    p0: Seq<int>,
    v: Seq<(int, int)>,
    obs: Seq<bool>,
    w: int,
    h: int,
    n: nat,
) -> Seq<int> {
    if w < 3 || h < 3 {
        p0
    } else {
        let pk = sweeps(p0, v, obs, w, h, n);
        Seq::new(p0.len(), |i: int| boundary_cell(pk, obs, w, h, i))
    }
}

/// Jacobi sweeps are pointwise: the sweep's value at any cell is a function
/// of the previous field alone, never of other cells' new values, so the
/// result of a sweep does not depend on the order in which its cells are
/// computed.
pub proof fn lemma_sweep_pointwise(
    p: Seq<int>,
    v: Seq<(int, int)>,
    obs: Seq<bool>,
    w: int,
    h: int,
    i: int,
)
    requires
        0 <= i < p.len(),
    ensures
        sweep(p, v, obs, w, h)[i] == sweep_cell(p, v, obs, w, h, i),
{
}

/// Jacobi relaxation is deterministic in the snapshot it starts from: two
/// grids with the same dimensions, velocity field, obstacle mask and
/// pressure field relax to the same pressure field for any sweep count.
pub proof fn lemma_relax_order_independent(a: GridState, b: GridState, n: nat)
    requires
        a.w() == b.w(),
        a.h() == b.h(),
        a.vels() == b.vels(),
        a.obs() == b.obs(),
        a.ps() == b.ps(),
    ensures
        relax_spec(a.ps(), a.vels(), a.obs(), a.w(), a.h(), n) == relax_spec(
            b.ps(),
            b.vels(),
            b.obs(),
            b.w(),
            b.h(),
            n,
        ),
{
}

/// Relax the pressure field toward the discrete Poisson solution:
/// `iterations` Jacobi sweeps, then one boundary pass.  On grids with no
/// interior cells this is a no-op.
pub fn relax(state: &mut GridState, iterations: usize)
    requires
        old(state).wf(),
    ensures
        final(state).wf(),
        final(state).w() == old(state).w(),
        final(state).h() == old(state).h(),
        final(state).vels() == old(state).vels(),
        final(state).obs() == old(state).obs(),
        final(state).inflow() == old(state).inflow(),
        final(state).diam() == old(state).diam(),
        final(state).ps() == relax_spec(
            old(state).ps(),
            old(state).vels(),
            old(state).obs(),
            old(state).w(),
            old(state).h(),
            iterations as nat,
        ),
{
    let w = state.width();
    let h = state.height();
    if w < 3 || h < 3 {
        return ;
    }
    let ghost p0 = state.ps();
    let ghost v = state.vels();
    let ghost obs = state.obs();
    let ghost inflow0 = state.inflow();
    let ghost diam0 = state.diam();
    proof {
        crate::grid::lemma_array_lengths(*state);
    }
    let mut k: usize = 0;
    while k < iterations
        invariant
            state.wf(),
            3 <= state.w(),
            3 <= state.h(),
            w as int == state.w(),
            h as int == state.h(),
            k <= iterations,
            v == state.vels(),
            obs == state.obs(),
            state.inflow() == inflow0,
            state.diam() == diam0,
            p0.len() == state.w() * state.h(),
            state.ps().len() == p0.len(),
            state.ps() == sweeps(p0, v, obs, state.w(), state.h(), k as nat),
        decreases iterations - k,
    {
        jacobi_sweep(state);
        proof {
            assert(state.ps() =~= sweeps(p0, v, obs, state.w(), state.h(), (k + 1) as nat));
        }
        k = k + 1;
    }
    let ghost pk = state.ps();
    apply_boundary(state);
    proof {
        assert(pk == sweeps(p0, v, obs, state.w(), state.h(), iterations as nat));
        let target = relax_spec(p0, v, obs, state.w(), state.h(), iterations as nat);
        assert(target == Seq::new(p0.len(), |i: int| boundary_cell(pk, obs, state.w(), state.h(), i)));
        assert(state.ps().len() == p0.len());
        assert forall|i: int| 0 <= i < p0.len() implies state.ps()[i] == target[i] by {
            assert(state.ps()[i] == boundary_cell(pk, obs, state.w(), state.h(), i));
        }
        assert(state.ps() =~= target);
    }
}

/// One Jacobi sweep over the whole grid, reading only the previous field.
fn jacobi_sweep(state: &mut GridState)
    requires
        old(state).wf(),
        3 <= old(state).w(),
        3 <= old(state).h(),
    ensures
        final(state).wf(),
        final(state).w() == old(state).w(),
        final(state).h() == old(state).h(),
        final(state).vels() == old(state).vels(),
        final(state).obs() == old(state).obs(),
        final(state).inflow() == old(state).inflow(),
        final(state).diam() == old(state).diam(),
        final(state).ps() == sweep(
            old(state).ps(),
            old(state).vels(),
            old(state).obs(),
            old(state).w(),
            old(state).h(),
        ),
{
    let w = state.width();
    let h = state.height();
    let ghost p = state.ps();
    let ghost v = state.vels();
    let ghost obs = state.obs();
    proof {
        crate::grid::lemma_array_lengths(*state);
    }
    let n: usize = w * h;
    let mut newp: Vec<Fx> = Vec::new();
    let mut r: usize = 0;
    while r < h
        invariant
            state.wf(),
            r <= h,
            3 <= w,
            3 <= h,
            w as int == state.w(),
            h as int == state.h(),
            n == w * h,
            p == state.ps(),
            v == state.vels(),
            obs == state.obs(),
            p.len() == n,
            v.len() == n,
            obs.len() == n,
            newp@.len() == r * w,
            forall|j: int|
                0 <= j < newp@.len() ==> (#[trigger] newp@[j])@ == sweep_cell(
                    p,
                    v,
                    obs,
                    w as int,
                    h as int,
                    j,
                ),
        decreases h - r,
    {
        let mut c: usize = 0;
        proof {
            assert(r * w + w <= h * w && h * w == w * h) by (nonlinear_arith)
                requires
                    r < h,
                    1 <= w,
            ;
        }
        while c < w
            invariant
                state.wf(),
                c <= w,
                r < h,
                3 <= w,
                3 <= h,
                w as int == state.w(),
                h as int == state.h(),
                n == w * h,
                p == state.ps(),
                v == state.vels(),
                obs == state.obs(),
                p.len() == n,
                v.len() == n,
                obs.len() == n,
                r * w + w <= w * h,
                newp@.len() == r * w + c,
                forall|j: int|
                    0 <= j < newp@.len() ==> (#[trigger] newp@[j])@ == sweep_cell(
                        p,
                        v,
                        obs,
                        w as int,
                        h as int,
                        j,
                    ),
            decreases w - c,
        {
            proof {
                lemma_row_major(w as int, h as int, r as int, c as int);
            }
            let i: usize = r * w + c;
            let interior = 1 <= r && r + 1 < h && 1 <= c && c + 1 < w;
            let val: Fx = if !interior {
                state.pressure_at(r, c)
            } else if state.obstacle_at(r, c) {
                Fx::zero()
            } else {
                proof {
                    lemma_row_major(w as int, h as int, r as int, (c - 1) as int);
                    lemma_row_major(w as int, h as int, r as int, (c + 1) as int);
                    lemma_row_major(w as int, h as int, (r - 1) as int, c as int);
                    lemma_row_major(w as int, h as int, (r + 1) as int, c as int);
                    assert((r - 1) as int * w + c == r as int * w + c - w && (r + 1) as int * w + c
                        == r as int * w + c + w) by (nonlinear_arith);
                }
                let p_l = state.pressure_at(r, c - 1);
                let p_r = state.pressure_at(r, c + 1);
                let p_d = state.pressure_at(r - 1, c);
                let p_u = state.pressure_at(r + 1, c);
                let dvg = divergence(state, r, c);
                p_l.add(p_r).add(p_d.add(p_u)).sub(dvg.mul_int(RHO_OVER_DT)).div_int(4)
            };
            proof {
                assert(val@ == sweep_cell(p, v, obs, w as int, h as int, i as int));
            }
            newp.push(val);
            c = c + 1;
        }
        proof {
            assert((r as int + 1) * w == r as int * w + w) by (nonlinear_arith);
        }
        r = r + 1;
    }
    proof {
        assert(h as int * w as int == w as int * h as int) by (nonlinear_arith);
        crate::grid::lemma_obstacle_cells_inert(*state);
        assert(forall|j: int|
            0 <= j < newp@.len() && obs[j] ==> (#[trigger] newp@[j])@ == 0);
    }
    state.replace_pressure(newp);
    proof {
        assert(state.ps() =~= sweep(p, v, obs, w as int, h as int));
    }
}

/// Central-difference divergence at the interior cell `(r, c)`.
pub(crate) fn divergence(state: &GridState, r: usize, c: usize) -> (d: Fx)
    requires
        state.wf(),
        is_interior(state.w(), state.h(), r as int, c as int),
    ensures
        d@ == divergence_at(state.vels(), state.w(), lin(state.w(), r as int, c as int)),
{
    proof {
        crate::grid::lemma_array_lengths(*state);
        lemma_row_major(state.w(), state.h(), r as int, c as int);
        lemma_row_major(state.w(), state.h(), r as int, (c - 1) as int);
        lemma_row_major(state.w(), state.h(), r as int, (c + 1) as int);
        lemma_row_major(state.w(), state.h(), (r - 1) as int, c as int);
        lemma_row_major(state.w(), state.h(), (r + 1) as int, c as int);
        assert((r - 1) as int * state.w() + c == r as int * state.w() + c - state.w() && (r
            + 1) as int * state.w() + c == r as int * state.w() + c + state.w())
            by (nonlinear_arith);
    }
    let u_l = state.velocity_at(r, c - 1);
    let u_r = state.velocity_at(r, c + 1);
    let u_d = state.velocity_at(r - 1, c);
    let u_u = state.velocity_at(r + 1, c);
    u_r.x.sub(u_l.x).div_int(2).add(u_u.y.sub(u_d.y).div_int(2))
}

/// The boundary pass: inlet fixed at zero, solid cells held at zero, other
/// boundary cells copied from the nearest interior cell.
fn apply_boundary(state: &mut GridState)
    requires
        old(state).wf(),
        3 <= old(state).w(),
        3 <= old(state).h(),
    ensures
        final(state).wf(),
        final(state).w() == old(state).w(),
        final(state).h() == old(state).h(),
        final(state).vels() == old(state).vels(),
        final(state).obs() == old(state).obs(),
        final(state).inflow() == old(state).inflow(),
        final(state).diam() == old(state).diam(),
        final(state).ps().len() == old(state).ps().len(),
        forall|i: int|
            0 <= i < final(state).ps().len() ==> #[trigger] final(state).ps()[i] == boundary_cell(
                old(state).ps(),
                old(state).obs(),
                old(state).w(),
                old(state).h(),
                i,
            ),
{
    let w = state.width();
    let h = state.height();
    let ghost p = state.ps();
    let ghost obs = state.obs();
    proof {
        crate::grid::lemma_array_lengths(*state);
    }
    let n: usize = w * h;
    let mut newp: Vec<Fx> = Vec::new();
    let mut r: usize = 0;
    while r < h
        invariant
            state.wf(),
            r <= h,
            3 <= w,
            3 <= h,
            w as int == state.w(),
            h as int == state.h(),
            n == w * h,
            p == state.ps(),
            obs == state.obs(),
            p.len() == n,
            obs.len() == n,
            newp@.len() == r * w,
            forall|j: int|
                0 <= j < newp@.len() ==> (#[trigger] newp@[j])@ == boundary_cell(
                    p,
                    obs,
                    w as int,
                    h as int,
                    j,
                ),
        decreases h - r,
    {
        let mut c: usize = 0;
        proof {
            assert(r * w + w <= h * w && h * w == w * h) by (nonlinear_arith)
                requires
                    r < h,
                    1 <= w,
            ;
        }
        while c < w
            invariant
                state.wf(),
                c <= w,
                r < h,
                3 <= w,
                3 <= h,
                w as int == state.w(),
                h as int == state.h(),
                n == w * h,
                p == state.ps(),
                obs == state.obs(),
                p.len() == n,
                obs.len() == n,
                r * w + w <= w * h,
                newp@.len() == r * w + c,
                forall|j: int|
                    0 <= j < newp@.len() ==> (#[trigger] newp@[j])@ == boundary_cell(
                        p,
                        obs,
                        w as int,
                        h as int,
                        j,
                    ),
            decreases w - c,
        {
            proof {
                lemma_row_major(w as int, h as int, r as int, c as int);
            }
            let interior = 1 <= r && r + 1 < h && 1 <= c && c + 1 < w;
            let val: Fx = if interior {
                state.pressure_at(r, c)
            } else if state.obstacle_at(r, c) {
                Fx::zero()
            } else if c == 0 {
                Fx::zero()
            } else {
                let rr = if r < 1 {
                    1
                } else if r > h - 2 {
                    h - 2
                } else {
                    r
                };
                let cc = if c > w - 2 {
                    w - 2
                } else {
                    c
                };
                proof {
                    lemma_row_major(w as int, h as int, rr as int, cc as int);
                }
                state.pressure_at(rr, cc)
            };
            proof {
                assert(val@ == boundary_cell(p, obs, w as int, h as int, lin(w as int, r as int, c as int)));
            }
            newp.push(val);
            c = c + 1;
        }
        proof {
            assert((r as int + 1) * w == r as int * w + w) by (nonlinear_arith);
        }
        r = r + 1;
    }
    proof {
        assert(h as int * w as int == w as int * h as int) by (nonlinear_arith);
        crate::grid::lemma_obstacle_cells_inert(*state);
        assert(forall|j: int|
            0 <= j < newp@.len() && obs[j] ==> (#[trigger] newp@[j])@ == 0);
    }
    state.replace_pressure(newp);
}

} // verus!
