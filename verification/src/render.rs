//! Textual rendering of the grid for debug introspection.
//!
//! Each cell maps to one of three glyphs by its velocity magnitude (the sum
//! of the components' magnitudes): a solid block above the caller's
//! threshold, a light block for any other moving fluid, and a blank for
//! still cells — obstacle cells are still, so they render blank.  Rows are
//! emitted in row-major order, each terminated by a newline.

use vstd::prelude::*;
use vstd::string::StringExecFns;

use crate::fixed::{fabs, fadd, Fx};
use crate::grid::{col_of, lemma_array_lengths, lemma_row_major, GridState};

verus! {

/// The glyph for a cell with velocity mantissas `(vx, vy)` under the
/// magnitude threshold `t`.
pub open spec fn glyph(vx: int, vy: int, t: int) -> char {
    let mag = fadd(fabs(vx), fabs(vy));
    if mag > t {
        '\u{25fc}'
    } else if mag > 0 {
        '\u{25fb}'
    } else {
        ' '
    }
}

/// The characters the cell with linear index `i` contributes: its glyph,
/// and a newline when it ends its row.
pub open spec fn cell_chars(v: Seq<(int, int)>, w: int, t: int, i: int) -> Seq<char> {
    let g = seq![glyph(v[i].0, v[i].1, t)];
    if col_of(w, i) == w - 1 {
        g + seq!['\n']
    } else {
        g
    }
}

/// The rendering of the first `n` cells in row-major order.
pub open spec fn render_upto(v: Seq<(int, int)>, w: int, t: int, n: nat) -> Seq<char>
    decreases n,
{
    if n == 0 {
        Seq::empty()
    } else {
        render_upto(v, w, t, (n - 1) as nat) + cell_chars(v, w, t, n - 1)
    }
}

/// The full rendering of a `w x h` grid.
pub open spec fn render_spec(v: Seq<(int, int)>, w: int, h: int, t: int) -> Seq<char> {
    render_upto(v, w, t, (w * h) as nat)
}

/// Render the grid as text, one row per line, using the given velocity
/// magnitude threshold for the solid glyph.
pub fn render(state: &GridState, threshold: Fx) -> (res: String)
    requires
        state.wf(),
    ensures
        res@ == render_spec(state.vels(), state.w(), state.h(), threshold@),
{
    let w = state.width();
    let h = state.height();
    let ghost v = state.vels();
    let ghost t = threshold@;
    proof {
        lemma_array_lengths(*state);
        reveal_strlit("\u{25fc}");
        reveal_strlit("\u{25fb}");
        reveal_strlit(" ");
        reveal_strlit("\n");
    }
    let mut out = String::new();
    let mut r: usize = 0;
    while r < h
        invariant
            state.wf(),
            r <= h,
            1 <= w,
            1 <= h,
            w as int == state.w(),
            h as int == state.h(),
            v == state.vels(),
            t == threshold@,
            v.len() == w * h,
            out@ == render_upto(v, w as int, t, (r * w) as nat),
        decreases h - r,
    {
        let mut c: usize = 0;
        proof {
            assert(r * w + w <= h * w && h * w == w * h) by (nonlinear_arith)
                requires
                    r < h,
                    1 <= w,
            ;
        }
        while c < w
            invariant
                state.wf(),
                c <= w,
                r < h,
                1 <= w,
                1 <= h,
                w as int == state.w(),
                h as int == state.h(),
                v == state.vels(),
                t == threshold@,
                v.len() == w * h,
                r * w + w <= w * h,
                out@ == render_upto(v, w as int, t, (r * w + c) as nat),
            decreases w - c,
        {
            proof {
                lemma_row_major(w as int, h as int, r as int, c as int);
                reveal_strlit("\u{25fc}");
                reveal_strlit("\u{25fb}");
                reveal_strlit(" ");
                reveal_strlit("\n");
            }
            let uc = state.velocity_at(r, c);
            let mag = uc.x.abs().add(uc.y.abs());
            let g: &str = if mag.gt(threshold) {
                "\u{25fc}"
            } else if mag.is_positive() {
                "\u{25fb}"
            } else {
                " "
            };
            out.append(g);
            if c == w - 1 {
                out.append("\n");
            }
            proof {
                assert(out@ =~= render_upto(v, w as int, t, (r * w + c + 1) as nat));
            }
            c = c + 1;
        }
        proof {
            assert((r as int + 1) * w == r as int * w + w) by (nonlinear_arith);
        }
        r = r + 1;
    }
    proof {
        assert(h as int * w as int == w as int * h as int) by (nonlinear_arith);
    }
    out
}

} // verus!
