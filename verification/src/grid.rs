//! The authoritative simulation state.
//!
//! [`GridState`] owns three parallel row-major arrays over a fixed
//! `width x height` Cartesian grid: the velocity field, the scalar pressure
//! field, and the immutable obstacle mask.  Indices are linearized as
//! `row * width + col`.  Obstacle cells always carry zero velocity and zero
//! pressure; the solver components rely on this and preserve it.

use vstd::arithmetic::div_mod::lemma_fundamental_div_mod_converse;
use vstd::prelude::*;

use crate::fixed::{clip, tdiv, Fx};

verus! {

/// Upper bound on the number of grid cells, so that index arithmetic and the
/// inlet-profile arithmetic stay inside the machine word.
pub const MAX_CELLS: usize = 1_000_000_000;

/// Row-major linear index of the cell at `(r, c)`.
pub open spec fn lin(w: int, r: int, c: int) -> int {
    r * w + c
}

/// Row of the cell with linear index `i`.
pub open spec fn row_of(w: int, i: int) -> int {
    i / w
}

/// Column of the cell with linear index `i`.
pub open spec fn col_of(w: int, i: int) -> int {
    i % w
}

/// Whether `(r, c)` lies strictly inside the outermost ring of cells.
pub open spec fn is_interior(w: int, h: int, r: int, c: int) -> bool {
    1 <= r < h - 1 && 1 <= c < w - 1
}

/// A boundary coordinate clamped onto the nearest interior coordinate of an
/// axis of extent `n`; on an axis too short to have an interior it is left
/// in place.
pub open spec fn clamp_interior(i: int, n: int) -> int {
    if n >= 3 {
        if i < 1 {
            1
        } else if i > n - 2 {
            n - 2
        } else {
            i
        }
    } else {
        i
    }
}

/// Row-major indexing facts: the linear index of an in-range `(r, c)` is in
/// range, and decomposes back into the same row and column.
pub proof fn lemma_row_major(w: int, h: int, r: int, c: int)
    requires
        0 <= r < h,
        0 <= c < w,
    ensures
        0 <= lin(w, r, c) < w * h,
        row_of(w, lin(w, r, c)) == r,
        col_of(w, lin(w, r, c)) == c,
{
    assert(0 <= r * w + c < w * h) by (nonlinear_arith)
        requires
            0 <= r < h,
            0 <= c < w,
    ;
    lemma_fundamental_div_mod_converse(r * w + c, w, r, c);
}

/// Horizontal inlet velocity of the parabolic inflow profile at row `y` of a
/// grid of height `h`: `umax * 4 * (y/h) * (1 - y/h)`, evaluated exactly on
/// mantissas as `umax * 4*y*(h-y) / h^2`.
pub open spec fn profile(umax: int, y: int, h: int) -> int
    recommends
        1 <= h,
{
    clip(tdiv(umax * (4 * y * (h - y)), h * h))
}

/// The velocity a freshly constructed grid gives the cell in column `c`,
/// row `y`: zero on obstacle cells, the parabolic profile on the inlet
/// column, and the uniform horizontal initial velocity `u0` elsewhere.
pub open spec fn initial_velocity(obs: bool, umax: int, u0: int, y: int, h: int, c: int) -> (
    int,
    int,
) {
    if obs {
        (0int, 0int)
    } else if c == 0 {
        (profile(umax, y, h), 0int)
    } else {
        (u0, 0int)
    }
}

/// Flow velocity at one grid point: an ordered pair of horizontal and
/// vertical components.
#[derive(Clone, Copy, Debug, PartialEq, Eq, Structural)]
pub struct VelocityVector {
    pub x: Fx,
    pub y: Fx,
}

impl View for VelocityVector {
    type V = (int, int);

    open spec fn view(&self) -> (int, int) {
        (self.x@, self.y@)
    }
}

impl VelocityVector {
    /// The vector with the given components.
    pub fn new(x: Fx, y: Fx) -> (r: VelocityVector)
        ensures
            r@ == (x@, y@),
    {
        VelocityVector { x, y }
    }

    /// The zero vector.
    pub fn zero() -> (r: VelocityVector)
        ensures
            r@ == (0int, 0int),
    {
        VelocityVector { x: Fx::zero(), y: Fx::zero() }
    }

    /// Componentwise saturating difference.
    pub fn sub(self, o: VelocityVector) -> (r: VelocityVector)
        ensures
            r@ == (crate::fixed::fsub(self@.0, o@.0), crate::fixed::fsub(self@.1, o@.1)),
    {
        VelocityVector { x: self.x.sub(o.x), y: self.y.sub(o.y) }
    }
}

/// The simulation state: velocity, pressure and obstacle arrays over a fixed
/// grid, together with the inflow and obstacle parameters fixed at
/// construction.
pub struct GridState {
    width: usize,
    height: usize,
    velocity: Vec<VelocityVector>,
    pressure: Vec<Fx>,
    obstacle: Vec<bool>,
    inflow_max: Fx,
    diameter: Fx,
}

impl GridState {
    /// Well-formedness: the three arrays have identical length
    /// `width * height`, the dimensions are positive and within the machine
    /// bound, obstacle cells carry zero velocity and zero pressure, and the
    /// drag reference diameter is nonnegative.  Constructors establish this
    /// and every mutation preserves it.
    pub closed spec fn wf(self) -> bool {
        &&& 1 <= self.width
        &&& 1 <= self.height
        &&& self.width * self.height <= MAX_CELLS
        &&& self.velocity@.len() == self.width * self.height
        &&& self.pressure@.len() == self.width * self.height
        &&& self.obstacle@.len() == self.width * self.height
        &&& forall|i: int|
            0 <= i < self.obstacle@.len() && #[trigger] self.obstacle@[i] ==> self.velocity@[i]@
                == (0int, 0int) && self.pressure@[i]@ == 0
        &&& self.diameter@ >= 0
    }

    /// Grid width, as a mathematical integer.
    pub closed spec fn w(self) -> int {
        self.width as int
    }

    /// Grid height, as a mathematical integer.
    pub closed spec fn h(self) -> int {
        self.height as int
    }

    /// The velocity field as a sequence of mantissa pairs, row-major.
    pub closed spec fn vels(self) -> Seq<(int, int)> {
        self.velocity@.map(|i: int, v: VelocityVector| v@)
    }

    /// The pressure field as a sequence of mantissas, row-major.
    pub closed spec fn ps(self) -> Seq<int> {
        self.pressure@.map(|i: int, p: Fx| p@)
    }

    /// The obstacle mask, row-major.
    pub closed spec fn obs(self) -> Seq<bool> {
        self.obstacle@
    }

    /// Mantissa of the inlet profile's peak velocity.
    pub closed spec fn inflow(self) -> int {
        self.inflow_max@
    }

    /// Mantissa of the obstacle reference diameter used by the drag
    /// normalization.
    pub closed spec fn diam(self) -> int {
        self.diameter@
    }

    /// Construct a grid from an explicit obstacle mask.
    ///
    /// Pressure starts at zero everywhere; velocity starts at zero on
    /// obstacle cells, at the parabolic inflow profile on the inlet column,
    /// and at the uniform horizontal velocity `initial` elsewhere.
    pub fn from_mask(
        width: usize,
        height: usize,
        inflow_max: Fx,
        initial: Fx,
        obstacle: Vec<bool>,
        diameter: Fx,
    ) -> (r: GridState)
        requires
            1 <= width,
            1 <= height,
            width * height <= MAX_CELLS,
            obstacle@.len() == width * height,
            diameter@ >= 0,
        ensures
            r.wf(),
            r.w() == width,
            r.h() == height,
            r.inflow() == inflow_max@,
            r.diam() == diameter@,
            r.obs() == obstacle@,
            r.ps().len() == width * height,
            r.vels().len() == width * height,
            forall|i: int| 0 <= i < width * height ==> #[trigger] r.ps()[i] == 0,
            forall|i: int|
                0 <= i < width * height ==> #[trigger] r.vels()[i] == initial_velocity(
                    obstacle@[i],
                    inflow_max@,
                    initial@,
                    row_of(width as int, i),
                    height as int,
                    col_of(width as int, i),
                ),
    {
        proof {
            assert(height <= width * height) by (nonlinear_arith)
                requires
                    1 <= width,
                    1 <= height,
            ;
        }
        let n: usize = width * height;
        let mut velocity: Vec<VelocityVector> = Vec::new();
        let mut pressure: Vec<Fx> = Vec::new();
        let mut r: usize = 0;
        while r < height
            invariant
                r <= height,
                1 <= width,
                1 <= height,
                width * height <= MAX_CELLS,
                n == width * height,
                obstacle@.len() == n,
                height <= n,
                velocity@.len() == r * width,
                pressure@.len() == r * width,
                forall|k: int| 0 <= k < pressure@.len() ==> (#[trigger] pressure@[k])@ == 0,
                forall|k: int|
                    0 <= k < velocity@.len() ==> (#[trigger] velocity@[k])@ == initial_velocity(
                        obstacle@[k],
                        inflow_max@,
                        initial@,
                        row_of(width as int, k),
                        height as int,
                        col_of(width as int, k),
                    ),
            decreases height - r,
        {
            let mut c: usize = 0;
            proof {
                assert(r * width + width <= height * width) by (nonlinear_arith)
                    requires
                        r < height,
                        1 <= width,
                ;
            }
            while c < width
                invariant
                    c <= width,
                    r < height,
                    1 <= width,
                    1 <= height,
                    width * height <= MAX_CELLS,
                    n == width * height,
                    obstacle@.len() == n,
                    height <= n,
                    r * width + width <= height * width,
                    velocity@.len() == r * width + c,
                    pressure@.len() == r * width + c,
                    forall|k: int| 0 <= k < pressure@.len() ==> (#[trigger] pressure@[k])@ == 0,
                    forall|k: int|
                        0 <= k < velocity@.len() ==> (#[trigger] velocity@[k])@
                            == initial_velocity(
                            obstacle@[k],
                            inflow_max@,
                            initial@,
                            row_of(width as int, k),
                            height as int,
                            col_of(width as int, k),
                        ),
                decreases width - c,
            {
                proof {
                    lemma_row_major(width as int, height as int, r as int, c as int);
                    assert(width * height == height * width) by (nonlinear_arith);
                }
                let i: usize = r * width + c;
                let ob: bool = obstacle[i];
                let v: VelocityVector = if ob {
                    VelocityVector::zero()
                } else if c == 0 {
                    VelocityVector::new(profile_velocity(inflow_max, r, height), Fx::zero())
                } else {
                    VelocityVector::new(initial, Fx::zero())
                };
                velocity.push(v);
                pressure.push(Fx::zero());
                c = c + 1;
            }
            proof {
                assert((r as int + 1) * width == r as int * width + width) by (nonlinear_arith);
            }
            r = r + 1;
        }
        proof {
            assert(height as int * width as int == width as int * height as int)
                by (nonlinear_arith);
        }
        GridState { width, height, velocity, pressure, obstacle, inflow_max, diameter }
    }

    /// Construct a grid with no obstacle cells.
    ///
    /// The drag reference diameter of such a grid is zero, so its drag
    /// coefficient is the neutral value zero.
    pub fn new(width: usize, height: usize, inflow_max: Fx, initial: Fx) -> (r: GridState)
        requires
            1 <= width,
            1 <= height,
            width * height <= MAX_CELLS,
        ensures
            r.wf(),
            r.w() == width,
            r.h() == height,
            r.inflow() == inflow_max@,
            r.diam() == 0,
            r.obs().len() == width * height,
            r.ps().len() == width * height,
            r.vels().len() == width * height,
            forall|i: int| 0 <= i < width * height ==> !(#[trigger] r.obs()[i]),
            forall|i: int| 0 <= i < width * height ==> #[trigger] r.ps()[i] == 0,
            forall|i: int|
                0 <= i < width * height ==> #[trigger] r.vels()[i] == initial_velocity(
                    false,
                    inflow_max@,
                    initial@,
                    row_of(width as int, i),
                    height as int,
                    col_of(width as int, i),
                ),
    {
        let n: usize = width * height;
        let mut obstacle: Vec<bool> = Vec::new();
        let mut i: usize = 0;
        while i < n
            invariant
                i <= n,
                obstacle@.len() == i,
                forall|k: int| 0 <= k < i ==> !(#[trigger] obstacle@[k]),
            decreases n - i,
        {
            obstacle.push(false);
            i = i + 1;
        }
        GridState::from_mask(width, height, inflow_max, initial, obstacle, Fx::zero())
    }

    /// Construct a grid with a circular obstacle: the cell at `(r, c)` is
    /// solid exactly when `(c - cx)^2 + (r - cy)^2 <= radius^2`.
    ///
    /// The drag reference diameter is `2 * radius`.  A radius beyond
    /// `width + height` would mark the same cells as `width + height`
    /// itself, so larger radii are left out to keep the diameter
    /// arithmetic exact.
    pub fn with_circular_obstacle(
        width: usize,
        height: usize,
        inflow_max: Fx,
        initial: Fx,
        cx: usize,
        cy: usize,
        radius: usize,
    ) -> (r: GridState)
        requires
            1 <= width,
            1 <= height,
            width * height <= MAX_CELLS,
            cx < width,
            cy < height,
            radius <= width + height,
        ensures
            r.wf(),
            r.w() == width,
            r.h() == height,
            r.inflow() == inflow_max@,
            r.diam() == clip(2 * radius * crate::fixed::SCALE),
            r.obs().len() == width * height,
            r.ps().len() == width * height,
            r.vels().len() == width * height,
            forall|i: int|
                0 <= i < width * height ==> #[trigger] r.obs()[i] == in_circle(
                    row_of(width as int, i),
                    col_of(width as int, i),
                    cy as int,
                    cx as int,
                    radius as int,
                ),
            forall|i: int| 0 <= i < width * height ==> #[trigger] r.ps()[i] == 0,
            forall|i: int|
                0 <= i < width * height ==> #[trigger] r.vels()[i] == initial_velocity(
                    r.obs()[i],
                    inflow_max@,
                    initial@,
                    row_of(width as int, i),
                    height as int,
                    col_of(width as int, i),
                ),
    {
        let mut obstacle: Vec<bool> = Vec::new();
        let mut r: usize = 0;
        while r < height
            invariant
                r <= height,
                1 <= width,
                1 <= height,
                width * height <= MAX_CELLS,
                cx < width,
                cy < height,
                radius <= width + height,
                obstacle@.len() == r * width,
                forall|k: int|
                    0 <= k < obstacle@.len() ==> #[trigger] obstacle@[k] == in_circle(
                        row_of(width as int, k),
                        col_of(width as int, k),
                        cy as int,
                        cx as int,
                        radius as int,
                    ),
            decreases height - r,
        {
            let mut c: usize = 0;
            proof {
                assert(r * width + width <= height * width) by (nonlinear_arith)
                    requires
                        r < height,
                        1 <= width,
                ;
                assert(height * width == width * height) by (nonlinear_arith);
            }
            while c < width
                invariant
                    c <= width,
                    r < height,
                    1 <= width,
                    1 <= height,
                    width * height <= MAX_CELLS,
                    cx < width,
                    cy < height,
                    radius <= width + height,
                    r * width + width <= width * height,
                    obstacle@.len() == r * width + c,
                    forall|k: int|
                        0 <= k < obstacle@.len() ==> #[trigger] obstacle@[k] == in_circle(
                            row_of(width as int, k),
                            col_of(width as int, k),
                            cy as int,
                            cx as int,
                            radius as int,
                        ),
                decreases width - c,
            {
                proof {
                    lemma_row_major(width as int, height as int, r as int, c as int);
                    assert(width <= MAX_CELLS && height <= MAX_CELLS) by (nonlinear_arith)
                        requires
                            1 <= width,
                            1 <= height,
                            width * height <= MAX_CELLS,
                    ;
                    crate::fixed::lemma_mul_bounds(
                        c as int - cx as int,
                        c as int - cx as int,
                        1_000_000_000,
                        1_000_000_000,
                    );
                    crate::fixed::lemma_mul_bounds(
                        r as int - cy as int,
                        r as int - cy as int,
                        1_000_000_000,
                        1_000_000_000,
                    );
                    crate::fixed::lemma_mul_bounds(
                        radius as int,
                        radius as int,
                        2_000_000_000,
                        2_000_000_000,
                    );
                }
                let dx: i64 = (c as i64) - (cx as i64);
                let dy: i64 = (r as i64) - (cy as i64);
                let dist2: i64 = dx * dx + dy * dy;
                let rad2: i64 = (radius as i64) * (radius as i64);
                obstacle.push(dist2 <= rad2);
                c = c + 1;
            }
            proof {
                assert((r as int + 1) * width == r as int * width + width) by (nonlinear_arith);
            }
            r = r + 1;
        }
        proof {
            assert(height as int * width as int == width as int * height as int)
                by (nonlinear_arith);
        }
        proof {
            assert(width <= MAX_CELLS && height <= MAX_CELLS) by (nonlinear_arith)
                requires
                    1 <= width,
                    1 <= height,
                    width * height <= MAX_CELLS,
            ;
        }
        let diameter: Fx = Fx::from_int(2 * (radius as i64));
        GridState::from_mask(width, height, inflow_max, initial, obstacle, diameter)
    }

    /// Grid width.
    pub fn width(&self) -> (r: usize)
        ensures
            r as int == self.w(),
    {
        self.width
    }

    /// Grid height.
    pub fn height(&self) -> (r: usize)
        ensures
            r as int == self.h(),
    {
        self.height
    }

    /// Peak inlet velocity fixed at construction.
    pub fn inflow_max(&self) -> (r: Fx)
        ensures
            r@ == self.inflow(),
    {
        self.inflow_max
    }

    /// Obstacle reference diameter fixed at construction.
    pub fn diameter(&self) -> (r: Fx)
        ensures
            r@ == self.diam(),
    {
        self.diameter
    }

    /// The velocity at `(row, col)`.
    pub fn velocity_at(&self, row: usize, col: usize) -> (r: VelocityVector)
        requires
            self.wf(),
            row < self.h(),
            col < self.w(),
        ensures
            r@ == self.vels()[lin(self.w(), row as int, col as int)],
    {
        proof {
            lemma_row_major(self.w(), self.h(), row as int, col as int);
        }
        self.velocity[row * self.width + col]
    }

    /// The pressure at `(row, col)`.
    pub fn pressure_at(&self, row: usize, col: usize) -> (r: Fx)
        requires
            self.wf(),
            row < self.h(),
            col < self.w(),
        ensures
            r@ == self.ps()[lin(self.w(), row as int, col as int)],
    {
        proof {
            lemma_row_major(self.w(), self.h(), row as int, col as int);
        }
        self.pressure[row * self.width + col]
    }

    /// Whether the cell at `(row, col)` is solid.
    pub fn obstacle_at(&self, row: usize, col: usize) -> (r: bool)
        requires
            self.wf(),
            row < self.h(),
            col < self.w(),
        ensures
            r == self.obs()[lin(self.w(), row as int, col as int)],
    {
        proof {
            lemma_row_major(self.w(), self.h(), row as int, col as int);
        }
        self.obstacle[row * self.width + col]
    }

    /// Replace the pressure field by a freshly built one of the same
    /// length; solid cells must stay at pressure zero.
    pub(crate) fn replace_pressure(&mut self, p: Vec<Fx>)
        requires
            old(self).wf(),
            p@.len() == old(self).w() * old(self).h(),
            forall|i: int|
                0 <= i < p@.len() && old(self).obs()[i] ==> (#[trigger] p@[i])@ == 0,
        ensures
            final(self).wf(),
            final(self).w() == old(self).w(),
            final(self).h() == old(self).h(),
            final(self).vels() == old(self).vels(),
            final(self).obs() == old(self).obs(),
            final(self).inflow() == old(self).inflow(),
            final(self).diam() == old(self).diam(),
            final(self).ps().len() == p@.len(),
            forall|i: int| 0 <= i < p@.len() ==> #[trigger] final(self).ps()[i] == p@[i]@,
    {
        self.pressure = p;
    }

    /// Replace the velocity field by a freshly built one of the same
    /// length; solid cells must stay at velocity zero.
    pub(crate) fn replace_velocity(&mut self, v: Vec<VelocityVector>)
        requires
            old(self).wf(),
            v@.len() == old(self).w() * old(self).h(),
            forall|i: int|
                0 <= i < v@.len() && old(self).obs()[i] ==> (#[trigger] v@[i])@ == (0int, 0int),
        ensures
            final(self).wf(),
            final(self).w() == old(self).w(),
            final(self).h() == old(self).h(),
            final(self).ps() == old(self).ps(),
            final(self).obs() == old(self).obs(),
            final(self).inflow() == old(self).inflow(),
            final(self).diam() == old(self).diam(),
            final(self).vels().len() == v@.len(),
            forall|i: int| 0 <= i < v@.len() ==> #[trigger] final(self).vels()[i] == v@[i]@,
    {
        self.velocity = v;
    }

    /// Read-only view of the whole velocity field, row-major.
    pub fn velocity_field(&self) -> (r: &Vec<VelocityVector>)
        requires
            self.wf(),
        ensures
            r@.len() == self.w() * self.h(),
            forall|i: int| 0 <= i < r@.len() ==> (#[trigger] r@[i])@ == self.vels()[i],
    {
        &self.velocity
    }

    /// Read-only view of the whole pressure field, row-major.
    pub fn pressure_field(&self) -> (r: &Vec<Fx>)
        requires
            self.wf(),
        ensures
            r@.len() == self.w() * self.h(),
            forall|i: int| 0 <= i < r@.len() ==> (#[trigger] r@[i])@ == self.ps()[i],
    {
        &self.pressure
    }

    /// Read-only view of the whole obstacle mask, row-major.
    pub fn obstacle_mask(&self) -> (r: &Vec<bool>)
        requires
            self.wf(),
        ensures
            r@ == self.obs(),
            r@.len() == self.w() * self.h(),
    {
        &self.obstacle
    }
}

/// Whether the cell at row `r`, column `c` lies within the circle of the
/// given radius around row `cy`, column `cx`.
pub open spec fn in_circle(r: int, c: int, cy: int, cx: int, radius: int) -> bool {
    (c - cx) * (c - cx) + (r - cy) * (r - cy) <= radius * radius
}

/// The three parallel arrays of any grid have identical length
/// `width * height`; this holds at construction and is invariant across any
/// number of steps.
pub proof fn lemma_array_lengths(g: GridState)
    requires
        g.wf(),
    ensures
        g.vels().len() == g.w() * g.h(),
        g.ps().len() == g.w() * g.h(),
        g.obs().len() == g.w() * g.h(),
        1 <= g.w(),
        1 <= g.h(),
        g.w() * g.h() <= MAX_CELLS,
{
}

/// Obstacle-marked cells always carry velocity exactly `(0, 0)` and pressure
/// exactly `0`, in every reachable grid state.
pub proof fn lemma_obstacle_cells_inert(g: GridState)
    requires
        g.wf(),
    ensures
        forall|i: int|
            0 <= i < g.obs().len() && #[trigger] g.obs()[i] ==> g.vels()[i] == (0int, 0int)
                && g.ps()[i] == 0,
{
}

/// Exact inlet-profile velocity: the parabolic profile evaluated at row `y`.
pub fn profile_velocity(umax: Fx, y: usize, h: usize) -> (r: Fx)
    requires
        1 <= h,
        y < h,
        h <= MAX_CELLS,
    ensures
        r@ == profile(umax@, y as int, h as int),
{
    proof {
        assert(4 * (y as int) * ((h - y) as int) <= 4_000_000_000_000_000_000) by (nonlinear_arith)
            requires
                y < h,
                h <= 1_000_000_000,
        ;
        assert((h as int) * (h as int) <= 1_000_000_000_000_000_000) by (nonlinear_arith)
            requires
                h <= 1_000_000_000,
        ;
        assert(1 <= (h as int) * (h as int)) by (nonlinear_arith)
            requires
                1 <= h,
        ;
        assert(4 * (y as u64) <= 4_000_000_000 && (4 * (y as u64)) * ((h - y) as u64)
            <= 4_000_000_000_000_000_000) by (nonlinear_arith)
            requires
                y < h,
                h <= 1_000_000_000,
        ;
    }
    let num: u64 = 4 * (y as u64) * ((h - y) as u64);
    let den: u64 = (h as u64) * (h as u64);
    umax.mul_frac(num, den)
}

} // verus!
