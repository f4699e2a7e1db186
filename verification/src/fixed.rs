//! Saturating fixed-point scalars.
//!
//! Every physical quantity in the solver (velocity components, pressures,
//! diagnostics) is an [`Fx`]: an `i64` mantissa standing for the real number
//! `mantissa / SCALE`.  The representable range is symmetric and every
//! operation saturates at its edges, so arithmetic is total and each
//! operation's result is stated exactly by its contract.

use vstd::prelude::*;

verus! {

/// Number of mantissa units in one whole unit: a mantissa `m` stands for the
/// real number `m / SCALE`.
pub const SCALE: i64 = 1_000_000;

/// Largest mantissa a scalar may hold.
pub const MANTISSA_MAX: i64 = 0x7fff_ffff_ffff_ffff;

/// Smallest mantissa a scalar may hold; the range is symmetric so that
/// negation and magnitude never overflow.
pub const MANTISSA_MIN: i64 = -0x7fff_ffff_ffff_ffff;

/// Saturation of an unbounded mantissa into the representable range.
pub open spec fn clip(x: int) -> int {
    if x > MANTISSA_MAX as int {
        MANTISSA_MAX as int
    } else if x < MANTISSA_MIN as int {
        MANTISSA_MIN as int
    } else {
        x
    }
}

/// Division rounding toward zero, for a positive divisor; this is the
/// division the machine performs on signed mantissas.
pub open spec fn tdiv(x: int, d: int) -> int
    recommends
        d > 0,
{
    if x >= 0 {
        x / d
    } else {
        -((-x) / d)
    }
}

/// Mantissa of the saturating sum.
pub open spec fn fadd(a: int, b: int) -> int {
    clip(a + b)
}

/// Mantissa of the saturating difference.
pub open spec fn fsub(a: int, b: int) -> int {
    clip(a - b)
}

/// Mantissa of the saturating fixed-point product.
pub open spec fn fmul(a: int, b: int) -> int {
    clip(tdiv(a * b, SCALE as int))
}

/// Mantissa of the saturating product with a plain integer.
pub open spec fn fmuli(a: int, n: int) -> int {
    clip(a * n)
}

/// Mantissa of the quotient by a positive plain integer.
pub open spec fn fdivi(a: int, d: int) -> int
    recommends
        d > 0,
{
    tdiv(a, d)
}

/// Mantissa of the saturating fixed-point quotient, for a positive divisor.
pub open spec fn fdiv(a: int, b: int) -> int
    recommends
        b > 0,
{
    clip(tdiv(a * (SCALE as int), b))
}

/// Mantissa magnitude.
pub open spec fn fabs(a: int) -> int {
    if a < 0 {
        -a
    } else {
        a
    }
}

/// A saturating fixed-point scalar: the real number `self@ / SCALE`.
#[derive(Clone, Copy, Debug, PartialEq, Eq, Structural)]
pub struct Fx {
    m: i64,
}

impl View for Fx {
    type V = int;

    closed spec fn view(&self) -> int {
        self.m as int
    }
}

impl Fx {
    #[verifier::type_invariant]
    spec fn inv(self) -> bool {
        MANTISSA_MIN as int <= self.m as int
    }

    /// The scalar with the given mantissa, saturated into range.
    pub fn new(m: i64) -> (r: Fx)
        ensures
            r@ == clip(m as int),
    {
        if m == i64::MIN {
            Fx { m: MANTISSA_MIN }
        } else {
            Fx { m }
        }
    }

    /// The scalar standing for the whole number `n`.
    pub fn from_int(n: i64) -> (r: Fx)
        ensures
            r@ == clip(n * SCALE),
    {
        proof {
            lemma_mul_bounds(n as int, SCALE as int, 0x8000_0000_0000_0000, SCALE as int);
        }
        let wide: i128 = (n as i128) * (SCALE as i128);
        Fx { m: clamp_wide(wide) }
    }

    /// The scalar zero.
    pub fn zero() -> (r: Fx)
        ensures
            r@ == 0,
    {
        Fx { m: 0 }
    }

    /// The raw mantissa.
    pub fn mantissa(self) -> (r: i64)
        ensures
            r as int == self@,
    {
        self.m
    }

    /// Saturating sum.
    pub fn add(self, o: Fx) -> (r: Fx)
        ensures
            r@ == fadd(self@, o@),
    {
        proof {
            use_type_invariant(self);
            use_type_invariant(o);
        }
        let s: i128 = (self.m as i128) + (o.m as i128);
        Fx { m: clamp_wide(s) }
    }

    /// Saturating difference.
    pub fn sub(self, o: Fx) -> (r: Fx)
        ensures
            r@ == fsub(self@, o@),
    {
        proof {
            use_type_invariant(self);
            use_type_invariant(o);
        }
        let s: i128 = (self.m as i128) - (o.m as i128);
        Fx { m: clamp_wide(s) }
    }

    /// Saturating fixed-point product.
    pub fn mul(self, o: Fx) -> (r: Fx)
        ensures
            r@ == fmul(self@, o@),
    {
        proof {
            use_type_invariant(self);
            use_type_invariant(o);
            lemma_mul_bounds(
                self.m as int,
                o.m as int,
                MANTISSA_MAX as int,
                MANTISSA_MAX as int,
            );
        }
        let p: i128 = (self.m as i128) * (o.m as i128);
        let q: i128 = div_wide(p, SCALE as i128);
        Fx { m: clamp_wide(q) }
    }

    /// Saturating product with a plain integer.
    pub fn mul_int(self, n: i64) -> (r: Fx)
        ensures
            r@ == fmuli(self@, n as int),
    {
        proof {
            use_type_invariant(self);
            lemma_mul_bounds(self.m as int, n as int, MANTISSA_MAX as int, 0x8000_0000_0000_0000);
        }
        let p: i128 = (self.m as i128) * (n as i128);
        Fx { m: clamp_wide(p) }
    }

    /// Quotient by a positive plain integer, rounded toward zero.
    pub fn div_int(self, d: i64) -> (r: Fx)
        requires
            d > 0,
        ensures
            r@ == fdivi(self@, d as int),
    {
        proof {
            use_type_invariant(self);
        }
        let q: i128 = div_wide(self.m as i128, d as i128);
        Fx { m: clamp_wide(q) }
    }

    /// Saturating fixed-point quotient, for a positive divisor.
    pub fn div(self, o: Fx) -> (r: Fx)
        requires
            o@ > 0,
        ensures
            r@ == fdiv(self@, o@),
    {
        proof {
            use_type_invariant(self);
            lemma_mul_bounds(self.m as int, SCALE as int, MANTISSA_MAX as int, SCALE as int);
        }
        let p: i128 = (self.m as i128) * (SCALE as i128);
        let q: i128 = div_wide(p, o.m as i128);
        Fx { m: clamp_wide(q) }
    }

    /// Saturating product with the plain fraction `num / den`.
    pub fn mul_frac(self, num: u64, den: u64) -> (r: Fx)
        requires
            den > 0,
        ensures
            r@ == clip(tdiv(self@ * num, den as int)),
    {
        proof {
            use_type_invariant(self);
            lemma_mul_bounds(
                self.m as int,
                num as int,
                MANTISSA_MAX as int,
                0xffff_ffff_ffff_ffff,
            );
        }
        let p: i128 = (self.m as i128) * (num as i128);
        let q: i128 = div_wide(p, den as i128);
        Fx { m: clamp_wide(q) }
    }

    /// Magnitude.
    pub fn abs(self) -> (r: Fx)
        ensures
            r@ == fabs(self@),
    {
        proof {
            use_type_invariant(self);
        }
        if self.m < 0 {
            Fx { m: -self.m }
        } else {
            Fx { m: self.m }
        }
    }

    /// Whether this scalar is strictly below the other.
    pub fn lt(self, o: Fx) -> (r: bool)
        ensures
            r == (self@ < o@),
    {
        self.m < o.m
    }

    /// Whether this scalar is strictly above the other.
    pub fn gt(self, o: Fx) -> (r: bool)
        ensures
            r == (self@ > o@),
    {
        self.m > o.m
    }

    /// Whether this scalar is strictly positive.
    pub fn is_positive(self) -> (r: bool)
        ensures
            r == (self@ > 0),
    {
        self.m > 0
    }
}

/// Bound on a product of bounded factors, used to show that wide
/// intermediate products stay inside the machine range.
pub proof fn lemma_mul_bounds(a: int, b: int, aa: int, bb: int)
    by (nonlinear_arith)
    requires
        -aa <= a <= aa,
        -bb <= b <= bb,
        0 <= aa,
        0 <= bb,
    ensures
        -(aa * bb) <= a * b <= aa * bb,
{
}

/// Saturation of a wide intermediate mantissa back into the scalar range.
fn clamp_wide(x: i128) -> (r: i64)
    ensures
        r as int == clip(x as int),
        MANTISSA_MIN as int <= r as int,
{
    if x > MANTISSA_MAX as i128 {
        MANTISSA_MAX
    } else if x < MANTISSA_MIN as i128 {
        MANTISSA_MIN
    } else {
        x as i64
    }
}

/// Wide division rounding toward zero, for a positive divisor.
fn div_wide(x: i128, d: i128) -> (r: i128)
    requires
        d > 0,
        x > i128::MIN,
    ensures
        r as int == tdiv(x as int, d as int),
{
    let q = match x.checked_div(d) {
        Some(v) => v,
        None => 0,
    };
    proof {
        assert(q as int == tdiv(x as int, d as int)) by {
            if x > 0 {
                assert(x as int / d as int <= x as int) by (nonlinear_arith)
                    requires
                        x > 0,
                        d > 0,
                ;
                assert(x as int / d as int >= 0) by (nonlinear_arith)
                    requires
                        x > 0,
                        d > 0,
                ;
            } else if x < 0 {
                assert((x as int * -1) / (d as int) <= x as int * -1) by (nonlinear_arith)
                    requires
                        x < 0,
                        d > 0,
                ;
                assert((x as int * -1) / (d as int) >= 0) by (nonlinear_arith)
                    requires
                        x < 0,
                        d > 0,
                ;
            }
        };
    }
    q
}

} // verus!
