//! Exact scalar arithmetic for expression evaluation.
//!
//! Evaluation works on `Rat`, a fraction of two `i64`s with a positive
//! denominator and a numerator kept away from `i64::MIN`, so that negation
//! and absolute value never overflow.  The mathematical value of a `Rat` is
//! its view `Q`, a fraction of unbounded integers; all contracts are stated
//! over `Q`.

use vstd::prelude::*;

verus! {

/// The mathematical value of a scalar: an unreduced fraction `n / d`
/// of unbounded integers, well-formed when `d > 0`.
pub struct Q {
    pub n: int,
    pub d: int,
}

/// Denominator of the smoothing epsilon: the fixed constant is `1 / 10000`.
pub const EPS_DEN: i64 = 10000;

pub open spec fn q_wf(a: Q) -> bool {
    a.d > 0
}

pub open spec fn q_zero() -> Q {
    Q { n: 0, d: 1 }
}

pub open spec fn q_one() -> Q {
    Q { n: 1, d: 1 }
}

pub open spec fn q_half() -> Q {
    Q { n: 1, d: 2 }
}

/// Equality of fractions as rational numbers (cross multiplication).
pub open spec fn q_eq(a: Q, b: Q) -> bool {
    a.n * b.d == b.n * a.d
}

pub open spec fn q_add(a: Q, b: Q) -> Q {
    Q { n: a.n * b.d + b.n * a.d, d: a.d * b.d }
}

pub open spec fn q_mul(a: Q, b: Q) -> Q {
    Q { n: a.n * b.n, d: a.d * b.d }
}

pub open spec fn q_neg(a: Q) -> Q {
    Q { n: -a.n, d: a.d }
}

pub open spec fn q_abs(a: Q) -> Q {
    Q { n: if a.n >= 0 { a.n } else { -a.n }, d: a.d }
}

/// Reciprocal; meaningful only when `a.n != 0`.  The sign is moved into the
/// numerator so that well-formedness (positive denominator) is preserved.
pub open spec fn q_recip(a: Q) -> Q {
    if a.n >= 0 {
        Q { n: a.d, d: a.n }
    } else {
        Q { n: -a.d, d: -a.n }
    }
}

/// The sign used by the guard: `+1` for a non-negative value (zero included,
/// matching the sign of positive floating-point zero), `-1` otherwise.
pub open spec fn q_sgn(a: Q) -> int {
    if a.n >= 0 {
        1
    } else {
        -1
    }
}

/// Nudge a value away from zero: add a same-signed epsilon.
pub open spec fn q_guard(a: Q) -> Q {
    q_add(a, Q { n: q_sgn(a), d: EPS_DEN as int })
}

/// The step function: `1` for strictly positive arguments, `0` otherwise.
pub open spec fn q_heav(a: Q) -> Q {
    if a.n > 0 {
        q_one()
    } else {
        q_zero()
    }
}

/// Whether a component computed with unbounded integers fits the symmetric
/// machine range of a `Rat` component.
pub open spec fn fits(x: int) -> bool {
    -(i64::MAX as int) <= x <= i64::MAX as int
}

pub open spec fn q_fits(a: Q) -> bool {
    fits(a.n) && fits(a.d)
}

/// A product of two `i64`-range factors stays within `i128`.
proof fn lemma_mul_i64_range(a: int, b: int)
    by (nonlinear_arith)
    requires
        -0x8000_0000_0000_0000 <= a <= 0x7fff_ffff_ffff_ffff,
        -0x8000_0000_0000_0000 <= b <= 0x7fff_ffff_ffff_ffff,
    ensures
        -0x4000_0000_0000_0000_0000_0000_0000_0000 <= a * b
            <= 0x4000_0000_0000_0000_0000_0000_0000_0000,
{
}

/// A product of two factors from the symmetric range of well-formed
/// components is small enough that even a sum of two such products stays
/// within `i128`.
proof fn lemma_mul_sym_range(a: int, b: int)
    by (nonlinear_arith)
    requires
        -0x7fff_ffff_ffff_ffff <= a <= 0x7fff_ffff_ffff_ffff,
        -0x7fff_ffff_ffff_ffff <= b <= 0x7fff_ffff_ffff_ffff,
    ensures
        -0x3fff_ffff_ffff_ffff_0000_0000_0000_0001 <= a * b
            <= 0x3fff_ffff_ffff_ffff_0000_0000_0000_0001,
{
}

/// A product of two positive factors is positive.
pub proof fn lemma_mul_pos(a: int, b: int)
    by (nonlinear_arith)
    requires
        a > 0,
        b > 0,
    ensures
        a * b > 0,
{
}

/// An exact scalar: the fraction `n / d`.  Well-formed values keep `d`
/// positive and both components within the symmetric range (see `rat_wf`).
#[derive(Clone, Copy, Debug, PartialEq, Eq, Structural)]
pub struct Rat {
    pub n: i64,
    pub d: i64,
}

impl View for Rat {
    type V = Q;

    open spec fn view(&self) -> Q {
        Q { n: self.n as int, d: self.d as int }
    }
}

pub open spec fn rat_wf(r: Rat) -> bool {
    0 < r.d && -i64::MAX <= r.n
}

impl Rat {
    /// The fraction `n / d`.  A negative denominator is normalized away by
    /// negating both components.
    pub fn new(n: i64, d: i64) -> (r: Rat)
        requires
            d != 0,
            n != i64::MIN,
            d != i64::MIN,
        ensures
            rat_wf(r),
            d > 0 ==> r@ == (Q { n: n as int, d: d as int }),
            d < 0 ==> r@ == (Q { n: -(n as int), d: -(d as int) }),
    {
        if d > 0 {
            Rat { n, d }
        } else {
            Rat { n: -n, d: -d }
        }
    }

    /// The integer `n` as a scalar.
    pub fn whole(n: i64) -> (r: Rat)
        requires
            n != i64::MIN,
        ensures
            rat_wf(r),
            r@ == (Q { n: n as int, d: 1 }),
    {
        Rat { n, d: 1 }
    }

    /// Exact sum; `None` when a component of the result leaves the
    /// machine range.
    pub fn try_add(self, o: Rat) -> (r: Option<Rat>)
        requires
            rat_wf(self),
            rat_wf(o),
        ensures
            match r {
                Some(c) => rat_wf(c) && q_fits(q_add(self@, o@)) && c@ == q_add(self@, o@),
                None => !q_fits(q_add(self@, o@)),
            },
    {
        proof {
            lemma_mul_sym_range(self.n as int, o.d as int);
            lemma_mul_sym_range(o.n as int, self.d as int);
            lemma_mul_sym_range(self.d as int, o.d as int);
            lemma_mul_pos(self.d as int, o.d as int);
        }
        let n: i128 = (self.n as i128) * (o.d as i128) + (o.n as i128) * (self.d as i128);
        let d: i128 = (self.d as i128) * (o.d as i128);
        if -(i64::MAX as i128) <= n && n <= i64::MAX as i128 && d <= i64::MAX as i128 {
            Some(Rat { n: n as i64, d: d as i64 })
        } else {
            None
        }
    }

    /// Exact product; `None` when a component of the result leaves the
    /// machine range.
    pub fn try_mul(self, o: Rat) -> (r: Option<Rat>)
        requires
            rat_wf(self),
            rat_wf(o),
        ensures
            match r {
                Some(c) => rat_wf(c) && q_fits(q_mul(self@, o@)) && c@ == q_mul(self@, o@),
                None => !q_fits(q_mul(self@, o@)),
            },
    {
        proof {
            lemma_mul_sym_range(self.n as int, o.n as int);
            lemma_mul_sym_range(self.d as int, o.d as int);
            lemma_mul_pos(self.d as int, o.d as int);
        }
        let n: i128 = (self.n as i128) * (o.n as i128);
        let d: i128 = (self.d as i128) * (o.d as i128);
        if -(i64::MAX as i128) <= n && n <= i64::MAX as i128 && d <= i64::MAX as i128 {
            Some(Rat { n: n as i64, d: d as i64 })
        } else {
            None
        }
    }

    /// Exact negation; never overflows thanks to the symmetric range.
    pub fn neg(self) -> (r: Rat)
        requires
            rat_wf(self),
        ensures
            rat_wf(r),
            r@ == q_neg(self@),
    {
        Rat { n: -self.n, d: self.d }
    }

    /// Exact absolute value.
    pub fn abs(self) -> (r: Rat)
        requires
            rat_wf(self),
        ensures
            rat_wf(r),
            r@ == q_abs(self@),
    {
        if self.n >= 0 {
            self
        } else {
            Rat { n: -self.n, d: self.d }
        }
    }

    /// Exact reciprocal; `None` exactly when the value is zero.
    pub fn try_recip(self) -> (r: Option<Rat>)
        requires
            rat_wf(self),
        ensures
            match r {
                Some(c) => self.n != 0 && rat_wf(c) && c@ == q_recip(self@),
                None => self.n == 0,
            },
    {
        if self.n == 0 {
            None
        } else if self.n > 0 {
            Some(Rat { n: self.d, d: self.n })
        } else {
            Some(Rat { n: -self.d, d: -self.n })
        }
    }

    /// Nudge away from zero by a same-signed epsilon; `None` on overflow.
    pub fn try_guard(self) -> (r: Option<Rat>)
        requires
            rat_wf(self),
        ensures
            match r {
                Some(c) => rat_wf(c) && q_fits(q_guard(self@)) && c@ == q_guard(self@),
                None => !q_fits(q_guard(self@)),
            },
    {
        let s: i64 = if self.n >= 0 {
            1
        } else {
            -1
        };
        self.try_add(Rat { n: s, d: EPS_DEN })
    }

    /// The step function of this value.
    pub fn heav(self) -> (r: Rat)
        ensures
            rat_wf(r),
            r@ == q_heav(self@),
    {
        if self.n > 0 {
            Rat { n: 1, d: 1 }
        } else {
            Rat { n: 0, d: 1 }
        }
    }

    /// Whether two scalars denote the same rational number.
    pub fn same_value(self, o: Rat) -> (r: bool)
        ensures
            r == q_eq(self@, o@),
    {
        proof {
            lemma_mul_i64_range(self.n as int, o.d as int);
            lemma_mul_i64_range(o.n as int, self.d as int);
        }
        (self.n as i128) * (o.d as i128) == (o.n as i128) * (self.d as i128)
    }
}

} // verus!
