//! Algebraic construction combinators.

use vstd::prelude::*;

use crate::{BOp, Expr, UOp};

verus! {

impl Expr {
    pub fn mul(self, o: Self) -> (r: Self)
        ensures
            r == Expr::BOp(BOp::Mul, Box::new(self), Box::new(o)),
    {
        Expr::BOp(BOp::Mul, Box::new(self), Box::new(o))
    }

    pub fn add(self, o: Self) -> (r: Self)
        ensures
            r == Expr::BOp(BOp::Add, Box::new(self), Box::new(o)),
    {
        Expr::BOp(BOp::Add, Box::new(self), Box::new(o))
    }

    /// Subtraction, decomposed as addition of the negation.
    pub fn sub(self, o: Self) -> (r: Self)
        ensures
            r == Expr::BOp(BOp::Add, Box::new(self), Box::new(Expr::UOp(UOp::Neg, Box::new(o)))),
    {
        let n = o.neg();
        self.add(n)
    }

    pub fn neg(self) -> (r: Self)
        ensures
            r == Expr::UOp(UOp::Neg, Box::new(self)),
    {
        Expr::UOp(UOp::Neg, Box::new(self))
    }

    /// Division, decomposed as multiplication by the reciprocal.
    pub fn div(self, o: Self) -> (r: Self)
        ensures
            r == Expr::BOp(BOp::Mul, Box::new(self), Box::new(Expr::UOp(UOp::Recip, Box::new(o)))),
    {
        let rec = o.recip();
        self.mul(rec)
    }
}

} // verus!
