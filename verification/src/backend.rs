//! How to emit an expression to some backend.
//! For example, emitting s-expressions.
//!
//! The reference backend renders a fully parenthesized prefix form into a
//! string buffer; its output is pinned, character for character, by the
//! spec function `sexpr_of`.  Guards are invisible in emitted output: they
//! are a runtime-only device.

use vstd::prelude::*;

use crate::rat::{rat_wf, Rat};
use crate::{BOp, Expr, UOp};

verus! {

/// The decimal digit `d` as a character.
pub open spec fn digit_char(d: int) -> char {
    if d == 0 {
        '0'
    } else if d == 1 {
        '1'
    } else if d == 2 {
        '2'
    } else if d == 3 {
        '3'
    } else if d == 4 {
        '4'
    } else if d == 5 {
        '5'
    } else if d == 6 {
        '6'
    } else if d == 7 {
        '7'
    } else if d == 8 {
        '8'
    } else {
        '9'
    }
}

/// The decimal numeral of `n`, most significant digit first.
pub open spec fn dec_str(n: nat) -> Seq<char>
    decreases n,
{
    if n < 10 {
        seq![digit_char(n as int)]
    } else {
        dec_str(n / 10).push(digit_char((n % 10) as int))
    }
}

/// `f` as exactly `k` decimal digits, leading zeros included.
pub open spec fn pad_str(f: nat, k: nat) -> Seq<char>
    decreases k,
{
    if k == 0 {
        Seq::empty()
    } else {
        pad_str(f / 10, (k - 1) as nat).push(digit_char((f % 10) as int))
    }
}

/// The fractional digits: `f` over `k` places, with trailing zeros dropped.
pub open spec fn frac_str(f: nat, k: nat) -> Seq<char>
    decreases k,
{
    if k == 0 {
        Seq::empty()
    } else if f % 10 == 0 {
        frac_str(f / 10, (k - 1) as nat)
    } else {
        pad_str(f, k)
    }
}

/// The numeral of a scalar: an exact decimal where the denominator divides
/// ten thousand (so every constant the differentiator itself introduces
/// renders as a plain decimal), a fraction `n/d` otherwise.
pub open spec fn rat_str(c: Rat) -> Seq<char> {
    let sign: Seq<char> = if c.n < 0 {
        seq!['-']
    } else {
        Seq::empty()
    };
    let a = (if c.n < 0 {
        -(c.n as int)
    } else {
        c.n as int
    }) as nat;
    let d = c.d as nat;
    if d == 1 {
        sign + dec_str(a)
    } else if 2 <= d <= 10000 && 10000 as nat % d == 0 {
        let q = a / d;
        let frac = (a % d) * (10000 as nat / d);
        if frac == 0 {
            sign + dec_str(q)
        } else {
            sign + dec_str(q) + seq!['.'] + frac_str(frac, 4)
        }
    } else {
        sign + dec_str(a) + seq!['/'] + dec_str(d)
    }
}

/// The fully parenthesized prefix rendering of a tree.  A guard renders
/// exactly as its operand.
pub open spec fn sexpr_of(e: Expr) -> Seq<char>
    decreases e,
{
    match e {
        Expr::Const(c) => seq![' '] + rat_str(c),
        Expr::Var { id, .. } => seq![' ', 'x'] + dec_str(id as nat),
        Expr::BOp(op, l, r) => {
            let tok: Seq<char> = match op {
                BOp::Add => seq!['+'],
                BOp::Mul => seq!['*'],
            };
            seq![' ', '('] + tok + sexpr_of(*l) + sexpr_of(*r) + seq![')']
        },
        Expr::UOp(op, v) => {
            let tok: Seq<char> = match op {
                UOp::Neg => seq![' ', '-'],
                UOp::Abs => seq!['a', 'b', 's'],
                UOp::Recip => seq!['r', 'e', 'c', 'i', 'p'],
            };
            seq![' ', '('] + tok + sexpr_of(*v) + seq![')']
        },
        Expr::Heavside(v) => {
            seq![' ', '('] + seq!['h', 'e', 'a', 'v', 's', 'i', 'd', 'e'] + sexpr_of(*v)
                + seq![')']
        },
        Expr::Guard(v) => sexpr_of(*v),
    }
}

/// The numeral of one decimal digit.
fn digit_str(d: u64) -> (r: &'static str)
    requires
        d < 10,
    ensures
        r@ == seq![digit_char(d as int)],
{
    proof {
        reveal_strlit("0");
        reveal_strlit("1");
        reveal_strlit("2");
        reveal_strlit("3");
        reveal_strlit("4");
        reveal_strlit("5");
        reveal_strlit("6");
        reveal_strlit("7");
        reveal_strlit("8");
        reveal_strlit("9");
    }
    match d {
        0 => "0",
        1 => "1",
        2 => "2",
        3 => "3",
        4 => "4",
        5 => "5",
        6 => "6",
        7 => "7",
        8 => "8",
        _ => "9",
    }
}

/// Append the decimal numeral of `n`.
fn append_u64(buf: &mut String, n: u64)
    ensures
        final(buf)@ == old(buf)@ + dec_str(n as nat),
    decreases n,
{
    if n < 10 {
        buf.append(digit_str(n));
    } else {
        append_u64(buf, n / 10);
        buf.append(digit_str(n % 10));
        proof {
            assert(buf@ =~= old(buf)@ + dec_str(n as nat));
        }
    }
}

/// Append `f` as exactly `k` decimal digits.
fn append_pad(buf: &mut String, f: u64, k: u64)
    ensures
        final(buf)@ == old(buf)@ + pad_str(f as nat, k as nat),
    decreases k,
{
    if k > 0 {
        append_pad(buf, f / 10, k - 1);
        buf.append(digit_str(f % 10));
        proof {
            assert(buf@ =~= old(buf)@ + pad_str(f as nat, k as nat));
        }
    } else {
        proof {
            assert(buf@ =~= old(buf)@ + pad_str(f as nat, 0));
        }
    }
}

/// Append the fractional digits of `f` over `k` places.
fn append_frac(buf: &mut String, f: u64, k: u64)
    ensures
        final(buf)@ == old(buf)@ + frac_str(f as nat, k as nat),
    decreases k,
{
    if k == 0 {
        proof {
            assert(buf@ =~= old(buf)@ + frac_str(f as nat, 0));
        }
    } else if f % 10 == 0 {
        append_frac(buf, f / 10, k - 1);
    } else {
        append_pad(buf, f, k);
    }
}

/// Append the numeral of a scalar.
fn append_rat(buf: &mut String, c: Rat)
    requires
        rat_wf(c),
    ensures
        final(buf)@ == old(buf)@ + rat_str(c),
{
    proof {
        reveal_strlit("-");
        reveal_strlit(".");
        reveal_strlit("/");
    }
    if c.n < 0 {
        buf.append("-");
    }
    let a: u64 = if c.n < 0 {
        (-c.n) as u64
    } else {
        c.n as u64
    };
    let d: u64 = c.d as u64;
    if d == 1 {
        append_u64(buf, a);
        proof {
            assert(buf@ =~= old(buf)@ + rat_str(c));
        }
    } else if d <= 10000 && 10000 % d == 0 {
        let q = a / d;
        let rem = a % d;
        let scale = 10000 / d;
        proof {
            assert((rem as int) * (scale as int) <= 9999 * 10000) by (nonlinear_arith)
                requires
                    0 <= rem as int <= 9999,
                    0 <= scale as int <= 10000,
            ;
            assert(0 <= (rem as int) * (scale as int)) by (nonlinear_arith)
                requires
                    0 <= rem as int,
                    0 <= scale as int,
            ;
        }
        let frac = rem * scale;
        if frac == 0 {
            append_u64(buf, q);
        } else {
            append_u64(buf, q);
            buf.append(".");
            append_frac(buf, frac, 4);
        }
        proof {
            assert(buf@ =~= old(buf)@ + rat_str(c));
        }
    } else {
        append_u64(buf, a);
        buf.append("/");
        append_u64(buf, d);
        proof {
            assert(buf@ =~= old(buf)@ + rat_str(c));
        }
    }
}

/// A method for emitting expressions
pub trait Backend: Sized {
    type Output;

    type Err;

    fn emit_expr(&mut self, v: Expr) -> Result<(), Self::Err>
        requires
            v.wf(),
    ;

    /// Complete emitting the Expr,
    fn finish(self) -> Self::Output;
}

/// The error an emission sink reports when it cannot accept a write.
/// The s-expression backend accumulates into memory and never fails.
#[derive(Clone, Copy, Debug, PartialEq, Eq, Structural)]
pub enum EmitError {
    Sink,
}

/// The reference backend: a fully parenthesized prefix rendering,
/// accumulated in a string buffer.
#[derive(Debug)]
pub struct SExpr {
    buffer: String,
}

impl View for SExpr {
    type V = Seq<char>;

    closed spec fn view(&self) -> Seq<char> {
        self.buffer@
    }
}

impl SExpr {
    pub fn new() -> (r: Self)
        ensures
            r@ == Seq::<char>::empty(),
    {
        SExpr { buffer: String::new() }
    }

    /// Append the rendering of `v` to the accumulated output.  Never fails:
    /// the buffer lives in memory.
    pub fn emit_expr(&mut self, v: Expr) -> (r: Result<(), EmitError>)
        requires
            v.wf(),
        ensures
            r is Ok,
            final(self)@ == old(self)@ + sexpr_of(v),
        decreases v,
    {
        proof {
            reveal_strlit(" ");
            reveal_strlit(" (");
            reveal_strlit(")");
            reveal_strlit("+");
            reveal_strlit("*");
            reveal_strlit(" -");
            reveal_strlit("abs");
            reveal_strlit("recip");
            reveal_strlit("heavside");
            reveal_strlit(" x");
        }
        match v {
            Expr::Const(c) => {
                self.buffer.append(" ");
                append_rat(&mut self.buffer, c);
                proof {
                    assert(self@ =~= old(self)@ + sexpr_of(Expr::Const(c)));
                }
                Ok(())
            },
            Expr::Var { id, sampling_axis } => {
                self.buffer.append(" x");
                append_u64(&mut self.buffer, id as u64);
                proof {
                    assert(self@ =~= old(self)@ + sexpr_of(Expr::Var { id, sampling_axis }));
                }
                Ok(())
            },
            Expr::BOp(op, lhs, rhs) => {
                self.buffer.append(" (");
                match op {
                    BOp::Add => self.buffer.append("+"),
                    BOp::Mul => self.buffer.append("*"),
                }
                self.emit_expr(*lhs)?;
                self.emit_expr(*rhs)?;
                self.buffer.append(")");
                proof {
                    assert(self@ =~= old(self)@ + sexpr_of(Expr::BOp(op, lhs, rhs)));
                }
                Ok(())
            },
            Expr::UOp(op, v0) => {
                self.buffer.append(" (");
                match op {
                    UOp::Neg => self.buffer.append(" -"),
                    UOp::Abs => self.buffer.append("abs"),
                    UOp::Recip => self.buffer.append("recip"),
                }
                self.emit_expr(*v0)?;
                self.buffer.append(")");
                proof {
                    assert(self@ =~= old(self)@ + sexpr_of(Expr::UOp(op, v0)));
                }
                Ok(())
            },
            Expr::Guard(v0) => {
                self.emit_expr(*v0)?;
                Ok(())
            },
            Expr::Heavside(v0) => {
                self.buffer.append(" (");
                self.buffer.append("heavside");
                self.emit_expr(*v0)?;
                self.buffer.append(")");
                proof {
                    assert(self@ =~= old(self)@ + sexpr_of(Expr::Heavside(v0)));
                }
                Ok(())
            },
        }
    }

    /// Complete emitting the Expr,
    pub fn finish(self) -> (r: String)
        ensures
            r@ == self@,
    {
        self.buffer
    }
}

impl Backend for SExpr {
    type Output = String;

    type Err = EmitError;

    fn emit_expr(&mut self, v: Expr) -> Result<(), EmitError> {
        SExpr::emit_expr(self, v)
    }

    /// Complete emitting the Expr,
    fn finish(self) -> String {
        SExpr::finish(self)
    }
}

} // verus!
