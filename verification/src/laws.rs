//! Laws of the differentiator: what derivative trees evaluate to.
//!
//! The statements are over the ideal evaluation `eval_q` (exact fractions,
//! no machine bounds); `lemma_eval_machine_sound` ties the machine
//! evaluation that `Expr::eval` performs back to it.

use vstd::prelude::*;

use crate::backend::sexpr_of;
use crate::rat::{
    lemma_mul_pos, q_abs, q_add, q_eq, q_guard, q_half, q_heav, q_mul, q_neg, q_one, q_recip,
    q_wf, q_zero, rat_wf, Q, Rat,
};
use crate::{
    axis_free, diff_s, env_q_wf, eval_ex, eval_g, eval_q, rat_eps, rat_eps_neg, s_abs, s_add,
    s_fuzzy_not, s_half, s_mul, s_neg, s_one, s_recip, s_sub, shift_s, EvalOut, Expr,
};

verus! {

/// Machine evaluation agrees with ideal evaluation whenever it does not
/// overflow: bounds checks only ever turn a value into `Overflow`.
pub proof fn lemma_eval_machine_sound(e: Expr, env: Map<u32, Q>)
    ensures
        eval_ex(e, env) is Overflow || eval_ex(e, env) == eval_q(e, env),
    decreases e,
{
    match e {
        Expr::Const(_) => {},
        Expr::Var { .. } => {},
        Expr::BOp(_, l, r) => {
            lemma_eval_machine_sound(*l, env);
            lemma_eval_machine_sound(*r, env);
        },
        Expr::UOp(_, v) => {
            lemma_eval_machine_sound(*v, env);
        },
        Expr::Heavside(v) => {
            lemma_eval_machine_sound(*v, env);
        },
        Expr::Guard(v) => {
            lemma_eval_machine_sound(*v, env);
        },
    }
}

/// Evaluating a well-formed tree under a well-formed environment only ever
/// produces well-formed values (positive denominators).
pub proof fn lemma_eval_wf(e: Expr, env: Map<u32, Q>, bounded: bool)
    requires
        e.wf(),
        env_q_wf(env),
    ensures
        eval_g(e, env, bounded) matches EvalOut::Val(v) ==> q_wf(v),
    decreases e,
{
    match e {
        Expr::Const(_) => {},
        Expr::Var { .. } => {},
        Expr::BOp(_, l, r) => {
            lemma_eval_wf(*l, env, bounded);
            lemma_eval_wf(*r, env, bounded);
            match (eval_g(*l, env, bounded), eval_g(*r, env, bounded)) {
                (EvalOut::Val(a), EvalOut::Val(b)) => {
                    lemma_mul_pos(a.d, b.d);
                },
                _ => {},
            }
        },
        Expr::UOp(_, v) => {
            lemma_eval_wf(*v, env, bounded);
        },
        Expr::Heavside(v) => {
            lemma_eval_wf(*v, env, bounded);
        },
        Expr::Guard(v) => {
            lemma_eval_wf(*v, env, bounded);
            match eval_g(*v, env, bounded) {
                EvalOut::Val(a) => {
                    lemma_mul_pos(a.d, 10000);
                },
                _ => {},
            }
        },
    }
}

/// The shift transform preserves well-formedness.
pub proof fn lemma_shift_wf(e: Expr, amt: Rat)
    requires
        e.wf(),
        rat_wf(amt),
    ensures
        shift_s(e, amt).wf(),
    decreases e,
{
    reveal_with_fuel(Expr::wf, 4);
    match e {
        Expr::Const(_) => {},
        Expr::Var { .. } => {},
        Expr::BOp(_, l, r) => {
            lemma_shift_wf(*l, amt);
            lemma_shift_wf(*r, amt);
        },
        Expr::UOp(_, v) => {
            lemma_shift_wf(*v, amt);
        },
        Expr::Heavside(v) => {
            lemma_shift_wf(*v, amt);
        },
        Expr::Guard(v) => {
            lemma_shift_wf(*v, amt);
        },
    }
}

/// Differentiation preserves well-formedness: every constant a derivative
/// tree holds is a well-formed scalar.
pub proof fn lemma_diff_wf(e: Expr, id: u32)
    requires
        e.wf(),
    ensures
        diff_s(e, id).wf(),
    decreases e,
{
    reveal_with_fuel(Expr::wf, 8);
    match e {
        Expr::Const(_) => {},
        Expr::Var { .. } => {},
        Expr::BOp(_, l, r) => {
            lemma_diff_wf(*l, id);
            lemma_diff_wf(*r, id);
            lemma_shift_wf(*l, rat_eps());
            lemma_shift_wf(*l, rat_eps_neg());
            lemma_shift_wf(*r, rat_eps());
            lemma_shift_wf(*r, rat_eps_neg());
        },
        Expr::UOp(_, v) => {
            lemma_diff_wf(*v, id);
            lemma_shift_wf(*v, rat_eps());
            lemma_shift_wf(*v, rat_eps_neg());
        },
        Expr::Heavside(v) => {
            lemma_diff_wf(*v, id);
            lemma_shift_wf(*v, rat_eps());
            lemma_shift_wf(*v, rat_eps_neg());
        },
        Expr::Guard(v) => {
            lemma_diff_wf(*v, id);
        },
    }
}

/// On a tree without sampling-axis variables the shift transform is the
/// identity.
pub proof fn lemma_shift_axis_free(e: Expr, amt: Rat)
    requires
        axis_free(e),
    ensures
        shift_s(e, amt) == e,
    decreases e,
{
    match e {
        Expr::Const(_) => {},
        Expr::Var { .. } => {},
        Expr::BOp(_, l, r) => {
            lemma_shift_axis_free(*l, amt);
            lemma_shift_axis_free(*r, amt);
        },
        Expr::UOp(_, v) => {
            lemma_shift_axis_free(*v, amt);
        },
        Expr::Heavside(v) => {
            lemma_shift_axis_free(*v, amt);
        },
        Expr::Guard(v) => {
            lemma_shift_axis_free(*v, amt);
        },
    }
}

/// The derivative of a constant evaluates to zero under every resolver.
pub proof fn lemma_diff_const(c: Rat, id: u32, env: Map<u32, Q>)
    ensures
        eval_q(diff_s(Expr::Const(c), id), env) == EvalOut::Val(q_zero()),
{
}

/// The derivative of a variable with respect to itself evaluates to one,
/// and with respect to any other id to zero, under every resolver.
pub proof fn lemma_diff_var(idv: u32, axis: bool, id: u32, env: Map<u32, Q>)
    ensures
        idv == id ==> eval_q(diff_s(Expr::Var { id: idv, sampling_axis: axis }, id), env)
            == EvalOut::Val(q_one()),
        idv != id ==> eval_q(diff_s(Expr::Var { id: idv, sampling_axis: axis }, id), env)
            == EvalOut::Val(q_zero()),
{
}

/// Linearity: the derivative of a sum evaluates to the sum of the
/// derivatives, in every environment in which both are defined.
pub proof fn lemma_diff_add_linear(a: Expr, b: Expr, id: u32, env: Map<u32, Q>, x: Q, y: Q)
    requires
        eval_q(diff_s(a, id), env) == EvalOut::Val(x),
        eval_q(diff_s(b, id), env) == EvalOut::Val(y),
    ensures
        eval_q(diff_s(s_add(a, b), id), env) == EvalOut::Val(q_add(x, y)),
{
}

proof fn lemma_raw_half_avg(xn: int, xd: int, yn: int, yd: int)
    by (nonlinear_arith)
    ensures
        ((1 * (xn * xd + xn * xd)) * yn) * (xd * yd) == (xn * yn) * ((2 * (xd * xd)) * yd),
{
}

/// Halving the sum of two copies of a factor and multiplying is, as a
/// rational number, just multiplying by the factor.
proof fn lemma_q_half_avg(x: Q, y: Q)
    ensures
        q_eq(q_mul(q_mul(q_half(), q_add(x, x)), y), q_mul(x, y)),
{
    lemma_raw_half_avg(x.n, x.d, y.n, y.d);
}

/// Multiplication distributes over a sum of products.
proof fn lemma_distrib(x: int, y: int, z: int)
    by (nonlinear_arith)
    ensures
        (x + y) * z == x * z + y * z,
{
}

/// A product of four factors may be regrouped freely.
proof fn lemma_mul_shuffle(p: int, q2: int, r2: int, s2: int)
    by (nonlinear_arith)
    ensures
        (p * q2) * (r2 * s2) == (p * r2) * (q2 * s2),
        (p * q2) * (r2 * s2) == (p * s2) * (q2 * r2),
        (p * q2) * (r2 * s2) == (p * r2) * (s2 * q2),
        (p * q2) * (r2 * s2) == (p * s2) * (r2 * q2),
{
}

/// Addition of fractions respects rational equality.
proof fn lemma_q_add_cong(a: Q, b: Q, c: Q, d: Q)
    requires
        q_eq(a, c),
        q_eq(b, d),
    ensures
        q_eq(q_add(a, b), q_add(c, d)),
{
    lemma_distrib(a.n * b.d, b.n * a.d, c.d * d.d);
    lemma_distrib(c.n * d.d, d.n * c.d, a.d * b.d);
    lemma_mul_shuffle(a.n, b.d, c.d, d.d);
    lemma_mul_shuffle(b.n, a.d, c.d, d.d);
    lemma_mul_shuffle(c.n, d.d, a.d, b.d);
    lemma_mul_shuffle(d.n, c.d, a.d, b.d);
}

/// Product rule away from discontinuities: on factors free of
/// sampling-axis variables the smoothed, centered-average product rule
/// evaluates to exactly the classical `r·l' + l·r'`.
pub proof fn lemma_diff_mul_product(
    l: Expr,
    r: Expr,
    id: u32,
    env: Map<u32, Q>,
    vl: Q,
    vr: Q,
    dl: Q,
    dr: Q,
)
    requires
        axis_free(l),
        axis_free(r),
        eval_q(l, env) == EvalOut::Val(vl),
        eval_q(r, env) == EvalOut::Val(vr),
        eval_q(diff_s(l, id), env) == EvalOut::Val(dl),
        eval_q(diff_s(r, id), env) == EvalOut::Val(dr),
    ensures
        eval_q(diff_s(s_mul(l, r), id), env) matches EvalOut::Val(z) && q_eq(
            z,
            q_add(q_mul(vr, dl), q_mul(vl, dr)),
        ),
{
    lemma_shift_axis_free(l, rat_eps());
    lemma_shift_axis_free(l, rat_eps_neg());
    lemma_shift_axis_free(r, rat_eps());
    lemma_shift_axis_free(r, rat_eps_neg());
    let dlt = diff_s(l, id);
    let drt = diff_s(r, id);
    let t1 = q_mul(q_mul(q_half(), q_add(vr, vr)), dl);
    let t2 = q_mul(q_mul(q_half(), q_add(vl, vl)), dr);
    assert(diff_s(s_mul(l, r), id) == s_add(
        s_mul(s_mul(s_half(), s_add(r, r)), dlt),
        s_mul(s_mul(s_half(), s_add(l, l)), drt),
    ));
    assert(eval_q(s_half(), env) == EvalOut::Val(q_half()));
    assert(eval_q(s_add(r, r), env) == EvalOut::Val(q_add(vr, vr)));
    assert(eval_q(s_add(l, l), env) == EvalOut::Val(q_add(vl, vl)));
    assert(eval_q(s_mul(s_half(), s_add(r, r)), env) == EvalOut::Val(
        q_mul(q_half(), q_add(vr, vr)),
    ));
    assert(eval_q(s_mul(s_half(), s_add(l, l)), env) == EvalOut::Val(
        q_mul(q_half(), q_add(vl, vl)),
    ));
    assert(eval_q(s_mul(s_mul(s_half(), s_add(r, r)), dlt), env) == EvalOut::Val(t1));
    assert(eval_q(s_mul(s_mul(s_half(), s_add(l, l)), drt), env) == EvalOut::Val(t2));
    assert(eval_q(diff_s(s_mul(l, r), id), env) == EvalOut::Val(q_add(t1, t2)));
    lemma_q_half_avg(vr, dl);
    lemma_q_half_avg(vl, dr);
    lemma_q_add_cong(t1, t2, q_mul(vr, dl), q_mul(vl, dr));
}

/// The guard of a well-formed value is never zero: the nudge pushes a
/// non-negative value up and a negative value further down.
pub proof fn lemma_q_guard_nonzero(x: Q)
    requires
        q_wf(x),
    ensures
        q_guard(x).n != 0,
        q_wf(q_guard(x)),
{
}

/// Absolute-value smoothing at a vanishing derivative: when the operand's
/// derivative evaluates to zero, the smoothed rule evaluates to exactly
/// zero as well — which is `sign(v)` times that derivative.
pub proof fn lemma_diff_abs_zero_deriv(
    v: Expr,
    id: u32,
    env: Map<u32, Q>,
    ar: Q,
    al: Q,
    dv: Q,
)
    requires
        v.wf(),
        env_q_wf(env),
        eval_q(shift_s(v, rat_eps()), env) == EvalOut::Val(ar),
        eval_q(shift_s(v, rat_eps_neg()), env) == EvalOut::Val(al),
        eval_q(diff_s(v, id), env) == EvalOut::Val(dv),
        dv.n == 0,
    ensures
        eval_q(diff_s(s_abs(v), id), env) matches EvalOut::Val(z) && z.n == 0,
{
    lemma_shift_wf(v, rat_eps());
    lemma_shift_wf(v, rat_eps_neg());
    lemma_eval_wf(shift_s(v, rat_eps()), env, false);
    lemma_eval_wf(shift_s(v, rat_eps_neg()), env, false);
    let m = q_add(ar, q_neg(al));
    lemma_mul_pos(ar.d, al.d);
    lemma_q_guard_nonzero(m);
    let rt = shift_s(v, rat_eps());
    let lt = shift_s(v, rat_eps_neg());
    let dvt = diff_s(v, id);
    let kt = s_mul(
        s_sub(s_abs(rt), s_abs(lt)),
        s_recip(Expr::Guard(Box::new(s_sub(rt, lt)))),
    );
    assert(diff_s(s_abs(v), id) == s_mul(kt, dvt));
    let num = q_add(q_abs(ar), q_neg(q_abs(al)));
    assert(eval_q(s_abs(rt), env) == EvalOut::Val(q_abs(ar)));
    assert(eval_q(s_abs(lt), env) == EvalOut::Val(q_abs(al)));
    assert(eval_q(s_neg(s_abs(lt)), env) == EvalOut::Val(q_neg(q_abs(al))));
    assert(eval_q(s_sub(s_abs(rt), s_abs(lt)), env) == EvalOut::Val(num));
    assert(eval_q(s_neg(lt), env) == EvalOut::Val(q_neg(al)));
    assert(eval_q(s_sub(rt, lt), env) == EvalOut::Val(m));
    assert(eval_q(Expr::Guard(Box::new(s_sub(rt, lt))), env) == EvalOut::Val(q_guard(m)));
    assert(eval_q(s_recip(Expr::Guard(Box::new(s_sub(rt, lt)))), env) == EvalOut::Val(
        q_recip(q_guard(m)),
    ));
    let k = q_mul(num, q_recip(q_guard(m)));
    assert(eval_q(kt, env) == EvalOut::Val(k));
    assert(eval_q(diff_s(s_abs(v), id), env) == EvalOut::Val(q_mul(k, dv)));
    assert(q_mul(k, dv).n == k.n * dv.n);
    assert(q_mul(k, dv).n == 0);
}

/// Zero times anything is zero.
proof fn lemma_mul_zero(a: int)
    by (nonlinear_arith)
    ensures
        0 * a == 0,
{
}

/// Negating one factor negates the product.
proof fn lemma_neg_mul(a: int, b: int)
    by (nonlinear_arith)
    ensures
        (-a) * b == -(a * b),
{
}

/// A negative product has factors of strictly opposite sign.
proof fn lemma_sign_product(a: int, b: int)
    by (nonlinear_arith)
    requires
        a * b < 0,
    ensures
        (a > 0 && b < 0) || (a < 0 && b > 0),
{
}

/// Heaviside delta term at a true crossing: when the one-sided limits of
/// the argument straddle zero, the derivative evaluates to the finite
/// value `e' / |L - R|`.
pub proof fn lemma_diff_heavside_crossing(
    e: Expr,
    id: u32,
    env: Map<u32, Q>,
    ql: Q,
    qr: Q,
    de: Q,
)
    requires
        e.wf(),
        env_q_wf(env),
        eval_q(shift_s(e, rat_eps_neg()), env) == EvalOut::Val(ql),
        eval_q(shift_s(e, rat_eps()), env) == EvalOut::Val(qr),
        eval_q(diff_s(e, id), env) == EvalOut::Val(de),
        ql.n * qr.n < 0,
    ensures
        eval_q(diff_s(Expr::Heavside(Box::new(e)), id), env) == EvalOut::Val(
            q_mul(de, q_recip(q_abs(q_add(ql, q_neg(qr))))),
        ),
{
    lemma_shift_wf(e, rat_eps());
    lemma_shift_wf(e, rat_eps_neg());
    lemma_eval_wf(shift_s(e, rat_eps()), env, false);
    lemma_eval_wf(shift_s(e, rat_eps_neg()), env, false);
    lemma_sign_product(ql.n, qr.n);
    lemma_mul_pos(ql.d, qr.d);
    let w = q_add(ql, q_neg(qr));
    // the one-sided limits differ, so the reciprocal distance is defined
    lemma_neg_mul(qr.n, ql.d);
    assert(w.n == ql.n * qr.d + (-(qr.n)) * ql.d);
    if ql.n > 0 {
        lemma_mul_pos(ql.n, qr.d);
        lemma_mul_pos(-qr.n, ql.d);
        assert(w.n > 0);
    } else {
        lemma_neg_mul(ql.n, qr.d);
        lemma_mul_pos(-ql.n, qr.d);
        lemma_mul_pos(qr.n, ql.d);
        assert(w.n < 0);
    }
    let lt = shift_s(e, rat_eps_neg());
    let rt = shift_s(e, rat_eps());
    let det = diff_s(e, id);
    let ht = Expr::Heavside(Box::new(s_fuzzy_not(s_mul(lt, rt))));
    assert(diff_s(Expr::Heavside(Box::new(e)), id) == s_mul(
        s_mul(ht, det),
        s_recip(s_abs(s_sub(lt, rt))),
    ));
    let f = q_add(q_one(), q_neg(q_mul(ql, qr)));
    assert(eval_q(s_one(), env) == EvalOut::Val(q_one()));
    assert(eval_q(s_mul(lt, rt), env) == EvalOut::Val(q_mul(ql, qr)));
    assert(eval_q(s_neg(s_mul(lt, rt)), env) == EvalOut::Val(q_neg(q_mul(ql, qr))));
    assert(eval_q(s_fuzzy_not(s_mul(lt, rt)), env) == EvalOut::Val(f));
    assert(eval_q(s_neg(rt), env) == EvalOut::Val(q_neg(qr)));
    // the fuzzy complement of L·R evaluates positive, so the step factor
    // is one
    assert(q_heav(f) == q_one());
    assert(eval_q(ht, env) == EvalOut::Val(q_one()));
    assert(eval_q(s_mul(ht, det), env) == EvalOut::Val(q_mul(q_one(), de)));
    assert(q_mul(q_one(), de) == de);
    assert(eval_q(s_sub(lt, rt), env) == EvalOut::Val(w));
    assert(eval_q(s_abs(s_sub(lt, rt)), env) == EvalOut::Val(q_abs(w)));
    assert(q_abs(w).n != 0);
    assert(eval_q(s_recip(s_abs(s_sub(lt, rt))), env) == EvalOut::Val(q_recip(q_abs(w))));
    assert(eval_q(diff_s(Expr::Heavside(Box::new(e)), id), env) == EvalOut::Val(
        q_mul(de, q_recip(q_abs(w))),
    ));
}

/// Heaviside away from a crossing: when the one-sided limits sit on the
/// same side of zero with product at least one, and differ as rationals,
/// the derivative evaluates to exactly zero.
pub proof fn lemma_diff_heavside_separated(
    e: Expr,
    id: u32,
    env: Map<u32, Q>,
    ql: Q,
    qr: Q,
    de: Q,
)
    requires
        e.wf(),
        env_q_wf(env),
        eval_q(shift_s(e, rat_eps_neg()), env) == EvalOut::Val(ql),
        eval_q(shift_s(e, rat_eps()), env) == EvalOut::Val(qr),
        eval_q(diff_s(e, id), env) == EvalOut::Val(de),
        ql.n * qr.n >= ql.d * qr.d,
        !q_eq(ql, qr),
    ensures
        eval_q(diff_s(Expr::Heavside(Box::new(e)), id), env) matches EvalOut::Val(z) && z.n
            == 0,
{
    lemma_shift_wf(e, rat_eps());
    lemma_shift_wf(e, rat_eps_neg());
    lemma_eval_wf(shift_s(e, rat_eps()), env, false);
    lemma_eval_wf(shift_s(e, rat_eps_neg()), env, false);
    lemma_mul_pos(ql.d, qr.d);
    let w = q_add(ql, q_neg(qr));
    // L != R as rationals, so the reciprocal distance is defined
    lemma_neg_mul(qr.n, ql.d);
    assert(w.n == ql.n * qr.d + (-(qr.n)) * ql.d);
    assert(w.n != 0);
    let lt = shift_s(e, rat_eps_neg());
    let rt = shift_s(e, rat_eps());
    let det = diff_s(e, id);
    let ht = Expr::Heavside(Box::new(s_fuzzy_not(s_mul(lt, rt))));
    assert(diff_s(Expr::Heavside(Box::new(e)), id) == s_mul(
        s_mul(ht, det),
        s_recip(s_abs(s_sub(lt, rt))),
    ));
    let f = q_add(q_one(), q_neg(q_mul(ql, qr)));
    assert(eval_q(s_one(), env) == EvalOut::Val(q_one()));
    assert(eval_q(s_mul(lt, rt), env) == EvalOut::Val(q_mul(ql, qr)));
    assert(eval_q(s_neg(s_mul(lt, rt)), env) == EvalOut::Val(q_neg(q_mul(ql, qr))));
    assert(eval_q(s_fuzzy_not(s_mul(lt, rt)), env) == EvalOut::Val(f));
    assert(eval_q(s_neg(rt), env) == EvalOut::Val(q_neg(qr)));
    // the fuzzy complement of L·R evaluates non-positive, so the step
    // factor is zero
    assert(q_heav(f) == q_zero());
    assert(eval_q(ht, env) == EvalOut::Val(q_zero()));
    assert(eval_q(s_mul(ht, det), env) == EvalOut::Val(q_mul(q_zero(), de)));
    assert(eval_q(s_sub(lt, rt), env) == EvalOut::Val(w));
    assert(eval_q(s_abs(s_sub(lt, rt)), env) == EvalOut::Val(q_abs(w)));
    assert(q_abs(w).n != 0);
    assert(eval_q(s_recip(s_abs(s_sub(lt, rt))), env) == EvalOut::Val(q_recip(q_abs(w))));
    let z = q_mul(q_mul(q_zero(), de), q_recip(q_abs(w)));
    assert(eval_q(s_mul(s_mul(ht, det), s_recip(s_abs(s_sub(lt, rt)))), env) == EvalOut::Val(
        z,
    ));
    assert(eval_q(diff_s(Expr::Heavside(Box::new(e)), id), env) == EvalOut::Val(z));
    assert(q_mul(q_zero(), de).n == 0);
    lemma_mul_zero(q_recip(q_abs(w)).n);
    assert(z.n == q_mul(q_zero(), de).n * q_recip(q_abs(w)).n);
    assert(z.n == 0);
}

/// Guard transparency: a guarded tree renders exactly as its operand.
pub proof fn lemma_guard_transparent(v: Expr)
    ensures
        sexpr_of(Expr::Guard(Box::new(v))) == sexpr_of(v),
{
}

} // verus!
