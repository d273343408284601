//! Symbolic differentiation of scalar expressions with discontinuous
//! operators (absolute value, step functions).
//!
//! Expressions are closed recursive trees over exact scalars.  The
//! differentiator produces derivative trees that stay well-defined across
//! discontinuities by combining one-sided limits built with an epsilon
//! shift of every sampling-axis variable.

use vstd::prelude::*;

pub mod backend;
pub mod cli;
pub mod laws;
pub mod ops;
pub mod rat;

use rat::{
    q_abs, q_add, q_fits, q_guard, q_heav, q_mul, q_neg, q_recip, q_wf, rat_wf, Q, Rat,
};

verus! {

/// Variable ID
pub type ID = u32;

#[derive(Clone, Copy, Debug, PartialEq, Eq, Structural)]
pub enum BOp {
    Add,
    Mul,
}

#[derive(Clone, Copy, Debug, PartialEq, Eq, Structural)]
pub enum UOp {
    Neg,
    Abs,
    Recip,
}

/// A generic expression
#[derive(Debug)]
pub enum Expr {
    Const(Rat),
    Var { id: ID, sampling_axis: bool },
    BOp(BOp, Box<Expr>, Box<Expr>),
    UOp(UOp, Box<Expr>),
    Heavside(Box<Expr>),
    /// Guard, adding a small epsilon to denominators generated during
    /// differentiation
    Guard(Box<Expr>),
}

/// The tree `a + b`.
pub open spec fn s_add(a: Expr, b: Expr) -> Expr {
    Expr::BOp(BOp::Add, Box::new(a), Box::new(b))
}

/// The tree `a * b`.
pub open spec fn s_mul(a: Expr, b: Expr) -> Expr {
    Expr::BOp(BOp::Mul, Box::new(a), Box::new(b))
}

/// The tree `-a`.
pub open spec fn s_neg(a: Expr) -> Expr {
    Expr::UOp(UOp::Neg, Box::new(a))
}

/// The tree `a - b`, decomposed as `a + (-b)`.
pub open spec fn s_sub(a: Expr, b: Expr) -> Expr {
    s_add(a, s_neg(b))
}

/// The tree `|a|`.
pub open spec fn s_abs(a: Expr) -> Expr {
    Expr::UOp(UOp::Abs, Box::new(a))
}

/// The tree `1 / a`.
pub open spec fn s_recip(a: Expr) -> Expr {
    Expr::UOp(UOp::Recip, Box::new(a))
}

/// The constant `0`.
pub open spec fn s_zero() -> Expr {
    Expr::Const(Rat { n: 0, d: 1 })
}

/// The constant `1`.
pub open spec fn s_one() -> Expr {
    Expr::Const(Rat { n: 1, d: 1 })
}

/// The constant `1/2`.
pub open spec fn s_half() -> Expr {
    Expr::Const(Rat { n: 1, d: 2 })
}

/// The smoothing epsilon as a scalar.
pub open spec fn rat_eps() -> Rat {
    Rat { n: 1, d: rat::EPS_DEN }
}

/// The negated smoothing epsilon as a scalar.
pub open spec fn rat_eps_neg() -> Rat {
    Rat { n: -1i64, d: rat::EPS_DEN }
}

/// The tree `1 - a`, the fuzzy complement.
pub open spec fn s_fuzzy_not(a: Expr) -> Expr {
    s_sub(s_one(), a)
}

/// The shift transform: rebuilds the tree, replacing every sampling-axis
/// variable `x` by `x + amt`; everything else is copied structurally.
pub open spec fn shift_s(e: Expr, amt: Rat) -> Expr
    decreases e,
{
    match e {
        Expr::Const(c) => Expr::Const(c),
        Expr::Var { id, sampling_axis } => if sampling_axis {
            s_add(Expr::Var { id, sampling_axis }, Expr::Const(amt))
        } else {
            e
        },
        Expr::BOp(op, l, r) => Expr::BOp(
            op,
            Box::new(shift_s(*l, amt)),
            Box::new(shift_s(*r, amt)),
        ),
        Expr::UOp(op, v) => Expr::UOp(op, Box::new(shift_s(*v, amt))),
        Expr::Heavside(v) => Expr::Heavside(Box::new(shift_s(*v, amt))),
        Expr::Guard(v) => Expr::Guard(Box::new(shift_s(*v, amt))),
    }
}

/// The derivative tree with respect to variable `id`.
///
/// Discontinuity-aware rules: the product rule averages the one-sided
/// epsilon-shifted limits of each factor; the absolute-value rule estimates
/// the sign by a guarded centered difference; the step rule synthesizes a
/// delta term that is active exactly when the one-sided limits of the
/// argument have opposite sign.
pub open spec fn diff_s(e: Expr, id: u32) -> Expr
    decreases e,
{
    match e {
        Expr::Const(_) => s_zero(),
        Expr::Var { id: i2, .. } => if i2 == id {
            s_one()
        } else {
            s_zero()
        },
        Expr::BOp(BOp::Add, l, r) => s_add(diff_s(*l, id), diff_s(*r, id)),
        Expr::BOp(BOp::Mul, l, r) => {
            let lhs_l = shift_s(*l, rat_eps_neg());
            let lhs_r = shift_s(*l, rat_eps());
            let rhs_l = shift_s(*r, rat_eps_neg());
            let rhs_r = shift_s(*r, rat_eps());
            s_add(
                s_mul(s_mul(s_half(), s_add(rhs_l, rhs_r)), diff_s(*l, id)),
                s_mul(s_mul(s_half(), s_add(lhs_l, lhs_r)), diff_s(*r, id)),
            )
        },
        Expr::UOp(UOp::Neg, v) => s_mul(s_neg(s_one()), diff_s(*v, id)),
        Expr::UOp(UOp::Recip, v) => s_mul(s_neg(s_recip(s_mul(*v, *v))), diff_s(*v, id)),
        Expr::UOp(UOp::Abs, v) => {
            let r_lim = shift_s(*v, rat_eps());
            let l_lim = shift_s(*v, rat_eps_neg());
            let k = s_mul(
                s_sub(s_abs(r_lim), s_abs(l_lim)),
                s_recip(Expr::Guard(Box::new(s_sub(r_lim, l_lim)))),
            );
            s_mul(k, diff_s(*v, id))
        },
        Expr::Heavside(e0) => {
            let left_lim = shift_s(*e0, rat_eps_neg());
            let right_lim = shift_s(*e0, rat_eps());
            s_mul(
                s_mul(
                    Expr::Heavside(Box::new(s_fuzzy_not(s_mul(left_lim, right_lim)))),
                    diff_s(*e0, id),
                ),
                s_recip(s_abs(s_sub(left_lim, right_lim))),
            )
        },
        Expr::Guard(v) => Expr::Guard(Box::new(diff_s(*v, id))),
    }
}

/// The tree mentions no sampling-axis variable, so the shift transform
/// leaves it untouched.
pub open spec fn axis_free(e: Expr) -> bool
    decreases e,
{
    match e {
        Expr::Const(_) => true,
        Expr::Var { sampling_axis, .. } => !sampling_axis,
        Expr::BOp(_, l, r) => axis_free(*l) && axis_free(*r),
        Expr::UOp(_, v) => axis_free(*v),
        Expr::Heavside(v) => axis_free(*v),
        Expr::Guard(v) => axis_free(*v),
    }
}

/// Every value an abstract environment resolves to is well-formed.
pub open spec fn env_q_wf(env: Map<u32, Q>) -> bool {
    forall|id: u32| env.dom().contains(id) ==> q_wf(#[trigger] env[id])
}

/// Why evaluation stopped instead of producing a value.
#[derive(Clone, Copy, Debug, PartialEq, Eq, Structural)]
pub enum EvalError {
    /// The environment holds no value for a referenced variable id.
    UnresolvedVariable(u32),
    /// An exact reciprocal of zero was requested.
    DivisionByZero,
    /// A component of an exact fraction left the machine range.
    Overflow,
}

/// The outcome of evaluating a tree over fractions.
pub enum EvalOut {
    Val(Q),
    Unresolved(u32),
    DivZero,
    Overflow,
}

/// Evaluation of a tree under an environment, by structural recursion.
/// With `bounded` the arithmetic is checked against the machine range of
/// `Rat` components (mirroring the executable evaluator exactly); without
/// it the fractions are ideal and never overflow.
pub open spec fn eval_g(e: Expr, env: Map<u32, Q>, bounded: bool) -> EvalOut
    decreases e,
{
    match e {
        Expr::Const(c) => EvalOut::Val(c@),
        Expr::Var { id, .. } => if env.dom().contains(id) {
            EvalOut::Val(env[id])
        } else {
            EvalOut::Unresolved(id)
        },
        Expr::BOp(op, l, r) => match eval_g(*l, env, bounded) {
            EvalOut::Val(a) => match eval_g(*r, env, bounded) {
                EvalOut::Val(b) => {
                    let v = match op {
                        BOp::Add => q_add(a, b),
                        BOp::Mul => q_mul(a, b),
                    };
                    if bounded && !q_fits(v) {
                        EvalOut::Overflow
                    } else {
                        EvalOut::Val(v)
                    }
                },
                other => other,
            },
            other => other,
        },
        Expr::UOp(op, v) => match eval_g(*v, env, bounded) {
            EvalOut::Val(a) => match op {
                UOp::Neg => EvalOut::Val(q_neg(a)),
                UOp::Abs => EvalOut::Val(q_abs(a)),
                UOp::Recip => if a.n == 0 {
                    EvalOut::DivZero
                } else {
                    EvalOut::Val(q_recip(a))
                },
            },
            other => other,
        },
        Expr::Heavside(v) => match eval_g(*v, env, bounded) {
            EvalOut::Val(a) => EvalOut::Val(q_heav(a)),
            other => other,
        },
        Expr::Guard(v) => match eval_g(*v, env, bounded) {
            EvalOut::Val(a) => {
                let g = q_guard(a);
                if bounded && !q_fits(g) {
                    EvalOut::Overflow
                } else {
                    EvalOut::Val(g)
                }
            },
            other => other,
        },
    }
}

/// Ideal evaluation: exact fractions of unbounded integers.
pub open spec fn eval_q(e: Expr, env: Map<u32, Q>) -> EvalOut {
    eval_g(e, env, false)
}

/// Machine evaluation: what `Expr::eval` computes, overflow checks included.
pub open spec fn eval_ex(e: Expr, env: Map<u32, Q>) -> EvalOut {
    eval_g(e, env, true)
}

/// The binding carried by a sequence of `(id, value)` pairs; a later
/// binding for the same id shadows an earlier one.
pub open spec fn map_of(s: Seq<(u32, Rat)>) -> Map<u32, Q>
    decreases s.len(),
{
    if s.len() == 0 {
        Map::empty()
    } else {
        map_of(s.drop_last()).insert(s.last().0, s.last().1@)
    }
}

/// A variable environment: resolves variable ids to scalar values.
pub struct Env {
    items: Vec<(u32, Rat)>,
}

impl View for Env {
    type V = Map<u32, Q>;

    closed spec fn view(&self) -> Map<u32, Q> {
        map_of(self.items@)
    }
}

proof fn lemma_map_of_lookup(s: Seq<(u32, Rat)>, id: u32, i: int)
    requires
        0 <= i < s.len(),
        s[i].0 == id,
        forall|j: int| i < j < s.len() ==> s[j].0 != id,
    ensures
        map_of(s).dom().contains(id),
        map_of(s)[id] == s[i].1@,
    decreases s.len(),
{
    if i == s.len() - 1 {
        assert(s.last() == s[i]);
    } else {
        lemma_map_of_lookup(s.drop_last(), id, i);
        assert(s.last() == s[s.len() - 1]);
    }
}

proof fn lemma_map_of_absent(s: Seq<(u32, Rat)>, id: u32)
    requires
        forall|j: int| 0 <= j < s.len() ==> s[j].0 != id,
    ensures
        !map_of(s).dom().contains(id),
    decreases s.len(),
{
    if s.len() > 0 {
        lemma_map_of_absent(s.drop_last(), id);
        assert(s.last() == s[s.len() - 1]);
    }
}

proof fn lemma_map_of_wf(s: Seq<(u32, Rat)>)
    requires
        forall|i: int| 0 <= i < s.len() ==> rat_wf(#[trigger] s[i].1),
    ensures
        env_q_wf(map_of(s)),
    decreases s.len(),
{
    if s.len() > 0 {
        lemma_map_of_wf(s.drop_last());
        assert(s.last() == s[s.len() - 1]);
    }
}

impl Env {
    /// The values a well-formed environment resolves to are well-formed.
    pub proof fn lemma_wf_values(&self)
        requires
            self.wf(),
        ensures
            env_q_wf(self@),
    {
        lemma_map_of_wf(self.items@);
    }

    /// Every value bound in the environment is a well-formed scalar.
    pub closed spec fn wf(self) -> bool {
        forall|i: int| 0 <= i < self.items@.len() ==> rat_wf(#[trigger] self.items@[i].1)
    }

    /// An environment that resolves nothing.
    pub fn new() -> (r: Env)
        ensures
            r.wf(),
            r@ == Map::<u32, Q>::empty(),
    {
        Env { items: Vec::new() }
    }

    /// Bind `id` to `v`, shadowing any earlier binding for `id`.
    pub fn bind(&mut self, id: u32, v: Rat)
        requires
            old(self).wf(),
            rat_wf(v),
        ensures
            final(self).wf(),
            final(self)@ == old(self)@.insert(id, v@),
    {
        self.items.push((id, v));
        proof {
            assert(self.items@.drop_last() =~= old(self).items@);
        }
    }

    /// Look `id` up; `None` exactly when no binding exists.
    pub fn get(&self, id: u32) -> (r: Option<Rat>)
        requires
            self.wf(),
        ensures
            match r {
                Some(v) => rat_wf(v) && self@.dom().contains(id) && self@[id] == v@,
                None => !self@.dom().contains(id),
            },
    {
        let mut i: usize = self.items.len();
        while i > 0
            invariant
                self.wf(),
                i <= self.items@.len(),
                forall|j: int| i <= j < self.items@.len() ==> (#[trigger] self.items@[j]).0 != id,
            decreases i,
        {
            i = i - 1;
            if self.items[i].0 == id {
                proof {
                    lemma_map_of_lookup(self.items@, id, i as int);
                }
                return Some(self.items[i].1);
            }
        }
        proof {
            lemma_map_of_absent(self.items@, id);
        }
        None
    }
}

impl Clone for Expr {
    /// Cloning a tree yields a deep, fully independent copy.
    fn clone(&self) -> (r: Self)
        ensures
            r == *self,
        decreases self,
    {
        match self {
            Expr::Const(c) => Expr::Const(*c),
            Expr::Var { id, sampling_axis } => Expr::Var {
                id: *id,
                sampling_axis: *sampling_axis,
            },
            Expr::BOp(op, l, r) => Expr::BOp(*op, Box::new((**l).clone()), Box::new((**r).clone())),
            Expr::UOp(op, v) => Expr::UOp(*op, Box::new((**v).clone())),
            Expr::Heavside(v) => Expr::Heavside(Box::new((**v).clone())),
            Expr::Guard(v) => Expr::Guard(Box::new((**v).clone())),
        }
    }
}

impl Expr {
    /// Every constant in the tree is a well-formed scalar.
    pub open spec fn wf(self) -> bool
        decreases self,
    {
        match self {
            Expr::Const(c) => rat_wf(c),
            Expr::Var { .. } => true,
            Expr::BOp(_, l, r) => l.wf() && r.wf(),
            Expr::UOp(_, v) => v.wf(),
            Expr::Heavside(v) => v.wf(),
            Expr::Guard(v) => v.wf(),
        }
    }

    /// Creates a new variable, with a unique ID. For testing use only.
    pub fn new_var(id: u32) -> (r: Self)
        ensures
            r == (Expr::Var { id, sampling_axis: false }),
    {
        Expr::Var { id, sampling_axis: false }
    }

    pub fn new_sampling_axis(id: u32) -> (r: Self)
        ensures
            r == (Expr::Var { id, sampling_axis: true }),
    {
        Expr::Var { id, sampling_axis: true }
    }

    /// The constant `0`.
    pub fn zero() -> (r: Self)
        ensures
            r == Expr::Const(Rat { n: 0, d: 1 }),
    {
        Expr::Const(Rat { n: 0, d: 1 })
    }

    /// The constant `1`.
    pub fn one() -> (r: Self)
        ensures
            r == Expr::Const(Rat { n: 1, d: 1 }),
    {
        Expr::Const(Rat { n: 1, d: 1 })
    }

    /// The constant `1/2`.
    pub fn half() -> (r: Self)
        ensures
            r == Expr::Const(Rat { n: 1, d: 2 }),
    {
        Expr::Const(Rat { n: 1, d: 2 })
    }

    /// Takes the absolute value of this expression
    pub fn abs(self) -> (r: Self)
        ensures
            r == Expr::UOp(UOp::Abs, Box::new(self)),
    {
        Expr::UOp(UOp::Abs, Box::new(self))
    }

    /// Takes the reciprocal of this expression
    pub fn recip(self) -> (r: Self)
        ensures
            r == Expr::UOp(UOp::Recip, Box::new(self)),
    {
        Expr::UOp(UOp::Recip, Box::new(self))
    }

    /// Takes `1 - v` of this Expression
    pub fn fuzzy_not(self) -> (r: Self)
        ensures
            r == Expr::BOp(
                BOp::Add,
                Box::new(Expr::Const(Rat { n: 1, d: 1 })),
                Box::new(Expr::UOp(UOp::Neg, Box::new(self))),
            ),
    {
        let o = Expr::one();
        o.sub(self)
    }

    /// Heavside function of this expression
    pub fn heavside(self) -> (r: Self)
        ensures
            r == Expr::Heavside(Box::new(self)),
    {
        Expr::Heavside(Box::new(self))
    }

    /// Wraps this expression in a guard, nudging its evaluated value away
    /// from exact zero.
    pub fn guard(self) -> (r: Self)
        ensures
            r == Expr::Guard(Box::new(self)),
    {
        Expr::Guard(Box::new(self))
    }

    /// Recursively applies a small shift to every sampling-axis variable.
    ///
    /// The `id` parameter names the variable the caller is differentiating,
    /// but every sampling-axis variable is shifted regardless of it; this
    /// matches the transform the differentiator is specified against.
    pub fn shift(&self, id: u32, amt: Rat) -> (r: Self)
        ensures
            r == shift_s(*self, amt),
        decreases *self,
    {
        match self {
            Expr::Const(c) => Expr::Const(*c),
            Expr::Var { id: i2, sampling_axis } => {
                if *sampling_axis {
                    let v = Expr::Var { id: *i2, sampling_axis: *sampling_axis };
                    v.add(Expr::Const(amt))
                } else {
                    Expr::Var { id: *i2, sampling_axis: *sampling_axis }
                }
            },
            Expr::BOp(op, lhs, rhs) => Expr::BOp(
                *op,
                Box::new(lhs.shift(id, amt)),
                Box::new(rhs.shift(id, amt)),
            ),
            Expr::UOp(op, v) => Expr::UOp(*op, Box::new(v.shift(id, amt))),
            Expr::Heavside(v) => Expr::Heavside(Box::new(v.shift(id, amt))),
            Expr::Guard(v) => Expr::Guard(Box::new(v.shift(id, amt))),
        }
    }

    /// Converts this expression into an abstract representation of a
    /// differentiated expression, w.r.t. a given ID
    pub fn diff(&self, id: ID) -> (r: Expr)
        ensures
            r == diff_s(*self, id),
        decreases *self,
    {
        match self {
            Expr::Const(..) => Expr::zero(),
            Expr::Var { id: i2, .. } => {
                if *i2 == id {
                    Expr::one()
                } else {
                    Expr::zero()
                }
            },
            Expr::BOp(bop, lhs, rhs) => match bop {
                BOp::Add => {
                    let dl = lhs.diff(id);
                    let dr = rhs.diff(id);
                    dl.add(dr)
                },
                BOp::Mul => {
                    let lhs_l_lim = lhs.shift(id, Rat { n: -1, d: rat::EPS_DEN });
                    let lhs_r_lim = lhs.shift(id, Rat { n: 1, d: rat::EPS_DEN });
                    let rhs_l_lim = rhs.shift(id, Rat { n: -1, d: rat::EPS_DEN });
                    let rhs_r_lim = rhs.shift(id, Rat { n: 1, d: rat::EPS_DEN });
                    let t1 = Expr::half().mul(rhs_l_lim.add(rhs_r_lim)).mul(lhs.diff(id));
                    let t2 = Expr::half().mul(lhs_l_lim.add(lhs_r_lim)).mul(rhs.diff(id));
                    t1.add(t2)
                },
            },
            Expr::UOp(uop, v) => {
                let k = match uop {
                    UOp::Neg => Expr::one().neg(),
                    UOp::Recip => {
                        let a = (**v).clone();
                        let b = (**v).clone();
                        a.mul(b).recip().neg()
                    },
                    UOp::Abs => {
                        let r_lim = v.shift(id, Rat { n: 1, d: rat::EPS_DEN });
                        let l_lim = v.shift(id, Rat { n: -1, d: rat::EPS_DEN });
                        let num = r_lim.clone().abs().sub(l_lim.clone().abs());
                        let den = r_lim.sub(l_lim).guard();
                        num.div(den)
                    },
                };
                k.mul(v.diff(id))
            },
            Expr::Heavside(e) => {
                let left_lim = e.shift(id, Rat { n: -1, d: rat::EPS_DEN });
                let right_lim = e.shift(id, Rat { n: 1, d: rat::EPS_DEN });
                let h = left_lim.clone().mul(right_lim.clone()).fuzzy_not().heavside();
                let de = e.diff(id);
                h.mul(de).mul(left_lim.sub(right_lim).abs().recip())
            },
            Expr::Guard(v) => {
                let dv = v.diff(id);
                dv.guard()
            },
        }
    }

    /// Evaluates this expression where possible.
    ///
    /// The result is exactly what the machine evaluation `eval_ex` of this
    /// tree yields: a value, the first unresolved variable, an exact
    /// division by zero, or an overflow of the machine range.
    pub fn eval(&self, env: &Env) -> (r: Result<Rat, EvalError>)
        requires
            self.wf(),
            env.wf(),
        ensures
            match r {
                Ok(v) => rat_wf(v) && eval_ex(*self, env@) == EvalOut::Val(v@),
                Err(EvalError::UnresolvedVariable(id)) => eval_ex(*self, env@)
                    == EvalOut::Unresolved(id),
                Err(EvalError::DivisionByZero) => eval_ex(*self, env@) == EvalOut::DivZero,
                Err(EvalError::Overflow) => eval_ex(*self, env@) == EvalOut::Overflow,
            },
        decreases *self,
    {
        match self {
            Expr::Const(c) => Ok(*c),
            Expr::Var { id, .. } => match env.get(*id) {
                Some(v) => Ok(v),
                None => Err(EvalError::UnresolvedVariable(*id)),
            },
            Expr::BOp(op, lhs, rhs) => {
                let a = lhs.eval(env)?;
                let b = rhs.eval(env)?;
                let c = match op {
                    BOp::Add => a.try_add(b),
                    BOp::Mul => a.try_mul(b),
                };
                match c {
                    Some(v) => Ok(v),
                    None => Err(EvalError::Overflow),
                }
            },
            Expr::UOp(op, v) => {
                let a = v.eval(env)?;
                match op {
                    UOp::Neg => Ok(a.neg()),
                    UOp::Abs => Ok(a.abs()),
                    UOp::Recip => match a.try_recip() {
                        Some(c) => Ok(c),
                        None => Err(EvalError::DivisionByZero),
                    },
                }
            },
            Expr::Heavside(v) => {
                let a = v.eval(env)?;
                Ok(a.heav())
            },
            Expr::Guard(v) => {
                let a = v.eval(env)?;
                match a.try_guard() {
                    Some(c) => Ok(c),
                    None => Err(EvalError::Overflow),
                }
            },
        }
    }
}

} // verus!
