use progdiff::backend::SExpr;
use progdiff::rat::Rat;
use progdiff::{Env, EvalError, Expr};

fn emit(e: Expr) -> String {
    let mut out = SExpr::new();
    out.emit_expr(e).unwrap();
    out.finish()
}

#[test]
fn basic_example() {
    let s = Expr::new_var(0).mul(Expr::one().add(Expr::new_var(1)));
    let s_diff = s.diff(1);

    let mut out_sexpr = SExpr::new();
    out_sexpr.emit_expr(s).unwrap();

    let mut out_sexpr2 = SExpr::new();
    out_sexpr2.emit_expr(s_diff).unwrap();
    let rendered = format!("{} -> {}", out_sexpr.finish(), out_sexpr2.finish());
    assert_eq!(
        rendered,
        " (* x0 (+ 1 x1)) ->  (+ (* (* 0.5 (+ (+ 1 x1) (+ 1 x1))) 0) (* (* 0.5 (+ x0 x0)) (+ 0 1)))"
    );
}

#[test]
fn diff_const_is_zero() {
    let d = Expr::Const(Rat::new(7, 2)).diff(0);
    let mut env = Env::new();
    env.bind(0, Rat::whole(42));
    let r = d.eval(&env).unwrap();
    assert!(r.same_value(Rat::whole(0)));
}

#[test]
fn diff_var_is_one_or_zero() {
    let env = Env::new();
    let one = Expr::new_var(3).diff(3).eval(&env).unwrap();
    assert!(one.same_value(Rat::whole(1)));
    let zero = Expr::new_var(3).diff(4).eval(&env).unwrap();
    assert!(zero.same_value(Rat::whole(0)));
}

#[test]
fn diff_add_is_linear() {
    // d/dx0 [x0*x1 + x0] == d/dx0 [x0*x1] + d/dx0 [x0] at {x0: 5, x1: 7}
    let a = Expr::new_var(0).mul(Expr::new_var(1));
    let b = Expr::new_var(0);
    let sum = a.clone().add(b.clone());
    let mut env = Env::new();
    env.bind(0, Rat::whole(5));
    env.bind(1, Rat::whole(7));
    let ds = sum.diff(0).eval(&env).unwrap();
    let da = a.diff(0).eval(&env).unwrap();
    let db = b.diff(0).eval(&env).unwrap();
    let parts = da.try_add(db).unwrap();
    assert!(ds.same_value(parts));
}

#[test]
fn product_rule_exact_without_sampling_axes() {
    // d/dx0 [x0 * x1] at {x0: 5, x1: 7} is exactly 7
    let p = Expr::new_var(0).mul(Expr::new_var(1));
    let mut env = Env::new();
    env.bind(0, Rat::whole(5));
    env.bind(1, Rat::whole(7));
    let r = p.diff(0).eval(&env).unwrap();
    assert!(r.same_value(Rat::whole(7)));
}

#[test]
fn concrete_scenario_var0_times_one_plus_var1() {
    // d/dx1 [x0 * (1 + x1)] at {x0: 2, x1: 3} == x0 == 2, exactly
    let expr = Expr::new_var(0).mul(Expr::one().add(Expr::new_var(1)));
    let d = expr.diff(1);
    let mut env = Env::new();
    env.bind(0, Rat::whole(2));
    env.bind(1, Rat::whole(3));
    let r = d.eval(&env).unwrap();
    assert!(r.same_value(Rat::whole(2)));
}

#[test]
fn heaviside_delta_at_a_crossing() {
    // d/dx0 [H(x0)] at x0 = 0: the shifted limits are -eps and +eps, a true
    // crossing; the delta term is 1 / (2*eps) = 5000, large but finite
    let h = Expr::new_sampling_axis(0).heavside();
    let d = h.diff(0);
    let mut env = Env::new();
    env.bind(0, Rat::whole(0));
    let r = d.eval(&env).unwrap();
    assert!(r.same_value(Rat::whole(5000)));
}

#[test]
fn heaviside_delta_far_from_a_crossing() {
    // d/dx0 [H(x0)] at x0 = 2: both shifted limits are far above zero and
    // the step factor vanishes
    let h = Expr::new_sampling_axis(0).heavside();
    let d = h.diff(0);
    let mut env = Env::new();
    env.bind(0, Rat::whole(2));
    let r = d.eval(&env).unwrap();
    assert!(r.same_value(Rat::whole(0)));
}

#[test]
fn abs_smoothing_away_from_zero() {
    // d/dx0 [|x0|] at x0 = 2 with x0 a sampling axis: the guarded centered
    // difference estimates sign(2) as (2*eps) / (3*eps) = 2/3
    let a = Expr::new_sampling_axis(0).abs();
    let d = a.diff(0);
    let mut env = Env::new();
    env.bind(0, Rat::whole(2));
    let r = d.eval(&env).unwrap();
    assert!(r.same_value(Rat::new(2, 3)));
}

#[test]
fn guard_is_invisible_in_output() {
    let plain = Expr::new_var(0).add(Expr::one());
    let guarded = Expr::new_var(0).add(Expr::one()).guard();
    assert_eq!(emit(plain), emit(guarded));
    assert_eq!(emit(Expr::new_var(0).guard()), " x0");
}

#[test]
fn emission_is_deterministic() {
    let build = || {
        Expr::new_var(0)
            .mul(Expr::new_var(1).abs())
            .sub(Expr::new_var(2).recip())
            .heavside()
    };
    let first = emit(build());
    let second = emit(build());
    assert_eq!(first, second);
    assert!(!first.is_empty());
}

#[test]
fn emission_tokens() {
    assert_eq!(emit(Expr::new_var(0).sub(Expr::new_var(1))), " (+ x0 ( - x1))");
    assert_eq!(emit(Expr::new_var(0).div(Expr::new_var(1))), " (* x0 (recip x1))");
    assert_eq!(emit(Expr::new_var(0).abs()), " (abs x0)");
    assert_eq!(emit(Expr::new_var(0).heavside()), " (heavside x0)");
    assert_eq!(emit(Expr::new_var(0).fuzzy_not()), " (+ 1 ( - x0))");
    assert_eq!(emit(Expr::Const(Rat::new(-1, 10000))), " -0.0001");
    assert_eq!(emit(Expr::Const(Rat::new(1, 3))), " 1/3");
    assert_eq!(emit(Expr::Const(Rat::new(7, 2))), " 3.5");
    assert_eq!(emit(Expr::Const(Rat::new(3, -2))), " -1.5");
}

#[test]
fn shift_offsets_sampling_axes_only() {
    let eps = Rat::new(1, 10000);
    let shifted_axis = Expr::new_sampling_axis(0).shift(0, eps);
    assert_eq!(emit(shifted_axis), " (+ x0 0.0001)");
    let shifted_plain = Expr::new_var(0).shift(0, eps);
    assert_eq!(emit(shifted_plain), " x0");
    // the target id does not restrict which variables are shifted
    let other = Expr::new_sampling_axis(5).shift(0, eps);
    assert_eq!(emit(other), " (+ x5 0.0001)");
}

#[test]
fn eval_reports_unresolved_variable() {
    let env = Env::new();
    let r = Expr::new_var(9).eval(&env);
    assert_eq!(r, Err(EvalError::UnresolvedVariable(9)));
}

#[test]
fn eval_reports_division_by_zero() {
    let env = Env::new();
    let r = Expr::Const(Rat::whole(0)).recip().eval(&env);
    assert_eq!(r, Err(EvalError::DivisionByZero));
}

#[test]
fn eval_reports_overflow() {
    let env = Env::new();
    let big = Rat::whole(i64::MAX);
    let r = Expr::Const(big).mul(Expr::Const(big)).eval(&env);
    assert_eq!(r, Err(EvalError::Overflow));
}

#[test]
fn eval_guard_nudges_away_from_zero() {
    // Guard(0) evaluates to +eps; Guard(-1) to -1 - eps
    let env = Env::new();
    let g0 = Expr::Const(Rat::whole(0)).guard().eval(&env).unwrap();
    assert!(g0.same_value(Rat::new(1, 10000)));
    let gneg = Expr::Const(Rat::whole(-1)).guard().eval(&env).unwrap();
    assert!(gneg.same_value(Rat::new(-10001, 10000)));
}

#[test]
fn eval_heaviside_boundary_is_zero() {
    let env = Env::new();
    let at_zero = Expr::Const(Rat::whole(0)).heavside().eval(&env).unwrap();
    assert!(at_zero.same_value(Rat::whole(0)));
    let positive = Expr::Const(Rat::new(1, 100)).heavside().eval(&env).unwrap();
    assert!(positive.same_value(Rat::whole(1)));
    let negative = Expr::Const(Rat::whole(-3)).heavside().eval(&env).unwrap();
    assert!(negative.same_value(Rat::whole(0)));
}

#[test]
fn env_later_binding_shadows() {
    let mut env = Env::new();
    env.bind(0, Rat::whole(1));
    env.bind(0, Rat::whole(2));
    let r = Expr::new_var(0).eval(&env).unwrap();
    assert!(r.same_value(Rat::whole(2)));
}

#[test]
fn clone_is_deep_and_equal() {
    let e = Expr::new_var(0).mul(Expr::new_var(1).abs()).guard();
    let c = e.clone();
    assert_eq!(emit(e), emit(c));
}
