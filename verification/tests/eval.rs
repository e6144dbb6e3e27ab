use std::sync::Arc;

use xtera::{
    ArrayExpr, BinaryExpr, BinaryOp, EvalError, EvalErrorKind, Expr, IdentExpr, Literal, Number,
    ObjectExpr, PipeExpr, Reply, Request, Scope, Span, Stop, UnaryExpr, UnaryOp, Value, ValueExpr,
};

fn span() -> Span {
    Span::new(0, 1, Arc::from("x"))
}

fn as_f64(n: Number) -> f64 {
    match n {
        Number::Int(i) => i as f64,
        Number::Float(b) => f64::from_bits(b),
    }
}

fn upper(v: &Value) -> Value {
    match v {
        Value::Str(s) => Value::Str(s.to_uppercase()),
        other => other.clone(),
    }
}

/// Answers a request the way a host does, with the test pipes `double`
/// and `upper`.
fn answer(req: Request) -> Reply {
    match req {
        Request::ParseFloat(t) => Reply::Float(t.parse::<f64>().unwrap().to_bits()),
        Request::Arith { op, left, right } => {
            let (a, b) = (as_f64(left), as_f64(right));
            let r = match op {
                BinaryOp::Add => a + b,
                BinaryOp::Sub => a - b,
                BinaryOp::Mul => a * b,
                BinaryOp::Div => a / b,
                _ => a % b,
            };
            Reply::Float(r.to_bits())
        }
        Request::Compare { op, left, right } => {
            let (a, b) = (as_f64(left), as_f64(right));
            Reply::Bool(match op {
                BinaryOp::Lt => a < b,
                BinaryOp::Le => a <= b,
                BinaryOp::Gt => a > b,
                _ => a >= b,
            })
        }
        Request::FormatFloat(b) => Reply::Text(format!("{}", f64::from_bits(b))),
        Request::Pipe { name, value, .. } => match name.as_str() {
            "double" => match value {
                Value::Int(i) => Reply::Value(Value::Int(i * 2)),
                _ => Reply::Error(EvalError::new(
                    EvalErrorKind::TypeError { expected: "number", got: "other".to_string() },
                    Span::new(0, 0, Arc::from("")),
                )),
            },
            "upper" => Reply::Value(upper(&value)),
            _ => Reply::Value(value),
        },
        Request::Func { args, .. } => Reply::Value(args.into_iter().next().unwrap_or(Value::Null)),
    }
}

/// Evaluates `e` against `scope`, answering the evaluator's requests.
fn eval(e: &Expr, scope: &Scope) -> Result<Value, EvalError> {
    let locals: Vec<(String, Value)> = Vec::new();
    let mut replies: Vec<Reply> = Vec::new();
    loop {
        let mut pos = 0;
        match e.eval(scope, &locals, &replies, &mut pos) {
            Ok(v) => return Ok(v),
            Err(Stop::Fail(err)) => return Err(err),
            Err(Stop::Ask(req)) => replies.push(answer(req)),
        }
    }
}

fn lit(l: Literal) -> Expr {
    Expr::Value(ValueExpr { value: l, span: span() })
}

fn ident(name: &str) -> Expr {
    Expr::Ident(IdentExpr { name: name.to_string(), span: span() })
}

fn binary(left: Expr, op: BinaryOp, right: Expr) -> Expr {
    Expr::Binary(BinaryExpr { left: Box::new(left), op, right: Box::new(right), span: span() })
}

fn unary(op: UnaryOp, operand: Expr) -> Expr {
    Expr::Unary(UnaryExpr { op, operand: Box::new(operand), span: span() })
}

fn pipe(value: Expr, name: &str) -> Expr {
    Expr::Pipe(PipeExpr { value: Box::new(value), name: name.to_string(), args: vec![], span: span() })
}

fn float(x: f64) -> Value {
    Value::Float(x.to_bits())
}

// ── literal expressions ─────────────────────────────────────────────

#[test]
fn eval_null() {
    assert_eq!(eval(&lit(Literal::Null), &Scope::new()).unwrap(), Value::Null);
}

#[test]
fn eval_bool() {
    assert_eq!(eval(&lit(Literal::Bool(true)), &Scope::new()).unwrap(), Value::Bool(true));
}

#[test]
fn eval_int() {
    assert_eq!(eval(&lit(Literal::Int(42)), &Scope::new()).unwrap(), Value::Int(42));
}

#[test]
fn eval_float() {
    assert_eq!(
        eval(&lit(Literal::Float("3.14".to_string())), &Scope::new()).unwrap(),
        float(3.14)
    );
}

#[test]
fn eval_string() {
    assert_eq!(
        eval(&lit(Literal::String("hello".to_string())), &Scope::new()).unwrap(),
        Value::Str("hello".to_string())
    );
}

#[test]
fn not() {
    let e = unary(UnaryOp::Not, lit(Literal::Bool(true)));
    assert_eq!(eval(&e, &Scope::new()).unwrap(), Value::Bool(false));
}

#[test]
fn neg() {
    let e = unary(UnaryOp::Neg, lit(Literal::Int(5)));
    assert_eq!(eval(&e, &Scope::new()).unwrap(), Value::Int(-5));
}

#[test]
fn array_eval_array_literal() {
    let e = Expr::Array(ArrayExpr {
        elements: vec![lit(Literal::Int(1)), lit(Literal::Int(2))],
        span: span(),
    });
    match eval(&e, &Scope::new()).unwrap() {
        Value::Array(items) => assert_eq!(items.len(), 2),
        other => panic!("expected array, got {other:?}"),
    }
}

// ── the evaluator's cases, as written for each evaluator module ─────

fn check_literal_null() {
    assert_eq!(eval(&lit(Literal::Null), &Scope::new()).unwrap(), Value::Null);
}

fn check_literal_bool() {
    assert_eq!(eval(&lit(Literal::Bool(true)), &Scope::new()).unwrap(), Value::Bool(true));
}

fn check_literal_int() {
    assert_eq!(eval(&lit(Literal::Int(42)), &Scope::new()).unwrap(), Value::Int(42));
}

fn check_literal_float() {
    assert_eq!(
        eval(&lit(Literal::Float("3.14".to_string())), &Scope::new()).unwrap(),
        float(3.14)
    );
}

fn check_literal_string() {
    assert_eq!(
        eval(&lit(Literal::String("hello".to_string())), &Scope::new()).unwrap(),
        Value::Str("hello".to_string())
    );
}

fn check_ident_found() {
    let mut s = Scope::new();
    s.set_var("x", Value::Int(10));
    assert_eq!(eval(&ident("x"), &s).unwrap(), Value::Int(10));
}

fn check_ident_undefined() {
    let err = eval(&ident("x"), &Scope::new()).unwrap_err();
    assert_eq!(err.kind, EvalErrorKind::UndefinedVariable("x".to_string()));
}

fn check_add_ints() {
    let e = binary(lit(Literal::Int(2)), BinaryOp::Add, lit(Literal::Int(3)));
    assert_eq!(eval(&e, &Scope::new()).unwrap(), Value::Int(5));
}

fn check_float_promotion() {
    let e = binary(lit(Literal::Int(1)), BinaryOp::Add, lit(Literal::Float("2.5".to_string())));
    assert_eq!(eval(&e, &Scope::new()).unwrap(), float(3.5));
}

fn check_division_by_zero() {
    let e = binary(lit(Literal::Int(10)), BinaryOp::Div, lit(Literal::Int(0)));
    let err = eval(&e, &Scope::new()).unwrap_err();
    assert_eq!(err.kind, EvalErrorKind::DivisionByZero);
}

fn check_string_concat() {
    let e = binary(
        lit(Literal::String("hello".to_string())),
        BinaryOp::Add,
        lit(Literal::String(" world".to_string())),
    );
    assert_eq!(eval(&e, &Scope::new()).unwrap(), Value::Str("hello world".to_string()));
}

fn check_comparison() {
    let e = binary(lit(Literal::Int(1)), BinaryOp::Lt, lit(Literal::Int(2)));
    assert_eq!(eval(&e, &Scope::new()).unwrap(), Value::Bool(true));
}

fn check_equality() {
    let e = binary(
        lit(Literal::String("a".to_string())),
        BinaryOp::Eq,
        lit(Literal::String("a".to_string())),
    );
    assert_eq!(eval(&e, &Scope::new()).unwrap(), Value::Bool(true));
}

fn check_and_short_circuit() {
    let e = binary(lit(Literal::Bool(false)), BinaryOp::And, ident("missing"));
    assert_eq!(eval(&e, &Scope::new()).unwrap(), Value::Bool(false));
}

fn check_or_short_circuit() {
    let e = binary(lit(Literal::Bool(true)), BinaryOp::Or, ident("missing"));
    assert_eq!(eval(&e, &Scope::new()).unwrap(), Value::Bool(true));
}

fn check_unary_not() {
    let e = unary(UnaryOp::Not, lit(Literal::Bool(true)));
    assert_eq!(eval(&e, &Scope::new()).unwrap(), Value::Bool(false));
}

fn check_unary_neg() {
    let e = unary(UnaryOp::Neg, lit(Literal::Int(5)));
    assert_eq!(eval(&e, &Scope::new()).unwrap(), Value::Int(-5));
}

fn check_pipe() {
    let mut s = Scope::new();
    s.set_pipe("double");
    let e = pipe(lit(Literal::Int(5)), "double");
    assert_eq!(eval(&e, &s).unwrap(), Value::Int(10));
}

fn check_undefined_pipe() {
    let e = pipe(lit(Literal::Int(5)), "nope");
    let err = eval(&e, &Scope::new()).unwrap_err();
    assert_eq!(err.kind, EvalErrorKind::UndefinedPipe("nope".to_string()));
}

fn check_array_literal() {
    let e = Expr::Array(ArrayExpr {
        elements: vec![lit(Literal::Int(1)), lit(Literal::Int(2))],
        span: span(),
    });
    match eval(&e, &Scope::new()).unwrap() {
        Value::Array(items) => assert_eq!(items.len(), 2),
        other => panic!("expected array, got {other:?}"),
    }
}

fn check_object_literal() {
    let e = Expr::Object(ObjectExpr {
        entries: vec![
            ("a".to_string(), lit(Literal::Int(1))),
            ("b".to_string(), lit(Literal::String("two".to_string()))),
        ],
        span: span(),
    });
    match eval(&e, &Scope::new()).unwrap() {
        Value::Struct(fields) => assert_eq!(fields.len(), 2),
        other => panic!("expected struct, got {other:?}"),
    }
}

fn check_truthiness() {
    assert!(!Value::Null.is_truthy());
    assert!(!Value::Bool(false).is_truthy());
    assert!(Value::Bool(true).is_truthy());
    assert!(!Value::Int(0).is_truthy());
    assert!(Value::Int(1).is_truthy());
    assert!(!float(0.0).is_truthy());
    assert!(float(0.1).is_truthy());
    assert!(!Value::Str(String::new()).is_truthy());
    assert!(Value::Str("x".to_string()).is_truthy());
}

#[test]
fn expr_eval_literal_null() {
    check_literal_null();
}

#[test]
fn expr_eval_literal_bool() {
    check_literal_bool();
}

#[test]
fn expr_eval_literal_int() {
    check_literal_int();
}

#[test]
fn expr_eval_literal_float() {
    check_literal_float();
}

#[test]
fn expr_eval_literal_string() {
    check_literal_string();
}

#[test]
fn expr_eval_ident_found() {
    check_ident_found();
}

#[test]
fn expr_eval_ident_undefined() {
    check_ident_undefined();
}

#[test]
fn expr_eval_add_ints() {
    check_add_ints();
}

#[test]
fn expr_eval_float_promotion() {
    check_float_promotion();
}

#[test]
fn expr_eval_division_by_zero() {
    check_division_by_zero();
}

#[test]
fn expr_eval_string_concat() {
    check_string_concat();
}

#[test]
fn expr_eval_comparison() {
    check_comparison();
}

#[test]
fn expr_eval_equality() {
    check_equality();
}

#[test]
fn expr_eval_logical_and_short_circuit() {
    check_and_short_circuit();
}

#[test]
fn expr_eval_logical_or_short_circuit() {
    check_or_short_circuit();
}

#[test]
fn expr_eval_unary_not() {
    check_unary_not();
}

#[test]
fn expr_eval_unary_neg() {
    check_unary_neg();
}

#[test]
fn expr_eval_pipe() {
    check_pipe();
}

#[test]
fn expr_eval_undefined_pipe() {
    check_undefined_pipe();
}

#[test]
fn expr_eval_array_literal() {
    check_array_literal();
}

#[test]
fn expr_eval_object_literal() {
    check_object_literal();
}

#[test]
fn expr_truthiness() {
    check_truthiness();
}

#[test]
fn mod_eval_literal_null() {
    check_literal_null();
}

#[test]
fn mod_eval_literal_bool() {
    check_literal_bool();
}

#[test]
fn mod_eval_literal_int() {
    check_literal_int();
}

#[test]
fn mod_eval_literal_float() {
    check_literal_float();
}

#[test]
fn mod_eval_literal_string() {
    check_literal_string();
}

#[test]
fn mod_eval_ident_found() {
    check_ident_found();
}

#[test]
fn mod_eval_ident_undefined() {
    check_ident_undefined();
}

#[test]
fn mod_eval_add_ints() {
    check_add_ints();
}

#[test]
fn mod_eval_float_promotion() {
    check_float_promotion();
}

#[test]
fn mod_eval_division_by_zero() {
    check_division_by_zero();
}

#[test]
fn mod_eval_string_concat() {
    check_string_concat();
}

#[test]
fn mod_eval_comparison() {
    check_comparison();
}

#[test]
fn mod_eval_equality() {
    check_equality();
}

#[test]
fn mod_eval_logical_and_short_circuit() {
    check_and_short_circuit();
}

#[test]
fn mod_eval_logical_or_short_circuit() {
    check_or_short_circuit();
}

#[test]
fn mod_eval_unary_not() {
    check_unary_not();
}

#[test]
fn mod_eval_unary_neg() {
    check_unary_neg();
}

#[test]
fn mod_eval_pipe() {
    check_pipe();
}

#[test]
fn mod_eval_undefined_pipe() {
    check_undefined_pipe();
}

#[test]
fn mod_eval_array_literal() {
    check_array_literal();
}

#[test]
fn mod_eval_object_literal() {
    check_object_literal();
}

#[test]
fn mod_truthiness() {
    check_truthiness();
}

// ── further cases of the evaluator ──────────────────────────────────

#[test]
fn int_arithmetic_wraps() {
    let e = binary(lit(Literal::Int(i64::MAX)), BinaryOp::Add, lit(Literal::Int(1)));
    assert_eq!(eval(&e, &Scope::new()).unwrap(), Value::Int(i64::MIN));
    let e = binary(lit(Literal::Int(i64::MIN)), BinaryOp::Div, lit(Literal::Int(-1)));
    assert_eq!(eval(&e, &Scope::new()).unwrap(), Value::Int(i64::MIN));
    let e = binary(lit(Literal::Int(i64::MIN)), BinaryOp::Mod, lit(Literal::Int(-1)));
    assert_eq!(eval(&e, &Scope::new()).unwrap(), Value::Int(0));
    let e = unary(UnaryOp::Neg, lit(Literal::Int(i64::MIN)));
    assert_eq!(eval(&e, &Scope::new()).unwrap(), Value::Int(i64::MIN));
}

#[test]
fn int_division_truncates() {
    let e = binary(lit(Literal::Int(-7)), BinaryOp::Div, lit(Literal::Int(2)));
    assert_eq!(eval(&e, &Scope::new()).unwrap(), Value::Int(-3));
    let e = binary(lit(Literal::Int(-7)), BinaryOp::Mod, lit(Literal::Int(2)));
    assert_eq!(eval(&e, &Scope::new()).unwrap(), Value::Int(-1));
}

#[test]
fn float_division_by_zero() {
    let e = binary(lit(Literal::Float("1.5".to_string())), BinaryOp::Mod, lit(Literal::Int(0)));
    let err = eval(&e, &Scope::new()).unwrap_err();
    assert_eq!(err.kind, EvalErrorKind::DivisionByZero);
}

#[test]
fn arithmetic_type_error() {
    let e = binary(lit(Literal::Bool(true)), BinaryOp::Mul, lit(Literal::Int(2)));
    let err = eval(&e, &Scope::new()).unwrap_err();
    assert_eq!(
        err.kind,
        EvalErrorKind::TypeError { expected: "number", got: "bool".to_string() }
    );
}

#[test]
fn neg_type_error() {
    let e = unary(UnaryOp::Neg, lit(Literal::String("a".to_string())));
    let err = eval(&e, &Scope::new()).unwrap_err();
    assert_eq!(
        err.kind,
        EvalErrorKind::TypeError { expected: "number", got: "string".to_string() }
    );
}

#[test]
fn neg_float_flips_sign() {
    let e = unary(UnaryOp::Neg, lit(Literal::Float("2.5".to_string())));
    assert_eq!(eval(&e, &Scope::new()).unwrap(), float(-2.5));
}

#[test]
fn and_returns_deciding_operand() {
    let e = binary(lit(Literal::Int(0)), BinaryOp::And, lit(Literal::Int(7)));
    assert_eq!(eval(&e, &Scope::new()).unwrap(), Value::Int(0));
    let e = binary(lit(Literal::Int(3)), BinaryOp::And, lit(Literal::Int(7)));
    assert_eq!(eval(&e, &Scope::new()).unwrap(), Value::Int(7));
    let e = binary(lit(Literal::String(String::new())), BinaryOp::Or, lit(Literal::Int(7)));
    assert_eq!(eval(&e, &Scope::new()).unwrap(), Value::Int(7));
}

#[test]
fn string_order_and_mixed_kinds() {
    let e = binary(
        lit(Literal::String("abc".to_string())),
        BinaryOp::Lt,
        lit(Literal::String("abd".to_string())),
    );
    assert_eq!(eval(&e, &Scope::new()).unwrap(), Value::Bool(true));
    let e = binary(lit(Literal::String("a".to_string())), BinaryOp::Ge, lit(Literal::Int(1)));
    assert_eq!(eval(&e, &Scope::new()).unwrap(), Value::Bool(false));
    let e = binary(lit(Literal::Int(1)), BinaryOp::Ne, lit(Literal::String("1".to_string())));
    assert_eq!(eval(&e, &Scope::new()).unwrap(), Value::Bool(true));
}

#[test]
fn large_ints_compare_as_floats() {
    // Both sides convert to the same float, so neither is below the other.
    let e = binary(
        lit(Literal::Int(9_007_199_254_740_993)),
        BinaryOp::Gt,
        lit(Literal::Int(9_007_199_254_740_992)),
    );
    assert_eq!(eval(&e, &Scope::new()).unwrap(), Value::Bool(false));
}

#[test]
fn string_concat_shows_other_side() {
    let e = binary(lit(Literal::String("n=".to_string())), BinaryOp::Add, lit(Literal::Int(4)));
    assert_eq!(eval(&e, &Scope::new()).unwrap(), Value::Str("n=4".to_string()));
    let e = binary(
        lit(Literal::Float("1.5".to_string())),
        BinaryOp::Add,
        lit(Literal::String("x".to_string())),
    );
    assert_eq!(eval(&e, &Scope::new()).unwrap(), Value::Str("1.5x".to_string()));
}

#[test]
fn pipe_error_propagates() {
    let mut s = Scope::new();
    s.set_pipe("double");
    let e = pipe(lit(Literal::String("a".to_string())), "double");
    let err = eval(&e, &s).unwrap_err();
    assert_eq!(
        err.kind,
        EvalErrorKind::TypeError { expected: "number", got: "other".to_string() }
    );
}

#[test]
fn unexpected_reply_is_an_error() {
    let e = lit(Literal::Float("1.0".to_string()));
    let replies = vec![Reply::Bool(true)];
    let mut pos = 0;
    match e.eval(&Scope::new(), &Vec::new(), &replies, &mut pos) {
        Err(Stop::Fail(err)) => assert_eq!(err.kind, EvalErrorKind::UnexpectedReply),
        other => panic!("expected a failure, got {other:?}"),
    }
    assert_eq!(pos, 1);
}

#[test]
fn asks_before_reading_past_the_replies() {
    let e = binary(lit(Literal::Int(1)), BinaryOp::Add, lit(Literal::Float("2.0".to_string())));
    let mut pos = 0;
    match e.eval(&Scope::new(), &Vec::new(), &Vec::new(), &mut pos) {
        Err(Stop::Ask(Request::ParseFloat(t))) => assert_eq!(t, "2.0"),
        other => panic!("expected a request, got {other:?}"),
    }
    assert_eq!(pos, 0);
}

#[test]
fn equality_is_symmetric() {
    let a = Value::Array(vec![Value::Int(1), Value::Str("x".to_string())]);
    let b = Value::Array(vec![Value::Int(1), Value::Str("y".to_string())]);
    let c = Value::Struct(vec![("k".to_string(), Value::Bool(true))]);
    for (l, r) in [(&a, &b), (&a, &a), (&a, &c), (&c, &c)] {
        assert_eq!(l.equals(r), r.equals(l));
    }
    assert!(a.equals(&a));
    assert!(!a.equals(&b));
}

#[test]
fn extra_replies_change_nothing() {
    // `1 + 2.5` needs two replies: the parsed literal and the sum.
    let e = binary(lit(Literal::Int(1)), BinaryOp::Add, lit(Literal::Float("2.5".to_string())));
    let exact = vec![Reply::Float(2.5f64.to_bits()), Reply::Float(3.5f64.to_bits())];
    let mut pos = 0;
    let first = e.eval(&Scope::new(), &Vec::new(), &exact, &mut pos).unwrap();
    assert_eq!(pos, 2);
    let mut longer = vec![Reply::Float(2.5f64.to_bits()), Reply::Float(3.5f64.to_bits())];
    longer.push(Reply::Bool(false));
    let mut pos2 = 0;
    let second = e.eval(&Scope::new(), &Vec::new(), &longer, &mut pos2).unwrap();
    assert_eq!(first, second);
    assert_eq!(pos2, 2);
}

#[test]
fn asks_only_after_reading_every_reply() {
    let e = binary(lit(Literal::Int(1)), BinaryOp::Add, lit(Literal::Float("2.5".to_string())));
    let one = vec![Reply::Float(2.5f64.to_bits())];
    let mut pos = 0;
    match e.eval(&Scope::new(), &Vec::new(), &one, &mut pos) {
        Err(Stop::Ask(Request::Arith { op: BinaryOp::Add, left, right })) => {
            assert_eq!(left, Number::Int(1));
            assert_eq!(right, Number::Float(2.5f64.to_bits()));
        }
        other => panic!("expected a request, got {other:?}"),
    }
    assert_eq!(pos, 1);
}
