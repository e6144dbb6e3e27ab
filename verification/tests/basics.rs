use std::sync::Arc;

use xtera::{
    BinaryOp, EvalError, EvalErrorKind, ParseError, Span, UnaryOp, Value,
};

fn src() -> Arc<str> {
    Arc::from("hello world")
}

#[test]
fn new() {
    let s = Span::new(0, 5, src());
    assert_eq!(s.start, 0);
    assert_eq!(s.end, 5);
}

#[test]
fn merge() {
    let a = Span::new(2, 5, src());
    let b = Span::new(8, 11, src());
    let merged = a.merge(&b);
    assert_eq!(merged, Span::new(2, 11, src()));
}

#[test]
fn into_range() {
    let r: std::ops::Range<usize> = Span::new(1, 4, src()).into();
    assert_eq!(r, 1..4);
}

#[test]
fn span_display() {
    assert_eq!(Span::new(0, 5, src()).to_string(), "hello");
    assert_eq!(Span::new(6, 11, src()).to_string(), "world");
}

#[test]
fn merge_is_order_free() {
    let a = Span::new(6, 9, src());
    let b = Span::new(1, 7, src());
    assert_eq!(a.merge(&b), Span::new(1, 9, src()));
    assert_eq!(b.merge(&a), Span::new(1, 9, src()));
}

#[test]
fn display_undefined_variable() {
    let err = EvalError::new(EvalErrorKind::UndefinedVariable("x".into()), Span::new(0, 1, src()));
    assert_eq!(err.to_string(), "eval error at 0..1: undefined variable 'x'");
}

#[test]
fn display_type_error() {
    let err = EvalError::new(
        EvalErrorKind::TypeError { expected: "number", got: "string".into() },
        Span::new(5, 10, src()),
    );
    assert_eq!(err.to_string(), "eval error at 5..10: expected number, got string");
}

#[test]
fn display_division_by_zero() {
    let err = EvalError::new(EvalErrorKind::DivisionByZero, Span::new(3, 8, src()));
    assert_eq!(err.to_string(), "eval error at 3..8: division by zero");
}

#[test]
fn display_index_out_of_bounds() {
    let err = EvalError::new(
        EvalErrorKind::IndexOutOfBounds { index: 5, len: 3 },
        Span::new(0, 4, src()),
    );
    assert_eq!(err.to_string(), "eval error at 0..4: index 5 out of bounds (len 3)");
}

#[test]
fn display_other_kinds() {
    let sp = || Span::new(1, 2, src());
    let cases = vec![
        (EvalErrorKind::UndefinedPipe("p".into()), "undefined pipe 'p'"),
        (EvalErrorKind::UndefinedField("f".into()), "undefined field 'f'"),
        (EvalErrorKind::NotCallable, "value is not callable"),
        (EvalErrorKind::NotIterable, "value is not iterable"),
        (EvalErrorKind::InvalidIndex, "index expression must evaluate to an integer"),
        (EvalErrorKind::Overflow, "integer overflow"),
        (EvalErrorKind::UndefinedTemplate("t".into()), "undefined template 't'"),
        (EvalErrorKind::IncludeDepth, "maximum include depth exceeded"),
        (EvalErrorKind::UnexpectedReply, "unexpected reply from the host"),
    ];
    for (kind, msg) in cases {
        assert_eq!(EvalError::new(kind, sp()).to_string(), format!("eval error at 1..2: {msg}"));
    }
}

#[test]
fn parse_error_display() {
    let err = ParseError::new("unexpected token".to_string(), Span::new(4, 7, src()));
    assert_eq!(err.to_string(), "parse error at 4..7: unexpected token");
}

#[test]
fn precedence_ordering() {
    let (mul_l, _) = BinaryOp::Mul.precedence();
    let (add_l, _) = BinaryOp::Add.precedence();
    assert!(mul_l > add_l);
    let (and_l, _) = BinaryOp::And.precedence();
    let (or_l, _) = BinaryOp::Or.precedence();
    assert!(and_l > or_l);
}

#[test]
fn op_display() {
    assert_eq!(BinaryOp::Add.to_string(), "+");
    assert_eq!(BinaryOp::Eq.to_string(), "==");
    assert_eq!(UnaryOp::Not.to_string(), "!");
    assert_eq!(UnaryOp::Neg.to_string(), "-");
}

#[test]
fn precedence_is_left_associative() {
    for op in [BinaryOp::Add, BinaryOp::Mul, BinaryOp::Or, BinaryOp::Lt] {
        let (l, r) = op.precedence();
        assert_eq!(r, l + 1);
    }
}

#[test]
fn unescape_sequences() {
    assert_eq!(xtera::text::unescape("a\\nb\\t\\\\c\\'"), "a\nb\t\\c'");
    assert_eq!(xtera::text::unescape("plain"), "plain");
}

#[test]
fn value_equality_and_kind() {
    assert!(Value::Float(0.0f64.to_bits()).equals(&Value::Float((-0.0f64).to_bits())));
    assert!(!Value::Float(f64::NAN.to_bits()).equals(&Value::Float(f64::NAN.to_bits())));
    assert!(!Value::Int(1).equals(&Value::Float(1.0f64.to_bits())));
    assert!(Value::Array(vec![Value::Int(1)]).equals(&Value::Array(vec![Value::Int(1)])));
    assert_eq!(Value::Struct(vec![]).kind_name(), "struct");
    assert_eq!(Value::Null.kind_name(), "null");
}
