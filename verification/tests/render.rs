use std::sync::Arc;

use xtera::{
    BinaryOp, BlockNode, EvalError, EvalErrorKind, Expr, IfBranch, IfNode, Literal, Node, Number,
    Reply, Request, Scope, Span, Stop, Template, TextNode, Value, ValueExpr,
};

fn as_f64(n: Number) -> f64 {
    match n {
        Number::Int(i) => i as f64,
        Number::Float(b) => f64::from_bits(b),
    }
}

/// Answers a request the way a host does, with the test pipes `upper` and
/// `uppercase` and the test function `len`.
fn answer(req: Request) -> Reply {
    match req {
        Request::ParseFloat(t) => Reply::Float(t.parse::<f64>().unwrap().to_bits()),
        Request::Arith { op, left, right } => {
            let (a, b) = (as_f64(left), as_f64(right));
            let r = match op {
                BinaryOp::Add => a + b,
                BinaryOp::Sub => a - b,
                BinaryOp::Mul => a * b,
                BinaryOp::Div => a / b,
                _ => a % b,
            };
            Reply::Float(r.to_bits())
        }
        Request::Compare { op, left, right } => {
            let (a, b) = (as_f64(left), as_f64(right));
            Reply::Bool(match op {
                BinaryOp::Lt => a < b,
                BinaryOp::Le => a <= b,
                BinaryOp::Gt => a > b,
                _ => a >= b,
            })
        }
        Request::FormatFloat(b) => Reply::Text(format!("{}", f64::from_bits(b))),
        Request::Pipe { value, .. } => match value {
            Value::Str(s) => Reply::Value(Value::Str(s.to_uppercase())),
            other => Reply::Value(other),
        },
        Request::Func { args, .. } => match args.first() {
            Some(Value::Array(items)) => Reply::Value(Value::Int(items.len() as i64)),
            _ => Reply::Value(Value::Null),
        },
    }
}

/// Renders `t` against `scope`, answering the renderer's requests.
fn drive(t: &Template, scope: &Scope) -> Result<String, EvalError> {
    let mut replies: Vec<Reply> = Vec::new();
    loop {
        match t.render(scope, &replies) {
            Ok(s) => return Ok(s),
            Err(Stop::Fail(e)) => return Err(e),
            Err(Stop::Ask(req)) => replies.push(answer(req)),
        }
    }
}

/// Renders the template registered under `name`.
fn drive_named(scope: &Scope, name: &str) -> Result<String, EvalError> {
    let mut replies: Vec<Reply> = Vec::new();
    loop {
        match scope.render(name, &replies) {
            Ok(s) => return Ok(s),
            Err(Stop::Fail(e)) => return Err(e),
            Err(Stop::Ask(req)) => replies.push(answer(req)),
        }
    }
}

/// A scope with the pipe `upper` and the function `len`.
fn scope() -> Scope {
    let mut s = Scope::new();
    s.set_pipe("upper");
    s.set_func("len");
    s
}

fn render(src: &str) -> String {
    let tpl = Template::parse(src).unwrap();
    drive(&tpl, &Scope::new()).unwrap()
}

fn render_in(src: &str, s: &Scope) -> String {
    let tpl = Template::parse(src).unwrap();
    drive(&tpl, s).unwrap()
}

fn render_err(src: &str, s: &Scope) -> EvalError {
    let tpl = Template::parse(src).unwrap();
    drive(&tpl, s).unwrap_err()
}

fn str_val(s: &str) -> Value {
    Value::Str(s.to_string())
}

fn ints(xs: &[i64]) -> Value {
    Value::Array(xs.iter().map(|x| Value::Int(*x)).collect())
}

fn sp() -> Span {
    Span::new(0, 1, Arc::from("x"))
}

fn lit(v: Literal) -> Expr {
    Expr::Value(ValueExpr { value: v, span: sp() })
}

fn text(s: &str) -> Node {
    Node::Text(TextNode { text: s.to_string(), span: sp() })
}

fn block(nodes: Vec<Node>) -> BlockNode {
    BlockNode { nodes, span: sp() }
}

fn render_node(n: &IfNode) -> String {
    let mut pos = 0;
    let node = n;
    match node.render(&Scope::new(), &Vec::new(), 0, &Vec::new(), &mut pos) {
        Ok(s) => s,
        Err(e) => panic!("render failed: {e:?}"),
    }
}

// ── whole templates ─────────────────────────────────────────────────

#[test]
fn nested_for_with_if() {
    let mut s = scope();
    s.set_var("items", ints(&[1, 2, 3, 4]));
    let tpl = Template::parse("@for (n of items; track n) {@if (n % 2 == 0) {even}@else{odd}}")
        .unwrap();
    s.set_template("main", tpl);
    assert_eq!(drive_named(&s, "main").unwrap(), "oddevenoddeven");
}

#[test]
fn match_inside_for() {
    let mut s = scope();
    s.set_var("colors", Value::Array(vec![str_val("red"), str_val("blue"), str_val("green")]));
    let tpl = Template::parse(
        "@for (c of colors; track c) {@match (c) { 'red' => {R}, 'blue' => {B}, _ => {?} }}",
    )
    .unwrap();
    s.set_template("main", tpl);
    assert_eq!(drive_named(&s, "main").unwrap(), "RB?");
}

#[test]
fn include_with_control_flow() {
    let mut s = scope();
    s.set_var("show", Value::Bool(true));
    s.set_var("name", str_val("world"));
    s.set_template("greeting", Template::parse("@if (show) {Hello {{ name | upper }}!}").unwrap());
    s.set_template("page", Template::parse("[before]@include('greeting')[after]").unwrap());
    assert_eq!(drive_named(&s, "page").unwrap(), "[before]Hello WORLD![after]");
}

#[test]
fn pipes_and_expressions_in_control_flow() {
    let mut s = scope();
    s.set_var("x", Value::Int(10));
    s.set_var("y", Value::Int(3));
    s.set_var("label", str_val("result"));
    let tpl =
        Template::parse("@if (x > 5 && y < 10) {{{ label | upper }}: {{ x * y + 1 }}}").unwrap();
    s.set_template("main", tpl);
    assert_eq!(drive_named(&s, "main").unwrap(), "RESULT: 31");
}

#[test]
fn full_page_template() {
    let mut s = scope();
    s.set_var("title", str_val("My Page"));
    s.set_var("users", Value::Array(vec![str_val("alice"), str_val("bob")]));
    s.set_var("theme", str_val("dark"));
    s.set_template("header", Template::parse("<h1>{{ title | upper }}</h1>").unwrap());
    let src = [
        "@include('header')",
        "@match (theme) { 'dark' => {<body class='dark'>}, 'light' => {<body class='light'>}, _ => {<body>} }",
        "@for (user of users; track user) {",
        "@if (user == 'alice') {<b>{{ user }}</b>}",
        "@else{<span>{{ user }}</span>}",
        "}",
        "</body>",
    ]
    .join("");
    s.set_template("page", Template::parse(&src).unwrap());
    assert_eq!(
        drive_named(&s, "page").unwrap(),
        "<h1>MY PAGE</h1><body class='dark'><b>alice</b><span>bob</span></body>"
    );
}

// ── literals ────────────────────────────────────────────────────────

#[test]
fn literal_null() {
    assert_eq!(render("{{ null }}"), "<null>");
}

#[test]
fn literal_bool() {
    assert_eq!(render("{{ true }}"), "true");
    assert_eq!(render("{{ false }}"), "false");
}

#[test]
fn literal_int() {
    assert_eq!(render("{{ 42 }}"), "42");
}

#[test]
fn literal_float() {
    assert_eq!(render("{{ 3.14 }}"), "3.14");
}

#[test]
fn literal_string() {
    assert_eq!(render("{{ 'hello' }}"), "hello");
}

// ── arithmetic and operators ────────────────────────────────────────

#[test]
fn add_ints() {
    assert_eq!(render("{{ 2 + 3 }}"), "5");
}

#[test]
fn float_promotion() {
    assert_eq!(render("{{ 1 + 2.5 }}"), "3.5");
}

#[test]
fn string_concat() {
    assert_eq!(render("{{ 'a' + 'b' }}"), "ab");
}

#[test]
fn division_by_zero() {
    let err = render_err("{{ 10 / 0 }}", &Scope::new());
    assert!(matches!(err.kind, EvalErrorKind::DivisionByZero));
}

#[test]
fn comparison() {
    assert_eq!(render("{{ 1 < 2 }}"), "true");
}

#[test]
fn equality() {
    assert_eq!(render("{{ 'a' == 'a' }}"), "true");
}

#[test]
fn unary_not() {
    assert_eq!(render("{{ !true }}"), "false");
}

#[test]
fn unary_neg() {
    assert_eq!(render("{{ -5 }}"), "-5");
}

#[test]
fn and_short_circuit() {
    // `missing` is undefined, but the left side decides.
    assert_eq!(render("{{ false && missing }}"), "false");
}

#[test]
fn or_short_circuit() {
    assert_eq!(render("{{ true || missing }}"), "true");
}

// ── errors ──────────────────────────────────────────────────────────

#[test]
fn undefined_variable() {
    let err = render_err("{{ x }}", &Scope::new());
    assert!(matches!(err.kind, EvalErrorKind::UndefinedVariable(_)));
}

#[test]
fn undefined_pipe() {
    let mut s = Scope::new();
    s.set_var("x", str_val("hi"));
    let err = render_err("{{ x | missing }}", &s);
    assert!(matches!(err.kind, EvalErrorKind::UndefinedPipe(_)));
}

#[test]
fn for_not_iterable() {
    let mut s = Scope::new();
    s.set_var("items", Value::Int(42));
    let err = render_err("@for (n of items; track n) {x}", &s);
    assert!(matches!(err.kind, EvalErrorKind::NotIterable));
}

#[test]
fn lib_include_missing_template() {
    let err = render_err("@include('missing')", &Scope::new());
    assert!(matches!(err.kind, EvalErrorKind::UndefinedTemplate(_)));
}

#[test]
fn include_non_string_name() {
    let mut s = Scope::new();
    s.set_var("name", Value::Int(42));
    let err = render_err("@include(name)", &s);
    assert!(matches!(err.kind, EvalErrorKind::TypeError { .. }));
}

// ── control flow ────────────────────────────────────────────────────

#[test]
fn if_true() {
    assert_eq!(render("@if (true) {yes}"), "yes");
}

#[test]
fn if_false() {
    assert_eq!(render("@if (false) {yes}"), "");
}

#[test]
fn lib_if_else() {
    assert_eq!(render("@if (false) {a}@else{b}"), "b");
}

#[test]
fn lib_for_loop() {
    let mut s = scope();
    s.set_var("items", ints(&[1, 2]));
    let tpl = Template::parse("@for (n of items; track n) {[{{ n }}]}").unwrap();
    s.set_template("main", tpl);
    assert_eq!(drive_named(&s, "main").unwrap(), "[1][2]");
}

#[test]
fn for_empty() {
    let mut s = scope();
    s.set_var("items", Value::Array(vec![]));
    let tpl = Template::parse("@for (n of items; track n) {x}").unwrap();
    s.set_template("main", tpl);
    assert_eq!(drive_named(&s, "main").unwrap(), "");
}

#[test]
fn match_default() {
    let mut s = Scope::new();
    s.set_var("x", str_val("b"));
    let tpl = Template::parse("@match (x) { 'a' => {A}, _ => {?} }").unwrap();
    s.set_template("main", tpl);
    assert_eq!(drive_named(&s, "main").unwrap(), "?");
}

#[test]
fn match_arm() {
    let mut s = Scope::new();
    s.set_var("x", str_val("a"));
    let tpl = Template::parse("@match (x) { 'a' => {A}, 'b' => {B} }").unwrap();
    s.set_template("main", tpl);
    assert_eq!(drive_named(&s, "main").unwrap(), "A");
}

#[test]
fn match_no_match() {
    let mut s = Scope::new();
    s.set_var("x", str_val("c"));
    let tpl = Template::parse("@match (x) { 'a' => {A} }").unwrap();
    s.set_template("main", tpl);
    assert_eq!(drive_named(&s, "main").unwrap(), "");
}

#[test]
fn lib_plain_text() {
    assert_eq!(render("hello world"), "hello world");
}

#[test]
fn interpolation_with_variable() {
    let mut s = Scope::new();
    s.set_var("x", Value::Int(10));
    let tpl = Template::parse("{{ x }}").unwrap();
    s.set_template("main", tpl);
    assert_eq!(drive_named(&s, "main").unwrap(), "10");
}

// ── single nodes ────────────────────────────────────────────────────

#[test]
fn render_text() {
    let node = TextNode { text: "hello world".to_string(), span: Span::new(0, 11, Arc::from("hello world")) };
    assert_eq!(node.render(), "hello world");
}

#[test]
fn render_true_branch() {
    let node = IfNode {
        branches: vec![IfBranch {
            condition: lit(Literal::Bool(true)),
            body: block(vec![text("yes")]),
            span: sp(),
        }],
        else_body: None,
        span: sp(),
    };
    assert_eq!(render_node(&node), "yes");
}

#[test]
fn render_false_with_else() {
    let node = IfNode {
        branches: vec![IfBranch {
            condition: lit(Literal::Bool(false)),
            body: block(vec![text("yes")]),
            span: sp(),
        }],
        else_body: Some(block(vec![text("no")])),
        span: sp(),
    };
    assert_eq!(render_node(&node), "no");
}

#[test]
fn render_no_match_no_else() {
    let node = IfNode {
        branches: vec![IfBranch {
            condition: lit(Literal::Bool(false)),
            body: block(vec![text("yes")]),
            span: sp(),
        }],
        else_body: None,
        span: sp(),
    };
    assert_eq!(render_node(&node), "");
}

#[test]
fn render_else_if() {
    let node = IfNode {
        branches: vec![
            IfBranch {
                condition: lit(Literal::Bool(false)),
                body: block(vec![text("first")]),
                span: sp(),
            },
            IfBranch {
                condition: lit(Literal::Bool(true)),
                body: block(vec![text("second")]),
                span: sp(),
            },
        ],
        else_body: Some(block(vec![text("else")])),
        span: sp(),
    };
    assert_eq!(render_node(&node), "second");
}

// ── the renderer's cases, as written for each renderer module ───────

fn check_plain_text() {
    assert_eq!(render("hello world"), "hello world");
}

fn check_interp() {
    let mut s = Scope::new();
    s.set_var("name", str_val("Alice"));
    assert_eq!(render_in("Hello {{ name }}!", &s), "Hello Alice!");
}

fn check_interp_expr() {
    assert_eq!(render("{{ 1 + 2 }}"), "3");
}

fn check_if_truthy() {
    let mut s = Scope::new();
    s.set_var("show", Value::Bool(true));
    assert_eq!(render_in("@if (show) {yes}", &s), "yes");
}

fn check_if_falsy() {
    let mut s = Scope::new();
    s.set_var("show", Value::Bool(false));
    assert_eq!(render_in("@if (show) {yes}", &s), "");
}

fn check_if_else() {
    let mut s = Scope::new();
    s.set_var("show", Value::Bool(false));
    assert_eq!(render_in("@if (show) {yes} @else {no}", &s), "no");
}

fn check_if_else_if() {
    let mut s = Scope::new();
    s.set_var("a", Value::Bool(false));
    s.set_var("b", Value::Bool(true));
    assert_eq!(render_in("@if (a) {A} @else @if (b) {B} @else {C}", &s), "B");
}

fn check_for_loop() {
    let mut s = Scope::new();
    s.set_var("items", ints(&[1, 2, 3]));
    assert_eq!(render_in("@for (x of items; track x) {{{ x }}}", &s), "123");
}

fn check_for_loop_binding_does_not_leak() {
    let mut s = Scope::new();
    s.set_var("items", ints(&[1]));
    render_in("@for (x of items; track x) {{{ x }}}", &s);
    assert!(s.var("x").is_none());
}

fn check_switch_case() {
    let mut s = Scope::new();
    s.set_var("color", str_val("red"));
    assert_eq!(
        render_in("@switch (color) { @case ('red') {RED} @case ('blue') {BLUE} @default {OTHER}}", &s),
        "RED"
    );
}

fn check_switch_default() {
    let mut s = Scope::new();
    s.set_var("color", str_val("green"));
    assert_eq!(
        render_in("@switch (color) { @case ('red') {RED} @default {OTHER}}", &s),
        "OTHER"
    );
}

fn check_pipe() {
    let mut s = Scope::new();
    s.set_var("name", str_val("hello"));
    s.set_pipe("uppercase");
    assert_eq!(render_in("{{ name | uppercase }}", &s), "HELLO");
}

fn check_nested_for_if() {
    let mut s = Scope::new();
    s.set_var("items", ints(&[1, 2, 3]));
    assert_eq!(render_in("@for (x of items; track x) {@if (x == 2) {found}}", &s), "found");
}

#[test]
fn render_plain_text() {
    check_plain_text();
}

#[test]
fn interpolation() {
    check_interp();
}

#[test]
fn interpolation_expr() {
    check_interp_expr();
}

#[test]
fn render_if_truthy() {
    check_if_truthy();
}

#[test]
fn render_if_falsy() {
    check_if_falsy();
}

#[test]
fn render_if_else() {
    check_if_else();
}

#[test]
fn render_if_else_if() {
    check_if_else_if();
}

#[test]
fn render_for_loop() {
    check_for_loop();
}

#[test]
fn render_for_loop_binding_does_not_leak() {
    check_for_loop_binding_does_not_leak();
}

#[test]
fn render_switch_case() {
    check_switch_case();
}

#[test]
fn render_switch_default() {
    check_switch_default();
}

#[test]
fn render_pipe() {
    check_pipe();
}

#[test]
fn render_nested_for_if() {
    check_nested_for_if();
}

#[test]
fn mod_plain_text() {
    check_plain_text();
}

#[test]
fn mod_interp() {
    check_interp();
}

#[test]
fn interp_expr() {
    check_interp_expr();
}

#[test]
fn mod_if_truthy() {
    check_if_truthy();
}

#[test]
fn mod_if_falsy() {
    check_if_falsy();
}

#[test]
fn mod_if_else() {
    check_if_else();
}

#[test]
fn mod_if_else_if() {
    check_if_else_if();
}

#[test]
fn mod_for_loop() {
    check_for_loop();
}

#[test]
fn mod_for_loop_binding_does_not_leak() {
    check_for_loop_binding_does_not_leak();
}

#[test]
fn mod_switch_case() {
    check_switch_case();
}

#[test]
fn mod_switch_default() {
    check_switch_default();
}

#[test]
fn mod_pipe() {
    check_pipe();
}

#[test]
fn mod_nested_for_if() {
    check_nested_for_if();
}

// ── further cases of the renderer ───────────────────────────────────

#[test]
fn include_depth_is_limited() {
    let mut s = Scope::new();
    s.set_template("loop", Template::parse("x@include('loop')").unwrap());
    let err = drive_named(&s, "loop").unwrap_err();
    assert_eq!(err.kind, EvalErrorKind::IncludeDepth);
}

#[test]
fn include_sees_loop_binding() {
    let mut s = Scope::new();
    s.set_var("items", ints(&[1, 2]));
    s.set_template("item", Template::parse("<{{ n }}>").unwrap());
    assert_eq!(render_in("@for (n of items; track n) {@include('item')}", &s), "<1><2>");
}

#[test]
fn loop_binding_shadows_variable() {
    let mut s = Scope::new();
    s.set_var("n", str_val("outer"));
    s.set_var("items", ints(&[7]));
    assert_eq!(render_in("@for (n of items; track n) {{{ n }}}{{ n }}", &s), "7outer");
}

#[test]
fn display_of_composites() {
    let mut s = Scope::new();
    s.set_var("a", Value::Array(vec![Value::Int(1), str_val("b"), Value::Null]));
    assert_eq!(render_in("{{ a }}", &s), "[1, b, <null>]");
    assert_eq!(render("{{ { k: 1, j: [true] } }}"), "{k: 1, j: [true]}");
    assert_eq!(render("{{ [] }}"), "[]");
}

#[test]
fn index_and_member() {
    let mut s = Scope::new();
    s.set_var("a", ints(&[10, 20, 30]));
    assert_eq!(render_in("{{ a[1] }}", &s), "20");
    let err = render_err("{{ a[1.5] }}", &s);
    assert_eq!(err.kind, EvalErrorKind::InvalidIndex);
    assert_eq!(render_in("{{ { x: 5 }.x }}", &s), "5");
    let err = render_err("{{ a[3] }}", &s);
    assert!(matches!(err.kind, EvalErrorKind::IndexOutOfBounds { index: 3, len: 3 }));
    let err = render_err("{{ a[-1] }}", &s);
    assert_eq!(err.kind, EvalErrorKind::InvalidIndex);
    let err = render_err("{{ { x: 5 }.y }}", &s);
    assert_eq!(err.kind, EvalErrorKind::UndefinedField("y".to_string()));
    let err = render_err("{{ a.x }}", &s);
    assert_eq!(err.kind, EvalErrorKind::TypeError { expected: "struct", got: "array".to_string() });
    let err = render_err("{{ 1[0] }}", &s);
    assert_eq!(err.kind, EvalErrorKind::TypeError { expected: "array", got: "number".to_string() });
}

#[test]
fn function_calls() {
    let mut s = scope();
    s.set_var("a", ints(&[1, 2, 3]));
    assert_eq!(render_in("{{ len(a) }}", &s), "3");
    let err = render_err("{{ nope(a) }}", &s);
    assert_eq!(err.kind, EvalErrorKind::NotCallable);
    let err = render_err("{{ a.len(a) }}", &s);
    assert_eq!(err.kind, EvalErrorKind::NotCallable);
}

#[test]
fn value_match_expression() {
    let mut s = Scope::new();
    s.set_var("v", Value::Int(2));
    let tpl = Template::parse("@switch (v) { @case (1) {one} @case (2) {two} }").unwrap();
    assert_eq!(drive(&tpl, &s).unwrap(), "two");
}

#[test]
fn error_has_span_of_node() {
    let err = render_err("ab{{ x }}", &Scope::new());
    assert_eq!(err.span.start, 5);
    assert_eq!(err.span.end, 6);
    assert_eq!(err.to_string(), "eval error at 5..6: undefined variable 'x'");
}

#[test]
fn plain_text_renders_as_itself() {
    for src in ["", "just words", "a { b } c", "mail@example.com", "{ not an interpolation }"] {
        let tpl = Template::parse(src).unwrap();
        let want = if src.is_empty() { 0 } else { 1 };
        assert_eq!(tpl.nodes().len(), want);
        assert_eq!(drive(&tpl, &Scope::new()).unwrap(), src);
    }
}

#[test]
fn short_circuit_reads_no_reply() {
    // The right side would need the host; the left side decides first.
    let tpl = Template::parse("{{ 0 && 1.5 }}{{ 'x' || 2.5 }}").unwrap();
    let replies: Vec<Reply> = Vec::new();
    assert_eq!(tpl.render(&Scope::new(), &replies).unwrap(), "0x");
}
