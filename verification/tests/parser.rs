use xtera::{parse, BinaryOp, Template, Expr, Literal, Node, UnaryOp};

fn with_first_expr<R>(src: &str, f: impl FnOnce(&Expr) -> R) -> R {
    let tpl = parse(src).unwrap();
    match tpl.nodes().first() {
        Some(Node::Interp(n)) => f(&n.expr),
        other => panic!("expected interpolation, got {other:?}"),
    }
}

#[test]
fn parser_plain_text() {
    let tpl = parse("hello world").unwrap();
    assert_eq!(tpl.nodes().len(), 1);
    assert!(matches!(&tpl.nodes()[0], Node::Text(t) if t.text == "hello world"));
}

#[test]
fn parser_interp() {
    let tpl = parse("hello {{ name }}").unwrap();
    assert_eq!(tpl.nodes().len(), 2);
    assert!(matches!(&tpl.nodes()[0], Node::Text(t) if t.text == "hello "));
    assert!(matches!(&tpl.nodes()[1], Node::Interp(n) if matches!(&n.expr, Expr::Ident(i) if i.name == "name")));
}

#[test]
fn parser_pipe() {
    let tpl = parse("{{ value | uppercase }}").unwrap();
    assert_eq!(tpl.nodes().len(), 1);
    with_first_expr("{{ value | uppercase }}", |e| match e {
        Expr::Pipe(p) => {
            assert_eq!(p.name, "uppercase");
            assert!(p.args.is_empty());
        }
        other => panic!("expected pipe, got {other:?}"),
    });
}

#[test]
fn pipe_with_args() {
    with_first_expr("{{ value | slice:0:5 }}", |e| match e {
        Expr::Pipe(p) => {
            assert_eq!(p.name, "slice");
            assert_eq!(p.args.len(), 2);
        }
        other => panic!("expected pipe, got {other:?}"),
    });
}

#[test]
fn binary_precedence() {
    with_first_expr("{{ a + b * c }}", |e| match e {
        Expr::Binary(b) => {
            assert_eq!(b.op, BinaryOp::Add);
            assert!(matches!(&*b.right, Expr::Binary(r) if r.op == BinaryOp::Mul));
        }
        other => panic!("expected binary, got {other:?}"),
    });
}

#[test]
fn unary() {
    with_first_expr("{{ !done }}", |e| match e {
        Expr::Unary(u) => assert_eq!(u.op, UnaryOp::Not),
        other => panic!("expected unary, got {other:?}"),
    });
}

#[test]
fn member_access() {
    with_first_expr("{{ obj.field }}", |e| match e {
        Expr::Member(m) => assert_eq!(m.field, "field"),
        other => panic!("expected member, got {other:?}"),
    });
}

#[test]
fn index_access() {
    with_first_expr("{{ arr[0] }}", |e| assert!(matches!(e, Expr::Index(_))));
}

#[test]
fn function_call() {
    with_first_expr("{{ greet('world') }}", |e| match e {
        Expr::Call(c) => assert_eq!(c.args.len(), 1),
        other => panic!("expected call, got {other:?}"),
    });
}

#[test]
fn method_call() {
    with_first_expr("{{ obj.method(1, 2) }}", |e| match e {
        Expr::Call(c) => {
            assert!(matches!(&*c.callee, Expr::Member(m) if m.field == "method"));
            assert_eq!(c.args.len(), 2);
        }
        other => panic!("expected call, got {other:?}"),
    });
}

#[test]
fn if_block() {
    let tpl = parse("@if (show) { visible }").unwrap();
    assert_eq!(tpl.nodes().len(), 1);
    match &tpl.nodes()[0] {
        Node::If(n) => {
            assert_eq!(n.branches.len(), 1);
            assert!(n.else_body.is_none());
        }
        other => panic!("expected if, got {other:?}"),
    }
}

#[test]
fn if_else_block() {
    let tpl = parse("@if (show) { visible } @else { hidden }").unwrap();
    match &tpl.nodes()[0] {
        Node::If(n) => {
            assert_eq!(n.branches.len(), 1);
            assert!(n.else_body.is_some());
        }
        other => panic!("expected if, got {other:?}"),
    }
}

#[test]
fn if_else_if_else() {
    let tpl = parse("@if (a) { one } @else @if (b) { two } @else { three }").unwrap();
    match &tpl.nodes()[0] {
        Node::If(n) => {
            assert_eq!(n.branches.len(), 2);
            assert!(n.else_body.is_some());
        }
        other => panic!("expected if, got {other:?}"),
    }
}

#[test]
fn for_block() {
    let tpl = parse("@for (item of items; track item.id) { {{ item.name }} }").unwrap();
    assert_eq!(tpl.nodes().len(), 1);
    match &tpl.nodes()[0] {
        Node::For(f) => {
            assert_eq!(f.binding, "item");
            assert!(!f.body.nodes.is_empty());
        }
        other => panic!("expected for, got {other:?}"),
    }
}

#[test]
fn switch_block() {
    let tpl = parse(
        "@switch (color) { @case ('red') { Red! } @case ('blue') { Blue! } @default { Other } }",
    )
    .unwrap();
    match &tpl.nodes()[0] {
        Node::Switch(s) => {
            assert_eq!(s.cases.len(), 2);
            assert!(s.default.is_some());
        }
        other => panic!("expected switch, got {other:?}"),
    }
}

#[test]
fn nested_if_in_for() {
    let tpl =
        parse("@for (item of items; track item.id) { @if (item.visible) { {{ item.name }} } }")
            .unwrap();
    assert_eq!(tpl.nodes().len(), 1);
    match &tpl.nodes()[0] {
        Node::For(f) => {
            let has_if = f.body.nodes.iter().any(|n| matches!(n, Node::If(_)));
            assert!(has_if);
        }
        other => panic!("expected for, got {other:?}"),
    }
}

#[test]
fn literals() {
    with_first_expr("{{ null }}", |e| {
        assert!(matches!(e, Expr::Value(v) if v.value == Literal::Null))
    });
    with_first_expr("{{ true }}", |e| {
        assert!(matches!(e, Expr::Value(v) if v.value == Literal::Bool(true)))
    });
    with_first_expr("{{ 42 }}", |e| {
        assert!(matches!(e, Expr::Value(v) if v.value == Literal::Int(42)))
    });
    with_first_expr("{{ 3.14 }}", |e| match e {
        Expr::Value(v) => match &v.value {
            Literal::Float(t) => assert!((t.parse::<f64>().unwrap() - 3.14).abs() < f64::EPSILON),
            other => panic!("expected float, got {other:?}"),
        },
        other => panic!("expected literal, got {other:?}"),
    });
}

#[test]
fn grouped_expression() {
    with_first_expr("{{ (a + b) * c }}", |e| match e {
        Expr::Binary(b) => {
            assert_eq!(b.op, BinaryOp::Mul);
            assert!(matches!(&*b.left, Expr::Binary(l) if l.op == BinaryOp::Add));
        }
        other => panic!("expected binary, got {other:?}"),
    });
}

#[test]
fn empty_template() {
    let tpl = parse("").unwrap();
    assert!(tpl.nodes().is_empty());
}

#[test]
fn array_literal() {
    with_first_expr("{{ [1, 2, 3] }}", |e| match e {
        Expr::Array(a) => assert_eq!(a.elements.len(), 3),
        other => panic!("expected array, got {other:?}"),
    });
}

#[test]
fn array_empty() {
    with_first_expr("{{ [] }}", |e| match e {
        Expr::Array(a) => assert!(a.elements.is_empty()),
        other => panic!("expected array, got {other:?}"),
    });
}

#[test]
fn object_literal() {
    with_first_expr("{{ { a: 1, b: '2' } }}", |e| match e {
        Expr::Object(o) => {
            assert_eq!(o.entries.len(), 2);
            assert_eq!(o.entries[0].0, "a");
            assert_eq!(o.entries[1].0, "b");
        }
        other => panic!("expected object, got {other:?}"),
    });
}

#[test]
fn object_empty() {
    with_first_expr("{{ {} }}", |e| match e {
        Expr::Object(o) => assert!(o.entries.is_empty()),
        other => panic!("expected object, got {other:?}"),
    });
}

#[test]
fn nested_object_in_array() {
    with_first_expr("{{ [{ a: 1 }, { b: 2 }] }}", |e| match e {
        Expr::Array(a) => {
            assert_eq!(a.elements.len(), 2);
            assert!(matches!(&a.elements[0], Expr::Object(_)));
            assert!(matches!(&a.elements[1], Expr::Object(_)));
        }
        other => panic!("expected array, got {other:?}"),
    });
}

#[test]
fn parse_keeps_source() {
    let tpl = parse("a {{ b }} c").unwrap();
    assert_eq!(tpl.src(), "a {{ b }} c");
    assert_eq!(tpl.nodes().len(), 3);
}

#[test]
fn parse_errors() {
    assert!(parse("{{ 1 + }}").is_err());
    assert!(parse("{{ a").is_err());
}

#[test]
fn parse_error_spans() {
    let at = |src: &str| {
        let e = parse(src).unwrap_err();
        (e.span.start, e.span.end)
    };
    // The `}}` where an operand should stand.
    assert_eq!(at("{{ 1 + }}"), (7, 9));
    // The end of input where `}}` should stand.
    assert_eq!(at("{{ a"), (4, 4));
    // A character that starts no token.
    assert_eq!(at("{{ # }}"), (3, 4));
    // A loop binding that is not a name.
    assert_eq!(at("@for (1 of x; track x) {}"), (6, 7));
    // Text where `@case`, `@default` or `}` should stand.
    assert_eq!(at("@switch (x) { oops }"), (13, 19));
}

#[test]
fn match_block_arms() {
    let tpl = parse("@match (x) { 1 => {a}, 'b' => {b}, _ => {c} }").unwrap();
    match &tpl.nodes()[0] {
        Node::Match(m) => {
            assert_eq!(m.arms.len(), 2);
            assert!(m.default.is_some());
        }
        other => panic!("expected match, got {other:?}"),
    }
}

#[test]
fn literal_display() {
    assert_eq!(Literal::Null.to_string(), "null");
    assert_eq!(Literal::Bool(false).to_string(), "false");
    assert_eq!(Literal::Int(-3).to_string(), "-3");
    assert_eq!(Literal::Float("2.50".to_string()).to_string(), "2.50");
    assert_eq!(Literal::String("a".to_string()).to_string(), "\"a\"");
}

#[test]
fn nodes_show_their_source() {
    let tpl = parse("x {{ a + b }} @if (c) {y}").unwrap();
    let nodes = tpl.nodes();
    assert_eq!(nodes[0].to_string(), "x ");
    assert_eq!(nodes[1].to_string(), "{{ a + b }}");
    match &nodes[1] {
        Node::Interp(n) => assert_eq!(n.expr.to_string(), "a + b"),
        other => panic!("expected interpolation, got {other:?}"),
    }
    assert!(nodes[3].to_string().starts_with("@if (c) {y}"));
}

#[test]
fn parse_error_messages() {
    let err = |src: &str| {
        let e = parse(src).unwrap_err();
        (e.message, e.span.start, e.span.end)
    };
    assert_eq!(
        err("@switch (x) { @case (1) {a}"),
        ("unexpected end of input in @switch block".to_string(), 27, 27)
    );
    assert_eq!(
        err("@for (x in items; track x) {x}"),
        ("expected 'of', got Expr(Ident(\"in\"))".to_string(), 8, 10)
    );
    assert_eq!(err("@else {x}"), ("unexpected token: AtElse".to_string(), 0, 5));
    assert_eq!(err("{{ 1 2 }}"), ("expected '}}', got Expr(Int(2))".to_string(), 5, 6));
    assert_eq!(
        err("{{ x 'a\"b' }}"),
        ("expected '}}', got Expr(String(\"a\\\"b\"))".to_string(), 5, 10)
    );
    assert_eq!(err("@if x {}"), ("expected LParen, got Expr(Ident(\"x\"))".to_string(), 4, 5));
    assert_eq!(err("{{ # }}"), ("unexpected character".to_string(), 3, 4));
}

#[test]
fn template_parse_is_parse() {
    for src in ["a {{ b | upper }} c", "@if (x) {y}@else{z}", "{{ 1 + }}", "@for (x in y) {}"] {
        let a = parse(src);
        let b = Template::parse(src);
        match (a, b) {
            (Ok(x), Ok(y)) => assert_eq!(x, y),
            (Err(x), Err(y)) => {
                assert_eq!(x.message, y.message);
                assert_eq!((x.span.start, x.span.end), (y.span.start, y.span.end));
            }
            _ => panic!("parse and Template::parse disagree on {src}"),
        }
    }
}

#[test]
fn spans_count_bytes() {
    // Plain text spans all of the source's bytes.
    let tpl = parse("éa").unwrap();
    assert_eq!(tpl.nodes().len(), 1);
    let sp = tpl.nodes()[0].span();
    assert_eq!((sp.start, sp.end), (0, 3));
    assert_eq!(tpl.nodes()[0].to_string(), "éa");

    let tpl = parse("é{{ x }}").unwrap();
    let text = tpl.nodes()[0].span();
    let interp = tpl.nodes()[1].span();
    assert_eq!((text.start, text.end), (0, 2));
    assert_eq!((interp.start, interp.end), (2, 9));
    assert_eq!(tpl.nodes()[1].to_string(), "{{ x }}");

    // Errors are placed at byte positions too.
    let e = parse("é{{ 1 + }}").unwrap_err();
    assert_eq!((e.span.start, e.span.end), (9, 11));
    let e = parse("{{ é }}").unwrap_err();
    assert_eq!((e.span.start, e.span.end, e.message.as_str()), (3, 4, "unexpected character"));
}
