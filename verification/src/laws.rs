//! Properties of evaluation and rendering that hold for every input.

use vstd::prelude::*;

use crate::ast::{
    BinaryExpr, BlockNode, CallExpr, Expr, ForNode, IfNode, IncludeNode, IndexExpr, Literal,
    MatchExpr, MatchNode, MemberExpr, Node, ObjectExpr, PipeExpr, SwitchNode, UnaryExpr,
};
use crate::display::{shown, shown_fields, shown_items};
use crate::error::{ParseError, SpanView};
use crate::eval::{
    as_number, binary_value, call_value, combine, expr_value, index_number, index_value,
    list_values, match_value, member_value, object_value, pipe_value, unary_value,
};
use crate::host::{
    want_bool, want_float, want_text, want_value, Halt, ReplyView, RequestView,
};
use crate::op::{BinaryOp, UnaryOp};
use crate::grammar::{fault_of, template_model};
use crate::parser::{parse_model, parses_as_text};
use crate::text::blen;
use crate::tree::block_view;
use crate::render::{
    block_output, for_output, if_output, include_target, match_output, node_output, nodes_output,
    switch_output, MAX_INCLUDE_DEPTH,
};
use crate::scope::Scope;
use crate::template::Template;
use crate::value::{fields_eq, fields_set, float_is_nan, items_eq, truthy, value_eq, Val};

verus! {

/// `a && b` where `a` is falsy gives `a`'s value without evaluating `b`:
/// the outcome, and the replies read, are those of `a` alone.
pub proof fn law_and_short_circuit(
    x: BinaryExpr,
    scope: Scope,
    locals: Seq<(Seq<char>, Val)>,
    rs: Seq<ReplyView>,
    pos: int,
)
    requires
        x.op == BinaryOp::And,
        expr_value(*x.left, scope, locals, rs, pos).0 matches Ok(v) && !truthy(v),
    ensures
        binary_value(x, scope, locals, rs, pos) == expr_value(*x.left, scope, locals, rs, pos),
{
}

/// `a || b` where `a` is truthy gives `a`'s value without evaluating `b`.
pub proof fn law_or_short_circuit(
    x: BinaryExpr,
    scope: Scope,
    locals: Seq<(Seq<char>, Val)>,
    rs: Seq<ReplyView>,
    pos: int,
)
    requires
        x.op == BinaryOp::Or,
        expr_value(*x.left, scope, locals, rs, pos).0 matches Ok(v) && truthy(v),
    ensures
        binary_value(x, scope, locals, rs, pos) == expr_value(*x.left, scope, locals, rs, pos),
{
}

/// `!a` is a boolean: the negation of `a`'s truthiness.
pub proof fn law_not_negates_truthiness(
    x: UnaryExpr,
    scope: Scope,
    locals: Seq<(Seq<char>, Val)>,
    rs: Seq<ReplyView>,
    pos: int,
)
    requires
        x.op == UnaryOp::Not,
        expr_value(*x.operand, scope, locals, rs, pos).0 is Ok,
    ensures
        ({
            let (o, p) = expr_value(*x.operand, scope, locals, rs, pos);
            unary_value(x, scope, locals, rs, pos) == (
                Ok::<Val, Halt>(Val::Bool(!truthy(o->Ok_0))),
                p,
            )
        }),
{
}

/// Value equality is symmetric: `a == b` exactly when `b == a`.
pub proof fn law_equality_symmetric(a: Val, b: Val)
    ensures
        value_eq(a, b) == value_eq(b, a),
    decreases a, 0nat,
{
    match (a, b) {
        (Val::Array(xs), Val::Array(ys)) => {
            if xs.len() == ys.len() {
                lemma_items_eq_symmetric(xs, ys, 0);
            }
        },
        (Val::Struct(xs), Val::Struct(ys)) => {
            if xs.len() == ys.len() {
                lemma_fields_eq_symmetric(xs, ys, 0);
            }
        },
        _ => {},
    }
}

proof fn lemma_items_eq_symmetric(xs: Seq<Val>, ys: Seq<Val>, i: int)
    requires
        xs.len() == ys.len(),
    ensures
        items_eq(xs, ys, i) == items_eq(ys, xs, i),
    decreases xs, xs.len() - i,
{
    if 0 <= i < xs.len() {
        law_equality_symmetric(xs[i], ys[i]);
        lemma_items_eq_symmetric(xs, ys, i + 1);
    }
}

proof fn lemma_fields_eq_symmetric(xs: Seq<(Seq<char>, Val)>, ys: Seq<(Seq<char>, Val)>, i: int)
    requires
        xs.len() == ys.len(),
    ensures
        fields_eq(xs, ys, i) == fields_eq(ys, xs, i),
    decreases xs, xs.len() - i,
{
    if 0 <= i < xs.len() {
        law_equality_symmetric(xs[i].1, ys[i].1);
        lemma_fields_eq_symmetric(xs, ys, i + 1);
    }
}

/// Whether a value holds no NaN float, at any depth.
pub open spec fn nan_free(v: Val) -> bool
    decreases v, 0nat,
{
    match v {
        Val::Float(b) => !float_is_nan(b),
        Val::Array(xs) => items_nan_free(xs, 0),
        Val::Struct(fs) => fields_nan_free(fs, 0),
        _ => true,
    }
}

/// `nan_free` for each of `xs[i..]`.
pub open spec fn items_nan_free(xs: Seq<Val>, i: int) -> bool
    decreases xs, xs.len() - i,
{
    0 <= i < xs.len() ==> nan_free(xs[i]) && items_nan_free(xs, i + 1)
}

/// `nan_free` for the value of each of `fs[i..]`.
pub open spec fn fields_nan_free(fs: Seq<(Seq<char>, Val)>, i: int) -> bool
    decreases fs, fs.len() - i,
{
    0 <= i < fs.len() ==> nan_free(fs[i].1) && fields_nan_free(fs, i + 1)
}

/// Value equality is reflexive on values that hold no NaN: every such
/// value equals itself.
pub proof fn law_equality_reflexive(v: Val)
    requires
        nan_free(v),
    ensures
        value_eq(v, v),
    decreases v, 0nat,
{
    match v {
        Val::Array(xs) => lemma_items_eq_reflexive(xs, 0),
        Val::Struct(fs) => lemma_fields_eq_reflexive(fs, 0),
        _ => {},
    }
}

proof fn lemma_items_eq_reflexive(xs: Seq<Val>, i: int)
    requires
        items_nan_free(xs, i),
    ensures
        items_eq(xs, xs, i),
    decreases xs, xs.len() - i,
{
    if 0 <= i < xs.len() {
        law_equality_reflexive(xs[i]);
        lemma_items_eq_reflexive(xs, i + 1);
    }
}

proof fn lemma_fields_eq_reflexive(fs: Seq<(Seq<char>, Val)>, i: int)
    requires
        fields_nan_free(fs, i),
    ensures
        fields_eq(fs, fs, i),
    decreases fs, fs.len() - i,
{
    if 0 <= i < fs.len() {
        law_equality_reflexive(fs[i].1);
        lemma_fields_eq_reflexive(fs, i + 1);
    }
}

/// Whether every node is plain text.
pub open spec fn all_text(ns: Seq<Node>) -> bool {
    forall|i: int| 0 <= i < ns.len() ==> #[trigger] ns[i] is Text
}

/// The texts of the text nodes `ns`, joined.
pub open spec fn texts(ns: Seq<Node>) -> Seq<char>
    decreases ns.len(),
{
    if ns.len() == 0 {
        seq![]
    } else {
        match ns[0] {
            Node::Text(t) => t.text@ + texts(ns.drop_first()),
            _ => texts(ns.drop_first()),
        }
    }
}

proof fn lemma_text_nodes(
    ns: Seq<Node>,
    i: int,
    acc: Seq<char>,
    scope: Scope,
    locals: Seq<(Seq<char>, Val)>,
    depth: int,
    rs: Seq<ReplyView>,
    pos: int,
)
    requires
        all_text(ns),
        0 <= i <= ns.len(),
    ensures
        nodes_output(ns, i, acc, scope, locals, depth, rs, pos) == (
            Ok::<Seq<char>, Halt>(acc + texts(ns.subrange(i, ns.len() as int))),
            pos,
        ),
    decreases ns.len() - i,
{
    let rest = ns.subrange(i, ns.len() as int);
    if i == ns.len() {
        assert(rest.len() == 0);
        assert(acc + texts(rest) == acc);
    } else {
        assert(ns[i] is Text);
        let a = ns[i]->Text_0.text@;
        assert(node_output(ns[i], scope, locals, depth, rs, pos) == (Ok::<Seq<char>, Halt>(a), pos));
        lemma_text_nodes(ns, i + 1, acc + a, scope, locals, depth, rs, pos);
        assert(rest.drop_first() == ns.subrange(i + 1, ns.len() as int));
        assert(rest[0] == ns[i]);
        assert(texts(rest) == a + texts(rest.drop_first()));
        assert((acc + a) + texts(rest.drop_first()) =~= acc + (a + texts(rest.drop_first())));
    }
}

/// A block of plain text renders to its texts joined, whatever the scope,
/// and reads no reply.
pub proof fn law_text_block(
    b: BlockNode,
    scope: Scope,
    locals: Seq<(Seq<char>, Val)>,
    depth: int,
    rs: Seq<ReplyView>,
    pos: int,
)
    requires
        all_text(b.nodes@),
    ensures
        block_output(b, scope, locals, depth, rs, pos) == (
            Ok::<Seq<char>, Halt>(texts(b.nodes@)),
            pos,
        ),
{
    lemma_text_nodes(b.nodes@, 0, seq![], scope, locals, depth, rs, pos);
    assert(b.nodes@.subrange(0, b.nodes@.len() as int) == b.nodes@);
    assert(Seq::<char>::empty() + texts(b.nodes@) == texts(b.nodes@));
}

/// A template of plain text renders to its texts joined, whatever the
/// scope and the replies.
pub proof fn law_text_template(t: Template, scope: Scope, rs: Seq<ReplyView>)
    requires
        all_text(t.body().nodes@),
    ensures
        block_output(t.body(), scope, seq![], 0, rs, 0).0 == Ok::<Seq<char>, Halt>(
            texts(t.body().nodes@),
        ),
{
    law_text_block(t.body(), scope, seq![], 0, rs, 0);
}


/// Plain text renders as itself: the template that plain text `s` parses to
/// (see `crate::parser::parse`) renders to `s`, whatever the scope and the
/// replies.
pub proof fn law_plain_text_renders_as_itself(t: Template, s: Seq<char>, scope: Scope, rs: Seq<ReplyView>)
    requires
        parses_as_text(t, s),
    ensures
        block_output(t.body(), scope, seq![], 0, rs, 0).0 == Ok::<Seq<char>, Halt>(s),
{
    let nodes = t.body().nodes@;
    law_text_block(t.body(), scope, seq![], 0, rs, 0);
    if s.len() == 0 {
        assert(s =~= Seq::<char>::empty());
    } else {
        assert(nodes.drop_first().len() == 0);
        assert(texts(nodes) == nodes[0]->Text_0.text@ + texts(nodes.drop_first()));
        assert(nodes[0]->Text_0.text@ + Seq::<char>::empty() =~= s);
    }
}

/// Whether an outcome asks the host for something.
pub open spec fn asks<T>(r: Result<T, Halt>) -> bool {
    r matches Err(Halt::Ask(_))
}

/// How a run from `pos` over `n` replies relates to the run over the same
/// replies followed by more: it reads forward and never past the replies;
/// it asks only once it has read them all; and when it does not ask, the
/// longer run ends the same way at the same place.
pub open spec fn replays<T>(o: (Result<T, Halt>, int), longer: (Result<T, Halt>, int), pos: int, n: int) -> bool {
    &&& pos <= o.1 <= n
    &&& asks(o.0) ==> o.1 == n
    &&& !asks(o.0) ==> longer == o
}

proof fn lemma_want_float(req: RequestView, span: SpanView, rs: Seq<ReplyView>, more: Seq<ReplyView>, pos: int)
    requires
        0 <= pos <= rs.len(),
    ensures
        replays(want_float(req, span, rs, pos), want_float(req, span, rs + more, pos), pos, rs.len() as int),
{
    if pos < rs.len() {
        assert((rs + more)[pos] == rs[pos]);
    }
}

proof fn lemma_want_bool(req: RequestView, span: SpanView, rs: Seq<ReplyView>, more: Seq<ReplyView>, pos: int)
    requires
        0 <= pos <= rs.len(),
    ensures
        replays(want_bool(req, span, rs, pos), want_bool(req, span, rs + more, pos), pos, rs.len() as int),
{
    if pos < rs.len() {
        assert((rs + more)[pos] == rs[pos]);
    }
}

proof fn lemma_want_text(req: RequestView, span: SpanView, rs: Seq<ReplyView>, more: Seq<ReplyView>, pos: int)
    requires
        0 <= pos <= rs.len(),
    ensures
        replays(want_text(req, span, rs, pos), want_text(req, span, rs + more, pos), pos, rs.len() as int),
{
    if pos < rs.len() {
        assert((rs + more)[pos] == rs[pos]);
    }
}

proof fn lemma_want_value(req: RequestView, span: SpanView, rs: Seq<ReplyView>, more: Seq<ReplyView>, pos: int)
    requires
        0 <= pos <= rs.len(),
    ensures
        replays(want_value(req, span, rs, pos), want_value(req, span, rs + more, pos), pos, rs.len() as int),
{
    if pos < rs.len() {
        assert((rs + more)[pos] == rs[pos]);
    }
}

proof fn lemma_shown(v: Val, span: SpanView, rs: Seq<ReplyView>, more: Seq<ReplyView>, pos: int)
    requires
        0 <= pos <= rs.len(),
    ensures
        replays(shown(v, span, rs, pos), shown(v, span, rs + more, pos), pos, rs.len() as int),
    decreases v, 0int,
{
    match v {
        Val::Float(b) => lemma_want_text(RequestView::FormatFloat(b), span, rs, more, pos),
        Val::Array(items) => lemma_shown_items(items, 0, "["@, span, rs, more, pos),
        Val::Struct(fields) => lemma_shown_fields(fields, 0, "{"@, span, rs, more, pos),
        _ => {},
    }
}

proof fn lemma_shown_items(
    items: Seq<Val>,
    i: int,
    acc: Seq<char>,
    span: SpanView,
    rs: Seq<ReplyView>,
    more: Seq<ReplyView>,
    pos: int,
)
    requires
        0 <= pos <= rs.len(),
    ensures
        replays(
            shown_items(items, i, acc, span, rs, pos),
            shown_items(items, i, acc, span, rs + more, pos),
            pos,
            rs.len() as int,
        ),
    decreases items, items.len() - i,
{
    if 0 <= i < items.len() {
        lemma_shown(items[i], span, rs, more, pos);
        let sep = if i == 0 { Seq::<char>::empty() } else { ", "@ };
        let (r, p) = shown(items[i], span, rs, pos);
        if let Ok(t) = r {
            lemma_shown_items(items, i + 1, acc + sep + t, span, rs, more, p);
        }
    }
}

proof fn lemma_shown_fields(
    fields: Seq<(Seq<char>, Val)>,
    i: int,
    acc: Seq<char>,
    span: SpanView,
    rs: Seq<ReplyView>,
    more: Seq<ReplyView>,
    pos: int,
)
    requires
        0 <= pos <= rs.len(),
    ensures
        replays(
            shown_fields(fields, i, acc, span, rs, pos),
            shown_fields(fields, i, acc, span, rs + more, pos),
            pos,
            rs.len() as int,
        ),
    decreases fields, fields.len() - i,
{
    if 0 <= i < fields.len() {
        lemma_shown(fields[i].1, span, rs, more, pos);
        let sep = if i == 0 { Seq::<char>::empty() } else { ", "@ };
        let (r, p) = shown(fields[i].1, span, rs, pos);
        if let Ok(t) = r {
            lemma_shown_fields(fields, i + 1, acc + sep + fields[i].0 + ": "@ + t, span, rs, more, p);
        }
    }
}

proof fn lemma_combine(op: BinaryOp, l: Val, r: Val, span: SpanView, rs: Seq<ReplyView>, more: Seq<ReplyView>, pos: int)
    requires
        0 <= pos <= rs.len(),
    ensures
        replays(combine(op, l, r, span, rs, pos), combine(op, l, r, span, rs + more, pos), pos, rs.len() as int),
{
    match op {
        BinaryOp::Eq | BinaryOp::Ne => {},
        BinaryOp::Lt | BinaryOp::Le | BinaryOp::Gt | BinaryOp::Ge => {
            if let (Some(a), Some(b)) = (as_number(l), as_number(r)) {
                lemma_want_bool(RequestView::Compare { op, left: a, right: b }, span, rs, more, pos);
            }
        },
        _ => {
            if op == BinaryOp::Add && (l is Str || r is Str) {
                lemma_shown(l, span, rs, more, pos);
                let (a, p) = shown(l, span, rs, pos);
                if a is Ok {
                    lemma_shown(r, span, rs, more, p);
                }
            } else if let (Some(a), Some(b)) = (as_number(l), as_number(r)) {
                lemma_want_float(RequestView::Arith { op, left: a, right: b }, span, rs, more, pos);
            }
        },
    }
}

proof fn lemma_index_number(iv: Val, span: SpanView, rs: Seq<ReplyView>, more: Seq<ReplyView>, pos: int)
    requires
        0 <= pos <= rs.len(),
    ensures
        replays(index_number(iv, span, rs, pos), index_number(iv, span, rs + more, pos), pos, rs.len() as int),
{
}

/// Evaluation reads the host's replies in order and only as far as it
/// needs: it never reads past the replies it has, it asks only once it
/// has read them all, and when it finishes without asking, more replies
/// after those would change neither its outcome nor how many it read.
pub proof fn law_eval_replay(
    e: Expr,
    scope: Scope,
    locals: Seq<(Seq<char>, Val)>,
    rs: Seq<ReplyView>,
    more: Seq<ReplyView>,
    pos: int,
)
    requires
        0 <= pos <= rs.len(),
    ensures
        replays(
            expr_value(e, scope, locals, rs, pos),
            expr_value(e, scope, locals, rs + more, pos),
            pos,
            rs.len() as int,
        ),
    decreases e, 0int,
{
    match e {
        Expr::Value(x) => {
            if let Literal::Float(t) = x.value {
                lemma_want_float(RequestView::ParseFloat(t@), x.span@, rs, more, pos);
            }
        },
        Expr::Ident(_) => {},
        Expr::Member(x) => lemma_member(x, scope, locals, rs, more, pos),
        Expr::Index(x) => lemma_index(x, scope, locals, rs, more, pos),
        Expr::Call(x) => lemma_call(x, scope, locals, rs, more, pos),
        Expr::Pipe(x) => lemma_pipe(x, scope, locals, rs, more, pos),
        Expr::Binary(x) => lemma_binary(x, scope, locals, rs, more, pos),
        Expr::Unary(x) => lemma_unary(x, scope, locals, rs, more, pos),
        Expr::Array(x) => lemma_list(x.elements@, 0, seq![], scope, locals, rs, more, pos),
        Expr::Object(x) => lemma_object(x, 0, seq![], scope, locals, rs, more, pos),
        Expr::Match(x) => {
            law_eval_replay(*x.expr, scope, locals, rs, more, pos);
            let (s, p) = expr_value(*x.expr, scope, locals, rs, pos);
            if let Ok(subject) = s {
                lemma_match(x, 0, subject, scope, locals, rs, more, p);
            }
        },
    }
}

proof fn lemma_member(x: MemberExpr, scope: Scope, locals: Seq<(Seq<char>, Val)>, rs: Seq<ReplyView>, more: Seq<ReplyView>, pos: int)
    requires
        0 <= pos <= rs.len(),
    ensures
        replays(member_value(x, scope, locals, rs, pos), member_value(x, scope, locals, rs + more, pos), pos, rs.len() as int),
    decreases x, 0int,
{
    law_eval_replay(*x.object, scope, locals, rs, more, pos);
}

proof fn lemma_index(x: IndexExpr, scope: Scope, locals: Seq<(Seq<char>, Val)>, rs: Seq<ReplyView>, more: Seq<ReplyView>, pos: int)
    requires
        0 <= pos <= rs.len(),
    ensures
        replays(index_value(x, scope, locals, rs, pos), index_value(x, scope, locals, rs + more, pos), pos, rs.len() as int),
    decreases x, 0int,
{
    law_eval_replay(*x.object, scope, locals, rs, more, pos);
    let (o, p) = expr_value(*x.object, scope, locals, rs, pos);
    if o is Ok {
        law_eval_replay(*x.index, scope, locals, rs, more, p);
        let (i, q) = expr_value(*x.index, scope, locals, rs, p);
        if let Ok(iv) = i {
            lemma_index_number(iv, x.span@, rs, more, q);
        }
    }
}

proof fn lemma_call(x: CallExpr, scope: Scope, locals: Seq<(Seq<char>, Val)>, rs: Seq<ReplyView>, more: Seq<ReplyView>, pos: int)
    requires
        0 <= pos <= rs.len(),
    ensures
        replays(call_value(x, scope, locals, rs, pos), call_value(x, scope, locals, rs + more, pos), pos, rs.len() as int),
    decreases x, 0int,
{
    if let Expr::Ident(id) = *x.callee {
        if scope.has_func(id.name@) {
            lemma_list(x.args@, 0, seq![], scope, locals, rs, more, pos);
            let (a, p) = list_values(x.args@, 0, seq![], scope, locals, rs, pos);
            if let Ok(args) = a {
                lemma_want_value(RequestView::Func { name: id.name@, args }, x.span@, rs, more, p);
            }
        }
    }
}

proof fn lemma_pipe(x: PipeExpr, scope: Scope, locals: Seq<(Seq<char>, Val)>, rs: Seq<ReplyView>, more: Seq<ReplyView>, pos: int)
    requires
        0 <= pos <= rs.len(),
    ensures
        replays(pipe_value(x, scope, locals, rs, pos), pipe_value(x, scope, locals, rs + more, pos), pos, rs.len() as int),
    decreases x, 0int,
{
    law_eval_replay(*x.value, scope, locals, rs, more, pos);
    let (v, p) = expr_value(*x.value, scope, locals, rs, pos);
    if let Ok(value) = v {
        lemma_list(x.args@, 0, seq![], scope, locals, rs, more, p);
        let (a, q) = list_values(x.args@, 0, seq![], scope, locals, rs, p);
        if let Ok(args) = a {
            lemma_want_value(RequestView::Pipe { name: x.name@, value, args }, x.span@, rs, more, q);
        }
    }
}

proof fn lemma_binary(x: BinaryExpr, scope: Scope, locals: Seq<(Seq<char>, Val)>, rs: Seq<ReplyView>, more: Seq<ReplyView>, pos: int)
    requires
        0 <= pos <= rs.len(),
    ensures
        replays(binary_value(x, scope, locals, rs, pos), binary_value(x, scope, locals, rs + more, pos), pos, rs.len() as int),
    decreases x, 0int,
{
    law_eval_replay(*x.left, scope, locals, rs, more, pos);
    let (l, p) = expr_value(*x.left, scope, locals, rs, pos);
    if let Ok(lv) = l {
        law_eval_replay(*x.right, scope, locals, rs, more, p);
        let (r, q) = expr_value(*x.right, scope, locals, rs, p);
        if let Ok(rv) = r {
            lemma_combine(x.op, lv, rv, x.span@, rs, more, q);
        }
    }
}

proof fn lemma_unary(x: UnaryExpr, scope: Scope, locals: Seq<(Seq<char>, Val)>, rs: Seq<ReplyView>, more: Seq<ReplyView>, pos: int)
    requires
        0 <= pos <= rs.len(),
    ensures
        replays(unary_value(x, scope, locals, rs, pos), unary_value(x, scope, locals, rs + more, pos), pos, rs.len() as int),
    decreases x, 0int,
{
    law_eval_replay(*x.operand, scope, locals, rs, more, pos);
}

proof fn lemma_list(
    es: Seq<Expr>,
    i: int,
    acc: Seq<Val>,
    scope: Scope,
    locals: Seq<(Seq<char>, Val)>,
    rs: Seq<ReplyView>,
    more: Seq<ReplyView>,
    pos: int,
)
    requires
        0 <= pos <= rs.len(),
    ensures
        replays(
            list_values(es, i, acc, scope, locals, rs, pos),
            list_values(es, i, acc, scope, locals, rs + more, pos),
            pos,
            rs.len() as int,
        ),
    decreases es, es.len() - i,
{
    if 0 <= i < es.len() {
        law_eval_replay(es[i], scope, locals, rs, more, pos);
        let (r, p) = expr_value(es[i], scope, locals, rs, pos);
        if let Ok(v) = r {
            lemma_list(es, i + 1, acc.push(v), scope, locals, rs, more, p);
        }
    }
}

proof fn lemma_object(
    x: ObjectExpr,
    i: int,
    acc: Seq<(Seq<char>, Val)>,
    scope: Scope,
    locals: Seq<(Seq<char>, Val)>,
    rs: Seq<ReplyView>,
    more: Seq<ReplyView>,
    pos: int,
)
    requires
        0 <= pos <= rs.len(),
    ensures
        replays(
            object_value(x, i, acc, scope, locals, rs, pos),
            object_value(x, i, acc, scope, locals, rs + more, pos),
            pos,
            rs.len() as int,
        ),
    decreases x, x.entries@.len() - i,
{
    if 0 <= i < x.entries@.len() {
        law_eval_replay(x.entries@[i].1, scope, locals, rs, more, pos);
        let (r, p) = expr_value(x.entries@[i].1, scope, locals, rs, pos);
        if let Ok(v) = r {
            lemma_object(x, i + 1, fields_set(acc, x.entries@[i].0@, v), scope, locals, rs, more, p);
        }
    }
}

proof fn lemma_match(
    x: MatchExpr,
    i: int,
    subject: Val,
    scope: Scope,
    locals: Seq<(Seq<char>, Val)>,
    rs: Seq<ReplyView>,
    more: Seq<ReplyView>,
    pos: int,
)
    requires
        0 <= pos <= rs.len(),
    ensures
        replays(
            match_value(x, i, subject, scope, locals, rs, pos),
            match_value(x, i, subject, scope, locals, rs + more, pos),
            pos,
            rs.len() as int,
        ),
    decreases x, x.arms@.len() - i,
{
    if i < 0 || i >= x.arms@.len() {
        if let Some(d) = x.default {
            law_eval_replay(*d, scope, locals, rs, more, pos);
        }
    } else {
        law_eval_replay(x.arms@[i].pattern, scope, locals, rs, more, pos);
        let (r, p) = expr_value(x.arms@[i].pattern, scope, locals, rs, pos);
        if let Ok(pv) = r {
            if value_eq(subject, pv) {
                law_eval_replay(x.arms@[i].value, scope, locals, rs, more, p);
            } else {
                lemma_match(x, i + 1, subject, scope, locals, rs, more, p);
            }
        }
    }
}


proof fn lemma_include_target(
    x: IncludeNode,
    scope: Scope,
    locals: Seq<(Seq<char>, Val)>,
    rs: Seq<ReplyView>,
    more: Seq<ReplyView>,
    pos: int,
)
    requires
        0 <= pos <= rs.len(),
    ensures
        replays(
            include_target(x, scope, locals, rs, pos),
            include_target(x, scope, locals, rs + more, pos),
            pos,
            rs.len() as int,
        ),
{
    law_eval_replay(x.name, scope, locals, rs, more, pos);
}

/// Rendering reads the host's replies the way evaluation does (see
/// `law_eval_replay`): in order, never past those it has, asking only once
/// it has read them all; a run that finishes without asking ends the same
/// way, at the same place, with more replies after those.
pub proof fn law_render_replay(
    n: Node,
    scope: Scope,
    locals: Seq<(Seq<char>, Val)>,
    depth: int,
    rs: Seq<ReplyView>,
    more: Seq<ReplyView>,
    pos: int,
)
    requires
        0 <= pos <= rs.len(),
    ensures
        replays(
            node_output(n, scope, locals, depth, rs, pos),
            node_output(n, scope, locals, depth, rs + more, pos),
            pos,
            rs.len() as int,
        ),
    decreases MAX_INCLUDE_DEPTH - depth, n, 0int,
{
    match n {
        Node::Text(_) => {},
        Node::Interp(x) => {
            law_eval_replay(x.expr, scope, locals, rs, more, pos);
            let (v, p) = expr_value(x.expr, scope, locals, rs, pos);
            if let Ok(val) = v {
                lemma_shown(val, x.span@, rs, more, p);
            }
        },
        Node::If(x) => lemma_if(x, 0, scope, locals, depth, rs, more, pos),
        Node::For(x) => {
            law_eval_replay(x.iterable, scope, locals, rs, more, pos);
            let (v, p) = expr_value(x.iterable, scope, locals, rs, pos);
            if let Ok(Val::Array(items)) = v {
                lemma_for(x, items, 0, seq![], scope, locals, depth, rs, more, p);
            }
        },
        Node::Switch(x) => {
            law_eval_replay(x.expr, scope, locals, rs, more, pos);
            let (v, p) = expr_value(x.expr, scope, locals, rs, pos);
            if let Ok(subject) = v {
                lemma_switch(x, 0, subject, scope, locals, depth, rs, more, p);
            }
        },
        Node::Match(x) => {
            law_eval_replay(x.expr, scope, locals, rs, more, pos);
            let (v, p) = expr_value(x.expr, scope, locals, rs, pos);
            if let Ok(subject) = v {
                lemma_match_node(x, 0, subject, scope, locals, depth, rs, more, p);
            }
        },
        Node::Include(x) => {
            if depth < MAX_INCLUDE_DEPTH {
                lemma_include_target(x, scope, locals, rs, more, pos);
                let (t, p) = include_target(x, scope, locals, rs, pos);
                if let Ok(tpl) = t {
                    lemma_block(tpl.body(), scope, locals, depth + 1, rs, more, p);
                }
            }
        },
        Node::Block(x) => lemma_block(x, scope, locals, depth, rs, more, pos),
    }
}

proof fn lemma_block(
    b: BlockNode,
    scope: Scope,
    locals: Seq<(Seq<char>, Val)>,
    depth: int,
    rs: Seq<ReplyView>,
    more: Seq<ReplyView>,
    pos: int,
)
    requires
        0 <= pos <= rs.len(),
    ensures
        replays(
            block_output(b, scope, locals, depth, rs, pos),
            block_output(b, scope, locals, depth, rs + more, pos),
            pos,
            rs.len() as int,
        ),
    decreases MAX_INCLUDE_DEPTH - depth, b, 0int,
{
    lemma_nodes(b.nodes@, 0, seq![], scope, locals, depth, rs, more, pos);
}

proof fn lemma_nodes(
    ns: Seq<Node>,
    i: int,
    acc: Seq<char>,
    scope: Scope,
    locals: Seq<(Seq<char>, Val)>,
    depth: int,
    rs: Seq<ReplyView>,
    more: Seq<ReplyView>,
    pos: int,
)
    requires
        0 <= pos <= rs.len(),
    ensures
        replays(
            nodes_output(ns, i, acc, scope, locals, depth, rs, pos),
            nodes_output(ns, i, acc, scope, locals, depth, rs + more, pos),
            pos,
            rs.len() as int,
        ),
    decreases MAX_INCLUDE_DEPTH - depth, ns, ns.len() - i,
{
    if 0 <= i < ns.len() {
        law_render_replay(ns[i], scope, locals, depth, rs, more, pos);
        let (r, p) = node_output(ns[i], scope, locals, depth, rs, pos);
        if let Ok(t) = r {
            lemma_nodes(ns, i + 1, acc + t, scope, locals, depth, rs, more, p);
        }
    }
}

proof fn lemma_if(
    x: IfNode,
    i: int,
    scope: Scope,
    locals: Seq<(Seq<char>, Val)>,
    depth: int,
    rs: Seq<ReplyView>,
    more: Seq<ReplyView>,
    pos: int,
)
    requires
        0 <= pos <= rs.len(),
    ensures
        replays(
            if_output(x, i, scope, locals, depth, rs, pos),
            if_output(x, i, scope, locals, depth, rs + more, pos),
            pos,
            rs.len() as int,
        ),
    decreases MAX_INCLUDE_DEPTH - depth, x, x.branches@.len() - i,
{
    if i < 0 || i >= x.branches@.len() {
        if let Some(b) = x.else_body {
            lemma_block(b, scope, locals, depth, rs, more, pos);
        }
    } else {
        law_eval_replay(x.branches@[i].condition, scope, locals, rs, more, pos);
        let (c, p) = expr_value(x.branches@[i].condition, scope, locals, rs, pos);
        if let Ok(v) = c {
            if truthy(v) {
                lemma_block(x.branches@[i].body, scope, locals, depth, rs, more, p);
            } else {
                lemma_if(x, i + 1, scope, locals, depth, rs, more, p);
            }
        }
    }
}

proof fn lemma_for(
    x: ForNode,
    items: Seq<Val>,
    k: int,
    acc: Seq<char>,
    scope: Scope,
    locals: Seq<(Seq<char>, Val)>,
    depth: int,
    rs: Seq<ReplyView>,
    more: Seq<ReplyView>,
    pos: int,
)
    requires
        0 <= pos <= rs.len(),
    ensures
        replays(
            for_output(x, items, k, acc, scope, locals, depth, rs, pos),
            for_output(x, items, k, acc, scope, locals, depth, rs + more, pos),
            pos,
            rs.len() as int,
        ),
    decreases MAX_INCLUDE_DEPTH - depth, x, items.len() - k,
{
    if 0 <= k < items.len() {
        let inner = locals.push((x.binding@, items[k]));
        lemma_block(x.body, scope, inner, depth, rs, more, pos);
        let (r, p) = block_output(x.body, scope, inner, depth, rs, pos);
        if let Ok(t) = r {
            lemma_for(x, items, k + 1, acc + t, scope, locals, depth, rs, more, p);
        }
    }
}

proof fn lemma_switch(
    x: SwitchNode,
    i: int,
    subject: Val,
    scope: Scope,
    locals: Seq<(Seq<char>, Val)>,
    depth: int,
    rs: Seq<ReplyView>,
    more: Seq<ReplyView>,
    pos: int,
)
    requires
        0 <= pos <= rs.len(),
    ensures
        replays(
            switch_output(x, i, subject, scope, locals, depth, rs, pos),
            switch_output(x, i, subject, scope, locals, depth, rs + more, pos),
            pos,
            rs.len() as int,
        ),
    decreases MAX_INCLUDE_DEPTH - depth, x, x.cases@.len() - i,
{
    if i < 0 || i >= x.cases@.len() {
        if let Some(ns) = x.default {
            lemma_nodes(ns@, 0, seq![], scope, locals, depth, rs, more, pos);
        }
    } else {
        law_eval_replay(x.cases@[i].value, scope, locals, rs, more, pos);
        let (c, p) = expr_value(x.cases@[i].value, scope, locals, rs, pos);
        if let Ok(v) = c {
            if value_eq(subject, v) {
                lemma_nodes(x.cases@[i].body@, 0, seq![], scope, locals, depth, rs, more, p);
            } else {
                lemma_switch(x, i + 1, subject, scope, locals, depth, rs, more, p);
            }
        }
    }
}

proof fn lemma_match_node(
    x: MatchNode,
    i: int,
    subject: Val,
    scope: Scope,
    locals: Seq<(Seq<char>, Val)>,
    depth: int,
    rs: Seq<ReplyView>,
    more: Seq<ReplyView>,
    pos: int,
)
    requires
        0 <= pos <= rs.len(),
    ensures
        replays(
            match_output(x, i, subject, scope, locals, depth, rs, pos),
            match_output(x, i, subject, scope, locals, depth, rs + more, pos),
            pos,
            rs.len() as int,
        ),
    decreases MAX_INCLUDE_DEPTH - depth, x, x.arms@.len() - i,
{
    if i < 0 || i >= x.arms@.len() {
        if let Some(b) = x.default {
            lemma_block(b, scope, locals, depth, rs, more, pos);
        }
    } else {
        law_eval_replay(x.arms@[i].pattern, scope, locals, rs, more, pos);
        let (c, p) = expr_value(x.arms@[i].pattern, scope, locals, rs, pos);
        if let Ok(v) = c {
            if value_eq(subject, v) {
                lemma_block(x.arms@[i].body, scope, locals, depth, rs, more, p);
            } else {
                lemma_match_node(x, i + 1, subject, scope, locals, depth, rs, more, p);
            }
        }
    }
}

/// Rendering a template, as `Template::render` and `Scope::render` do,
/// reads replies in order and asks only once it has read all it was
/// given; when it finishes without asking, more replies after those would
/// not change its outcome. So a host that answers each request by
/// appending its reply, and renders again, gets one step further each
/// time, and the outcome it ends with is the one every longer list of
/// replies gives.
pub proof fn law_template_replay(t: Template, scope: Scope, rs: Seq<ReplyView>, more: Seq<ReplyView>)
    ensures
        replays(
            block_output(t.body(), scope, seq![], 0, rs, 0),
            block_output(t.body(), scope, seq![], 0, rs + more, 0),
            0,
            rs.len() as int,
        ),
{
    lemma_block(t.body(), scope, seq![], 0, rs, more, 0);
}

/// Parsing is a function of the source: any two outcomes that parsing
/// one source may give (by `crate::parser::parse` or `Template::parse`)
/// agree. Both succeed or both fail; two templates have the same source
/// and the same tree; two errors refer to the source and, where it is not
/// too long, have the same span and message.
pub proof fn law_parse_is_a_function(
    s: Seq<char>,
    a: Result<Template, ParseError>,
    b: Result<Template, ParseError>,
)
    requires
        parse_model(s, a),
        parse_model(s, b),
    ensures
        a is Ok <==> b is Ok,
        match (a, b) {
            (Ok(x), Ok(y)) => x.source() == y.source() && block_view(x.body()) == block_view(
                y.body(),
            ),
            (Err(x), Err(y)) => x.span.src@ == y.span.src@ && (blen(s) < usize::MAX - 2 ==> fault_of(
                x,
            ) == fault_of(y)),
            _ => true,
        },
{
    if blen(s) < usize::MAX - 2 {
        match template_model(s) {
            Ok(m) => {
                assert(a matches Ok(x) && block_view(x.body()) == m);
                assert(b matches Ok(y) && block_view(y.body()) == m);
            },
            Err(f) => {
                assert(a matches Err(x) && fault_of(x) == f);
                assert(b matches Err(y) && fault_of(y) == f);
            },
        }
    }
}

} // verus!
