//! Mathematical models of syntax trees: the shape of each expression, its
//! names and literals, and the span `(start, end)` of each part.

use vstd::prelude::*;

use crate::ast::{
    BlockNode, Expr, IfBranch, Literal, MatchArm, MatchNodeArm, Node, SwitchCase,
};
use crate::op::{BinaryOp, UnaryOp};
use crate::span::Span;

verus! {

/// The model of a literal.
pub enum LitV {
    Null,
    Bool(bool),
    Int(i64),
    Float(Seq<char>),
    Str(Seq<char>),
}

/// The model of an expression.
pub enum ExprV {
    Value { value: LitV, span: (int, int) },
    Ident { name: Seq<char>, span: (int, int) },
    Member { object: Box<ExprV>, field: Seq<char>, span: (int, int) },
    Index { object: Box<ExprV>, index: Box<ExprV>, span: (int, int) },
    Call { callee: Box<ExprV>, args: Seq<ExprV>, span: (int, int) },
    Pipe { value: Box<ExprV>, name: Seq<char>, args: Seq<ExprV>, span: (int, int) },
    Binary { left: Box<ExprV>, op: BinaryOp, right: Box<ExprV>, span: (int, int) },
    Unary { op: UnaryOp, operand: Box<ExprV>, span: (int, int) },
    Array { elements: Seq<ExprV>, span: (int, int) },
    Object { entries: Seq<(Seq<char>, ExprV)>, span: (int, int) },
    Match {
        subject: Box<ExprV>,
        arms: Seq<(ExprV, ExprV, (int, int))>,
        default: Option<Box<ExprV>>,
        span: (int, int),
    },
}

/// A span as a pair of positions.
pub open spec fn span_v(sp: Span) -> (int, int) {
    (sp.start as int, sp.end as int)
}

/// The smallest span that covers both.
pub open spec fn join(a: (int, int), b: (int, int)) -> (int, int) {
    (if a.0 <= b.0 {
        a.0
    } else {
        b.0
    }, if a.1 >= b.1 {
        a.1
    } else {
        b.1
    })
}

pub open spec fn lit_view(l: Literal) -> LitV {
    match l {
        Literal::Null => LitV::Null,
        Literal::Bool(b) => LitV::Bool(b),
        Literal::Int(i) => LitV::Int(i),
        Literal::Float(t) => LitV::Float(t@),
        Literal::String(t) => LitV::Str(t@),
    }
}

/// The model of an expression.
pub open spec fn expr_view(e: Expr) -> ExprV
    decreases e,
{
    match e {
        Expr::Value(x) => ExprV::Value { value: lit_view(x.value), span: span_v(x.span) },
        Expr::Ident(x) => ExprV::Ident { name: x.name@, span: span_v(x.span) },
        Expr::Member(x) => ExprV::Member {
            object: Box::new(expr_view(*x.object)),
            field: x.field@,
            span: span_v(x.span),
        },
        Expr::Index(x) => ExprV::Index {
            object: Box::new(expr_view(*x.object)),
            index: Box::new(expr_view(*x.index)),
            span: span_v(x.span),
        },
        Expr::Call(x) => ExprV::Call {
            callee: Box::new(expr_view(*x.callee)),
            args: exprs_view(x.args@),
            span: span_v(x.span),
        },
        Expr::Pipe(x) => ExprV::Pipe {
            value: Box::new(expr_view(*x.value)),
            name: x.name@,
            args: exprs_view(x.args@),
            span: span_v(x.span),
        },
        Expr::Binary(x) => ExprV::Binary {
            left: Box::new(expr_view(*x.left)),
            op: x.op,
            right: Box::new(expr_view(*x.right)),
            span: span_v(x.span),
        },
        Expr::Unary(x) => ExprV::Unary {
            op: x.op,
            operand: Box::new(expr_view(*x.operand)),
            span: span_v(x.span),
        },
        Expr::Array(x) => ExprV::Array { elements: exprs_view(x.elements@), span: span_v(x.span) },
        Expr::Object(x) => ExprV::Object { entries: entries_view(x.entries@), span: span_v(x.span) },
        Expr::Match(x) => ExprV::Match {
            subject: Box::new(expr_view(*x.expr)),
            arms: arms_view(x.arms@),
            default: match x.default {
                Some(d) => Some(Box::new(expr_view(*d))),
                None => None,
            },
            span: span_v(x.span),
        },
    }
}

/// The models of a sequence of expressions.
pub open spec fn exprs_view(es: Seq<Expr>) -> Seq<ExprV>
    decreases es,
{
    if es.len() == 0 {
        Seq::empty()
    } else {
        seq![expr_view(es[0])] + exprs_view(es.drop_first())
    }
}

/// The models of the entries of an object literal.
pub open spec fn entries_view(es: Seq<(String, Expr)>) -> Seq<(Seq<char>, ExprV)>
    decreases es,
{
    if es.len() == 0 {
        Seq::empty()
    } else {
        seq![(es[0].0@, expr_view(es[0].1))] + entries_view(es.drop_first())
    }
}

/// The models of the arms of a match expression.
pub open spec fn arms_view(arms: Seq<MatchArm>) -> Seq<(ExprV, ExprV, (int, int))>
    decreases arms,
{
    if arms.len() == 0 {
        Seq::empty()
    } else {
        seq![(expr_view(arms[0].pattern), expr_view(arms[0].value), span_v(arms[0].span))]
            + arms_view(arms.drop_first())
    }
}

/// The span of an expression's model.
pub open spec fn span_of(e: ExprV) -> (int, int) {
    match e {
        ExprV::Value { span, .. } => span,
        ExprV::Ident { span, .. } => span,
        ExprV::Member { span, .. } => span,
        ExprV::Index { span, .. } => span,
        ExprV::Call { span, .. } => span,
        ExprV::Pipe { span, .. } => span,
        ExprV::Binary { span, .. } => span,
        ExprV::Unary { span, .. } => span,
        ExprV::Array { span, .. } => span,
        ExprV::Object { span, .. } => span,
        ExprV::Match { span, .. } => span,
    }
}

/// The model with its outermost span replaced.
pub open spec fn respan(e: ExprV, sp: (int, int)) -> ExprV {
    match e {
        ExprV::Value { value, .. } => ExprV::Value { value, span: sp },
        ExprV::Ident { name, .. } => ExprV::Ident { name, span: sp },
        ExprV::Member { object, field, .. } => ExprV::Member { object, field, span: sp },
        ExprV::Index { object, index, .. } => ExprV::Index { object, index, span: sp },
        ExprV::Call { callee, args, .. } => ExprV::Call { callee, args, span: sp },
        ExprV::Pipe { value, name, args, .. } => ExprV::Pipe { value, name, args, span: sp },
        ExprV::Binary { left, op, right, .. } => ExprV::Binary { left, op, right, span: sp },
        ExprV::Unary { op, operand, .. } => ExprV::Unary { op, operand, span: sp },
        ExprV::Array { elements, .. } => ExprV::Array { elements, span: sp },
        ExprV::Object { entries, .. } => ExprV::Object { entries, span: sp },
        ExprV::Match { subject, arms, default, .. } => ExprV::Match { subject, arms, default, span: sp },
    }
}

/// The span of an expression's model is the expression's span.
pub broadcast proof fn lemma_span_of_view(e: Expr)
    ensures
        #[trigger] span_of(expr_view(e)) == span_v(crate::ast::expr_span(e)),
{
}

/// `exprs_view` is the model of each expression, in order.
pub proof fn lemma_exprs_view(es: Seq<Expr>)
    ensures
        exprs_view(es).len() == es.len(),
        forall|i: int| 0 <= i < es.len() ==> #[trigger] exprs_view(es)[i] == expr_view(es[i]),
    decreases es.len(),
{
    if es.len() > 0 {
        lemma_exprs_view(es.drop_first());
    }
}

/// Pushing an expression pushes its model.
pub proof fn lemma_exprs_view_push(es: Seq<Expr>, e: Expr)
    ensures
        exprs_view(es.push(e)) == exprs_view(es).push(expr_view(e)),
{
    lemma_exprs_view(es);
    lemma_exprs_view(es.push(e));
    assert(exprs_view(es.push(e)) =~= exprs_view(es).push(expr_view(e)));
}

/// `entries_view` is the model of each entry, in order.
pub proof fn lemma_entries_view(es: Seq<(String, Expr)>)
    ensures
        entries_view(es).len() == es.len(),
        forall|i: int|
            0 <= i < es.len() ==> #[trigger] entries_view(es)[i] == (es[i].0@, expr_view(es[i].1)),
    decreases es.len(),
{
    if es.len() > 0 {
        lemma_entries_view(es.drop_first());
    }
}

/// Pushing an entry pushes its model.
pub proof fn lemma_entries_view_push(es: Seq<(String, Expr)>, e: (String, Expr))
    ensures
        entries_view(es.push(e)) == entries_view(es).push((e.0@, expr_view(e.1))),
{
    lemma_entries_view(es);
    lemma_entries_view(es.push(e));
    assert(entries_view(es.push(e)) =~= entries_view(es).push((e.0@, expr_view(e.1))));
}

/// The model of a block: its nodes and its span.
pub struct BlockV {
    pub nodes: Seq<NodeV>,
    pub span: (int, int),
}

/// The model of a template node.
pub enum NodeV {
    Text { text: Seq<char>, span: (int, int) },
    Interp { expr: ExprV, span: (int, int) },
    If {
        branches: Seq<(ExprV, BlockV, (int, int))>,
        else_body: Option<BlockV>,
        span: (int, int),
    },
    For { binding: Seq<char>, iterable: ExprV, track: ExprV, body: BlockV, span: (int, int) },
    Switch {
        subject: ExprV,
        cases: Seq<(ExprV, Seq<NodeV>, (int, int))>,
        default: Option<Seq<NodeV>>,
        span: (int, int),
    },
    Match {
        subject: ExprV,
        arms: Seq<(ExprV, BlockV, (int, int))>,
        default: Option<BlockV>,
        span: (int, int),
    },
    Include { name: ExprV, span: (int, int) },
    Block(BlockV),
}

/// The model of a node.
pub open spec fn node_view(n: Node) -> NodeV
    decreases n,
{
    match n {
        Node::Text(x) => NodeV::Text { text: x.text@, span: span_v(x.span) },
        Node::Interp(x) => NodeV::Interp { expr: expr_view(x.expr), span: span_v(x.span) },
        Node::If(x) => NodeV::If {
            branches: branches_view(x.branches@),
            else_body: match x.else_body {
                Some(b) => Some(block_view(b)),
                None => None,
            },
            span: span_v(x.span),
        },
        Node::For(x) => NodeV::For {
            binding: x.binding@,
            iterable: expr_view(x.iterable),
            track: expr_view(x.track),
            body: block_view(x.body),
            span: span_v(x.span),
        },
        Node::Switch(x) => NodeV::Switch {
            subject: expr_view(x.expr),
            cases: cases_view(x.cases@),
            default: match x.default {
                Some(ns) => Some(nodes_view(ns@)),
                None => None,
            },
            span: span_v(x.span),
        },
        Node::Match(x) => NodeV::Match {
            subject: expr_view(x.expr),
            arms: node_arms_view(x.arms@),
            default: match x.default {
                Some(b) => Some(block_view(b)),
                None => None,
            },
            span: span_v(x.span),
        },
        Node::Include(x) => NodeV::Include { name: expr_view(x.name), span: span_v(x.span) },
        Node::Block(x) => NodeV::Block(block_view(x)),
    }
}

/// The models of a sequence of nodes.
pub open spec fn nodes_view(ns: Seq<Node>) -> Seq<NodeV>
    decreases ns,
{
    if ns.len() == 0 {
        Seq::empty()
    } else {
        seq![node_view(ns[0])] + nodes_view(ns.drop_first())
    }
}

/// The model of a block.
pub open spec fn block_view(b: BlockNode) -> BlockV
    decreases b,
{
    BlockV { nodes: nodes_view(b.nodes@), span: span_v(b.span) }
}

/// The models of the branches of an `@if`.
pub open spec fn branches_view(bs: Seq<IfBranch>) -> Seq<(ExprV, BlockV, (int, int))>
    decreases bs,
{
    if bs.len() == 0 {
        Seq::empty()
    } else {
        seq![(expr_view(bs[0].condition), block_view(bs[0].body), span_v(bs[0].span))]
            + branches_view(bs.drop_first())
    }
}

/// The models of the cases of an `@switch`.
pub open spec fn cases_view(cs: Seq<SwitchCase>) -> Seq<(ExprV, Seq<NodeV>, (int, int))>
    decreases cs,
{
    if cs.len() == 0 {
        Seq::empty()
    } else {
        seq![(expr_view(cs[0].value), nodes_view(cs[0].body@), span_v(cs[0].span))]
            + cases_view(cs.drop_first())
    }
}

/// The models of the arms of an `@match`.
pub open spec fn node_arms_view(arms: Seq<MatchNodeArm>) -> Seq<(ExprV, BlockV, (int, int))>
    decreases arms,
{
    if arms.len() == 0 {
        Seq::empty()
    } else {
        seq![(expr_view(arms[0].pattern), block_view(arms[0].body), span_v(arms[0].span))]
            + node_arms_view(arms.drop_first())
    }
}

/// The span of a node's model.
pub open spec fn node_span_of(n: NodeV) -> (int, int) {
    match n {
        NodeV::Text { span, .. } => span,
        NodeV::Interp { span, .. } => span,
        NodeV::If { span, .. } => span,
        NodeV::For { span, .. } => span,
        NodeV::Switch { span, .. } => span,
        NodeV::Match { span, .. } => span,
        NodeV::Include { span, .. } => span,
        NodeV::Block(b) => b.span,
    }
}

/// The span of a node's model is the node's span.
pub broadcast proof fn lemma_node_span_of_view(n: Node)
    ensures
        #[trigger] node_span_of(node_view(n)) == span_v(crate::ast::node_span(n)),
{
}

/// `nodes_view` is the model of each node, in order.
pub proof fn lemma_nodes_view(ns: Seq<Node>)
    ensures
        nodes_view(ns).len() == ns.len(),
        forall|i: int| 0 <= i < ns.len() ==> #[trigger] nodes_view(ns)[i] == node_view(ns[i]),
    decreases ns.len(),
{
    if ns.len() > 0 {
        lemma_nodes_view(ns.drop_first());
    }
}

/// Pushing a node pushes its model.
pub proof fn lemma_nodes_view_push(ns: Seq<Node>, n: Node)
    ensures
        nodes_view(ns.push(n)) == nodes_view(ns).push(node_view(n)),
{
    lemma_nodes_view(ns);
    lemma_nodes_view(ns.push(n));
    assert(nodes_view(ns.push(n)) =~= nodes_view(ns).push(node_view(n)));
}

/// `branches_view` is the model of each branch, in order.
pub proof fn lemma_branches_view(bs: Seq<IfBranch>)
    ensures
        branches_view(bs).len() == bs.len(),
        forall|i: int|
            0 <= i < bs.len() ==> #[trigger] branches_view(bs)[i] == (
                expr_view(bs[i].condition),
                block_view(bs[i].body),
                span_v(bs[i].span),
            ),
    decreases bs.len(),
{
    if bs.len() > 0 {
        lemma_branches_view(bs.drop_first());
    }
}

/// Pushing a branch pushes its model.
pub proof fn lemma_branches_view_push(bs: Seq<IfBranch>, b: IfBranch)
    ensures
        branches_view(bs.push(b)) == branches_view(bs).push(
            (expr_view(b.condition), block_view(b.body), span_v(b.span)),
        ),
{
    lemma_branches_view(bs);
    lemma_branches_view(bs.push(b));
    assert(branches_view(bs.push(b)) =~= branches_view(bs).push(
        (expr_view(b.condition), block_view(b.body), span_v(b.span)),
    ));
}

/// `cases_view` is the model of each case, in order.
pub proof fn lemma_cases_view(cs: Seq<SwitchCase>)
    ensures
        cases_view(cs).len() == cs.len(),
        forall|i: int|
            0 <= i < cs.len() ==> #[trigger] cases_view(cs)[i] == (
                expr_view(cs[i].value),
                nodes_view(cs[i].body@),
                span_v(cs[i].span),
            ),
    decreases cs.len(),
{
    if cs.len() > 0 {
        lemma_cases_view(cs.drop_first());
    }
}

/// Pushing a case pushes its model.
pub proof fn lemma_cases_view_push(cs: Seq<SwitchCase>, c: SwitchCase)
    ensures
        cases_view(cs.push(c)) == cases_view(cs).push(
            (expr_view(c.value), nodes_view(c.body@), span_v(c.span)),
        ),
{
    lemma_cases_view(cs);
    lemma_cases_view(cs.push(c));
    assert(cases_view(cs.push(c)) =~= cases_view(cs).push(
        (expr_view(c.value), nodes_view(c.body@), span_v(c.span)),
    ));
}

/// `node_arms_view` is the model of each arm, in order.
pub proof fn lemma_node_arms_view(arms: Seq<MatchNodeArm>)
    ensures
        node_arms_view(arms).len() == arms.len(),
        forall|i: int|
            0 <= i < arms.len() ==> #[trigger] node_arms_view(arms)[i] == (
                expr_view(arms[i].pattern),
                block_view(arms[i].body),
                span_v(arms[i].span),
            ),
    decreases arms.len(),
{
    if arms.len() > 0 {
        lemma_node_arms_view(arms.drop_first());
    }
}

/// Pushing an arm pushes its model.
pub proof fn lemma_node_arms_view_push(arms: Seq<MatchNodeArm>, a: MatchNodeArm)
    ensures
        node_arms_view(arms.push(a)) == node_arms_view(arms).push(
            (expr_view(a.pattern), block_view(a.body), span_v(a.span)),
        ),
{
    lemma_node_arms_view(arms);
    lemma_node_arms_view(arms.push(a));
    assert(node_arms_view(arms.push(a)) =~= node_arms_view(arms).push(
        (expr_view(a.pattern), block_view(a.body), span_v(a.span)),
    ));
}

} // verus!
