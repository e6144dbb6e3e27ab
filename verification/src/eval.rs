//! Evaluation of expressions.
//!
//! `expr_value` and the spec functions it calls state what an expression
//! evaluates to, given a scope, the bindings of the enclosing `@for`
//! loops (`locals`, innermost last) and the host's replies read so far
//! (see `crate::host`); each also gives the position of the next unread
//! reply. The `eval` methods compute exactly that.

use vstd::prelude::*;

use crate::ast::{
    ArrayExpr, BinaryExpr, CallExpr, Expr, IdentExpr, IndexExpr, Literal, MatchExpr, MemberExpr,
    ObjectExpr, PipeExpr, UnaryExpr, ValueExpr,
};
use crate::display::{display_value, shown};
use crate::error::{ErrorKindView, ErrorView, EvalError, EvalErrorKind, SpanView};
use crate::host::{
    ask_bool, ask_float, ask_value, replies_view, val_out, want_bool, want_float,
    want_value, Halt, Number, Reply, ReplyView, Request, RequestView, Stop,
};
use crate::op::{BinaryOp, UnaryOp};
use crate::scope::Scope;
use crate::span::Span;
use crate::text::{chars_eq, chars_of};
use crate::value::{
    field_get, field_of, field_set, fields_set, fields_view, float_is_zero, float_is_zero_exec,
    float_neg, items_view, kind_name, lemma_fields_view,
    lemma_items_view, lemma_items_view_push, truthy, value_eq, value_order, value_order_exec,
    Order, Val, Value,
};

verus! {

/// The innermost loop binding of `name`, if there is one.
pub open spec fn local_of(locals: Seq<(Seq<char>, Val)>, name: Seq<char>) -> Option<Val>
    decreases locals.len(),
{
    if locals.len() == 0 {
        None
    } else if locals.last().0 == name {
        Some(locals.last().1)
    } else {
        local_of(locals.drop_last(), name)
    }
}

/// The value of `name`: a loop binding shadows a scope variable.
pub open spec fn lookup(scope: Scope, locals: Seq<(Seq<char>, Val)>, name: Seq<char>) -> Option<
    Val,
> {
    match local_of(locals, name) {
        Some(v) => Some(v),
        None => scope.var_of(name),
    }
}

/// A failure of the given kind at `span`.
pub open spec fn fail(kind: ErrorKindView, span: SpanView) -> Halt {
    Halt::Fail(ErrorView { kind, span })
}

/// A type error: `expected` was wanted and `v` was found.
pub open spec fn type_error(expected: Seq<char>, v: Val, span: SpanView) -> Halt {
    fail(ErrorKindView::TypeError { expected, got: kind_name(v) }, span)
}

/// The number a value holds, if it is one.
pub open spec fn as_number(v: Val) -> Option<Number> {
    match v {
        Val::Int(i) => Some(Number::Int(i)),
        Val::Float(b) => Some(Number::Float(b)),
        _ => None,
    }
}

/// Whether a number is zero (a float zero of either sign).
pub open spec fn number_is_zero(n: Number) -> bool {
    match n {
        Number::Int(i) => i == 0,
        Number::Float(b) => float_is_zero(b),
    }
}

/// Whether an integer converts to a float without rounding.
pub open spec fn exact_int(i: i64) -> bool {
    -0x20_0000_0000_0000 <= i <= 0x20_0000_0000_0000
}

/// Integer division truncating toward zero; `i64::MIN / -1` wraps to
/// `i64::MIN`.
pub open spec fn int_div(a: i64, b: i64) -> i64 {
    match a.checked_div(b) {
        Some(q) => q,
        None => i64::MIN,
    }
}

/// The remainder of `int_div`; `i64::MIN % -1` is `0`.
pub open spec fn int_rem(a: i64, b: i64) -> i64 {
    match a.checked_rem(b) {
        Some(r) => r,
        None => 0,
    }
}

/// Negation; `-i64::MIN` wraps to `i64::MIN`.
pub open spec fn int_neg(i: i64) -> i64 {
    if i == i64::MIN {
        i64::MIN
    } else {
        (0 - i) as i64
    }
}

/// Integer `+ - * / %` with wrapping (for `/` and `%`, `b != 0`).
pub open spec fn int_arith(op: BinaryOp, a: i64, b: i64) -> i64 {
    match op {
        BinaryOp::Add => a.wrapping_add(b),
        BinaryOp::Sub => a.wrapping_sub(b),
        BinaryOp::Mul => a.wrapping_mul(b),
        BinaryOp::Div => int_div(a, b),
        _ => int_rem(a, b),
    }
}

/// Whether an ordering satisfies `op` (one of `< <= > >=`); unordered
/// values satisfy none.
pub open spec fn holds(op: BinaryOp, o: Option<Order>) -> bool {
    match (op, o) {
        (BinaryOp::Lt, Some(Order::Less)) => true,
        (BinaryOp::Le, Some(Order::Less)) => true,
        (BinaryOp::Le, Some(Order::Equal)) => true,
        (BinaryOp::Gt, Some(Order::Greater)) => true,
        (BinaryOp::Ge, Some(Order::Greater)) => true,
        (BinaryOp::Ge, Some(Order::Equal)) => true,
        _ => false,
    }
}

/// `a op b` for one of `< <= > >=` on integers.
pub open spec fn int_compare(op: BinaryOp, a: i64, b: i64) -> bool {
    match op {
        BinaryOp::Lt => a < b,
        BinaryOp::Le => a <= b,
        BinaryOp::Gt => a > b,
        _ => a >= b,
    }
}

/// `l op r` for `+ - * / %` once neither side is a string: both must be
/// numbers; integers wrap, division by zero fails, and floats go to the
/// host.
pub open spec fn arith(op: BinaryOp, l: Val, r: Val, span: SpanView, rs: Seq<ReplyView>, pos: int) -> (
    Result<Val, Halt>,
    int,
) {
    match (as_number(l), as_number(r)) {
        (None, _) => (Err(type_error("number"@, l, span)), pos),
        (Some(_), None) => (Err(type_error("number"@, r, span)), pos),
        (Some(a), Some(b)) => if (op == BinaryOp::Div || op == BinaryOp::Mod) && number_is_zero(b) {
            (Err(fail(ErrorKindView::DivisionByZero, span)), pos)
        } else {
            match (a, b) {
                (Number::Int(x), Number::Int(y)) => (Ok(Val::Int(int_arith(op, x, y))), pos),
                _ => {
                    let (f, p) = want_float(RequestView::Arith { op, left: a, right: b }, span, rs, pos);
                    match f {
                        Ok(bits) => (Ok(Val::Float(bits)), p),
                        Err(h) => (Err(h), p),
                    }
                },
            }
        },
    }
}

/// `l op r` for `< <= > >=`: numbers compare by value (integers that a
/// float holds exactly are compared here, anything else by the host),
/// other values by `value_order`.
pub open spec fn compare(op: BinaryOp, l: Val, r: Val, span: SpanView, rs: Seq<ReplyView>, pos: int) -> (
    Result<Val, Halt>,
    int,
) {
    match (as_number(l), as_number(r)) {
        (Some(a), Some(b)) => match (a, b) {
            (Number::Int(x), Number::Int(y)) if exact_int(x) && exact_int(y) => (
                Ok(Val::Bool(int_compare(op, x, y))),
                pos,
            ),
            _ => {
                let (c, p) = want_bool(RequestView::Compare { op, left: a, right: b }, span, rs, pos);
                match c {
                    Ok(t) => (Ok(Val::Bool(t)), p),
                    Err(h) => (Err(h), p),
                }
            },
        },
        _ => (Ok(Val::Bool(holds(op, value_order(l, r)))), pos),
    }
}

/// The value of `l op r` for an operator other than `&&` and `||`.
pub open spec fn combine(op: BinaryOp, l: Val, r: Val, span: SpanView, rs: Seq<ReplyView>, pos: int) -> (
    Result<Val, Halt>,
    int,
) {
    match op {
        BinaryOp::Eq => (Ok(Val::Bool(value_eq(l, r))), pos),
        BinaryOp::Ne => (Ok(Val::Bool(!value_eq(l, r))), pos),
        BinaryOp::Lt | BinaryOp::Le | BinaryOp::Gt | BinaryOp::Ge => compare(op, l, r, span, rs, pos),
        _ => if op == BinaryOp::Add && (l is Str || r is Str) {
            let (a, p) = shown(l, span, rs, pos);
            match a {
                Err(h) => (Err(h), p),
                Ok(ta) => {
                    let (b, q) = shown(r, span, rs, p);
                    match b {
                        Err(h) => (Err(h), q),
                        Ok(tb) => (Ok(Val::Str(ta + tb)), q),
                    }
                },
            }
        } else {
            arith(op, l, r, span, rs, pos)
        },
    }
}

/// An array index: a non-negative integer. Any other number, a float
/// included, is an invalid index.
pub open spec fn index_number(iv: Val, span: SpanView, rs: Seq<ReplyView>, pos: int) -> (
    Result<usize, Halt>,
    int,
) {
    match iv {
        Val::Int(i) => if i >= 0 {
            (Ok(i as usize), pos)
        } else {
            (Err(fail(ErrorKindView::InvalidIndex, span)), pos)
        },
        Val::Float(_) => (Err(fail(ErrorKindView::InvalidIndex, span)), pos),
        _ => (Err(type_error("number"@, iv, span)), pos),
    }
}

/// The value of a literal; a float literal's text is parsed by the host.
pub open spec fn literal_value(x: ValueExpr, rs: Seq<ReplyView>, pos: int) -> (Result<Val, Halt>, int) {
    match x.value {
        Literal::Null => (Ok(Val::Null), pos),
        Literal::Bool(b) => (Ok(Val::Bool(b)), pos),
        Literal::Int(i) => (Ok(Val::Int(i)), pos),
        Literal::String(s) => (Ok(Val::Str(s@)), pos),
        Literal::Float(t) => {
            let (f, p) = want_float(RequestView::ParseFloat(t@), x.span@, rs, pos);
            match f {
                Ok(bits) => (Ok(Val::Float(bits)), p),
                Err(h) => (Err(h), p),
            }
        },
    }
}

/// The value of an expression.
pub open spec fn expr_value(
    e: Expr,
    scope: Scope,
    locals: Seq<(Seq<char>, Val)>,
    rs: Seq<ReplyView>,
    pos: int,
) -> (Result<Val, Halt>, int)
    decreases e, 0int,
{
    match e {
        Expr::Value(x) => literal_value(x, rs, pos),
        Expr::Ident(x) => match lookup(scope, locals, x.name@) {
            Some(v) => (Ok(v), pos),
            None => (Err(fail(ErrorKindView::UndefinedVariable(x.name@), x.span@)), pos),
        },
        Expr::Member(x) => member_value(x, scope, locals, rs, pos),
        Expr::Index(x) => index_value(x, scope, locals, rs, pos),
        Expr::Call(x) => call_value(x, scope, locals, rs, pos),
        Expr::Pipe(x) => pipe_value(x, scope, locals, rs, pos),
        Expr::Binary(x) => binary_value(x, scope, locals, rs, pos),
        Expr::Unary(x) => unary_value(x, scope, locals, rs, pos),
        Expr::Array(x) => {
            let (r, p) = list_values(x.elements@, 0, seq![], scope, locals, rs, pos);
            match r {
                Ok(vs) => (Ok(Val::Array(vs)), p),
                Err(h) => (Err(h), p),
            }
        },
        Expr::Object(x) => object_value(x, 0, seq![], scope, locals, rs, pos),
        Expr::Match(x) => {
            let (s, p) = expr_value(*x.expr, scope, locals, rs, pos);
            match s {
                Ok(subject) => match_value(x, 0, subject, scope, locals, rs, p),
                Err(h) => (Err(h), p),
            }
        },
    }
}

/// `a.b`: the field of a struct.
pub open spec fn member_value(
    x: MemberExpr,
    scope: Scope,
    locals: Seq<(Seq<char>, Val)>,
    rs: Seq<ReplyView>,
    pos: int,
) -> (Result<Val, Halt>, int)
    decreases x, 0int,
{
    let (o, p) = expr_value(*x.object, scope, locals, rs, pos);
    match o {
        Err(h) => (Err(h), p),
        Ok(v) => match v {
            Val::Struct(fields) => match field_of(fields, x.field@) {
                Some(f) => (Ok(f), p),
                None => (Err(fail(ErrorKindView::UndefinedField(x.field@), x.span@)), p),
            },
            _ => (Err(type_error("struct"@, v, x.span@)), p),
        },
    }
}

/// `a[i]`: the element of an array.
pub open spec fn index_value(
    x: IndexExpr,
    scope: Scope,
    locals: Seq<(Seq<char>, Val)>,
    rs: Seq<ReplyView>,
    pos: int,
) -> (Result<Val, Halt>, int)
    decreases x, 0int,
{
    let (o, p) = expr_value(*x.object, scope, locals, rs, pos);
    match o {
        Err(h) => (Err(h), p),
        Ok(ov) => {
            let (i, q) = expr_value(*x.index, scope, locals, rs, p);
            match i {
                Err(h) => (Err(h), q),
                Ok(iv) => match ov {
                    Val::Array(items) => {
                        let (n, t) = index_number(iv, x.span@, rs, q);
                        match n {
                            Err(h) => (Err(h), t),
                            Ok(k) => if k < items.len() {
                                (Ok(items[k as int]), t)
                            } else {
                                (
                                    Err(
                                        fail(
                                            ErrorKindView::IndexOutOfBounds {
                                                index: k,
                                                len: items.len() as usize,
                                            },
                                            x.span@,
                                        ),
                                    ),
                                    t,
                                )
                            },
                        }
                    },
                    _ => (Err(type_error("array"@, ov, x.span@)), q),
                },
            }
        },
    }
}

/// `f(a, b)`: a call of a function the host provides.
pub open spec fn call_value(
    x: CallExpr,
    scope: Scope,
    locals: Seq<(Seq<char>, Val)>,
    rs: Seq<ReplyView>,
    pos: int,
) -> (Result<Val, Halt>, int)
    decreases x, 0int,
{
    match *x.callee {
        Expr::Ident(id) => if scope.has_func(id.name@) {
            let (a, p) = list_values(x.args@, 0, seq![], scope, locals, rs, pos);
            match a {
                Err(h) => (Err(h), p),
                Ok(args) => want_value(
                    RequestView::Func { name: id.name@, args },
                    x.span@,
                    rs,
                    p,
                ),
            }
        } else {
            (Err(fail(ErrorKindView::NotCallable, x.span@)), pos)
        },
        _ => (Err(fail(ErrorKindView::NotCallable, x.span@)), pos),
    }
}

/// `v | name:arg`: a pipe the host provides, applied to a value.
pub open spec fn pipe_value(
    x: PipeExpr,
    scope: Scope,
    locals: Seq<(Seq<char>, Val)>,
    rs: Seq<ReplyView>,
    pos: int,
) -> (Result<Val, Halt>, int)
    decreases x, 0int,
{
    let (v, p) = expr_value(*x.value, scope, locals, rs, pos);
    match v {
        Err(h) => (Err(h), p),
        Ok(value) => {
            let (a, q) = list_values(x.args@, 0, seq![], scope, locals, rs, p);
            match a {
                Err(h) => (Err(h), q),
                Ok(args) => if scope.has_pipe(x.name@) {
                    want_value(RequestView::Pipe { name: x.name@, value, args }, x.span@, rs, q)
                } else {
                    (Err(fail(ErrorKindView::UndefinedPipe(x.name@), x.span@)), q)
                },
            }
        },
    }
}

/// `a op b`. `&&` and `||` evaluate the right side only when the left
/// side does not decide, and give the deciding operand itself.
pub open spec fn binary_value(
    x: BinaryExpr,
    scope: Scope,
    locals: Seq<(Seq<char>, Val)>,
    rs: Seq<ReplyView>,
    pos: int,
) -> (Result<Val, Halt>, int)
    decreases x, 0int,
{
    let (l, p) = expr_value(*x.left, scope, locals, rs, pos);
    match l {
        Err(h) => (Err(h), p),
        Ok(lv) => if x.op == BinaryOp::And && !truthy(lv) {
            (Ok(lv), p)
        } else if x.op == BinaryOp::Or && truthy(lv) {
            (Ok(lv), p)
        } else if x.op == BinaryOp::And || x.op == BinaryOp::Or {
            expr_value(*x.right, scope, locals, rs, p)
        } else {
            let (r, q) = expr_value(*x.right, scope, locals, rs, p);
            match r {
                Err(h) => (Err(h), q),
                Ok(rv) => combine(x.op, lv, rv, x.span@, rs, q),
            }
        },
    }
}

/// `!a` and `-a`.
pub open spec fn unary_value(
    x: UnaryExpr,
    scope: Scope,
    locals: Seq<(Seq<char>, Val)>,
    rs: Seq<ReplyView>,
    pos: int,
) -> (Result<Val, Halt>, int)
    decreases x, 0int,
{
    let (o, p) = expr_value(*x.operand, scope, locals, rs, pos);
    match o {
        Err(h) => (Err(h), p),
        Ok(v) => match x.op {
            UnaryOp::Not => (Ok(Val::Bool(!truthy(v))), p),
            UnaryOp::Neg => match v {
                Val::Int(i) => (Ok(Val::Int(int_neg(i))), p),
                Val::Float(b) => (Ok(Val::Float(float_neg(b))), p),
                _ => (Err(type_error("number"@, v, x.span@)), p),
            },
        },
    }
}

/// `acc` followed by the values of `es[i..]`, evaluated in order.
pub open spec fn list_values(
    es: Seq<Expr>,
    i: int,
    acc: Seq<Val>,
    scope: Scope,
    locals: Seq<(Seq<char>, Val)>,
    rs: Seq<ReplyView>,
    pos: int,
) -> (Result<Seq<Val>, Halt>, int)
    decreases es, es.len() - i,
{
    if i < 0 || i >= es.len() {
        (Ok(acc), pos)
    } else {
        let (r, p) = expr_value(es[i], scope, locals, rs, pos);
        match r {
            Err(h) => (Err(h), p),
            Ok(v) => list_values(es, i + 1, acc.push(v), scope, locals, rs, p),
        }
    }
}

/// An object literal from its entries `i..`, starting from the fields
/// `acc`; a repeated key keeps its first place and takes the later value.
pub open spec fn object_value(
    x: ObjectExpr,
    i: int,
    acc: Seq<(Seq<char>, Val)>,
    scope: Scope,
    locals: Seq<(Seq<char>, Val)>,
    rs: Seq<ReplyView>,
    pos: int,
) -> (Result<Val, Halt>, int)
    decreases x, x.entries@.len() - i,
{
    if i < 0 || i >= x.entries@.len() {
        (Ok(Val::Struct(acc)), pos)
    } else {
        let (r, p) = expr_value(x.entries@[i].1, scope, locals, rs, pos);
        match r {
            Err(h) => (Err(h), p),
            Ok(v) => object_value(
                x,
                i + 1,
                fields_set(acc, x.entries@[i].0@, v),
                scope,
                locals,
                rs,
                p,
            ),
        }
    }
}

/// A match expression from its arms `i..`: the value of the first arm
/// whose pattern equals `subject`, else the default, else `null`.
pub open spec fn match_value(
    x: MatchExpr,
    i: int,
    subject: Val,
    scope: Scope,
    locals: Seq<(Seq<char>, Val)>,
    rs: Seq<ReplyView>,
    pos: int,
) -> (Result<Val, Halt>, int)
    decreases x, x.arms@.len() - i,
{
    if i < 0 || i >= x.arms@.len() {
        match x.default {
            Some(d) => expr_value(*d, scope, locals, rs, pos),
            None => (Ok(Val::Null), pos),
        }
    } else {
        let (r, p) = expr_value(x.arms@[i].pattern, scope, locals, rs, pos);
        match r {
            Err(h) => (Err(h), p),
            Ok(pv) => if value_eq(subject, pv) {
                expr_value(x.arms@[i].value, scope, locals, rs, p)
            } else {
                match_value(x, i + 1, subject, scope, locals, rs, p)
            },
        }
    }
}


/// The model of a list-evaluation result.
pub open spec fn vals_out(r: Result<Vec<Value>, Stop>) -> Result<Seq<Val>, Halt> {
    match r {
        Ok(vs) => Ok(items_view(vs@)),
        Err(s) => Err(s@),
    }
}

fn fail_exec(kind: EvalErrorKind, span: &Span) -> (s: Stop)
    ensures
        s@ == fail(kind@, span@),
{
    Stop::Fail(EvalError::new(kind, span.copy()))
}

fn type_error_exec(expected: &'static str, v: &Value, span: &Span) -> (s: Stop)
    ensures
        s@ == type_error(expected@, v@, span@),
{
    fail_exec(EvalErrorKind::TypeError { expected, got: v.kind_name() }, span)
}

/// The innermost loop binding of `name` (see `local_of`).
pub fn local_get<'a>(locals: &'a Vec<(String, Value)>, name: &str) -> (r: Option<&'a Value>)
    ensures
        match r {
            Some(v) => local_of(fields_view(locals@), name@) == Some(v@),
            None => local_of(fields_view(locals@), name@) is None,
        },
{
    broadcast use lemma_fields_view;

    let kv = chars_of(name);
    let mut i: usize = locals.len();
    assert(fields_view(locals@).subrange(0, i as int) == fields_view(locals@));
    while i > 0
        invariant
            i <= locals@.len(),
            kv@ == name@,
            local_of(fields_view(locals@), name@) == local_of(
                fields_view(locals@).subrange(0, i as int),
                name@,
            ),
        decreases i,
    {
        let ghost pre = fields_view(locals@).subrange(0, i as int);
        proof {
            lemma_fields_view(locals@);
            assert(fields_view(locals@)[i - 1] == (locals@[i - 1].0@, locals@[i - 1].1@));
        }
        assert(pre.last() == (locals@[i - 1].0@, locals@[i - 1].1@));
        let fv = chars_of(locals[i - 1].0.as_str());
        if chars_eq(&fv, &kv) {
            return Some(&locals[i - 1].1);
        }
        assert(pre.drop_last() == fields_view(locals@).subrange(0, i - 1));
        i -= 1;
    }
    None
}

fn number_of(v: &Value) -> (r: Option<Number>)
    ensures
        r == as_number(v@),
{
    match v {
        Value::Int(i) => Some(Number::Int(*i)),
        Value::Float(b) => Some(Number::Float(*b)),
        _ => None,
    }
}

fn int_arith_exec(op: BinaryOp, a: i64, b: i64) -> (r: i64)
    requires
        (op == BinaryOp::Div || op == BinaryOp::Mod) ==> b != 0,
    ensures
        r == int_arith(op, a, b),
{
    match op {
        BinaryOp::Add => a.wrapping_add(b),
        BinaryOp::Sub => a.wrapping_sub(b),
        BinaryOp::Mul => a.wrapping_mul(b),
        BinaryOp::Div => match a.checked_div(b) {
            Some(q) => q,
            None => i64::MIN,
        },
        _ => match a.checked_rem(b) {
            Some(r) => r,
            None => 0,
        },
    }
}

fn holds_exec(op: BinaryOp, o: Option<Order>) -> (r: bool)
    ensures
        r == holds(op, o),
{
    match (op, o) {
        (BinaryOp::Lt, Some(Order::Less)) => true,
        (BinaryOp::Le, Some(Order::Less)) => true,
        (BinaryOp::Le, Some(Order::Equal)) => true,
        (BinaryOp::Gt, Some(Order::Greater)) => true,
        (BinaryOp::Ge, Some(Order::Greater)) => true,
        (BinaryOp::Ge, Some(Order::Equal)) => true,
        _ => false,
    }
}

fn arith_exec(
    op: BinaryOp,
    l: &Value,
    r: &Value,
    span: &Span,
    replies: &Vec<Reply>,
    pos: &mut usize,
) -> (out: Result<Value, Stop>)
    requires
        *old(pos) <= replies@.len(),
    ensures
        *final(pos) <= replies@.len(),
        (val_out(out), *final(pos) as int) == arith(
            op,
            l@,
            r@,
            span@,
            replies_view(replies@),
            *old(pos) as int,
        ),
{
    let a = match number_of(l) {
        Some(a) => a,
        None => return Err(type_error_exec("number", l, span)),
    };
    let b = match number_of(r) {
        Some(b) => b,
        None => return Err(type_error_exec("number", r, span)),
    };
    let zero = match b {
        Number::Int(y) => y == 0,
        Number::Float(bits) => float_is_zero_exec(bits),
    };
    if (op == BinaryOp::Div || op == BinaryOp::Mod) && zero {
        return Err(fail_exec(EvalErrorKind::DivisionByZero, span));
    }
    match (a, b) {
        (Number::Int(x), Number::Int(y)) => Ok(Value::Int(int_arith_exec(op, x, y))),
        _ => match ask_float(Request::Arith { op, left: a, right: b }, span, replies, pos) {
            Ok(bits) => Ok(Value::Float(bits)),
            Err(h) => Err(h),
        },
    }
}

fn compare_exec(
    op: BinaryOp,
    l: &Value,
    r: &Value,
    span: &Span,
    replies: &Vec<Reply>,
    pos: &mut usize,
) -> (out: Result<Value, Stop>)
    requires
        *old(pos) <= replies@.len(),
    ensures
        *final(pos) <= replies@.len(),
        (val_out(out), *final(pos) as int) == compare(
            op,
            l@,
            r@,
            span@,
            replies_view(replies@),
            *old(pos) as int,
        ),
{
    match (number_of(l), number_of(r)) {
        (Some(a), Some(b)) => {
            if let (Number::Int(x), Number::Int(y)) = (a, b) {
                let lim: i64 = 0x20_0000_0000_0000;
                if -lim <= x && x <= lim && -lim <= y && y <= lim {
                    let t = match op {
                        BinaryOp::Lt => x < y,
                        BinaryOp::Le => x <= y,
                        BinaryOp::Gt => x > y,
                        _ => x >= y,
                    };
                    return Ok(Value::Bool(t));
                }
            }
            match ask_bool(Request::Compare { op, left: a, right: b }, span, replies, pos) {
                Ok(t) => Ok(Value::Bool(t)),
                Err(h) => Err(h),
            }
        },
        _ => Ok(Value::Bool(holds_exec(op, value_order_exec(l, r)))),
    }
}

fn combine_exec(
    op: BinaryOp,
    l: &Value,
    r: &Value,
    span: &Span,
    replies: &Vec<Reply>,
    pos: &mut usize,
) -> (out: Result<Value, Stop>)
    requires
        *old(pos) <= replies@.len(),
    ensures
        *final(pos) <= replies@.len(),
        (val_out(out), *final(pos) as int) == combine(
            op,
            l@,
            r@,
            span@,
            replies_view(replies@),
            *old(pos) as int,
        ),
{
    match op {
        BinaryOp::Eq => Ok(Value::Bool(l.equals(r))),
        BinaryOp::Ne => Ok(Value::Bool(!l.equals(r))),
        BinaryOp::Lt | BinaryOp::Le | BinaryOp::Gt | BinaryOp::Ge => compare_exec(
            op,
            l,
            r,
            span,
            replies,
            pos,
        ),
        _ => {
            let is_str = match (l, r) {
                (Value::Str(_), _) => true,
                (_, Value::Str(_)) => true,
                _ => false,
            };
            if op == BinaryOp::Add && is_str {
                let mut ta = match display_value(l, span, replies, pos) {
                    Ok(t) => t,
                    Err(h) => return Err(h),
                };
                let tb = match display_value(r, span, replies, pos) {
                    Ok(t) => t,
                    Err(h) => return Err(h),
                };
                crate::text::push_str(&mut ta, tb.as_str());
                Ok(Value::Str(ta))
            } else {
                arith_exec(op, l, r, span, replies, pos)
            }
        },
    }
}

fn index_number_exec(iv: &Value, span: &Span, replies: &Vec<Reply>, pos: &mut usize) -> (out:
    Result<usize, Stop>)
    requires
        *old(pos) <= replies@.len(),
    ensures
        *final(pos) <= replies@.len(),
        (match out {
            Ok(k) => Ok(k),
            Err(s) => Err(s@),
        }, *final(pos) as int) == index_number(iv@, span@, replies_view(replies@), *old(pos) as int),
{
    match iv {
        Value::Int(i) => if *i >= 0 {
            Ok(*i as usize)
        } else {
            Err(fail_exec(EvalErrorKind::InvalidIndex, span))
        },
        Value::Float(_) => Err(fail_exec(EvalErrorKind::InvalidIndex, span)),
        _ => Err(type_error_exec("number", iv, span)),
    }
}

/// Evaluates `es[i..]` in order after the values `acc` (see `list_values`).
pub fn eval_list(
    es: &Vec<Expr>,
    i: usize,
    acc: Vec<Value>,
    scope: &Scope,
    locals: &Vec<(String, Value)>,
    replies: &Vec<Reply>,
    pos: &mut usize,
) -> (r: Result<Vec<Value>, Stop>)
    requires
        i <= es@.len(),
        *old(pos) <= replies@.len(),
    ensures
        *final(pos) <= replies@.len(),
        (vals_out(r), *final(pos) as int) == list_values(
            es@,
            i as int,
            items_view(acc@),
            *scope,
            fields_view(locals@),
            replies_view(replies@),
            *old(pos) as int,
        ),
    decreases es, es@.len() - i,
{
    if i >= es.len() {
        return Ok(acc);
    }
    proof {
        assert(decreases_to!(es => es@[i as int]));
    }
    match es[i].eval(scope, locals, replies, pos) {
        Err(h) => Err(h),
        Ok(v) => {
            let mut acc = acc;
            proof {
                lemma_items_view_push(acc@, v);
            }
            acc.push(v);
            eval_list(es, i + 1, acc, scope, locals, replies, pos)
        },
    }
}

impl ValueExpr {
    /// The value of the literal (see `literal_value`).
    pub fn eval(
        &self,
        scope: &Scope,
        locals: &Vec<(String, Value)>,
        replies: &Vec<Reply>,
        pos: &mut usize,
    ) -> (r: Result<Value, Stop>)
        requires
            *old(pos) <= replies@.len(),
        ensures
            *final(pos) <= replies@.len(),
            (val_out(r), *final(pos) as int) == literal_value(
                *self,
                replies_view(replies@),
                *old(pos) as int,
            ),
    {
        match &self.value {
            Literal::Null => Ok(Value::Null),
            Literal::Bool(b) => Ok(Value::Bool(*b)),
            Literal::Int(i) => Ok(Value::Int(*i)),
            Literal::String(s) => Ok(Value::Str(s.clone())),
            Literal::Float(t) => match ask_float(
                Request::ParseFloat(t.clone()),
                &self.span,
                replies,
                pos,
            ) {
                Ok(bits) => Ok(Value::Float(bits)),
                Err(h) => Err(h),
            },
        }
    }
}

impl IdentExpr {
    /// The value of the variable: a loop binding, else a scope variable.
    pub fn eval(
        &self,
        scope: &Scope,
        locals: &Vec<(String, Value)>,
        replies: &Vec<Reply>,
        pos: &mut usize,
    ) -> (r: Result<Value, Stop>)
        requires
            *old(pos) <= replies@.len(),
        ensures
            *final(pos) == *old(pos),
            val_out(r) == (match lookup(*scope, fields_view(locals@), self.name@) {
                Some(v) => Ok(v),
                None => Err(fail(ErrorKindView::UndefinedVariable(self.name@), self.span@)),
            }),
    {
        match local_get(locals, self.name.as_str()) {
            Some(v) => Ok(v.copy()),
            None => match scope.var(self.name.as_str()) {
                Some(v) => Ok(v.copy()),
                None => Err(
                    fail_exec(EvalErrorKind::UndefinedVariable(self.name.clone()), &self.span),
                ),
            },
        }
    }
}

impl Expr {
    /// The value of the expression (see `expr_value`).
    pub fn eval(
        &self,
        scope: &Scope,
        locals: &Vec<(String, Value)>,
        replies: &Vec<Reply>,
        pos: &mut usize,
    ) -> (r: Result<Value, Stop>)
        requires
            *old(pos) <= replies@.len(),
        ensures
            *final(pos) <= replies@.len(),
            (val_out(r), *final(pos) as int) == expr_value(
                *self,
                *scope,
                fields_view(locals@),
                replies_view(replies@),
                *old(pos) as int,
            ),
        decreases self, 0nat,
    {
        match self {
            Expr::Value(x) => x.eval(scope, locals, replies, pos),
            Expr::Ident(x) => x.eval(scope, locals, replies, pos),
            Expr::Member(x) => x.eval(scope, locals, replies, pos),
            Expr::Index(x) => x.eval(scope, locals, replies, pos),
            Expr::Call(x) => x.eval(scope, locals, replies, pos),
            Expr::Pipe(x) => x.eval(scope, locals, replies, pos),
            Expr::Binary(x) => x.eval(scope, locals, replies, pos),
            Expr::Unary(x) => x.eval(scope, locals, replies, pos),
            Expr::Array(x) => x.eval(scope, locals, replies, pos),
            Expr::Object(x) => x.eval(scope, locals, replies, pos),
            Expr::Match(x) => x.eval(scope, locals, replies, pos),
        }
    }
}

impl MemberExpr {
    /// The field of a struct (see `member_value`).
    pub fn eval(
        &self,
        scope: &Scope,
        locals: &Vec<(String, Value)>,
        replies: &Vec<Reply>,
        pos: &mut usize,
    ) -> (r: Result<Value, Stop>)
        requires
            *old(pos) <= replies@.len(),
        ensures
            *final(pos) <= replies@.len(),
            (val_out(r), *final(pos) as int) == member_value(
                *self,
                *scope,
                fields_view(locals@),
                replies_view(replies@),
                *old(pos) as int,
            ),
        decreases self, 0nat,
    {
        let o = match self.object.eval(scope, locals, replies, pos) {
            Ok(v) => v,
            Err(h) => return Err(h),
        };
        match &o {
            Value::Struct(fields) => match field_get(fields, self.field.as_str()) {
                Some(f) => Ok(f.copy()),
                None => Err(fail_exec(EvalErrorKind::UndefinedField(self.field.clone()), &self.span)),
            },
            _ => Err(type_error_exec("struct", &o, &self.span)),
        }
    }
}

impl IndexExpr {
    /// The element of an array (see `index_value`).
    pub fn eval(
        &self,
        scope: &Scope,
        locals: &Vec<(String, Value)>,
        replies: &Vec<Reply>,
        pos: &mut usize,
    ) -> (r: Result<Value, Stop>)
        requires
            *old(pos) <= replies@.len(),
        ensures
            *final(pos) <= replies@.len(),
            (val_out(r), *final(pos) as int) == index_value(
                *self,
                *scope,
                fields_view(locals@),
                replies_view(replies@),
                *old(pos) as int,
            ),
        decreases self, 0nat,
    {
        broadcast use lemma_items_view;

        let o = match self.object.eval(scope, locals, replies, pos) {
            Ok(v) => v,
            Err(h) => return Err(h),
        };
        let iv = match self.index.eval(scope, locals, replies, pos) {
            Ok(v) => v,
            Err(h) => return Err(h),
        };
        match &o {
            Value::Array(items) => {
                let k = match index_number_exec(&iv, &self.span, replies, pos) {
                    Ok(k) => k,
                    Err(h) => return Err(h),
                };
                proof {
                    lemma_items_view(items@);
                }
                if k < items.len() {
                    proof {
                        assert(items_view(items@)[k as int] == items@[k as int]@);
                    }
                    Ok(items[k].copy())
                } else {
                    Err(
                        fail_exec(
                            EvalErrorKind::IndexOutOfBounds { index: k, len: items.len() },
                            &self.span,
                        ),
                    )
                }
            },
            _ => Err(type_error_exec("array", &o, &self.span)),
        }
    }
}

impl CallExpr {
    /// A call of a host function (see `call_value`).
    pub fn eval(
        &self,
        scope: &Scope,
        locals: &Vec<(String, Value)>,
        replies: &Vec<Reply>,
        pos: &mut usize,
    ) -> (r: Result<Value, Stop>)
        requires
            *old(pos) <= replies@.len(),
        ensures
            *final(pos) <= replies@.len(),
            (val_out(r), *final(pos) as int) == call_value(
                *self,
                *scope,
                fields_view(locals@),
                replies_view(replies@),
                *old(pos) as int,
            ),
        decreases self, 0nat,
    {
        match &*self.callee {
            Expr::Ident(id) => {
                if scope.func(id.name.as_str()).is_none() {
                    return Err(fail_exec(EvalErrorKind::NotCallable, &self.span));
                }
                let args = match eval_list(&self.args, 0, Vec::new(), scope, locals, replies, pos) {
                    Ok(a) => a,
                    Err(h) => return Err(h),
                };
                ask_value(Request::Func { name: id.name.clone(), args }, &self.span, replies, pos)
            },
            _ => Err(fail_exec(EvalErrorKind::NotCallable, &self.span)),
        }
    }
}

impl PipeExpr {
    /// A host pipe applied to a value (see `pipe_value`).
    pub fn eval(
        &self,
        scope: &Scope,
        locals: &Vec<(String, Value)>,
        replies: &Vec<Reply>,
        pos: &mut usize,
    ) -> (r: Result<Value, Stop>)
        requires
            *old(pos) <= replies@.len(),
        ensures
            *final(pos) <= replies@.len(),
            (val_out(r), *final(pos) as int) == pipe_value(
                *self,
                *scope,
                fields_view(locals@),
                replies_view(replies@),
                *old(pos) as int,
            ),
        decreases self, 0nat,
    {
        let value = match self.value.eval(scope, locals, replies, pos) {
            Ok(v) => v,
            Err(h) => return Err(h),
        };
        let args = match eval_list(&self.args, 0, Vec::new(), scope, locals, replies, pos) {
            Ok(a) => a,
            Err(h) => return Err(h),
        };
        if scope.pipe(self.name.as_str()).is_none() {
            return Err(fail_exec(EvalErrorKind::UndefinedPipe(self.name.clone()), &self.span));
        }
        ask_value(Request::Pipe { name: self.name.clone(), value, args }, &self.span, replies, pos)
    }
}

impl BinaryExpr {
    /// A binary operation (see `binary_value`).
    pub fn eval(
        &self,
        scope: &Scope,
        locals: &Vec<(String, Value)>,
        replies: &Vec<Reply>,
        pos: &mut usize,
    ) -> (r: Result<Value, Stop>)
        requires
            *old(pos) <= replies@.len(),
        ensures
            *final(pos) <= replies@.len(),
            (val_out(r), *final(pos) as int) == binary_value(
                *self,
                *scope,
                fields_view(locals@),
                replies_view(replies@),
                *old(pos) as int,
            ),
        decreases self, 0nat,
    {
        let l = match self.left.eval(scope, locals, replies, pos) {
            Ok(v) => v,
            Err(h) => return Err(h),
        };
        let and = self.op == BinaryOp::And;
        let or = self.op == BinaryOp::Or;
        if and || or {
            let t = l.is_truthy();
            if (and && !t) || (or && t) {
                return Ok(l);
            }
            return self.right.eval(scope, locals, replies, pos);
        }
        let r = match self.right.eval(scope, locals, replies, pos) {
            Ok(v) => v,
            Err(h) => return Err(h),
        };
        combine_exec(self.op, &l, &r, &self.span, replies, pos)
    }
}

impl UnaryExpr {
    /// A unary operation (see `unary_value`).
    pub fn eval(
        &self,
        scope: &Scope,
        locals: &Vec<(String, Value)>,
        replies: &Vec<Reply>,
        pos: &mut usize,
    ) -> (r: Result<Value, Stop>)
        requires
            *old(pos) <= replies@.len(),
        ensures
            *final(pos) <= replies@.len(),
            (val_out(r), *final(pos) as int) == unary_value(
                *self,
                *scope,
                fields_view(locals@),
                replies_view(replies@),
                *old(pos) as int,
            ),
        decreases self, 0nat,
    {
        let v = match self.operand.eval(scope, locals, replies, pos) {
            Ok(v) => v,
            Err(h) => return Err(h),
        };
        match self.op {
            UnaryOp::Not => Ok(Value::Bool(!v.is_truthy())),
            UnaryOp::Neg => match &v {
                Value::Int(i) => Ok(Value::Int(if *i == i64::MIN { i64::MIN } else { -*i })),
                Value::Float(b) => Ok(Value::Float(*b ^ crate::value::SIGN_BIT)),
                _ => Err(type_error_exec("number", &v, &self.span)),
            },
        }
    }
}

impl ArrayExpr {
    /// An array literal: its elements' values, in order.
    pub fn eval(
        &self,
        scope: &Scope,
        locals: &Vec<(String, Value)>,
        replies: &Vec<Reply>,
        pos: &mut usize,
    ) -> (r: Result<Value, Stop>)
        requires
            *old(pos) <= replies@.len(),
        ensures
            *final(pos) <= replies@.len(),
            (val_out(r), *final(pos) as int) == expr_value(
                Expr::Array(*self),
                *scope,
                fields_view(locals@),
                replies_view(replies@),
                *old(pos) as int,
            ),
        decreases self, 0nat,
    {
        proof {
            lemma_items_view(Seq::<Value>::empty());
        }
        match eval_list(&self.elements, 0, Vec::new(), scope, locals, replies, pos) {
            Ok(vs) => Ok(Value::Array(vs)),
            Err(h) => Err(h),
        }
    }
}

impl ObjectExpr {
    /// An object literal (see `object_value`).
    pub fn eval(
        &self,
        scope: &Scope,
        locals: &Vec<(String, Value)>,
        replies: &Vec<Reply>,
        pos: &mut usize,
    ) -> (r: Result<Value, Stop>)
        requires
            *old(pos) <= replies@.len(),
        ensures
            *final(pos) <= replies@.len(),
            (val_out(r), *final(pos) as int) == object_value(
                *self,
                0,
                seq![],
                *scope,
                fields_view(locals@),
                replies_view(replies@),
                *old(pos) as int,
            ),
        decreases self, self.entries@.len() + 1,
    {
        proof {
            lemma_fields_view(Seq::<(String, Value)>::empty());
        }
        self.eval_entries(0, Vec::new(), scope, locals, replies, pos)
    }

    fn eval_entries(
        &self,
        i: usize,
        acc: Vec<(String, Value)>,
        scope: &Scope,
        locals: &Vec<(String, Value)>,
        replies: &Vec<Reply>,
        pos: &mut usize,
    ) -> (r: Result<Value, Stop>)
        requires
            i <= self.entries@.len(),
            *old(pos) <= replies@.len(),
        ensures
            *final(pos) <= replies@.len(),
            (val_out(r), *final(pos) as int) == object_value(
                *self,
                i as int,
                fields_view(acc@),
                *scope,
                fields_view(locals@),
                replies_view(replies@),
                *old(pos) as int,
            ),
        decreases self, self.entries@.len() - i,
    {
        if i >= self.entries.len() {
            return Ok(Value::Struct(acc));
        }
        proof {
            assert(decreases_to!(self => self.entries@[i as int].1));
        }
        match self.entries[i].1.eval(scope, locals, replies, pos) {
            Err(h) => Err(h),
            Ok(v) => {
                let mut acc = acc;
                field_set(&mut acc, self.entries[i].0.clone(), v);
                self.eval_entries(i + 1, acc, scope, locals, replies, pos)
            },
        }
    }
}

impl MatchExpr {
    /// A value-level match (see `match_value`).
    pub fn eval(
        &self,
        scope: &Scope,
        locals: &Vec<(String, Value)>,
        replies: &Vec<Reply>,
        pos: &mut usize,
    ) -> (r: Result<Value, Stop>)
        requires
            *old(pos) <= replies@.len(),
        ensures
            *final(pos) <= replies@.len(),
            (val_out(r), *final(pos) as int) == expr_value(
                Expr::Match(*self),
                *scope,
                fields_view(locals@),
                replies_view(replies@),
                *old(pos) as int,
            ),
        decreases self, self.arms@.len() + 1,
    {
        let subject = match self.expr.eval(scope, locals, replies, pos) {
            Ok(v) => v,
            Err(h) => return Err(h),
        };
        self.eval_arms(0, &subject, scope, locals, replies, pos)
    }

    fn eval_arms(
        &self,
        i: usize,
        subject: &Value,
        scope: &Scope,
        locals: &Vec<(String, Value)>,
        replies: &Vec<Reply>,
        pos: &mut usize,
    ) -> (r: Result<Value, Stop>)
        requires
            i <= self.arms@.len(),
            *old(pos) <= replies@.len(),
        ensures
            *final(pos) <= replies@.len(),
            (val_out(r), *final(pos) as int) == match_value(
                *self,
                i as int,
                subject@,
                *scope,
                fields_view(locals@),
                replies_view(replies@),
                *old(pos) as int,
            ),
        decreases self, self.arms@.len() - i,
    {
        if i >= self.arms.len() {
            return match &self.default {
                Some(d) => d.eval(scope, locals, replies, pos),
                None => Ok(Value::Null),
            };
        }
        proof {
            assert(decreases_to!(self => self.arms@[i as int].pattern));
            assert(decreases_to!(self => self.arms@[i as int].value));
        }
        let pv = match self.arms[i].pattern.eval(scope, locals, replies, pos) {
            Ok(v) => v,
            Err(h) => return Err(h),
        };
        if subject.equals(&pv) {
            self.arms[i].value.eval(scope, locals, replies, pos)
        } else {
            self.eval_arms(i + 1, subject, scope, locals, replies, pos)
        }
    }
}

} // verus!
