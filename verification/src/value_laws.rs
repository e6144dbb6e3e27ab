//! Properties of the operators on values, stated in plain arithmetic and
//! sequence terms and proved for every input.

use vstd::prelude::*;
use vstd::arithmetic::div_mod::{
    lemma_fundamental_div_mod, lemma_mod_bound, lemma_mod_multiples_basic,
};

use crate::ast::{IfNode, IndexExpr, UnaryExpr};
use crate::error::{ErrorKindView, SpanView};
use crate::eval::{
    combine, exact_int, expr_value, fail, index_number, index_value, int_div, int_rem, unary_value,
};
use crate::host::{Halt, ReplyView};
use crate::op::{BinaryOp, UnaryOp};
use crate::render::{block_output, if_output};
use crate::scope::Scope;
use crate::value::{fields_eq, float_is_zero, items_eq, truthy, value_eq, Val};

verus! {

/// A value is falsy exactly when it is `null`, `false`, the integer zero, a
/// float zero of either sign, the empty string, an empty array or a struct
/// without fields; every other value is truthy.
pub proof fn law_truthiness(v: Val)
    ensures
        !truthy(v) <==> (v == Val::Null || v == Val::Bool(false) || v == Val::Int(0)
            || (v matches Val::Float(b) && float_is_zero(b)) || v == Val::Str(Seq::<char>::empty())
            || v == Val::Array(Seq::<Val>::empty()) || v == Val::Struct(
            Seq::<(Seq<char>, Val)>::empty(),
        )),
{
    match v {
        Val::Str(s) => {
            if s.len() == 0 {
                assert(s =~= Seq::<char>::empty());
            }
        },
        Val::Array(xs) => {
            if xs.len() == 0 {
                assert(xs =~= Seq::<Val>::empty());
            }
        },
        Val::Struct(fs) => {
            if fs.len() == 0 {
                assert(fs =~= Seq::<(Seq<char>, Val)>::empty());
            }
        },
        _ => {},
    }
}

/// An array is truthy exactly when it has an element.
pub proof fn law_array_truthy_iff_nonempty(xs: Seq<Val>)
    ensures
        truthy(Val::Array(xs)) <==> xs.len() > 0,
{
    law_truthiness(Val::Array(xs));
    if xs.len() == 0 {
        assert(xs =~= Seq::<Val>::empty());
    }
}

/// An `@if` with one branch whose condition evaluates to an empty array
/// renders its `@else` body (or nothing, without one), carrying on with the
/// replies after the condition's.
pub proof fn law_if_on_empty_array_takes_else(
    x: IfNode,
    scope: Scope,
    locals: Seq<(Seq<char>, Val)>,
    depth: int,
    rs: Seq<ReplyView>,
    pos: int,
)
    requires
        x.branches@.len() == 1,
        expr_value(x.branches@[0].condition, scope, locals, rs, pos).0 == Ok::<Val, Halt>(
            Val::Array(Seq::<Val>::empty()),
        ),
    ensures
        ({
            let p = expr_value(x.branches@[0].condition, scope, locals, rs, pos).1;
            if_output(x, 0, scope, locals, depth, rs, pos) == match x.else_body {
                Some(b) => block_output(b, scope, locals, depth, rs, p),
                None => (Ok::<Seq<char>, Halt>(Seq::<char>::empty()), p),
            }
        }),
{
    law_array_truthy_iff_nonempty(Seq::<Val>::empty());
    let p = expr_value(x.branches@[0].condition, scope, locals, rs, pos).1;
    assert(if_output(x, 0, scope, locals, depth, rs, pos) == if_output(
        x,
        1,
        scope,
        locals,
        depth,
        rs,
        p,
    ));
}

proof fn lemma_items_eq_all(xs: Seq<Val>, ys: Seq<Val>, i: int)
    requires
        xs.len() == ys.len(),
        0 <= i <= xs.len(),
    ensures
        items_eq(xs, ys, i) <==> forall|j: int| i <= j < xs.len() ==> value_eq(#[trigger] xs[j], ys[j]),
    decreases xs.len() - i,
{
    if i < xs.len() {
        lemma_items_eq_all(xs, ys, i + 1);
    }
}

proof fn lemma_fields_eq_all(xs: Seq<(Seq<char>, Val)>, ys: Seq<(Seq<char>, Val)>, i: int)
    requires
        xs.len() == ys.len(),
        0 <= i <= xs.len(),
    ensures
        fields_eq(xs, ys, i) <==> forall|j: int|
            i <= j < xs.len() ==> #[trigger] xs[j].0 == ys[j].0 && value_eq(xs[j].1, ys[j].1),
    decreases xs.len() - i,
{
    if i < xs.len() {
        lemma_fields_eq_all(xs, ys, i + 1);
    }
}

/// Two arrays are equal exactly when they have the same length and equal
/// elements at every index; in particular arrays of different lengths
/// are never equal.
pub proof fn law_array_equality(xs: Seq<Val>, ys: Seq<Val>)
    ensures
        value_eq(Val::Array(xs), Val::Array(ys)) <==> (xs.len() == ys.len() && forall|j: int|
            0 <= j < xs.len() ==> value_eq(#[trigger] xs[j], ys[j])),
        value_eq(Val::Array(xs), Val::Array(ys)) ==> xs.len() == ys.len(),
{
    if xs.len() == ys.len() {
        lemma_items_eq_all(xs, ys, 0);
    }
}

/// Two structs are equal exactly when they have the same number of fields
/// and, position by position, equal keys and equal values.
pub proof fn law_struct_equality(xs: Seq<(Seq<char>, Val)>, ys: Seq<(Seq<char>, Val)>)
    ensures
        value_eq(Val::Struct(xs), Val::Struct(ys)) <==> (xs.len() == ys.len() && forall|j: int|
            0 <= j < xs.len() ==> #[trigger] xs[j].0 == ys[j].0 && value_eq(xs[j].1, ys[j].1)),
{
    if xs.len() == ys.len() {
        lemma_fields_eq_all(xs, ys, 0);
        assert(value_eq(Val::Struct(xs), Val::Struct(ys)) == fields_eq(xs, ys, 0));
    }
}

/// `!=` is the negation of `==`, and both give a boolean and read no reply.
pub proof fn law_not_equal_negates_equal(
    l: Val,
    r: Val,
    span: SpanView,
    rs: Seq<ReplyView>,
    pos: int,
)
    ensures
        combine(BinaryOp::Eq, l, r, span, rs, pos) == (Ok::<Val, Halt>(Val::Bool(value_eq(l, r))), pos),
        combine(BinaryOp::Ne, l, r, span, rs, pos) == (Ok::<Val, Halt>(Val::Bool(!value_eq(l, r))), pos),
{
}

/// Integers that a float holds exactly compare as integers: `<`, `<=`, `>`
/// and `>=` give the boolean of the comparison and read no reply. So
/// `x <= y` is true exactly when `x < y` or `x == y` is.
pub proof fn law_integer_comparison(x: i64, y: i64, span: SpanView, rs: Seq<ReplyView>, pos: int)
    requires
        exact_int(x),
        exact_int(y),
    ensures
        combine(BinaryOp::Lt, Val::Int(x), Val::Int(y), span, rs, pos) == (Ok::<Val, Halt>(Val::Bool(x < y)), pos),
        combine(BinaryOp::Le, Val::Int(x), Val::Int(y), span, rs, pos) == (Ok::<Val, Halt>(Val::Bool(x <= y)), pos),
        combine(BinaryOp::Gt, Val::Int(x), Val::Int(y), span, rs, pos) == (Ok::<Val, Halt>(Val::Bool(x > y)), pos),
        combine(BinaryOp::Ge, Val::Int(x), Val::Int(y), span, rs, pos) == (Ok::<Val, Halt>(Val::Bool(x >= y)), pos),
        combine(BinaryOp::Le, Val::Int(x), Val::Int(y), span, rs, pos).0 == Ok::<Val, Halt>(Val::Bool(
            combine(BinaryOp::Lt, Val::Int(x), Val::Int(y), span, rs, pos).0 == Ok::<Val, Halt>(Val::Bool(true))
            || combine(BinaryOp::Eq, Val::Int(x), Val::Int(y), span, rs, pos).0 == Ok::<Val, Halt>(Val::Bool(true)),
        )),
{
}

/// An index is a non-negative integer: `k >= 0` is accepted and selects
/// position `k` (where `k` fits in `usize`), a negative integer is an
/// invalid index.
pub proof fn law_index_number(k: i64, span: SpanView, rs: Seq<ReplyView>, pos: int)
    ensures
        k >= 0 ==> index_number(Val::Int(k), span, rs, pos).0 is Ok,
        0 <= k <= usize::MAX ==> (index_number(Val::Int(k), span, rs, pos).0 matches Ok(n) && n == k),
        k < 0 ==> index_number(Val::Int(k), span, rs, pos).0 == Err::<usize, Halt>(
            fail(ErrorKindView::InvalidIndex, span),
        ),
        index_number(Val::Int(k), span, rs, pos).1 == pos,
{
}

/// `a[k]`, where `a` evaluates to an array and `k` to an integer with
/// `0 <= k < len`, gives the element at position `k` (so `a[0]` is the
/// first element), reading no reply beyond those of `a` and `k`.
pub proof fn law_index_in_bounds(
    x: IndexExpr,
    scope: Scope,
    locals: Seq<(Seq<char>, Val)>,
    rs: Seq<ReplyView>,
    pos: int,
    items: Seq<Val>,
    k: i64,
)
    requires
        expr_value(*x.object, scope, locals, rs, pos).0 == Ok::<Val, Halt>(Val::Array(items)),
        expr_value(*x.index, scope, locals, rs, expr_value(*x.object, scope, locals, rs, pos).1).0
            == Ok::<Val, Halt>(Val::Int(k)),
        0 <= k < items.len(),
        k <= usize::MAX,
    ensures
        index_value(x, scope, locals, rs, pos) == (
            Ok::<Val, Halt>(items[k as int]),
            expr_value(*x.index, scope, locals, rs, expr_value(*x.object, scope, locals, rs, pos).1).1,
        ),
{
}


/// `r` is the 64-bit two's-complement image of the integer `x`: the two
/// differ by a multiple of 2^64 (for each `x` exactly one `i64` does).
pub open spec fn wraps_to(r: i64, x: int) -> bool {
    (r - x) % 0x1_0000_0000_0000_0000int == 0
}

/// Integer `+`, `-` and `*` are the arithmetic sums, differences and
/// products, wrapped to 64 bits; they read no reply. Where the exact
/// result fits in an `i64` it is the result (so `5 - 3` is `2`).
pub proof fn law_integer_arithmetic(a: i64, b: i64, span: SpanView, rs: Seq<ReplyView>, pos: int)
    ensures
        ({
            let (o, p) = combine(BinaryOp::Add, Val::Int(a), Val::Int(b), span, rs, pos);
            p == pos && (o matches Ok(Val::Int(r)) && wraps_to(r, a + b))
        }),
        ({
            let (o, p) = combine(BinaryOp::Sub, Val::Int(a), Val::Int(b), span, rs, pos);
            p == pos && (o matches Ok(Val::Int(r)) && wraps_to(r, a - b))
        }),
        ({
            let (o, p) = combine(BinaryOp::Mul, Val::Int(a), Val::Int(b), span, rs, pos);
            p == pos && (o matches Ok(Val::Int(r)) && wraps_to(r, a * b))
        }),
        i64::MIN <= a + b <= i64::MAX ==> combine(BinaryOp::Add, Val::Int(a), Val::Int(b), span, rs, pos)
            == (Ok::<Val, Halt>(Val::Int((a + b) as i64)), pos),
        i64::MIN <= a - b <= i64::MAX ==> combine(BinaryOp::Sub, Val::Int(a), Val::Int(b), span, rs, pos)
            == (Ok::<Val, Halt>(Val::Int((a - b) as i64)), pos),
        i64::MIN <= a * b <= i64::MAX ==> combine(BinaryOp::Mul, Val::Int(a), Val::Int(b), span, rs, pos)
            == (Ok::<Val, Halt>(Val::Int((a * b) as i64)), pos),
{
    let big: int = 0x1_0000_0000_0000_0000int;
    let z: int = a * b;
    lemma_fundamental_div_mod(z, big);
    lemma_mod_bound(z, big);
    let k: int = z / big;
    lemma_mod_multiples_basic(-k, big);
    lemma_mod_multiples_basic(-k - 1, big);
    assert((-k) * big == -(big * k)) by (nonlinear_arith);
    assert((-k - 1) * big == -(big * k) - big) by (nonlinear_arith);
    lemma_mod_multiples_basic(0, big);
    lemma_mod_multiples_basic(1, big);
    lemma_mod_multiples_basic(-1, big);
}

/// For `x >= 0` and `d > 0`: `x == d * (x / d) + x % d` with
/// `0 <= x % d < d` and `0 <= x / d`, and `x / d` at most `x`, and at most
/// half of `x` when `d >= 2`.
proof fn lemma_nonneg_division(x: int, d: int)
    requires
        x >= 0,
        d > 0,
    ensures
        d * (x / d) + x % d == x,
        0 <= x % d < d,
        0 <= x / d <= x,
        d >= 2 ==> 2 * (x / d) <= x,
{
    lemma_fundamental_div_mod(x, d);
    lemma_mod_bound(x, d);
    let q = x / d;
    let m = x % d;
    assert(0 <= q <= x && (d >= 2 ==> 2 * q <= x)) by (nonlinear_arith)
        requires
            d * q + m == x,
            0 <= m < d,
            x >= 0,
            d >= 1,
    ;
}

/// Integer `/` truncates toward zero and `%` is its remainder: for
/// `b != 0`, the quotient `q` and remainder `m` satisfy `q * b + m == a`,
/// with `m` smaller than `b` in magnitude and of the sign of `a` (or zero).
/// `i64::MIN / -1` wraps to `i64::MIN`, with remainder `0`. Dividing by
/// zero fails with a division-by-zero error. None of these reads a reply.
pub proof fn law_integer_division(a: i64, b: i64, span: SpanView, rs: Seq<ReplyView>, pos: int)
    ensures
        b != 0 && !(a == i64::MIN && b == -1) ==> ({
            let (od, pd) = combine(BinaryOp::Div, Val::Int(a), Val::Int(b), span, rs, pos);
            let (om, pm) = combine(BinaryOp::Mod, Val::Int(a), Val::Int(b), span, rs, pos);
            &&& pd == pos
            &&& pm == pos
            &&& od matches Ok(Val::Int(_))
            &&& om matches Ok(Val::Int(_))
            &&& od->Ok_0->Int_0 * b + om->Ok_0->Int_0 == a
            &&& a >= 0 ==> 0 <= om->Ok_0->Int_0 && om->Ok_0->Int_0 < (if b > 0 { b as int } else { -b })
            &&& a < 0 ==> 0 >= om->Ok_0->Int_0 && om->Ok_0->Int_0 > (if b > 0 { -b } else { b as int })
        }),
        a == i64::MIN && b == -1 ==> combine(BinaryOp::Div, Val::Int(a), Val::Int(b), span, rs, pos)
            == (Ok::<Val, Halt>(Val::Int(i64::MIN)), pos) && combine(
            BinaryOp::Mod,
            Val::Int(a),
            Val::Int(b),
            span,
            rs,
            pos,
        ) == (Ok::<Val, Halt>(Val::Int(0)), pos),
        b == 0 ==> combine(BinaryOp::Div, Val::Int(a), Val::Int(b), span, rs, pos) == (
            Err::<Val, Halt>(fail(ErrorKindView::DivisionByZero, span)),
            pos,
        ) && combine(BinaryOp::Mod, Val::Int(a), Val::Int(b), span, rs, pos) == (
            Err::<Val, Halt>(fail(ErrorKindView::DivisionByZero, span)),
            pos,
        ),
{
    if b != 0 && !(a == i64::MIN && b == -1) {
        lemma_truncating_division(a, b);
    }
}

/// The quotient and remainder of truncating division, in plain terms.
proof fn lemma_truncating_division(a: i64, b: i64)
    requires
        b != 0,
        !(a == i64::MIN && b == -1),
    ensures
        int_div(a, b) * b + int_rem(a, b) == a,
        a >= 0 ==> 0 <= int_rem(a, b) < (if b > 0 { b as int } else { -b }),
        a < 0 ==> 0 >= int_rem(a, b) > (if b > 0 { -b } else { b as int }),
{
    let x = a as int;
    let d = b as int;
    if x == 0 {
        assert(int_div(a, b) == 0);
        assert(int_rem(a, b) == 0);
    } else if x > 0 && d > 0 {
        lemma_nonneg_division(x, d);
        assert(int_div(a, b) == x / d);
        assert(int_rem(a, b) == x % d);
        assert((x / d) * d == d * (x / d)) by (nonlinear_arith);
    } else if x < 0 && d < 0 {
        lemma_nonneg_division(-x, -d);
        let q = (-x) / (-d);
        let r = (-x) % (-d);
        assert(int_div(a, b) == q);
        assert(int_rem(a, b) == -r);
        assert(q * d + (-r) == x) by (nonlinear_arith)
            requires
                (-d) * q + r == -x,
        ;
    } else if x < 0 {
        lemma_nonneg_division(-x, d);
        let q = (-x) / d;
        let r = (-x) % d;
        assert(int_div(a, b) == -q);
        assert(int_rem(a, b) == -r);
        assert((-q) * d + (-r) == x) by (nonlinear_arith)
            requires
                d * q + r == -x,
        ;
    } else {
        lemma_nonneg_division(x, -d);
        let q = x / (-d);
        let r = x % (-d);
        assert(int_div(a, b) == -q);
        assert(int_rem(a, b) == r);
        assert((-q) * d + r == x) by (nonlinear_arith)
            requires
                (-d) * q + r == x,
        ;
    }
}

/// Whether two values are of the same kind (both null, both booleans, both
/// integers, and so on).
pub open spec fn same_kind(a: Val, b: Val) -> bool {
    ||| a is Null && b is Null
    ||| a is Bool && b is Bool
    ||| a is Int && b is Int
    ||| a is Float && b is Float
    ||| a is Str && b is Str
    ||| a is Array && b is Array
    ||| a is Struct && b is Struct
}

/// Values of different kinds are never equal; `null` equals `null`, and
/// booleans, integers and strings are equal exactly when they are the same
/// boolean, integer or character sequence.
pub proof fn law_scalar_equality(a: Val, b: Val)
    ensures
        !same_kind(a, b) ==> !value_eq(a, b),
        value_eq(Val::Null, Val::Null),
        a is Bool && b is Bool ==> (value_eq(a, b) <==> a->Bool_0 == b->Bool_0),
        a is Int && b is Int ==> (value_eq(a, b) <==> a->Int_0 == b->Int_0),
        a is Str && b is Str ==> (value_eq(a, b) <==> a->Str_0 == b->Str_0),
{
}

/// `a[k]`, where `a` evaluates to an array and `k` to an integer, fails
/// with an invalid index when `k < 0`, and with an out-of-bounds error
/// that names `k` and the length when `k >= len`.
pub proof fn law_index_out_of_range(
    x: IndexExpr,
    scope: Scope,
    locals: Seq<(Seq<char>, Val)>,
    rs: Seq<ReplyView>,
    pos: int,
    items: Seq<Val>,
    k: i64,
)
    requires
        expr_value(*x.object, scope, locals, rs, pos).0 == Ok::<Val, Halt>(Val::Array(items)),
        expr_value(*x.index, scope, locals, rs, expr_value(*x.object, scope, locals, rs, pos).1).0
            == Ok::<Val, Halt>(Val::Int(k)),
        k < 0 || k >= items.len(),
        k <= usize::MAX,
        items.len() <= usize::MAX,
    ensures
        ({
            let q = expr_value(*x.index, scope, locals, rs, expr_value(*x.object, scope, locals, rs, pos).1).1;
            index_value(x, scope, locals, rs, pos) == (
                Err::<Val, Halt>(
                    if k < 0 {
                        fail(ErrorKindView::InvalidIndex, x.span@)
                    } else {
                        fail(
                            ErrorKindView::IndexOutOfBounds { index: k as usize, len: items.len() as usize },
                            x.span@,
                        )
                    },
                ),
                q,
            )
        }),
{
}

/// `-a` on an integer is its arithmetic negation, wrapped to 64 bits (so
/// `-i64::MIN` is `i64::MIN`); applying it twice gives back the integer.
pub proof fn law_integer_negation(
    x: UnaryExpr,
    scope: Scope,
    locals: Seq<(Seq<char>, Val)>,
    rs: Seq<ReplyView>,
    pos: int,
    i: i64,
)
    requires
        x.op == UnaryOp::Neg,
        expr_value(*x.operand, scope, locals, rs, pos).0 == Ok::<Val, Halt>(Val::Int(i)),
    ensures
        ({
            let (o, p) = unary_value(x, scope, locals, rs, pos);
            &&& p == expr_value(*x.operand, scope, locals, rs, pos).1
            &&& o matches Ok(Val::Int(_))
            &&& wraps_to(o->Ok_0->Int_0, -i)
            &&& i != i64::MIN ==> o->Ok_0->Int_0 == -i
            &&& i == i64::MIN ==> o->Ok_0->Int_0 == i64::MIN
        }),
{
    let big: int = 0x1_0000_0000_0000_0000int;
    lemma_mod_multiples_basic(0, big);
    lemma_mod_multiples_basic(-1, big);
}

/// Two strings joined by `+` give their concatenation, reading no reply.
pub proof fn law_string_concatenation(s: Seq<char>, t: Seq<char>, span: SpanView, rs: Seq<ReplyView>, pos: int)
    ensures
        combine(BinaryOp::Add, Val::Str(s), Val::Str(t), span, rs, pos) == (Ok::<Val, Halt>(Val::Str(s + t)), pos),
{
}

} // verus!
