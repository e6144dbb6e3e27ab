//! Runtime values of the expression language.

use vstd::prelude::*;

use crate::text::{chars_eq, chars_of, push_str};

verus! {

/// A runtime value.
///
/// Floating-point numbers are carried as the bit pattern of an IEEE-754
/// binary64 value; the library never computes with them itself (see
/// `crate::host`), except where IEEE-754 fixes the answer from the bits
/// alone (sign, zero, NaN).
#[derive(Debug, PartialEq)]
pub enum Value {
    Null,
    Bool(bool),
    Int(i64),
    Float(u64),
    Str(String),
    Array(Vec<Value>),
    /// Named fields; each key occurs once, in the order of first insertion.
    Struct(Vec<(String, Value)>),
}

/// A three-way comparison result.
#[derive(Debug, Clone, Copy, PartialEq, Eq, Structural)]
pub enum Order {
    Less,
    Equal,
    Greater,
}

pub const SIGN_BIT: u64 = 0x8000_0000_0000_0000;

pub const MAGNITUDE_BITS: u64 = 0x7FFF_FFFF_FFFF_FFFF;

pub const EXPONENT_BITS: u64 = 0x7FF0_0000_0000_0000;

pub const FRACTION_BITS: u64 = 0x000F_FFFF_FFFF_FFFF;

/// Whether the bits encode `+0.0` or `-0.0`.
pub open spec fn float_is_zero(b: u64) -> bool {
    b & MAGNITUDE_BITS == 0
}

/// Whether the bits encode a NaN.
pub open spec fn float_is_nan(b: u64) -> bool {
    b & EXPONENT_BITS == EXPONENT_BITS && b & FRACTION_BITS != 0
}

/// IEEE-754 equality: NaN equals nothing, and the two zeros are equal.
pub open spec fn float_eq(a: u64, b: u64) -> bool {
    !float_is_nan(a) && !float_is_nan(b) && (a == b || (float_is_zero(a) && float_is_zero(b)))
}

/// IEEE-754 negation flips the sign bit.
pub open spec fn float_neg(b: u64) -> u64 {
    b ^ SIGN_BIT
}

pub fn float_is_zero_exec(b: u64) -> (r: bool)
    ensures
        r == float_is_zero(b),
{
    b & MAGNITUDE_BITS == 0
}

pub fn float_eq_exec(a: u64, b: u64) -> (r: bool)
    ensures
        r == float_eq(a, b),
{
    let a_nan = a & EXPONENT_BITS == EXPONENT_BITS && a & FRACTION_BITS != 0;
    let b_nan = b & EXPONENT_BITS == EXPONENT_BITS && b & FRACTION_BITS != 0;
    !a_nan && !b_nan && (a == b || (a & MAGNITUDE_BITS == 0 && b & MAGNITUDE_BITS == 0))
}

/// The mathematical model of a `Value`.
pub enum Val {
    Null,
    Bool(bool),
    Int(i64),
    Float(u64),
    Str(Seq<char>),
    Array(Seq<Val>),
    Struct(Seq<(Seq<char>, Val)>),
}

/// The model of a value.
pub open spec fn value_view(v: Value) -> Val
    decreases v,
{
    match v {
        Value::Null => Val::Null,
        Value::Bool(b) => Val::Bool(b),
        Value::Int(i) => Val::Int(i),
        Value::Float(b) => Val::Float(b),
        Value::Str(s) => Val::Str(s@),
        Value::Array(items) => Val::Array(items_view(items@)),
        Value::Struct(fields) => Val::Struct(fields_view(fields@)),
    }
}

/// The models of a sequence of values.
pub open spec fn items_view(s: Seq<Value>) -> Seq<Val>
    decreases s,
{
    if s.len() == 0 {
        seq![]
    } else {
        items_view(s.drop_last()).push(value_view(s.last()))
    }
}

/// The models of a sequence of named fields.
pub open spec fn fields_view(s: Seq<(String, Value)>) -> Seq<(Seq<char>, Val)>
    decreases s,
{
    if s.len() == 0 {
        seq![]
    } else {
        fields_view(s.drop_last()).push((s.last().0@, value_view(s.last().1)))
    }
}

impl View for Value {
    type V = Val;

    open spec fn view(&self) -> Val {
        value_view(*self)
    }
}

pub broadcast proof fn lemma_items_view(s: Seq<Value>)
    ensures
        #[trigger] items_view(s).len() == s.len(),
        forall|i: int| 0 <= i < s.len() ==> #[trigger] items_view(s)[i] == value_view(s[i]),
    decreases s.len(),
{
    if s.len() > 0 {
        lemma_items_view(s.drop_last());
    }
}

pub broadcast proof fn lemma_fields_view(s: Seq<(String, Value)>)
    ensures
        #[trigger] fields_view(s).len() == s.len(),
        forall|i: int|
            0 <= i < s.len() ==> #[trigger] fields_view(s)[i] == (s[i].0@, value_view(s[i].1)),
    decreases s.len(),
{
    if s.len() > 0 {
        lemma_fields_view(s.drop_last());
    }
}

pub proof fn lemma_items_view_push(s: Seq<Value>, v: Value)
    ensures
        items_view(s.push(v)) == items_view(s).push(value_view(v)),
{
    assert(s.push(v).drop_last() == s);
}

pub proof fn lemma_fields_view_push(s: Seq<(String, Value)>, f: (String, Value))
    ensures
        fields_view(s.push(f)) == fields_view(s).push((f.0@, value_view(f.1))),
{
    assert(s.push(f).drop_last() == s);
}

/// The truthiness of a value: `null`, `false`, zero, the empty string and
/// empty arrays and structs are falsy; everything else is truthy.
pub open spec fn truthy(v: Val) -> bool {
    match v {
        Val::Null => false,
        Val::Bool(b) => b,
        Val::Int(i) => i != 0,
        Val::Float(b) => !float_is_zero(b),
        Val::Str(s) => s.len() != 0,
        Val::Array(items) => items.len() != 0,
        Val::Struct(fields) => fields.len() != 0,
    }
}

/// The name of a value's type, as error messages show it.
pub open spec fn kind_name(v: Val) -> Seq<char> {
    match v {
        Val::Null => "null"@,
        Val::Bool(_) => "bool"@,
        Val::Int(_) => "number"@,
        Val::Float(_) => "number"@,
        Val::Str(_) => "string"@,
        Val::Array(_) => "array"@,
        Val::Struct(_) => "struct"@,
    }
}

/// Value equality, as `==` in templates and `@switch`/`@match` see it:
/// values of different kinds differ, floats compare as IEEE-754 numbers,
/// and arrays and structs compare element by element (struct fields in
/// order, with equal keys).
pub open spec fn value_eq(a: Val, b: Val) -> bool
    decreases a, 0nat,
{
    match (a, b) {
        (Val::Null, Val::Null) => true,
        (Val::Bool(x), Val::Bool(y)) => x == y,
        (Val::Int(x), Val::Int(y)) => x == y,
        (Val::Float(x), Val::Float(y)) => float_eq(x, y),
        (Val::Str(x), Val::Str(y)) => x == y,
        (Val::Array(xs), Val::Array(ys)) => xs.len() == ys.len() && items_eq(xs, ys, 0),
        (Val::Struct(xs), Val::Struct(ys)) => xs.len() == ys.len() && fields_eq(xs, ys, 0),
        _ => false,
    }
}

/// Element-wise equality of `xs[i..]` and `ys[i..]` (of equal length).
pub open spec fn items_eq(xs: Seq<Val>, ys: Seq<Val>, i: int) -> bool
    decreases xs, xs.len() - i,
{
    if i < 0 || i >= xs.len() || xs.len() != ys.len() {
        true
    } else {
        value_eq(xs[i], ys[i]) && items_eq(xs, ys, i + 1)
    }
}

/// Field-wise equality of `xs[i..]` and `ys[i..]` (of equal length).
pub open spec fn fields_eq(xs: Seq<(Seq<char>, Val)>, ys: Seq<(Seq<char>, Val)>, i: int) -> bool
    decreases xs, xs.len() - i,
{
    if i < 0 || i >= xs.len() || xs.len() != ys.len() {
        true
    } else {
        xs[i].0 == ys[i].0 && value_eq(xs[i].1, ys[i].1) && fields_eq(xs, ys, i + 1)
    }
}

/// Lexicographic comparison of character sequences by code point.
pub open spec fn lex_order(a: Seq<char>, b: Seq<char>) -> Order
    decreases a.len(),
{
    if a.len() == 0 && b.len() == 0 {
        Order::Equal
    } else if a.len() == 0 {
        Order::Less
    } else if b.len() == 0 {
        Order::Greater
    } else if a[0] < b[0] {
        Order::Less
    } else if a[0] > b[0] {
        Order::Greater
    } else {
        lex_order(a.drop_first(), b.drop_first())
    }
}

/// The order of two non-numeric values, where they have one: `null`
/// equals `null`, `false` is below `true`, and strings are ordered
/// lexicographically; values of other kinds are unordered.
pub open spec fn value_order(a: Val, b: Val) -> Option<Order> {
    match (a, b) {
        (Val::Null, Val::Null) => Some(Order::Equal),
        (Val::Bool(x), Val::Bool(y)) => Some(
            if x == y {
                Order::Equal
            } else if !x {
                Order::Less
            } else {
                Order::Greater
            },
        ),
        (Val::Str(x), Val::Str(y)) => Some(lex_order(x, y)),
        _ => None,
    }
}

/// The value of field `key` among a struct's fields, if there is one.
pub open spec fn field_of<T>(fields: Seq<(Seq<char>, T)>, key: Seq<char>) -> Option<T>
    decreases fields.len(),
{
    if fields.len() == 0 {
        None
    } else if fields[0].0 == key {
        Some(fields[0].1)
    } else {
        field_of(fields.drop_first(), key)
    }
}

/// The fields after setting `key` to `val`: the value of an existing key
/// is replaced in place, and a new key is added at the end.
pub open spec fn fields_set<T>(fields: Seq<(Seq<char>, T)>, key: Seq<char>, val: T) -> Seq<
    (Seq<char>, T),
>
    decreases fields.len(),
{
    if fields.len() == 0 {
        seq![(key, val)]
    } else if fields[0].0 == key {
        seq![(key, val)] + fields.drop_first()
    } else {
        seq![fields[0]] + fields_set(fields.drop_first(), key, val)
    }
}

impl Value {
    /// A deep copy of the value.
    pub fn copy(&self) -> (r: Value)
        ensures
            r@ == self@,
        decreases self,
    {
        match self {
            Value::Null => Value::Null,
            Value::Bool(b) => Value::Bool(*b),
            Value::Int(i) => Value::Int(*i),
            Value::Float(b) => Value::Float(*b),
            Value::Str(s) => Value::Str(s.clone()),
            Value::Array(items) => {
                let mut out: Vec<Value> = Vec::new();
                Self::copy_items(items, 0, &mut out);
                assert(items@.subrange(0, items@.len() as int) == items@);
                Value::Array(out)
            },
            Value::Struct(fields) => {
                let mut out: Vec<(String, Value)> = Vec::new();
                Self::copy_fields(fields, 0, &mut out);
                assert(fields@.subrange(0, fields@.len() as int) == fields@);
                Value::Struct(out)
            },
        }
    }

    fn copy_items(items: &Vec<Value>, i: usize, out: &mut Vec<Value>)
        requires
            i <= items@.len(),
            items_view(old(out)@) == items_view(items@.subrange(0, i as int)),
        ensures
            items_view(final(out)@) == items_view(items@),
        decreases items, items@.len() - i,
    {
        if i >= items.len() {
            assert(items@.subrange(0, i as int) == items@);
            return;
        }
        let c = items[i].copy();
        proof {
            lemma_items_view_push(out@, c);
            lemma_items_view_push(items@.subrange(0, i as int), items@[i as int]);
            assert(items@.subrange(0, i + 1) == items@.subrange(0, i as int).push(items@[i as int]));
        }
        out.push(c);
        Self::copy_items(items, i + 1, out);
    }

    fn copy_fields(fields: &Vec<(String, Value)>, i: usize, out: &mut Vec<(String, Value)>)
        requires
            i <= fields@.len(),
            fields_view(old(out)@) == fields_view(fields@.subrange(0, i as int)),
        ensures
            fields_view(final(out)@) == fields_view(fields@),
        decreases fields, fields@.len() - i,
    {
        if i >= fields.len() {
            assert(fields@.subrange(0, i as int) == fields@);
            return;
        }
        let k = fields[i].0.clone();
        let c = fields[i].1.copy();
        proof {
            lemma_fields_view_push(out@, (k, c));
            lemma_fields_view_push(fields@.subrange(0, i as int), fields@[i as int]);
            assert(fields@.subrange(0, i + 1) == fields@.subrange(0, i as int).push(
                fields@[i as int],
            ));
        }
        out.push((k, c));
        Self::copy_fields(fields, i + 1, out);
    }

    /// Whether the value is truthy (see `truthy`).
    pub fn is_truthy(&self) -> (r: bool)
        ensures
            r == truthy(self@),
    {
        broadcast use lemma_items_view, lemma_fields_view;

        match self {
            Value::Null => false,
            Value::Bool(b) => *b,
            Value::Int(i) => *i != 0,
            Value::Float(b) => !float_is_zero_exec(*b),
            Value::Str(s) => !s.as_str().is_empty(),
            Value::Array(items) => items.len() != 0,
            Value::Struct(fields) => fields.len() != 0,
        }
    }

    /// The name of the value's type (see `kind_name`).
    pub fn kind_name(&self) -> (r: String)
        ensures
            r@ == kind_name(self@),
    {
        let mut s = String::new();
        match self {
            Value::Null => push_str(&mut s, "null"),
            Value::Bool(_) => push_str(&mut s, "bool"),
            Value::Int(_) => push_str(&mut s, "number"),
            Value::Float(_) => push_str(&mut s, "number"),
            Value::Str(_) => push_str(&mut s, "string"),
            Value::Array(_) => push_str(&mut s, "array"),
            Value::Struct(_) => push_str(&mut s, "struct"),
        }
        s
    }

    /// Value equality (see `value_eq`).
    pub fn equals(&self, other: &Value) -> (r: bool)
        ensures
            r == value_eq(self@, other@),
        decreases self, 0nat,
    {
        broadcast use lemma_items_view, lemma_fields_view;

        match (self, other) {
            (Value::Null, Value::Null) => true,
            (Value::Bool(x), Value::Bool(y)) => *x == *y,
            (Value::Int(x), Value::Int(y)) => *x == *y,
            (Value::Float(x), Value::Float(y)) => float_eq_exec(*x, *y),
            (Value::Str(x), Value::Str(y)) => crate::text::str_eq(x.as_str(), y.as_str()),
            (Value::Array(xs), Value::Array(ys)) => {
                proof {
                    lemma_items_view(xs@);
                    lemma_items_view(ys@);
                }
                if xs.len() != ys.len() {
                    return false;
                }
                proof { assert(decreases_to!(*self => xs)); }
                Self::items_equal(xs, ys, 0)
            },
            (Value::Struct(xs), Value::Struct(ys)) => {
                proof {
                    lemma_fields_view(xs@);
                    lemma_fields_view(ys@);
                }
                if xs.len() != ys.len() {
                    return false;
                }
                proof { assert(decreases_to!(*self => xs)); }
                Self::fields_equal(xs, ys, 0)
            },
            _ => false,
        }
    }

    fn items_equal(xs: &Vec<Value>, ys: &Vec<Value>, i: usize) -> (r: bool)
        requires
            xs@.len() == ys@.len(),
            i <= xs@.len(),
        ensures
            r == items_eq(items_view(xs@), items_view(ys@), i as int),
        decreases xs, xs@.len() - i,
    {
        broadcast use lemma_items_view;

        if i >= xs.len() {
            return true;
        }
        proof { assert(decreases_to!(xs => xs[i as int])); }
        let e = xs[i].equals(&ys[i]);
        proof {
            lemma_items_view(xs@);
            lemma_items_view(ys@);
        }
        if !e {
            return false;
        }
        Self::items_equal(xs, ys, i + 1)
    }

    fn fields_equal(xs: &Vec<(String, Value)>, ys: &Vec<(String, Value)>, i: usize) -> (r: bool)
        requires
            xs@.len() == ys@.len(),
            i <= xs@.len(),
        ensures
            r == fields_eq(fields_view(xs@), fields_view(ys@), i as int),
        decreases xs, xs@.len() - i,
    {
        broadcast use lemma_fields_view;

        if i >= xs.len() {
            return true;
        }
        if !crate::text::str_eq(xs[i].0.as_str(), ys[i].0.as_str()) {
            proof {
                lemma_fields_view(xs@);
                lemma_fields_view(ys@);
            }
            return false;
        }
        proof { assert(decreases_to!(xs => xs[i as int])); }
        let e = xs[i].1.equals(&ys[i].1);
        proof {
            lemma_fields_view(xs@);
            lemma_fields_view(ys@);
        }
        if !e {
            return false;
        }
        Self::fields_equal(xs, ys, i + 1)
    }
}

impl Clone for Value {
    fn clone(&self) -> (r: Value)
        ensures
            r@ == self@,
    {
        self.copy()
    }
}

/// Lexicographic comparison of two strings (see `lex_order`).
pub fn lex_order_exec(a: &str, b: &str) -> (r: Order)
    ensures
        r == lex_order(a@, b@),
{
    let va = chars_of(a);
    let vb = chars_of(b);
    let mut i: usize = 0;
    assert(va@.subrange(0, va@.len() as int) == va@);
    assert(vb@.subrange(0, vb@.len() as int) == vb@);
    while i < va.len() && i < vb.len()
        invariant
            i <= va@.len(),
            i <= vb@.len(),
            va@ == a@,
            vb@ == b@,
            lex_order(a@, b@) == lex_order(
                va@.subrange(i as int, va@.len() as int),
                vb@.subrange(i as int, vb@.len() as int),
            ),
        decreases va@.len() - i,
    {
        let ca = va[i];
        let cb = vb[i];
        let ghost sa = va@.subrange(i as int, va@.len() as int);
        let ghost sb = vb@.subrange(i as int, vb@.len() as int);
        assert(sa[0] == ca && sb[0] == cb);
        if ca < cb {
            return Order::Less;
        }
        if ca > cb {
            return Order::Greater;
        }
        assert(sa.drop_first() == va@.subrange(i + 1, va@.len() as int));
        assert(sb.drop_first() == vb@.subrange(i + 1, vb@.len() as int));
        i += 1;
    }
    if i == va.len() && i == vb.len() {
        Order::Equal
    } else if i == va.len() {
        Order::Less
    } else {
        Order::Greater
    }
}

/// The order of two non-numeric values (see `value_order`).
pub fn value_order_exec(a: &Value, b: &Value) -> (r: Option<Order>)
    ensures
        r == value_order(a@, b@),
{
    match (a, b) {
        (Value::Null, Value::Null) => Some(Order::Equal),
        (Value::Bool(x), Value::Bool(y)) => Some(
            if *x == *y {
                Order::Equal
            } else if !*x {
                Order::Less
            } else {
                Order::Greater
            },
        ),
        (Value::Str(x), Value::Str(y)) => Some(lex_order_exec(x.as_str(), y.as_str())),
        _ => None,
    }
}

/// The value of field `key` among `fields`, if there is one.
pub fn field_get<'a>(fields: &'a Vec<(String, Value)>, key: &str) -> (r: Option<&'a Value>)
    ensures
        match r {
            Some(v) => field_of(fields_view(fields@), key@) == Some(v@),
            None => field_of(fields_view(fields@), key@) is None,
        },
{
    broadcast use lemma_fields_view;

    let kv = chars_of(key);
    let mut i: usize = 0;
    assert(fields_view(fields@).subrange(0, fields@.len() as int) == fields_view(fields@));
    while i < fields.len()
        invariant
            i <= fields@.len(),
            kv@ == key@,
            field_of(fields_view(fields@), key@) == field_of(
                fields_view(fields@).subrange(i as int, fields@.len() as int),
                key@,
            ),
        decreases fields@.len() - i,
    {
        let ghost rest = fields_view(fields@).subrange(i as int, fields@.len() as int);
        proof {
            lemma_fields_view(fields@);
            assert(rest[0] == (fields@[i as int].0@, fields@[i as int].1@));
        }
        let fv = chars_of(fields[i].0.as_str());
        if chars_eq(&fv, &kv) {
            return Some(&fields[i].1);
        }
        assert(rest.drop_first() == fields_view(fields@).subrange(i + 1, fields@.len() as int));
        i += 1;
    }
    None
}

/// Sets field `key` to `val` (see `fields_set`).
pub fn field_set(fields: &mut Vec<(String, Value)>, key: String, val: Value)
    ensures
        fields_view(final(fields)@) == fields_set(fields_view(old(fields)@), key@, val@),
{
    broadcast use lemma_fields_view;

    let kv = chars_of(key.as_str());
    let mut i: usize = 0;
    while i < fields.len()
        invariant
            i <= fields@.len(),
            kv@ == key@,
            fields@ == old(fields)@,
            forall|j: int| 0 <= j < i ==> #[trigger] fields@[j].0@ != key@,
        decreases fields@.len() - i,
    {
        let fv = chars_of(fields[i].0.as_str());
        if chars_eq(&fv, &kv) {
            let ghost before = fields@;
            fields.set(i, (key, val));
            proof {
                lemma_fields_view(before);
                lemma_fields_view(fields@);
                assert forall|j: int| 0 <= j < i implies #[trigger] fields_view(before)[j].0 != key@ by {
                    assert(before[j].0@ != key@);
                }
                lemma_fields_set_at(fields_view(before), key@, val@, i as int);
                assert(fields_view(fields@) =~= fields_view(before).update(i as int, (key@, val@)));
            }
            return;
        }
        i += 1;
    }
    let ghost before = fields@;
    fields.push((key, val));
    proof {
        lemma_fields_set_absent(fields_view(before), key@, val@);
        lemma_fields_view_push(before, (key, val));
    }
}

pub proof fn lemma_fields_set_at<T>(fields: Seq<(Seq<char>, T)>, key: Seq<char>, val: T, i: int)
    requires
        0 <= i < fields.len(),
        fields[i].0 == key,
        forall|j: int| 0 <= j < i ==> #[trigger] fields[j].0 != key,
    ensures
        fields_set(fields, key, val) == fields.update(i, (key, val)),
    decreases i,
{
    if i > 0 {
        assert forall|j: int| 0 <= j < i - 1 implies #[trigger] fields.drop_first()[j].0 != key by {
            assert(fields.drop_first()[j] == fields[j + 1]);
        }
        lemma_fields_set_at(fields.drop_first(), key, val, i - 1);
        assert(fields.update(i, (key, val)) == seq![fields[0]] + fields.drop_first().update(
            i - 1,
            (key, val),
        ));
    } else {
        assert(fields.update(0, (key, val)) == seq![(key, val)] + fields.drop_first());
    }
}

pub proof fn lemma_fields_set_absent<T>(fields: Seq<(Seq<char>, T)>, key: Seq<char>, val: T)
    requires
        forall|j: int| 0 <= j < fields.len() ==> #[trigger] fields[j].0 != key,
    ensures
        fields_set(fields, key, val) == fields.push((key, val)),
    decreases fields.len(),
{
    if fields.len() > 0 {
        assert forall|j: int| 0 <= j < fields.drop_first().len() implies #[trigger] fields.drop_first()[j].0 != key by {
            assert(fields.drop_first()[j] == fields[j + 1]);
        }
        lemma_fields_set_absent(fields.drop_first(), key, val);
        assert(fields.push((key, val)) == seq![fields[0]] + fields.drop_first().push((key, val)));
    } else {
        assert(fields.push((key, val)) == seq![(key, val)]);
    }
}


/// After setting `key` to `val`, looking `key` up finds `val`.
pub proof fn lemma_field_of_set_same<T>(fields: Seq<(Seq<char>, T)>, key: Seq<char>, val: T)
    ensures
        field_of(fields_set(fields, key, val), key) == Some(val),
    decreases fields.len(),
{
    if fields.len() > 0 && fields[0].0 != key {
        lemma_field_of_set_same(fields.drop_first(), key, val);
        assert((seq![fields[0]] + fields_set(fields.drop_first(), key, val)).drop_first()
            == fields_set(fields.drop_first(), key, val));
    }
}

/// Setting `key` leaves every other key's value as it was.
pub proof fn lemma_field_of_set_other<T>(
    fields: Seq<(Seq<char>, T)>,
    key: Seq<char>,
    val: T,
    other: Seq<char>,
)
    requires
        other != key,
    ensures
        field_of(fields_set(fields, key, val), other) == field_of(fields, other),
    decreases fields.len(),
{
    if fields.len() == 0 {
        let s = seq![(key, val)];
        assert(s[0].0 != other);
        assert(s.drop_first().len() == 0);
        assert(field_of(s.drop_first(), other) is None);
        assert(field_of(s, other) == field_of(s.drop_first(), other));
    } else if fields[0].0 == key {
        let s = seq![(key, val)] + fields.drop_first();
        assert(s[0].0 != other);
        assert(s.drop_first() == fields.drop_first());
        assert(field_of(s, other) == field_of(s.drop_first(), other));
    } else {
        lemma_field_of_set_other(fields.drop_first(), key, val, other);
        let s = seq![fields[0]] + fields_set(fields.drop_first(), key, val);
        assert(s[0] == fields[0]);
        assert(s.drop_first() == fields_set(fields.drop_first(), key, val));
        if fields[0].0 != other {
            assert(field_of(s, other) == field_of(s.drop_first(), other));
        }
    }
}

/// The lookup finds the first entry with the key.
pub proof fn lemma_field_of_first<T>(fields: Seq<(Seq<char>, T)>, key: Seq<char>, i: int)
    requires
        0 <= i < fields.len(),
        fields[i].0 == key,
        forall|j: int| 0 <= j < i ==> #[trigger] fields[j].0 != key,
    ensures
        field_of(fields, key) == Some(fields[i].1),
    decreases i,
{
    if i > 0 {
        assert forall|j: int| 0 <= j < i - 1 implies #[trigger] fields.drop_first()[j].0 != key by {
            assert(fields.drop_first()[j] == fields[j + 1]);
        }
        lemma_field_of_first(fields.drop_first(), key, i - 1);
    }
}

/// The lookup finds nothing when no entry has the key.
pub proof fn lemma_field_of_none<T>(fields: Seq<(Seq<char>, T)>, key: Seq<char>)
    requires
        forall|j: int| 0 <= j < fields.len() ==> #[trigger] fields[j].0 != key,
    ensures
        field_of(fields, key) is None,
    decreases fields.len(),
{
    if fields.len() > 0 {
        assert forall|j: int| 0 <= j < fields.drop_first().len() implies #[trigger] fields.drop_first()[j].0 != key by {
            assert(fields.drop_first()[j] == fields[j + 1]);
        }
        lemma_field_of_none(fields.drop_first(), key);
    }
}

} // verus!
