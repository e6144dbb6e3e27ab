//! Operators of the expression language.

use vstd::prelude::*;

use crate::text::push_str;

verus! {

/// A binary operator.
#[derive(Debug, Clone, Copy, PartialEq, Eq, Structural)]
pub enum BinaryOp {
    Add,
    Sub,
    Mul,
    Div,
    Mod,
    Eq,
    Ne,
    Lt,
    Le,
    Gt,
    Ge,
    And,
    Or,
}

/// A unary operator.
#[derive(Debug, Clone, Copy, PartialEq, Eq, Structural)]
pub enum UnaryOp {
    Neg,
    Not,
}

/// The binding power of an operator's left side: higher binds tighter.
/// `||` binds loosest, then `&&`, then `==`/`!=`, then the orderings,
/// then `+`/`-`, and `*`/`/`/`%` bind tightest.
pub open spec fn left_power(op: BinaryOp) -> u8 {
    match op {
        BinaryOp::Or => 1,
        BinaryOp::And => 3,
        BinaryOp::Eq | BinaryOp::Ne => 5,
        BinaryOp::Lt | BinaryOp::Le | BinaryOp::Gt | BinaryOp::Ge => 7,
        BinaryOp::Add | BinaryOp::Sub => 9,
        BinaryOp::Mul | BinaryOp::Div | BinaryOp::Mod => 11,
    }
}

/// The symbol that writes a binary operator.
pub open spec fn binary_symbol(op: BinaryOp) -> Seq<char> {
    match op {
        BinaryOp::Add => seq!['+'],
        BinaryOp::Sub => seq!['-'],
        BinaryOp::Mul => seq!['*'],
        BinaryOp::Div => seq!['/'],
        BinaryOp::Mod => seq!['%'],
        BinaryOp::Eq => seq!['=', '='],
        BinaryOp::Ne => seq!['!', '='],
        BinaryOp::Lt => seq!['<'],
        BinaryOp::Le => seq!['<', '='],
        BinaryOp::Gt => seq!['>'],
        BinaryOp::Ge => seq!['>', '='],
        BinaryOp::And => seq!['&', '&'],
        BinaryOp::Or => seq!['|', '|'],
    }
}

/// The symbol that writes a unary operator.
pub open spec fn unary_symbol(op: UnaryOp) -> Seq<char> {
    match op {
        UnaryOp::Neg => seq!['-'],
        UnaryOp::Not => seq!['!'],
    }
}

/// Whether the operator is one of the arithmetic operators.
pub open spec fn is_arith(op: BinaryOp) -> bool {
    op is Add || op is Sub || op is Mul || op is Div || op is Mod
}

/// Whether the operator is one of the ordering comparisons.
pub open spec fn is_ordering(op: BinaryOp) -> bool {
    op is Lt || op is Le || op is Gt || op is Ge
}

impl BinaryOp {
    /// Returns `(left_bp, right_bp)` for precedence climbing; the right
    /// power is one more than the left, which makes every operator
    /// left-associative.
    pub fn precedence(self) -> (r: (u8, u8))
        ensures
            r.0 == left_power(self),
            r.1 == left_power(self) + 1,
    {
        match self {
            BinaryOp::Or => (1, 2),
            BinaryOp::And => (3, 4),
            BinaryOp::Eq | BinaryOp::Ne => (5, 6),
            BinaryOp::Lt | BinaryOp::Le | BinaryOp::Gt | BinaryOp::Ge => (7, 8),
            BinaryOp::Add | BinaryOp::Sub => (9, 10),
            BinaryOp::Mul | BinaryOp::Div | BinaryOp::Mod => (11, 12),
        }
    }

    /// The operator's symbol, such as `"+"` or `"=="`.
    pub fn to_string(&self) -> (s: String)
        ensures
            s@ == binary_symbol(*self),
    {
        let mut s = String::new();
        match self {
            BinaryOp::Add => push_str(&mut s, "+"),
            BinaryOp::Sub => push_str(&mut s, "-"),
            BinaryOp::Mul => push_str(&mut s, "*"),
            BinaryOp::Div => push_str(&mut s, "/"),
            BinaryOp::Mod => push_str(&mut s, "%"),
            BinaryOp::Eq => push_str(&mut s, "=="),
            BinaryOp::Ne => push_str(&mut s, "!="),
            BinaryOp::Lt => push_str(&mut s, "<"),
            BinaryOp::Le => push_str(&mut s, "<="),
            BinaryOp::Gt => push_str(&mut s, ">"),
            BinaryOp::Ge => push_str(&mut s, ">="),
            BinaryOp::And => push_str(&mut s, "&&"),
            BinaryOp::Or => push_str(&mut s, "||"),
        }
        proof {
            reveal_strlit("+");
            reveal_strlit("-");
            reveal_strlit("*");
            reveal_strlit("/");
            reveal_strlit("%");
            reveal_strlit("==");
            reveal_strlit("!=");
            reveal_strlit("<");
            reveal_strlit("<=");
            reveal_strlit(">");
            reveal_strlit(">=");
            reveal_strlit("&&");
            reveal_strlit("||");
        }
        s
    }
}

impl UnaryOp {
    /// The operator's symbol: `"-"` or `"!"`.
    pub fn to_string(&self) -> (s: String)
        ensures
            s@ == unary_symbol(*self),
    {
        let mut s = String::new();
        match self {
            UnaryOp::Neg => push_str(&mut s, "-"),
            UnaryOp::Not => push_str(&mut s, "!"),
        }
        proof {
            reveal_strlit("-");
            reveal_strlit("!");
        }
        s
    }
}

/// Operators of a higher tier bind tighter than those of a lower one:
/// multiplicative over additive over orderings over equality over `&&`
/// over `||`; operators of one tier bind equally; and every operator is
/// left-associative (its right power is its left power plus one, below
/// the next tier's left power).
pub proof fn lemma_precedence_tiers(a: BinaryOp, b: BinaryOp)
    ensures
        (a is Mul || a is Div || a is Mod) && (b is Add || b is Sub) ==> left_power(a) > left_power(b),
        (a is Add || a is Sub) && is_ordering(b) ==> left_power(a) > left_power(b),
        is_ordering(a) && (b is Eq || b is Ne) ==> left_power(a) > left_power(b),
        (a is Eq || a is Ne) && b is And ==> left_power(a) > left_power(b),
        a is And && b is Or ==> left_power(a) > left_power(b),
        left_power(a) + 1 < left_power(b) || left_power(b) <= left_power(a),
{
}

} // verus!
