//! The part of an ECMAScript expression tree that the chain walker reads.
//!
//! A host parser's tree is converted into these values before a chain is
//! walked; every node the walker does not look into is `Other`.

use vstd::prelude::*;

verus! {

/// `2^53 - 1`, the largest integer that a JavaScript number holds exactly
/// together with all smaller ones.
pub const MAX_SAFE_INTEGER: i64 = 9_007_199_254_740_991;

/// A whole number within `[-(2^53 - 1), 2^53 - 1]`.
pub struct SafeInt {
    value: i64,
}

impl SafeInt {
    #[verifier::type_invariant]
    spec fn in_range(self) -> bool {
        -MAX_SAFE_INTEGER <= self.value <= MAX_SAFE_INTEGER
    }

    /// The number held.
    pub closed spec fn int_value(self) -> int {
        self.value as int
    }

    /// `Some` exactly when `v` lies in the safe range.
    pub fn new(v: i64) -> (r: Option<SafeInt>)
        ensures
            r is Some <==> -MAX_SAFE_INTEGER <= v <= MAX_SAFE_INTEGER,
            r matches Some(s) ==> s.int_value() == v,
    {
        if -MAX_SAFE_INTEGER <= v && v <= MAX_SAFE_INTEGER {
            Some(SafeInt { value: v })
        } else {
            None
        }
    }

    pub fn get(&self) -> (v: i64)
        ensures
            v == self.int_value(),
            -MAX_SAFE_INTEGER <= v <= MAX_SAFE_INTEGER,
    {
        proof {
            use_type_invariant(self);
        }
        self.value
    }
}

/// A numeric literal, classified as the walker needs it.
pub enum NumLit {
    /// A finite whole value inside the safe-integer range.
    SafeInt(SafeInt),
    /// Any other finite value: its sign, the JSON text of its magnitude and
    /// its display text.
    Finite { negative: bool, json_magnitude: String, display: String },
    /// NaN or an infinity, with its display text.
    NonFinite { display: String },
}

/// The cooked text of one template quasi.
pub enum Cooked {
    /// The quasi has no cooked value (an invalid escape).
    Absent,
    /// The cooked value is not valid UTF-8 (a lone surrogate).
    NotUtf8,
    Text(String),
}

pub enum Lit {
    /// A string literal; `None` when its value is not valid UTF-8.
    Str(Option<String>),
    Num(NumLit),
    Bool(bool),
    Null,
    Other,
}

pub enum UnaryOp {
    Minus,
    Plus,
    Bang,
    Other,
}

/// The property of a member access `obj.<prop>`.
pub enum MemberProp {
    Ident(String),
    /// A computed (`obj[e]`) or private property.
    Other,
}

/// The callee of a call: an expression, or `super` / `import`.
pub enum Callee {
    Expr(Box<Expr>),
    Other,
}

/// One argument of a call; `spread` marks `...arg`.
pub struct Arg {
    pub spread: bool,
    pub expr: Expr,
}

/// A parameter pattern of an arrow function.
pub enum Pat {
    Ident(String),
    Other,
}

pub enum ArrowBody {
    Expr(Box<Expr>),
    Block,
}

pub enum Expr {
    Paren(Box<Expr>),
    Ident(String),
    Lit(Lit),
    /// A template literal: the cooked texts of its quasis and the number of
    /// embedded `${...}` expressions.
    Tpl { quasis: Vec<Cooked>, n_exprs: usize },
    Unary(UnaryOp, Box<Expr>),
    Member(Box<Expr>, MemberProp),
    Call(Callee, Vec<Arg>),
    Arrow(Vec<Pat>, ArrowBody),
    Other,
}

/// `e` with every enclosing pair of parentheses removed.
pub open spec fn strip_parens(e: Expr) -> Expr
    decreases e,
{
    match e {
        Expr::Paren(inner) => strip_parens(*inner),
        _ => e,
    }
}

/// Removing parentheses yields `e` itself or a part of it.
pub proof fn lemma_strip_parens_below(e: Expr)
    ensures
        strip_parens(e) == e || decreases_to!(e => strip_parens(e)),
        !(strip_parens(e) is Paren),
    decreases e,
{
    if let Expr::Paren(inner) = e {
        lemma_strip_parens_below(*inner);
    }
}

} // verus!
