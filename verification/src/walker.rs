//! Chain walker: turns a chain expression (`cas().color('red').props`) into
//! its op list, or `None` when any part of it is not statically known.

use vstd::prelude::*;
use crate::ast::{
    strip_parens, lemma_strip_parens_below, Arg, ArrowBody, Callee, Cooked, Expr, Lit, MemberProp,
    NumLit, Pat, UnaryOp,
};
use crate::ir::{
    json_values_view, lemma_ops_view_push, op_view, ops_view, JsonNumber, JsonValue, MethodOp, Op,
    RawOp, ScopedOp, SpecJson, SpecOp,
};
use crate::modifiers::{
    arg_modifier, arg_modifier_of, arg_modifier_scope, arg_modifier_scope_of, canonical_scope,
    canonical_scope_of,
};
use crate::text::{
    ascii_lowercase, contains_char, i64_to_decimal, int_decimal, is_ascii_upper,
    is_ascii_uppercase, push_char, str_equals, to_ascii_lower,
};

verus! {

/// The local names bound to a chain-root export (`cas`, or an alias of it).
pub struct ChainRoots {
    names: Vec<String>,
}

impl View for ChainRoots {
    type V = Set<Seq<char>>;

    closed spec fn view(&self) -> Set<Seq<char>> {
        Set::new(|n: Seq<char>| exists|i: int| 0 <= i < self.names.len() && self.names@[i]@ == n)
    }
}

impl ChainRoots {
    /// No name is held twice.
    #[verifier::type_invariant]
    spec fn names_distinct(self) -> bool {
        forall|i: int, j: int|
            0 <= i < j < self.names.len() ==> #[trigger] self.names@[i]@ != #[trigger] self.names@[j]@
    }

    pub fn new() -> (r: ChainRoots)
        ensures
            r@ == Set::<Seq<char>>::empty(),
    {
        let r = ChainRoots { names: Vec::new() };
        assert(r@ =~= Set::<Seq<char>>::empty());
        r
    }

    /// Whether `name` is a chain root.
    pub fn contains(&self, name: &str) -> (r: bool)
        ensures
            r == self@.contains(name@),
    {
        let n = self.names.len();
        let mut i: usize = 0;
        while i < n
            invariant
                n == self.names.len(),
                i <= n,
                forall|j: int| 0 <= j < i ==> self.names@[j]@ != name@,
            decreases n - i,
        {
            if str_equals(self.names[i].as_str(), name) {
                return true;
            }
            i = i + 1;
        }
        false
    }

    /// Adds `name` to the roots.
    pub fn insert(&mut self, name: String)
        ensures
            final(self)@ == old(self)@.insert(name@),
    {
        proof {
            use_type_invariant(&*self);
        }
        if !self.contains(name.as_str()) {
            let mut names: Vec<String> = Vec::new();
            std::mem::swap(&mut names, &mut self.names);
            let ghost before = names@;
            names.push(name);
            proof {
                assert forall|i: int, j: int| 0 <= i < j < names.len() implies names@[i]@ != names@[j]@ by {
                    if j == names.len() - 1 {
                        assert(names@[i] == before[i]);
                        assert(old(self)@.contains(names@[i]@));
                    } else {
                        assert(names@[i] == before[i] && names@[j] == before[j]);
                    }
                }
            }
            self.names = names;
        }
        proof {
            assert forall|n: Seq<char>| final(self)@.contains(n) <==> old(self)@.insert(name@).contains(n) by {
                if old(self)@.insert(name@).contains(n) && n != name@ {
                    let i = choose|i: int| 0 <= i < old(self).names.len() && old(self).names@[i]@ == n;
                    assert(self.names@[i] == old(self).names@[i]);
                }
                if n == name@ && !old(self)@.contains(n) {
                    assert(self.names@[self.names.len() - 1]@ == n);
                }
            }
            assert(final(self)@ =~= old(self)@.insert(name@));
        }
    }

    /// Whether no root is bound.
    pub fn is_empty(&self) -> (r: bool)
        ensures
            r == (self@ == Set::<Seq<char>>::empty()),
    {
        if self.names.len() == 0 {
            assert(self@ =~= Set::<Seq<char>>::empty());
            true
        } else {
            assert(self@.contains(self.names@[0]@));
            false
        }
    }
}

// ---------------------------------------------------------------------------
// What the walk means
// ---------------------------------------------------------------------------

/// `e` without parentheses and without one trailing `.props` access.
pub open spec fn peeled_props(e: Expr) -> Expr {
    match strip_parens(e) {
        Expr::Member(obj, MemberProp::Ident(name)) => if name@ == "props"@ {
            strip_parens(*obj)
        } else {
            strip_parens(e)
        },
        _ => strip_parens(e),
    }
}

pub proof fn lemma_peeled_props_below(e: Expr)
    ensures
        peeled_props(e) == e || decreases_to!(e => peeled_props(e)),
{
    lemma_strip_parens_below(e);
    if let Expr::Member(obj, _) = strip_parens(e) {
        lemma_strip_parens_below(*obj);
    }
}

/// The static text of a template without substitutions.
pub open spec fn static_tpl_text(quasis: Seq<Cooked>, n_exprs: usize) -> Option<Seq<char>> {
    if n_exprs == 0 && quasis.len() == 1 {
        match quasis[0] {
            Cooked::Text(s) => Some(s@),
            _ => None,
        }
    } else {
        None
    }
}

/// The text of a string literal or substitution-free template.
pub open spec fn string_literal_of(e: Expr) -> Option<Seq<char>> {
    match e {
        Expr::Lit(Lit::Str(v)) => match v {
            Some(s) => Some(s@),
            None => None,
        },
        Expr::Tpl { quasis, n_exprs } => static_tpl_text(quasis@, n_exprs),
        _ => None,
    }
}

/// The text a number takes as a property value: decimal digits for a safe
/// whole number, its display form otherwise.
pub open spec fn number_text(n: NumLit) -> Seq<char> {
    match n {
        NumLit::SafeInt(i) => int_decimal(i.int_value()),
        NumLit::Finite { display, .. } => display@,
        NumLit::NonFinite { display } => display@,
    }
}

/// The text of a string literal, template or number literal.
pub open spec fn string_or_number_of(e: Expr) -> Option<Seq<char>> {
    match e {
        Expr::Lit(Lit::Num(n)) => Some(number_text(n)),
        _ => string_literal_of(e),
    }
}

/// The JSON number of a numeric literal, negated when `negate`; `None` for
/// NaN and the infinities.
pub open spec fn num_json(n: NumLit, negate: bool) -> Option<SpecJson> {
    match n {
        NumLit::SafeInt(i) => Some(SpecJson::Int(if negate { -i.int_value() } else { i.int_value() })),
        NumLit::Finite { negative, json_magnitude, .. } => Some(
            SpecJson::Float(negative != negate, json_magnitude@),
        ),
        NumLit::NonFinite { .. } => None,
    }
}

/// The JSON value of a literal argument; `-`, `+` and `!` fold on a literal
/// operand (inside any parentheses).
pub open spec fn json_of(e: Expr) -> Option<SpecJson> {
    match e {
        Expr::Lit(Lit::Str(v)) => match v {
            Some(s) => Some(SpecJson::String(s@)),
            None => None,
        },
        Expr::Lit(Lit::Num(n)) => num_json(n, false),
        Expr::Lit(Lit::Bool(b)) => Some(SpecJson::Bool(b)),
        Expr::Lit(Lit::Null) => Some(SpecJson::Null),
        Expr::Tpl { quasis, n_exprs } => match static_tpl_text(quasis@, n_exprs) {
            Some(s) => Some(SpecJson::String(s)),
            None => None,
        },
        Expr::Unary(op, arg) => match (op, strip_parens(*arg)) {
            (UnaryOp::Minus, Expr::Lit(Lit::Num(n))) => num_json(n, true),
            (UnaryOp::Plus, Expr::Lit(Lit::Num(n))) => num_json(n, false),
            (UnaryOp::Bang, Expr::Lit(Lit::Bool(b))) => Some(SpecJson::Bool(!b)),
            _ => None,
        },
        _ => None,
    }
}

/// The kebab form of every character: an upper-case letter becomes `-` and
/// its lower-case form.
pub open spec fn kebab_chars(s: Seq<char>) -> Seq<char>
    decreases s.len(),
{
    if s.len() == 0 {
        Seq::empty()
    } else {
        kebab_chars(s.drop_last()) + if is_ascii_upper(s.last()) {
            seq!['-', to_ascii_lower(s.last())]
        } else {
            seq![s.last()]
        }
    }
}

/// A property name in kebab case: unchanged when it already holds a `-`.
pub open spec fn kebab_of(s: Seq<char>) -> Seq<char> {
    if s.contains('-') {
        s
    } else {
        kebab_chars(s)
    }
}

/// The outcome of one call in a chain.
pub enum StepSpec {
    /// A method step with this op.
    Method(SpecOp),
    /// The root call `cas()`.
    Root,
    Fail,
}

/// The ops of the chain whose outermost node is `e`. `first` holds at the
/// outermost position, where a bare root name is not a chain.
pub open spec fn chain_ops(e: Expr, roots: Set<Seq<char>>, first: bool) -> Option<Seq<SpecOp>>
    decreases e, 2nat,
{
    match e {
        Expr::Paren(inner) => chain_ops(*inner, roots, first),
        Expr::Call(callee, args) => match step_call_spec(callee, args, roots) {
            StepSpec::Method(op) => match callee {
                Callee::Expr(c) => match *c {
                    Expr::Member(obj, _) => match chain_ops(*obj, roots, false) {
                        Some(ops) => Some(ops.push(op)),
                        None => None,
                    },
                    _ => None,
                },
                Callee::Other => None,
            },
            StepSpec::Root => Some(Seq::empty()),
            StepSpec::Fail => None,
        },
        Expr::Ident(name) => if !first && roots.contains(name@) {
            Some(Seq::empty())
        } else {
            None
        },
        _ => None,
    }
}

/// One call of a chain: a method step on a member callee, or the root call
/// with no arguments.
pub open spec fn step_call_spec(callee: Callee, args: Vec<Arg>, roots: Set<Seq<char>>) -> StepSpec
    decreases args, 1nat,
{
    match callee {
        Callee::Expr(c) => match *c {
            Expr::Member(_, prop) => match method_op_spec(prop, args) {
                Some(op) => StepSpec::Method(op),
                None => StepSpec::Fail,
            },
            Expr::Ident(name) => if roots.contains(name@) && args.len() == 0 {
                StepSpec::Root
            } else {
                StepSpec::Fail
            },
            _ => StepSpec::Fail,
        },
        Callee::Other => StepSpec::Fail,
    }
}

/// The argument `i` with its parentheses removed.
pub open spec fn arg_at(args: Vec<Arg>, i: int) -> Expr {
    strip_parens(args@[i].expr)
}

/// The op of the method step `.prop(args)`.
pub open spec fn method_op_spec(prop: MemberProp, args: Vec<Arg>) -> Option<SpecOp>
    decreases args, 0nat,
{
    match prop {
        MemberProp::Ident(name) => if exists|i: int| 0 <= i < args.len() && #[trigger] args@[i].spread {
            None
        } else if name@ == "set"@ {
            if args.len() != 2 {
                None
            } else {
                match (string_literal_of(arg_at(args, 0)), string_or_number_of(arg_at(args, 1))) {
                    (Some(p), Some(v)) => Some(SpecOp::Raw(kebab_of(p), v)),
                    _ => None,
                }
            }
        } else {
            match canonical_scope_of(name@) {
                Some(sc) => if args.len() != 1 {
                    None
                } else {
                    proof {
                        lemma_strip_parens_below(args@[0].expr);
                    }
                    match callback_ops(arg_at(args, 0)) {
                        Some(inner) => Some(SpecOp::Scoped(sc, inner)),
                        None => None,
                    }
                },
                None => match arg_modifier_of(name@) {
                    Some(m) => if args.len() != 2 {
                        None
                    } else {
                        proof {
                            lemma_strip_parens_below(args@[1].expr);
                        }
                        match (string_literal_of(arg_at(args, 0)), callback_ops(arg_at(args, 1))) {
                            (Some(v), Some(inner)) => Some(
                                SpecOp::Scoped(arg_modifier_scope_of(m, v), inner),
                            ),
                            _ => None,
                        }
                    },
                    None => if forall|i: int|
                        0 <= i < args.len() ==> (#[trigger] json_of(arg_at(args, i))) is Some {
                        Some(
                            SpecOp::Method(
                                name@,
                                Seq::new(args.len() as nat, |i: int| json_of(arg_at(args, i)).unwrap()),
                            ),
                        )
                    } else {
                        None
                    },
                },
            }
        },
        MemberProp::Other => None,
    }
}

/// The ops of a callback `p => body`, walked with `p` as its only root.
pub open spec fn callback_ops(e: Expr) -> Option<Seq<SpecOp>>
    decreases e, 2nat,
{
    match e {
        Expr::Arrow(params, body) => if params.len() == 1 {
            match params@[0] {
                Pat::Ident(p) => match body {
                    ArrowBody::Expr(b) => {
                        proof {
                            lemma_peeled_props_below(*b);
                        }
                        chain_ops(peeled_props(*b), Set::empty().insert(p@), true)
                    },
                    ArrowBody::Block => None,
                },
                Pat::Other => None,
            }
        } else {
            None
        },
        _ => None,
    }
}

/// The op list of a chain expression, as a JSX spread holds it.
pub open spec fn walk_chain_spec(e: Expr, roots: Set<Seq<char>>) -> Option<Seq<SpecOp>> {
    chain_ops(peeled_props(e), roots, true)
}

// ---------------------------------------------------------------------------
// The walk
// ---------------------------------------------------------------------------

pub open spec fn opt_text(r: Option<String>) -> Option<Seq<char>> {
    match r {
        Some(s) => Some(s@),
        None => None,
    }
}

pub open spec fn opt_json(r: Option<JsonValue>) -> Option<SpecJson> {
    match r {
        Some(v) => Some(v@),
        None => None,
    }
}

pub open spec fn opt_op(r: Option<Op>) -> Option<SpecOp> {
    match r {
        Some(o) => Some(op_view(o)),
        None => None,
    }
}

pub open spec fn opt_ops(r: Option<Vec<Op>>) -> Option<Seq<SpecOp>> {
    match r {
        Some(v) => Some(ops_view(v@)),
        None => None,
    }
}

/// The receiver `obj` of a member callee `obj.m`.
pub open spec fn callee_receiver(c: Callee) -> Option<Expr> {
    match c {
        Callee::Expr(b) => match *b {
            Expr::Member(obj, _) => Some(*obj),
            _ => None,
        },
        Callee::Other => None,
    }
}

/// Parentheses do not change the chain.
pub proof fn lemma_chain_ops_strip(e: Expr, roots: Set<Seq<char>>, first: bool)
    ensures
        chain_ops(e, roots, first) == chain_ops(strip_parens(e), roots, first),
    decreases e,
{
    if let Expr::Paren(inner) = e {
        lemma_chain_ops_strip(*inner, roots, first);
    }
}

fn peel_parens(expr: &Expr) -> (r: &Expr)
    ensures
        *r == strip_parens(*expr),
    decreases expr,
{
    match expr {
        Expr::Paren(inner) => peel_parens(inner),
        _ => expr,
    }
}

/// Strips parentheses and one trailing `.props` access, so that
/// `(cas().X().props)`, `cas().X().props` and `cas().X()` start alike.
fn peel_props(expr: &Expr) -> (r: &Expr)
    ensures
        *r == peeled_props(*expr),
{
    let cursor = peel_parens(expr);
    match cursor {
        Expr::Member(obj, MemberProp::Ident(name)) => {
            if str_equals(name.as_str(), "props") {
                peel_parens(obj)
            } else {
                cursor
            }
        },
        _ => cursor,
    }
}

/// The name of an `obj.<name>` access; `None` for computed properties.
fn member_ident(prop: &MemberProp) -> (r: Option<&String>)
    ensures
        match r {
            Some(n) => *prop == MemberProp::Ident(*n),
            None => *prop == MemberProp::Other,
        },
{
    match prop {
        MemberProp::Ident(name) => Some(name),
        MemberProp::Other => None,
    }
}

/// `paddingTop` becomes `padding-top`, `WebkitBorderRadius` becomes
/// `-webkit-border-radius`; a name that already holds a `-` is kept.
pub fn camel_to_kebab(name: &str) -> (r: String)
    ensures
        r@ == kebab_of(name@),
{
    if contains_char(name, '-') {
        return String::from_str(name);
    }
    let mut out = String::new();
    let n = name.unicode_len();
    let mut i: usize = 0;
    while i < n
        invariant
            n == name@.len(),
            i <= n,
            out@ == kebab_chars(name@.take(i as int)),
        decreases n - i,
    {
        let ch = name.get_char(i);
        if is_ascii_uppercase(ch) {
            push_char(&mut out, '-');
            push_char(&mut out, ascii_lowercase(ch));
        } else {
            push_char(&mut out, ch);
        }
        proof {
            let t = name@.take(i as int + 1);
            assert(t.drop_last() =~= name@.take(i as int));
            assert(t.last() == ch);
            assert(out@ =~= kebab_chars(t));
        }
        i = i + 1;
    }
    assert(name@.take(n as int) =~= name@);
    out
}

/// The static text of a template literal without `${...}` substitutions.
fn tpl_to_static_string(quasis: &Vec<Cooked>, n_exprs: usize) -> (r: Option<String>)
    ensures
        opt_text(r) == static_tpl_text(quasis@, n_exprs),
{
    if n_exprs != 0 || quasis.len() != 1 {
        return None;
    }
    match &quasis[0] {
        Cooked::Text(s) => Some(s.clone()),
        _ => None,
    }
}

/// The text of a string literal or substitution-free template.
fn literal_string(expr: &Expr) -> (r: Option<String>)
    ensures
        opt_text(r) == string_literal_of(*expr),
{
    match expr {
        Expr::Lit(Lit::Str(v)) => match v {
            Some(s) => Some(s.clone()),
            None => None,
        },
        Expr::Tpl { quasis, n_exprs } => tpl_to_static_string(quasis, *n_exprs),
        _ => None,
    }
}

/// The value of `.set(prop, value)`: a string, or a number as text.
fn literal_string_or_number(expr: &Expr) -> (r: Option<String>)
    ensures
        opt_text(r) == string_or_number_of(*expr),
{
    match expr {
        Expr::Lit(Lit::Num(n)) => Some(
            match n {
                NumLit::SafeInt(i) => i64_to_decimal(i.get()),
                NumLit::Finite { display, .. } => display.clone(),
                NumLit::NonFinite { display } => display.clone(),
            },
        ),
        _ => literal_string(expr),
    }
}

/// The JSON number of a numeric literal (negated when `negate`); `None` for
/// NaN and the infinities.
fn num_to_json(n: &NumLit, negate: bool) -> (r: Option<JsonNumber>)
    ensures
        match r {
            Some(j) => num_json(*n, negate) == Some(JsonValue::Number(j)@),
            None => num_json(*n, negate) is None,
        },
{
    match n {
        NumLit::SafeInt(i) => {
            let v = i.get();
            Some(JsonNumber::Int(if negate { -v } else { v }))
        },
        NumLit::Finite { negative, json_magnitude, .. } => Some(
            JsonNumber::Float { negative: *negative != negate, magnitude: json_magnitude.clone() },
        ),
        NumLit::NonFinite { .. } => None,
    }
}

fn number_value(j: Option<JsonNumber>) -> (r: Option<JsonValue>)
    ensures
        match j {
            Some(x) => r == Some(JsonValue::Number(x)),
            None => r is None,
        },
{
    match j {
        Some(x) => Some(JsonValue::Number(x)),
        None => None,
    }
}

/// The JSON value of a literal argument.
fn literal_to_json(expr: &Expr) -> (r: Option<JsonValue>)
    ensures
        opt_json(r) == json_of(*expr),
{
    match expr {
        Expr::Lit(Lit::Str(v)) => match v {
            Some(s) => Some(JsonValue::String(s.clone())),
            None => None,
        },
        Expr::Lit(Lit::Num(n)) => number_value(num_to_json(n, false)),
        Expr::Lit(Lit::Bool(b)) => Some(JsonValue::Bool(*b)),
        Expr::Lit(Lit::Null) => Some(JsonValue::Null),
        Expr::Tpl { quasis, n_exprs } => match tpl_to_static_string(quasis, *n_exprs) {
            Some(s) => Some(JsonValue::String(s)),
            None => None,
        },
        Expr::Unary(op, arg) => {
            let a = peel_parens(arg);
            match (op, a) {
                (UnaryOp::Minus, Expr::Lit(Lit::Num(n))) => number_value(num_to_json(n, true)),
                (UnaryOp::Plus, Expr::Lit(Lit::Num(n))) => number_value(num_to_json(n, false)),
                (UnaryOp::Bang, Expr::Lit(Lit::Bool(b))) => Some(JsonValue::Bool(!*b)),
                _ => None,
            }
        },
        _ => None,
    }
}

/// The single identifier parameter of an arrow function.
fn arrow_param_root(params: &Vec<Pat>) -> (r: Option<String>)
    ensures
        match r {
            Some(p) => params@.len() == 1 && params@[0] == Pat::Ident(p),
            None => !(params@.len() == 1 && params@[0] is Ident),
        },
{
    if params.len() != 1 {
        return None;
    }
    match &params[0] {
        Pat::Ident(id) => Some(id.clone()),
        Pat::Other => None,
    }
}

/// Walks an arrow callback `p => body`: the body chain has `p` as its only
/// root, whatever the outer roots are.
fn walk_callback(expr: &Expr, _outer_roots: &ChainRoots) -> (r: Option<Vec<Op>>)
    ensures
        opt_ops(r) == callback_ops(*expr),
    decreases expr, 2nat,
{
    match expr {
        Expr::Arrow(params, body) => {
            let inner_root_name = match arrow_param_root(params) {
                Some(p) => p,
                None => return None,
            };
            let ghost p = inner_root_name@;
            let mut inner_roots = ChainRoots::new();
            inner_roots.insert(inner_root_name);
            match body {
                ArrowBody::Expr(b) => {
                    assert(inner_roots@ == Set::<Seq<char>>::empty().insert(p));
                    walk_chain(b, &inner_roots)
                },
                ArrowBody::Block => None,
            }
        },
        _ => None,
    }
}

/// One method step `.name(args)` as an op.
fn step_method(prop: &MemberProp, args: &Vec<Arg>, roots: &ChainRoots) -> (r: Option<Op>)
    ensures
        opt_op(r) == method_op_spec(*prop, *args),
    decreases args, 0nat,
{
    let method_name = match member_ident(prop) {
        Some(n) => n,
        None => return None,
    };
    let n = args.len();
    let mut i: usize = 0;
    while i < n
        invariant
            n == args@.len(),
            i <= n,
            forall|j: int| 0 <= j < i ==> !(#[trigger] args@[j].spread),
        decreases n - i,
    {
        if args[i].spread {
            return None;
        }
        i = i + 1;
    }
    // `.set(prop, value)`: a raw property write.
    if str_equals(method_name.as_str(), "set") {
        if n != 2 {
            return None;
        }
        let prop_name = match literal_string(peel_parens(&args[0].expr)) {
            Some(p) => p,
            None => return None,
        };
        let value = match literal_string_or_number(peel_parens(&args[1].expr)) {
            Some(v) => v,
            None => return None,
        };
        return Some(Op::Raw(RawOp { property: camel_to_kebab(prop_name.as_str()), value }));
    }
    // A canonical modifier: its one argument is the callback.
    match canonical_scope(method_name.as_str()) {
        Some(scope) => {
            if n != 1 {
                return None;
            }
            let cb = peel_parens(&args[0].expr);
            proof {
                lemma_strip_parens_below(args@[0].expr);
            }
            return match walk_callback(cb, roots) {
                Some(inner) => Some(Op::Scoped(ScopedOp { scope, ops: inner })),
                None => None,
            };
        },
        None => {},
    }
    // An argument modifier: a string, then the callback.
    match arg_modifier(method_name.as_str()) {
        Some(m) => {
            if n != 2 {
                return None;
            }
            let arg_value = match literal_string(peel_parens(&args[0].expr)) {
                Some(v) => v,
                None => return None,
            };
            let cb = peel_parens(&args[1].expr);
            proof {
                lemma_strip_parens_below(args@[1].expr);
            }
            return match walk_callback(cb, roots) {
                Some(inner) => Some(
                    Op::Scoped(
                        ScopedOp { scope: arg_modifier_scope(m, arg_value.as_str()), ops: inner },
                    ),
                ),
                None => None,
            };
        },
        None => {},
    }
    // A plain method with literal arguments.
    let mut json_args: Vec<JsonValue> = Vec::new();
    let mut k: usize = 0;
    while k < n
        invariant
            n == args@.len(),
            k <= n,
            *prop == MemberProp::Ident(*method_name),
            method_name@ != "set"@,
            canonical_scope_of(method_name@) is None,
            arg_modifier_of(method_name@) is None,
            forall|j: int| 0 <= j < n ==> !(#[trigger] args@[j].spread),
            json_args@.len() == k,
            forall|j: int| 0 <= j < k ==> (#[trigger] json_of(arg_at(*args, j))) is Some,
            forall|j: int|
                0 <= j < k ==> json_args@[j]@ == (#[trigger] json_of(arg_at(*args, j))).unwrap(),
        decreases n - k,
    {
        let v = match literal_to_json(peel_parens(&args[k].expr)) {
            Some(v) => v,
            None => {
                assert(json_of(arg_at(*args, k as int)) is None);
                return None;
            },
        };
        json_args.push(v);
        k = k + 1;
    }
    let ghost want = Seq::new(n as nat, |j: int| json_of(arg_at(*args, j)).unwrap());
    assert(json_values_view(json_args@) =~= want);
    Some(Op::Method(MethodOp { method: method_name.clone(), args: json_args }))
}

/// What one call of a chain is: a method step that continues from the
/// receiver, or the root call.
enum StepOutcome<'a> {
    Continue(&'a Expr, Op),
    Root,
}

fn step_call<'a>(callee: &'a Callee, args: &'a Vec<Arg>, roots: &ChainRoots) -> (r: Option<StepOutcome<'a>>)
    ensures
        match r {
            Some(StepOutcome::Continue(next, op)) => step_call_spec(*callee, *args, roots@)
                == StepSpec::Method(op_view(op)) && callee_receiver(*callee) == Some(*next),
            Some(StepOutcome::Root) => step_call_spec(*callee, *args, roots@) == StepSpec::Root,
            None => step_call_spec(*callee, *args, roots@) == StepSpec::Fail,
        },
    decreases args, 1nat,
{
    match callee {
        Callee::Expr(c) => match &**c {
            Expr::Member(obj, prop) => match step_method(prop, args, roots) {
                Some(op) => Some(StepOutcome::Continue(&**obj, op)),
                None => None,
            },
            Expr::Ident(name) => {
                if roots.contains(name.as_str()) && args.len() == 0 {
                    Some(StepOutcome::Root)
                } else {
                    None
                }
            },
            _ => None,
        },
        Callee::Other => None,
    }
}

/// Walks from `expr` down to the root, producing the ops in source order.
fn walk_steps(expr: &Expr, roots: &ChainRoots, first: bool) -> (r: Option<Vec<Op>>)
    ensures
        opt_ops(r) == chain_ops(*expr, roots@, first),
    decreases expr, 2nat,
{
    let cursor = peel_parens(expr);
    proof {
        lemma_chain_ops_strip(*expr, roots@, first);
        lemma_strip_parens_below(*expr);
    }
    match cursor {
        Expr::Call(callee, args) => match step_call(callee, args, roots) {
            Some(StepOutcome::Continue(next, op)) => {
                match walk_steps(next, roots, false) {
                    Some(mut ops) => {
                        proof {
                            lemma_ops_view_push(ops@, op);
                        }
                        ops.push(op);
                        Some(ops)
                    },
                    None => None,
                }
            },
            Some(StepOutcome::Root) => Some(Vec::new()),
            None => None,
        },
        Expr::Ident(name) => {
            if !first && roots.contains(name.as_str()) {
                Some(Vec::new())
            } else {
                None
            }
        },
        _ => None,
    }
}

/// Walks a chain expression, typically the argument of a JSX `{...expr}`
/// spread. `Some(ops)` for a fully recognised chain, `None` when any node of
/// it is not supported (the spread is then left to the runtime).
pub fn walk_chain(expr: &Expr, roots: &ChainRoots) -> (r: Option<Vec<Op>>)
    ensures
        opt_ops(r) == walk_chain_spec(*expr, roots@),
    decreases expr, 3nat,
{
    let cursor = peel_props(expr);
    proof {
        lemma_peeled_props_below(*expr);
    }
    walk_steps(cursor, roots, true)
}

} // verus!
