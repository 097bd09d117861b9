//! What the walk, the JSON text and the import scan give, stated over their
//! inputs: which names root a chain, what a step of a chain becomes, and how
//! a literal argument is written.

use vstd::prelude::*;
use crate::ast::{Arg, ArrowBody, Callee, Expr, Lit, MemberProp, NumLit, Pat, SafeInt, UnaryOp};
use crate::ir::{json_args_text, json_value_text, op_text, ops_text, SpecJson, SpecOp, SpecScope};
use crate::modifiers::{arg_modifier_of, arg_modifier_scope_of, canonical_scope_of, ArgModifier};
use crate::text::{digit_char, int_decimal, nat_decimal};
use crate::visitor::{
    import_roots, rewrite_of, specifier_root, ImportDecl, ImportSpecifier, ModuleExportName,
    SpreadElement,
};
use crate::walker::{arg_at, json_of, kebab_of, method_op_spec, walk_chain_spec};

verus! {

// ---------------------------------------------------------------------------
// Imports
// ---------------------------------------------------------------------------

/// A runtime named import from the core package binds its local name as a
/// chain root exactly when the name it imports is `cas`, `css`, `cassida`
/// or `default`, whether it is aliased (`{ css as x }`) or not (`{ css }`).
pub proof fn law_root_exports_are_cas_css_cassida_default(local: String, name: String)
    ensures
        specifier_root(
            ImportSpecifier::Named {
                local,
                imported: Some(ModuleExportName::Ident(name)),
                is_type_only: false,
            },
        ) == if name@ == "cas"@ || name@ == "css"@ || name@ == "cassida"@ || name@ == "default"@ {
            Some(local@)
        } else {
            None
        },
        specifier_root(ImportSpecifier::Named { local, imported: None, is_type_only: false })
            == if local@ == "cas"@ || local@ == "css"@ || local@ == "cassida"@ || local@ == "default"@ {
            Some(local@)
        } else {
            None
        },
{
}

// ---------------------------------------------------------------------------
// Steps of a chain
// ---------------------------------------------------------------------------

/// A plain method step `.name(args)` (a name that is neither `set` nor a
/// modifier, and no spread argument) gives an op exactly when every
/// argument is a literal, and that op is a method op named `name` as
/// written, holding the arguments' JSON values in their order.
pub proof fn law_plain_method_keeps_its_name(name: String, args: Vec<Arg>)
    requires
        name@ != "set"@,
        canonical_scope_of(name@) is None,
        arg_modifier_of(name@) is None,
        forall|i: int| 0 <= i < args.len() ==> !(#[trigger] args@[i]).spread,
    ensures
        method_op_spec(MemberProp::Ident(name), args) is Some <==> forall|i: int|
            0 <= i < args.len() ==> (#[trigger] json_of(arg_at(args, i))) is Some,
        method_op_spec(MemberProp::Ident(name), args) is Some ==> {
            &&& method_op_spec(MemberProp::Ident(name), args) matches Some(SpecOp::Method(m, a))
            &&& m == name@
            &&& a.len() == args.len()
            &&& forall|i: int| 0 <= i < args.len() ==> Some(#[trigger] a[i]) == json_of(arg_at(args, i))
        },
{
    assert(forall|i: int| 0 <= i < args.len() ==> !args@[i].spread);
}

/// A canonical modifier step `.m(p => body)` gives the scoped op of `m`'s
/// scope holding every op of the body chain, walked with `p` as its only
/// root; it gives nothing where the body is not a chain.
pub proof fn law_modifier_scopes_the_whole_callback(
    name: String,
    params: Vec<Pat>,
    p: String,
    body: Expr,
    args: Vec<Arg>,
)
    requires
        canonical_scope_of(name@) is Some,
        params@ == seq![Pat::Ident(p)],
        args@ == seq![(Arg { spread: false, expr: Expr::Arrow(params, ArrowBody::Expr(Box::new(body))) })],
    ensures
        method_op_spec(MemberProp::Ident(name), args) == match walk_chain_spec(body, Set::empty().insert(p@)) {
            Some(inner) => Some(SpecOp::Scoped(canonical_scope_of(name@).unwrap(), inner)),
            None => None,
        },
{
    lemma_modifier_is_not_set(name@);
    assert(forall|i: int| 0 <= i < args.len() ==> !(#[trigger] args@[i]).spread);
    assert(params@[0] == Pat::Ident(p));
}

/// An argument modifier step `.m(v, p => body)` with a string literal `v`
/// gives the scoped op of the scope that `v` opens, holding every op of the
/// body chain, walked with `p` as its only root.
pub proof fn law_arg_modifier_scopes_the_whole_callback(
    name: String,
    m: ArgModifier,
    v: String,
    params: Vec<Pat>,
    p: String,
    body: Expr,
    args: Vec<Arg>,
)
    requires
        arg_modifier_of(name@) == Some(m),
        params@ == seq![Pat::Ident(p)],
        args@ == seq![
            (Arg { spread: false, expr: Expr::Lit(Lit::Str(Some(v))) }),
            (Arg { spread: false, expr: Expr::Arrow(params, ArrowBody::Expr(Box::new(body))) }),
        ],
    ensures
        method_op_spec(MemberProp::Ident(name), args) == match walk_chain_spec(body, Set::empty().insert(p@)) {
            Some(inner) => Some(SpecOp::Scoped(arg_modifier_scope_of(m, v@), inner)),
            None => None,
        },
{
    lemma_modifier_is_not_set(name@);
    assert(forall|i: int| 0 <= i < args.len() ==> !(#[trigger] args@[i]).spread);
    assert(params@[0] == Pat::Ident(p));
}

/// No modifier is named `set`, and no name is both kinds of modifier.
proof fn lemma_modifier_is_not_set(name: Seq<char>)
    ensures
        (canonical_scope_of(name) is Some || arg_modifier_of(name) is Some) ==> name != "set"@,
        canonical_scope_of(name) is Some ==> arg_modifier_of(name) is None,
{
    reveal_strlit("set");
    assert("set"@.len() == 3);
    reveal_strlit("hover");
    assert("hover"@.len() == 5);
    reveal_strlit("focus");
    assert("focus"@.len() == 5);
    reveal_strlit("focusVisible");
    assert("focusVisible"@.len() == 12);
    reveal_strlit("focusWithin");
    assert("focusWithin"@.len() == 11);
    reveal_strlit("active");
    assert("active"@.len() == 6);
    reveal_strlit("disabled");
    assert("disabled"@.len() == 8);
    reveal_strlit("before");
    assert("before"@.len() == 6);
    reveal_strlit("after");
    assert("after"@.len() == 5);
    reveal_strlit("darkMode");
    assert("darkMode"@.len() == 8);
    reveal_strlit("media");
    assert("media"@.len() == 5);
    reveal_strlit("on");
    assert("on"@.len() == 2);
    assert("media"@[0] != "hover"@[0]);
    assert("media"@ != "hover"@);
    assert("media"@[0] != "focus"@[0]);
    assert("media"@ != "focus"@);
    assert("media"@[0] != "after"@[0]);
    assert("media"@ != "after"@);
    assert("hover"@ != "set"@);
    assert("focus"@ != "set"@);
    assert("focusVisible"@ != "set"@);
    assert("focusWithin"@ != "set"@);
    assert("active"@ != "set"@);
    assert("disabled"@ != "set"@);
    assert("before"@ != "set"@);
    assert("after"@ != "set"@);
    assert("darkMode"@ != "set"@);
    assert("media"@ != "set"@);
    assert("on"@ != "set"@);
    assert("hover"@ != "on"@);
    assert("focus"@ != "on"@);
    assert("focusVisible"@ != "media"@);
    assert("focusVisible"@ != "on"@);
    assert("focusWithin"@ != "media"@);
    assert("focusWithin"@ != "on"@);
    assert("active"@ != "media"@);
    assert("active"@ != "on"@);
    assert("disabled"@ != "media"@);
    assert("disabled"@ != "on"@);
    assert("before"@ != "media"@);
    assert("before"@ != "on"@);
    assert("after"@ != "on"@);
    assert("darkMode"@ != "media"@);
    assert("darkMode"@ != "on"@);
}

// ---------------------------------------------------------------------------
// Literal arguments
// ---------------------------------------------------------------------------

/// A number literal argument keeps its own value: a safe whole number is
/// that integer, any other finite number keeps its sign and magnitude; a
/// leading `-` negates it and a leading `+` leaves it; NaN and the
/// infinities are not literal arguments.
pub proof fn law_number_literal_keeps_its_value(
    s: SafeInt,
    negative: bool,
    magnitude: String,
    display: String,
    nf: String,
)
    ensures
        json_of(Expr::Lit(Lit::Num(NumLit::SafeInt(s)))) == Some(SpecJson::Int(s.int_value())),
        json_of(Expr::Unary(UnaryOp::Minus, Box::new(Expr::Lit(Lit::Num(NumLit::SafeInt(s))))))
            == Some(SpecJson::Int(-s.int_value())),
        json_of(Expr::Unary(UnaryOp::Plus, Box::new(Expr::Lit(Lit::Num(NumLit::SafeInt(s))))))
            == Some(SpecJson::Int(s.int_value())),
        json_of(Expr::Lit(Lit::Num((NumLit::Finite { negative, json_magnitude: magnitude, display }))))
            == Some(SpecJson::Float(negative, magnitude@)),
        json_of(
            Expr::Unary(
                UnaryOp::Minus,
                Box::new(Expr::Lit(Lit::Num((NumLit::Finite { negative, json_magnitude: magnitude, display })))),
            ),
        ) == Some(SpecJson::Float(!negative, magnitude@)),
        json_of(
            Expr::Unary(
                UnaryOp::Plus,
                Box::new(Expr::Lit(Lit::Num((NumLit::Finite { negative, json_magnitude: magnitude, display })))),
            ),
        ) == Some(SpecJson::Float(negative, magnitude@)),
        json_of(Expr::Lit(Lit::Num((NumLit::NonFinite { display: nf })))) is None,
{
}

/// Strings, booleans and `null` are taken as they are written; `!` flips a
/// boolean.
pub proof fn law_other_literals_keep_their_value(text: String, b: bool)
    ensures
        json_of(Expr::Lit(Lit::Str(Some(text)))) == Some(SpecJson::String(text@)),
        json_of(Expr::Lit(Lit::Bool(b))) == Some(SpecJson::Bool(b)),
        json_of(Expr::Unary(UnaryOp::Bang, Box::new(Expr::Lit(Lit::Bool(b))))) == Some(SpecJson::Bool(!b)),
        json_of(Expr::Lit(Lit::Null)) == Some(SpecJson::Null),
{
}

/// A number argument is written as a bare JSON number token, never quoted:
/// a whole number as its decimal digits (after `-` when negative), any other
/// number as its magnitude, after `-` exactly when it is negative.
pub proof fn law_numbers_are_bare_json_numbers(i: int, m: Seq<char>)
    ensures
        json_value_text(SpecJson::Float(false, m)) == m,
        json_value_text(SpecJson::Float(true, m)) == seq!['-'] + m,
        json_value_text(SpecJson::Int(i)) == int_decimal(i),
        i < 0 ==> json_value_text(SpecJson::Int(i))[0] == '-',
        json_value_text(SpecJson::Bool(true)) == seq!['t', 'r', 'u', 'e'],
        json_value_text(SpecJson::Bool(false)) == seq!['f', 'a', 'l', 's', 'e'],
        json_value_text(SpecJson::Null) == seq!['n', 'u', 'l', 'l'],
{
    reveal_strlit("-");
    reveal_strlit("true");
    reveal_strlit("false");
    reveal_strlit("null");
}

// ---------------------------------------------------------------------------
// Imports, continued
// ---------------------------------------------------------------------------

/// A runtime import from `@cassida/core` binds exactly the local names
/// that its specifiers bind; an import from elsewhere, or `import type`,
/// binds none.
pub proof fn law_core_import_binds_its_specifiers(d: ImportDecl, x: Seq<char>)
    ensures
        import_roots(d).contains(x) <==> (!d.type_only && d.src is Some && d.src->0@ == "@cassida/core"@
            && exists|k: int| 0 <= k < d.specifiers.len() && #[trigger] specifier_root(d.specifiers@[k]) == Some(x)),
{
}

// ---------------------------------------------------------------------------
// The root call and `set`
// ---------------------------------------------------------------------------

/// `r()` is a whole chain with no op exactly when `r` is a chain root; the
/// root called with arguments is no chain.
pub proof fn law_root_call(name: String, args: Vec<Arg>, roots: Set<Seq<char>>)
    ensures
        walk_chain_spec(Expr::Call(Callee::Expr(Box::new(Expr::Ident(name))), args), roots) == if roots.contains(
            name@,
        ) && args.len() == 0 {
            Some(Seq::<SpecOp>::empty())
        } else {
            None
        },
{
    let e = Expr::Call(Callee::Expr(Box::new(Expr::Ident(name))), args);
    assert(crate::ast::strip_parens(e) == e);
    assert(crate::walker::peeled_props(e) == e);
    reveal_with_fuel(crate::walker::chain_ops, 2);
}

/// `.set(p, v)` with a string property `p` gives a raw op on the kebab form
/// of `p`: a string value as written, a safe whole number as its decimal
/// digits, any other number as its display text.
pub proof fn law_set_is_a_raw_property(
    set: String,
    p: String,
    v: String,
    n: SafeInt,
    negative: bool,
    magnitude: String,
    display: String,
    with_text: Vec<Arg>,
    with_int: Vec<Arg>,
    with_float: Vec<Arg>,
)
    requires
        set@ == "set"@,
        with_text@ == seq![
            (Arg { spread: false, expr: Expr::Lit(Lit::Str(Some(p))) }),
            (Arg { spread: false, expr: Expr::Lit(Lit::Str(Some(v))) }),
        ],
        with_int@ == seq![
            (Arg { spread: false, expr: Expr::Lit(Lit::Str(Some(p))) }),
            (Arg { spread: false, expr: Expr::Lit(Lit::Num(NumLit::SafeInt(n))) }),
        ],
        with_float@ == seq![
            (Arg { spread: false, expr: Expr::Lit(Lit::Str(Some(p))) }),
            (Arg {
                spread: false,
                expr: Expr::Lit(Lit::Num((NumLit::Finite { negative, json_magnitude: magnitude, display }))),
            }),
        ],
    ensures
        method_op_spec(MemberProp::Ident(set), with_text) == Some(SpecOp::Raw(kebab_of(p@), v@)),
        method_op_spec(MemberProp::Ident(set), with_int) == Some(
            SpecOp::Raw(kebab_of(p@), int_decimal(n.int_value())),
        ),
        method_op_spec(MemberProp::Ident(set), with_float) == Some(SpecOp::Raw(kebab_of(p@), display@)),
{
    assert(forall|i: int| 0 <= i < with_text.len() ==> !(#[trigger] with_text@[i]).spread);
    assert(forall|i: int| 0 <= i < with_int.len() ==> !(#[trigger] with_int@[i]).spread);
    assert(forall|i: int| 0 <= i < with_float.len() ==> !(#[trigger] with_float@[i]).spread);
}

// ---------------------------------------------------------------------------
// Kebab case
// ---------------------------------------------------------------------------

/// Kebab case, character by character, for a name without `-`: the empty
/// name stays empty, and appending a character appends its kebab form, a
/// `-` and the lower-case letter (code + 32) for `A`..`Z`, the character
/// itself otherwise.
pub proof fn law_kebab_by_character(s: Seq<char>, c: char)
    requires
        !s.contains('-'),
        c != '-',
    ensures
        kebab_of(Seq::empty()) == Seq::<char>::empty(),
        kebab_of(s.push(c)) == kebab_of(s) + if 65 <= (c as u32) <= 90 {
            seq!['-', ((c as u32) + 32) as char]
        } else {
            seq![c]
        },
{
    assert(!Seq::<char>::empty().contains('-'));
    assert(!s.push(c).contains('-')) by {
        if s.push(c).contains('-') {
            let j = choose|j: int| 0 <= j < s.push(c).len() && s.push(c)[j] == '-';
            assert(s[j] == '-');
        }
    }
    assert(s.push(c).drop_last() =~= s);
}

// ---------------------------------------------------------------------------
// Modifier scopes
// ---------------------------------------------------------------------------

/// The canonical modifiers and the scopes they open: the pseudo-classes
/// `:hover`, `:focus`, `:focus-visible`, `:focus-within`, `:active`,
/// `:disabled`, the pseudo-elements `::before`, `::after`, and the dark
/// colour scheme query; no other name is a canonical modifier.
pub proof fn law_canonical_modifier_table(name: Seq<char>)
    ensures
        canonical_scope_of(name) == if name == "hover"@ {
            Some(SpecScope::Pseudo(":hover"@))
        } else if name == "focus"@ {
            Some(SpecScope::Pseudo(":focus"@))
        } else if name == "focusVisible"@ {
            Some(SpecScope::Pseudo(":focus-visible"@))
        } else if name == "focusWithin"@ {
            Some(SpecScope::Pseudo(":focus-within"@))
        } else if name == "active"@ {
            Some(SpecScope::Pseudo(":active"@))
        } else if name == "disabled"@ {
            Some(SpecScope::Pseudo(":disabled"@))
        } else if name == "before"@ {
            Some(SpecScope::Pseudo("::before"@))
        } else if name == "after"@ {
            Some(SpecScope::Pseudo("::after"@))
        } else if name == "darkMode"@ {
            Some(SpecScope::Media("(prefers-color-scheme: dark)"@))
        } else {
            None
        },
        arg_modifier_of(name) == if name == "media"@ {
            Some(ArgModifier::Media)
        } else if name == "on"@ {
            Some(ArgModifier::On)
        } else {
            None
        },
{
}

/// `s` is made of spaces only.
pub open spec fn all_spaces(s: Seq<char>) -> bool {
    forall|i: int| 0 <= i < s.len() ==> s[i] == ' '
}

proof fn lemma_skip_spaces(sp: Seq<char>, q: Seq<char>)
    requires
        all_spaces(sp),
        q.len() == 0 || q[0] != ' ',
    ensures
        crate::modifiers::skip_spaces(sp + q) == q,
    decreases sp.len(),
{
    if sp.len() > 0 {
        assert((sp + q).drop_first() =~= sp.drop_first() + q);
        lemma_skip_spaces(sp.drop_first(), q);
    } else {
        assert(sp + q =~= q);
    }
}

/// The scope of `.media(v, ...)` and `.on(v, ...)`: a query written as
/// `@media`, spaces and `q` opens the media scope `q` under either name;
/// without the `@media` keyword, `.media` opens the media scope `v` and
/// `.on` the selector `v`.
pub proof fn law_arg_modifier_scopes(v: Seq<char>, sp: Seq<char>, q: Seq<char>)
    requires
        all_spaces(sp),
        q.len() == 0 || q[0] != ' ',
    ensures
        arg_modifier_scope_of(ArgModifier::Media, "@media"@ + sp + q) == SpecScope::Media(q),
        arg_modifier_scope_of(ArgModifier::On, "@media"@ + sp + q) == SpecScope::Media(q),
        !(v.len() >= 6 && v.take(6) == "@media"@) ==> arg_modifier_scope_of(ArgModifier::Media, v)
            == SpecScope::Media(v),
        !(v.len() >= 6 && v.take(6) == "@media"@) ==> arg_modifier_scope_of(ArgModifier::On, v)
            == SpecScope::Pseudo(v),
{
    reveal_strlit("@media");
    let w = "@media"@ + sp + q;
    assert(w.take(6) =~= "@media"@);
    assert(w.skip(6) =~= sp + q);
    lemma_skip_spaces(sp, q);
}

// ---------------------------------------------------------------------------
// The rewrite of a spread
// ---------------------------------------------------------------------------

/// A spread is rewritten exactly when its argument is a chain. Its
/// placeholder is `__CAS_PLACEHOLDER_`, the decimal digits of the counter
/// and `__`; its comment is ` @cassida-ir:` and the JSON text of the
/// chain's ops. A spread with a source position keeps the span of its
/// `...` token and anchors the comment at its start; one without (the
/// empty span at 0, or a start in swc's reserved top 65536 positions)
/// is anchored at `0x8000_0000` plus the counter, below the top of the
/// `u32` range.
pub proof fn law_rewrite_of_a_spread(roots: Set<Seq<char>>, n: nat, s: SpreadElement)
    ensures
        rewrite_of(roots, n, s) is Some <==> walk_chain_spec(s.expr, roots) is Some,
        rewrite_of(roots, n, s) matches Some(r) ==> {
            &&& r.placeholder == "__CAS_PLACEHOLDER_"@ + nat_decimal(n) + "__"@
            &&& r.comment_text == " @cassida-ir:"@ + ops_text(walk_chain_spec(s.expr, roots).unwrap())
            &&& !((s.dot3_lo == 0 && s.dot3_hi == 0) || s.dot3_lo >= u32::MAX - 65536) ==> r.span_lo
                == s.dot3_lo && r.span_hi == s.dot3_hi && r.comment_pos == s.dot3_lo
            &&& ((s.dot3_lo == 0 && s.dot3_hi == 0) || s.dot3_lo >= u32::MAX - 65536) ==> r.span_lo
                == r.comment_pos && r.span_hi == r.comment_pos && (0x8000_0000 + n <= u32::MAX
                ==> r.comment_pos == 0x8000_0000 + n)
        },
{
}

/// The decimal digits of a natural number: one digit below ten, and
/// otherwise the digits of `n / 10` followed by the digit of `n % 10`; the
/// digit `d` is the character with code `48 + d`.
pub proof fn law_decimal_digits(n: nat, d: nat)
    requires
        d < 10,
    ensures
        n < 10 ==> nat_decimal(n) == seq![digit_char(n)],
        n >= 10 ==> nat_decimal(n) == nat_decimal(n / 10) + seq![digit_char(n % 10)],
        digit_char(d) as u32 == 48 + d,
        int_decimal(n as int) == nat_decimal(n),
        n > 0 ==> int_decimal(-(n as int)) == seq!['-'] + nat_decimal(n),
{
    assert(n >= 10 ==> nat_decimal(n / 10).push(digit_char(n % 10)) =~= nat_decimal(n / 10) + seq![digit_char(n % 10)]);
}

// ---------------------------------------------------------------------------
// JSON arrays
// ---------------------------------------------------------------------------

/// An op list is written as a JSON array: `[]` when empty, and appending an
/// op inserts `,` (after a first op) and the op's object before the
/// closing `]`. The arguments of a method are written the same way.
pub proof fn law_json_arrays_grow_by_element(ops: Seq<SpecOp>, o: SpecOp, args: Seq<SpecJson>, a: SpecJson)
    ensures
        ops_text(Seq::empty()) == seq!['[', ']'],
        ops_text(seq![o]) == seq!['['] + op_text(o) + seq![']'],
        ops.len() > 0 ==> ops_text(ops.push(o)) == ops_text(ops).drop_last() + seq![','] + op_text(o)
            + seq![']'],
        json_args_text(Seq::empty()) == seq!['[', ']'],
        json_args_text(seq![a]) == seq!['['] + json_value_text(a) + seq![']'],
        args.len() > 0 ==> json_args_text(args.push(a)) == json_args_text(args).drop_last() + seq![',']
            + json_value_text(a) + seq![']'],
{
    reveal_strlit("[");
    reveal_strlit("]");
    reveal_strlit(",");
    assert(ops.push(o).drop_last() =~= ops);
    assert(seq![o].len() == 1);
    let f = |x: SpecJson| json_value_text(x);
    assert(args.push(a).map_values(f) =~= args.map_values(f).push(json_value_text(a)));
    assert(args.map_values(f).push(json_value_text(a)).drop_last() =~= args.map_values(f));
    assert(seq![a].map_values(f) =~= seq![json_value_text(a)]);
    assert(Seq::<SpecJson>::empty().map_values(f) =~= Seq::<Seq<char>>::empty());
}

} // verus!
