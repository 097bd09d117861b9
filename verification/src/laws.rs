//! Properties of the walk, the kebab conversion and the rewrite that hold
//! for all inputs.

use vstd::prelude::*;
use crate::ast::{strip_parens, Arg, ArrowBody, Callee, Expr, Lit, MemberProp, NumLit, Pat, UnaryOp};
use crate::ir::SpecOp;
use crate::text::{digit_char, is_ascii_upper, nat_decimal};
use crate::visitor::{
    attr_rewrite, attr_rewrites, counter_after, lemma_counter_after_grows, import_roots, imported_name,
    placeholder_text, rewrite_of,
    specifier_root, synthetic_pos, ImportDecl, ImportSpecifier, JsxAttrOrSpread, ModuleExportName,
    SpecRewrite, SpreadElement,
};
use crate::walker::{
    arg_at, callback_ops, chain_ops, json_of, kebab_chars, kebab_of, method_op_spec, peeled_props,
    step_call_spec, walk_chain_spec,
};

verus! {

// ---------------------------------------------------------------------------
// The walk
// ---------------------------------------------------------------------------

/// A trailing `.props` access does not change the ops of a chain:
/// `cas().X().props` walks as `cas().X()` (unless the receiver is itself a
/// `.props` access, which is peeled only once).
pub proof fn law_props_terminator_is_peeled(e: Expr, props: String, roots: Set<Seq<char>>)
    requires
        props@ == "props"@,
        !(strip_parens(e) matches Expr::Member(_, MemberProp::Ident(n)) && n@ == "props"@),
    ensures
        walk_chain_spec(Expr::Member(Box::new(e), MemberProp::Ident(props)), roots)
            == walk_chain_spec(e, roots),
{
}

/// A bare root name (`{...cas}`, the call forgotten) is never a chain.
pub proof fn law_bare_root_is_not_a_chain(name: String, roots: Set<Seq<char>>)
    ensures
        walk_chain_spec(Expr::Ident(name), roots) is None,
{
}

/// Each method step adds its op after the ops of its receiver, so the ops
/// come out in source order.
pub proof fn law_steps_in_source_order(
    receiver: Expr,
    prop: MemberProp,
    args: Vec<Arg>,
    roots: Set<Seq<char>>,
    first: bool,
    op: SpecOp,
)
    requires
        method_op_spec(prop, args) == Some(op),
    ensures
        chain_ops(
            Expr::Call(Callee::Expr(Box::new(Expr::Member(Box::new(receiver), prop))), args),
            roots,
            first,
        ) == match chain_ops(receiver, roots, false) {
            Some(ops) => Some(ops.push(op)),
            None => None,
        },
{
    reveal_with_fuel(chain_ops, 2);
}

proof fn lemma_no_roots(e: Expr, first: bool)
    ensures
        chain_ops(e, Set::empty(), first) is None,
    decreases e,
{
    reveal_with_fuel(chain_ops, 2);
    match e {
        Expr::Paren(inner) => lemma_no_roots(*inner, first),
        Expr::Call(callee, args) => {
            if let Callee::Expr(c) = callee {
                if let Expr::Member(obj, _) = *c {
                    lemma_no_roots(*obj, false);
                }
            }
        },
        _ => {},
    }
}

/// Without a chain root (no import of the core package) nothing is a chain.
pub proof fn law_no_roots_no_chain(e: Expr)
    ensures
        walk_chain_spec(e, Set::empty()) is None,
{
    lemma_no_roots(peeled_props(e), true);
}

proof fn lemma_roots_monotone(e: Expr, r1: Set<Seq<char>>, r2: Set<Seq<char>>, first: bool)
    requires
        r1.subset_of(r2),
        chain_ops(e, r1, first) is Some,
    ensures
        chain_ops(e, r2, first) == chain_ops(e, r1, first),
    decreases e,
{
    reveal_with_fuel(chain_ops, 2);
    match e {
        Expr::Paren(inner) => lemma_roots_monotone(*inner, r1, r2, first),
        Expr::Call(callee, args) => {
            if let Callee::Expr(c) = callee {
                if let Expr::Member(obj, _) = *c {
                    lemma_roots_monotone(*obj, r1, r2, false);
                }
            }
        },
        _ => {},
    }
}

/// More chain roots never lose a recognised chain nor change its ops.
pub proof fn law_more_roots_keep_chains(e: Expr, r1: Set<Seq<char>>, r2: Set<Seq<char>>)
    requires
        r1.subset_of(r2),
        walk_chain_spec(e, r1) is Some,
    ensures
        walk_chain_spec(e, r2) == walk_chain_spec(e, r1),
{
    lemma_roots_monotone(peeled_props(e), r1, r2, true);
}

/// A callback `p => body` is walked with `p` as its only root: the roots
/// of the enclosing chain play no part in it.
pub proof fn law_callback_has_its_own_root(params: Vec<Pat>, p: String, body: Expr)
    requires
        params@ == seq![Pat::Ident(p)],
    ensures
        callback_ops(Expr::Arrow(params, ArrowBody::Expr(Box::new(body))))
            == walk_chain_spec(body, Set::empty().insert(p@)),
{
    assert(params@[0] == Pat::Ident(p));
}

/// A callback is walked only where it has the shape `p => expr`: an arrow
/// function with exactly one parameter, a plain identifier, and an
/// expression body. A block body, another number of parameters, a
/// destructured parameter or anything but an arrow gives no ops.
pub proof fn law_callback_shape(e: Expr)
    requires
        callback_ops(e) is Some,
    ensures
        e matches Expr::Arrow(params, body) && params.len() == 1 && params@[0] is Ident
            && body is Expr,
{
}

/// A method step `obj.prop(args)` is never the root call, adds exactly one
/// op (the one its name and arguments give) after the ops of its receiver,
/// and reads the chain roots only through the receiver: the step alone is
/// the same under any roots.
pub proof fn law_method_step_adds_one_op(
    obj: Expr,
    prop: MemberProp,
    args: Vec<Arg>,
    roots: Set<Seq<char>>,
    other_roots: Set<Seq<char>>,
    first: bool,
)
    ensures
        !(step_call_spec(Callee::Expr(Box::new(Expr::Member(Box::new(obj), prop))), args, roots) is Root),
        step_call_spec(Callee::Expr(Box::new(Expr::Member(Box::new(obj), prop))), args, roots)
            == step_call_spec(
            Callee::Expr(Box::new(Expr::Member(Box::new(obj), prop))),
            args,
            other_roots,
        ),
        chain_ops(Expr::Call(Callee::Expr(Box::new(Expr::Member(Box::new(obj), prop))), args), roots, first)
            == match (chain_ops(obj, roots, false), method_op_spec(prop, args)) {
            (Some(ops), Some(op)) => Some(ops.push(op)),
            _ => None,
        },
{
}

/// Parentheses around arguments are transparent: two argument lists that
/// differ only in them give the same op.
pub proof fn law_argument_parens_transparent(prop: MemberProp, a: Vec<Arg>, b: Vec<Arg>)
    requires
        a.len() == b.len(),
        forall|i: int| 0 <= i < a.len() ==> a@[i].spread == b@[i].spread,
        forall|i: int| 0 <= i < a.len() ==> arg_at(a, i) == arg_at(b, i),
    ensures
        method_op_spec(prop, a) == method_op_spec(prop, b),
{
    if let MemberProp::Ident(name) = prop {
        assert((exists|i: int| 0 <= i < a.len() && #[trigger] a@[i].spread) == (exists|i: int|
            0 <= i < b.len() && #[trigger] b@[i].spread)) by {
            if exists|i: int| 0 <= i < a.len() && #[trigger] a@[i].spread {
                let i = choose|i: int| 0 <= i < a.len() && #[trigger] a@[i].spread;
                assert(b@[i].spread);
            }
            if exists|i: int| 0 <= i < b.len() && #[trigger] b@[i].spread {
                let i = choose|i: int| 0 <= i < b.len() && #[trigger] b@[i].spread;
                assert(a@[i].spread);
            }
        }
        if a.len() > 0 {
            assert(arg_at(a, 0) == arg_at(b, 0));
        }
        if a.len() > 1 {
            assert(arg_at(a, 1) == arg_at(b, 1));
        }
        assert((forall|i: int| 0 <= i < a.len() ==> (#[trigger] json_of(arg_at(a, i))) is Some)
            == (forall|i: int| 0 <= i < b.len() ==> (#[trigger] json_of(arg_at(b, i))) is Some)) by {
            if forall|i: int| 0 <= i < a.len() ==> (#[trigger] json_of(arg_at(a, i))) is Some {
                assert forall|i: int| 0 <= i < b.len() implies (#[trigger] json_of(arg_at(b, i))) is Some by {
                    assert(json_of(arg_at(a, i)) is Some);
                }
            }
            if forall|i: int| 0 <= i < b.len() ==> (#[trigger] json_of(arg_at(b, i))) is Some {
                assert forall|i: int| 0 <= i < a.len() implies (#[trigger] json_of(arg_at(a, i))) is Some by {
                    assert(json_of(arg_at(b, i)) is Some);
                }
            }
        }
        assert(Seq::new(a.len() as nat, |i: int| json_of(arg_at(a, i)).unwrap()) =~= Seq::new(
            b.len() as nat,
            |i: int| json_of(arg_at(b, i)).unwrap(),
        ));
    }
}

/// `-(8)`, `+(8)` and `!(true)` fold like `-8`, `+8` and `!true`.
pub proof fn law_unary_operand_parens_transparent(op: UnaryOp, e: Expr)
    ensures
        json_of(Expr::Unary(op, Box::new(Expr::Paren(Box::new(e))))) == json_of(
            Expr::Unary(op, Box::new(e)),
        ),
{
}

/// `+n` is the same argument as `n`.
pub proof fn law_unary_plus_folds(n: NumLit)
    ensures
        json_of(Expr::Unary(UnaryOp::Plus, Box::new(Expr::Lit(Lit::Num(n))))) == json_of(
            Expr::Lit(Lit::Num(n)),
        ),
{
}

// ---------------------------------------------------------------------------
// Kebab case
// ---------------------------------------------------------------------------

proof fn lemma_kebab_chars_no_upper(s: Seq<char>)
    requires
        forall|i: int| 0 <= i < s.len() ==> !is_ascii_upper(#[trigger] s[i]),
    ensures
        kebab_chars(s) == s,
    decreases s.len(),
{
    if s.len() > 0 {
        lemma_kebab_chars_no_upper(s.drop_last());
        assert(s.drop_last().push(s.last()) =~= s);
    }
}

proof fn lemma_kebab_chars_has_hyphen(s: Seq<char>, k: int)
    requires
        0 <= k < s.len(),
        is_ascii_upper(s[k]),
    ensures
        kebab_chars(s).contains('-'),
    decreases s.len(),
{
    let pre = kebab_chars(s.drop_last());
    if k == s.len() - 1 {
        assert(kebab_chars(s)[pre.len() as int] == '-');
    } else {
        lemma_kebab_chars_has_hyphen(s.drop_last(), k);
        let j = choose|j: int| 0 <= j < pre.len() && pre[j] == '-';
        assert(kebab_chars(s)[j] == '-');
    }
}

proof fn lemma_kebab_chars_lower(s: Seq<char>)
    ensures
        forall|i: int| 0 <= i < kebab_chars(s).len() ==> !is_ascii_upper(#[trigger] kebab_chars(s)[i]),
    decreases s.len(),
{
    if s.len() > 0 {
        lemma_kebab_chars_lower(s.drop_last());
        let pre = kebab_chars(s.drop_last());
        assert forall|i: int| 0 <= i < kebab_chars(s).len() implies !is_ascii_upper(
            #[trigger] kebab_chars(s)[i],
        ) by {
            if i < pre.len() {
                assert(kebab_chars(s)[i] == pre[i]);
            }
        }
    }
}

/// A name that already holds a `-` is kept as it is.
pub proof fn law_kebab_keeps_hyphenated(s: Seq<char>)
    requires
        s.contains('-'),
    ensures
        kebab_of(s) == s,
{
}

/// A name without `-` comes out with no upper-case ASCII letter.
pub proof fn law_kebab_has_no_upper(s: Seq<char>)
    requires
        !s.contains('-'),
    ensures
        forall|i: int| 0 <= i < kebab_of(s).len() ==> !is_ascii_upper(#[trigger] kebab_of(s)[i]),
{
    lemma_kebab_chars_lower(s);
}

/// Converting twice is converting once.
pub proof fn law_kebab_idempotent(s: Seq<char>)
    ensures
        kebab_of(kebab_of(s)) == kebab_of(s),
{
    if !s.contains('-') {
        let k = kebab_chars(s);
        if !k.contains('-') {
            if exists|i: int| 0 <= i < s.len() && is_ascii_upper(#[trigger] s[i]) {
                let i = choose|i: int| 0 <= i < s.len() && is_ascii_upper(#[trigger] s[i]);
                lemma_kebab_chars_has_hyphen(s, i);
            }
            lemma_kebab_chars_no_upper(s);
        }
    }
}

// ---------------------------------------------------------------------------
// Placeholders
// ---------------------------------------------------------------------------

proof fn lemma_decimal_len(n: nat)
    ensures
        nat_decimal(n).len() >= 1,
        n >= 10 ==> nat_decimal(n).len() >= 2,
    decreases n,
{
    if n >= 10 {
        lemma_decimal_len(n / 10);
    }
}

proof fn lemma_digit_injective(a: nat, b: nat)
    requires
        a < 10,
        b < 10,
        digit_char(a) == digit_char(b),
    ensures
        a == b,
{
}

/// Different numbers have different decimal texts.
pub proof fn lemma_decimal_injective(m: nat, n: nat)
    requires
        nat_decimal(m) == nat_decimal(n),
    ensures
        m == n,
    decreases m,
{
    lemma_decimal_len(m);
    lemma_decimal_len(n);
    if m < 10 && n < 10 {
        assert(nat_decimal(m) == seq![digit_char(m)]);
        assert(nat_decimal(n) == seq![digit_char(n)]);
        assert(seq![digit_char(m)][0] == digit_char(m));
        assert(seq![digit_char(n)][0] == digit_char(n));
        lemma_digit_injective(m, n);
    } else if m >= 10 && n >= 10 {
        assert(nat_decimal(m) == nat_decimal(m / 10).push(digit_char(m % 10)));
        assert(nat_decimal(n) == nat_decimal(n / 10).push(digit_char(n % 10)));
        assert(nat_decimal(m / 10).push(digit_char(m % 10)).last() == digit_char(m % 10));
        assert(nat_decimal(n / 10).push(digit_char(n % 10)).last() == digit_char(n % 10));
        lemma_digit_injective(m % 10, n % 10);
        assert(nat_decimal(m).drop_last() =~= nat_decimal(m / 10));
        assert(nat_decimal(n).drop_last() =~= nat_decimal(n / 10));
        lemma_decimal_injective(m / 10, n / 10);
    }
}

/// Placeholders with different numbers are different texts.
pub proof fn law_placeholders_distinct(m: nat, n: nat)
    requires
        m != n,
    ensures
        placeholder_text(m) != placeholder_text(n),
{
    let p = "__CAS_PLACEHOLDER_"@;
    let q = "__"@;
    if placeholder_text(m) == placeholder_text(n) {
        let a = placeholder_text(m);
        assert(a.subrange(p.len() as int, a.len() - q.len()) =~= nat_decimal(m));
        assert(a.subrange(p.len() as int, a.len() - q.len()) =~= nat_decimal(n));
        lemma_decimal_injective(m, n);
    }
}

/// The synthetic anchors of spreads without a source position ascend with
/// the placeholder number (strictly, below the top of the `u32` range), so
/// each IR comment stays next to its own placeholder.
pub proof fn law_synthetic_positions_ascend(m: nat, n: nat)
    requires
        m < n,
    ensures
        synthetic_pos(m) <= synthetic_pos(n),
        0x8000_0000 + n <= u32::MAX ==> synthetic_pos(m) < synthetic_pos(n),
{
}

/// The placeholder number that the attribute at `k` takes.
pub open spec fn number_at(roots: Set<Seq<char>>, n: nat, attrs: Seq<JsxAttrOrSpread>, k: int) -> nat
    decreases attrs.len(),
{
    if k <= 0 || attrs.len() == 0 {
        n
    } else {
        number_at(
            roots,
            if attr_rewrite(roots, n, attrs[0]) is Some { n + 1 } else { n },
            attrs.drop_first(),
            k - 1,
        )
    }
}

proof fn lemma_rewrites_numbered(roots: Set<Seq<char>>, n: nat, attrs: Seq<JsxAttrOrSpread>, k: int)
    requires
        0 <= k < attrs.len(),
    ensures
        attr_rewrites(roots, n, attrs).len() == attrs.len(),
        attr_rewrites(roots, n, attrs)[k] == attr_rewrite(roots, number_at(roots, n, attrs, k), attrs[k]),
        n <= number_at(roots, n, attrs, k),
        attr_rewrites(roots, n, attrs)[k] is Some ==> number_at(roots, n, attrs, k) < counter_after(
            roots,
            n,
            attrs,
        ),
    decreases attrs.len(),
{
    let o = attr_rewrite(roots, n, attrs[0]);
    let n2 = if o is Some { n + 1 } else { n };
    lemma_rewrites_len(roots, n2, attrs.drop_first());
    if k > 0 {
        lemma_rewrites_numbered(roots, n2, attrs.drop_first(), k - 1);
        assert(attrs.drop_first()[k - 1] == attrs[k]);
    } else {
        lemma_counter_after_grows(roots, n2, attrs.drop_first());
    }
}

proof fn lemma_rewrites_len(roots: Set<Seq<char>>, n: nat, attrs: Seq<JsxAttrOrSpread>)
    ensures
        attr_rewrites(roots, n, attrs).len() == attrs.len(),
    decreases attrs.len(),
{
    if attrs.len() > 0 {
        let o = attr_rewrite(roots, n, attrs[0]);
        lemma_rewrites_len(roots, if o is Some { n + 1 } else { n }, attrs.drop_first());
    }
}

proof fn lemma_numbers_ascend(roots: Set<Seq<char>>, n: nat, attrs: Seq<JsxAttrOrSpread>, i: int, j: int)
    requires
        0 <= i < j < attrs.len(),
        attr_rewrite(roots, number_at(roots, n, attrs, i), attrs[i]) is Some,
    ensures
        number_at(roots, n, attrs, i) < number_at(roots, n, attrs, j),
    decreases attrs.len(),
{
    let o = attr_rewrite(roots, n, attrs[0]);
    let n2 = if o is Some { n + 1 } else { n };
    if i == 0 {
        lemma_rewrites_numbered(roots, n2, attrs.drop_first(), j - 1);
    } else {
        assert(attrs.drop_first()[i - 1] == attrs[i]);
        lemma_numbers_ascend(roots, n2, attrs.drop_first(), i - 1, j - 1);
    }
}

/// The spreads rewritten on one element take numbers in
/// `[n, counter_after)`, each its own: no two rewrites of an element share a
/// placeholder, nor share one with an element visited before or after.
pub proof fn law_element_placeholders_distinct(
    roots: Set<Seq<char>>,
    n: nat,
    attrs: Seq<JsxAttrOrSpread>,
    i: int,
    j: int,
)
    requires
        0 <= i < j < attrs.len(),
        attr_rewrites(roots, n, attrs)[i] is Some,
        attr_rewrites(roots, n, attrs)[j] is Some,
    ensures
        attr_rewrites(roots, n, attrs)[i]->0.placeholder != attr_rewrites(
            roots,
            n,
            attrs,
        )[j]->0.placeholder,
        exists|m: nat|
            n <= m < counter_after(roots, n, attrs) && attr_rewrites(roots, n, attrs)[i]->0.placeholder
                == placeholder_text(m),
{
    lemma_rewrites_numbered(roots, n, attrs, i);
    lemma_rewrites_numbered(roots, n, attrs, j);
    let mi = number_at(roots, n, attrs, i);
    let mj = number_at(roots, n, attrs, j);
    lemma_numbers_ascend(roots, n, attrs, i, j);
    law_placeholders_distinct(mi, mj);
    assert(attr_rewrites(roots, n, attrs)[i]->0.placeholder == placeholder_text(mi));
}

/// The number of rewrites in a list of outcomes.
pub open spec fn rewrite_count(v: Seq<Option<SpecRewrite>>) -> nat
    decreases v.len(),
{
    if v.len() == 0 {
        0
    } else {
        (if v[0] is Some { 1nat } else { 0nat }) + rewrite_count(v.drop_first())
    }
}

/// The placeholder counter advances by exactly the number of spreads that
/// an element rewrites.
pub proof fn law_counter_counts_rewrites(roots: Set<Seq<char>>, n: nat, attrs: Seq<JsxAttrOrSpread>)
    ensures
        counter_after(roots, n, attrs) == n + rewrite_count(attr_rewrites(roots, n, attrs)),
    decreases attrs.len(),
{
    if attrs.len() > 0 {
        let o = attr_rewrite(roots, n, attrs[0]);
        let n2 = if o is Some { n + 1 } else { n };
        law_counter_counts_rewrites(roots, n2, attrs.drop_first());
        let v = attr_rewrites(roots, n, attrs);
        assert(v[0] == o);
        assert(v.drop_first() =~= attr_rewrites(roots, n2, attrs.drop_first()));
    }
}

/// The counter carries over from one element to the next: a placeholder of
/// an element differs from every placeholder of the element visited after
/// it, which starts numbering where the first one stopped.
pub proof fn law_next_element_placeholders_distinct(
    roots: Set<Seq<char>>,
    n: nat,
    first: Seq<JsxAttrOrSpread>,
    next: Seq<JsxAttrOrSpread>,
    i: int,
    j: int,
)
    requires
        0 <= i < first.len(),
        0 <= j < next.len(),
        attr_rewrites(roots, n, first)[i] is Some,
        attr_rewrites(roots, counter_after(roots, n, first), next)[j] is Some,
    ensures
        attr_rewrites(roots, n, first)[i]->0.placeholder != attr_rewrites(
            roots,
            counter_after(roots, n, first),
            next,
        )[j]->0.placeholder,
{
    let n2 = counter_after(roots, n, first);
    lemma_rewrites_numbered(roots, n, first, i);
    lemma_rewrites_numbered(roots, n2, next, j);
    let mi = number_at(roots, n, first, i);
    let mj = number_at(roots, n2, next, j);
    law_placeholders_distinct(mi, mj);
    assert(attr_rewrites(roots, n, first)[i]->0.placeholder == placeholder_text(mi));
    assert(attr_rewrites(roots, n2, next)[j]->0.placeholder == placeholder_text(mj));
}

/// The placeholder counter after visiting the elements `elems` in order,
/// starting at `n`.
pub open spec fn elements_counter(roots: Set<Seq<char>>, n: nat, elems: Seq<Seq<JsxAttrOrSpread>>) -> nat
    decreases elems.len(),
{
    if elems.len() == 0 {
        n
    } else {
        elements_counter(roots, counter_after(roots, n, elems[0]), elems.drop_first())
    }
}

/// The counter with which element `k` of `elems` is visited.
pub open spec fn element_start(roots: Set<Seq<char>>, n: nat, elems: Seq<Seq<JsxAttrOrSpread>>, k: int) -> nat
    decreases elems.len(),
{
    if k <= 0 || elems.len() == 0 {
        n
    } else {
        element_start(roots, counter_after(roots, n, elems[0]), elems.drop_first(), k - 1)
    }
}

/// The outcome for attribute `i` of element `e` when the elements are
/// visited in order from counter `n`.
pub open spec fn rewrite_in(
    roots: Set<Seq<char>>,
    n: nat,
    elems: Seq<Seq<JsxAttrOrSpread>>,
    e: int,
    i: int,
) -> Option<SpecRewrite> {
    attr_rewrites(roots, element_start(roots, n, elems, e), elems[e])[i]
}

/// The placeholder number that attribute `i` of element `e` takes.
pub open spec fn number_in(
    roots: Set<Seq<char>>,
    n: nat,
    elems: Seq<Seq<JsxAttrOrSpread>>,
    e: int,
    i: int,
) -> nat {
    number_at(roots, element_start(roots, n, elems, e), elems[e], i)
}

proof fn lemma_element_start_steps(roots: Set<Seq<char>>, n: nat, elems: Seq<Seq<JsxAttrOrSpread>>, k: int)
    requires
        0 <= k < elems.len(),
    ensures
        element_start(roots, n, elems, k + 1) == counter_after(
            roots,
            element_start(roots, n, elems, k),
            elems[k],
        ),
    decreases elems.len(),
{
    let n2 = counter_after(roots, n, elems[0]);
    if k > 0 {
        lemma_element_start_steps(roots, n2, elems.drop_first(), k - 1);
        assert(elems.drop_first()[k - 1] == elems[k]);
    } else {
        assert(element_start(roots, n2, elems.drop_first(), 0) == n2);
    }
}

proof fn lemma_element_start_bounds(
    roots: Set<Seq<char>>,
    n: nat,
    elems: Seq<Seq<JsxAttrOrSpread>>,
    j: int,
    k: int,
)
    requires
        0 <= j <= k <= elems.len(),
    ensures
        n <= element_start(roots, n, elems, j) <= element_start(roots, n, elems, k),
        element_start(roots, n, elems, k) <= elements_counter(roots, n, elems),
    decreases elems.len(),
{
    if elems.len() > 0 {
        let n2 = counter_after(roots, n, elems[0]);
        lemma_counter_after_grows(roots, n, elems[0]);
        if j > 0 {
            lemma_element_start_bounds(roots, n2, elems.drop_first(), j - 1, k - 1);
        } else if k > 0 {
            lemma_element_start_bounds(roots, n2, elems.drop_first(), 0, k - 1);
        } else {
            lemma_element_start_bounds(roots, n2, elems.drop_first(), 0, 0);
        }
    }
}

/// Over any sequence of elements visited in order, the rewritten spreads
/// take placeholder numbers in `[n, final counter)` that ascend in visit
/// order, so no two of them share a placeholder.
pub proof fn law_placeholders_distinct_across_elements(
    roots: Set<Seq<char>>,
    n: nat,
    elems: Seq<Seq<JsxAttrOrSpread>>,
    e1: int,
    i1: int,
    e2: int,
    i2: int,
)
    requires
        0 <= e1 < elems.len(),
        0 <= e2 < elems.len(),
        0 <= i1 < elems[e1].len(),
        0 <= i2 < elems[e2].len(),
        e1 < e2 || (e1 == e2 && i1 < i2),
        rewrite_in(roots, n, elems, e1, i1) is Some,
        rewrite_in(roots, n, elems, e2, i2) is Some,
    ensures
        rewrite_in(roots, n, elems, e1, i1)->0.placeholder == placeholder_text(number_in(roots, n, elems, e1, i1)),
        rewrite_in(roots, n, elems, e2, i2)->0.placeholder == placeholder_text(number_in(roots, n, elems, e2, i2)),
        n <= number_in(roots, n, elems, e1, i1),
        number_in(roots, n, elems, e1, i1) < number_in(roots, n, elems, e2, i2),
        number_in(roots, n, elems, e2, i2) < elements_counter(roots, n, elems),
        rewrite_in(roots, n, elems, e1, i1)->0.placeholder != rewrite_in(roots, n, elems, e2, i2)->0.placeholder,
{
    let s1 = element_start(roots, n, elems, e1);
    let s2 = element_start(roots, n, elems, e2);
    let m1 = number_in(roots, n, elems, e1, i1);
    let m2 = number_in(roots, n, elems, e2, i2);
    lemma_rewrites_numbered(roots, s1, elems[e1], i1);
    lemma_rewrites_numbered(roots, s2, elems[e2], i2);
    lemma_element_start_steps(roots, n, elems, e1);
    lemma_element_start_steps(roots, n, elems, e2);
    lemma_element_start_bounds(roots, n, elems, e1, e2);
    lemma_element_start_bounds(roots, n, elems, e2 + 1, e2 + 1);
    if e1 == e2 {
        lemma_numbers_ascend(roots, s1, elems[e1], i1, i2);
    } else {
        lemma_element_start_bounds(roots, n, elems, e1 + 1, e2);
    }
    law_placeholders_distinct(m1, m2);
}

/// Without a chain root no spread is rewritten.
pub proof fn law_no_roots_no_rewrite(n: nat, s: SpreadElement)
    ensures
        rewrite_of(Set::empty(), n, s) is None,
{
    law_no_roots_no_chain(s.expr);
}

// ---------------------------------------------------------------------------
// Imports
// ---------------------------------------------------------------------------

/// `import type { ... }` is erased at runtime and binds no chain root.
pub proof fn law_type_only_import_binds_nothing(d: ImportDecl)
    requires
        d.type_only,
    ensures
        import_roots(d) == Set::<Seq<char>>::empty(),
{
    assert(import_roots(d) =~= Set::<Seq<char>>::empty());
}

/// An import from any source but the core package binds no chain root.
pub proof fn law_other_sources_bind_nothing(d: ImportDecl)
    requires
        !(d.src matches Some(s) && s@ == "@cassida/core"@),
    ensures
        import_roots(d) == Set::<Seq<char>>::empty(),
{
    assert(import_roots(d) =~= Set::<Seq<char>>::empty());
}

/// The default export of the core package is the chain builder itself:
/// `import b from ...` and `import { default as b } from ...` both bind `b`.
pub proof fn law_default_export_roots_a_chain(local: String, imported: Option<ModuleExportName>)
    requires
        imported_name(local, imported) == Some("default"@),
    ensures
        specifier_root(ImportSpecifier::Default { local }) == Some(local@),
        specifier_root(ImportSpecifier::Named { local, imported, is_type_only: false }) == Some(local@),
{
}

/// An inline `import { type cas }` specifier binds nothing, whatever it
/// names.
pub proof fn law_inline_type_specifier_binds_nothing(
    local: String,
    imported: Option<ModuleExportName>,
)
    ensures
        specifier_root(ImportSpecifier::Named { local, imported, is_type_only: true }) is None,
{
}

} // verus!
