//! JSX-spread rewrite decisions.
//!
//! For every recognised `{...cas().X().props}` spread on a JSX element the
//! visitor walks the chain, serialises its ops to JSON and replaces the spread
//! with `className={/* @cassida-ir:<JSON> */ "__CAS_PLACEHOLDER_<N>__"}`. The
//! host applies these decisions to its own syntax tree.

use vstd::prelude::*;
use crate::ast::Expr;
use crate::ir::{ops_text, serialize_ops};
use crate::text::{nat_decimal, push_decimal, str_equals};
use crate::walker::{walk_chain, walk_chain_spec, ChainRoots};

verus! {

/// The name of an export in `import { <name> as local }`.
pub enum ModuleExportName {
    Ident(String),
    /// A string name; `None` when it is not valid UTF-8.
    Str(Option<String>),
}

pub enum ImportSpecifier {
    /// `import local from '...'`
    Default { local: String },
    /// `import { imported as local }`, `import { local }`, `import { type local }`
    Named { local: String, imported: Option<ModuleExportName>, is_type_only: bool },
    /// `import * as ns from '...'`
    Namespace,
}

/// An import declaration; `src` is `None` when the source string is not
/// valid UTF-8.
pub struct ImportDecl {
    pub type_only: bool,
    pub src: Option<String>,
    pub specifiers: Vec<ImportSpecifier>,
}

pub enum ModuleItem {
    Import(ImportDecl),
    Other,
}

pub enum Program {
    Module(Vec<ModuleItem>),
    Script,
}

/// A JSX spread attribute `{...expr}` and the byte range of its `...` token.
pub struct SpreadElement {
    pub expr: Expr,
    pub dot3_lo: u32,
    pub dot3_hi: u32,
}

pub enum JsxAttrOrSpread {
    Spread(SpreadElement),
    Attr,
}

/// How a spread is replaced: the placeholder string literal and its span,
/// and the block comment (anchored at `comment_pos`) that precedes it.
#[derive(Debug)]
pub struct SpreadRewrite {
    pub placeholder: String,
    pub span_lo: u32,
    pub span_hi: u32,
    pub comment_pos: u32,
    pub comment_text: String,
}

pub struct SpecRewrite {
    pub placeholder: Seq<char>,
    pub span_lo: u32,
    pub span_hi: u32,
    pub comment_pos: u32,
    pub comment_text: Seq<char>,
}

impl View for SpreadRewrite {
    type V = SpecRewrite;

    open spec fn view(&self) -> SpecRewrite {
        SpecRewrite {
            placeholder: self.placeholder@,
            span_lo: self.span_lo,
            span_hi: self.span_hi,
            comment_pos: self.comment_pos,
            comment_text: self.comment_text@,
        }
    }
}

/// `name` is one of the chain-root exports of the core package: the
/// `cas`, `css` and `cassida` aliases of the builder, or its default
/// export, which is the same builder.
pub open spec fn is_root_export(name: Seq<char>) -> bool {
    name == "cas"@ || name == "css"@ || name == "cassida"@ || name == "default"@
}

/// The exported name that a named specifier imports.
pub open spec fn imported_name(local: String, imported: Option<ModuleExportName>) -> Option<Seq<char>> {
    match imported {
        Some(ModuleExportName::Ident(id)) => Some(id@),
        Some(ModuleExportName::Str(Some(v))) => Some(v@),
        Some(ModuleExportName::Str(None)) => None,
        None => Some(local@),
    }
}

/// The local name that a specifier binds to a chain root, if any.
pub open spec fn specifier_root(s: ImportSpecifier) -> Option<Seq<char>> {
    match s {
        ImportSpecifier::Default { local } => Some(local@),
        ImportSpecifier::Named { local, imported, is_type_only } => if is_type_only {
            None
        } else {
            match imported_name(local, imported) {
                Some(n) => if is_root_export(n) {
                    Some(local@)
                } else {
                    None
                },
                None => None,
            }
        },
        ImportSpecifier::Namespace => None,
    }
}

/// A runtime (not type-only) import from the core package.
pub open spec fn imports_core(d: ImportDecl) -> bool {
    !d.type_only && match d.src {
        Some(s) => s@ == "@cassida/core"@,
        None => false,
    }
}

/// The chain roots that an import declaration binds.
pub open spec fn import_roots(d: ImportDecl) -> Set<Seq<char>> {
    Set::new(
        |n: Seq<char>|
            imports_core(d) && exists|i: int|
                0 <= i < d.specifiers.len() && #[trigger] specifier_root(d.specifiers@[i]) == Some(n),
    )
}

/// The chain roots that the imports of a module bind.
pub open spec fn module_roots(items: Seq<ModuleItem>) -> Set<Seq<char>> {
    Set::new(
        |n: Seq<char>|
            exists|i: int|
                0 <= i < items.len() && match #[trigger] items[i] {
                    ModuleItem::Import(d) => import_roots(d).contains(n),
                    ModuleItem::Other => false,
                },
    )
}

pub open spec fn program_roots(p: Program) -> Set<Seq<char>> {
    match p {
        Program::Module(items) => module_roots(items@),
        Program::Script => Set::empty(),
    }
}

/// The text of placeholder number `n`.
pub open spec fn placeholder_text(n: nat) -> Seq<char> {
    "__CAS_PLACEHOLDER_"@ + nat_decimal(n) + "__"@
}

/// `Span::is_dummy` of swc_common: the empty span at 0, or a span that
/// starts in the range reserved for synthesised positions.
pub open spec fn span_is_dummy(lo: u32, hi: u32) -> bool {
    (lo == 0 && hi == 0) || lo >= u32::MAX - 65536
}

/// The synthetic anchor of placeholder `n` for a spread without a source
/// position: `0x8000_0000 + n`, saturating.
pub open spec fn synthetic_pos(n: nat) -> u32 {
    if 0x8000_0000 + n <= u32::MAX {
        (0x8000_0000 + n) as u32
    } else {
        u32::MAX
    }
}

/// The rewrite of a spread as placeholder number `n`.
pub open spec fn rewrite_of(roots: Set<Seq<char>>, n: nat, s: SpreadElement) -> Option<SpecRewrite> {
    match walk_chain_spec(s.expr, roots) {
        Some(ops) => {
            let dummy = span_is_dummy(s.dot3_lo, s.dot3_hi);
            let pos = if dummy { synthetic_pos(n) } else { s.dot3_lo };
            Some(
                SpecRewrite {
                    placeholder: placeholder_text(n),
                    span_lo: pos,
                    span_hi: if dummy { pos } else { s.dot3_hi },
                    comment_pos: pos,
                    comment_text: " @cassida-ir:"@ + ops_text(ops),
                },
            )
        },
        None => None,
    }
}

pub open spec fn attr_rewrite(roots: Set<Seq<char>>, n: nat, a: JsxAttrOrSpread) -> Option<SpecRewrite> {
    match a {
        JsxAttrOrSpread::Spread(s) => rewrite_of(roots, n, s),
        JsxAttrOrSpread::Attr => None,
    }
}

/// The rewrites of the attributes of one element, in order, the first
/// rewritten spread taking placeholder number `n`.
pub open spec fn attr_rewrites(roots: Set<Seq<char>>, n: nat, attrs: Seq<JsxAttrOrSpread>) -> Seq<Option<SpecRewrite>>
    decreases attrs.len(),
{
    if attrs.len() == 0 {
        Seq::empty()
    } else {
        let o = attr_rewrite(roots, n, attrs[0]);
        seq![o] + attr_rewrites(roots, if o is Some { n + 1 } else { n }, attrs.drop_first())
    }
}

/// The placeholder number after the attributes of one element.
pub open spec fn counter_after(roots: Set<Seq<char>>, n: nat, attrs: Seq<JsxAttrOrSpread>) -> nat
    decreases attrs.len(),
{
    if attrs.len() == 0 {
        n
    } else {
        counter_after(
            roots,
            if attr_rewrite(roots, n, attrs[0]) is Some { n + 1 } else { n },
            attrs.drop_first(),
        )
    }
}

/// Numbering the rewrites of an element never lowers the counter.
pub proof fn lemma_counter_after_grows(roots: Set<Seq<char>>, n: nat, attrs: Seq<JsxAttrOrSpread>)
    ensures
        n <= counter_after(roots, n, attrs),
    decreases attrs.len(),
{
    if attrs.len() > 0 {
        let o = attr_rewrite(roots, n, attrs[0]);
        lemma_counter_after_grows(roots, if o is Some { n + 1 } else { n }, attrs.drop_first());
    }
}

pub open spec fn opt_rewrites(v: Seq<Option<SpreadRewrite>>) -> Seq<Option<SpecRewrite>> {
    v.map_values(|o: Option<SpreadRewrite>| match o {
        Some(r) => Some(r@),
        None => None,
    })
}

/// Walks a program: collects the chain roots that its imports bind, and
/// numbers the placeholders of the spreads it rewrites.
pub struct CassidaVisitor {
    pub chain_roots: ChainRoots,
    pub placeholder_counter: u32,
}

impl CassidaVisitor {
    pub fn new() -> (r: CassidaVisitor)
        ensures
            r.chain_roots@ == Set::<Seq<char>>::empty(),
            r.placeholder_counter == 0,
    {
        CassidaVisitor { chain_roots: ChainRoots::new(), placeholder_counter: 0 }
    }

    /// First pass over a program: binds the chain roots of its imports.
    /// Returns whether the program's JSX is to be visited, which is when a
    /// chain root is bound.
    pub fn visit_mut_program(&mut self, program: &Program) -> (descend: bool)
        ensures
            final(self).chain_roots@ == old(self).chain_roots@.union(program_roots(*program)),
            final(self).placeholder_counter == old(self).placeholder_counter,
            descend == (final(self).chain_roots@ != Set::<Seq<char>>::empty()),
    {
        match program {
            Program::Module(items) => collect_chain_roots_from_module(items, &mut self.chain_roots),
            Program::Script => {
                collect_chain_roots_from_script(&mut self.chain_roots);
                assert(self.chain_roots@ =~= old(self).chain_roots@.union(Set::empty()));
            },
        }
        !self.chain_roots.is_empty()
    }

    /// Decides, attribute by attribute, which spreads of one JSX opening
    /// element are replaced: `Some(rewrite)` at the position of each
    /// recognised chain spread, `None` for every other attribute.
    pub fn visit_mut_jsx_opening_element(&mut self, attrs: &Vec<JsxAttrOrSpread>) -> (r: Vec<Option<SpreadRewrite>>)
        requires
            counter_after(old(self).chain_roots@, old(self).placeholder_counter as nat, attrs@)
                <= u32::MAX,
        ensures
            opt_rewrites(r@) == attr_rewrites(
                old(self).chain_roots@,
                old(self).placeholder_counter as nat,
                attrs@,
            ),
            final(self).placeholder_counter == counter_after(
                old(self).chain_roots@,
                old(self).placeholder_counter as nat,
                attrs@,
            ),
            final(self).chain_roots@ == old(self).chain_roots@,
    {
        let mut new_attrs: Vec<Option<SpreadRewrite>> = Vec::new();
        let n = attrs.len();
        let ghost roots = self.chain_roots@;
        let ghost c0 = self.placeholder_counter as nat;
        let mut i: usize = 0;
        proof {
            assert(attrs@.skip(0) =~= attrs@);
            assert(opt_rewrites(new_attrs@) + attr_rewrites(roots, c0, attrs@) =~= attr_rewrites(roots, c0, attrs@));
        }
        while i < n
            invariant
                n == attrs@.len(),
                i <= n,
                self.chain_roots@ == roots,
                roots == old(self).chain_roots@,
                c0 == old(self).placeholder_counter,
                counter_after(roots, c0, attrs@) <= u32::MAX,
                opt_rewrites(new_attrs@) + attr_rewrites(roots, self.placeholder_counter as nat, attrs@.skip(i as int))
                    == attr_rewrites(roots, c0, attrs@),
                counter_after(roots, self.placeholder_counter as nat, attrs@.skip(i as int))
                    == counter_after(roots, c0, attrs@),
            decreases n - i,
        {
            let ghost c = self.placeholder_counter as nat;
            let ghost rest = attrs@.skip(i as int);
            proof {
                assert(rest[0] == attrs@[i as int]);
                assert(rest.drop_first() =~= attrs@.skip(i as int + 1));
            }
            proof {
                let o = attr_rewrite(roots, c, rest[0]);
                lemma_counter_after_grows(roots, if o is Some { c + 1 } else { c }, rest.drop_first());
            }
            let outcome = match &attrs[i] {
                JsxAttrOrSpread::Spread(spread) => try_rewrite_spread(self, spread),
                JsxAttrOrSpread::Attr => None,
            };
            proof {
                let o = attr_rewrite(roots, c, rest[0]);
                assert(opt_rewrites(new_attrs@.push(outcome)) =~= opt_rewrites(new_attrs@).push(o));
                assert(attr_rewrites(roots, c, rest) =~= seq![o] + attr_rewrites(
                    roots,
                    self.placeholder_counter as nat,
                    rest.drop_first(),
                ));
                assert(opt_rewrites(new_attrs@).push(o) + attr_rewrites(
                    roots,
                    self.placeholder_counter as nat,
                    rest.drop_first(),
                ) =~= opt_rewrites(new_attrs@) + (seq![o] + attr_rewrites(
                    roots,
                    self.placeholder_counter as nat,
                    rest.drop_first(),
                )));
            }
            new_attrs.push(outcome);
            i = i + 1;
        }
        proof {
            assert(attrs@.skip(n as int) =~= Seq::<JsxAttrOrSpread>::empty());
            assert(opt_rewrites(new_attrs@) + Seq::<Option<SpecRewrite>>::empty() =~= opt_rewrites(new_attrs@));
        }
        new_attrs
    }
}

/// Tries to walk a spread's argument as a chain. `Some` with the
/// replacement for a recognised chain, which takes the next placeholder
/// number; `None` (nothing changed) otherwise.
pub fn try_rewrite_spread(state: &mut CassidaVisitor, spread: &SpreadElement) -> (r: Option<SpreadRewrite>)
    requires
        walk_chain_spec(spread.expr, old(state).chain_roots@) is Some ==> old(state).placeholder_counter
            < u32::MAX,
    ensures
        match r {
            Some(w) => rewrite_of(old(state).chain_roots@, old(state).placeholder_counter as nat, *spread)
                == Some(w@),
            None => rewrite_of(old(state).chain_roots@, old(state).placeholder_counter as nat, *spread)
                is None,
        },
        final(state).placeholder_counter == if r is Some {
            old(state).placeholder_counter + 1
        } else {
            old(state).placeholder_counter as int
        },
        final(state).chain_roots@ == old(state).chain_roots@,
{
    let ops = match walk_chain(&spread.expr, &state.chain_roots) {
        Some(ops) => ops,
        None => return None,
    };
    let ir_json = serialize_ops(&ops);
    let counter = state.placeholder_counter;
    state.placeholder_counter = counter + 1;

    let mut placeholder = String::from_str("__CAS_PLACEHOLDER_");
    push_decimal(&mut placeholder, counter as u64);
    placeholder.append("__");

    // The `...` token's own position keeps every comment next to its own
    // placeholder; a spread without a source position gets a synthetic
    // one above the source range, ascending with the counter.
    let dummy = is_dummy_span(spread.dot3_lo, spread.dot3_hi);
    let pos: u32 = if dummy {
        0x8000_0000u32.saturating_add(counter)
    } else {
        spread.dot3_lo
    };
    let hi: u32 = if dummy {
        pos
    } else {
        spread.dot3_hi
    };
    let mut comment_text = String::from_str(" @cassida-ir:");
    comment_text.append(ir_json.as_str());
    Some(SpreadRewrite { placeholder, span_lo: pos, span_hi: hi, comment_pos: pos, comment_text })
}

/// Whether a span carries no source position (see [`span_is_dummy`]).
pub fn is_dummy_span(lo: u32, hi: u32) -> (r: bool)
    ensures
        r == span_is_dummy(lo, hi),
{
    (lo == 0 && hi == 0) || lo >= u32::MAX - 65536
}

/// Binds the chain roots of the top-level imports of a module.
fn collect_chain_roots_from_module(items: &Vec<ModuleItem>, roots: &mut ChainRoots)
    ensures
        final(roots)@ == old(roots)@.union(module_roots(items@)),
{
    let n = items.len();
    let mut i: usize = 0;
    while i < n
        invariant
            n == items@.len(),
            i <= n,
            roots@ == old(roots)@.union(module_roots(items@.take(i as int))),
        decreases n - i,
    {
        match &items[i] {
            ModuleItem::Import(decl) => collect_chain_roots_from_import(decl, roots),
            ModuleItem::Other => {},
        }
        proof {
            let t = items@.take(i as int + 1);
            assert forall|x: Seq<char>| module_roots(t).contains(x) <==> (module_roots(items@.take(i as int)).contains(x)
                || match items@[i as int] {
                    ModuleItem::Import(d) => import_roots(d).contains(x),
                    ModuleItem::Other => false,
                }) by {
                if module_roots(t).contains(x) {
                    let j = choose|j: int| 0 <= j < t.len() && match #[trigger] t[j] {
                        ModuleItem::Import(d) => import_roots(d).contains(x),
                        ModuleItem::Other => false,
                    };
                    if j < i {
                        assert(items@.take(i as int)[j] == t[j]);
                    }
                }
                if module_roots(items@.take(i as int)).contains(x) {
                    let j = choose|j: int| 0 <= j < i && match #[trigger] items@.take(i as int)[j] {
                        ModuleItem::Import(d) => import_roots(d).contains(x),
                        ModuleItem::Other => false,
                    };
                    assert(t[j] == items@.take(i as int)[j]);
                }
                if match items@[i as int] {
                    ModuleItem::Import(d) => import_roots(d).contains(x),
                    ModuleItem::Other => false,
                } {
                    assert(t[i as int] == items@[i as int]);
                }
            }
            assert(roots@ =~= old(roots)@.union(module_roots(t)));
        }
        i = i + 1;
    }
    assert(items@.take(n as int) =~= items@);
}

/// A script cannot import a chain root: nothing is bound.
fn collect_chain_roots_from_script(roots: &mut ChainRoots)
    ensures
        final(roots)@ == old(roots)@,
{
}

/// Binds the local names of an import from the core package that name a
/// chain-root export (default, named or aliased); type-only imports and
/// namespace imports bind nothing.
fn collect_chain_roots_from_import(decl: &ImportDecl, roots: &mut ChainRoots)
    ensures
        final(roots)@ == old(roots)@.union(import_roots(*decl)),
{
    let is_core = match &decl.src {
        Some(s) => str_equals(s.as_str(), "@cassida/core"),
        None => false,
    };
    if decl.type_only || !is_core {
        assert(import_roots(*decl) =~= Set::<Seq<char>>::empty());
        assert(roots@ =~= old(roots)@.union(import_roots(*decl)));
        return;
    }
    let n = decl.specifiers.len();
    let mut i: usize = 0;
    while i < n
        invariant
            n == decl.specifiers@.len(),
            i <= n,
            imports_core(*decl),
            forall|x: Seq<char>| #[trigger] roots@.contains(x) <==> (old(roots)@.contains(x) || exists|j: int|
                0 <= j < i && #[trigger] specifier_root(decl.specifiers@[j]) == Some(x)),
        decreases n - i,
    {
        let bound = specifier_local_root(&decl.specifiers[i]);
        match bound {
            Some(name) => {
                roots.insert(name);
            },
            None => {},
        }
        proof {
            assert forall|x: Seq<char>| #[trigger] roots@.contains(x) <==> (old(roots)@.contains(x) || exists|j: int|
                0 <= j < i + 1 && #[trigger] specifier_root(decl.specifiers@[j]) == Some(x)) by {
                if specifier_root(decl.specifiers@[i as int]) == Some(x) {
                }
            }
        }
        i = i + 1;
    }
    assert(roots@ =~= old(roots)@.union(import_roots(*decl)));
}

/// The local name that one specifier binds to a chain root.
fn specifier_local_root(spec: &ImportSpecifier) -> (r: Option<String>)
    ensures
        match r {
            Some(n) => specifier_root(*spec) == Some(n@),
            None => specifier_root(*spec) is None,
        },
{
    match spec {
        ImportSpecifier::Default { local } => Some(local.clone()),
        ImportSpecifier::Named { local, imported, is_type_only } => {
            // `import { type cas }` is erased at runtime.
            if *is_type_only {
                return None;
            }
            let name: &String = match imported {
                Some(ModuleExportName::Ident(id)) => id,
                Some(ModuleExportName::Str(Some(v))) => v,
                Some(ModuleExportName::Str(None)) => return None,
                None => local,
            };
            let s = name.as_str();
            // `import { default as b }` binds the default export, the same
            // builder as the named aliases.
            if str_equals(s, "cas") || str_equals(s, "css") || str_equals(s, "cassida")
                || str_equals(s, "default") {
                Some(local.clone())
            } else {
                None
            }
        },
        ImportSpecifier::Namespace => None,
    }
}

} // verus!
