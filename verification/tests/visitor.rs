use cassida_swc_plugin_next::ast::{Arg, ArrowBody, Callee, Expr, Lit, MemberProp, Pat};
use cassida_swc_plugin_next::visitor::{
    CassidaVisitor, ImportDecl, ImportSpecifier, JsxAttrOrSpread, ModuleExportName, ModuleItem,
    Program, SpreadElement, SpreadRewrite,
};

fn ident(name: &str) -> Expr {
    Expr::Ident(name.to_string())
}

fn string(value: &str) -> Expr {
    Expr::Lit(Lit::Str(Some(value.to_string())))
}

fn member(obj: Expr, name: &str) -> Expr {
    Expr::Member(Box::new(obj), MemberProp::Ident(name.to_string()))
}

fn call(callee: Expr, args: Vec<Expr>) -> Expr {
    Expr::Call(
        Callee::Expr(Box::new(callee)),
        args.into_iter().map(|expr| Arg { spread: false, expr }).collect(),
    )
}

fn method(receiver: Expr, name: &str, args: Vec<Expr>) -> Expr {
    call(member(receiver, name), args)
}

fn arrow(param: &str, body: Expr) -> Expr {
    Expr::Arrow(vec![Pat::Ident(param.to_string())], ArrowBody::Expr(Box::new(body)))
}

fn root(name: &str) -> Expr {
    call(ident(name), vec![])
}

/// `<root>().color('<value>').props`
fn color_props(root_name: &str, value: &str) -> Expr {
    member(method(root(root_name), "color", vec![string(value)]), "props")
}

fn named(local: &str, imported: Option<&str>) -> ImportSpecifier {
    ImportSpecifier::Named {
        local: local.to_string(),
        imported: imported.map(|i| ModuleExportName::Ident(i.to_string())),
        is_type_only: false,
    }
}

fn import(type_only: bool, src: &str, specifiers: Vec<ImportSpecifier>) -> ModuleItem {
    ModuleItem::Import(ImportDecl { type_only, src: Some(src.to_string()), specifiers })
}

fn spread(expr: Expr, pos: u32) -> JsxAttrOrSpread {
    JsxAttrOrSpread::Spread(SpreadElement { expr, dot3_lo: pos, dot3_hi: pos + 3 })
}

/// The visitor after its first pass over a module, and whether it goes on
/// to rewrite the module's JSX.
fn visit_module(items: Vec<ModuleItem>) -> (CassidaVisitor, bool) {
    let mut v = CassidaVisitor::new();
    let descend = v.visit_mut_program(&Program::Module(items));
    (v, descend)
}

/// The `className` attribute that a rewrite stands for, with its comment
/// printed before the placeholder literal.
fn class_name(r: &SpreadRewrite) -> String {
    format!("className={{/*{}*/ \"{}\"}}", r.comment_text, r.placeholder)
}

fn only_rewrite(v: &mut CassidaVisitor, expr: Expr, pos: u32) -> Option<SpreadRewrite> {
    let mut out = v.visit_mut_jsx_opening_element(&vec![spread(expr, pos)]);
    assert_eq!(out.len(), 1);
    out.pop().unwrap()
}

#[test]
fn rewrites_single_chain_spread_to_classname_with_ir_comment() {
    let (mut v, descend) = visit_module(vec![import(false, "@cassida/core", vec![named("cas", None)])]);
    assert!(descend);
    let r = only_rewrite(&mut v, color_props("cas", "red"), 60).expect("rewritten");
    let out = class_name(&r);
    assert!(
        out.contains(r#"className={/* @cassida-ir:[{"method":"color","args":["red"]}]*/ "__CAS_PLACEHOLDER_0__"}"#),
        "output was:\n{out}"
    );
}

#[test]
fn leaves_unrelated_jsx_spreads_alone() {
    let (mut v, descend) = visit_module(vec![ModuleItem::Other]);
    assert!(!descend);
    let out = v.visit_mut_jsx_opening_element(&vec![spread(ident("props"), 30)]);
    assert!(out[0].is_none(), "{{...props}} was rewritten");
}

#[test]
fn leaves_jsx_when_no_cassida_import_present() {
    // `const cas = () => ({});` binds no chain root.
    let (mut v, descend) = visit_module(vec![ModuleItem::Other, ModuleItem::Other]);
    assert!(!descend);
    let expr = method(root("cas"), "color", vec![string("red")]);
    assert!(only_rewrite(&mut v, expr, 60).is_none(), "{{...cas()}} was rewritten");
}

#[test]
fn aliased_named_import_works_as_chain_root() {
    let (mut v, _) = visit_module(vec![import(false, "@cassida/core", vec![named("styled", Some("cas"))])]);
    let r = only_rewrite(&mut v, color_props("styled", "blue"), 60).expect("rewritten");
    let out = class_name(&r);
    assert!(
        out.contains(r#"@cassida-ir:[{"method":"color","args":["blue"]}]"#),
        "output was:\n{out}"
    );
    assert!(out.contains("__CAS_PLACEHOLDER_0__"));
}

#[test]
fn default_import_works_as_chain_root() {
    let (mut v, _) = visit_module(vec![import(
        false,
        "@cassida/core",
        vec![ImportSpecifier::Default { local: "cas".to_string() }],
    )]);
    let r = only_rewrite(&mut v, color_props("cas", "green"), 60).expect("rewritten");
    let out = class_name(&r);
    assert!(
        out.contains(r#"@cassida-ir:[{"method":"color","args":["green"]}]"#),
        "output was:\n{out}"
    );
}

#[test]
fn modifier_scope_serialises_in_ir() {
    let (mut v, _) = visit_module(vec![import(false, "@cassida/core", vec![named("cas", None)])]);
    let hover = method(
        root("cas"),
        "hover",
        vec![arrow("c", method(ident("c"), "color", vec![string("red")]))],
    );
    let r = only_rewrite(&mut v, member(hover, "props"), 60).expect("rewritten");
    let out = class_name(&r);
    assert!(
        out.contains(
            r#"@cassida-ir:[{"scope":{"kind":"pseudo","selector":":hover"},"ops":[{"method":"color","args":["red"]}]}]"#
        ),
        "output was:\n{out}"
    );
}

#[test]
fn before_pseudo_element_serialises_in_ir() {
    let (mut v, _) = visit_module(vec![import(false, "@cassida/core", vec![named("cas", None)])]);
    let before = method(
        root("cas"),
        "before",
        vec![arrow("c", method(ident("c"), "content", vec![string("\".\"")]))],
    );
    let r = only_rewrite(&mut v, member(before, "props"), 60).expect("rewritten");
    let out = class_name(&r);
    assert!(out.contains(r#""selector":"::before""#), "output was:\n{out}");
}

#[test]
fn type_only_imports_are_ignored() {
    let (mut v, descend) = visit_module(vec![
        import(true, "@cassida/core", vec![named("cas", None)]),
        ModuleItem::Other,
    ]);
    assert!(!descend);
    let expr = method(root("cas"), "color", vec![string("red")]);
    let r = only_rewrite(&mut v, expr, 60);
    assert!(r.is_none(), "type-only import should not register a chain root");
}

#[test]
fn inline_type_specifier_is_ignored() {
    let (mut v, _) = visit_module(vec![import(
        false,
        "@cassida/core",
        vec![
            ImportSpecifier::Named {
                local: "cas".to_string(),
                imported: None,
                is_type_only: true,
            },
            named("runtime", Some("default")),
        ],
    )]);
    let expr = method(root("cas"), "color", vec![string("red")]);
    let r = only_rewrite(&mut v, expr, 60);
    assert!(r.is_none(), "inline `type` specifier should be ignored");
}

#[test]
fn multiple_spreads_get_distinct_placeholder_indices() {
    let (mut v, _) = visit_module(vec![import(false, "@cassida/core", vec![named("cas", None)])]);
    let first = only_rewrite(&mut v, color_props("cas", "red"), 60).expect("first");
    let second = only_rewrite(&mut v, color_props("cas", "blue"), 120).expect("second");
    let out = format!("{}\n{}", class_name(&first), class_name(&second));
    assert!(
        out.contains(r#""__CAS_PLACEHOLDER_0__""#) && out.contains(r#""__CAS_PLACEHOLDER_1__""#),
        "output was:\n{out}"
    );
}

#[test]
fn each_placeholder_carries_its_own_ir_comment() {
    let (mut v, _) = visit_module(vec![import(false, "@cassida/core", vec![named("cas", None)])]);
    let first = only_rewrite(&mut v, color_props("cas", "red"), 60).expect("first");
    let second = only_rewrite(&mut v, color_props("cas", "blue"), 120).expect("second");
    let out = format!("{}\n{}", class_name(&first), class_name(&second));
    assert!(
        out.contains(r#"@cassida-ir:[{"method":"color","args":["red"]}]*/ "__CAS_PLACEHOLDER_0__""#),
        "placeholder 0 should carry its red IR; output was:\n{out}"
    );
    assert!(
        out.contains(r#"@cassida-ir:[{"method":"color","args":["blue"]}]*/ "__CAS_PLACEHOLDER_1__""#),
        "placeholder 1 should carry its blue IR; output was:\n{out}"
    );
    assert!(first.comment_pos < second.comment_pos);
}
