use cassida_swc_plugin_next::ast::{Arg, ArrowBody, Callee, Cooked, Expr, Lit, MemberProp, NumLit, Pat, SafeInt, UnaryOp};
use cassida_swc_plugin_next::ir::{serialize_ops, JsonNumber, JsonValue, MethodOp, Op, RawOp, Scope, ScopedOp};
use cassida_swc_plugin_next::modifiers::{arg_modifier, arg_modifier_scope, canonical_scope, ArgModifier};
use cassida_swc_plugin_next::text::{i64_to_decimal, str_equals};
use cassida_swc_plugin_next::visitor::{
    is_dummy_span, try_rewrite_spread, CassidaVisitor, ImportDecl, ImportSpecifier, JsxAttrOrSpread,
    ModuleExportName, ModuleItem, Program, SpreadElement,
};
use cassida_swc_plugin_next::walker::{camel_to_kebab, walk_chain, ChainRoots};

fn ident(name: &str) -> Expr {
    Expr::Ident(name.to_string())
}

fn string(value: &str) -> Expr {
    Expr::Lit(Lit::Str(Some(value.to_string())))
}

fn num(value: i64) -> Expr {
    Expr::Lit(Lit::Num(NumLit::SafeInt(SafeInt::new(value).unwrap())))
}

fn member(obj: Expr, name: &str) -> Expr {
    Expr::Member(Box::new(obj), MemberProp::Ident(name.to_string()))
}

fn call(callee: Expr, args: Vec<Expr>) -> Expr {
    Expr::Call(
        Callee::Expr(Box::new(callee)),
        args.into_iter().map(|expr| Arg { spread: false, expr }).collect(),
    )
}

fn method(receiver: Expr, name: &str, args: Vec<Expr>) -> Expr {
    call(member(receiver, name), args)
}

fn cas() -> Expr {
    call(ident("cas"), vec![])
}

fn cas_roots() -> ChainRoots {
    let mut r = ChainRoots::new();
    r.insert("cas".to_string());
    r
}

fn walk_one(arg: Expr) -> Option<Vec<Op>> {
    walk_chain(&method(cas(), "m", vec![arg]), &cas_roots())
}

// --- JSON text of the IR ---------------------------------------------------

#[test]
fn serialize_escapes_strings_through_serde_json() {
    let ops = vec![Op::Method(MethodOp {
        method: "content".into(),
        args: vec![JsonValue::String("a\"b\\c\n".into())],
    })];
    assert_eq!(
        serialize_ops(&ops),
        r#"[{"method":"content","args":["a\"b\\c\n"]}]"#
    );
}

#[test]
fn serialize_every_argument_kind() {
    let ops = vec![Op::Method(MethodOp {
        method: "m".into(),
        args: vec![
            JsonValue::Number(JsonNumber::Int(-12)),
            JsonValue::Number(JsonNumber::Float { negative: true, magnitude: "1.5".into() }),
            JsonValue::Bool(true),
            JsonValue::Bool(false),
            JsonValue::Null,
        ],
    })];
    assert_eq!(
        serialize_ops(&ops),
        r#"[{"method":"m","args":[-12,-1.5,true,false,null]}]"#
    );
}

#[test]
fn serialize_raw_media_and_empty_lists() {
    assert_eq!(serialize_ops(&vec![]), "[]");
    let ops = vec![
        Op::Raw(RawOp { property: "padding-top".into(), value: "8".into() }),
        Op::Scoped(ScopedOp {
            scope: Scope::Media { query: "(min-width: 640px)".into() },
            ops: vec![Op::Method(MethodOp { method: "x".into(), args: vec![] })],
        }),
    ];
    assert_eq!(
        serialize_ops(&ops),
        r#"[{"property":"padding-top","value":"8"},{"scope":{"kind":"media","query":"(min-width: 640px)"},"ops":[{"method":"x","args":[]}]}]"#
    );
}

// --- kebab case -------------------------------------------------------------

#[test]
fn kebab_examples() {
    assert_eq!(camel_to_kebab("paddingTop"), "padding-top");
    assert_eq!(camel_to_kebab("WebkitBorderRadius"), "-webkit-border-radius");
    assert_eq!(camel_to_kebab("-webkit-Foo"), "-webkit-Foo");
    assert_eq!(camel_to_kebab("color"), "color");
    assert_eq!(camel_to_kebab(""), "");
    assert_eq!(camel_to_kebab("ÄbC"), "Äb-c");
}

#[test]
fn kebab_twice_is_kebab_once() {
    for name in ["paddingTop", "WebkitBorderRadius", "a-B", "zIndex", "x"] {
        let once = camel_to_kebab(name);
        assert_eq!(camel_to_kebab(&once), once);
    }
}

// --- numbers and text -------------------------------------------------------

#[test]
fn decimal_text_of_integers() {
    assert_eq!(i64_to_decimal(0), "0");
    assert_eq!(i64_to_decimal(8), "8");
    assert_eq!(i64_to_decimal(-8), "-8");
    assert_eq!(i64_to_decimal(i64::MAX), "9223372036854775807");
    assert_eq!(i64_to_decimal(i64::MIN), "-9223372036854775808");
}

#[test]
fn safe_int_range_is_two_to_the_53_minus_one() {
    assert!(SafeInt::new(9_007_199_254_740_991).is_some());
    assert!(SafeInt::new(-9_007_199_254_740_991).is_some());
    assert!(SafeInt::new(9_007_199_254_740_992).is_none());
    assert!(SafeInt::new(-9_007_199_254_740_992).is_none());
    assert_eq!(SafeInt::new(42).unwrap().get(), 42);
}

#[test]
fn string_equality() {
    assert!(str_equals("hover", "hover"));
    assert!(!str_equals("hover", "hovers"));
    assert!(!str_equals("a", "b"));
}

#[test]
fn set_takes_a_number_value_as_text() {
    let ops = walk_chain(&method(cas(), "set", vec![string("zIndex"), num(8)]), &cas_roots()).unwrap();
    assert_eq!(ops, vec![Op::Raw(RawOp { property: "z-index".into(), value: "8".into() })]);
    let nan = Expr::Lit(Lit::Num(NumLit::NonFinite { display: "NaN".into() }));
    let ops = walk_chain(&method(cas(), "set", vec![string("opacity"), nan]), &cas_roots()).unwrap();
    assert_eq!(ops, vec![Op::Raw(RawOp { property: "opacity".into(), value: "NaN".into() })]);
}

#[test]
fn set_needs_two_literal_arguments() {
    assert!(walk_chain(&method(cas(), "set", vec![string("color")]), &cas_roots()).is_none());
    assert!(walk_chain(&method(cas(), "set", vec![ident("p"), string("red")]), &cas_roots()).is_none());
    assert!(walk_chain(&method(cas(), "set", vec![string("color"), Expr::Lit(Lit::Bool(true))]), &cas_roots()).is_none());
}

#[test]
fn non_finite_numbers_bail_in_arguments() {
    let inf = Expr::Lit(Lit::Num(NumLit::NonFinite { display: "inf".into() }));
    assert!(walk_one(inf).is_none());
}

#[test]
fn negating_a_float_flips_its_sign() {
    let lit = NumLit::Finite { negative: false, json_magnitude: "1.5".into(), display: "1.5".into() };
    let ops = walk_one(Expr::Unary(UnaryOp::Minus, Box::new(Expr::Lit(Lit::Num(lit))))).unwrap();
    assert_eq!(
        ops,
        vec![Op::Method(MethodOp {
            method: "m".into(),
            args: vec![JsonValue::Number(JsonNumber::Float { negative: true, magnitude: "1.5".into() })],
        })]
    );
}

#[test]
fn unsupported_argument_shapes_bail() {
    assert!(walk_one(Expr::Lit(Lit::Str(None))).is_none());
    assert!(walk_one(Expr::Unary(UnaryOp::Other, Box::new(num(1)))).is_none());
    assert!(walk_one(Expr::Unary(UnaryOp::Bang, Box::new(num(1)))).is_none());
    assert!(walk_one(Expr::Tpl { quasis: vec![Cooked::Absent], n_exprs: 0 }).is_none());
    assert!(walk_one(Expr::Tpl { quasis: vec![Cooked::NotUtf8], n_exprs: 0 }).is_none());
    let spread = Expr::Call(
        Callee::Expr(Box::new(member(cas(), "m"))),
        vec![Arg { spread: true, expr: string("x") }],
    );
    assert!(walk_chain(&spread, &cas_roots()).is_none());
    assert!(walk_chain(&call(ident("cas"), vec![num(1)]), &cas_roots()).is_none());
    assert_eq!(walk_chain(&cas(), &cas_roots()), Some(vec![]));
    assert!(walk_chain(&cas(), &ChainRoots::new()).is_none());
}

#[test]
fn null_and_bool_arguments() {
    let ops = walk_chain(
        &method(cas(), "m", vec![Expr::Lit(Lit::Null), Expr::Lit(Lit::Bool(false))]),
        &cas_roots(),
    )
    .unwrap();
    assert_eq!(
        ops,
        vec![Op::Method(MethodOp { method: "m".into(), args: vec![JsonValue::Null, JsonValue::Bool(false)] })]
    );
}

#[test]
fn callbacks_need_one_identifier_parameter_and_an_expression_body() {
    let body = method(ident("c"), "color", vec![string("red")]);
    let two = Expr::Arrow(vec![Pat::Ident("c".into()), Pat::Ident("d".into())], ArrowBody::Expr(Box::new(body)));
    assert!(walk_chain(&method(cas(), "hover", vec![two]), &cas_roots()).is_none());
    let block = Expr::Arrow(vec![Pat::Ident("c".into())], ArrowBody::Block);
    assert!(walk_chain(&method(cas(), "hover", vec![block]), &cas_roots()).is_none());
    let pattern = Expr::Arrow(vec![Pat::Other], ArrowBody::Expr(Box::new(ident("c"))));
    assert!(walk_chain(&method(cas(), "hover", vec![pattern]), &cas_roots()).is_none());
}

// --- modifiers --------------------------------------------------------------

#[test]
fn modifier_tables() {
    assert_eq!(canonical_scope("hover"), Some(Scope::Pseudo { selector: ":hover".into() }));
    assert_eq!(canonical_scope("after"), Some(Scope::Pseudo { selector: "::after".into() }));
    assert_eq!(canonical_scope("color"), None);
    assert_eq!(arg_modifier("media"), Some(ArgModifier::Media));
    assert_eq!(arg_modifier("on"), Some(ArgModifier::On));
    assert_eq!(arg_modifier("hover"), None);
}

#[test]
fn media_argument_loses_its_at_media_keyword() {
    assert_eq!(
        arg_modifier_scope(ArgModifier::Media, "@media  (min-width: 640px)"),
        Scope::Media { query: "(min-width: 640px)".into() }
    );
    assert_eq!(
        arg_modifier_scope(ArgModifier::Media, "print"),
        Scope::Media { query: "print".into() }
    );
    assert_eq!(
        arg_modifier_scope(ArgModifier::On, "@media print"),
        Scope::Media { query: "print".into() }
    );
    assert_eq!(
        arg_modifier_scope(ArgModifier::On, "::after"),
        Scope::Pseudo { selector: "::after".into() }
    );
}

// --- roots and rewrites -----------------------------------------------------

#[test]
fn chain_roots_set_operations() {
    let mut r = ChainRoots::new();
    assert!(r.is_empty());
    r.insert("cas".into());
    r.insert("cas".into());
    assert!(!r.is_empty());
    assert!(r.contains("cas"));
    assert!(!r.contains("css"));
}

#[test]
fn import_sources_other_than_core_bind_nothing() {
    let mut v = CassidaVisitor::new();
    let program = Program::Module(vec![
        ModuleItem::Import(ImportDecl {
            type_only: false,
            src: Some("@cassida/other".into()),
            specifiers: vec![ImportSpecifier::Default { local: "cas".into() }],
        }),
        ModuleItem::Import(ImportDecl {
            type_only: false,
            src: Some("@cassida/core".into()),
            specifiers: vec![
                ImportSpecifier::Namespace,
                ImportSpecifier::Named {
                    local: "box".into(),
                    imported: Some(ModuleExportName::Str(Some("cassida".into()))),
                    is_type_only: false,
                },
                ImportSpecifier::Named { local: "other".into(), imported: None, is_type_only: false },
            ],
        }),
    ]);
    assert!(v.visit_mut_program(&program));
    assert!(!v.chain_roots.contains("cas"));
    assert!(v.chain_roots.contains("box"));
    assert!(!v.chain_roots.contains("other"));
    assert!(!CassidaVisitor::new().visit_mut_program(&Program::Script));
}

#[test]
fn dummy_spans_get_ascending_synthetic_positions() {
    assert!(is_dummy_span(0, 0));
    assert!(is_dummy_span(u32::MAX - 10, u32::MAX));
    assert!(!is_dummy_span(0, 5));
    assert!(!is_dummy_span(10, 13));
    let mut v = CassidaVisitor::new();
    v.chain_roots.insert("cas".into());
    let chain = member(method(cas(), "color", vec![string("red")]), "props");
    let s = SpreadElement { expr: chain, dot3_lo: 0, dot3_hi: 0 };
    let a = try_rewrite_spread(&mut v, &s).unwrap();
    let b = try_rewrite_spread(&mut v, &s).unwrap();
    assert_eq!(a.comment_pos, 0x8000_0000);
    assert_eq!(b.comment_pos, 0x8000_0001);
    assert_eq!((a.span_lo, a.span_hi), (0x8000_0000, 0x8000_0000));
    assert_eq!(b.placeholder, "__CAS_PLACEHOLDER_1__");
    assert_eq!(v.placeholder_counter, 2);
}

#[test]
fn element_rewrites_number_only_recognised_spreads() {
    let mut v = CassidaVisitor::new();
    v.chain_roots.insert("cas".into());
    let chain = |c: &str| member(method(cas(), "color", vec![string(c)]), "props");
    let attrs = vec![
        JsxAttrOrSpread::Spread(SpreadElement { expr: chain("red"), dot3_lo: 5, dot3_hi: 8 }),
        JsxAttrOrSpread::Attr,
        JsxAttrOrSpread::Spread(SpreadElement { expr: ident("props"), dot3_lo: 20, dot3_hi: 23 }),
        JsxAttrOrSpread::Spread(SpreadElement { expr: chain("blue"), dot3_lo: 30, dot3_hi: 33 }),
    ];
    let out = v.visit_mut_jsx_opening_element(&attrs);
    assert_eq!(out.len(), 4);
    assert_eq!(out[0].as_ref().unwrap().placeholder, "__CAS_PLACEHOLDER_0__");
    assert_eq!((out[0].as_ref().unwrap().span_lo, out[0].as_ref().unwrap().span_hi), (5, 8));
    assert!(out[1].is_none());
    assert!(out[2].is_none());
    assert_eq!(out[3].as_ref().unwrap().placeholder, "__CAS_PLACEHOLDER_1__");
    assert_eq!(out[3].as_ref().unwrap().comment_pos, 30);
    assert_eq!(v.placeholder_counter, 2);
}

#[test]
fn serialize_escapes_control_characters_as_serde_json_does() {
    let ops = vec![Op::Raw(RawOp { property: "x".into(), value: "\u{1}\t\u{8}\u{c}\r\u{1f}/\u{7f}é".into() })];
    assert_eq!(
        serialize_ops(&ops),
        "[{\"property\":\"x\",\"value\":\"\\u0001\\t\\b\\f\\r\\u001f/\u{7f}é\"}]"
    );
}

#[test]
fn default_export_named_as_default_binds_its_local() {
    let mut v = CassidaVisitor::new();
    let program = Program::Module(vec![ModuleItem::Import(ImportDecl {
        type_only: false,
        src: Some("@cassida/core".into()),
        specifiers: vec![
            ImportSpecifier::Named {
                local: "cas".into(),
                imported: None,
                is_type_only: true,
            },
            ImportSpecifier::Named {
                local: "runtime".into(),
                imported: Some(ModuleExportName::Ident("default".into())),
                is_type_only: false,
            },
        ],
    })]);
    assert!(v.visit_mut_program(&program));
    assert!(v.chain_roots.contains("runtime"));
    assert!(!v.chain_roots.contains("cas"));
}

#[test]
fn counter_carries_over_between_elements() {
    let mut v = CassidaVisitor::new();
    v.chain_roots.insert("cas".into());
    let chain = |c: &str| member(method(cas(), "color", vec![string(c)]), "props");
    let first = vec![
        JsxAttrOrSpread::Spread(SpreadElement { expr: chain("red"), dot3_lo: 5, dot3_hi: 8 }),
        JsxAttrOrSpread::Spread(SpreadElement { expr: ident("props"), dot3_lo: 10, dot3_hi: 13 }),
        JsxAttrOrSpread::Spread(SpreadElement { expr: chain("blue"), dot3_lo: 15, dot3_hi: 18 }),
    ];
    let next = vec![JsxAttrOrSpread::Spread(SpreadElement { expr: chain("green"), dot3_lo: 40, dot3_hi: 43 })];
    let a = v.visit_mut_jsx_opening_element(&first);
    assert_eq!(v.placeholder_counter, 2);
    let b = v.visit_mut_jsx_opening_element(&next);
    assert_eq!(v.placeholder_counter, 3);
    assert_eq!(a[2].as_ref().unwrap().placeholder, "__CAS_PLACEHOLDER_1__");
    assert_eq!(b[0].as_ref().unwrap().placeholder, "__CAS_PLACEHOLDER_2__");
}

#[test]
fn each_method_step_adds_one_op_under_any_roots() {
    let chain = method(method(cas(), "color", vec![string("red")]), "padding", vec![num(4)]);
    let ops = walk_chain(&member(chain, "props"), &cas_roots()).unwrap();
    assert_eq!(
        serialize_ops(&ops),
        r#"[{"method":"color","args":["red"]},{"method":"padding","args":[4]}]"#
    );
    // The same steps on a receiver that is not a chain give nothing.
    let other = method(call(ident("other"), vec![]), "color", vec![string("red")]);
    assert!(walk_chain(&member(other, "props"), &cas_roots()).is_none());
}

#[test]
fn placeholders_ascend_over_a_sequence_of_elements() {
    let mut v = CassidaVisitor::new();
    v.chain_roots.insert("cas".into());
    v.chain_roots.insert("cas".into());
    let chain = |c: &str| member(method(cas(), "color", vec![string(c)]), "props");
    let elems = vec![
        vec![JsxAttrOrSpread::Spread(SpreadElement { expr: chain("red"), dot3_lo: 5, dot3_hi: 8 })],
        vec![JsxAttrOrSpread::Attr],
        vec![
            JsxAttrOrSpread::Spread(SpreadElement { expr: chain("blue"), dot3_lo: 20, dot3_hi: 23 }),
            JsxAttrOrSpread::Spread(SpreadElement { expr: chain("green"), dot3_lo: 30, dot3_hi: 33 }),
        ],
    ];
    let mut seen = Vec::new();
    for attrs in &elems {
        for r in v.visit_mut_jsx_opening_element(attrs).into_iter().flatten() {
            seen.push(r.placeholder);
        }
    }
    assert_eq!(seen, vec!["__CAS_PLACEHOLDER_0__", "__CAS_PLACEHOLDER_1__", "__CAS_PLACEHOLDER_2__"]);
    assert_eq!(v.placeholder_counter, 3);
}
