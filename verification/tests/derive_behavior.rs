//! End-to-end behavior: an annotated type description is derived into
//! a plan, and the plan renders a value exactly as the standard debug
//! conventions show it.

use derive_debug::options::{DbgAttr, OptionValue, RawOption};
use derive_debug::plan::{
    derive_debug_impl, FieldsDef, NamedFieldDef, RenderPlan, TypeBody, TypeDef, UnnamedFieldDef,
    VariantDef,
};
use derive_debug::render::RenderMode;

fn bare(key: &str) -> RawOption {
    RawOption { key: key.to_string(), value: OptionValue::Bare }
}

fn opt(key: &str, value: &str) -> RawOption {
    RawOption { key: key.to_string(), value: OptionValue::Text(value.to_string()) }
}

fn dbg_attr(opts: Vec<RawOption>) -> Vec<DbgAttr> {
    vec![DbgAttr::Options(opts)]
}

fn named(name: &str, attrs: Vec<DbgAttr>) -> NamedFieldDef {
    NamedFieldDef { name: name.to_string(), attrs }
}

fn unnamed(attrs: Vec<DbgAttr>) -> UnnamedFieldDef {
    UnnamedFieldDef { attrs }
}

fn strings(texts: &[&str]) -> Vec<String> {
    texts.iter().map(|t| t.to_string()).collect()
}

fn test_struct_def() -> TypeDef {
    TypeDef {
        name: "TestStruct".to_string(),
        attrs: dbg_attr(vec![opt("alias", "TestStructAlias")]),
        body: TypeBody::Struct(FieldsDef::Named(vec![
            named("plain_field", vec![]),
            named("skipped_field", dbg_attr(vec![bare("skip")])),
            named("alias_field", dbg_attr(vec![opt("alias", "alias_field_alias")])),
            named("placeholder_field", dbg_attr(vec![opt("placeholder", "...")])),
            named(
                "alias_placeholder_field",
                dbg_attr(vec![
                    opt("alias", "alias_placeholder_field_alias"),
                    opt("placeholder", "abc"),
                ]),
            ),
            named("fmt_field", dbg_attr(vec![opt("fmt", "{:#06X}")])),
        ])),
    }
}

#[test]
fn test_struct() {
    let plan = derive_debug_impl(&test_struct_def()).unwrap();
    // Per-field fragments of the value with fmt_field = 0xAB and every
    // other field 0: the plain debug form of each field, except that
    // the fmt field carries its template applied to its value.
    let values = vec![
        format!("{:?}", 0u32),
        format!("{:?}", 0u32),
        format!("{:?}", 0u32),
        format!("{:?}", 0u32),
        format!("{:?}", 0u32),
        format!("{:#06X}", 0xABu32),
    ];
    let rendered = plan.render_struct_value(&values, RenderMode::Pretty);

    assert_eq!(
        format!("\n{}\n", rendered),
        r#"
TestStructAlias {
    plain_field: 0,
    alias_field_alias: 0,
    placeholder_field: ...,
    alias_placeholder_field_alias: abc,
    fmt_field: 0x00AB,
}
"#
    );
}

fn fmt_not_zero(v: &u32) -> &'static str {
    if *v == 0 {
        "0"
    } else {
        "not 0"
    }
}

fn test_tuple_def() -> TypeDef {
    TypeDef {
        name: "TestTuple".to_string(),
        attrs: vec![],
        body: TypeBody::Struct(FieldsDef::Unnamed(vec![
            unnamed(vec![]),
            unnamed(dbg_attr(vec![opt("formatter", "fmt_not_zero")])),
        ])),
    }
}

#[test]
fn test_tuple() {
    let plan = derive_debug_impl(&test_tuple_def()).unwrap();
    let values = vec![format!("{:?}", 42u32), format!("{}", fmt_not_zero(&17))];
    let rendered = plan.render_struct_value(&values, RenderMode::Compact);
    assert_eq!(rendered, "TestTuple(42, not 0)");
}

fn test_enum_def() -> TypeDef {
    let two_unnamed = || FieldsDef::Unnamed(vec![unnamed(vec![]), unnamed(vec![])]);
    let a_b_named = || FieldsDef::Named(vec![named("a", vec![]), named("b", vec![])]);
    TypeDef {
        name: "TestEnum".to_string(),
        attrs: vec![],
        body: TypeBody::Enum(vec![
            VariantDef {
                name: "UnitVariant".to_string(),
                attrs: vec![],
                fields: FieldsDef::Unit,
            },
            VariantDef {
                name: "TupleVariant".to_string(),
                attrs: vec![],
                fields: two_unnamed(),
            },
            VariantDef {
                name: "StructVariant".to_string(),
                attrs: vec![],
                fields: a_b_named(),
            },
            VariantDef {
                name: "SkippedUnitVariant".to_string(),
                attrs: dbg_attr(vec![bare("skip")]),
                fields: FieldsDef::Unit,
            },
            VariantDef {
                name: "SkippedTupleVariant".to_string(),
                attrs: dbg_attr(vec![bare("skip")]),
                fields: two_unnamed(),
            },
            VariantDef {
                name: "SkippedStructVariant".to_string(),
                attrs: dbg_attr(vec![bare("skip")]),
                fields: a_b_named(),
            },
            VariantDef {
                name: "AliasedUnitVariant".to_string(),
                attrs: dbg_attr(vec![opt("alias", "AliasVariant")]),
                fields: FieldsDef::Unit,
            },
            VariantDef {
                name: "AliasedTupleVariant".to_string(),
                attrs: dbg_attr(vec![opt("alias", "AliasVariant")]),
                fields: two_unnamed(),
            },
            VariantDef {
                name: "AliasedStructVariant".to_string(),
                attrs: dbg_attr(vec![opt("alias", "AliasVariant")]),
                fields: a_b_named(),
            },
        ]),
    }
}

#[test]
fn test_unit_variant() {
    let plan = derive_debug_impl(&test_enum_def()).unwrap();
    let rendered = plan.render_variant_value(0, &strings(&[]), RenderMode::Compact);
    assert_eq!(rendered, "UnitVariant");
}

#[test]
fn test_tuple_variant() {
    let plan = derive_debug_impl(&test_enum_def()).unwrap();
    let values = vec![format!("{:?}", 0u32), format!("{:?}", 1u32)];
    let rendered = plan.render_variant_value(1, &values, RenderMode::Compact);
    assert_eq!(rendered, "TupleVariant(0, 1)");
}

#[test]
fn test_struct_variant() {
    let plan = derive_debug_impl(&test_enum_def()).unwrap();
    let values = vec![format!("{:?}", 0u32), format!("{:?}", 1u32)];
    let rendered = plan.render_variant_value(2, &values, RenderMode::Compact);
    assert_eq!(rendered, "StructVariant { a: 0, b: 1 }");
}

#[test]
fn test_skipped_unit_variant() {
    let plan = derive_debug_impl(&test_enum_def()).unwrap();
    let rendered = plan.render_variant_value(3, &strings(&[]), RenderMode::Compact);
    assert_eq!(rendered, "SkippedUnitVariant");
}

#[test]
fn test_skipped_tuple_variant() {
    let plan = derive_debug_impl(&test_enum_def()).unwrap();
    let values = vec![format!("{:?}", 0u32), format!("{:?}", 1u32)];
    let rendered = plan.render_variant_value(4, &values, RenderMode::Compact);
    assert_eq!(rendered, "SkippedTupleVariant");
}

#[test]
fn test_skipped_struct_variant() {
    let plan = derive_debug_impl(&test_enum_def()).unwrap();
    let values = vec![format!("{:?}", 0u32), format!("{:?}", 1u32)];
    let rendered = plan.render_variant_value(5, &values, RenderMode::Compact);
    assert_eq!(rendered, "SkippedStructVariant");
}

#[test]
fn test_aliased_unit_variant() {
    let plan = derive_debug_impl(&test_enum_def()).unwrap();
    let rendered = plan.render_variant_value(6, &strings(&[]), RenderMode::Compact);
    assert_eq!(rendered, "AliasVariant");
}

#[test]
fn test_aliased_tuple_variant() {
    let plan = derive_debug_impl(&test_enum_def()).unwrap();
    let values = vec![format!("{:?}", 0u32), format!("{:?}", 1u32)];
    let rendered = plan.render_variant_value(7, &values, RenderMode::Compact);
    assert_eq!(rendered, "AliasVariant(0, 1)");
}

#[test]
fn test_aliased_struct_variant() {
    let plan = derive_debug_impl(&test_enum_def()).unwrap();
    let values = vec![format!("{:?}", 0u32), format!("{:?}", 1u32)];
    let rendered = plan.render_variant_value(8, &values, RenderMode::Compact);
    assert_eq!(rendered, "AliasVariant { a: 0, b: 1 }");
}

#[test]
fn test_zero_case_union_plan() {
    let td = TypeDef {
        name: "Void".to_string(),
        attrs: vec![],
        body: TypeBody::Enum(vec![]),
    };
    let plan = derive_debug_impl(&td).unwrap();
    match plan {
        RenderPlan::Enum { variants } => assert_eq!(variants.len(), 0),
        RenderPlan::Struct { .. } => panic!("a union must derive to a case-plan list"),
    }
}

#[test]
fn test_symbol_alias_scenario() {
    // A record with one field of each directive kind under a symbol
    // alias, in the pretty convention.
    let td = TypeDef {
        name: "Declared".to_string(),
        attrs: dbg_attr(vec![opt("alias", "Alias")]),
        body: TypeBody::Struct(FieldsDef::Named(vec![
            named("plain", vec![]),
            named("skipped", dbg_attr(vec![bare("skip")])),
            named("aliased", dbg_attr(vec![opt("alias", "aliased_alias")])),
            named("ph", dbg_attr(vec![opt("placeholder", "...")])),
            named(
                "both",
                dbg_attr(vec![opt("alias", "both_alias"), opt("placeholder", "abc")]),
            ),
        ])),
    };
    let plan = derive_debug_impl(&td).unwrap();
    let values = strings(&["0", "0", "0", "0", "0"]);
    let rendered = plan.render_struct_value(&values, RenderMode::Pretty);
    assert_eq!(
        rendered,
        "Alias {\n    plain: 0,\n    aliased_alias: 0,\n    ph: ...,\n    both_alias: abc,\n}"
    );
}

fn zero_or_not(v: &u32) -> &'static str {
    if *v == 0 {
        "zero"
    } else {
        "not zero"
    }
}

#[test]
fn test_custom_formatter_scenario() {
    // A positional pair whose second field goes through a custom
    // formatting function.
    let td = TypeDef {
        name: "TypeName".to_string(),
        attrs: vec![],
        body: TypeBody::Struct(FieldsDef::Unnamed(vec![
            unnamed(vec![]),
            unnamed(dbg_attr(vec![opt("formatter", "zero_or_not")])),
        ])),
    };
    let plan = derive_debug_impl(&td).unwrap();
    let values = vec![format!("{:?}", 42u32), format!("{}", zero_or_not(&17))];
    let rendered = plan.render_struct_value(&values, RenderMode::Compact);
    assert_eq!(rendered, "TypeName(42, not zero)");
}

#[test]
fn test_pretty_multiline_fragment_indented() {
    // A fragment that is itself a pretty block is indented as the
    // standard builders indent nested values.
    let td = TypeDef {
        name: "Outer".to_string(),
        attrs: vec![],
        body: TypeBody::Struct(FieldsDef::Named(vec![named("inner", vec![])])),
    };
    let plan = derive_debug_impl(&td).unwrap();
    let values = strings(&["Inner {\n    x: 1,\n}"]);
    let rendered = plan.render_struct_value(&values, RenderMode::Pretty);
    assert_eq!(rendered, "Outer {\n    inner: Inner {\n        x: 1,\n    },\n}");
}

#[test]
fn test_unit_struct_renders_bare_name() {
    let td = TypeDef {
        name: "Nothing".to_string(),
        attrs: vec![],
        body: TypeBody::Struct(FieldsDef::Unit),
    };
    let plan = derive_debug_impl(&td).unwrap();
    let values: Vec<String> = vec![];
    assert_eq!(plan.render_struct_value(&values, RenderMode::Compact), "Nothing");
    assert_eq!(plan.render_struct_value(&values, RenderMode::Pretty), "Nothing");
}

#[test]
fn test_tuple_pretty_mode() {
    let plan = derive_debug_impl(&test_tuple_def()).unwrap();
    let values = vec![format!("{:?}", 42u32), format!("{}", fmt_not_zero(&17))];
    let rendered = plan.render_struct_value(&values, RenderMode::Pretty);
    assert_eq!(rendered, "TestTuple(\n    42,\n    not 0,\n)");
}

#[test]
fn test_plain_record_compact_and_pretty() {
    // A record with only normally-rendered named fields shows every
    // field in declaration order, consistently in both conventions.
    let td = TypeDef {
        name: "Point".to_string(),
        attrs: vec![],
        body: TypeBody::Struct(FieldsDef::Named(vec![
            named("x", vec![]),
            named("y", vec![]),
        ])),
    };
    let plan = derive_debug_impl(&td).unwrap();
    let values = vec![format!("{:?}", 3u32), format!("{:?}", 4u32)];
    assert_eq!(
        plan.render_struct_value(&values, RenderMode::Compact),
        "Point { x: 3, y: 4 }"
    );
    assert_eq!(
        plan.render_struct_value(&values, RenderMode::Pretty),
        "Point {\n    x: 3,\n    y: 4,\n}"
    );
}

#[test]
fn test_omitted_field_removal_equivalence() {
    // Adding an omitted field anywhere changes nothing: the record
    // renders as if the field were not declared at all.
    let with_omitted = TypeDef {
        name: "R".to_string(),
        attrs: vec![],
        body: TypeBody::Struct(FieldsDef::Named(vec![
            named("a", vec![]),
            named("gone", dbg_attr(vec![bare("skip")])),
            named("b", vec![]),
        ])),
    };
    let without = TypeDef {
        name: "R".to_string(),
        attrs: vec![],
        body: TypeBody::Struct(FieldsDef::Named(vec![
            named("a", vec![]),
            named("b", vec![]),
        ])),
    };
    let p1 = derive_debug_impl(&with_omitted).unwrap();
    let p2 = derive_debug_impl(&without).unwrap();
    let v1 = strings(&["1", "777", "2"]);
    let v2 = strings(&["1", "2"]);
    assert_eq!(
        p1.render_struct_value(&v1, RenderMode::Compact),
        p2.render_struct_value(&v2, RenderMode::Compact)
    );
    assert_eq!(
        p1.render_struct_value(&v1, RenderMode::Pretty),
        p2.render_struct_value(&v2, RenderMode::Pretty)
    );
}

#[test]
fn test_placeholder_brace_escapes_collapse() {
    // A placeholder is an argument-less format template: doubled
    // braces show as single braces, whatever the field's value is.
    let td = TypeDef {
        name: "B".to_string(),
        attrs: vec![],
        body: TypeBody::Struct(FieldsDef::Named(vec![
            named("t", dbg_attr(vec![opt("placeholder", "{{}}")])),
            named("u", dbg_attr(vec![opt("placeholder", "a{{b}}c")])),
        ])),
    };
    let plan = derive_debug_impl(&td).unwrap();
    let rendered = plan.render_struct_value(&strings(&["9", "9"]), RenderMode::Compact);
    assert_eq!(rendered, "B { t: {}, u: a{b}c }");
    assert_eq!(rendered, format!("B {{ t: {0}, u: a{{b}}c }}", "{}"));
}
