//! The option language: which keys are accepted where, how conflicts
//! resolve, and which errors come back.

use derive_debug::options::{
    parse_options, DbgAttr, DeriveError, FieldPrintType, OptionValue, OptionsTarget, RawOption,
};
use derive_debug::plan::{
    derive_debug_impl, FieldsDef, NamedFieldDef, TypeBody, TypeDef, UnnamedFieldDef, VariantDef,
};
use derive_debug::render::RenderMode;

fn bare(key: &str) -> RawOption {
    RawOption { key: key.to_string(), value: OptionValue::Bare }
}

fn opt(key: &str, value: &str) -> RawOption {
    RawOption { key: key.to_string(), value: OptionValue::Text(value.to_string()) }
}

fn dbg_attr(opts: Vec<RawOption>) -> Vec<DbgAttr> {
    vec![DbgAttr::Options(opts)]
}

#[test]
fn test_empty_annotations_default() {
    let r = parse_options(&vec![], OptionsTarget::NamedField).unwrap();
    assert!(matches!(r.print_type, FieldPrintType::Normal));
    assert!(r.alias.is_none());
}

#[test]
fn test_skip_rejected_on_item() {
    let e = parse_options(&dbg_attr(vec![bare("skip")]), OptionsTarget::DeriveItem).unwrap_err();
    assert_eq!(e, DeriveError::InvalidOption("skip".to_string()));
}

#[test]
fn test_placeholder_rejected_on_case() {
    // An option key invalid for its context is rejected and no plan
    // is produced.
    let td = TypeDef {
        name: "E".to_string(),
        attrs: vec![],
        body: TypeBody::Enum(vec![VariantDef {
            name: "A".to_string(),
            attrs: dbg_attr(vec![opt("placeholder", "...")]),
            fields: FieldsDef::Unit,
        }]),
    };
    let e = derive_debug_impl(&td).unwrap_err();
    assert_eq!(e, DeriveError::InvalidOption("placeholder".to_string()));
}

#[test]
fn test_fmt_rejected_on_item() {
    let e = parse_options(&dbg_attr(vec![opt("fmt", "{}")]), OptionsTarget::DeriveItem)
        .unwrap_err();
    assert_eq!(e, DeriveError::InvalidOption("fmt".to_string()));
}

#[test]
fn test_alias_rejected_on_positional_field() {
    let e = parse_options(&dbg_attr(vec![opt("alias", "x")]), OptionsTarget::UnnamedField)
        .unwrap_err();
    assert_eq!(e, DeriveError::InvalidOption("alias".to_string()));
}

#[test]
fn test_unknown_key_rejected() {
    let e = parse_options(&dbg_attr(vec![bare("color")]), OptionsTarget::NamedField).unwrap_err();
    assert_eq!(e, DeriveError::InvalidOption("color".to_string()));
}

#[test]
fn test_skip_with_value_rejected() {
    let e = parse_options(&dbg_attr(vec![opt("skip", "yes")]), OptionsTarget::NamedField)
        .unwrap_err();
    assert_eq!(e, DeriveError::InvalidOption("skip".to_string()));
}

#[test]
fn test_alias_without_value_rejected() {
    let e = parse_options(&dbg_attr(vec![bare("alias")]), OptionsTarget::NamedField).unwrap_err();
    assert_eq!(e, DeriveError::InvalidOption("alias".to_string()));
}

#[test]
fn test_malformed_attribute_rejected() {
    let e = parse_options(&vec![DbgAttr::Malformed], OptionsTarget::NamedField).unwrap_err();
    assert_eq!(e, DeriveError::InvalidAttribute);
    assert_eq!(e.message(), "invalid #[dbg(...)] attribute");
}

#[test]
fn test_union_rejected() {
    let td = TypeDef { name: "U".to_string(), attrs: vec![], body: TypeBody::Union };
    let e = derive_debug_impl(&td).unwrap_err();
    assert_eq!(e, DeriveError::UnionNotSupported);
    assert_eq!(e.message(), "#[derive(Dbg)] not supported on unions");
}

#[test]
fn test_bad_formatter_path_rejected() {
    let e = parse_options(
        &dbg_attr(vec![opt("formatter", "not a ::: path !!")]),
        OptionsTarget::NamedField,
    )
    .unwrap_err();
    match &e {
        DeriveError::BadFormatterPath(detail) => {
            assert!(!detail.is_empty());
            assert_eq!(e.message(), detail.clone());
        }
        other => panic!("expected a formatter-path error, got {:?}", other),
    }
}

#[test]
fn test_formatter_path_accepted() {
    let r = parse_options(
        &dbg_attr(vec![opt("formatter", "helpers::render_short")]),
        OptionsTarget::NamedField,
    )
    .unwrap();
    assert!(matches!(r.print_type, FieldPrintType::Custom(ref p) if p == "helpers::render_short"));
}

#[test]
fn test_invalid_option_message_names_the_key() {
    let e = parse_options(&dbg_attr(vec![bare("color")]), OptionsTarget::NamedField).unwrap_err();
    assert_eq!(e.message(), "invalid option: color");
}

#[test]
fn test_last_substitution_wins() {
    // Conflicting content-substitution options on one field resolve
    // to the one written last.
    let r = parse_options(
        &dbg_attr(vec![opt("placeholder", "..."), opt("fmt", "{:x}")]),
        OptionsTarget::NamedField,
    )
    .unwrap();
    assert!(matches!(r.print_type, FieldPrintType::Format(ref f) if f == "{:x}"));

    let r = parse_options(
        &dbg_attr(vec![opt("fmt", "{:x}"), opt("placeholder", "...")]),
        OptionsTarget::NamedField,
    )
    .unwrap();
    assert!(matches!(r.print_type, FieldPrintType::Placeholder(ref t) if t == "..."));
}

#[test]
fn test_alias_composes_with_skip() {
    let r = parse_options(
        &dbg_attr(vec![opt("alias", "hidden"), bare("skip")]),
        OptionsTarget::NamedField,
    )
    .unwrap();
    assert!(matches!(r.print_type, FieldPrintType::Skip));
    assert_eq!(r.alias.as_deref(), Some("hidden"));
}

#[test]
fn test_options_split_over_two_attributes() {
    // Two annotation blocks on one symbol compose in source order.
    let attrs = vec![
        DbgAttr::Options(vec![opt("alias", "renamed")]),
        DbgAttr::Options(vec![opt("placeholder", "?")]),
    ];
    let r = parse_options(&attrs, OptionsTarget::NamedField).unwrap();
    assert!(matches!(r.print_type, FieldPrintType::Placeholder(ref t) if t == "?"));
    assert_eq!(r.alias.as_deref(), Some("renamed"));
}

#[test]
fn test_error_stops_at_first_offense() {
    // The first offending option wins over a later, also offending one.
    let e = parse_options(
        &dbg_attr(vec![bare("color"), opt("skip", "x")]),
        OptionsTarget::NamedField,
    )
    .unwrap_err();
    assert_eq!(e, DeriveError::InvalidOption("color".to_string()));
}

#[test]
fn test_empty_alias_single_field_tuple() {
    // An empty display name over a single positional field keeps the
    // tuple literal's trailing comma in the compact convention.
    let td = TypeDef {
        name: "Wrapper".to_string(),
        attrs: dbg_attr(vec![opt("alias", "")]),
        body: TypeBody::Struct(FieldsDef::Unnamed(vec![UnnamedFieldDef { attrs: vec![] }])),
    };
    let plan = derive_debug_impl(&td).unwrap();
    let values = vec![format!("{:?}", 7u32)];
    assert_eq!(plan.render_struct_value(&values, RenderMode::Compact), "(7,)");
}

#[test]
fn test_placeholder_ignores_field_value() {
    // Varying the field's value leaves the output unchanged.
    let td = TypeDef {
        name: "P".to_string(),
        attrs: vec![],
        body: TypeBody::Struct(FieldsDef::Named(vec![NamedFieldDef {
            name: "hidden".to_string(),
            attrs: dbg_attr(vec![opt("placeholder", "<elided>")]),
        }])),
    };
    let plan = derive_debug_impl(&td).unwrap();
    let first = plan.render_struct_value(&vec!["1".to_string()], RenderMode::Compact);
    let second = plan.render_struct_value(&vec!["999".to_string()], RenderMode::Compact);
    assert_eq!(first, "P { hidden: <elided> }");
    assert_eq!(first, second);
}

#[test]
fn test_field_options_ignored_inside_skipped_case() {
    // A field-level option that would be rejected elsewhere is ignored,
    // not rejected, when its whole case is omitted.
    let td = TypeDef {
        name: "E".to_string(),
        attrs: vec![],
        body: TypeBody::Enum(vec![VariantDef {
            name: "Hidden".to_string(),
            attrs: dbg_attr(vec![bare("skip")]),
            fields: FieldsDef::Named(vec![NamedFieldDef {
                name: "x".to_string(),
                attrs: dbg_attr(vec![bare("no_such_option")]),
            }]),
        }]),
    };
    let plan = derive_debug_impl(&td).unwrap();
    let rendered = plan.render_variant_value(0, &vec!["5".to_string()], RenderMode::Compact);
    assert_eq!(rendered, "Hidden");
}
