//! The guarantees the derivation gives, stated and proved over the
//! option language, the plan and the renderer.

use vstd::prelude::*;
use crate::options::{
    DbgAttr, OptionsTarget, SpecError, SpecOptions, SpecPrintType, spec_parse_options,
};
use crate::plan::{
    FieldsDef, NamedFieldDef, SpecNamedEntry, SpecPlan, SpecShape, SpecSource, SpecVariantPlan,
    TypeBody, TypeDef, UnnamedFieldDef, VariantDef, spec_derive_item, spec_display_name,
    spec_enum_variants, spec_field_count, spec_named_entries, spec_named_entry, spec_skip_variant,
    spec_unnamed_source, spec_unnamed_sources, spec_variant_plan,
};
use crate::render::{
    RenderMode, braced_texts, join_comma, pretty_block, spec_entries_wf, spec_fragment,
    spec_render_shape, spec_shape_wf, spec_source_wf, spec_sources_wf, spec_unescape_braces,
    tupled_texts,
};

verus! {

/// The entry texts of a named record read directly from its fields
/// and their fragment texts in lockstep: an omitted field contributes
/// nothing, a placeholder contributes its text with its brace escapes
/// collapsed, every other directive contributes the field's fragment
/// under its label.
pub open spec fn spec_named_texts(fields: Seq<NamedFieldDef>, values: Seq<Seq<char>>) -> Result<
    Seq<Seq<char>>,
    SpecError,
>
    decreases fields.len(),
{
    if fields.len() == 0 {
        Result::Ok(Seq::empty())
    } else {
        match spec_parse_options(fields[0].attrs@, OptionsTarget::NamedField) {
            Result::Err(e) => Result::Err(e),
            Result::Ok(o) => match spec_named_texts(fields.drop_first(), values.drop_first()) {
                Result::Err(e) => Result::Err(e),
                Result::Ok(rest) => {
                    let label = spec_display_name(fields[0].name@, o);
                    match o.print_type {
                        SpecPrintType::Skip => Result::Ok(rest),
                        SpecPrintType::Placeholder(t) => Result::Ok(
                            seq![label + ": "@ + spec_unescape_braces(t)] + rest,
                        ),
                        _ => Result::Ok(seq![label + ": "@ + values[0]] + rest),
                    }
                },
            },
        }
    }
}

/// The entry texts of a positional record read directly from its
/// fields and their fragment texts in lockstep.
pub open spec fn spec_unnamed_texts(fields: Seq<UnnamedFieldDef>, values: Seq<Seq<char>>) -> Result<
    Seq<Seq<char>>,
    SpecError,
>
    decreases fields.len(),
{
    if fields.len() == 0 {
        Result::Ok(Seq::empty())
    } else {
        match spec_parse_options(fields[0].attrs@, OptionsTarget::UnnamedField) {
            Result::Err(e) => Result::Err(e),
            Result::Ok(o) => match spec_unnamed_texts(fields.drop_first(), values.drop_first()) {
                Result::Err(e) => Result::Err(e),
                Result::Ok(rest) => match o.print_type {
                    SpecPrintType::Skip => Result::Ok(rest),
                    SpecPrintType::Placeholder(t) => Result::Ok(
                        seq![spec_unescape_braces(t)] + rest,
                    ),
                    _ => Result::Ok(seq![values[0]] + rest),
                },
            },
        }
    }
}

/// The entry texts the renderer derives from a plan's entries equal
/// the texts read from the fields directly: the plan layer adds or
/// loses nothing.
pub proof fn lemma_named_entries_texts(
    fields: Seq<NamedFieldDef>,
    values: Seq<Seq<char>>,
    base: int,
)
    requires
        0 <= base,
        base + fields.len() <= values.len(),
    ensures
        match (spec_named_entries(fields, base), spec_named_texts(fields, values.skip(base))) {
            (Result::Ok(es), Result::Ok(ts)) => braced_texts(es, values) == ts,
            (Result::Err(e1), Result::Err(e2)) => e1 == e2,
            _ => false,
        },
    decreases fields.len(),
{
    let tail = values.skip(base);
    if fields.len() == 0 {
        assert(braced_texts(Seq::<SpecNamedEntry>::empty(), values)
            =~= Seq::<Seq<char>>::empty());
    } else {
        assert(tail.drop_first() =~= values.skip(base + 1));
        assert(tail[0] == values[base]);
        match spec_parse_options(fields[0].attrs@, OptionsTarget::NamedField) {
            Result::Err(e) => {},
            Result::Ok(o) => {
                lemma_named_entries_texts(fields.drop_first(), values, base + 1);
                match (spec_named_entries(fields.drop_first(), base + 1), spec_named_texts(
                    fields.drop_first(),
                    values.skip(base + 1),
                )) {
                    (Result::Ok(rest_es), Result::Ok(rest_ts)) => {
                        match spec_named_entry(o, fields[0].name@, base) {
                            Option::Some(en) => {
                                let head = spec_display_name(fields[0].name@, o) + ": "@
                                    + spec_fragment(en.source, values);
                                assert(braced_texts(seq![en] + rest_es, values) =~= seq![head]
                                    + braced_texts(rest_es, values));
                            },
                            Option::None => {},
                        }
                    },
                    _ => {},
                }
            },
        }
    }
}

/// The same correspondence for positional fields.
pub proof fn lemma_unnamed_sources_texts(
    fields: Seq<UnnamedFieldDef>,
    values: Seq<Seq<char>>,
    base: int,
)
    requires
        0 <= base,
        base + fields.len() <= values.len(),
    ensures
        match (spec_unnamed_sources(fields, base), spec_unnamed_texts(
            fields,
            values.skip(base),
        )) {
            (Result::Ok(ss), Result::Ok(ts)) => tupled_texts(ss, values) == ts,
            (Result::Err(e1), Result::Err(e2)) => e1 == e2,
            _ => false,
        },
    decreases fields.len(),
{
    let tail = values.skip(base);
    if fields.len() == 0 {
        assert(tupled_texts(Seq::<SpecSource>::empty(), values) =~= Seq::<Seq<char>>::empty());
    } else {
        assert(tail.drop_first() =~= values.skip(base + 1));
        assert(tail[0] == values[base]);
        match spec_parse_options(fields[0].attrs@, OptionsTarget::UnnamedField) {
            Result::Err(e) => {},
            Result::Ok(o) => {
                lemma_unnamed_sources_texts(fields.drop_first(), values, base + 1);
                match (spec_unnamed_sources(fields.drop_first(), base + 1), spec_unnamed_texts(
                    fields.drop_first(),
                    values.skip(base + 1),
                )) {
                    (Result::Ok(rest_ss), Result::Ok(rest_ts)) => {
                        match spec_unnamed_source(o, base) {
                            Option::Some(s) => {
                                let head = spec_fragment(s, values);
                                assert(tupled_texts(seq![s] + rest_ss, values) =~= seq![head]
                                    + tupled_texts(rest_ss, values));
                            },
                            Option::None => {},
                        }
                    },
                    _ => {},
                }
            },
        }
    }
}

/// Every fragment source a named-field plan emits reads a field index
/// within the record.
pub proof fn lemma_named_entries_wf(fields: Seq<NamedFieldDef>, base: int, n: int)
    requires
        0 <= base,
        base + fields.len() <= n,
    ensures
        spec_named_entries(fields, base) matches Result::Ok(es) ==> spec_entries_wf(es, n),
    decreases fields.len(),
{
    if fields.len() > 0 {
        match spec_parse_options(fields[0].attrs@, OptionsTarget::NamedField) {
            Result::Err(e) => {},
            Result::Ok(o) => {
                lemma_named_entries_wf(fields.drop_first(), base + 1, n);
                match spec_named_entries(fields.drop_first(), base + 1) {
                    Result::Err(e) => {},
                    Result::Ok(rest) => {
                        match spec_named_entry(o, fields[0].name@, base) {
                            Option::Some(en) => {
                                let es = seq![en] + rest;
                                assert forall|k: int| 0 <= k < es.len() implies spec_source_wf(
                                    (#[trigger] es[k]).source,
                                    n,
                                ) by {
                                    if k == 0 {
                                        assert(es[0] == en);
                                    } else {
                                        assert(es[k] == rest[k - 1]);
                                    }
                                }
                            },
                            Option::None => {},
                        }
                    },
                }
            },
        }
    }
}

/// Every fragment source a positional-field plan emits reads a field
/// index within the record.
pub proof fn lemma_unnamed_sources_wf(fields: Seq<UnnamedFieldDef>, base: int, n: int)
    requires
        0 <= base,
        base + fields.len() <= n,
    ensures
        spec_unnamed_sources(fields, base) matches Result::Ok(ss) ==> spec_sources_wf(ss, n),
    decreases fields.len(),
{
    if fields.len() > 0 {
        match spec_parse_options(fields[0].attrs@, OptionsTarget::UnnamedField) {
            Result::Err(e) => {},
            Result::Ok(o) => {
                lemma_unnamed_sources_wf(fields.drop_first(), base + 1, n);
                match spec_unnamed_sources(fields.drop_first(), base + 1) {
                    Result::Err(e) => {},
                    Result::Ok(rest) => {
                        match spec_unnamed_source(o, base) {
                            Option::Some(s) => {
                                let ss = seq![s] + rest;
                                assert forall|k: int| 0 <= k < ss.len() implies spec_source_wf(
                                    #[trigger] ss[k],
                                    n,
                                ) by {
                                    if k == 0 {
                                        assert(ss[0] == s);
                                    } else {
                                        assert(ss[k] == rest[k - 1]);
                                    }
                                }
                            },
                            Option::None => {},
                        }
                    },
                }
            },
        }
    }
}

/// A record plan can render any value of the record: its shape reads
/// no field outside the record's field count.
pub proof fn lemma_struct_shape_wf(dn: Seq<char>, fields: FieldsDef, n: int)
    requires
        spec_field_count(fields) <= n,
    ensures
        crate::plan::spec_derive_struct(dn, fields) matches Result::Ok(p) ==> (p matches
            SpecPlan::Struct(dn2, shape) && spec_shape_wf(shape, n)),
{
    match fields {
        FieldsDef::Named(fs) => {
            lemma_named_entries_wf(fs@, 0, n);
        },
        FieldsDef::Unnamed(fs) => {
            lemma_unnamed_sources_wf(fs@, 0, n);
        },
        FieldsDef::Unit => {
            assert(spec_entries_wf(Seq::<SpecNamedEntry>::empty(), n));
        },
    }
}

/// A case plan can render any value of its case.
pub proof fn lemma_variant_shape_wf(v: VariantDef, n: int)
    requires
        spec_field_count(v.fields) <= n,
    ensures
        spec_variant_plan(v) matches Result::Ok(p) ==> spec_shape_wf(p.shape, n),
{
    match spec_parse_options(v.attrs@, OptionsTarget::EnumVariant) {
        Result::Err(e) => {},
        Result::Ok(o) => {
            match v.fields {
                FieldsDef::Named(fs) => {
                    lemma_named_entries_wf(fs@, 0, n);
                    assert(spec_entries_wf(Seq::<SpecNamedEntry>::empty(), n));
                },
                FieldsDef::Unnamed(fs) => {
                    lemma_unnamed_sources_wf(fs@, 0, n);
                    assert(spec_sources_wf(Seq::<SpecSource>::empty(), n));
                },
                FieldsDef::Unit => {},
            }
        },
    }
}

/// The case plans stand in declaration order: the plan of case `j` is
/// the plan derived from case `j` alone.
pub proof fn lemma_enum_variants_index(vs: Seq<VariantDef>, j: int)
    ensures
        spec_enum_variants(vs) matches Result::Ok(ps) ==> ps.len() == vs.len() && (0 <= j
            < vs.len() ==> spec_variant_plan(vs[j]) == Result::<
            SpecVariantPlan,
            SpecError,
        >::Ok(ps[j])),
    decreases vs.len(),
{
    if vs.len() > 0 {
        match spec_variant_plan(vs[0]) {
            Result::Err(e) => {},
            Result::Ok(p) => {
                lemma_enum_variants_index(vs.drop_first(), j - 1);
                match spec_enum_variants(vs.drop_first()) {
                    Result::Err(e) => {},
                    Result::Ok(rest) => {
                        assert((seq![p] + rest).len() == vs.len());
                        if 0 <= j < vs.len() {
                            if j == 0 {
                                assert((seq![p] + rest)[0] == p);
                            } else {
                                assert((seq![p] + rest)[j] == rest[j - 1]);
                                assert(vs.drop_first()[j - 1] == vs[j]);
                            }
                        }
                    },
                }
            },
        }
    }
}

proof fn lemma_plain_named_texts(fields: Seq<NamedFieldDef>, values: Seq<Seq<char>>)
    requires
        fields.len() == values.len(),
        forall|k: int| 0 <= k < fields.len() ==> (#[trigger] fields[k]).attrs@.len() == 0,
    ensures
        spec_named_texts(fields, values) == Result::<Seq<Seq<char>>, SpecError>::Ok(
            Seq::new(fields.len(), |k: int| fields[k].name@ + ": "@ + values[k]),
        ),
    decreases fields.len(),
{
    if fields.len() == 0 {
        assert(Seq::new(fields.len(), |k: int| fields[k].name@ + ": "@ + values[k])
            =~= Seq::<Seq<char>>::empty());
    } else {
        assert(fields[0].attrs@.len() == 0);
        assert(forall|k: int|
            0 <= k < fields.drop_first().len() ==> (#[trigger] fields.drop_first()[
                k
            ]).attrs@.len() == 0) by {
            assert(forall|k: int|
                0 <= k < fields.drop_first().len() ==> #[trigger] fields.drop_first()[k]
                    == fields[k + 1]);
        }
        lemma_plain_named_texts(fields.drop_first(), values.drop_first());
        assert(seq![fields[0].name@ + ": "@ + values[0]] + Seq::new(
            fields.drop_first().len(),
            |k: int| fields.drop_first()[k].name@ + ": "@ + values.drop_first()[k],
        ) =~= Seq::new(fields.len(), |k: int| fields[k].name@ + ": "@ + values[k]));
    }
}

/// For a record type with only normally-rendered named fields, the
/// rendering shows the display name and then every field as
/// `name: value`, in declaration order — the compact form joined by
/// one separator, the pretty form one field per line, each line closed
/// by a comma, with no inconsistency between the two conventions.
pub proof fn law_plain_named_record(td: TypeDef, fields: Seq<NamedFieldDef>, values: Seq<Seq<char>>)
    requires
        td.body matches TypeBody::Struct(f) && f matches FieldsDef::Named(fv) && fv@ == fields,
        td.attrs@.len() == 0,
        forall|k: int| 0 <= k < fields.len() ==> (#[trigger] fields[k]).attrs@.len() == 0,
        values.len() == fields.len(),
    ensures
        ({
            let texts = Seq::new(fields.len(), |k: int| fields[k].name@ + ": "@ + values[k]);
            spec_derive_item(td) matches Result::Ok(p) && p matches SpecPlan::Struct(dn, shape)
                && dn == td.name@ && spec_render_shape(dn, shape, values, RenderMode::Compact) == (
            if fields.len() == 0 {
                td.name@
            } else {
                td.name@ + " { "@ + join_comma(texts) + " }"@
            }) && spec_render_shape(dn, shape, values, RenderMode::Pretty) == (if fields.len()
                == 0 {
                td.name@
            } else {
                td.name@ + " {\n"@ + pretty_block(texts) + "}"@
            })
        }),
{
    lemma_plain_named_texts(fields, values);
    lemma_named_entries_texts(fields, values, 0);
    assert(values.skip(0) =~= values);
}

/// A field marked omit never appears in the output, at any position:
/// the record renders exactly as the record without that field (and
/// without that field's fragment), so the surrounding fields keep
/// their labels and their order.
pub proof fn law_omitted_named_field(fields: Seq<NamedFieldDef>, values: Seq<Seq<char>>, k: int)
    requires
        fields.len() == values.len(),
        0 <= k < fields.len(),
        spec_parse_options(fields[k].attrs@, OptionsTarget::NamedField) matches Result::Ok(o)
            && o.print_type is Skip,
    ensures
        spec_named_texts(fields, values) == spec_named_texts(
            fields.remove(k),
            values.remove(k),
        ),
    decreases fields.len(),
{
    if k == 0 {
        assert(fields.remove(0) =~= fields.drop_first());
        assert(values.remove(0) =~= values.drop_first());
    } else {
        assert(fields.remove(k)[0] == fields[0]);
        assert(values.remove(k)[0] == values[0]);
        assert(fields.remove(k).drop_first() =~= fields.drop_first().remove(k - 1));
        assert(values.remove(k).drop_first() =~= values.drop_first().remove(k - 1));
        assert(fields.drop_first()[k - 1] == fields[k]);
        match spec_parse_options(fields[0].attrs@, OptionsTarget::NamedField) {
            Result::Err(e) => {},
            Result::Ok(o0) => {
                law_omitted_named_field(fields.drop_first(), values.drop_first(), k - 1);
            },
        }
    }
}

/// The rendered form of [`law_omitted_named_field`]: under any display
/// name and in both conventions, the record with the omitted field
/// renders as the record without it.
pub proof fn law_omitted_named_field_render(
    name: Seq<char>,
    fields: Seq<NamedFieldDef>,
    values: Seq<Seq<char>>,
    k: int,
    mode: RenderMode,
)
    requires
        fields.len() == values.len(),
        0 <= k < fields.len(),
        spec_parse_options(fields[k].attrs@, OptionsTarget::NamedField) matches Result::Ok(o)
            && o.print_type is Skip,
    ensures
        match (spec_named_entries(fields, 0), spec_named_entries(fields.remove(k), 0)) {
            (Result::Ok(es1), Result::Ok(es2)) => spec_render_shape(
                name,
                SpecShape::Braced(es1),
                values,
                mode,
            ) == spec_render_shape(name, SpecShape::Braced(es2), values.remove(k), mode),
            (Result::Err(e1), Result::Err(e2)) => e1 == e2,
            _ => false,
        },
{
    law_omitted_named_field(fields, values, k);
    lemma_named_entries_texts(fields, values, 0);
    lemma_named_entries_texts(fields.remove(k), values.remove(k), 0);
    assert(values.skip(0) =~= values);
    assert(values.remove(k).skip(0) =~= values.remove(k));
}

/// A field marked with a fixed placeholder renders that text whatever
/// the field's fragment is: changing the field's fragment changes
/// nothing in the output.
pub proof fn law_placeholder_ignores_value(
    fields: Seq<NamedFieldDef>,
    values: Seq<Seq<char>>,
    k: int,
    w: Seq<char>,
)
    requires
        fields.len() == values.len(),
        0 <= k < fields.len(),
        spec_parse_options(fields[k].attrs@, OptionsTarget::NamedField) matches Result::Ok(o)
            && o.print_type is Placeholder,
    ensures
        spec_named_texts(fields, values.update(k, w)) == spec_named_texts(fields, values),
    decreases fields.len(),
{
    if k == 0 {
        assert(values.update(0, w).drop_first() =~= values.drop_first());
    } else {
        assert(values.update(k, w)[0] == values[0]);
        assert(values.update(k, w).drop_first() =~= values.drop_first().update(k - 1, w));
        assert(fields.drop_first()[k - 1] == fields[k]);
        match spec_parse_options(fields[0].attrs@, OptionsTarget::NamedField) {
            Result::Err(e) => {},
            Result::Ok(o0) => {
                law_placeholder_ignores_value(fields.drop_first(), values.drop_first(), k - 1, w);
            },
        }
    }
}

/// The rendered form of [`law_placeholder_ignores_value`].
pub proof fn law_placeholder_render(
    name: Seq<char>,
    fields: Seq<NamedFieldDef>,
    values: Seq<Seq<char>>,
    k: int,
    w: Seq<char>,
    mode: RenderMode,
)
    requires
        fields.len() == values.len(),
        0 <= k < fields.len(),
        spec_parse_options(fields[k].attrs@, OptionsTarget::NamedField) matches Result::Ok(o)
            && o.print_type is Placeholder,
    ensures
        spec_named_entries(fields, 0) matches Result::Ok(es) ==> spec_render_shape(
            name,
            SpecShape::Braced(es),
            values.update(k, w),
            mode,
        ) == spec_render_shape(name, SpecShape::Braced(es), values, mode),
{
    law_placeholder_ignores_value(fields, values, k, w);
    lemma_named_entries_texts(fields, values, 0);
    lemma_named_entries_texts(fields, values.update(k, w), 0);
    assert(values.skip(0) =~= values);
    assert(values.update(k, w).skip(0) =~= values.update(k, w));
}

/// [`law_omitted_named_field`] for positional fields: an omitted
/// positional field never appears, at any position, and the remaining
/// fields keep their order.
pub proof fn law_omitted_unnamed_field(fields: Seq<UnnamedFieldDef>, values: Seq<Seq<char>>, k: int)
    requires
        fields.len() == values.len(),
        0 <= k < fields.len(),
        spec_parse_options(fields[k].attrs@, OptionsTarget::UnnamedField) matches Result::Ok(o)
            && o.print_type is Skip,
    ensures
        spec_unnamed_texts(fields, values) == spec_unnamed_texts(
            fields.remove(k),
            values.remove(k),
        ),
    decreases fields.len(),
{
    if k == 0 {
        assert(fields.remove(0) =~= fields.drop_first());
        assert(values.remove(0) =~= values.drop_first());
    } else {
        assert(fields.remove(k)[0] == fields[0]);
        assert(values.remove(k)[0] == values[0]);
        assert(fields.remove(k).drop_first() =~= fields.drop_first().remove(k - 1));
        assert(values.remove(k).drop_first() =~= values.drop_first().remove(k - 1));
        assert(fields.drop_first()[k - 1] == fields[k]);
        match spec_parse_options(fields[0].attrs@, OptionsTarget::UnnamedField) {
            Result::Err(e) => {},
            Result::Ok(o0) => {
                law_omitted_unnamed_field(fields.drop_first(), values.drop_first(), k - 1);
            },
        }
    }
}

/// [`law_placeholder_ignores_value`] for positional fields.
pub proof fn law_placeholder_unnamed_ignores_value(
    fields: Seq<UnnamedFieldDef>,
    values: Seq<Seq<char>>,
    k: int,
    w: Seq<char>,
)
    requires
        fields.len() == values.len(),
        0 <= k < fields.len(),
        spec_parse_options(fields[k].attrs@, OptionsTarget::UnnamedField) matches Result::Ok(o)
            && o.print_type is Placeholder,
    ensures
        spec_unnamed_texts(fields, values.update(k, w)) == spec_unnamed_texts(fields, values),
    decreases fields.len(),
{
    if k == 0 {
        assert(values.update(0, w).drop_first() =~= values.drop_first());
    } else {
        assert(values.update(k, w)[0] == values[0]);
        assert(values.update(k, w).drop_first() =~= values.drop_first().update(k - 1, w));
        assert(fields.drop_first()[k - 1] == fields[k]);
        match spec_parse_options(fields[0].attrs@, OptionsTarget::UnnamedField) {
            Result::Err(e) => {},
            Result::Ok(o0) => {
                law_placeholder_unnamed_ignores_value(
                    fields.drop_first(),
                    values.drop_first(),
                    k - 1,
                    w,
                );
            },
        }
    }
}

/// A symbol-level alias overrides the declared name as the display
/// name of a record plan, whatever the record's output shape.
pub proof fn law_symbol_alias(td: TypeDef, o: SpecOptions, a: Seq<char>)
    requires
        spec_parse_options(td.attrs@, OptionsTarget::DeriveItem) == Result::<
            SpecOptions,
            SpecError,
        >::Ok(o),
        o.alias == Option::Some(a),
    ensures
        spec_derive_item(td) matches Result::Ok(p) ==> match p {
            SpecPlan::Struct(dn, shape) => dn == a,
            SpecPlan::Enum(ps) => true,
        },
{
}

/// A case-level alias overrides the case's declared name, whether the
/// case is rendered in full or omitted.
pub proof fn law_case_alias(v: VariantDef, o: SpecOptions, a: Seq<char>)
    requires
        spec_parse_options(v.attrs@, OptionsTarget::EnumVariant) == Result::<
            SpecOptions,
            SpecError,
        >::Ok(o),
        o.alias == Option::Some(a),
    ensures
        spec_variant_plan(v) matches Result::Ok(p) ==> p.display_name == a,
{
}

/// The case plans of a union depend on the cases alone: the item's own
/// annotations decide only whether derivation proceeds, never what a
/// case shows.
pub proof fn law_enum_cases_independent(td: TypeDef, vs: Seq<VariantDef>)
    requires
        td.body matches TypeBody::Enum(vv) && vv@ == vs,
    ensures
        spec_derive_item(td) matches Result::Ok(p) ==> (p matches SpecPlan::Enum(ps)
            && spec_enum_variants(vs) == Result::<Seq<SpecVariantPlan>, SpecError>::Ok(ps)),
{
}

/// A union case marked omit renders only its (possibly aliased) case
/// name, with no field contents, whatever fields it has and whatever
/// directives those fields carry — the derivation never even reads
/// the fields' annotations.
pub proof fn law_omitted_case(
    v: VariantDef,
    o: SpecOptions,
    values: Seq<Seq<char>>,
    mode: RenderMode,
)
    requires
        spec_parse_options(v.attrs@, OptionsTarget::EnumVariant) == Result::<
            SpecOptions,
            SpecError,
        >::Ok(o),
        o.print_type is Skip,
    ensures
        ({
            let p = spec_skip_variant(spec_display_name(v.name@, o), v.fields);
            spec_variant_plan(v) == Result::<SpecVariantPlan, SpecError>::Ok(p)
                && spec_render_shape(p.display_name, p.shape, values, mode) == p.display_name
        }),
{
    assert(braced_texts(Seq::<SpecNamedEntry>::empty(), values) =~= Seq::<Seq<char>>::empty());
    assert(tupled_texts(Seq::<SpecSource>::empty(), values) =~= Seq::<Seq<char>>::empty());
}

proof fn lemma_named_entries_err_on_field(fields: Seq<NamedFieldDef>, base: int, k: int)
    requires
        0 <= k < fields.len(),
        spec_parse_options(fields[k].attrs@, OptionsTarget::NamedField) is Err,
    ensures
        spec_named_entries(fields, base) is Err,
    decreases fields.len(),
{
    if k > 0 {
        match spec_parse_options(fields[0].attrs@, OptionsTarget::NamedField) {
            Result::Err(e) => {},
            Result::Ok(o) => {
                assert(fields.drop_first()[k - 1] == fields[k]);
                lemma_named_entries_err_on_field(fields.drop_first(), base + 1, k - 1);
            },
        }
    }
}

proof fn lemma_enum_variants_err_on_case(vs: Seq<VariantDef>, k: int)
    requires
        0 <= k < vs.len(),
        spec_variant_plan(vs[k]) is Err,
    ensures
        spec_enum_variants(vs) is Err,
    decreases vs.len(),
{
    if k > 0 {
        match spec_variant_plan(vs[0]) {
            Result::Err(e) => {},
            Result::Ok(p) => {
                assert(vs.drop_first()[k - 1] == vs[k]);
                lemma_enum_variants_err_on_case(vs.drop_first(), k - 1);
            },
        }
    }
}

/// An option the table refuses, anywhere on a named field of a record,
/// aborts the whole derivation: no plan is produced.
pub proof fn law_invalid_field_option_rejects_record(
    td: TypeDef,
    fields: Seq<NamedFieldDef>,
    k: int,
    i: int,
    j: int,
)
    requires
        td.body matches TypeBody::Struct(f) && f matches FieldsDef::Named(fv) && fv@ == fields,
        0 <= k < fields.len(),
        0 <= i < fields[k].attrs@.len(),
        fields[k].attrs@[i] matches DbgAttr::Options(opts) && 0 <= j < opts@.len()
            && !crate::options::option_permitted(opts@[j], OptionsTarget::NamedField),
    ensures
        spec_derive_item(td) is Err,
{
    crate::options::lemma_invalid_option_rejected(
        fields[k].attrs@,
        OptionsTarget::NamedField,
        i,
        j,
    );
    lemma_named_entries_err_on_field(fields, 0, k);
}

/// An option the table refuses on a union case aborts the whole
/// derivation: no plan is produced.
pub proof fn law_invalid_case_option_rejects_union(
    td: TypeDef,
    vs: Seq<VariantDef>,
    k: int,
    i: int,
    j: int,
)
    requires
        td.body matches TypeBody::Enum(vv) && vv@ == vs,
        0 <= k < vs.len(),
        0 <= i < vs[k].attrs@.len(),
        vs[k].attrs@[i] matches DbgAttr::Options(opts) && 0 <= j < opts@.len()
            && !crate::options::option_permitted(opts@[j], OptionsTarget::EnumVariant),
    ensures
        spec_derive_item(td) is Err,
{
    crate::options::lemma_invalid_option_rejected(vs[k].attrs@, OptionsTarget::EnumVariant, i, j);
    lemma_enum_variants_err_on_case(vs, k);
}

/// A union with no cases still derives, to a plan with no case plans:
/// no case index can satisfy the renderer's precondition, so the
/// derived rendering is never invoked at runtime.
pub proof fn law_zero_case_union(td: TypeDef)
    requires
        td.body matches TypeBody::Enum(vv) && vv@.len() == 0,
    ensures
        spec_parse_options(td.attrs@, OptionsTarget::DeriveItem) is Ok ==> (spec_derive_item(td)
            matches Result::Ok(p) && p matches SpecPlan::Enum(ps) && ps.len() == 0),
{
}

} // verus!
