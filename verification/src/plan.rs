//! From an annotated type description to a render plan: the normalized
//! decision of what the derived debug implementation prints.

use vstd::prelude::*;
use crate::options::{
    DbgAttr, DeriveError, FieldPrintType, OptionsTarget, SpecError, SpecOptions,
    SpecPrintType, parse_options, spec_parse_options,
};

verus! {

/// A named record field with its annotations.
#[derive(Debug)]
pub struct NamedFieldDef {
    pub name: String,
    pub attrs: Vec<DbgAttr>,
}

/// A positional record field with its annotations.
#[derive(Debug)]
pub struct UnnamedFieldDef {
    pub attrs: Vec<DbgAttr>,
}

/// The field list of a record or of one union case.
#[derive(Debug)]
pub enum FieldsDef {
    Named(Vec<NamedFieldDef>),
    Unnamed(Vec<UnnamedFieldDef>),
    Unit,
}

/// One case of a tagged union, with its annotations and fields.
#[derive(Debug)]
pub struct VariantDef {
    pub name: String,
    pub attrs: Vec<DbgAttr>,
    pub fields: FieldsDef,
}

/// The structural kind of the annotated type.
#[derive(Debug)]
pub enum TypeBody {
    Struct(FieldsDef),
    Enum(Vec<VariantDef>),
    /// The one union-like kind the derivation rejects.
    Union,
}

/// The annotated type: name, its own annotations, and its body.
#[derive(Debug)]
pub struct TypeDef {
    pub name: String,
    pub attrs: Vec<DbgAttr>,
    pub body: TypeBody,
}

/// Where one output fragment comes from: a field's own value (by its
/// declaration index), a fixed text, or a field's value rendered
/// through a template or a named formatting function.
#[derive(Debug)]
pub enum ValueSource {
    FieldValue { index: usize },
    FixedText { text: String },
    Templated { template: String, index: usize },
    Formatted { path: String, index: usize },
}

/// One labeled output fragment of a name-brace form.
#[derive(Debug)]
pub struct NamedEntry {
    pub label: String,
    pub source: ValueSource,
}

/// The output shape of a record or of one union case: labeled fields
/// in braces, unlabeled fields in parentheses, or the bare name.
#[derive(Debug)]
pub enum ShapePlan {
    Braced { entries: Vec<NamedEntry> },
    Tupled { sources: Vec<ValueSource> },
    Bare,
}

/// The plan for one union case: its display name, which of its fields
/// a destructuring pattern binds (a field contributing no fragment is
/// discarded without a binding), and its output shape.
#[derive(Debug)]
pub struct VariantPlan {
    pub display_name: String,
    pub bindings: Vec<bool>,
    pub shape: ShapePlan,
}

/// The whole plan for an annotated type.
#[derive(Debug)]
pub enum RenderPlan {
    Struct { display_name: String, shape: ShapePlan },
    Enum { variants: Vec<VariantPlan> },
}

/// Mathematical form of [`ValueSource`].
pub enum SpecSource {
    FieldValue(int),
    FixedText(Seq<char>),
    Templated(Seq<char>, int),
    Formatted(Seq<char>, int),
}

/// Mathematical form of [`NamedEntry`].
pub struct SpecNamedEntry {
    pub label: Seq<char>,
    pub source: SpecSource,
}

/// Mathematical form of [`ShapePlan`].
pub enum SpecShape {
    Braced(Seq<SpecNamedEntry>),
    Tupled(Seq<SpecSource>),
    Bare,
}

/// Mathematical form of [`VariantPlan`].
pub struct SpecVariantPlan {
    pub display_name: Seq<char>,
    pub bindings: Seq<bool>,
    pub shape: SpecShape,
}

/// Mathematical form of [`RenderPlan`].
pub enum SpecPlan {
    Struct(Seq<char>, SpecShape),
    Enum(Seq<SpecVariantPlan>),
}

impl View for ValueSource {
    type V = SpecSource;

    open spec fn view(&self) -> SpecSource {
        match self {
            ValueSource::FieldValue { index } => SpecSource::FieldValue(*index as int),
            ValueSource::FixedText { text } => SpecSource::FixedText(text@),
            ValueSource::Templated { template, index } => SpecSource::Templated(
                template@,
                *index as int,
            ),
            ValueSource::Formatted { path, index } => SpecSource::Formatted(path@, *index as int),
        }
    }
}

impl View for NamedEntry {
    type V = SpecNamedEntry;

    open spec fn view(&self) -> SpecNamedEntry {
        SpecNamedEntry { label: self.label@, source: self.source@ }
    }
}

/// The views of a sequence of labeled entries.
pub open spec fn entries_view(s: Seq<NamedEntry>) -> Seq<SpecNamedEntry> {
    s.map_values(|e: NamedEntry| e@)
}

/// The views of a sequence of fragment sources.
pub open spec fn sources_view(s: Seq<ValueSource>) -> Seq<SpecSource> {
    s.map_values(|e: ValueSource| e@)
}

impl View for ShapePlan {
    type V = SpecShape;

    open spec fn view(&self) -> SpecShape {
        match self {
            ShapePlan::Braced { entries } => SpecShape::Braced(entries_view(entries@)),
            ShapePlan::Tupled { sources } => SpecShape::Tupled(sources_view(sources@)),
            ShapePlan::Bare => SpecShape::Bare,
        }
    }
}

impl View for VariantPlan {
    type V = SpecVariantPlan;

    open spec fn view(&self) -> SpecVariantPlan {
        SpecVariantPlan {
            display_name: self.display_name@,
            bindings: self.bindings@,
            shape: self.shape@,
        }
    }
}

impl View for RenderPlan {
    type V = SpecPlan;

    open spec fn view(&self) -> SpecPlan {
        match self {
            RenderPlan::Struct { display_name, shape } => SpecPlan::Struct(display_name@, shape@),
            RenderPlan::Enum { variants } => SpecPlan::Enum(
                variants@.map_values(|v: VariantPlan| v@),
            ),
        }
    }
}

/// The name a symbol or member shows: its alias when one was declared,
/// else its declared name.
pub open spec fn spec_display_name(name: Seq<char>, o: SpecOptions) -> Seq<char> {
    match o.alias {
        Option::Some(a) => a,
        Option::None => name,
    }
}

/// The fragment a named field at declaration index `idx` contributes
/// under directive `o`, or nothing when the directive is omit.
pub open spec fn spec_named_entry(o: SpecOptions, name: Seq<char>, idx: int) -> Option<
    SpecNamedEntry,
> {
    let label = spec_display_name(name, o);
    match o.print_type {
        SpecPrintType::Normal => Option::Some(
            SpecNamedEntry { label, source: SpecSource::FieldValue(idx) },
        ),
        SpecPrintType::Placeholder(t) => Option::Some(
            SpecNamedEntry { label, source: SpecSource::FixedText(t) },
        ),
        SpecPrintType::Skip => Option::None,
        SpecPrintType::Format(f) => Option::Some(
            SpecNamedEntry { label, source: SpecSource::Templated(f, idx) },
        ),
        SpecPrintType::Custom(p) => Option::Some(
            SpecNamedEntry { label, source: SpecSource::Formatted(p, idx) },
        ),
    }
}

/// The fragment a positional field at declaration index `idx`
/// contributes under directive `o`, or nothing when it is omit.
pub open spec fn spec_unnamed_source(o: SpecOptions, idx: int) -> Option<SpecSource> {
    match o.print_type {
        SpecPrintType::Normal => Option::Some(SpecSource::FieldValue(idx)),
        SpecPrintType::Placeholder(t) => Option::Some(SpecSource::FixedText(t)),
        SpecPrintType::Skip => Option::None,
        SpecPrintType::Format(f) => Option::Some(SpecSource::Templated(f, idx)),
        SpecPrintType::Custom(p) => Option::Some(SpecSource::Formatted(p, idx)),
    }
}

/// The labeled fragments of the named fields starting at declaration
/// index `base`, in declaration order, or the first rejection.
pub open spec fn spec_named_entries(fields: Seq<NamedFieldDef>, base: int) -> Result<
    Seq<SpecNamedEntry>,
    SpecError,
>
    decreases fields.len(),
{
    if fields.len() == 0 {
        Result::Ok(Seq::empty())
    } else {
        match spec_parse_options(fields[0].attrs@, OptionsTarget::NamedField) {
            Result::Err(e) => Result::Err(e),
            Result::Ok(o) => match spec_named_entries(fields.drop_first(), base + 1) {
                Result::Err(e) => Result::Err(e),
                Result::Ok(rest) => match spec_named_entry(o, fields[0].name@, base) {
                    Option::Some(en) => Result::Ok(seq![en] + rest),
                    Option::None => Result::Ok(rest),
                },
            },
        }
    }
}

/// The fragments of the positional fields starting at declaration
/// index `base`, in declaration order, or the first rejection.
pub open spec fn spec_unnamed_sources(fields: Seq<UnnamedFieldDef>, base: int) -> Result<
    Seq<SpecSource>,
    SpecError,
>
    decreases fields.len(),
{
    if fields.len() == 0 {
        Result::Ok(Seq::empty())
    } else {
        match spec_parse_options(fields[0].attrs@, OptionsTarget::UnnamedField) {
            Result::Err(e) => Result::Err(e),
            Result::Ok(o) => match spec_unnamed_sources(fields.drop_first(), base + 1) {
                Result::Err(e) => Result::Err(e),
                Result::Ok(rest) => match spec_unnamed_source(o, base) {
                    Option::Some(s) => Result::Ok(seq![s] + rest),
                    Option::None => Result::Ok(rest),
                },
            },
        }
    }
}

/// Whether each named field, in order, is bound by a destructuring
/// pattern: a field is bound exactly when it is not omitted.
pub open spec fn spec_bindings_named(fields: Seq<NamedFieldDef>) -> Result<Seq<bool>, SpecError>
    decreases fields.len(),
{
    if fields.len() == 0 {
        Result::Ok(Seq::empty())
    } else {
        match spec_parse_options(fields[0].attrs@, OptionsTarget::NamedField) {
            Result::Err(e) => Result::Err(e),
            Result::Ok(o) => match spec_bindings_named(fields.drop_first()) {
                Result::Err(e) => Result::Err(e),
                Result::Ok(rest) => Result::Ok(seq![!(o.print_type is Skip)] + rest),
            },
        }
    }
}

/// Whether each positional field, in order, is bound by a
/// destructuring pattern.
pub open spec fn spec_bindings_unnamed(fields: Seq<UnnamedFieldDef>) -> Result<Seq<bool>, SpecError>
    decreases fields.len(),
{
    if fields.len() == 0 {
        Result::Ok(Seq::empty())
    } else {
        match spec_parse_options(fields[0].attrs@, OptionsTarget::UnnamedField) {
            Result::Err(e) => Result::Err(e),
            Result::Ok(o) => match spec_bindings_unnamed(fields.drop_first()) {
                Result::Err(e) => Result::Err(e),
                Result::Ok(rest) => Result::Ok(seq![!(o.print_type is Skip)] + rest),
            },
        }
    }
}

/// The destructuring decisions for a whole field list.
pub open spec fn spec_match_list(fields: FieldsDef) -> Result<Seq<bool>, SpecError> {
    match fields {
        FieldsDef::Named(fs) => spec_bindings_named(fs@),
        FieldsDef::Unnamed(fs) => spec_bindings_unnamed(fs@),
        FieldsDef::Unit => Result::Ok(Seq::empty()),
    }
}

/// How many fields a field list declares.
pub open spec fn spec_field_count(fields: FieldsDef) -> nat {
    match fields {
        FieldsDef::Named(fs) => fs@.len(),
        FieldsDef::Unnamed(fs) => fs@.len(),
        FieldsDef::Unit => 0,
    }
}

/// The plan of a union case rendered in full: fields destructured,
/// each contributing per its own directive, in the shape its field
/// list dictates.
pub open spec fn spec_derive_variant(display_name: Seq<char>, fields: FieldsDef) -> Result<
    SpecVariantPlan,
    SpecError,
> {
    match spec_match_list(fields) {
        Result::Err(e) => Result::Err(e),
        Result::Ok(bindings) => match fields {
            FieldsDef::Named(fs) => match spec_named_entries(fs@, 0) {
                Result::Err(e) => Result::Err(e),
                Result::Ok(es) => Result::Ok(
                    SpecVariantPlan { display_name, bindings, shape: SpecShape::Braced(es) },
                ),
            },
            FieldsDef::Unnamed(fs) => match spec_unnamed_sources(fs@, 0) {
                Result::Err(e) => Result::Err(e),
                Result::Ok(ss) => Result::Ok(
                    SpecVariantPlan { display_name, bindings, shape: SpecShape::Tupled(ss) },
                ),
            },
            FieldsDef::Unit => Result::Ok(
                SpecVariantPlan { display_name, bindings, shape: SpecShape::Bare },
            ),
        },
    }
}

/// The plan of a union case marked omit: every field discarded without
/// a binding, no field contents, only the display name — whatever the
/// fields and their own annotations are.
pub open spec fn spec_skip_variant(display_name: Seq<char>, fields: FieldsDef) -> SpecVariantPlan {
    SpecVariantPlan {
        display_name,
        bindings: Seq::new(spec_field_count(fields), |i: int| false),
        shape: match fields {
            FieldsDef::Named(fs) => SpecShape::Braced(Seq::empty()),
            FieldsDef::Unnamed(fs) => SpecShape::Tupled(Seq::empty()),
            FieldsDef::Unit => SpecShape::Bare,
        },
    }
}

/// The plan of one union case: its directive decides between the full
/// and the omitted form; a content-substitution directive here is an
/// internal fault (the option parser never produces one).
pub open spec fn spec_variant_plan(v: VariantDef) -> Result<SpecVariantPlan, SpecError> {
    match spec_parse_options(v.attrs@, OptionsTarget::EnumVariant) {
        Result::Err(e) => Result::Err(e),
        Result::Ok(o) => {
            let dn = spec_display_name(v.name@, o);
            match o.print_type {
                SpecPrintType::Normal => spec_derive_variant(dn, v.fields),
                SpecPrintType::Skip => Result::Ok(spec_skip_variant(dn, v.fields)),
                _ => Result::Err(SpecError::Internal),
            }
        },
    }
}

/// The plans of all union cases, in declaration order, or the first
/// rejection.
pub open spec fn spec_enum_variants(vs: Seq<VariantDef>) -> Result<Seq<SpecVariantPlan>, SpecError>
    decreases vs.len(),
{
    if vs.len() == 0 {
        Result::Ok(Seq::empty())
    } else {
        match spec_variant_plan(vs[0]) {
            Result::Err(e) => Result::Err(e),
            Result::Ok(p) => match spec_enum_variants(vs.drop_first()) {
                Result::Err(e) => Result::Err(e),
                Result::Ok(rest) => Result::Ok(seq![p] + rest),
            },
        }
    }
}

/// The plan of a record: shape by its structural kind, display name as
/// given.
pub open spec fn spec_derive_struct(display_name: Seq<char>, fields: FieldsDef) -> Result<
    SpecPlan,
    SpecError,
> {
    match fields {
        FieldsDef::Named(fs) => match spec_named_entries(fs@, 0) {
            Result::Err(e) => Result::Err(e),
            Result::Ok(es) => Result::Ok(SpecPlan::Struct(display_name, SpecShape::Braced(es))),
        },
        FieldsDef::Unnamed(fs) => match spec_unnamed_sources(fs@, 0) {
            Result::Err(e) => Result::Err(e),
            Result::Ok(ss) => Result::Ok(SpecPlan::Struct(display_name, SpecShape::Tupled(ss))),
        },
        FieldsDef::Unit => Result::Ok(
            SpecPlan::Struct(display_name, SpecShape::Braced(Seq::empty())),
        ),
    }
}

/// The whole derivation: resolve the item's own directive, apply the
/// alias to the display name, dispatch on the structural kind, and
/// reject the unsupported kind.
pub open spec fn spec_derive_item(td: TypeDef) -> Result<SpecPlan, SpecError> {
    match spec_parse_options(td.attrs@, OptionsTarget::DeriveItem) {
        Result::Err(e) => Result::Err(e),
        Result::Ok(o) => {
            let dn = spec_display_name(td.name@, o);
            match td.body {
                TypeBody::Struct(f) => spec_derive_struct(dn, f),
                TypeBody::Enum(vs) => match spec_enum_variants(vs@) {
                    Result::Err(e) => Result::Err(e),
                    Result::Ok(ps) => Result::Ok(SpecPlan::Enum(ps)),
                },
                TypeBody::Union => Result::Err(SpecError::UnionNotSupported),
            }
        },
    }
}

/// The views of a sequence of case plans.
pub open spec fn variants_view(s: Seq<VariantPlan>) -> Seq<SpecVariantPlan> {
    s.map_values(|v: VariantPlan| v@)
}

/// Emits the labeled fragments that the named fields contribute, in
/// declaration order, or the first rejection among their annotations.
pub fn derive_named_fields(fields: &Vec<NamedFieldDef>) -> (r: Result<Vec<NamedEntry>, DeriveError>)
    ensures
        (r matches Result::Ok(es) ==> spec_named_entries(fields@, 0) == Result::<
            Seq<SpecNamedEntry>,
            SpecError,
        >::Ok(entries_view(es@))),
        (r matches Result::Err(e) ==> spec_named_entries(fields@, 0) == Result::<
            Seq<SpecNamedEntry>,
            SpecError,
        >::Err(e@)),
{
    let mut acc: Vec<NamedEntry> = Vec::new();
    let n = fields.len();
    proof {
        assert(fields@.skip(0) =~= fields@);
        assert(entries_view(acc@) =~= Seq::<SpecNamedEntry>::empty());
    }
    let mut i: usize = 0;
    while i < n
        invariant
            0 <= i <= n,
            n == fields@.len(),
            spec_named_entries(fields@, 0) == (match spec_named_entries(
                fields@.skip(i as int),
                i as int,
            ) {
                Result::Ok(rest) => Result::<Seq<SpecNamedEntry>, SpecError>::Ok(
                    entries_view(acc@) + rest,
                ),
                Result::Err(e) => Result::Err(e),
            }),
        decreases n - i,
    {
        proof {
            assert(fields@.skip(i as int)[0] == fields@[i as int]);
            assert(fields@.skip(i as int).drop_first() =~= fields@.skip(i as int + 1));
        }
        let o = match parse_options(&fields[i].attrs, OptionsTarget::NamedField) {
            Result::Ok(o) => o,
            Result::Err(e) => {
                return Result::Err(e);
            },
        };
        let ghost og = o@;
        let label = match o.alias {
            Option::Some(a) => a,
            Option::None => fields[i].name.clone(),
        };
        let ghost pre = acc@;
        match o.print_type {
            FieldPrintType::Normal => acc.push(
                NamedEntry { label, source: ValueSource::FieldValue { index: i } },
            ),
            FieldPrintType::Placeholder(t) => acc.push(
                NamedEntry { label, source: ValueSource::FixedText { text: t } },
            ),
            FieldPrintType::Skip => {},
            FieldPrintType::Format(f) => acc.push(
                NamedEntry { label, source: ValueSource::Templated { template: f, index: i } },
            ),
            FieldPrintType::Custom(p) => acc.push(
                NamedEntry { label, source: ValueSource::Formatted { path: p, index: i } },
            ),
        }
        proof {
            match spec_named_entry(og, fields@[i as int].name@, i as int) {
                Option::Some(en) => {
                    assert(acc@.last()@ == en);
                    assert(entries_view(acc@) =~= entries_view(pre).push(en));
                    match spec_named_entries(fields@.skip(i as int + 1), i as int + 1) {
                        Result::Ok(rest) => {
                            assert(entries_view(pre) + (seq![en] + rest) =~= entries_view(acc@)
                                + rest);
                        },
                        Result::Err(e) => {},
                    }
                },
                Option::None => {
                    assert(acc@ == pre);
                },
            }
        }
        i += 1;
    }
    proof {
        assert(fields@.skip(n as int) =~= Seq::<NamedFieldDef>::empty());
        assert(entries_view(acc@) + Seq::<SpecNamedEntry>::empty() =~= entries_view(acc@));
    }
    Result::Ok(acc)
}

/// Emits the fragments that the positional fields contribute, in
/// declaration order, or the first rejection among their annotations.
pub fn derive_unnamed_fields(fields: &Vec<UnnamedFieldDef>) -> (r: Result<
    Vec<ValueSource>,
    DeriveError,
>)
    ensures
        (r matches Result::Ok(ss) ==> spec_unnamed_sources(fields@, 0) == Result::<
            Seq<SpecSource>,
            SpecError,
        >::Ok(sources_view(ss@))),
        (r matches Result::Err(e) ==> spec_unnamed_sources(fields@, 0) == Result::<
            Seq<SpecSource>,
            SpecError,
        >::Err(e@)),
{
    let mut acc: Vec<ValueSource> = Vec::new();
    let n = fields.len();
    proof {
        assert(fields@.skip(0) =~= fields@);
        assert(sources_view(acc@) =~= Seq::<SpecSource>::empty());
    }
    let mut i: usize = 0;
    while i < n
        invariant
            0 <= i <= n,
            n == fields@.len(),
            spec_unnamed_sources(fields@, 0) == (match spec_unnamed_sources(
                fields@.skip(i as int),
                i as int,
            ) {
                Result::Ok(rest) => Result::<Seq<SpecSource>, SpecError>::Ok(
                    sources_view(acc@) + rest,
                ),
                Result::Err(e) => Result::Err(e),
            }),
        decreases n - i,
    {
        proof {
            assert(fields@.skip(i as int)[0] == fields@[i as int]);
            assert(fields@.skip(i as int).drop_first() =~= fields@.skip(i as int + 1));
        }
        let o = match parse_options(&fields[i].attrs, OptionsTarget::UnnamedField) {
            Result::Ok(o) => o,
            Result::Err(e) => {
                return Result::Err(e);
            },
        };
        let ghost og = o@;
        let ghost pre = acc@;
        match o.print_type {
            FieldPrintType::Normal => acc.push(ValueSource::FieldValue { index: i }),
            FieldPrintType::Placeholder(t) => acc.push(ValueSource::FixedText { text: t }),
            FieldPrintType::Skip => {},
            FieldPrintType::Format(f) => acc.push(
                ValueSource::Templated { template: f, index: i },
            ),
            FieldPrintType::Custom(p) => acc.push(ValueSource::Formatted { path: p, index: i }),
        }
        proof {
            match spec_unnamed_source(og, i as int) {
                Option::Some(s) => {
                    assert(acc@.last()@ == s);
                    assert(sources_view(acc@) =~= sources_view(pre).push(s));
                    match spec_unnamed_sources(fields@.skip(i as int + 1), i as int + 1) {
                        Result::Ok(rest) => {
                            assert(sources_view(pre) + (seq![s] + rest) =~= sources_view(acc@)
                                + rest);
                        },
                        Result::Err(e) => {},
                    }
                },
                Option::None => {
                    assert(acc@ == pre);
                },
            }
        }
        i += 1;
    }
    proof {
        assert(fields@.skip(n as int) =~= Seq::<UnnamedFieldDef>::empty());
        assert(sources_view(acc@) + Seq::<SpecSource>::empty() =~= sources_view(acc@));
    }
    Result::Ok(acc)
}

fn bindings_named(fields: &Vec<NamedFieldDef>) -> (r: Result<Vec<bool>, DeriveError>)
    ensures
        (r matches Result::Ok(bs) ==> spec_bindings_named(fields@) == Result::<
            Seq<bool>,
            SpecError,
        >::Ok(bs@)),
        (r matches Result::Err(e) ==> spec_bindings_named(fields@) == Result::<
            Seq<bool>,
            SpecError,
        >::Err(e@)),
{
    let mut acc: Vec<bool> = Vec::new();
    let n = fields.len();
    proof {
        assert(fields@.skip(0) =~= fields@);
    }
    let mut i: usize = 0;
    while i < n
        invariant
            0 <= i <= n,
            n == fields@.len(),
            spec_bindings_named(fields@) == (match spec_bindings_named(fields@.skip(i as int)) {
                Result::Ok(rest) => Result::<Seq<bool>, SpecError>::Ok(acc@ + rest),
                Result::Err(e) => Result::Err(e),
            }),
        decreases n - i,
    {
        proof {
            assert(fields@.skip(i as int)[0] == fields@[i as int]);
            assert(fields@.skip(i as int).drop_first() =~= fields@.skip(i as int + 1));
        }
        let o = match parse_options(&fields[i].attrs, OptionsTarget::NamedField) {
            Result::Ok(o) => o,
            Result::Err(e) => {
                return Result::Err(e);
            },
        };
        let ghost pre = acc@;
        match o.print_type {
            FieldPrintType::Skip => acc.push(false),
            _ => acc.push(true),
        }
        proof {
            match spec_bindings_named(fields@.skip(i as int + 1)) {
                Result::Ok(rest) => {
                    assert(pre + (seq![acc@.last()] + rest) =~= acc@ + rest);
                },
                Result::Err(e) => {},
            }
        }
        i += 1;
    }
    proof {
        assert(fields@.skip(n as int) =~= Seq::<NamedFieldDef>::empty());
        assert(acc@ + Seq::<bool>::empty() =~= acc@);
    }
    Result::Ok(acc)
}

fn bindings_unnamed(fields: &Vec<UnnamedFieldDef>) -> (r: Result<Vec<bool>, DeriveError>)
    ensures
        (r matches Result::Ok(bs) ==> spec_bindings_unnamed(fields@) == Result::<
            Seq<bool>,
            SpecError,
        >::Ok(bs@)),
        (r matches Result::Err(e) ==> spec_bindings_unnamed(fields@) == Result::<
            Seq<bool>,
            SpecError,
        >::Err(e@)),
{
    let mut acc: Vec<bool> = Vec::new();
    let n = fields.len();
    proof {
        assert(fields@.skip(0) =~= fields@);
    }
    let mut i: usize = 0;
    while i < n
        invariant
            0 <= i <= n,
            n == fields@.len(),
            spec_bindings_unnamed(fields@) == (match spec_bindings_unnamed(
                fields@.skip(i as int),
            ) {
                Result::Ok(rest) => Result::<Seq<bool>, SpecError>::Ok(acc@ + rest),
                Result::Err(e) => Result::Err(e),
            }),
        decreases n - i,
    {
        proof {
            assert(fields@.skip(i as int)[0] == fields@[i as int]);
            assert(fields@.skip(i as int).drop_first() =~= fields@.skip(i as int + 1));
        }
        let o = match parse_options(&fields[i].attrs, OptionsTarget::UnnamedField) {
            Result::Ok(o) => o,
            Result::Err(e) => {
                return Result::Err(e);
            },
        };
        let ghost pre = acc@;
        match o.print_type {
            FieldPrintType::Skip => acc.push(false),
            _ => acc.push(true),
        }
        proof {
            match spec_bindings_unnamed(fields@.skip(i as int + 1)) {
                Result::Ok(rest) => {
                    assert(pre + (seq![acc@.last()] + rest) =~= acc@ + rest);
                },
                Result::Err(e) => {},
            }
        }
        i += 1;
    }
    proof {
        assert(fields@.skip(n as int) =~= Seq::<UnnamedFieldDef>::empty());
        assert(acc@ + Seq::<bool>::empty() =~= acc@);
    }
    Result::Ok(acc)
}

/// Decides, field by field, whether a destructuring pattern binds the
/// field or discards it without a binding (so an omitted field raises
/// no unused-binding diagnostic in the generated code).
pub fn derive_match_list(fields: &FieldsDef) -> (r: Result<Vec<bool>, DeriveError>)
    ensures
        (r matches Result::Ok(bs) ==> spec_match_list(*fields) == Result::<
            Seq<bool>,
            SpecError,
        >::Ok(bs@)),
        (r matches Result::Err(e) ==> spec_match_list(*fields) == Result::<
            Seq<bool>,
            SpecError,
        >::Err(e@)),
{
    match fields {
        FieldsDef::Named(fs) => bindings_named(fs),
        FieldsDef::Unnamed(fs) => bindings_unnamed(fs),
        FieldsDef::Unit => {
            let none: Vec<bool> = Vec::new();
            Result::Ok(none)
        },
    }
}

/// The plan of a union case rendered in full: destructure the fields
/// and let each contribute per its own directive.
pub fn derive_variant(display_name: String, fields: &FieldsDef) -> (r: Result<
    VariantPlan,
    DeriveError,
>)
    ensures
        (r matches Result::Ok(p) ==> spec_derive_variant(display_name@, *fields) == Result::<
            SpecVariantPlan,
            SpecError,
        >::Ok(p@)),
        (r matches Result::Err(e) ==> spec_derive_variant(display_name@, *fields) == Result::<
            SpecVariantPlan,
            SpecError,
        >::Err(e@)),
{
    let bindings = match derive_match_list(fields) {
        Result::Ok(b) => b,
        Result::Err(e) => {
            return Result::Err(e);
        },
    };
    match fields {
        FieldsDef::Named(fs) => match derive_named_fields(fs) {
            Result::Ok(es) => Result::Ok(
                VariantPlan { display_name, bindings, shape: ShapePlan::Braced { entries: es } },
            ),
            Result::Err(e) => Result::Err(e),
        },
        FieldsDef::Unnamed(fs) => match derive_unnamed_fields(fs) {
            Result::Ok(ss) => Result::Ok(
                VariantPlan { display_name, bindings, shape: ShapePlan::Tupled { sources: ss } },
            ),
            Result::Err(e) => Result::Err(e),
        },
        FieldsDef::Unit => Result::Ok(
            VariantPlan { display_name, bindings, shape: ShapePlan::Bare },
        ),
    }
}

/// The plan of a union case marked omit: only its display name, every
/// field discarded, its fields' own annotations ignored.
pub fn skip_variant(display_name: String, fields: &FieldsDef) -> (r: VariantPlan)
    ensures
        r@ == spec_skip_variant(display_name@, *fields),
{
    let n = match fields {
        FieldsDef::Named(fs) => fs.len(),
        FieldsDef::Unnamed(fs) => fs.len(),
        FieldsDef::Unit => 0,
    };
    let mut bindings: Vec<bool> = Vec::new();
    let mut i: usize = 0;
    while i < n
        invariant
            0 <= i <= n,
            bindings@ =~= Seq::new(i as nat, |k: int| false),
        decreases n - i,
    {
        bindings.push(false);
        i += 1;
    }
    proof {
        assert(bindings@ =~= Seq::new(spec_field_count(*fields), |k: int| false));
    }
    let shape = match fields {
        FieldsDef::Named(fs) => ShapePlan::Braced { entries: Vec::new() },
        FieldsDef::Unnamed(fs) => ShapePlan::Tupled { sources: Vec::new() },
        FieldsDef::Unit => ShapePlan::Bare,
    };
    proof {
        assert(entries_view(Seq::<NamedEntry>::empty()) =~= Seq::<SpecNamedEntry>::empty());
        assert(sources_view(Seq::<ValueSource>::empty()) =~= Seq::<SpecSource>::empty());
    }
    VariantPlan { display_name, bindings, shape }
}

/// The plans of all union cases, in declaration order, or the first
/// rejection. A content-substitution directive on a case is an
/// internal fault; the option parser never produces one there.
pub fn derive_enum_variants(variants: &Vec<VariantDef>) -> (r: Result<
    Vec<VariantPlan>,
    DeriveError,
>)
    ensures
        (r matches Result::Ok(ps) ==> spec_enum_variants(variants@) == Result::<
            Seq<SpecVariantPlan>,
            SpecError,
        >::Ok(variants_view(ps@))),
        (r matches Result::Err(e) ==> spec_enum_variants(variants@) == Result::<
            Seq<SpecVariantPlan>,
            SpecError,
        >::Err(e@)),
{
    let mut acc: Vec<VariantPlan> = Vec::new();
    let n = variants.len();
    proof {
        assert(variants@.skip(0) =~= variants@);
        assert(variants_view(acc@) =~= Seq::<SpecVariantPlan>::empty());
    }
    let mut i: usize = 0;
    while i < n
        invariant
            0 <= i <= n,
            n == variants@.len(),
            spec_enum_variants(variants@) == (match spec_enum_variants(variants@.skip(i as int)) {
                Result::Ok(rest) => Result::<Seq<SpecVariantPlan>, SpecError>::Ok(
                    variants_view(acc@) + rest,
                ),
                Result::Err(e) => Result::Err(e),
            }),
        decreases n - i,
    {
        proof {
            assert(variants@.skip(i as int)[0] == variants@[i as int]);
            assert(variants@.skip(i as int).drop_first() =~= variants@.skip(i as int + 1));
        }
        let v = &variants[i];
        let o = match parse_options(&v.attrs, OptionsTarget::EnumVariant) {
            Result::Ok(o) => o,
            Result::Err(e) => {
                return Result::Err(e);
            },
        };
        let dn = match o.alias {
            Option::Some(a) => a,
            Option::None => v.name.clone(),
        };
        let p = match o.print_type {
            FieldPrintType::Normal => match derive_variant(dn, &v.fields) {
                Result::Ok(p) => p,
                Result::Err(e) => {
                    return Result::Err(e);
                },
            },
            FieldPrintType::Skip => skip_variant(dn, &v.fields),
            _ => {
                return Result::Err(DeriveError::Internal);
            },
        };
        let ghost pre = acc@;
        acc.push(p);
        proof {
            assert(variants_view(acc@) =~= variants_view(pre).push(acc@.last()@));
            match spec_enum_variants(variants@.skip(i as int + 1)) {
                Result::Ok(rest) => {
                    assert(variants_view(pre) + (seq![acc@.last()@] + rest) =~= variants_view(acc@)
                        + rest);
                },
                Result::Err(e) => {},
            }
        }
        i += 1;
    }
    proof {
        assert(variants@.skip(n as int) =~= Seq::<VariantDef>::empty());
        assert(variants_view(acc@) + Seq::<SpecVariantPlan>::empty() =~= variants_view(acc@));
    }
    Result::Ok(acc)
}

/// The plan of a whole tagged union. A union with no cases yields a
/// plan with no case plans: its rendering can never be invoked, since
/// no case index satisfies the renderer's precondition.
pub fn derive_enum(variants: &Vec<VariantDef>) -> (r: Result<RenderPlan, DeriveError>)
    ensures
        (r matches Result::Ok(p) ==> spec_enum_variants(variants@) matches Result::Ok(ps) && p@
            == SpecPlan::Enum(ps)),
        (r matches Result::Err(e) ==> spec_enum_variants(variants@) == Result::<
            Seq<SpecVariantPlan>,
            SpecError,
        >::Err(e@)),
{
    match derive_enum_variants(variants) {
        Result::Ok(ps) => Result::Ok(RenderPlan::Enum { variants: ps }),
        Result::Err(e) => Result::Err(e),
    }
}

/// The plan of a record: output shape by its structural kind.
pub fn derive_struct(display_name: String, fields: &FieldsDef) -> (r: Result<
    RenderPlan,
    DeriveError,
>)
    ensures
        (r matches Result::Ok(p) ==> spec_derive_struct(display_name@, *fields) == Result::<
            SpecPlan,
            SpecError,
        >::Ok(p@)),
        (r matches Result::Err(e) ==> spec_derive_struct(display_name@, *fields) == Result::<
            SpecPlan,
            SpecError,
        >::Err(e@)),
{
    match fields {
        FieldsDef::Named(fs) => match derive_named_fields(fs) {
            Result::Ok(es) => Result::Ok(
                RenderPlan::Struct { display_name, shape: ShapePlan::Braced { entries: es } },
            ),
            Result::Err(e) => Result::Err(e),
        },
        FieldsDef::Unnamed(fs) => match derive_unnamed_fields(fs) {
            Result::Ok(ss) => Result::Ok(
                RenderPlan::Struct { display_name, shape: ShapePlan::Tupled { sources: ss } },
            ),
            Result::Err(e) => Result::Err(e),
        },
        FieldsDef::Unit => {
            proof {
                assert(entries_view(Seq::<NamedEntry>::empty())
                    =~= Seq::<SpecNamedEntry>::empty());
            }
            Result::Ok(
                RenderPlan::Struct {
                    display_name,
                    shape: ShapePlan::Braced { entries: Vec::new() },
                },
            )
        },
    }
}

/// The whole derivation for an annotated type: resolve the item's own
/// directive, let an alias override the display name, dispatch on the
/// structural kind, and reject the one unsupported kind.
pub fn derive_debug_impl(item: &TypeDef) -> (r: Result<RenderPlan, DeriveError>)
    ensures
        (r matches Result::Ok(p) ==> spec_derive_item(*item) == Result::<SpecPlan, SpecError>::Ok(
            p@,
        )),
        (r matches Result::Err(e) ==> spec_derive_item(*item) == Result::<
            SpecPlan,
            SpecError,
        >::Err(e@)),
{
    let o = match parse_options(&item.attrs, OptionsTarget::DeriveItem) {
        Result::Ok(o) => o,
        Result::Err(e) => {
            return Result::Err(e);
        },
    };
    let display_name = match o.alias {
        Option::Some(a) => a,
        Option::None => item.name.clone(),
    };
    match &item.body {
        TypeBody::Struct(f) => derive_struct(display_name, f),
        TypeBody::Enum(vs) => derive_enum(vs),
        TypeBody::Union => Result::Err(DeriveError::UnionNotSupported),
    }
}

} // verus!
