//! The option language: raw annotations attached to a symbol, a union
//! case or a field, and their resolution into a rendering directive.

use vstd::prelude::*;

verus! {

/// What kind of symbol an annotation list is attached to. Which option
/// keys are permitted depends on this context.
#[derive(Clone, Copy, PartialEq, Eq, Structural, Debug)]
pub enum OptionsTarget {
    /// The annotated type itself.
    DeriveItem,
    /// One case of a tagged union.
    EnumVariant,
    /// A named record field.
    NamedField,
    /// A positional record field.
    UnnamedField,
}

/// The value attached to one option key.
#[derive(Debug)]
pub enum OptionValue {
    /// A bare key with no value, as in `skip`.
    Bare,
    /// A key bound to a string literal, as in `alias = "name"`.
    Text(String),
    /// Any other shape (a non-string literal, or a nested list):
    /// recognized by no option and always rejected.
    Unsupported,
}

/// One raw key/value directive from an annotation list.
#[derive(Debug)]
pub struct RawOption {
    pub key: String,
    pub value: OptionValue,
}

/// One whole annotation attached to a symbol.
#[derive(Debug)]
pub enum DbgAttr {
    /// The well-formed shape: a named list of options.
    Options(Vec<RawOption>),
    /// An annotation not shaped as a named list.
    Malformed,
}

/// How a single member contributes to the output.
#[derive(Debug)]
pub enum FieldPrintType {
    /// Contribute the member's own value.
    Normal,
    /// Contribute a fixed text, ignoring the member's value.
    Placeholder(String),
    /// Contribute nothing.
    Skip,
    /// Contribute the value rendered through a format template.
    Format(String),
    /// Contribute the result of a named formatting function.
    Custom(String),
}

/// The resolved directive for one member or symbol.
#[derive(Debug)]
pub struct FieldOutputOptions {
    pub print_type: FieldPrintType,
    /// A display-name override, independent of the print type.
    pub alias: Option<String>,
}

/// Why a derivation was rejected.
#[derive(Debug, PartialEq, Eq)]
pub enum DeriveError {
    /// An annotation was present but not shaped as a named list.
    InvalidAttribute,
    /// An option key unknown, used in a context where it is not
    /// permitted, or given a value of the wrong shape; carries the key.
    InvalidOption(String),
    /// The annotated type is of the one unsupported structural kind.
    UnionNotSupported,
    /// A `formatter` value that does not parse as a callable reference;
    /// carries the underlying parse failure text.
    BadFormatterPath(String),
    /// An option-resolution branch that no validated input reaches.
    Internal,
}

/// Mathematical form of [`FieldPrintType`].
pub enum SpecPrintType {
    Normal,
    Placeholder(Seq<char>),
    Skip,
    Format(Seq<char>),
    Custom(Seq<char>),
}

/// Mathematical form of [`FieldOutputOptions`].
pub struct SpecOptions {
    pub print_type: SpecPrintType,
    pub alias: Option<Seq<char>>,
}

/// Mathematical form of [`DeriveError`]. A rejected `formatter` value
/// is represented by the bare variant: the failure text the rejection
/// carries is data the contracts do not pin, since it is not a
/// function of the value alone.
pub enum SpecError {
    InvalidAttribute,
    InvalidOption(Seq<char>),
    UnionNotSupported,
    BadFormatterPath,
    Internal,
}

impl View for FieldPrintType {
    type V = SpecPrintType;

    open spec fn view(&self) -> SpecPrintType {
        match self {
            FieldPrintType::Normal => SpecPrintType::Normal,
            FieldPrintType::Placeholder(t) => SpecPrintType::Placeholder(t@),
            FieldPrintType::Skip => SpecPrintType::Skip,
            FieldPrintType::Format(t) => SpecPrintType::Format(t@),
            FieldPrintType::Custom(t) => SpecPrintType::Custom(t@),
        }
    }
}

impl View for FieldOutputOptions {
    type V = SpecOptions;

    open spec fn view(&self) -> SpecOptions {
        SpecOptions {
            print_type: self.print_type@,
            alias: match self.alias {
                Option::Some(ref a) => Option::Some(a@),
                Option::None => Option::None,
            },
        }
    }
}

impl View for DeriveError {
    type V = SpecError;

    open spec fn view(&self) -> SpecError {
        match self {
            DeriveError::InvalidAttribute => SpecError::InvalidAttribute,
            DeriveError::InvalidOption(k) => SpecError::InvalidOption(k@),
            DeriveError::UnionNotSupported => SpecError::UnionNotSupported,
            DeriveError::BadFormatterPath(_) => SpecError::BadFormatterPath,
            DeriveError::Internal => SpecError::Internal,
        }
    }
}

/// View of a whole option-resolution outcome.
pub open spec fn view_options_result(r: Result<FieldOutputOptions, DeriveError>) -> Result<
    SpecOptions,
    SpecError,
> {
    match r {
        Result::Ok(o) => Result::Ok(o@),
        Result::Err(e) => Result::Err(e@),
    }
}

/// The directive an empty annotation list resolves to: render normally,
/// no alias.
pub open spec fn spec_default_options() -> SpecOptions {
    SpecOptions { print_type: SpecPrintType::Normal, alias: Option::None }
}

/// The two field contexts, where the content-substitution options are
/// permitted.
pub open spec fn is_field_target(t: OptionsTarget) -> bool {
    t == OptionsTarget::NamedField || t == OptionsTarget::UnnamedField
}

/// Whether `syn::parse_str::<syn::Path>` accepts a `formatter` value
/// as a path to a callable. The accept/reject outcome depends on the
/// string alone; the failure text does not (its phrasing can differ
/// between lexing environments), so only the outcome carries a name.
pub uninterp spec fn formatter_path_ok(s: Seq<char>) -> bool;

/// Relies on `syn::parse_str::<syn::Path>` for the accept/reject
/// outcome alone. On rejection some failure text comes back; it is
/// carried as data and nothing is claimed of its content.
#[verifier::external_body]
fn parse_formatter_path(s: &str) -> (r: Result<(), String>)
    ensures
        r is Ok <==> formatter_path_ok(s@),
{
    match syn::parse_str::<syn::Path>(s) {
        Ok(_) => Ok(()),
        Err(e) => Err(e.to_string()),
    }
}

/// Relies on `str`'s `PartialEq`: two string slices compare equal
/// exactly when their character sequences are equal.
#[verifier::external_body]
fn str_eq(a: &str, b: &str) -> (r: bool)
    ensures
        r == (a@ == b@),
{
    a == b
}

/// One step of option resolution: how a single key/value directive
/// changes the directive resolved so far, or why it is rejected.
///
/// The substitution options (`skip`, `placeholder`, `fmt`, `formatter`)
/// each overwrite the print type, so on one member the last of them
/// wins; `alias` composes with any of them.
pub open spec fn spec_apply_option(st: SpecOptions, opt: RawOption, t: OptionsTarget) -> Result<
    SpecOptions,
    SpecError,
> {
    if opt.key@ == "skip"@ {
        if opt.value is Bare && t != OptionsTarget::DeriveItem {
            Result::Ok(SpecOptions { print_type: SpecPrintType::Skip, alias: st.alias })
        } else {
            Result::Err(SpecError::InvalidOption(opt.key@))
        }
    } else if opt.key@ == "placeholder"@ {
        match opt.value {
            OptionValue::Text(s) => if is_field_target(t) {
                Result::Ok(
                    SpecOptions { print_type: SpecPrintType::Placeholder(s@), alias: st.alias },
                )
            } else {
                Result::Err(SpecError::InvalidOption(opt.key@))
            },
            _ => Result::Err(SpecError::InvalidOption(opt.key@)),
        }
    } else if opt.key@ == "alias"@ {
        match opt.value {
            OptionValue::Text(s) => if t != OptionsTarget::UnnamedField {
                Result::Ok(SpecOptions { print_type: st.print_type, alias: Option::Some(s@) })
            } else {
                Result::Err(SpecError::InvalidOption(opt.key@))
            },
            _ => Result::Err(SpecError::InvalidOption(opt.key@)),
        }
    } else if opt.key@ == "fmt"@ {
        match opt.value {
            OptionValue::Text(s) => if is_field_target(t) {
                Result::Ok(SpecOptions { print_type: SpecPrintType::Format(s@), alias: st.alias })
            } else {
                Result::Err(SpecError::InvalidOption(opt.key@))
            },
            _ => Result::Err(SpecError::InvalidOption(opt.key@)),
        }
    } else if opt.key@ == "formatter"@ {
        match opt.value {
            OptionValue::Text(s) => if is_field_target(t) {
                if formatter_path_ok(s@) {
                    Result::Ok(
                        SpecOptions { print_type: SpecPrintType::Custom(s@), alias: st.alias },
                    )
                } else {
                    Result::Err(SpecError::BadFormatterPath)
                }
            } else {
                Result::Err(SpecError::InvalidOption(opt.key@))
            },
            _ => Result::Err(SpecError::InvalidOption(opt.key@)),
        }
    } else {
        Result::Err(SpecError::InvalidOption(opt.key@))
    }
}

/// Resolution of the options of one annotation, in source order.
pub open spec fn spec_apply_options(
    st: SpecOptions,
    opts: Seq<RawOption>,
    t: OptionsTarget,
) -> Result<SpecOptions, SpecError>
    decreases opts.len(),
{
    if opts.len() == 0 {
        Result::Ok(st)
    } else {
        match spec_apply_option(st, opts[0], t) {
            Result::Ok(st2) => spec_apply_options(st2, opts.drop_first(), t),
            Result::Err(e) => Result::Err(e),
        }
    }
}

/// Resolution of a whole annotation list, in source order.
pub open spec fn spec_parse_attrs(
    st: SpecOptions,
    attrs: Seq<DbgAttr>,
    t: OptionsTarget,
) -> Result<SpecOptions, SpecError>
    decreases attrs.len(),
{
    if attrs.len() == 0 {
        Result::Ok(st)
    } else {
        match attrs[0] {
            DbgAttr::Malformed => Result::Err(SpecError::InvalidAttribute),
            DbgAttr::Options(opts) => match spec_apply_options(st, opts@, t) {
                Result::Ok(st2) => spec_parse_attrs(st2, attrs.drop_first(), t),
                Result::Err(e) => Result::Err(e),
            },
        }
    }
}

/// The directive that an annotation list resolves to in a context, or
/// the first reason it is rejected.
pub open spec fn spec_parse_options(attrs: Seq<DbgAttr>, t: OptionsTarget) -> Result<
    SpecOptions,
    SpecError,
> {
    spec_parse_attrs(spec_default_options(), attrs, t)
}

/// The table of recognized keys and the contexts they are permitted
/// in: `skip` everywhere but on the item itself, `alias` everywhere but
/// on a positional field, and the content-substitution options
/// (`placeholder`, `fmt`, `formatter`) on fields only. `skip` takes no
/// value; the others take a string.
pub open spec fn option_permitted(opt: RawOption, t: OptionsTarget) -> bool {
    ||| (opt.key@ == "skip"@ && opt.value is Bare && t != OptionsTarget::DeriveItem)
    ||| (opt.key@ == "placeholder"@ && opt.value is Text && is_field_target(t))
    ||| (opt.key@ == "alias"@ && opt.value is Text && t != OptionsTarget::UnnamedField)
    ||| (opt.key@ == "fmt"@ && opt.value is Text && is_field_target(t))
    ||| (opt.key@ == "formatter"@ && opt.value is Text && is_field_target(t))
}

/// A `formatter` value whose text does not parse as a callable
/// reference.
pub open spec fn formatter_value_rejected(opt: RawOption) -> bool {
    match opt.value {
        OptionValue::Text(s) => !formatter_path_ok(s@),
        _ => false,
    }
}

/// An option is accepted exactly when the table permits it in its
/// context and, for `formatter`, its value parses as a callable
/// reference; an option the table refuses is rejected naming its key.
pub proof fn lemma_option_validity(st: SpecOptions, opt: RawOption, t: OptionsTarget)
    ensures
        spec_apply_option(st, opt, t) is Ok <==> (option_permitted(opt, t) && !(opt.key@
            == "formatter"@ && formatter_value_rejected(opt))),
        !option_permitted(opt, t) ==> spec_apply_option(st, opt, t) == Result::<
            SpecOptions,
            SpecError,
        >::Err(SpecError::InvalidOption(opt.key@)),
{
    reveal_strlit("skip");
    reveal_strlit("placeholder");
    reveal_strlit("alias");
    reveal_strlit("fmt");
    reveal_strlit("formatter");
    assert("skip"@.len() == 4);
    assert("placeholder"@.len() == 11);
    assert("alias"@.len() == 5);
    assert("fmt"@.len() == 3);
    assert("formatter"@.len() == 9);
}

proof fn lemma_apply_options_invalid(
    st: SpecOptions,
    opts: Seq<RawOption>,
    t: OptionsTarget,
    j: int,
)
    requires
        0 <= j < opts.len(),
        !option_permitted(opts[j], t),
    ensures
        spec_apply_options(st, opts, t) is Err,
    decreases opts.len(),
{
    lemma_option_validity(st, opts[0], t);
    if j > 0 {
        match spec_apply_option(st, opts[0], t) {
            Result::Ok(st2) => {
                assert(opts.drop_first()[j - 1] == opts[j]);
                lemma_apply_options_invalid(st2, opts.drop_first(), t, j - 1);
            },
            Result::Err(e) => {},
        }
    }
}

proof fn lemma_parse_attrs_invalid(
    st: SpecOptions,
    attrs: Seq<DbgAttr>,
    t: OptionsTarget,
    i: int,
    j: int,
)
    requires
        0 <= i < attrs.len(),
        attrs[i] matches DbgAttr::Options(opts) && 0 <= j < opts@.len() && !option_permitted(
            opts@[j],
            t,
        ),
    ensures
        spec_parse_attrs(st, attrs, t) is Err,
    decreases attrs.len(),
{
    match attrs[0] {
        DbgAttr::Malformed => {},
        DbgAttr::Options(opts0) => {
            if i == 0 {
                lemma_apply_options_invalid(st, opts0@, t, j);
            } else {
                match spec_apply_options(st, opts0@, t) {
                    Result::Ok(st2) => {
                        assert(attrs.drop_first()[i - 1] == attrs[i]);
                        lemma_parse_attrs_invalid(st2, attrs.drop_first(), t, i - 1, j);
                    },
                    Result::Err(e) => {},
                }
            }
        },
    }
}

/// An annotation list holding any option that the table refuses in its
/// context resolves to no directive: the whole resolution is an error.
pub proof fn lemma_invalid_option_rejected(attrs: Seq<DbgAttr>, t: OptionsTarget, i: int, j: int)
    requires
        0 <= i < attrs.len(),
        attrs[i] matches DbgAttr::Options(opts) && 0 <= j < opts@.len() && !option_permitted(
            opts@[j],
            t,
        ),
    ensures
        spec_parse_options(attrs, t) is Err,
{
    lemma_parse_attrs_invalid(spec_default_options(), attrs, t, i, j);
}

proof fn lemma_apply_options_variant(st: SpecOptions, opts: Seq<RawOption>, t: OptionsTarget)
    requires
        !is_field_target(t),
        st.print_type is Normal || st.print_type is Skip,
    ensures
        spec_apply_options(st, opts, t) matches Result::Ok(o) ==> (o.print_type is Normal
            || o.print_type is Skip),
    decreases opts.len(),
{
    if opts.len() > 0 {
        match spec_apply_option(st, opts[0], t) {
            Result::Ok(st2) => {
                lemma_apply_options_variant(st2, opts.drop_first(), t);
            },
            Result::Err(e) => {},
        }
    }
}

proof fn lemma_parse_attrs_variant(st: SpecOptions, attrs: Seq<DbgAttr>, t: OptionsTarget)
    requires
        !is_field_target(t),
        st.print_type is Normal || st.print_type is Skip,
    ensures
        spec_parse_attrs(st, attrs, t) matches Result::Ok(o) ==> (o.print_type is Normal
            || o.print_type is Skip),
    decreases attrs.len(),
{
    if attrs.len() > 0 {
        match attrs[0] {
            DbgAttr::Malformed => {},
            DbgAttr::Options(opts0) => {
                lemma_apply_options_variant(st, opts0@, t);
                match spec_apply_options(st, opts0@, t) {
                    Result::Ok(st2) => {
                        lemma_parse_attrs_variant(st2, attrs.drop_first(), t);
                    },
                    Result::Err(e) => {},
                }
            },
        }
    }
}

/// On a union case or on the item itself, a resolved directive is
/// either "render normally" or "omit": no content-substitution
/// directive can reach those contexts.
pub proof fn lemma_directive_shape(attrs: Seq<DbgAttr>, t: OptionsTarget)
    requires
        !is_field_target(t),
    ensures
        spec_parse_options(attrs, t) matches Result::Ok(o) ==> (o.print_type is Normal
            || o.print_type is Skip),
{
    lemma_parse_attrs_variant(spec_default_options(), attrs, t);
}

/// The human-readable description of an error. A rejected `formatter`
/// value reports the failure text it carries.
pub open spec fn spec_message(e: DeriveError) -> Seq<char> {
    match e {
        DeriveError::InvalidAttribute => "invalid #[dbg(...)] attribute"@,
        DeriveError::InvalidOption(k) => "invalid option: "@ + k@,
        DeriveError::UnionNotSupported => "#[derive(Dbg)] not supported on unions"@,
        DeriveError::BadFormatterPath(t) => t@,
        DeriveError::Internal => "Internal error"@,
    }
}

impl DeriveError {
    /// The description that the compile-time diagnostic carries.
    pub fn message(&self) -> (r: String)
        ensures
            r@ == spec_message(*self),
    {
        match self {
            DeriveError::InvalidAttribute => String::from_str("invalid #[dbg(...)] attribute"),
            DeriveError::InvalidOption(k) => {
                let mut m = String::from_str("invalid option: ");
                m.append(k.as_str());
                m
            },
            DeriveError::UnionNotSupported => String::from_str(
                "#[derive(Dbg)] not supported on unions",
            ),
            DeriveError::BadFormatterPath(t) => t.clone(),
            DeriveError::Internal => String::from_str("Internal error"),
        }
    }
}

/// The directive an empty annotation list resolves to, as a value.
pub fn default_options() -> (r: FieldOutputOptions)
    ensures
        r@ == spec_default_options(),
{
    FieldOutputOptions { print_type: FieldPrintType::Normal, alias: Option::None }
}

/// One step of option resolution.
fn apply_option(cur: FieldOutputOptions, opt: &RawOption, target: OptionsTarget) -> (r: Result<
    FieldOutputOptions,
    DeriveError,
>)
    ensures
        view_options_result(r) == spec_apply_option(cur@, *opt, target),
{
    if str_eq(opt.key.as_str(), "skip") {
        if let OptionValue::Bare = &opt.value {
            if target != OptionsTarget::DeriveItem {
                return Result::Ok(
                    FieldOutputOptions { print_type: FieldPrintType::Skip, alias: cur.alias },
                );
            }
        }
        Result::Err(DeriveError::InvalidOption(opt.key.clone()))
    } else if str_eq(opt.key.as_str(), "placeholder") {
        if let OptionValue::Text(s) = &opt.value {
            if target == OptionsTarget::NamedField || target == OptionsTarget::UnnamedField {
                return Result::Ok(
                    FieldOutputOptions {
                        print_type: FieldPrintType::Placeholder(s.clone()),
                        alias: cur.alias,
                    },
                );
            }
        }
        Result::Err(DeriveError::InvalidOption(opt.key.clone()))
    } else if str_eq(opt.key.as_str(), "alias") {
        if let OptionValue::Text(s) = &opt.value {
            if target != OptionsTarget::UnnamedField {
                return Result::Ok(
                    FieldOutputOptions {
                        print_type: cur.print_type,
                        alias: Option::Some(s.clone()),
                    },
                );
            }
        }
        Result::Err(DeriveError::InvalidOption(opt.key.clone()))
    } else if str_eq(opt.key.as_str(), "fmt") {
        if let OptionValue::Text(s) = &opt.value {
            if target == OptionsTarget::NamedField || target == OptionsTarget::UnnamedField {
                return Result::Ok(
                    FieldOutputOptions {
                        print_type: FieldPrintType::Format(s.clone()),
                        alias: cur.alias,
                    },
                );
            }
        }
        Result::Err(DeriveError::InvalidOption(opt.key.clone()))
    } else if str_eq(opt.key.as_str(), "formatter") {
        if let OptionValue::Text(s) = &opt.value {
            if target == OptionsTarget::NamedField || target == OptionsTarget::UnnamedField {
                return match parse_formatter_path(s.as_str()) {
                    Result::Ok(u) => Result::Ok(
                        FieldOutputOptions {
                            print_type: FieldPrintType::Custom(s.clone()),
                            alias: cur.alias,
                        },
                    ),
                    Result::Err(m) => Result::Err(DeriveError::BadFormatterPath(m)),
                };
            }
        }
        Result::Err(DeriveError::InvalidOption(opt.key.clone()))
    } else {
        Result::Err(DeriveError::InvalidOption(opt.key.clone()))
    }
}

/// Resolves the annotations attached to one symbol, case or field into
/// a directive, in source order, or rejects them with the first error.
pub fn parse_options(attributes: &Vec<DbgAttr>, target: OptionsTarget) -> (r: Result<
    FieldOutputOptions,
    DeriveError,
>)
    ensures
        view_options_result(r) == spec_parse_options(attributes@, target),
{
    let mut cur = FieldOutputOptions { print_type: FieldPrintType::Normal, alias: Option::None };
    let n = attributes.len();
    proof {
        assert(attributes@.skip(0) =~= attributes@);
    }
    let mut i: usize = 0;
    while i < n
        invariant
            0 <= i <= n,
            n == attributes@.len(),
            spec_parse_attrs(cur@, attributes@.skip(i as int), target) == spec_parse_options(
                attributes@,
                target,
            ),
        decreases n - i,
    {
        proof {
            assert(attributes@.skip(i as int)[0] == attributes@[i as int]);
            assert(attributes@.skip(i as int).drop_first() =~= attributes@.skip(i as int + 1));
        }
        match &attributes[i] {
            DbgAttr::Malformed => {
                return Result::Err(DeriveError::InvalidAttribute);
            },
            DbgAttr::Options(opts) => {
                let m = opts.len();
                proof {
                    assert(opts@.skip(0) =~= opts@);
                }
                let mut j: usize = 0;
                while j < m
                    invariant
                        0 <= j <= m,
                        m == opts@.len(),
                        i < n,
                        n == attributes@.len(),
                        attributes@[i as int] == DbgAttr::Options(*opts),
                        attributes@.skip(i as int).drop_first() =~= attributes@.skip(i as int + 1),
                        spec_parse_options(attributes@, target) == (
                        match spec_apply_options(cur@, opts@.skip(j as int), target) {
                            Result::Ok(st2) => spec_parse_attrs(
                                st2,
                                attributes@.skip(i as int + 1),
                                target,
                            ),
                            Result::Err(e) => Result::Err(e),
                        }),
                    decreases m - j,
                {
                    proof {
                        assert(opts@.skip(j as int)[0] == opts@[j as int]);
                        assert(opts@.skip(j as int).drop_first() =~= opts@.skip(j as int + 1));
                    }
                    cur =
                    match apply_option(cur, &opts[j], target) {
                        Result::Ok(c) => c,
                        Result::Err(e) => {
                            return Result::Err(e);
                        },
                    };
                    j += 1;
                }
                proof {
                    assert(opts@.skip(m as int) =~= Seq::<RawOption>::empty());
                }
            },
        }
        i += 1;
    }
    proof {
        assert(attributes@.skip(n as int) =~= Seq::<DbgAttr>::empty());
    }
    Result::Ok(cur)
}

} // verus!
