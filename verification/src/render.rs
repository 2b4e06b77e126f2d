//! What the derived debug implementation prints: the exact text, in
//! the compact and the pretty (multi-line) convention of the standard
//! debug builders.
//!
//! The renderer consumes a plan together with one fragment text per
//! field: the text the field contributes under its own directive (its
//! plain debug form when rendered normally, the template applied to it
//! for a template directive, the formatting function's display for a
//! custom directive). A fixed placeholder needs no fragment — its text
//! comes from the plan, with its doubled braces collapsed as the host
//! renders an argument-less template — and an omitted field's fragment
//! is ignored.

use vstd::prelude::*;
use vstd::string::StrSliceExecFns;
use vstd::string::StringExecFns;
use crate::plan::{RenderPlan, ShapePlan, SpecNamedEntry, SpecPlan, SpecShape, SpecSource,
    ValueSource};

verus! {

/// The two output conventions: one line, or one field per line.
#[derive(Clone, Copy, PartialEq, Eq, Structural, Debug)]
pub enum RenderMode {
    Compact,
    Pretty,
}

/// A fragment source that reads no field outside the given count.
pub open spec fn spec_source_wf(s: SpecSource, n: int) -> bool {
    match s {
        SpecSource::FieldValue(i) => 0 <= i < n,
        SpecSource::FixedText(t) => true,
        SpecSource::Templated(t, i) => 0 <= i < n,
        SpecSource::Formatted(p, i) => 0 <= i < n,
    }
}

/// Labeled entries whose fragment sources all stay within the field
/// count.
pub open spec fn spec_entries_wf(es: Seq<SpecNamedEntry>, n: int) -> bool {
    forall|k: int| 0 <= k < es.len() ==> spec_source_wf((#[trigger] es[k]).source, n)
}

/// Fragment sources that all stay within the field count.
pub open spec fn spec_sources_wf(ss: Seq<SpecSource>, n: int) -> bool {
    forall|k: int| 0 <= k < ss.len() ==> spec_source_wf(#[trigger] ss[k], n)
}

/// A shape whose fragment sources all stay within the field count.
pub open spec fn spec_shape_wf(shape: SpecShape, n: int) -> bool {
    match shape {
        SpecShape::Braced(es) => spec_entries_wf(es, n),
        SpecShape::Tupled(ss) => spec_sources_wf(ss, n),
        SpecShape::Bare => true,
    }
}

/// A fixed placeholder is handed to the host as a format template
/// with no arguments, so its doubled braces collapse: `{{` shows as
/// `{` and `}}` as `}`. A lone brace is kept as it stands here; the
/// host's template parser refuses such a template when the generated
/// code is compiled, so output exists only for well-formed templates.
pub open spec fn spec_unescape_braces(s: Seq<char>) -> Seq<char>
    decreases s.len(),
{
    if s.len() == 0 {
        s
    } else if s.len() >= 2 && s[0] == '{' && s[1] == '{' {
        seq!['{'] + spec_unescape_braces(s.skip(2))
    } else if s.len() >= 2 && s[0] == '}' && s[1] == '}' {
        seq!['}'] + spec_unescape_braces(s.skip(2))
    } else {
        seq![s[0]] + spec_unescape_braces(s.drop_first())
    }
}

/// The text one fragment source contributes, given the per-field
/// fragment texts.
pub open spec fn spec_fragment(s: SpecSource, values: Seq<Seq<char>>) -> Seq<char> {
    match s {
        SpecSource::FieldValue(i) => values[i],
        SpecSource::FixedText(t) => spec_unescape_braces(t),
        SpecSource::Templated(t, i) => values[i],
        SpecSource::Formatted(p, i) => values[i],
    }
}

/// The labeled entry texts of a name-brace form.
pub open spec fn braced_texts(es: Seq<SpecNamedEntry>, values: Seq<Seq<char>>) -> Seq<Seq<char>> {
    es.map_values(|e: SpecNamedEntry| e.label + ": "@ + spec_fragment(e.source, values))
}

/// The entry texts of a name-paren form.
pub open spec fn tupled_texts(ss: Seq<SpecSource>, values: Seq<Seq<char>>) -> Seq<Seq<char>> {
    ss.map_values(|s: SpecSource| spec_fragment(s, values))
}

/// The entry texts joined by the compact separator.
pub open spec fn join_comma(parts: Seq<Seq<char>>) -> Seq<char>
    decreases parts.len(),
{
    if parts.len() == 0 {
        Seq::empty()
    } else if parts.len() == 1 {
        parts[0]
    } else {
        parts[0] + ", "@ + join_comma(parts.drop_first())
    }
}

/// One indentation step added at the start of every further line: the
/// pretty convention indents a multi-line fragment as a block.
pub open spec fn pad4(s: Seq<char>) -> Seq<char>
    decreases s.len(),
{
    if s.len() == 0 {
        s
    } else if s[0] == '\n' {
        seq!['\n', ' ', ' ', ' ', ' '] + pad4(s.drop_first())
    } else {
        seq![s[0]] + pad4(s.drop_first())
    }
}

/// The pretty body: every entry on its own indented line, each line
/// closed by a comma.
pub open spec fn pretty_block(parts: Seq<Seq<char>>) -> Seq<char>
    decreases parts.len(),
{
    if parts.len() == 0 {
        Seq::empty()
    } else {
        "    "@ + pad4(parts[0]) + ",\n"@ + pretty_block(parts.drop_first())
    }
}

/// The full rendered text of one shape under one display name: the
/// bare name when there is nothing to show, else the name-brace or
/// name-paren form of the standard debug builders. A one-entry paren
/// form under an empty name keeps the trailing comma of a tuple
/// literal in the compact convention.
pub open spec fn spec_render_shape(
    name: Seq<char>,
    shape: SpecShape,
    values: Seq<Seq<char>>,
    mode: RenderMode,
) -> Seq<char> {
    match shape {
        SpecShape::Braced(es) => {
            let texts = braced_texts(es, values);
            if texts.len() == 0 {
                name
            } else if mode == RenderMode::Compact {
                name + " { "@ + join_comma(texts) + " }"@
            } else {
                name + " {\n"@ + pretty_block(texts) + "}"@
            }
        },
        SpecShape::Tupled(ss) => {
            let texts = tupled_texts(ss, values);
            if texts.len() == 0 {
                name
            } else if mode == RenderMode::Compact {
                if texts.len() == 1 && name.len() == 0 {
                    name + "("@ + join_comma(texts) + ",)"@
                } else {
                    name + "("@ + join_comma(texts) + ")"@
                }
            } else {
                name + "(\n"@ + pretty_block(texts) + ")"@
            }
        },
        SpecShape::Bare => name,
    }
}

/// Indentation distributes over concatenation.
pub proof fn lemma_pad4_append(a: Seq<char>, b: Seq<char>)
    ensures
        pad4(a + b) == pad4(a) + pad4(b),
    decreases a.len(),
{
    if a.len() == 0 {
        assert(a + b =~= b);
        assert(pad4(a) + pad4(b) =~= pad4(b));
    } else {
        assert((a + b).drop_first() =~= a.drop_first() + b);
        assert((a + b)[0] == a[0]);
        assert((a + b).len() > 0);
        lemma_pad4_append(a.drop_first(), b);
        if a[0] == '\n' {
            assert(pad4(a + b) =~= pad4(a) + pad4(b));
        } else {
            assert(pad4(a + b) =~= pad4(a) + pad4(b));
        }
    }
}

/// Joining one more entry appends a separator and the entry.
pub proof fn lemma_join_push(parts: Seq<Seq<char>>, x: Seq<char>)
    ensures
        join_comma(parts.push(x)) == if parts.len() == 0 {
            x
        } else {
            join_comma(parts) + ", "@ + x
        },
    decreases parts.len(),
{
    if parts.len() == 0 {
        assert(parts.push(x).len() == 1);
        assert(parts.push(x)[0] == x);
    } else {
        assert(parts.push(x)[0] == parts[0]);
        assert(parts.push(x).drop_first() =~= parts.drop_first().push(x));
        lemma_join_push(parts.drop_first(), x);
        if parts.len() == 1 {
            assert(join_comma(parts) == parts[0]);
            assert(join_comma(parts.push(x)) =~= join_comma(parts) + ", "@ + x);
        } else {
            assert(join_comma(parts.push(x)) =~= join_comma(parts) + ", "@ + x);
        }
    }
}

/// The pretty body of one more entry appends one more line.
pub proof fn lemma_pretty_push(parts: Seq<Seq<char>>, x: Seq<char>)
    ensures
        pretty_block(parts.push(x)) == pretty_block(parts) + ("    "@ + pad4(x) + ",\n"@),
    decreases parts.len(),
{
    if parts.len() == 0 {
        assert(parts.push(x)[0] == x);
        assert(parts.push(x).drop_first() =~= Seq::<Seq<char>>::empty());
        assert(parts =~= Seq::<Seq<char>>::empty());
        assert(pretty_block(Seq::<Seq<char>>::empty()) == Seq::<char>::empty());
        assert(pretty_block(parts.push(x)) =~= pretty_block(parts) + ("    "@ + pad4(x)
            + ",\n"@));
    } else {
        assert(parts.push(x)[0] == parts[0]);
        assert(parts.push(x).drop_first() =~= parts.drop_first().push(x));
        lemma_pretty_push(parts.drop_first(), x);
        assert(pretty_block(parts.push(x)) =~= pretty_block(parts) + ("    "@ + pad4(x)
            + ",\n"@));
    }
}

/// Relies on `String::push`: appends one character.
#[verifier::external_body]
fn push_char(s: &mut String, c: char)
    ensures
        final(s)@ == old(s)@ + seq![c],
{
    s.push(c);
}

/// Appends a text with every further line indented one step.
fn append_padded(out: &mut String, s: &str)
    ensures
        final(out)@ == old(out)@ + pad4(s@),
{
    let n = s.unicode_len();
    proof {
        assert(s@.take(0) =~= Seq::<char>::empty());
        assert(old(out)@ + pad4(Seq::<char>::empty()) =~= old(out)@);
    }
    let mut i: usize = 0;
    while i < n
        invariant
            0 <= i <= n,
            n == s@.len(),
            out@ == old(out)@ + pad4(s@.take(i as int)),
        decreases n - i,
    {
        let c = s.get_char(i);
        proof {
            assert(s@.take(i as int + 1) =~= s@.take(i as int) + seq![s@[i as int]]);
            lemma_pad4_append(s@.take(i as int), seq![s@[i as int]]);
            assert(seq![c].drop_first() =~= Seq::<char>::empty());
            assert(pad4(Seq::<char>::empty()) =~= Seq::<char>::empty());
        }
        push_char(out, c);
        if c == '\n' {
            out.append("    ");
            proof {
                reveal_strlit("    ");
                assert(pad4(seq![c]) =~= seq!['\n', ' ', ' ', ' ', ' ']);
                assert(out@ =~= old(out)@ + pad4(s@.take(i as int + 1)));
            }
        } else {
            proof {
                assert(pad4(seq![c]) =~= seq![c]);
                assert(out@ =~= old(out)@ + pad4(s@.take(i as int + 1)));
            }
        }
        i += 1;
    }
    proof {
        assert(s@.take(n as int) =~= s@);
    }
}

/// Collapses the doubled braces of an argument-less format template.
fn unescape_braces(s: &str) -> (r: String)
    ensures
        r@ == spec_unescape_braces(s@),
{
    let n = s.unicode_len();
    let mut out = String::new();
    proof {
        assert(s@.skip(0) =~= s@);
    }
    let mut i: usize = 0;
    while i < n
        invariant
            0 <= i <= n,
            n == s@.len(),
            spec_unescape_braces(s@) == out@ + spec_unescape_braces(s@.skip(i as int)),
        decreases n - i,
    {
        let c = s.get_char(i);
        proof {
            assert(s@.skip(i as int)[0] == s@[i as int]);
            assert(s@.skip(i as int).drop_first() =~= s@.skip(i as int + 1));
        }
        let ghost pre = out@;
        let mut doubled = false;
        if c == '{' || c == '}' {
            if i + 1 < n {
                let c2 = s.get_char(i + 1);
                if c2 == c {
                    doubled = true;
                }
            }
        }
        if doubled {
            proof {
                assert(s@.skip(i as int)[1] == s@[i as int + 1]);
                assert(s@.skip(i as int).skip(2) =~= s@.skip(i as int + 2));
            }
            push_char(&mut out, c);
            proof {
                let ghost rest = spec_unescape_braces(s@.skip(i as int + 2));
                assert(pre + (seq![c] + rest) =~= out@ + rest);
            }
            i += 2;
        } else {
            push_char(&mut out, c);
            proof {
                let ghost rest = spec_unescape_braces(s@.skip(i as int + 1));
                assert(pre + (seq![c] + rest) =~= out@ + rest);
            }
            i += 1;
        }
    }
    proof {
        assert(s@.skip(n as int) =~= Seq::<char>::empty());
        assert(spec_unescape_braces(Seq::<char>::empty()) == Seq::<char>::empty());
        assert(out@ + Seq::<char>::empty() =~= out@);
    }
    out
}

/// The fragment text one source contributes: a copy of the field's
/// fragment, or the placeholder's text with its brace escapes
/// collapsed.
fn fragment_text(source: &ValueSource, values: &Vec<String>) -> (r: String)
    requires
        spec_source_wf(source@, values@.len() as int),
    ensures
        r@ == spec_fragment(source@, values.deep_view()),
{
    match source {
        ValueSource::FieldValue { index } => values[*index].clone(),
        ValueSource::FixedText { text } => unescape_braces(text.as_str()),
        ValueSource::Templated { template, index } => values[*index].clone(),
        ValueSource::Formatted { path, index } => values[*index].clone(),
    }
}

/// Renders one shape under one display name, in the given convention.
pub fn render_shape(name: &str, shape: &ShapePlan, values: &Vec<String>, mode: RenderMode) -> (r:
    String)
    requires
        spec_shape_wf(shape@, values@.len() as int),
    ensures
        r@ == spec_render_shape(name@, shape@, values.deep_view(), mode),
{
    match shape {
        ShapePlan::Braced { entries } => {
            let ghost texts = braced_texts(crate::plan::entries_view(entries@),
                values.deep_view());
            let n = entries.len();
            proof {
                assert(texts.len() == n);
            }
            if n == 0 {
                return name.to_owned();
            }
            let mut out = String::from_str(name);
            if mode == RenderMode::Compact {
                out.append(" { ");
                let mut i: usize = 0;
                while i < n
                    invariant
                        0 < n == entries@.len(),
                        0 <= i <= n,
                        texts == braced_texts(crate::plan::entries_view(entries@),
                            values.deep_view()),
                        texts.len() == n,
                        spec_shape_wf(shape@, values@.len() as int),
                        shape@ == SpecShape::Braced(crate::plan::entries_view(entries@)),
                        out@ == name@ + " { "@ + join_comma(texts.take(i as int)),
                    decreases n - i,
                {
                    if i > 0 {
                        out.append(", ");
                    }
                    let e = &entries[i];
                    proof {
                        assert(spec_entries_wf(crate::plan::entries_view(entries@),
                            values@.len() as int));
                        assert(crate::plan::entries_view(entries@)[i as int] == entries@[i as int]@);
                    }
                    out.append(e.label.as_str());
                    out.append(": ");
                    let frag = fragment_text(&e.source, values);
                    out.append(frag.as_str());
                    proof {
                        assert(texts[i as int] == e.label@ + ": "@ + spec_fragment(e.source@,
                            values.deep_view()));
                        assert(texts.take(i as int + 1) =~= texts.take(i as int).push(
                            texts[i as int]));
                        lemma_join_push(texts.take(i as int), texts[i as int]);
                        assert(out@ =~= name@ + " { "@ + join_comma(texts.take(i as int + 1)));
                    }
                    i += 1;
                }
                out.append(" }");
                proof {
                    assert(texts.take(n as int) =~= texts);
                    assert(out@ =~= name@ + " { "@ + join_comma(texts) + " }"@);
                }
            } else {
                out.append(" {\n");
                let mut i: usize = 0;
                while i < n
                    invariant
                        0 < n == entries@.len(),
                        0 <= i <= n,
                        texts == braced_texts(crate::plan::entries_view(entries@),
                            values.deep_view()),
                        texts.len() == n,
                        spec_shape_wf(shape@, values@.len() as int),
                        shape@ == SpecShape::Braced(crate::plan::entries_view(entries@)),
                        out@ == name@ + " {\n"@ + pretty_block(texts.take(i as int)),
                    decreases n - i,
                {
                    let e = &entries[i];
                    proof {
                        assert(spec_entries_wf(crate::plan::entries_view(entries@),
                            values@.len() as int));
                        assert(crate::plan::entries_view(entries@)[i as int] == entries@[i as int]@);
                    }
                    let mut t = String::new();
                    t.append(e.label.as_str());
                    t.append(": ");
                    let frag = fragment_text(&e.source, values);
                    t.append(frag.as_str());
                    proof {
                        assert(t@ =~= texts[i as int]);
                        assert(texts.take(i as int + 1) =~= texts.take(i as int).push(
                            texts[i as int]));
                        lemma_pretty_push(texts.take(i as int), texts[i as int]);
                    }
                    out.append("    ");
                    append_padded(&mut out, t.as_str());
                    out.append(",\n");
                    proof {
                        assert(out@ =~= name@ + " {\n"@ + pretty_block(texts.take(i as int + 1)));
                    }
                    i += 1;
                }
                out.append("}");
                proof {
                    assert(texts.take(n as int) =~= texts);
                    assert(out@ =~= name@ + " {\n"@ + pretty_block(texts) + "}"@);
                }
            }
            out
        },
        ShapePlan::Tupled { sources } => {
            let ghost texts = tupled_texts(crate::plan::sources_view(sources@),
                values.deep_view());
            let n = sources.len();
            proof {
                assert(texts.len() == n);
            }
            if n == 0 {
                return name.to_owned();
            }
            let mut out = String::from_str(name);
            if mode == RenderMode::Compact {
                out.append("(");
                let mut i: usize = 0;
                while i < n
                    invariant
                        0 < n == sources@.len(),
                        0 <= i <= n,
                        texts == tupled_texts(crate::plan::sources_view(sources@),
                            values.deep_view()),
                        texts.len() == n,
                        spec_shape_wf(shape@, values@.len() as int),
                        shape@ == SpecShape::Tupled(crate::plan::sources_view(sources@)),
                        out@ == name@ + "("@ + join_comma(texts.take(i as int)),
                    decreases n - i,
                {
                    if i > 0 {
                        out.append(", ");
                    }
                    proof {
                        assert(spec_sources_wf(crate::plan::sources_view(sources@),
                            values@.len() as int));
                        assert(crate::plan::sources_view(sources@)[i as int] == sources@[i as int]@);
                    }
                    let frag = fragment_text(&sources[i], values);
                    out.append(frag.as_str());
                    proof {
                        assert(texts[i as int] == spec_fragment(sources@[i as int]@,
                            values.deep_view()));
                        assert(texts.take(i as int + 1) =~= texts.take(i as int).push(
                            texts[i as int]));
                        lemma_join_push(texts.take(i as int), texts[i as int]);
                        assert(out@ =~= name@ + "("@ + join_comma(texts.take(i as int + 1)));
                    }
                    i += 1;
                }
                if n == 1 && name.is_empty() {
                    out.append(",)");
                } else {
                    out.append(")");
                }
                proof {
                    assert(texts.take(n as int) =~= texts);
                    if n == 1 && name@.len() == 0 {
                        assert(out@ =~= name@ + "("@ + join_comma(texts) + ",)"@);
                    } else {
                        assert(out@ =~= name@ + "("@ + join_comma(texts) + ")"@);
                    }
                }
            } else {
                out.append("(\n");
                let mut i: usize = 0;
                while i < n
                    invariant
                        0 < n == sources@.len(),
                        0 <= i <= n,
                        texts == tupled_texts(crate::plan::sources_view(sources@),
                            values.deep_view()),
                        texts.len() == n,
                        spec_shape_wf(shape@, values@.len() as int),
                        shape@ == SpecShape::Tupled(crate::plan::sources_view(sources@)),
                        out@ == name@ + "(\n"@ + pretty_block(texts.take(i as int)),
                    decreases n - i,
                {
                    proof {
                        assert(spec_sources_wf(crate::plan::sources_view(sources@),
                            values@.len() as int));
                        assert(crate::plan::sources_view(sources@)[i as int] == sources@[i as int]@);
                    }
                    let frag = fragment_text(&sources[i], values);
                    proof {
                        assert(texts[i as int] == spec_fragment(sources@[i as int]@,
                            values.deep_view()));
                        assert(texts.take(i as int + 1) =~= texts.take(i as int).push(
                            texts[i as int]));
                        lemma_pretty_push(texts.take(i as int), texts[i as int]);
                    }
                    out.append("    ");
                    append_padded(&mut out, frag.as_str());
                    out.append(",\n");
                    proof {
                        assert(out@ =~= name@ + "(\n"@ + pretty_block(texts.take(i as int + 1)));
                    }
                    i += 1;
                }
                out.append(")");
                proof {
                    assert(texts.take(n as int) =~= texts);
                    assert(out@ =~= name@ + "(\n"@ + pretty_block(texts) + ")"@);
                }
            }
            out
        },
        ShapePlan::Bare => name.to_owned(),
    }
}

impl RenderPlan {
    /// Renders a record value: the fragments are the record's field
    /// texts, by declaration index.
    pub fn render_struct_value(&self, values: &Vec<String>, mode: RenderMode) -> (r: String)
        requires
            self@ matches SpecPlan::Struct(dn, shape) && spec_shape_wf(
                shape,
                values@.len() as int,
            ),
        ensures
            self@ matches SpecPlan::Struct(dn, shape) ==> r@ == spec_render_shape(
                dn,
                shape,
                values.deep_view(),
                mode,
            ),
    {
        match self {
            RenderPlan::Struct { display_name, shape } => render_shape(
                display_name.as_str(),
                shape,
                values,
                mode,
            ),
            RenderPlan::Enum { variants } => vstd::pervasive::unreached(),
        }
    }

    /// Renders one case of a tagged-union value: `case` picks the case
    /// the value is in, and the fragments are that case's field texts.
    /// For a union with no cases no call can satisfy the precondition:
    /// that rendering is unreachable.
    pub fn render_variant_value(&self, case: usize, values: &Vec<String>, mode: RenderMode) -> (r:
        String)
        requires
            self@ matches SpecPlan::Enum(ps) && case < ps.len() && spec_shape_wf(
                ps[case as int].shape,
                values@.len() as int,
            ),
        ensures
            self@ matches SpecPlan::Enum(ps) ==> r@ == spec_render_shape(
                ps[case as int].display_name,
                ps[case as int].shape,
                values.deep_view(),
                mode,
            ),
    {
        match self {
            RenderPlan::Enum { variants } => {
                let vp = &variants[case];
                proof {
                    assert(crate::plan::variants_view(variants@)[case as int] == vp@);
                }
                render_shape(vp.display_name.as_str(), &vp.shape, values, mode)
            },
            RenderPlan::Struct { display_name, shape } => vstd::pervasive::unreached(),
        }
    }
}

} // verus!
