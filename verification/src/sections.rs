//! Chart-level sections of the document: the library catalogue of semantic
//! types, the summary (fields, custom properties, origin) and the legend.
use vstd::prelude::*;

use crate::emit::{
    color_of, emit_font_full, emit_lcx_type, font_pairs, int_pair, lcx_type_text, push_int,
    push_pair, push_text, put_close, put_empty, put_open, resolve_color, text_pair, Pair,
};
use crate::interop::{
    LCX_NS,
    LCX_LOCALE_HEX, LCX_VERSION_BUILD, LCX_VERSION_MAJOR, LCX_VERSION_MINOR, LCX_VERSION_RELEASE,
};
use crate::items::{color_pair, flag_pair, ov, push_bool, push_color};
use crate::datetime::opt_view;
use crate::models::{LegendCfg, LegendItem, Settings, SummaryCfg};
use crate::semantic::{cat_view, catalogue, CatType, SemType, SemanticResolver};
use crate::text::{dec_int, i64_string, is_empty_str};
use crate::tokens::{
    arrow_of, arrow_token, dot_style_of, dot_style_token, legend_arrange_of, legend_arrange_token,
    legend_item_type_of, legend_item_type_token,
};
use crate::xml::{attr_views, close_line, line_text, Attr, Writer, XmlSink};

verus! {

// ── Library catalogue ───────────────────────────────────────────────────────

/// The catalogue entries of the first `k` types (or properties).
pub open spec fn lcx_entries_text(c: bool, d: nat, ts: Seq<SemType>, k: int, props: bool) -> Seq<char>
    decreases k,
{
    if k <= 0 {
        seq![]
    } else {
        lcx_entries_text(c, d, ts, k - 1, props) + if props {
            lcx_type_text(c, d, "lcx:Property"@, "pGUID"@, "baseProperty"@, "PropertyName"@, ts[k - 1])
        } else {
            lcx_type_text(c, d, "lcx:Type"@, "tGUID"@, "kindOf"@, "TypeName"@, ts[k - 1])
        }
    }
}

/// The catalogue's version and locale attributes.
pub open spec fn lcx_header() -> Seq<Pair> {
    seq![
        ("VersionMajor"@, LCX_VERSION_MAJOR@),
        ("VersionMinor"@, LCX_VERSION_MINOR@),
        ("VersionRelease"@, LCX_VERSION_RELEASE@),
        ("VersionBuild"@, LCX_VERSION_BUILD@),
        ("LocaleHex"@, LCX_LOCALE_HEX@),
    ]
}

/// The `<lcx:LibraryCatalogue>`: nothing without a catalogue, else the types
/// then the properties.
pub open spec fn catalogue_text(c: bool, d: nat, cat: Option<(Seq<SemType>, Seq<SemType>)>) -> Seq<char> {
    match cat {
        None => seq![],
        Some((ts, ps)) => line_text(c, d, "lcx:LibraryCatalogue"@, lcx_header(), false)
            + lcx_entries_text(c, d + 1, ts, ts.len() as int, false) + lcx_entries_text(
            c,
            d + 1,
            ps,
            ps.len() as int,
            true,
        ) + close_line(c, d, "lcx:LibraryCatalogue"@),
    }
}

#[verifier::spinoff_prover]
#[verifier::rlimit(60)]
fn emit_lcx_entries<'s, S: XmlSink>(w: &mut Writer<'s, S>, ts: &Vec<CatType>, props: bool)
    requires
        old(w).out.valid(),
        old(w).depth < usize::MAX - 3,
    ensures
        final(w).out.valid(),
        final(w).text() == old(w).text() + lcx_entries_text(
            old(w).compact,
            old(w).depth as nat,
            ts@.map_values(|t: CatType| cat_view(t)),
            ts@.len() as int,
            props,
        ),
        final(w).compact == old(w).compact,
        final(w).depth == old(w).depth,
        *final(final(w).out) == *final(old(w).out),
{
    let ghost tv = ts@.map_values(|t: CatType| cat_view(t));
    let ghost head = w.text();
    for i in 0..ts.len()
        invariant
            tv == ts@.map_values(|t: CatType| cat_view(t)),
            w.out.valid(),
            w.compact == old(w).compact,
            w.depth == old(w).depth,
            old(w).depth < usize::MAX - 3,
            *final(w.out) == *final(old(w).out),
            head == old(w).text(),
            w.text() == head + lcx_entries_text(w.compact, w.depth as nat, tv, i as int, props),
    {
        assert(tv[i as int] == cat_view(ts@[i as int]));
        let ghost before = w.text();
        if props {
            emit_lcx_type(w, "lcx:Property", "pGUID", "baseProperty", "PropertyName", &ts[i]);
        } else {
            emit_lcx_type(w, "lcx:Type", "tGUID", "kindOf", "TypeName", &ts[i]);
        }
        let ghost entry = if props {
            lcx_type_text(w.compact, w.depth as nat, "lcx:Property"@, "pGUID"@, "baseProperty"@, "PropertyName"@, tv[i as int])
        } else {
            lcx_type_text(w.compact, w.depth as nat, "lcx:Type"@, "tGUID"@, "kindOf"@, "TypeName"@, tv[i as int])
        };
        assert(w.text() == before + entry);
        assert(lcx_entries_text(w.compact, w.depth as nat, tv, i + 1, props) == lcx_entries_text(
            w.compact,
            w.depth as nat,
            tv,
            i as int,
            props,
        ) + entry);
        assert(w.text() =~= head + lcx_entries_text(w.compact, w.depth as nat, tv, i + 1, props));
    }
}

/// Emit the `<lcx:LibraryCatalogue>` of the resolver's referenced and defined
/// semantic types, if there is one.
#[verifier::spinoff_prover]
#[verifier::rlimit(60)]
pub fn emit_library_catalogue<'s, S: XmlSink>(w: &mut Writer<'s, S>, resolver: &SemanticResolver)
    requires
        old(w).out.valid(),
        old(w).depth < usize::MAX - 4,
    ensures
        final(w).out.valid(),
        final(w).text() == old(w).text() + catalogue_text(
            old(w).compact,
            old(w).depth as nat,
            catalogue(resolver.state()),
        ),
        final(w).compact == old(w).compact,
        final(w).depth == old(w).depth,
        *final(final(w).out) == *final(old(w).out),
{
    let (types, props) = match resolver.build_catalogue() {
        Some(tp) => tp,
        None => {
            assert(final(w).text() =~= old(w).text());
            return;
        },
    };
    let ghost ts = types@.map_values(|t: CatType| cat_view(t));
    let ghost ps = props@.map_values(|t: CatType| cat_view(t));
    assert(catalogue(resolver.state()) == Some((ts, ps)));
    let ghost c = w.compact;
    let ghost d = w.depth as nat;
    let mut a: Vec<Attr> = Vec::new();
    assert(attr_views(a@) =~= Seq::<Pair>::empty());
    push_pair(&mut a, "VersionMajor", LCX_VERSION_MAJOR.to_owned());
    push_pair(&mut a, "VersionMinor", LCX_VERSION_MINOR.to_owned());
    push_pair(&mut a, "VersionRelease", LCX_VERSION_RELEASE.to_owned());
    push_pair(&mut a, "VersionBuild", LCX_VERSION_BUILD.to_owned());
    push_pair(&mut a, "LocaleHex", LCX_LOCALE_HEX.to_owned());
    assert(attr_views(a@) =~= lcx_header());
    put_open(w, "lcx:LibraryCatalogue", &a);
    emit_lcx_entries(w, &types, false);
    emit_lcx_entries(w, &props, true);
    put_close(w, "lcx:LibraryCatalogue");
    assert(final(w).text() =~= old(w).text() + catalogue_text(c, d, Some((ts, ps))));
}

// ── Summary ─────────────────────────────────────────────────────────────────

/// The summary fields in document order, each with its value.
pub open spec fn summary_fields(s: SummaryCfg) -> Seq<(Seq<char>, Option<Seq<char>>)> {
    seq![
        ("SummaryFieldTitle"@, ov(s.title)),
        ("SummaryFieldSubject"@, ov(s.subject)),
        ("SummaryFieldKeywords"@, ov(s.keywords)),
        ("SummaryFieldCategory"@, ov(s.category)),
        ("SummaryFieldComments"@, ov(s.comments)),
        ("SummaryFieldAuthor"@, ov(s.author)),
        ("SummaryFieldTemplate"@, ov(s.template)),
    ]
}

/// Whether a field value is set and not empty.
pub open spec fn field_set(v: Option<Seq<char>>) -> bool {
    match v {
        Some(x) => x.len() > 0,
        None => false,
    }
}

/// The `<Field>` lines of the first `k` fields that are set and not empty.
pub open spec fn field_lines(c: bool, d: nat, f: Seq<(Seq<char>, Option<Seq<char>>)>, k: int) -> Seq<char>
    decreases k,
{
    if k <= 0 {
        seq![]
    } else {
        field_lines(c, d, f, k - 1) + if field_set(f[k - 1].1) {
            line_text(c, d, "Field"@, seq![("Type"@, f[k - 1].0), ("Field"@, f[k - 1].1.unwrap())], true)
        } else {
            seq![]
        }
    }
}

/// The `<CustomProperty>` lines of the first `k` custom properties.
pub open spec fn property_lines(c: bool, d: nat, s: SummaryCfg, k: int) -> Seq<char>
    decreases k,
{
    if k <= 0 {
        seq![]
    } else {
        property_lines(c, d, s, k - 1) + line_text(
            c,
            d,
            "CustomProperty"@,
            seq![
                ("Name"@, s.custom_properties@[k - 1].name@),
                ("Type"@, "String"@),
                ("Value"@, s.custom_properties@[k - 1].value@),
            ],
            true,
        )
    }
}

/// The `<Summary>`: nothing when no field is set and there are no custom
/// properties; otherwise the set fields, the custom properties, and the
/// `<Origin>` (the configured creation date, else `now`; edit time 0 and
/// revision 1 unless set).
/// Whether any summary field is set and not empty.
pub open spec fn has_summary_fields(s: SummaryCfg) -> bool {
    exists|i: int| 0 <= i < 7 && field_set(#[trigger] summary_fields(s)[i].1)
}

/// The `<Origin>` attributes.
pub open spec fn origin_pairs(s: SummaryCfg, now: Seq<char>) -> Seq<Pair> {
    seq![
        ("CreatedDate"@, match ov(s.created) {
            Some(x) => x,
            None => now,
        }),
        ("EditTime"@, dec_int(match s.edit_time {
            Some(x) => x,
            None => 0,
        } as int)),
        ("RevisionNumber"@, dec_int(match s.revision {
            Some(x) => x,
            None => 1,
        } as int)),
    ]
}

#[verifier::opaque]
pub open spec fn summary_text(c: bool, d: nat, s: SummaryCfg, now: Seq<char>) -> Seq<char> {
    let f = summary_fields(s);
    let has_fields = has_summary_fields(s);
    let ncp = s.custom_properties@.len();
    if !has_fields && ncp == 0 {
        seq![]
    } else {
        line_text(c, d, "Summary"@, seq![], false) + (if has_fields {
            line_text(c, d + 1, "FieldCollection"@, seq![], false) + field_lines(c, d + 2, f, 7)
                + close_line(c, d + 1, "FieldCollection"@)
        } else {
            seq![]
        }) + (if ncp > 0 {
            line_text(c, d + 1, "CustomPropertyCollection"@, seq![], false) + property_lines(
                c,
                d + 2,
                s,
                ncp as int,
            ) + close_line(c, d + 1, "CustomPropertyCollection"@)
        } else {
            seq![]
        }) + line_text(c, d + 1, "Origin"@, origin_pairs(s, now), true) + close_line(c, d, "Summary"@)
    }
}

fn summary_field_list(s: &SummaryCfg) -> (v: Vec<(&'static str, &Option<String>)>)
    ensures
        v@.len() == 7,
        v@.map_values(|p: (&'static str, &Option<String>)| (p.0@, ov(*p.1))) == summary_fields(*s),
{
    let v: Vec<(&'static str, &Option<String>)> = vec![
        ("SummaryFieldTitle", &s.title),
        ("SummaryFieldSubject", &s.subject),
        ("SummaryFieldKeywords", &s.keywords),
        ("SummaryFieldCategory", &s.category),
        ("SummaryFieldComments", &s.comments),
        ("SummaryFieldAuthor", &s.author),
        ("SummaryFieldTemplate", &s.template),
    ];
    assert(v@.map_values(|p: (&'static str, &Option<String>)| (p.0@, ov(*p.1))) =~= summary_fields(*s));
    v
}

fn emit_summary_fields<'s, S: XmlSink>(w: &mut Writer<'s, S>, s: &SummaryCfg)
    requires
        old(w).out.valid(),
        old(w).depth < usize::MAX - 2,
    ensures
        final(w).out.valid(),
        final(w).text() == old(w).text() + line_text(
            old(w).compact,
            old(w).depth as nat,
            "FieldCollection"@,
            seq![],
            false,
        ) + field_lines(old(w).compact, (old(w).depth + 1) as nat, summary_fields(*s), 7) + close_line(
            old(w).compact,
            old(w).depth as nat,
            "FieldCollection"@,
        ),
        final(w).compact == old(w).compact,
        final(w).depth == old(w).depth,
        *final(final(w).out) == *final(old(w).out),
{
    let none: Vec<Attr> = Vec::new();
    assert(attr_views(none@) =~= Seq::<Pair>::empty());
    put_open(w, "FieldCollection", &none);
    let ghost head = w.text();
    let fields = summary_field_list(s);
    let ghost fv = summary_fields(*s);
    for i in 0..7usize
        invariant
            fields@.len() == 7,
            fields@.map_values(|p: (&'static str, &Option<String>)| (p.0@, ov(*p.1))) == fv,
            fv == summary_fields(*s),
            w.out.valid(),
            w.compact == old(w).compact,
            w.depth == old(w).depth + 1,
            old(w).depth < usize::MAX - 2,
            *final(w.out) == *final(old(w).out),
            w.text() == head + field_lines(w.compact, w.depth as nat, fv, i as int),
    {
        let (ty, val) = fields[i];
        assert(fv[i as int] == (ty@, ov(*val)));
        let ghost before = w.text();
        match val {
            Some(v) => {
                if !is_empty_str(v.as_str()) {
                    let mut a: Vec<Attr> = Vec::new();
                    assert(attr_views(a@) =~= Seq::<Pair>::empty());
                    push_pair(&mut a, "Type", ty.to_owned());
                    push_pair(&mut a, "Field", v.clone());
                    assert(attr_views(a@) =~= seq![("Type"@, ty@), ("Field"@, v@)]);
                    put_empty(w, "Field", &a);
                }
            },
            None => {},
        }
        assert(w.text() =~= head + field_lines(w.compact, w.depth as nat, fv, i + 1));
    }
    put_close(w, "FieldCollection");
}

fn emit_custom_properties<'s, S: XmlSink>(w: &mut Writer<'s, S>, s: &SummaryCfg)
    requires
        old(w).out.valid(),
        old(w).depth < usize::MAX - 2,
    ensures
        final(w).out.valid(),
        final(w).text() == old(w).text() + line_text(
            old(w).compact,
            old(w).depth as nat,
            "CustomPropertyCollection"@,
            seq![],
            false,
        ) + property_lines(
            old(w).compact,
            (old(w).depth + 1) as nat,
            *s,
            s.custom_properties@.len() as int,
        ) + close_line(old(w).compact, old(w).depth as nat, "CustomPropertyCollection"@),
        final(w).compact == old(w).compact,
        final(w).depth == old(w).depth,
        *final(final(w).out) == *final(old(w).out),
{
    let none: Vec<Attr> = Vec::new();
    assert(attr_views(none@) =~= Seq::<Pair>::empty());
    put_open(w, "CustomPropertyCollection", &none);
    let ghost head = w.text();
    for i in 0..s.custom_properties.len()
        invariant
            w.out.valid(),
            w.compact == old(w).compact,
            w.depth == old(w).depth + 1,
            old(w).depth < usize::MAX - 2,
            *final(w.out) == *final(old(w).out),
            w.text() == head + property_lines(w.compact, w.depth as nat, *s, i as int),
    {
        let cp = &s.custom_properties[i];
        let mut a: Vec<Attr> = Vec::new();
        assert(attr_views(a@) =~= Seq::<Pair>::empty());
        push_pair(&mut a, "Name", cp.name.clone());
        push_pair(&mut a, "Type", "String".to_owned());
        push_pair(&mut a, "Value", cp.value.clone());
        assert(attr_views(a@) =~= seq![("Name"@, cp.name@), ("Type"@, "String"@), ("Value"@, cp.value@)]);
        put_empty(w, "CustomProperty", &a);
    }
    put_close(w, "CustomPropertyCollection");
}

fn any_field_set(s: &SummaryCfg) -> (r: bool)
    ensures
        r == has_summary_fields(*s),
{
    let fields = summary_field_list(s);
    let ghost fv = summary_fields(*s);
    for i in 0..7usize
        invariant
            fields@.len() == 7,
            fields@.map_values(|p: (&'static str, &Option<String>)| (p.0@, ov(*p.1))) == fv,
            fv == summary_fields(*s),
            forall|j: int| 0 <= j < i ==> !field_set(#[trigger] fv[j].1),
    {
        let (_, val) = fields[i];
        assert(fv[i as int].1 == ov(*val));
        match val {
            Some(v) => {
                if !is_empty_str(v.as_str()) {
                    return true;
                }
            },
            None => {},
        }
    }
    false
}

fn emit_origin<'s, S: XmlSink>(w: &mut Writer<'s, S>, s: &SummaryCfg, now: &str)
    requires
        old(w).out.valid(),
    ensures
        final(w).out.valid(),
        final(w).text() == old(w).text() + line_text(
            old(w).compact,
            old(w).depth as nat,
            "Origin"@,
            origin_pairs(*s, now@),
            true,
        ),
        final(w).compact == old(w).compact,
        final(w).depth == old(w).depth,
        *final(final(w).out) == *final(old(w).out),
{
    let created = match &s.created {
        Some(x) => x.clone(),
        None => now.to_owned(),
    };
    let edit: i64 = match s.edit_time {
        Some(x) => x,
        None => 0,
    };
    let rev: i64 = match s.revision {
        Some(x) => x,
        None => 1,
    };
    let mut o: Vec<Attr> = Vec::new();
    assert(attr_views(o@) =~= Seq::<Pair>::empty());
    push_pair(&mut o, "CreatedDate", created);
    push_pair(&mut o, "EditTime", i64_string(edit));
    push_pair(&mut o, "RevisionNumber", i64_string(rev));
    assert(attr_views(o@) =~= origin_pairs(*s, now@));
    put_empty(w, "Origin", &o);
}

/// Emit the `<Summary>`; `now` is the creation date used when the summary
/// sets none.
#[verifier::spinoff_prover]
#[verifier::rlimit(100)]
pub fn emit_summary<'s, S: XmlSink>(w: &mut Writer<'s, S>, s: &SummaryCfg, now: &str)
    requires
        old(w).out.valid(),
        old(w).depth < usize::MAX - 3,
    ensures
        final(w).out.valid(),
        final(w).text() == old(w).text() + summary_text(old(w).compact, old(w).depth as nat, *s, now@),
        final(w).compact == old(w).compact,
        final(w).depth == old(w).depth,
        *final(final(w).out) == *final(old(w).out),
{
    let has_fields = any_field_set(s);
    let ncp = s.custom_properties.len();
    if !has_fields && ncp == 0 {
        assert(summary_text(old(w).compact, old(w).depth as nat, *s, now@) == Seq::<char>::empty()) by {
            reveal(summary_text);
        }
        assert(final(w).text() =~= old(w).text());
        return;
    }
    let ghost c = w.compact;
    let ghost d = w.depth as nat;
    let none: Vec<Attr> = Vec::new();
    assert(attr_views(none@) =~= Seq::<Pair>::empty());
    put_open(w, "Summary", &none);
    let ghost t1 = w.text();
    assert(t1 == old(w).text() + line_text(c, d, "Summary"@, seq![], false));
    if has_fields {
        emit_summary_fields(w, s);
    }
    let ghost t2 = w.text();
    if ncp > 0 {
        emit_custom_properties(w, s);
    }
    let ghost t3 = w.text();
    emit_origin(w, s, now);
    let ghost t4 = w.text();
    put_close(w, "Summary");
    let ghost fpart = if has_fields {
        line_text(c, d + 1, "FieldCollection"@, seq![], false) + field_lines(c, d + 2, summary_fields(*s), 7)
            + close_line(c, d + 1, "FieldCollection"@)
    } else {
        seq![]
    };
    let ghost ppart = if ncp > 0 {
        line_text(c, d + 1, "CustomPropertyCollection"@, seq![], false) + property_lines(
            c,
            d + 2,
            *s,
            ncp as int,
        ) + close_line(c, d + 1, "CustomPropertyCollection"@)
    } else {
        seq![]
    };
    assert(t2 == t1 + fpart);
    assert(t3 == t2 + ppart);
    assert(t4 == t3 + line_text(c, d + 1, "Origin"@, origin_pairs(*s, now@), true));
    assert(final(w).text() == t4 + close_line(c, d, "Summary"@));
    assert(summary_text(c, d, *s, now@) == line_text(c, d, "Summary"@, seq![], false) + fpart + ppart
        + line_text(c, d + 1, "Origin"@, origin_pairs(*s, now@), true) + close_line(c, d, "Summary"@)) by {
        reveal(summary_text);
    }
    assert(final(w).text() =~= old(w).text() + summary_text(c, d, *s, now@));
}

// ── Legend ──────────────────────────────────────────────────────────────────

/// Whether the legend font overrides anything.
pub open spec fn legend_font_set(lc: LegendCfg) -> bool {
    let f = lc.font;
    f.name is Some || f.size is Some || f.color is Some || f.bg_color is Some || f.bold is Some
        || f.italic is Some || f.strikeout is Some || f.underline is Some
}

/// Whether the legend sets any attribute.
pub open spec fn legend_attrs_set(lc: LegendCfg) -> bool {
    lc.arrange is Some || lc.valign is Some || lc.halign is Some || lc.x is Some || lc.y is Some
        || lc.show is Some
}

/// The `<LegendDefinition>` attributes: the arrangement (wide by default),
/// position and visibility.
pub open spec fn legend_pairs(lc: LegendCfg) -> Seq<Pair> {
    seq![("Arrange"@, legend_arrange_of(match ov(lc.arrange) {
        Some(a) => a,
        None => "wide"@,
    }))] + int_pair("X"@, lc.x) + int_pair("Y"@, lc.y) + flag_pair("Shown"@, lc.show)
}

/// A `<LegendItem>`'s attributes.
pub open spec fn legend_item_pairs(li: LegendItem) -> Seq<Pair> {
    seq![
        ("Type"@, legend_item_type_of(match ov(li.item_type) {
            Some(t) => t,
            None => "font"@,
        })),
        ("Label"@, li.name@),
    ] + text_pair("ImageName"@, li.image_name) + color_pair("Colour"@, color_of(li.color))
        + int_pair("LineWidth"@, li.line_width) + (match ov(li.arrows) {
        Some(a) => match arrow_of(a) {
            Some(t) => seq![("Arrows"@, t)],
            None => seq![],
        },
        None => seq![],
    }) + (match ov(li.dash_style) {
        Some(ds) => seq![("DashStyle"@, dot_style_of(ds))],
        None => seq![],
    }) + color_pair("ShadeColour"@, color_of(li.shade_color))
}

/// The `<LegendItem>` lines of the first `k` items.
pub open spec fn legend_item_lines(c: bool, d: nat, items: Seq<LegendItem>, k: int) -> Seq<char>
    decreases k,
{
    if k <= 0 {
        seq![]
    } else {
        legend_item_lines(c, d, items, k - 1) + line_text(
            c,
            d,
            "LegendItem"@,
            legend_item_pairs(items[k - 1]),
            true,
        )
    }
}

/// The `<LegendDefinition>`: nothing without attributes, a font override or
/// items; otherwise its attributes, the full font when overridden (10 point
/// by default), and the items.
pub open spec fn legend_text(c: bool, d: nat, lc: LegendCfg, items: Seq<LegendItem>) -> Seq<char> {
    if !legend_attrs_set(lc) && !legend_font_set(lc) && items.len() == 0 {
        seq![]
    } else {
        line_text(c, d, "LegendDefinition"@, legend_pairs(lc), false) + (if legend_font_set(lc) {
            line_text(c, d + 1, "Font"@, font_pairs(lc.font, 10), true)
        } else {
            seq![]
        }) + legend_item_lines(c, d + 1, items, items.len() as int) + close_line(
            c,
            d,
            "LegendDefinition"@,
        )
    }
}

fn push_arrows(a: &mut Vec<Attr<'static>>, arrows: &Option<String>)
    ensures
        attr_views(final(a)@) == attr_views(old(a)@) + match ov(*arrows) {
            Some(x) => match arrow_of(x) {
                Some(t) => seq![("Arrows"@, t)],
                None => Seq::<Pair>::empty(),
            },
            None => Seq::<Pair>::empty(),
        },
{
    match arrows {
        Some(ar) => match arrow_token(ar.as_str()) {
            Some(t) => push_pair(a, "Arrows", t.to_owned()),
            None => {
                assert(attr_views(a@) =~= attr_views(old(a)@));
            },
        },
        None => {
            assert(attr_views(a@) =~= attr_views(old(a)@));
        },
    }
}

fn push_dash(a: &mut Vec<Attr<'static>>, dash: &Option<String>)
    ensures
        attr_views(final(a)@) == attr_views(old(a)@) + match ov(*dash) {
            Some(ds) => seq![("DashStyle"@, dot_style_of(ds))],
            None => Seq::<Pair>::empty(),
        },
{
    match dash {
        Some(ds) => push_pair(a, "DashStyle", dot_style_token(ds.as_str()).to_owned()),
        None => {
            assert(attr_views(a@) =~= attr_views(old(a)@));
        },
    }
}

#[verifier::spinoff_prover]
#[verifier::rlimit(60)]
fn legend_item_attrs(li: &LegendItem) -> (a: Vec<Attr<'static>>)
    ensures
        attr_views(a@) == legend_item_pairs(*li),
{
    let mut a: Vec<Attr> = Vec::new();
    assert(attr_views(a@) =~= Seq::<Pair>::empty());
    let ty = match &li.item_type {
        Some(t) => t.as_str(),
        None => "font",
    };
    push_pair(&mut a, "Type", legend_item_type_token(ty));
    push_pair(&mut a, "Label", li.name.clone());
    push_text(&mut a, "ImageName", &li.image_name);
    push_color(&mut a, "Colour", resolve_color(&li.color));
    push_int(&mut a, "LineWidth", li.line_width);
    push_arrows(&mut a, &li.arrows);
    push_dash(&mut a, &li.dash_style);
    push_color(&mut a, "ShadeColour", resolve_color(&li.shade_color));
    assert(attr_views(a@) =~= legend_item_pairs(*li));
    a
}

fn legend_attrs(lc: &LegendCfg) -> (a: Vec<Attr<'static>>)
    ensures
        attr_views(a@) == legend_pairs(*lc),
{
    let mut a: Vec<Attr> = Vec::new();
    assert(attr_views(a@) =~= Seq::<Pair>::empty());
    let ar = match &lc.arrange {
        Some(x) => x.as_str(),
        None => "wide",
    };
    push_pair(&mut a, "Arrange", legend_arrange_token(ar));
    push_int(&mut a, "X", lc.x);
    push_int(&mut a, "Y", lc.y);
    push_bool(&mut a, "Shown", lc.show);
    assert(attr_views(a@) =~= legend_pairs(*lc));
    a
}

/// Emit the `<LegendDefinition>` when the legend has attributes, a font
/// override or items.
#[verifier::spinoff_prover]
#[verifier::rlimit(60)]
pub fn emit_legend<'s, S: XmlSink>(w: &mut Writer<'s, S>, lc: &LegendCfg, items: &Vec<LegendItem>)
    requires
        old(w).out.valid(),
        old(w).depth < usize::MAX - 2,
    ensures
        final(w).out.valid(),
        final(w).text() == old(w).text() + legend_text(old(w).compact, old(w).depth as nat, *lc, items@),
        final(w).compact == old(w).compact,
        final(w).depth == old(w).depth,
        *final(final(w).out) == *final(old(w).out),
{
    let f = &lc.font;
    let font_ov = f.name.is_some() || f.size.is_some() || f.color.is_some() || f.bg_color.is_some()
        || f.bold.is_some() || f.italic.is_some() || f.strikeout.is_some() || f.underline.is_some();
    let has_attrs = lc.arrange.is_some() || lc.valign.is_some() || lc.halign.is_some() || lc.x.is_some()
        || lc.y.is_some() || lc.show.is_some();
    if !has_attrs && !font_ov && items.len() == 0 {
        assert(final(w).text() =~= old(w).text());
        return;
    }
    let ghost c = w.compact;
    let ghost d = w.depth as nat;
    let a = legend_attrs(lc);
    put_open(w, "LegendDefinition", &a);
    let ghost t1 = w.text();
    if font_ov {
        emit_font_full(w, f, 10);
    }
    let ghost t2 = w.text();
    for i in 0..items.len()
        invariant
            w.out.valid(),
            w.compact == c,
            w.depth == d + 1,
            d + 1 < usize::MAX - 1,
            *final(w.out) == *final(old(w).out),
            w.text() == t2 + legend_item_lines(c, d + 1, items@, i as int),
    {
        let ia = legend_item_attrs(&items[i]);
        put_empty(w, "LegendItem", &ia);
    }
    put_close(w, "LegendDefinition");
    assert(final(w).text() =~= old(w).text() + legend_text(c, d, *lc, items@));
}

// ── Chart attributes ────────────────────────────────────────────────────────

/// A grid size, written as given.
pub open spec fn size_pair(name: Seq<char>, v: Option<Seq<char>>) -> Seq<Pair> {
    match v {
        Some(x) => seq![(name, x)],
        None => seq![],
    }
}

/// The `<Chart>` attributes: the catalogue namespace when a catalogue is
/// written, then each set chart, grid, view, link and time flag, the
/// background color, and the grid sizes (as written from their values).
#[verifier::opaque]
pub open spec fn chart_attr_pairs(
    s: Settings,
    has_catalogue: bool,
    grid_width: Option<Seq<char>>,
    grid_height: Option<Seq<char>>,
) -> Seq<Pair> {
    (if has_catalogue {
        seq![("xmlns:lcx"@, LCX_NS@)]
    } else {
        Seq::<Pair>::empty()
    }) + flag_pair("IsBackColourFilled"@, s.chart.bg_filled) + flag_pair("Rigorous"@, s.chart.rigorous) + flag_pair(
        "IdReferenceLinking"@,
        s.chart.id_reference_linking,
    ) + flag_pair("SnapToGrid"@, s.grid.snap) + flag_pair("GridVisibleOnAllViews"@, s.grid.visible) + flag_pair(
        "ShowAllFlag"@,
        s.view.show_all,
    ) + flag_pair("ShowPages"@, s.view.show_pages_boundaries) + flag_pair(
        "CoverSheetShowOnOpen"@,
        s.view.cover_sheet_on_open,
    ) + flag_pair("TimeBarVisible"@, s.view.time_bar) + flag_pair("BlankLinkLabels"@, s.links_cfg.blank_labels)
        + flag_pair("LabelSumNumericLinks"@, s.links_cfg.sum_numeric_labels) + flag_pair(
        "UseLocalTimeZone"@,
        s.time.local_tz,
    ) + flag_pair("HideMatchingTimeZoneFormat"@, s.time.hide_matching_tz_format) + color_pair(
        "BackColour"@,
        color_of(s.chart.bg_color),
    ) + size_pair("GridWidthSize"@, grid_width) + size_pair("GridHeightSize"@, grid_height)
}

fn push_size(a: &mut Vec<Attr<'static>>, name: &'static str, v: Option<&str>)
    ensures
        attr_views(final(a)@) == attr_views(old(a)@) + size_pair(name@, opt_view(v)),
{
    match v {
        Some(x) => push_pair(a, name, x.to_owned()),
        None => {
            assert(attr_views(a@) =~= attr_views(old(a)@) + size_pair(name@, opt_view(v)));
        },
    }
}

/// The `<Chart>` element's attributes. The grid sizes come as the text of
/// their values.
#[verifier::spinoff_prover]
#[verifier::rlimit(50)]
pub fn chart_attrs(
    s: &Settings,
    resolver: &SemanticResolver,
    grid_width: Option<&str>,
    grid_height: Option<&str>,
) -> (a: Vec<Attr<'static>>)
    ensures
        attr_views(a@) == chart_attr_pairs(
            *s,
            catalogue(resolver.state()) is Some,
            opt_view(grid_width),
            opt_view(grid_height),
        ),
{
    let mut a: Vec<Attr> = Vec::new();
    assert(attr_views(a@) =~= Seq::<Pair>::empty());
    let has = resolver.build_catalogue().is_some();
    if has {
        push_pair(&mut a, "xmlns:lcx", LCX_NS.to_owned());
    }
    let ghost p0 = attr_views(a@);
    push_bool(&mut a, "IsBackColourFilled", s.chart.bg_filled);
    push_bool(&mut a, "Rigorous", s.chart.rigorous);
    push_bool(&mut a, "IdReferenceLinking", s.chart.id_reference_linking);
    push_bool(&mut a, "SnapToGrid", s.grid.snap);
    push_bool(&mut a, "GridVisibleOnAllViews", s.grid.visible);
    push_bool(&mut a, "ShowAllFlag", s.view.show_all);
    push_bool(&mut a, "ShowPages", s.view.show_pages_boundaries);
    push_bool(&mut a, "CoverSheetShowOnOpen", s.view.cover_sheet_on_open);
    push_bool(&mut a, "TimeBarVisible", s.view.time_bar);
    push_bool(&mut a, "BlankLinkLabels", s.links_cfg.blank_labels);
    push_bool(&mut a, "LabelSumNumericLinks", s.links_cfg.sum_numeric_labels);
    push_bool(&mut a, "UseLocalTimeZone", s.time.local_tz);
    push_bool(&mut a, "HideMatchingTimeZoneFormat", s.time.hide_matching_tz_format);
    push_color(&mut a, "BackColour", resolve_color(&s.chart.bg_color));
    push_size(&mut a, "GridWidthSize", grid_width);
    push_size(&mut a, "GridHeightSize", grid_height);
    proof {
        reveal(chart_attr_pairs);
        assert(p0 =~= if catalogue(resolver.state()) is Some {
            seq![("xmlns:lcx"@, LCX_NS@)]
        } else {
            Seq::<Pair>::empty()
        });
        assert(attr_views(a@) =~= chart_attr_pairs(
            *s,
            catalogue(resolver.state()) is Some,
            opt_view(grid_width),
            opt_view(grid_height),
        ));
    }
    a
}

} // verus!
