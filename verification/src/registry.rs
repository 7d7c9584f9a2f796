//! The chart's registries as they stand when the document is written: the
//! strengths, date-time formats, grade and source-hint strings, entity and
//! link types and connection styles, each entry with the id minted for it, and
//! the collections they become in the document.
use vstd::prelude::*;

use crate::emit::{color_of, push_pair, push_text, put_close, put_empty, put_open, resolve_color, text_pair, Pair};
use crate::enums::{EnumMeta, MergeBehaviour};
use crate::emit::{int_pair, push_int};
use crate::items::{color_pair, flag_pair, push_bool, push_color};
use crate::maps::lookup;
use crate::models::{AttributeClass, EntityType, Link, LinkType, Palette, PaletteAttributeEntry};
use crate::text::{dec_int, i64_string, is_empty_str, str_eq};
use crate::tokens::{b, bool_text, merge_behaviour_of, merge_behaviour_token, multiplicity_of, multiplicity_token, representation_of, representation_token, theme_wiring_of, theme_wiring_token};
use crate::xml::{attr_views, close_line, line_text, Attr, Writer, XmlSink};

verus! {

// ── Strengths ───────────────────────────────────────────────────────────────

/// A registered strength: its name, minted id and dot-style token.
#[derive(Debug)]
pub struct StrengthEntry {
    pub name: String,
    pub id: String,
    pub dot_token: String,
}

pub open spec fn strength_attrs(e: StrengthEntry) -> Seq<Pair> {
    seq![("Id"@, e.id@), ("Name"@, e.name@), ("DotStyle"@, e.dot_token@)]
}

/// The `<Strength>` lines of the first `k` strengths.
pub open spec fn strength_lines(c: bool, d: nat, s: Seq<StrengthEntry>, k: int) -> Seq<char>
    decreases k,
{
    if k <= 0 {
        seq![]
    } else {
        strength_lines(c, d, s, k - 1) + line_text(c, d, "Strength"@, strength_attrs(s[k - 1]), true)
    }
}

/// The `<StrengthCollection>`, written even when empty.
pub open spec fn strengths_text(c: bool, d: nat, s: Seq<StrengthEntry>) -> Seq<char> {
    line_text(c, d, "StrengthCollection"@, seq![], false) + strength_lines(c, d + 1, s, s.len() as int)
        + close_line(c, d, "StrengthCollection"@)
}

/// The name a link's strength is registered under: its own, else the
/// chart's default strength, else `Default`.
pub open spec fn strength_name(default: Option<Seq<char>>, name: Option<Seq<char>>) -> Seq<char> {
    match name {
        Some(n) => n,
        None => match default {
            Some(d) => d,
            None => "Default"@,
        },
    }
}

pub fn choose_strength_name(default: Option<&str>, name: Option<&str>) -> (r: String)
    ensures
        r@ == strength_name(crate::datetime::opt_view(default), crate::datetime::opt_view(name)),
{
    match name {
        Some(n) => n.to_owned(),
        None => match default {
            Some(d) => d.to_owned(),
            None => "Default".to_owned(),
        },
    }
}

/// Emit the `<StrengthCollection>` of the registered strengths, in order.
#[verifier::spinoff_prover]
pub fn emit_strengths<'s, S: XmlSink>(w: &mut Writer<'s, S>, s: &Vec<StrengthEntry>)
    requires
        old(w).out.valid(),
        old(w).depth < usize::MAX - 1,
    ensures
        final(w).out.valid(),
        final(w).text() == old(w).text() + strengths_text(old(w).compact, old(w).depth as nat, s@),
        final(w).compact == old(w).compact,
        final(w).depth == old(w).depth,
        *final(final(w).out) == *final(old(w).out),
{
    let none: Vec<Attr> = Vec::new();
    assert(attr_views(none@) =~= Seq::<Pair>::empty());
    put_open(w, "StrengthCollection", &none);
    let ghost head = w.text();
    for i in 0..s.len()
        invariant
            w.out.valid(),
            w.compact == old(w).compact,
            w.depth == old(w).depth + 1,
            old(w).depth < usize::MAX - 1,
            *final(w.out) == *final(old(w).out),
            w.text() == head + strength_lines(w.compact, w.depth as nat, s@, i as int),
    {
        let e = &s[i];
        let mut a: Vec<Attr> = Vec::new();
        assert(attr_views(a@) =~= Seq::<Pair>::empty());
        push_pair(&mut a, "Id", e.id.clone());
        push_pair(&mut a, "Name", e.name.clone());
        push_pair(&mut a, "DotStyle", e.dot_token.clone());
        assert(attr_views(a@) =~= strength_attrs(s@[i as int]));
        put_empty(w, "Strength", &a);
    }
    put_close(w, "StrengthCollection");
}

// ── Date-time formats ───────────────────────────────────────────────────────

/// A registered date-time format: its id, name and format text.
#[derive(Debug)]
pub struct DateTimeFormatEntry {
    pub id: String,
    pub name: String,
    pub format: String,
}

/// `Id` and `Name`, and the `Format` when it is not empty.
pub open spec fn datetime_format_attrs(e: DateTimeFormatEntry) -> Seq<Pair> {
    seq![("Id"@, e.id@), ("Name"@, e.name@)] + if e.format@.len() > 0 {
        seq![("Format"@, e.format@)]
    } else {
        Seq::<Pair>::empty()
    }
}

pub open spec fn datetime_format_lines(c: bool, d: nat, f: Seq<DateTimeFormatEntry>, k: int) -> Seq<char>
    decreases k,
{
    if k <= 0 {
        seq![]
    } else {
        datetime_format_lines(c, d, f, k - 1) + line_text(
            c,
            d,
            "DateTimeFormat"@,
            datetime_format_attrs(f[k - 1]),
            true,
        )
    }
}

/// The `<DateTimeFormatCollection>`; nothing when there is no format.
pub open spec fn datetime_formats_text(c: bool, d: nat, f: Seq<DateTimeFormatEntry>) -> Seq<char> {
    if f.len() == 0 {
        seq![]
    } else {
        line_text(c, d, "DateTimeFormatCollection"@, seq![], false) + datetime_format_lines(
            c,
            d + 1,
            f,
            f.len() as int,
        ) + close_line(c, d, "DateTimeFormatCollection"@)
    }
}

/// Emit the `<DateTimeFormatCollection>` of the registered formats.
#[verifier::spinoff_prover]
pub fn emit_datetime_formats<'s, S: XmlSink>(w: &mut Writer<'s, S>, f: &Vec<DateTimeFormatEntry>)
    requires
        old(w).out.valid(),
        old(w).depth < usize::MAX - 1,
    ensures
        final(w).out.valid(),
        final(w).text() == old(w).text() + datetime_formats_text(old(w).compact, old(w).depth as nat, f@),
        final(w).compact == old(w).compact,
        final(w).depth == old(w).depth,
        *final(final(w).out) == *final(old(w).out),
{
    if f.len() == 0 {
        assert(final(w).text() =~= old(w).text());
        return;
    }
    let none: Vec<Attr> = Vec::new();
    assert(attr_views(none@) =~= Seq::<Pair>::empty());
    put_open(w, "DateTimeFormatCollection", &none);
    let ghost head = w.text();
    for i in 0..f.len()
        invariant
            w.out.valid(),
            w.compact == old(w).compact,
            w.depth == old(w).depth + 1,
            old(w).depth < usize::MAX - 1,
            *final(w.out) == *final(old(w).out),
            w.text() == head + datetime_format_lines(w.compact, w.depth as nat, f@, i as int),
    {
        let e = &f[i];
        let mut a: Vec<Attr> = Vec::new();
        assert(attr_views(a@) =~= Seq::<Pair>::empty());
        push_pair(&mut a, "Id", e.id.clone());
        push_pair(&mut a, "Name", e.name.clone());
        if !is_empty_str(e.format.as_str()) {
            push_pair(&mut a, "Format", e.format.clone());
        }
        assert(attr_views(a@) =~= datetime_format_attrs(f@[i as int]));
        put_empty(w, "DateTimeFormat", &a);
    }
    put_close(w, "DateTimeFormatCollection");
}

// ── Grades and source hints ─────────────────────────────────────────────────

/// The strings of one grade dimension (or of the source hints), each with the
/// id minted for it.
#[derive(Debug, Default)]
pub struct StringCollection {
    pub items: Vec<String>,
    pub ids: Vec<String>,
}

pub open spec fn string_lines(c: bool, d: nat, items: Seq<String>, ids: Seq<String>, k: int) -> Seq<char>
    decreases k,
{
    if k <= 0 {
        seq![]
    } else {
        string_lines(c, d, items, ids, k - 1) + line_text(
            c,
            d,
            "String"@,
            seq![("Id"@, ids[k - 1]@), ("Text"@, items[k - 1]@)],
            true,
        )
    }
}

/// A `<tag><StringCollection>…</StringCollection></tag>` section; nothing
/// when there is no string.
#[verifier::opaque]
pub open spec fn string_section_text(c: bool, d: nat, tag: Seq<char>, sc: StringCollection) -> Seq<char> {
    if sc.items@.len() == 0 {
        seq![]
    } else {
        line_text(c, d, tag, seq![], false) + line_text(c, d + 1, "StringCollection"@, seq![], false)
            + string_lines(c, d + 2, sc.items@, sc.ids@, sc.items@.len() as int) + close_line(
            c,
            d + 1,
            "StringCollection"@,
        ) + close_line(c, d, tag)
    }
}

/// The three grade dimensions, then the source hints.
pub open spec fn grades_text(
    c: bool,
    d: nat,
    one: StringCollection,
    two: StringCollection,
    three: StringCollection,
    sources: StringCollection,
) -> Seq<char> {
    string_section_text(c, d, "GradeOne"@, one) + string_section_text(c, d, "GradeTwo"@, two)
        + string_section_text(c, d, "GradeThree"@, three) + string_section_text(
        c,
        d,
        "SourceHints"@,
        sources,
    )
}

#[verifier::spinoff_prover]
fn emit_string_section<'s, S: XmlSink>(w: &mut Writer<'s, S>, tag: &str, sc: &StringCollection)
    requires
        old(w).out.valid(),
        old(w).depth < usize::MAX - 2,
        sc.ids@.len() == sc.items@.len(),
    ensures
        final(w).out.valid(),
        final(w).text() == old(w).text() + string_section_text(old(w).compact, old(w).depth as nat, tag@, *sc),
        final(w).compact == old(w).compact,
        final(w).depth == old(w).depth,
        *final(final(w).out) == *final(old(w).out),
{
    reveal(string_section_text);
    if sc.items.len() == 0 {
        assert(final(w).text() =~= old(w).text());
        return;
    }
    let none: Vec<Attr> = Vec::new();
    assert(attr_views(none@) =~= Seq::<Pair>::empty());
    put_open(w, tag, &none);
    put_open(w, "StringCollection", &none);
    let ghost head = w.text();
    for i in 0..sc.items.len()
        invariant
            sc.ids@.len() == sc.items@.len(),
            w.out.valid(),
            w.compact == old(w).compact,
            w.depth == old(w).depth + 2,
            old(w).depth < usize::MAX - 2,
            *final(w.out) == *final(old(w).out),
            w.text() == head + string_lines(w.compact, w.depth as nat, sc.items@, sc.ids@, i as int),
    {
        let mut a: Vec<Attr> = Vec::new();
        assert(attr_views(a@) =~= Seq::<Pair>::empty());
        push_pair(&mut a, "Id", sc.ids[i].clone());
        push_pair(&mut a, "Text", sc.items[i].clone());
        assert(attr_views(a@) =~= seq![("Id"@, sc.ids@[i as int]@), ("Text"@, sc.items@[i as int]@)]);
        put_empty(w, "String", &a);
    }
    put_close(w, "StringCollection");
    put_close(w, tag);
}

/// Emit the grade dimensions and the source hints that have strings.
#[verifier::spinoff_prover]
pub fn emit_grades<'s, S: XmlSink>(
    w: &mut Writer<'s, S>,
    one: &StringCollection,
    two: &StringCollection,
    three: &StringCollection,
    sources: &StringCollection,
)
    requires
        old(w).out.valid(),
        old(w).depth < usize::MAX - 2,
        one.ids@.len() == one.items@.len(),
        two.ids@.len() == two.items@.len(),
        three.ids@.len() == three.items@.len(),
        sources.ids@.len() == sources.items@.len(),
    ensures
        final(w).out.valid(),
        final(w).text() == old(w).text() + grades_text(
            old(w).compact,
            old(w).depth as nat,
            *one,
            *two,
            *three,
            *sources,
        ),
        final(w).compact == old(w).compact,
        final(w).depth == old(w).depth,
        *final(final(w).out) == *final(old(w).out),
{
    let ghost c = w.compact;
    let ghost d = w.depth as nat;
    let ghost t0 = w.text();
    emit_string_section(w, "GradeOne", one);
    emit_string_section(w, "GradeTwo", two);
    emit_string_section(w, "GradeThree", three);
    emit_string_section(w, "SourceHints", sources);
    assert(w.text() =~= t0 + (string_section_text(c, d, "GradeOne"@, *one) + string_section_text(
        c,
        d,
        "GradeTwo"@,
        *two,
    ) + string_section_text(c, d, "GradeThree"@, *three) + string_section_text(
        c,
        d,
        "SourceHints"@,
        *sources,
    )));
}

// ── Entity and link types ───────────────────────────────────────────────────

/// A registered entity type: its name, minted id, configuration and the
/// semantic type it resolved to.
#[derive(Debug)]
pub struct EntityTypeEntry {
    pub name: String,
    pub id: String,
    pub cfg: EntityType,
    pub semantic_guid: Option<String>,
}

/// The preferred representation's token, when one is configured.
pub open spec fn rep_pair(r: Option<String>) -> Seq<Pair> {
    match r {
        Some(x) => seq![("PreferredRepresentation"@, representation_of(x@))],
        None => Seq::<Pair>::empty(),
    }
}

#[verifier::opaque]
pub open spec fn entity_type_attrs(e: EntityTypeEntry) -> Seq<Pair> {
    seq![("Id"@, e.id@), ("Name"@, e.name@)] + rep_pair(e.cfg.representation) + text_pair("IconFile"@, e.cfg.icon_file) + color_pair("Colour"@, color_of(e.cfg.color))
        + color_pair("IconShadingColour"@, color_of(e.cfg.shade_color)) + text_pair(
        "SemanticTypeGuid"@,
        e.semantic_guid,
    )
}

pub open spec fn entity_type_lines(c: bool, d: nat, t: Seq<EntityTypeEntry>, k: int) -> Seq<char>
    decreases k,
{
    if k <= 0 {
        seq![]
    } else {
        entity_type_lines(c, d, t, k - 1) + line_text(c, d, "EntityType"@, entity_type_attrs(t[k - 1]), true)
    }
}

/// The `<EntityTypeCollection>`; nothing when no type is registered.
pub open spec fn entity_types_text(c: bool, d: nat, t: Seq<EntityTypeEntry>) -> Seq<char> {
    if t.len() == 0 {
        seq![]
    } else {
        line_text(c, d, "EntityTypeCollection"@, seq![], false) + entity_type_lines(c, d + 1, t, t.len() as int)
            + close_line(c, d, "EntityTypeCollection"@)
    }
}

#[verifier::spinoff_prover]
#[verifier::rlimit(50)]
fn entity_type_attr_list(e: &EntityTypeEntry) -> (a: Vec<Attr<'static>>)
    ensures
        attr_views(a@) == entity_type_attrs(*e),
{
    let mut a: Vec<Attr> = Vec::new();
    assert(attr_views(a@) =~= Seq::<Pair>::empty());
    push_pair(&mut a, "Id", e.id.clone());
    push_pair(&mut a, "Name", e.name.clone());
    let ghost p0 = attr_views(a@);
    match &e.cfg.representation {
        Some(r) => push_pair(&mut a, "PreferredRepresentation", representation_token(r.as_str()).to_owned()),
        None => {},
    }
    let ghost p1 = attr_views(a@);
    push_text(&mut a, "IconFile", &e.cfg.icon_file);
    let c1 = resolve_color(&e.cfg.color);
    push_color(&mut a, "Colour", c1);
    let c2 = resolve_color(&e.cfg.shade_color);
    push_color(&mut a, "IconShadingColour", c2);
    push_text(&mut a, "SemanticTypeGuid", &e.semantic_guid);
    proof {
        reveal(entity_type_attrs);
        let rep = rep_pair(e.cfg.representation);
        assert(p1 =~= p0 + rep);
        assert(attr_views(a@) =~= p1 + text_pair("IconFile"@, e.cfg.icon_file) + color_pair("Colour"@, c1)
            + color_pair("IconShadingColour"@, c2) + text_pair("SemanticTypeGuid"@, e.semantic_guid));
    }
    a
}

/// Emit the `<EntityTypeCollection>` of the registered entity types.
#[verifier::spinoff_prover]
pub fn emit_entity_types<'s, S: XmlSink>(w: &mut Writer<'s, S>, t: &Vec<EntityTypeEntry>)
    requires
        old(w).out.valid(),
        old(w).depth < usize::MAX - 1,
    ensures
        final(w).out.valid(),
        final(w).text() == old(w).text() + entity_types_text(old(w).compact, old(w).depth as nat, t@),
        final(w).compact == old(w).compact,
        final(w).depth == old(w).depth,
        *final(final(w).out) == *final(old(w).out),
{
    if t.len() == 0 {
        assert(final(w).text() =~= old(w).text());
        return;
    }
    let none: Vec<Attr> = Vec::new();
    assert(attr_views(none@) =~= Seq::<Pair>::empty());
    put_open(w, "EntityTypeCollection", &none);
    let ghost head = w.text();
    for i in 0..t.len()
        invariant
            w.out.valid(),
            w.compact == old(w).compact,
            w.depth == old(w).depth + 1,
            old(w).depth < usize::MAX - 1,
            *final(w.out) == *final(old(w).out),
            w.text() == head + entity_type_lines(w.compact, w.depth as nat, t@, i as int),
    {
        let a = entity_type_attr_list(&t[i]);
        put_empty(w, "EntityType", &a);
    }
    put_close(w, "EntityTypeCollection");
}

/// A registered link type: its name, minted id, configuration and the
/// semantic type it resolved to.
#[derive(Debug)]
pub struct LinkTypeEntry {
    pub name: String,
    pub id: String,
    pub cfg: LinkType,
    pub semantic_guid: Option<String>,
}

#[verifier::opaque]
pub open spec fn link_type_attrs(e: LinkTypeEntry) -> Seq<Pair> {
    seq![("Id"@, e.id@), ("Name"@, e.name@)] + color_pair("Colour"@, color_of(e.cfg.color)) + text_pair(
        "SemanticTypeGuid"@,
        e.semantic_guid,
    )
}

pub open spec fn link_type_lines(c: bool, d: nat, t: Seq<LinkTypeEntry>, k: int) -> Seq<char>
    decreases k,
{
    if k <= 0 {
        seq![]
    } else {
        link_type_lines(c, d, t, k - 1) + line_text(c, d, "LinkType"@, link_type_attrs(t[k - 1]), true)
    }
}

/// The `<LinkTypeCollection>`; nothing when no type is registered.
pub open spec fn link_types_text(c: bool, d: nat, t: Seq<LinkTypeEntry>) -> Seq<char> {
    if t.len() == 0 {
        seq![]
    } else {
        line_text(c, d, "LinkTypeCollection"@, seq![], false) + link_type_lines(c, d + 1, t, t.len() as int)
            + close_line(c, d, "LinkTypeCollection"@)
    }
}

fn link_type_attr_list(e: &LinkTypeEntry) -> (a: Vec<Attr<'static>>)
    ensures
        attr_views(a@) == link_type_attrs(*e),
{
    let mut a: Vec<Attr> = Vec::new();
    assert(attr_views(a@) =~= Seq::<Pair>::empty());
    push_pair(&mut a, "Id", e.id.clone());
    push_pair(&mut a, "Name", e.name.clone());
    push_color(&mut a, "Colour", resolve_color(&e.cfg.color));
    push_text(&mut a, "SemanticTypeGuid", &e.semantic_guid);
    proof {
        reveal(link_type_attrs);
        assert(attr_views(a@) =~= link_type_attrs(*e));
    }
    a
}

/// Emit the `<LinkTypeCollection>` of the registered link types.
#[verifier::spinoff_prover]
pub fn emit_link_types<'s, S: XmlSink>(w: &mut Writer<'s, S>, t: &Vec<LinkTypeEntry>)
    requires
        old(w).out.valid(),
        old(w).depth < usize::MAX - 1,
    ensures
        final(w).out.valid(),
        final(w).text() == old(w).text() + link_types_text(old(w).compact, old(w).depth as nat, t@),
        final(w).compact == old(w).compact,
        final(w).depth == old(w).depth,
        *final(final(w).out) == *final(old(w).out),
{
    if t.len() == 0 {
        assert(final(w).text() =~= old(w).text());
        return;
    }
    let none: Vec<Attr> = Vec::new();
    assert(attr_views(none@) =~= Seq::<Pair>::empty());
    put_open(w, "LinkTypeCollection", &none);
    let ghost head = w.text();
    for i in 0..t.len()
        invariant
            w.out.valid(),
            w.compact == old(w).compact,
            w.depth == old(w).depth + 1,
            old(w).depth < usize::MAX - 1,
            *final(w.out) == *final(old(w).out),
            w.text() == head + link_type_lines(w.compact, w.depth as nat, t@, i as int),
    {
        let a = link_type_attr_list(&t[i]);
        put_empty(w, "LinkType", &a);
    }
    put_close(w, "LinkTypeCollection");
}

// ── Connection styles ───────────────────────────────────────────────────────

/// A connection style: multiplicity, fan-out and theme wiring (each as set on
/// a link), and the id minted for it.
#[derive(Debug)]
pub struct ConnectionEntry {
    pub multiplicity: Option<String>,
    pub fan_out: Option<i64>,
    pub theme_wiring: Option<String>,
    pub id: String,
}

/// A set, non-empty text.
pub open spec fn nonempty(o: Option<String>) -> Option<Seq<char>> {
    match o {
        Some(x) => if x@.len() > 0 {
            Some(x@)
        } else {
            None
        },
        None => None,
    }
}

/// The connection style a link asks for: its non-empty multiplicity, its
/// fan-out and its non-empty theme wiring; none when all three are unset.
pub open spec fn conn_key(l: Link) -> Option<(Option<Seq<char>>, Option<i64>, Option<Seq<char>>)> {
    let m = nonempty(l.multiplicity);
    let t = nonempty(l.theme_wiring);
    if m is None && l.fan_out is None && t is None {
        None
    } else {
        Some((m, l.fan_out, t))
    }
}

fn nonempty_text(o: &Option<String>) -> (r: Option<String>)
    ensures
        match r {
            Some(x) => nonempty(*o) == Some(x@),
            None => nonempty(*o) is None,
        },
{
    match o {
        Some(x) => if is_empty_str(x.as_str()) {
            None
        } else {
            Some(x.clone())
        },
        None => None,
    }
}

/// The connection style a link asks for, if any.
pub fn connection_key(l: &Link) -> (r: Option<(Option<String>, Option<i64>, Option<String>)>)
    ensures
        match r {
            Some((m, f, t)) => conn_key(*l) == Some((
                match m {
                    Some(x) => Some(x@),
                    None => None,
                },
                f,
                match t {
                    Some(x) => Some(x@),
                    None => None,
                },
            )),
            None => conn_key(*l) is None,
        },
{
    let m = nonempty_text(&l.multiplicity);
    let t = nonempty_text(&l.theme_wiring);
    if m.is_none() && l.fan_out.is_none() && t.is_none() {
        None
    } else {
        Some((m, l.fan_out, t))
    }
}

pub open spec fn connection_style_attrs(e: ConnectionEntry) -> Seq<Pair> {
    (match e.multiplicity {
        Some(m) => seq![("Multiplicity"@, multiplicity_of(m@))],
        None => Seq::<Pair>::empty(),
    }) + (match e.fan_out {
        Some(f) => seq![("FanOut"@, dec_int(f as int))],
        None => Seq::<Pair>::empty(),
    }) + match e.theme_wiring {
        Some(t) => seq![("ThemeWiring"@, theme_wiring_of(t@))],
        None => Seq::<Pair>::empty(),
    }
}

/// One `<Connection>` with its `<ConnectionStyle>`.
pub open spec fn connection_text(c: bool, d: nat, e: ConnectionEntry) -> Seq<char> {
    line_text(c, d, "Connection"@, seq![("Id"@, e.id@)], false) + line_text(
        c,
        d + 1,
        "ConnectionStyle"@,
        connection_style_attrs(e),
        true,
    ) + close_line(c, d, "Connection"@)
}

pub open spec fn connection_lines(c: bool, d: nat, t: Seq<ConnectionEntry>, k: int) -> Seq<char>
    decreases k,
{
    if k <= 0 {
        seq![]
    } else {
        connection_lines(c, d, t, k - 1) + connection_text(c, d, t[k - 1])
    }
}

/// The `<ConnectionCollection>`; nothing when no style is registered.
pub open spec fn connections_text(c: bool, d: nat, t: Seq<ConnectionEntry>) -> Seq<char> {
    if t.len() == 0 {
        seq![]
    } else {
        line_text(c, d, "ConnectionCollection"@, seq![], false) + connection_lines(c, d + 1, t, t.len() as int)
            + close_line(c, d, "ConnectionCollection"@)
    }
}

#[verifier::spinoff_prover]
fn emit_connection<'s, S: XmlSink>(w: &mut Writer<'s, S>, e: &ConnectionEntry)
    requires
        old(w).out.valid(),
        old(w).depth < usize::MAX - 1,
    ensures
        final(w).out.valid(),
        final(w).text() == old(w).text() + connection_text(old(w).compact, old(w).depth as nat, *e),
        final(w).compact == old(w).compact,
        final(w).depth == old(w).depth,
        *final(final(w).out) == *final(old(w).out),
{
    let mut head: Vec<Attr> = Vec::new();
    assert(attr_views(head@) =~= Seq::<Pair>::empty());
    push_pair(&mut head, "Id", e.id.clone());
    put_open(w, "Connection", &head);
    let mut cs: Vec<Attr> = Vec::new();
    assert(attr_views(cs@) =~= Seq::<Pair>::empty());
    match &e.multiplicity {
        Some(m) => push_pair(&mut cs, "Multiplicity", multiplicity_token(m.as_str())),
        None => {},
    }
    match e.fan_out {
        Some(f) => push_pair(&mut cs, "FanOut", i64_string(f)),
        None => {},
    }
    match &e.theme_wiring {
        Some(t) => push_pair(&mut cs, "ThemeWiring", theme_wiring_token(t.as_str())),
        None => {},
    }
    assert(attr_views(cs@) =~= connection_style_attrs(*e));
    put_empty(w, "ConnectionStyle", &cs);
    put_close(w, "Connection");
    assert(final(w).text() =~= old(w).text() + connection_text(old(w).compact, old(w).depth as nat, *e));
}

/// Emit the `<ConnectionCollection>` of the registered connection styles.
#[verifier::spinoff_prover]
pub fn emit_connections<'s, S: XmlSink>(w: &mut Writer<'s, S>, t: &Vec<ConnectionEntry>)
    requires
        old(w).out.valid(),
        old(w).depth < usize::MAX - 2,
    ensures
        final(w).out.valid(),
        final(w).text() == old(w).text() + connections_text(old(w).compact, old(w).depth as nat, t@),
        final(w).compact == old(w).compact,
        final(w).depth == old(w).depth,
        *final(final(w).out) == *final(old(w).out),
{
    if t.len() == 0 {
        assert(final(w).text() =~= old(w).text());
        return;
    }
    let none: Vec<Attr> = Vec::new();
    assert(attr_views(none@) =~= Seq::<Pair>::empty());
    put_open(w, "ConnectionCollection", &none);
    let ghost head = w.text();
    for i in 0..t.len()
        invariant
            w.out.valid(),
            w.compact == old(w).compact,
            w.depth == old(w).depth + 1,
            old(w).depth < usize::MAX - 2,
            *final(w.out) == *final(old(w).out),
            w.text() == head + connection_lines(w.compact, w.depth as nat, t@, i as int),
    {
        emit_connection(w, &t[i]);
    }
    put_close(w, "ConnectionCollection");
}

// ── Attribute classes ───────────────────────────────────────────────────────

/// A registered attribute class: its name, minted id, `Type` token,
/// configuration and the semantic property it resolved to.
#[derive(Debug)]
pub struct AttributeClassEntry {
    pub name: String,
    pub id: String,
    pub type_token: String,
    pub cfg: AttributeClass,
    pub semantic_guid: Option<String>,
}

/// An unset flag counts as set.
pub open spec fn or_true(o: Option<bool>) -> bool {
    match o {
        Some(v) => v,
        None => true,
    }
}

/// A prefix or suffix, with whether it is shown (when it is not empty).
pub open spec fn affix_pairs(name: Seq<char>, show: Seq<char>, v: Option<String>) -> Seq<Pair> {
    match v {
        Some(x) => seq![(name, x@), (show, bool_text(x@.len() > 0))],
        None => seq![],
    }
}

/// A merge or paste behaviour's token.
pub open spec fn merge_pair(name: Seq<char>, m: Option<MergeBehaviour>) -> Seq<Pair> {
    match m {
        Some(x) => seq![(name, merge_behaviour_of(x.token()))],
        None => seq![],
    }
}

/// The attributes of an `<AttributeClass>`: the always-written ones (unset
/// user flags and `ShowValue` count as true), then the configured ones.
#[verifier::opaque]
pub open spec fn attribute_class_attrs(e: AttributeClassEntry) -> Seq<Pair> {
    seq![
        ("Id"@, e.id@),
        ("Name"@, e.name@),
        ("Type"@, e.type_token@),
        ("IsUser"@, bool_text(or_true(e.cfg.is_user))),
        ("UserCanAdd"@, bool_text(or_true(e.cfg.user_can_add))),
        ("UserCanRemove"@, bool_text(or_true(e.cfg.user_can_remove))),
        ("ShowValue"@, bool_text(or_true(e.cfg.show_value))),
    ] + text_pair("IconFile"@, e.cfg.icon_file) + affix_pairs("Prefix"@, "ShowPrefix"@, e.cfg.prefix)
        + affix_pairs("Suffix"@, "ShowSuffix"@, e.cfg.suffix) + flag_pair("ShowClassName"@, e.cfg.show_class_name)
        + flag_pair("ShowSymbol"@, e.cfg.show_symbol) + int_pair("DecimalPlaces"@, e.cfg.decimal_places)
        + flag_pair("Visible"@, e.cfg.visible) + flag_pair("ShowIfSet"@, e.cfg.show_if_set) + merge_pair(
        "MergeBehaviour"@,
        e.cfg.merge_behaviour,
    ) + merge_pair("PasteBehaviour"@, e.cfg.paste_behaviour) + text_pair("SemanticTypeGuid"@, e.semantic_guid)
}

pub open spec fn attribute_class_lines(c: bool, d: nat, t: Seq<AttributeClassEntry>, k: int) -> Seq<char>
    decreases k,
{
    if k <= 0 {
        seq![]
    } else {
        attribute_class_lines(c, d, t, k - 1) + line_text(
            c,
            d,
            "AttributeClass"@,
            attribute_class_attrs(t[k - 1]),
            true,
        )
    }
}

/// The `<AttributeClassCollection>`; nothing when no class is registered.
pub open spec fn attribute_classes_text(c: bool, d: nat, t: Seq<AttributeClassEntry>) -> Seq<char> {
    if t.len() == 0 {
        seq![]
    } else {
        line_text(c, d, "AttributeClassCollection"@, seq![], false) + attribute_class_lines(
            c,
            d + 1,
            t,
            t.len() as int,
        ) + close_line(c, d, "AttributeClassCollection"@)
    }
}

fn push_affix(a: &mut Vec<Attr<'static>>, name: &'static str, show: &'static str, v: &Option<String>)
    ensures
        attr_views(final(a)@) == attr_views(old(a)@) + affix_pairs(name@, show@, *v),
{
    match v {
        Some(x) => {
            push_pair(a, name, x.clone());
            push_pair(a, show, b(!is_empty_str(x.as_str())));
        },
        None => {
            assert(attr_views(a@) =~= attr_views(old(a)@) + affix_pairs(name@, show@, *v));
        },
    }
}

fn push_merge(a: &mut Vec<Attr<'static>>, name: &'static str, m: Option<MergeBehaviour>)
    ensures
        attr_views(final(a)@) == attr_views(old(a)@) + merge_pair(name@, m),
{
    match m {
        Some(x) => push_pair(a, name, merge_behaviour_token(x.as_str()).to_owned()),
        None => {
            assert(attr_views(a@) =~= attr_views(old(a)@) + merge_pair(name@, m));
        },
    }
}

fn or_true_of(o: Option<bool>) -> (r: bool)
    ensures
        r == or_true(o),
{
    match o {
        Some(v) => v,
        None => true,
    }
}

#[verifier::spinoff_prover]
#[verifier::rlimit(50)]
fn attribute_class_attr_list(e: &AttributeClassEntry) -> (a: Vec<Attr<'static>>)
    ensures
        attr_views(a@) == attribute_class_attrs(*e),
{
    let mut a: Vec<Attr> = Vec::new();
    assert(attr_views(a@) =~= Seq::<Pair>::empty());
    push_pair(&mut a, "Id", e.id.clone());
    push_pair(&mut a, "Name", e.name.clone());
    push_pair(&mut a, "Type", e.type_token.clone());
    push_pair(&mut a, "IsUser", b(or_true_of(e.cfg.is_user)));
    push_pair(&mut a, "UserCanAdd", b(or_true_of(e.cfg.user_can_add)));
    push_pair(&mut a, "UserCanRemove", b(or_true_of(e.cfg.user_can_remove)));
    push_pair(&mut a, "ShowValue", b(or_true_of(e.cfg.show_value)));
    let ghost p0 = attr_views(a@);
    push_text(&mut a, "IconFile", &e.cfg.icon_file);
    push_affix(&mut a, "Prefix", "ShowPrefix", &e.cfg.prefix);
    push_affix(&mut a, "Suffix", "ShowSuffix", &e.cfg.suffix);
    push_bool(&mut a, "ShowClassName", e.cfg.show_class_name);
    push_bool(&mut a, "ShowSymbol", e.cfg.show_symbol);
    push_int(&mut a, "DecimalPlaces", e.cfg.decimal_places);
    push_bool(&mut a, "Visible", e.cfg.visible);
    push_bool(&mut a, "ShowIfSet", e.cfg.show_if_set);
    push_merge(&mut a, "MergeBehaviour", e.cfg.merge_behaviour);
    push_merge(&mut a, "PasteBehaviour", e.cfg.paste_behaviour);
    push_text(&mut a, "SemanticTypeGuid", &e.semantic_guid);
    proof {
        reveal(attribute_class_attrs);
        assert(p0 =~= seq![
            ("Id"@, e.id@),
            ("Name"@, e.name@),
            ("Type"@, e.type_token@),
            ("IsUser"@, bool_text(or_true(e.cfg.is_user))),
            ("UserCanAdd"@, bool_text(or_true(e.cfg.user_can_add))),
            ("UserCanRemove"@, bool_text(or_true(e.cfg.user_can_remove))),
            ("ShowValue"@, bool_text(or_true(e.cfg.show_value))),
        ]);
        assert(attr_views(a@) =~= attribute_class_attrs(*e));
    }
    a
}

/// Emit the `<AttributeClassCollection>` of the registered classes.
#[verifier::spinoff_prover]
pub fn emit_attribute_classes<'s, S: XmlSink>(w: &mut Writer<'s, S>, t: &Vec<AttributeClassEntry>)
    requires
        old(w).out.valid(),
        old(w).depth < usize::MAX - 1,
    ensures
        final(w).out.valid(),
        final(w).text() == old(w).text() + attribute_classes_text(old(w).compact, old(w).depth as nat, t@),
        final(w).compact == old(w).compact,
        final(w).depth == old(w).depth,
        *final(final(w).out) == *final(old(w).out),
{
    if t.len() == 0 {
        assert(final(w).text() =~= old(w).text());
        return;
    }
    let none: Vec<Attr> = Vec::new();
    assert(attr_views(none@) =~= Seq::<Pair>::empty());
    put_open(w, "AttributeClassCollection", &none);
    let ghost head = w.text();
    for i in 0..t.len()
        invariant
            w.out.valid(),
            w.compact == old(w).compact,
            w.depth == old(w).depth + 1,
            old(w).depth < usize::MAX - 1,
            *final(w.out) == *final(old(w).out),
            w.text() == head + attribute_class_lines(w.compact, w.depth as nat, t@, i as int),
    {
        let a = attribute_class_attr_list(&t[i]);
        put_empty(w, "AttributeClass", &a);
    }
    put_close(w, "AttributeClassCollection");
}

// ── Palettes ────────────────────────────────────────────────────────────────

/// A registry entry: a name with the id minted for it.
pub trait Registered {
    /// The entry's name and id.
    spec fn key(&self) -> (Seq<char>, Seq<char>);

    fn name_id(&self) -> (r: (&String, &String))
        ensures
            (r.0@, r.1@) == self.key(),
    ;
}

impl Registered for StrengthEntry {
    open spec fn key(&self) -> (Seq<char>, Seq<char>) {
        (self.name@, self.id@)
    }

    fn name_id(&self) -> (r: (&String, &String)) {
        (&self.name, &self.id)
    }
}

impl Registered for AttributeClassEntry {
    open spec fn key(&self) -> (Seq<char>, Seq<char>) {
        (self.name@, self.id@)
    }

    fn name_id(&self) -> (r: (&String, &String)) {
        (&self.name, &self.id)
    }
}

impl Registered for EntityTypeEntry {
    open spec fn key(&self) -> (Seq<char>, Seq<char>) {
        (self.name@, self.id@)
    }

    fn name_id(&self) -> (r: (&String, &String)) {
        (&self.name, &self.id)
    }
}

impl Registered for LinkTypeEntry {
    open spec fn key(&self) -> (Seq<char>, Seq<char>) {
        (self.name@, self.id@)
    }

    fn name_id(&self) -> (r: (&String, &String)) {
        (&self.name, &self.id)
    }
}

/// The `(name, id)` pairs of a registry, in registration order.
pub open spec fn keys<T: Registered>(reg: Seq<T>) -> Seq<(Seq<char>, Seq<char>)> {
    reg.map_values(|e: T| e.key())
}

/// The id registered under `name`, if any.
pub fn find_id<T: Registered>(reg: &Vec<T>, name: &str) -> (r: Option<String>)
    ensures
        match r {
            Some(x) => lookup(keys(reg@), name@) == Some(x@),
            None => lookup(keys(reg@), name@) is None,
        },
{
    let ghost e = keys(reg@);
    let mut i: usize = 0;
    assert(e.skip(0) =~= e);
    while i < reg.len()
        invariant
            e == keys(reg@),
            i <= reg@.len(),
            lookup(e, name@) == lookup(e.skip(i as int), name@),
        decreases reg@.len() - i,
    {
        let (n, id) = reg[i].name_id();
        assert(e.skip(i as int)[0] == e[i as int]);
        assert(e.skip(i as int).drop_first() =~= e.skip(i + 1));
        if str_eq(n.as_str(), name) {
            return Some(id.clone());
        }
        i = i + 1;
    }
    assert(e.skip(i as int).len() == 0);
    None
}

/// Lines of empty `tag` elements, one per attribute list.
pub open spec fn rows_text(c: bool, d: nat, tag: Seq<char>, rows: Seq<Seq<Pair>>, k: int) -> Seq<char>
    decreases k,
{
    if k <= 0 {
        seq![]
    } else {
        rows_text(c, d, tag, rows, k - 1) + line_text(c, d, tag, rows[k - 1], true)
    }
}

/// A collection of entries when `shown`: its open line, one empty `inner`
/// element per row, and its close line.
#[verifier::opaque]
pub open spec fn group_text(c: bool, d: nat, tag: Seq<char>, inner: Seq<char>, shown: bool, rows: Seq<Seq<Pair>>) -> Seq<char> {
    if shown {
        line_text(c, d, tag, seq![], false) + rows_text(c, d + 1, inner, rows, rows.len() as int) + close_line(c, d, tag)
    } else {
        seq![]
    }
}

pub open spec fn row_views(rows: Seq<Vec<Attr>>) -> Seq<Seq<Pair>> {
    rows.map_values(|r: Vec<Attr>| attr_views(r@))
}

#[verifier::spinoff_prover]
fn emit_group<'s, S: XmlSink>(w: &mut Writer<'s, S>, tag: &str, inner: &str, shown: bool, rows: &Vec<Vec<Attr>>)
    requires
        old(w).out.valid(),
        old(w).depth < usize::MAX - 1,
    ensures
        final(w).out.valid(),
        final(w).text() == old(w).text() + group_text(
            old(w).compact,
            old(w).depth as nat,
            tag@,
            inner@,
            shown,
            row_views(rows@),
        ),
        final(w).compact == old(w).compact,
        final(w).depth == old(w).depth,
        *final(final(w).out) == *final(old(w).out),
{
    reveal(group_text);
    if !shown {
        assert(final(w).text() =~= old(w).text());
        return;
    }
    let ghost rv = row_views(rows@);
    let none: Vec<Attr> = Vec::new();
    assert(attr_views(none@) =~= Seq::<Pair>::empty());
    put_open(w, tag, &none);
    let ghost head = w.text();
    for i in 0..rows.len()
        invariant
            rv == row_views(rows@),
            w.out.valid(),
            w.compact == old(w).compact,
            w.depth == old(w).depth + 1,
            old(w).depth < usize::MAX - 1,
            *final(w.out) == *final(old(w).out),
            w.text() == head + rows_text(w.compact, w.depth as nat, inner@, rv, i as int),
    {
        assert(rv[i as int] == attr_views(rows@[i as int]@));
        put_empty(w, inner, &rows[i]);
    }
    put_close(w, tag);
}

/// One row naming an entry and its id.
pub open spec fn pair_row(k1: Seq<char>, k2: Seq<char>, name: Seq<char>, id: Seq<char>) -> Seq<Pair> {
    seq![(k1, name), (k2, id)]
}

/// The rows of the first `k` registry entries.
pub open spec fn all_rows(reg: Seq<(Seq<char>, Seq<char>)>, k1: Seq<char>, k2: Seq<char>, k: int) -> Seq<Seq<Pair>>
    decreases k,
{
    if k <= 0 {
        seq![]
    } else {
        all_rows(reg, k1, k2, k - 1).push(pair_row(k1, k2, reg[k - 1].0, reg[k - 1].1))
    }
}

/// The rows of the first `k` names that are registered, each with its id.
pub open spec fn named_rows(
    names: Seq<Seq<char>>,
    reg: Seq<(Seq<char>, Seq<char>)>,
    k1: Seq<char>,
    k2: Seq<char>,
    k: int,
) -> Seq<Seq<Pair>>
    decreases k,
{
    if k <= 0 {
        seq![]
    } else {
        let prev = named_rows(names, reg, k1, k2, k - 1);
        match lookup(reg, names[k - 1]) {
            Some(id) => prev.push(pair_row(k1, k2, names[k - 1], id)),
            None => prev,
        }
    }
}

/// The rows of the first `k` attribute entries whose class is registered,
/// each with the class id and the entry's value when it has one.
pub open spec fn value_rows(aes: Seq<PaletteAttributeEntry>, reg: Seq<(Seq<char>, Seq<char>)>, k: int) -> Seq<Seq<Pair>>
    decreases k,
{
    if k <= 0 {
        seq![]
    } else {
        let prev = value_rows(aes, reg, k - 1);
        match lookup(reg, aes[k - 1].name@) {
            Some(id) => prev.push(
                pair_row("AttributeClass"@, "AttributeClassReference"@, aes[k - 1].name@, id) + text_pair(
                    "Value"@,
                    aes[k - 1].value,
                ),
            ),
            None => prev,
        }
    }
}

/// The attribute classes a user can add (both flags unset or true).
pub open spec fn addable_rows(acs: Seq<AttributeClassEntry>, k: int) -> Seq<Seq<Pair>>
    decreases k,
{
    if k <= 0 {
        seq![]
    } else {
        let prev = addable_rows(acs, k - 1);
        let e = acs[k - 1];
        if or_true(e.cfg.is_user) && or_true(e.cfg.user_can_add) {
            prev.push(pair_row("AttributeClass"@, "AttributeClassReference"@, e.name@, e.id@))
        } else {
            prev
        }
    }
}

fn row(k1: &'static str, k2: &'static str, name: &String, id: &String) -> (r: Vec<Attr<'static>>)
    ensures
        attr_views(r@) == pair_row(k1@, k2@, name@, id@),
{
    let mut a: Vec<Attr> = Vec::new();
    assert(attr_views(a@) =~= Seq::<Pair>::empty());
    push_pair(&mut a, k1, name.clone());
    push_pair(&mut a, k2, id.clone());
    a
}

proof fn lemma_row_views_push(rows: Seq<Vec<Attr>>, r: Vec<Attr>)
    ensures
        row_views(rows.push(r)) == row_views(rows).push(attr_views(r@)),
{
    assert(row_views(rows.push(r)) =~= row_views(rows).push(attr_views(r@)));
}

fn registry_rows<T: Registered>(reg: &Vec<T>, k1: &'static str, k2: &'static str) -> (r: Vec<Vec<Attr<'static>>>)
    ensures
        row_views(r@) == all_rows(keys(reg@), k1@, k2@, reg@.len() as int),
{
    let mut rows: Vec<Vec<Attr>> = Vec::new();
    for i in 0..reg.len()
        invariant
            row_views(rows@) == all_rows(keys(reg@), k1@, k2@, i as int),
    {
        let (n, id) = reg[i].name_id();
        let a = row(k1, k2, n, id);
        proof {
            lemma_row_views_push(rows@, a);
        }
        rows.push(a);
    }
    rows
}

fn named_registry_rows<T: Registered>(
    names: &Vec<String>,
    reg: &Vec<T>,
    k1: &'static str,
    k2: &'static str,
) -> (r: Vec<Vec<Attr<'static>>>)
    ensures
        row_views(r@) == named_rows(
            names@.map_values(|n: String| n@),
            keys(reg@),
            k1@,
            k2@,
            names@.len() as int,
        ),
{
    let ghost nv = names@.map_values(|n: String| n@);
    let mut rows: Vec<Vec<Attr>> = Vec::new();
    for i in 0..names.len()
        invariant
            nv == names@.map_values(|n: String| n@),
            row_views(rows@) == named_rows(nv, keys(reg@), k1@, k2@, i as int),
    {
        assert(nv[i as int] == names@[i as int]@);
        match find_id(reg, names[i].as_str()) {
            Some(id) => {
                let a = row(k1, k2, &names[i], &id);
                proof {
                    lemma_row_views_push(rows@, a);
                }
                rows.push(a);
            },
            None => {},
        }
    }
    rows
}

fn attribute_value_rows(aes: &Vec<PaletteAttributeEntry>, acs: &Vec<AttributeClassEntry>) -> (r: Vec<Vec<Attr<'static>>>)
    ensures
        row_views(r@) == value_rows(aes@, keys(acs@), aes@.len() as int),
{
    let mut rows: Vec<Vec<Attr>> = Vec::new();
    for i in 0..aes.len()
        invariant
            row_views(rows@) == value_rows(aes@, keys(acs@), i as int),
    {
        let ae = &aes[i];
        match find_id(acs, ae.name.as_str()) {
            Some(id) => {
                let mut a = row("AttributeClass", "AttributeClassReference", &ae.name, &id);
                push_text(&mut a, "Value", &ae.value);
                proof {
                    lemma_row_views_push(rows@, a);
                }
                rows.push(a);
            },
            None => {},
        }
    }
    rows
}

fn addable_class_rows(acs: &Vec<AttributeClassEntry>) -> (r: Vec<Vec<Attr<'static>>>)
    ensures
        row_views(r@) == addable_rows(acs@, acs@.len() as int),
{
    let mut rows: Vec<Vec<Attr>> = Vec::new();
    for i in 0..acs.len()
        invariant
            row_views(rows@) == addable_rows(acs@, i as int),
    {
        let e = &acs[i];
        if or_true_of(e.cfg.is_user) && or_true_of(e.cfg.user_can_add) {
            let a = row("AttributeClass", "AttributeClassReference", &e.name, &e.id);
            proof {
                lemma_row_views_push(rows@, a);
            }
            rows.push(a);
        }
    }
    rows
}

/// `Name`, and `Locked` when the palette is locked.
pub open spec fn palette_head(pal: Palette) -> Seq<Pair> {
    seq![("Name"@, pal.name@)] + if pal.locked {
        seq![("Locked"@, "true"@)]
    } else {
        Seq::<Pair>::empty()
    }
}

/// A user-defined `<Palette>`: self-closing when it lists nothing; else each
/// listed collection, with the registered entries it names (a listed
/// collection is written even when none of its names is registered).
#[verifier::opaque]
pub open spec fn user_palette_text(
    c: bool,
    d: nat,
    pal: Palette,
    acs: Seq<AttributeClassEntry>,
    ets: Seq<EntityTypeEntry>,
    lts: Seq<LinkTypeEntry>,
) -> Seq<char> {
    let ac_names = pal.attribute_classes@.map_values(|n: String| n@);
    let et_names = pal.entity_types@.map_values(|n: String| n@);
    let lt_names = pal.link_types@.map_values(|n: String| n@);
    if ac_names.len() == 0 && pal.attribute_entries@.len() == 0 && et_names.len() == 0 && lt_names.len() == 0 {
        line_text(c, d, "Palette"@, palette_head(pal), true)
    } else {
        line_text(c, d, "Palette"@, palette_head(pal), false) + group_text(
            c,
            d + 1,
            "AttributeClassEntryCollection"@,
            "AttributeClassEntry"@,
            ac_names.len() > 0,
            named_rows(ac_names, keys(acs), "AttributeClass"@, "AttributeClassReference"@, ac_names.len() as int),
        ) + group_text(
            c,
            d + 1,
            "AttributeEntryCollection"@,
            "AttributeClassEntry"@,
            pal.attribute_entries@.len() > 0,
            value_rows(pal.attribute_entries@, keys(acs), pal.attribute_entries@.len() as int),
        ) + group_text(
            c,
            d + 1,
            "EntityTypeEntryCollection"@,
            "EntityTypeEntry"@,
            et_names.len() > 0,
            named_rows(et_names, keys(ets), "Entity"@, "EntityTypeReference"@, et_names.len() as int),
        ) + group_text(
            c,
            d + 1,
            "LinkTypeEntryCollection"@,
            "LinkTypeEntry"@,
            lt_names.len() > 0,
            named_rows(lt_names, keys(lts), "LinkType"@, "LinkTypeReference"@, lt_names.len() as int),
        ) + close_line(c, d, "Palette"@)
    }
}

/// The automatic `<Palette Name="anxwritter">`: the attribute classes a user
/// can add, every entity type and every link type; self-closing when there
/// is none of them.
#[verifier::opaque]
pub open spec fn auto_palette_text(
    c: bool,
    d: nat,
    acs: Seq<AttributeClassEntry>,
    ets: Seq<EntityTypeEntry>,
    lts: Seq<LinkTypeEntry>,
) -> Seq<char> {
    let ur = addable_rows(acs, acs.len() as int);
    let head = seq![("Name"@, "anxwritter"@)];
    if ur.len() == 0 && ets.len() == 0 && lts.len() == 0 {
        line_text(c, d, "Palette"@, head, true)
    } else {
        line_text(c, d, "Palette"@, head, false) + group_text(
            c,
            d + 1,
            "AttributeClassEntryCollection"@,
            "AttributeClassEntry"@,
            ur.len() > 0,
            ur,
        ) + group_text(
            c,
            d + 1,
            "EntityTypeEntryCollection"@,
            "EntityTypeEntry"@,
            ets.len() > 0,
            all_rows(keys(ets), "Entity"@, "EntityTypeReference"@, ets.len() as int),
        ) + group_text(
            c,
            d + 1,
            "LinkTypeEntryCollection"@,
            "LinkTypeEntry"@,
            lts.len() > 0,
            all_rows(keys(lts), "LinkType"@, "LinkTypeReference"@, lts.len() as int),
        ) + close_line(c, d, "Palette"@)
    }
}

pub open spec fn user_palettes_text(
    c: bool,
    d: nat,
    pals: Seq<Palette>,
    acs: Seq<AttributeClassEntry>,
    ets: Seq<EntityTypeEntry>,
    lts: Seq<LinkTypeEntry>,
    k: int,
) -> Seq<char>
    decreases k,
{
    if k <= 0 {
        seq![]
    } else {
        user_palettes_text(c, d, pals, acs, ets, lts, k - 1) + user_palette_text(c, d, pals[k - 1], acs, ets, lts)
    }
}

/// The `<PaletteCollection>`, always written: the user-defined palettes when
/// there are any, else the automatic palette.
pub open spec fn palettes_text(
    c: bool,
    d: nat,
    pals: Seq<Palette>,
    acs: Seq<AttributeClassEntry>,
    ets: Seq<EntityTypeEntry>,
    lts: Seq<LinkTypeEntry>,
) -> Seq<char> {
    line_text(c, d, "PaletteCollection"@, seq![], false) + (if pals.len() > 0 {
        user_palettes_text(c, d + 1, pals, acs, ets, lts, pals.len() as int)
    } else {
        auto_palette_text(c, d + 1, acs, ets, lts)
    }) + close_line(c, d, "PaletteCollection"@)
}

/// The four entry collections of a listing palette.
pub open spec fn user_palette_groups(
    c: bool,
    d: nat,
    pal: Palette,
    acs: Seq<AttributeClassEntry>,
    ets: Seq<EntityTypeEntry>,
    lts: Seq<LinkTypeEntry>,
) -> Seq<char> {
    group_text(
        c,
        d,
        "AttributeClassEntryCollection"@,
        "AttributeClassEntry"@,
        pal.attribute_classes@.len() > 0,
        named_rows(
            pal.attribute_classes@.map_values(|n: String| n@),
            keys(acs),
            "AttributeClass"@,
            "AttributeClassReference"@,
            pal.attribute_classes@.len() as int,
        ),
    ) + group_text(
        c,
        d,
        "AttributeEntryCollection"@,
        "AttributeClassEntry"@,
        pal.attribute_entries@.len() > 0,
        value_rows(pal.attribute_entries@, keys(acs), pal.attribute_entries@.len() as int),
    ) + group_text(
        c,
        d,
        "EntityTypeEntryCollection"@,
        "EntityTypeEntry"@,
        pal.entity_types@.len() > 0,
        named_rows(
            pal.entity_types@.map_values(|n: String| n@),
            keys(ets),
            "Entity"@,
            "EntityTypeReference"@,
            pal.entity_types@.len() as int,
        ),
    ) + group_text(
        c,
        d,
        "LinkTypeEntryCollection"@,
        "LinkTypeEntry"@,
        pal.link_types@.len() > 0,
        named_rows(
            pal.link_types@.map_values(|n: String| n@),
            keys(lts),
            "LinkType"@,
            "LinkTypeReference"@,
            pal.link_types@.len() as int,
        ),
    )
}

proof fn lemma_user_palette_open(
    c: bool,
    d: nat,
    pal: Palette,
    acs: Seq<AttributeClassEntry>,
    ets: Seq<EntityTypeEntry>,
    lts: Seq<LinkTypeEntry>,
)
    requires
        !(pal.attribute_classes@.len() == 0 && pal.attribute_entries@.len() == 0 && pal.entity_types@.len() == 0
            && pal.link_types@.len() == 0),
    ensures
        user_palette_text(c, d, pal, acs, ets, lts) == line_text(c, d, "Palette"@, palette_head(pal), false)
            + user_palette_groups(c, d + 1, pal, acs, ets, lts) + close_line(c, d, "Palette"@),
{
    reveal(user_palette_text);
}

#[verifier::spinoff_prover]
#[verifier::rlimit(50)]
fn emit_user_palette_groups<'s, S: XmlSink>(
    w: &mut Writer<'s, S>,
    pal: &Palette,
    acs: &Vec<AttributeClassEntry>,
    ets: &Vec<EntityTypeEntry>,
    lts: &Vec<LinkTypeEntry>,
)
    requires
        old(w).out.valid(),
        old(w).depth < usize::MAX - 1,
    ensures
        final(w).out.valid(),
        final(w).text() == old(w).text() + user_palette_groups(old(w).compact, old(w).depth as nat, *pal, acs@, ets@, lts@),
        final(w).compact == old(w).compact,
        final(w).depth == old(w).depth,
        *final(final(w).out) == *final(old(w).out),
{
    let r1 = named_registry_rows(&pal.attribute_classes, acs, "AttributeClass", "AttributeClassReference");
    emit_group(w, "AttributeClassEntryCollection", "AttributeClassEntry", pal.attribute_classes.len() > 0, &r1);
    let r2 = attribute_value_rows(&pal.attribute_entries, acs);
    emit_group(w, "AttributeEntryCollection", "AttributeClassEntry", pal.attribute_entries.len() > 0, &r2);
    let r3 = named_registry_rows(&pal.entity_types, ets, "Entity", "EntityTypeReference");
    emit_group(w, "EntityTypeEntryCollection", "EntityTypeEntry", pal.entity_types.len() > 0, &r3);
    let r4 = named_registry_rows(&pal.link_types, lts, "LinkType", "LinkTypeReference");
    emit_group(w, "LinkTypeEntryCollection", "LinkTypeEntry", pal.link_types.len() > 0, &r4);
    assert(final(w).text() =~= old(w).text() + user_palette_groups(old(w).compact, old(w).depth as nat, *pal, acs@, ets@, lts@));
}

/// Emit one user-defined `<Palette>`.
pub fn emit_user_palette<'s, S: XmlSink>(
    w: &mut Writer<'s, S>,
    pal: &Palette,
    acs: &Vec<AttributeClassEntry>,
    ets: &Vec<EntityTypeEntry>,
    lts: &Vec<LinkTypeEntry>,
)
    requires
        old(w).out.valid(),
        old(w).depth < usize::MAX - 2,
    ensures
        final(w).out.valid(),
        final(w).text() == old(w).text() + user_palette_text(old(w).compact, old(w).depth as nat, *pal, acs@, ets@, lts@),
        final(w).compact == old(w).compact,
        final(w).depth == old(w).depth,
        *final(final(w).out) == *final(old(w).out),
{
    let ghost c = w.compact;
    let ghost d = w.depth as nat;
    let mut head: Vec<Attr> = Vec::new();
    assert(attr_views(head@) =~= Seq::<Pair>::empty());
    push_pair(&mut head, "Name", pal.name.clone());
    if pal.locked {
        push_pair(&mut head, "Locked", "true".to_owned());
    }
    assert(attr_views(head@) =~= palette_head(*pal));
    if pal.attribute_classes.len() == 0 && pal.attribute_entries.len() == 0 && pal.entity_types.len() == 0
        && pal.link_types.len() == 0 {
        put_empty(w, "Palette", &head);
        proof {
            reveal(user_palette_text);
        }
        return;
    }
    put_open(w, "Palette", &head);
    emit_user_palette_groups(w, pal, acs, ets, lts);
    put_close(w, "Palette");
    proof {
        lemma_user_palette_open(c, d, *pal, acs@, ets@, lts@);
    }
    assert(final(w).text() =~= old(w).text() + user_palette_text(c, d, *pal, acs@, ets@, lts@));
}

/// Emit the automatic palette.
#[verifier::spinoff_prover]
#[verifier::rlimit(50)]
fn emit_auto_palette<'s, S: XmlSink>(
    w: &mut Writer<'s, S>,
    acs: &Vec<AttributeClassEntry>,
    ets: &Vec<EntityTypeEntry>,
    lts: &Vec<LinkTypeEntry>,
)
    requires
        old(w).out.valid(),
        old(w).depth < usize::MAX - 2,
    ensures
        final(w).out.valid(),
        final(w).text() == old(w).text() + auto_palette_text(old(w).compact, old(w).depth as nat, acs@, ets@, lts@),
        final(w).compact == old(w).compact,
        final(w).depth == old(w).depth,
        *final(final(w).out) == *final(old(w).out),
{
    let ghost c = w.compact;
    let ghost d = w.depth as nat;
    let ghost t0 = w.text();
    let ur = addable_class_rows(acs);
    let mut head: Vec<Attr> = Vec::new();
    assert(attr_views(head@) =~= Seq::<Pair>::empty());
    push_pair(&mut head, "Name", "anxwritter".to_owned());
    assert(attr_views(head@) =~= seq![("Name"@, "anxwritter"@)]);
    if ur.len() == 0 && ets.len() == 0 && lts.len() == 0 {
        put_empty(w, "Palette", &head);
        proof {
            reveal(auto_palette_text);
        }
        return;
    }
    put_open(w, "Palette", &head);
    emit_group(w, "AttributeClassEntryCollection", "AttributeClassEntry", ur.len() > 0, &ur);
    let ghost g1 = group_text(c, d + 1, "AttributeClassEntryCollection"@, "AttributeClassEntry"@, ur.len() > 0, row_views(ur@));
    let er = registry_rows(ets, "Entity", "EntityTypeReference");
    emit_group(w, "EntityTypeEntryCollection", "EntityTypeEntry", ets.len() > 0, &er);
    let ghost g2 = group_text(c, d + 1, "EntityTypeEntryCollection"@, "EntityTypeEntry"@, ets.len() > 0, row_views(er@));
    let lr = registry_rows(lts, "LinkType", "LinkTypeReference");
    emit_group(w, "LinkTypeEntryCollection", "LinkTypeEntry", lts.len() > 0, &lr);
    let ghost g3 = group_text(c, d + 1, "LinkTypeEntryCollection"@, "LinkTypeEntry"@, lts.len() > 0, row_views(lr@));
    put_close(w, "Palette");
    assert(w.text() =~= t0 + (line_text(c, d, "Palette"@, seq![("Name"@, "anxwritter"@)], false) + g1 + g2 + g3
        + close_line(c, d, "Palette"@)));
    proof {
        reveal(auto_palette_text);
    }
}

/// Emit the `<PaletteCollection>`: the user-defined palettes when there are
/// any, else the automatic palette of the registered classes and types.
#[verifier::spinoff_prover]
pub fn emit_palettes<'s, S: XmlSink>(
    w: &mut Writer<'s, S>,
    pals: &Vec<Palette>,
    acs: &Vec<AttributeClassEntry>,
    ets: &Vec<EntityTypeEntry>,
    lts: &Vec<LinkTypeEntry>,
)
    requires
        old(w).out.valid(),
        old(w).depth < usize::MAX - 3,
    ensures
        final(w).out.valid(),
        final(w).text() == old(w).text() + palettes_text(old(w).compact, old(w).depth as nat, pals@, acs@, ets@, lts@),
        final(w).compact == old(w).compact,
        final(w).depth == old(w).depth,
        *final(final(w).out) == *final(old(w).out),
{
    let none: Vec<Attr> = Vec::new();
    assert(attr_views(none@) =~= Seq::<Pair>::empty());
    put_open(w, "PaletteCollection", &none);
    let ghost head = w.text();
    if pals.len() > 0 {
        for i in 0..pals.len()
            invariant
                w.out.valid(),
                w.compact == old(w).compact,
                w.depth == old(w).depth + 1,
                old(w).depth < usize::MAX - 3,
                *final(w.out) == *final(old(w).out),
                w.text() == head + user_palettes_text(w.compact, w.depth as nat, pals@, acs@, ets@, lts@, i as int),
        {
            emit_user_palette(w, &pals[i], acs, ets, lts);
        }
    } else {
        emit_auto_palette(w, acs, ets, lts);
    }
    put_close(w, "PaletteCollection");
}

} // verus!
