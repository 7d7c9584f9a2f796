//! Pieces of the `.anx` document that every chart item shares: attribute
//! lists for grades, dimensions, fills and icon overrides; the full `<Font>`;
//! `<TimeZone>`; the metadata attributes of a chart item; the
//! `<CardCollection>` of evidence cards; and catalogue entries.
use vstd::prelude::*;

use crate::color::{color_value_of, ColorValue};
use crate::datetime::{build_datetime, datetime_value, opt_view};
use crate::models::{Font, TimeZone};
use crate::resolved::ResolvedCard;
use crate::semantic::{cat_view, strs, CatType, SemType};
use crate::text::{dec, dec_int, i64_string, is_empty_str, u64_string};
use crate::tokens::{b, bool_text};
use crate::xml::{attr_views, attrs_text_views, close_line, line_text, text_line, Attr, Writer, XmlSink};

verus! {

/// An attribute pair, as text.
pub type Pair = (Seq<char>, Seq<char>);

/// One pair when `cond` holds.
pub open spec fn pair_if(cond: bool, name: Seq<char>, value: Seq<char>) -> Seq<Pair> {
    if cond {
        seq![(name, value)]
    } else {
        seq![]
    }
}

/// A pair for a set integer field.
pub open spec fn int_pair(name: Seq<char>, v: Option<i64>) -> Seq<Pair> {
    match v {
        Some(x) => seq![(name, dec_int(x as int))],
        None => seq![],
    }
}

/// A pair for a set text field.
pub open spec fn text_pair(name: Seq<char>, v: Option<String>) -> Seq<Pair> {
    match v {
        Some(x) => seq![(name, x@)],
        None => seq![],
    }
}

/// A pair for a set, non-empty text field.
pub open spec fn filled_pair(name: Seq<char>, v: Option<Seq<char>>) -> Seq<Pair> {
    match v {
        Some(x) => pair_if(x.len() > 0, name, x),
        None => seq![],
    }
}

/// The COLORREF a set color resolves to, if any.
pub open spec fn color_of(c: Option<ColorValue>) -> Option<u32> {
    match c {
        Some(v) => color_value_of(v),
        None => None,
    }
}

/// Resolve an optional color; one that does not resolve counts as unset.
pub fn resolve_color(c: &Option<ColorValue>) -> (r: Option<u32>)
    ensures
        r == color_of(*c),
{
    match c {
        Some(v) => match v.to_colorref() {
            Ok(x) => Some(x),
            Err(_) => None,
        },
        None => None,
    }
}

pub(crate) fn push_pair(attrs: &mut Vec<Attr<'static>>, name: &'static str, value: String)
    ensures
        attr_views(final(attrs)@) == attr_views(old(attrs)@) + seq![(name@, value@)],
{
    let ghost before = attrs@;
    attrs.push((name, value));
    assert(attr_views(attrs@) =~= attr_views(before) + seq![(name@, value@)]);
}

pub(crate) fn push_int(attrs: &mut Vec<Attr<'static>>, name: &'static str, v: Option<i64>)
    ensures
        attr_views(final(attrs)@) == attr_views(old(attrs)@) + int_pair(name@, v),
{
    match v {
        Some(x) => push_pair(attrs, name, i64_string(x)),
        None => {
            assert(attr_views(attrs@) =~= attr_views(old(attrs)@) + int_pair(name@, v));
        },
    }
}

pub(crate) fn push_text(attrs: &mut Vec<Attr<'static>>, name: &'static str, v: &Option<String>)
    ensures
        attr_views(final(attrs)@) == attr_views(old(attrs)@) + text_pair(name@, *v),
{
    match v {
        Some(x) => push_pair(attrs, name, x.clone()),
        None => {
            assert(attr_views(attrs@) =~= attr_views(old(attrs)@) + text_pair(name@, *v));
        },
    }
}

/// The grade index attributes, one per set grade.
pub open spec fn grade_pairs(g1: Option<i64>, g2: Option<i64>, g3: Option<i64>) -> Seq<Pair> {
    int_pair("GradeOneIndex"@, g1) + int_pair("GradeTwoIndex"@, g2) + int_pair(
        "GradeThreeIndex"@,
        g3,
    )
}

/// Append `GradeOneIndex` / `GradeTwoIndex` / `GradeThreeIndex` for the set
/// grades.
pub fn push_grades(attrs: &mut Vec<Attr<'static>>, g1: Option<i64>, g2: Option<i64>, g3: Option<i64>)
    ensures
        attr_views(final(attrs)@) == attr_views(old(attrs)@) + grade_pairs(g1, g2, g3),
{
    push_int(attrs, "GradeOneIndex", g1);
    push_int(attrs, "GradeTwoIndex", g2);
    push_int(attrs, "GradeThreeIndex", g3);
    assert(attr_views(attrs@) =~= attr_views(old(attrs)@) + grade_pairs(g1, g2, g3));
}

/// `Width`, `Height`, `Depth` for the set box dimensions.
pub fn box_dims(width: Option<i64>, height: Option<i64>, depth: Option<i64>) -> (a: Vec<Attr<'static>>)
    ensures
        attr_views(a@) == int_pair("Width"@, width) + int_pair("Height"@, height) + int_pair(
            "Depth"@,
            depth,
        ),
{
    let mut a: Vec<Attr<'static>> = Vec::new();
    assert(attr_views(a@) =~= Seq::<Pair>::empty());
    push_int(&mut a, "Width", width);
    push_int(&mut a, "Height", height);
    push_int(&mut a, "Depth", depth);
    assert(attr_views(a@) =~= int_pair("Width"@, width) + int_pair("Height"@, height) + int_pair(
        "Depth"@,
        depth,
    ));
    a
}

/// An icon override: `OverrideTypeIcon="true"` and the icon's name.
pub fn push_icon_override(style: &mut Vec<Attr<'static>>, icon: &Option<String>)
    ensures
        attr_views(final(style)@) == attr_views(old(style)@) + match *icon {
            Some(n) => seq![("OverrideTypeIcon"@, "true"@), ("TypeIconName"@, n@)],
            None => seq![],
        },
{
    match icon {
        Some(name) => {
            push_pair(style, "OverrideTypeIcon", "true".to_owned());
            push_pair(style, "TypeIconName", name.clone());
            assert(attr_views(style@) =~= attr_views(old(style)@) + seq![
                ("OverrideTypeIcon"@, "true"@),
                ("TypeIconName"@, name@),
            ]);
        },
        None => {
            assert(attr_views(style@) =~= attr_views(old(style)@) + Seq::<Pair>::empty());
        },
    }
}

/// The entity type reference, when the type is a collection entry.
pub fn push_type_ref(style: &mut Vec<Attr<'static>>, type_ref: &Option<String>)
    ensures
        attr_views(final(style)@) == attr_views(old(style)@) + text_pair(
            "EntityTypeReference"@,
            *type_ref,
        ),
{
    push_text(style, "EntityTypeReference", type_ref);
}

/// `BackColour`, `Filled`, `LineWidth` for the set fill fields.
pub fn push_fill(
    style: &mut Vec<Attr<'static>>,
    bg: Option<u32>,
    filled: Option<bool>,
    line_width: Option<i64>,
)
    ensures
        attr_views(final(style)@) == attr_views(old(style)@) + (match bg {
            Some(c) => seq![("BackColour"@, dec(c as nat))],
            None => seq![],
        }) + (match filled {
            Some(v) => seq![("Filled"@, bool_text(v))],
            None => seq![],
        }) + int_pair("LineWidth"@, line_width),
{
    let ghost start = attr_views(style@);
    if let Some(c) = bg {
        push_pair(style, "BackColour", u64_string(c as u64));
    }
    let ghost s1 = attr_views(style@);
    if let Some(v) = filled {
        push_pair(style, "Filled", b(v));
    }
    let ghost s2 = attr_views(style@);
    push_int(style, "LineWidth", line_width);
    assert(attr_views(style@) =~= start + (match bg {
        Some(c) => seq![("BackColour"@, dec(c as nat))],
        None => seq![],
    }) + (match filled {
        Some(v) => seq![("Filled"@, bool_text(v))],
        None => seq![],
    }) + int_pair("LineWidth"@, line_width));
}

/// A length in hundredths written as the decimal it denotes, without
/// trailing zeros: `150` is `1.5`, `200` is `2`, `-5` is `-0.05`.
pub open spec fn hundredths(v: int) -> Seq<char> {
    let a = if v < 0 {
        -v
    } else {
        v
    };
    let sign = if v < 0 {
        seq!['-']
    } else {
        seq![]
    };
    let whole = dec((a / 100) as nat);
    let frac = a % 100;
    sign + whole + if frac == 0 {
        seq![]
    } else if frac % 10 == 0 {
        seq!['.', crate::text::digit_char((frac / 10) as nat)]
    } else {
        seq!['.', crate::text::digit_char((frac / 10) as nat), crate::text::digit_char((frac % 10) as nat)]
    }
}

pub(crate) fn hundredths_text(v: i64) -> (s: String)
    ensures
        s@ == hundredths(v as int),
{
    let a: u64 = if v < 0 {
        (0i128 - v as i128) as u64
    } else {
        v as u64
    };
    let mut s = String::new();
    if v < 0 {
        crate::text::push_char(&mut s, '-');
    }
    crate::text::push_dec(&mut s, a / 100);
    let frac = a % 100;
    if frac != 0 {
        crate::text::push_char(&mut s, '.');
        crate::text::push_char(&mut s, digit_of(frac / 10));
        if frac % 10 != 0 {
            crate::text::push_char(&mut s, digit_of(frac % 10));
        }
    }
    assert(s@ =~= hundredths(v as int));
    s
}

fn digit_of(d: u64) -> (c: char)
    requires
        d < 10,
    ensures
        c == crate::text::digit_char(d as nat),
{
    let s = u64_string(d);
    let v = crate::text::chars_of(s.as_str());
    assert(dec(d as nat) == seq![crate::text::digit_char(d as nat)]);
    v[0]
}

/// `Width` and `Height` (given in hundredths) for the set dimensions.
pub fn push_wh(style: &mut Vec<Attr<'static>>, width: Option<i64>, height: Option<i64>)
    ensures
        attr_views(final(style)@) == attr_views(old(style)@) + (match width {
            Some(w) => seq![("Width"@, hundredths(w as int))],
            None => seq![],
        }) + (match height {
            Some(h) => seq![("Height"@, hundredths(h as int))],
            None => seq![],
        }),
{
    let ghost start = attr_views(style@);
    if let Some(w) = width {
        push_pair(style, "Width", hundredths_text(w));
    }
    let ghost s1 = attr_views(style@);
    if let Some(h) = height {
        push_pair(style, "Height", hundredths_text(h));
    }
    assert(attr_views(style@) =~= start + (match width {
        Some(w) => seq![("Width"@, hundredths(w as int))],
        None => seq![],
    }) + (match height {
        Some(h) => seq![("Height"@, hundredths(h as int))],
        None => seq![],
    }));
}

// ── Writing lines ───────────────────────────────────────────────────────────

pub(crate) fn put_empty<'s, S: XmlSink>(w: &mut Writer<'s, S>, tag: &str, attrs: &Vec<Attr>)
    requires
        old(w).out.valid(),
    ensures
        final(w).out.valid(),
        final(w).text() == old(w).text() + line_text(
            old(w).compact,
            old(w).depth as nat,
            tag@,
            attr_views(attrs@),
            true,
        ),
        final(w).compact == old(w).compact,
        final(w).depth == old(w).depth,
        *final(final(w).out) == *final(old(w).out),
{
    proof {
        attrs_text_views(attrs@);
    }
    w.empty(tag, attrs.as_slice());
    assert(final(w).text() =~= old(w).text() + line_text(
        old(w).compact,
        old(w).depth as nat,
        tag@,
        attr_views(attrs@),
        true,
    ));
}

pub(crate) fn put_open<'s, S: XmlSink>(w: &mut Writer<'s, S>, tag: &str, attrs: &Vec<Attr>)
    requires
        old(w).out.valid(),
        old(w).depth < usize::MAX,
    ensures
        final(w).out.valid(),
        final(w).text() == old(w).text() + line_text(
            old(w).compact,
            old(w).depth as nat,
            tag@,
            attr_views(attrs@),
            false,
        ),
        final(w).compact == old(w).compact,
        final(w).depth == old(w).depth + 1,
        *final(final(w).out) == *final(old(w).out),
{
    proof {
        attrs_text_views(attrs@);
    }
    w.open(tag, attrs.as_slice());
    assert(final(w).text() =~= old(w).text() + line_text(
        old(w).compact,
        old(w).depth as nat,
        tag@,
        attr_views(attrs@),
        false,
    ));
}

pub(crate) fn put_close<'s, S: XmlSink>(w: &mut Writer<'s, S>, tag: &str)
    requires
        old(w).out.valid(),
        old(w).depth > 0,
    ensures
        final(w).out.valid(),
        final(w).text() == old(w).text() + close_line(old(w).compact, (old(w).depth - 1) as nat, tag@),
        final(w).compact == old(w).compact,
        final(w).depth == old(w).depth - 1,
        *final(final(w).out) == *final(old(w).out),
{
    w.close(tag);
}

// ── Elements ────────────────────────────────────────────────────────────────

/// The `<TimeZone UniqueID Name/>` line of a time zone, when one is set.
pub open spec fn timezone_text(compact: bool, depth: nat, tz: Option<TimeZone>) -> Seq<char> {
    match tz {
        Some(t) => line_text(
            compact,
            depth,
            "TimeZone"@,
            seq![("UniqueID"@, dec_int(t.id as int)), ("Name"@, t.name@)],
            true,
        ),
        None => seq![],
    }
}

/// Emit a `<TimeZone UniqueID Name/>` on a chart item, if one is set.
pub fn emit_timezone<'s, S: XmlSink>(w: &mut Writer<'s, S>, tz: Option<&TimeZone>)
    requires
        old(w).out.valid(),
    ensures
        final(w).out.valid(),
        final(w).text() == old(w).text() + timezone_text(
            old(w).compact,
            old(w).depth as nat,
            match tz {
                Some(t) => Some(*t),
                None => None,
            },
        ),
        final(w).compact == old(w).compact,
        final(w).depth == old(w).depth,
        *final(final(w).out) == *final(old(w).out),
{
    if let Some(t) = tz {
        let mut a: Vec<Attr> = Vec::new();
        push_pair(&mut a, "UniqueID", i64_string(t.id));
        push_pair(&mut a, "Name", t.name.clone());
        assert(attr_views(a@) =~= seq![("UniqueID"@, dec_int(t.id as int)), ("Name"@, t.name@)]);
        put_empty(w, "TimeZone", &a);
    } else {
        assert(final(w).text() =~= old(w).text());
    }
}

/// The attributes of a full `<Font>`: ANB's defaults overlaid by the set
/// fields (white background, black text, Tahoma, `default_point` size).
pub open spec fn font_pairs(f: Font, default_point: i64) -> Seq<Pair> {
    let bg = match color_of(f.bg_color) {
        Some(c) => c,
        None => 16777215u32,
    };
    let fg = match color_of(f.color) {
        Some(c) => c,
        None => 0u32,
    };
    seq![
        ("BackColour"@, dec(bg as nat)),
        ("Bold"@, bool_text(f.bold == Some(true))),
        ("CharSet"@, "CharSetDefault"@),
        ("FaceName"@, match f.name {
            Some(n) => n@,
            None => "Tahoma"@,
        }),
        ("FontColour"@, dec(fg as nat)),
        ("Italic"@, bool_text(f.italic == Some(true))),
        ("PointSize"@, dec_int(match f.size {
            Some(s) => s,
            None => default_point,
        } as int)),
        ("Strikeout"@, bool_text(f.strikeout == Some(true))),
        ("Underline"@, bool_text(f.underline == Some(true))),
    ]
}

/// Emit a `<Font>` with the full ANB default set, overlaying the set fields.
pub fn emit_font_full<'s, S: XmlSink>(w: &mut Writer<'s, S>, f: &Font, default_point: i64)
    requires
        old(w).out.valid(),
    ensures
        final(w).out.valid(),
        final(w).text() == old(w).text() + line_text(
            old(w).compact,
            old(w).depth as nat,
            "Font"@,
            font_pairs(*f, default_point),
            true,
        ),
        final(w).compact == old(w).compact,
        final(w).depth == old(w).depth,
        *final(final(w).out) == *final(old(w).out),
{
    let bg = match resolve_color(&f.bg_color) {
        Some(c) => c,
        None => 16777215,
    };
    let fg = match resolve_color(&f.color) {
        Some(c) => c,
        None => 0,
    };
    let face = match &f.name {
        Some(n) => n.clone(),
        None => "Tahoma".to_owned(),
    };
    let size = match f.size {
        Some(s) => s,
        None => default_point,
    };
    let mut a: Vec<Attr> = Vec::new();
    push_pair(&mut a, "BackColour", u64_string(bg as u64));
    push_pair(&mut a, "Bold", b(f.bold == Some(true)));
    push_pair(&mut a, "CharSet", "CharSetDefault".to_owned());
    push_pair(&mut a, "FaceName", face);
    push_pair(&mut a, "FontColour", u64_string(fg as u64));
    push_pair(&mut a, "Italic", b(f.italic == Some(true)));
    push_pair(&mut a, "PointSize", i64_string(size));
    push_pair(&mut a, "Strikeout", b(f.strikeout == Some(true)));
    push_pair(&mut a, "Underline", b(f.underline == Some(true)));
    assert(attr_views(a@) =~= font_pairs(*f, default_point));
    put_empty(w, "Font", &a);
}

/// The metadata attributes of a chart item, in schema order: description,
/// the date/time flags and `DateTime`, the datetime description, `Ordered`,
/// and the source reference and type (empty texts are left out).
pub open spec fn meta_pairs(
    description: Option<Seq<char>>,
    date: Option<Seq<char>>,
    time: Option<Seq<char>>,
    datetime_description: Option<Seq<char>>,
    ordered: Option<bool>,
    source_ref: Option<Seq<char>>,
    source_type: Option<Seq<char>>,
) -> Seq<Pair> {
    filled_pair("Description"@, description) + (match datetime_value(date, time) {
        Some((dt, ds, ts)) => pair_if(ds, "DateSet"@, "true"@) + pair_if(ts, "TimeSet"@, "true"@)
            + seq![("DateTime"@, dt)],
        None => seq![],
    }) + filled_pair("DateTimeDescription"@, datetime_description) + pair_if(
        ordered == Some(true),
        "Ordered"@,
        "true"@,
    ) + filled_pair("SourceReference"@, source_ref) + filled_pair("SourceType"@, source_type)
}

pub(crate) fn push_filled(attrs: &mut Vec<Attr<'static>>, name: &'static str, v: Option<&str>)
    ensures
        attr_views(final(attrs)@) == attr_views(old(attrs)@) + filled_pair(name@, opt_view(v)),
{
    match v {
        Some(x) => {
            if !is_empty_str(x) {
                push_pair(attrs, name, x.to_owned());
                return;
            }
        },
        None => {},
    }
    assert(attr_views(attrs@) =~= attr_views(old(attrs)@) + filled_pair(name@, opt_view(v)));
}

/// Shared chart-item metadata attributes (description, date/time, source),
/// in schema order after `Id`/`Label` and before grades.
pub fn meta_attrs(
    description: Option<&str>,
    date: Option<&str>,
    time: Option<&str>,
    datetime_description: Option<&str>,
    ordered: Option<bool>,
    source_ref: Option<&str>,
    source_type: Option<&str>,
) -> (a: Vec<Attr<'static>>)
    ensures
        attr_views(a@) == meta_pairs(
            opt_view(description),
            opt_view(date),
            opt_view(time),
            opt_view(datetime_description),
            ordered,
            opt_view(source_ref),
            opt_view(source_type),
        ),
{
    let mut a: Vec<Attr<'static>> = Vec::new();
    assert(attr_views(a@) =~= Seq::<Pair>::empty());
    push_filled(&mut a, "Description", description);
    let ghost s1 = attr_views(a@);
    match build_datetime(date, time) {
        Some((dt, ds, ts)) => {
            if ds {
                push_pair(&mut a, "DateSet", "true".to_owned());
            }
            if ts {
                push_pair(&mut a, "TimeSet", "true".to_owned());
            }
            push_pair(&mut a, "DateTime", dt);
        },
        None => {},
    }
    let ghost s2 = attr_views(a@);
    assert(s2 =~= s1 + match datetime_value(opt_view(date), opt_view(time)) {
        Some((dt, ds, ts)) => pair_if(ds, "DateSet"@, "true"@) + pair_if(ts, "TimeSet"@, "true"@)
            + seq![("DateTime"@, dt)],
        None => seq![],
    });
    push_filled(&mut a, "DateTimeDescription", datetime_description);
    if ordered == Some(true) {
        push_pair(&mut a, "Ordered", "true".to_owned());
    }
    let ghost s3 = attr_views(a@);
    push_filled(&mut a, "SourceReference", source_ref);
    push_filled(&mut a, "SourceType", source_type);
    assert(attr_views(a@) =~= meta_pairs(
        opt_view(description),
        opt_view(date),
        opt_view(time),
        opt_view(datetime_description),
        ordered,
        opt_view(source_ref),
        opt_view(source_type),
    ));
    a
}

// ── Evidence cards ──────────────────────────────────────────────────────────

/// The attributes of a `<Card>`, in schema order.
pub open spec fn card_pairs(c: ResolvedCard) -> Seq<Pair> {
    text_pair("Summary"@, c.summary) + pair_if(c.date_set, "DateSet"@, "true"@) + pair_if(
        c.time_set,
        "TimeSet"@,
        "true"@,
    ) + text_pair("DateTime"@, c.datetime) + grade_pairs(c.grade_one, c.grade_two, c.grade_three)
        + text_pair("SourceReference"@, c.source_ref) + text_pair("SourceType"@, c.source_type)
        + text_pair("Text"@, c.description) + text_pair(
        "DateTimeDescription"@,
        c.datetime_description,
    )
}

/// A card's lines: a self-closing `<Card/>`, or, when it carries a time
/// zone, `<Card>` around its `<TimeZone/>`.
pub open spec fn card_text(compact: bool, depth: nat, c: ResolvedCard) -> Seq<char> {
    if c.timezone_id is Some || c.timezone_name is Some {
        line_text(compact, depth, "Card"@, card_pairs(c), false) + line_text(
            compact,
            depth + 1,
            "TimeZone"@,
            int_pair("UniqueID"@, c.timezone_id) + text_pair("Name"@, c.timezone_name),
            true,
        ) + close_line(compact, depth, "Card"@)
    } else {
        line_text(compact, depth, "Card"@, card_pairs(c), true)
    }
}

/// The lines of the first `n` cards.
pub open spec fn cards_text(compact: bool, depth: nat, cards: Seq<ResolvedCard>, n: int) -> Seq<char>
    decreases n,
{
    if n <= 0 {
        seq![]
    } else {
        cards_text(compact, depth, cards, n - 1) + card_text(compact, depth, cards[n - 1])
    }
}

/// A `<CardCollection>` around the cards, or nothing when there are none.
pub open spec fn card_collection_text(compact: bool, depth: nat, cards: Seq<ResolvedCard>) -> Seq<char> {
    if cards.len() == 0 {
        seq![]
    } else {
        line_text(compact, depth, "CardCollection"@, seq![], false) + cards_text(
            compact,
            depth + 1,
            cards,
            cards.len() as int,
        ) + close_line(compact, depth, "CardCollection"@)
    }
}

fn card_attrs(c: &ResolvedCard) -> (a: Vec<Attr<'static>>)
    ensures
        attr_views(a@) == card_pairs(*c),
{
    let mut a: Vec<Attr<'static>> = Vec::new();
    assert(attr_views(a@) =~= Seq::<Pair>::empty());
    push_text(&mut a, "Summary", &c.summary);
    let ghost s1 = attr_views(a@);
    if c.date_set {
        push_pair(&mut a, "DateSet", "true".to_owned());
    }
    let ghost s2 = attr_views(a@);
    if c.time_set {
        push_pair(&mut a, "TimeSet", "true".to_owned());
    }
    let ghost s3 = attr_views(a@);
    push_text(&mut a, "DateTime", &c.datetime);
    push_grades(&mut a, c.grade_one, c.grade_two, c.grade_three);
    push_text(&mut a, "SourceReference", &c.source_ref);
    push_text(&mut a, "SourceType", &c.source_type);
    push_text(&mut a, "Text", &c.description);
    push_text(&mut a, "DateTimeDescription", &c.datetime_description);
    assert(attr_views(a@) =~= card_pairs(*c));
    a
}

fn emit_card<'s, S: XmlSink>(w: &mut Writer<'s, S>, c: &ResolvedCard)
    requires
        old(w).out.valid(),
        old(w).depth < usize::MAX - 1,
    ensures
        final(w).out.valid(),
        final(w).text() == old(w).text() + card_text(old(w).compact, old(w).depth as nat, *c),
        final(w).compact == old(w).compact,
        final(w).depth == old(w).depth,
        *final(final(w).out) == *final(old(w).out),
{
    let a = card_attrs(c);
    if c.timezone_id.is_some() || c.timezone_name.is_some() {
        put_open(w, "Card", &a);
        let mut tz: Vec<Attr> = Vec::new();
        assert(attr_views(tz@) =~= Seq::<Pair>::empty());
        push_int(&mut tz, "UniqueID", c.timezone_id);
        push_text(&mut tz, "Name", &c.timezone_name);
        put_empty(w, "TimeZone", &tz);
        put_close(w, "Card");
        assert(final(w).text() =~= old(w).text() + card_text(old(w).compact, old(w).depth as nat, *c));
    } else {
        put_empty(w, "Card", &a);
    }
}

/// Emit a `<CardCollection>` of `<Card>` elements (each with its optional
/// `<TimeZone>`); nothing when there are no cards.
pub fn emit_cards<'s, S: XmlSink>(w: &mut Writer<'s, S>, cards: &Vec<ResolvedCard>)
    requires
        old(w).out.valid(),
        old(w).depth < usize::MAX - 2,
    ensures
        final(w).out.valid(),
        final(w).text() == old(w).text() + card_collection_text(
            old(w).compact,
            old(w).depth as nat,
            cards@,
        ),
        final(w).compact == old(w).compact,
        final(w).depth == old(w).depth,
        *final(final(w).out) == *final(old(w).out),
{
    if cards.len() == 0 {
        assert(final(w).text() =~= old(w).text());
        return;
    }
    let none: Vec<Attr> = Vec::new();
    assert(attr_views(none@) =~= Seq::<Pair>::empty());
    put_open(w, "CardCollection", &none);
    let ghost head = w.text();
    let n = cards.len();
    for i in 0..n
        invariant
            n == cards@.len(),
            w.out.valid(),
            w.compact == old(w).compact,
            w.depth == old(w).depth + 1,
            old(w).depth < usize::MAX - 2,
            *final(w.out) == *final(old(w).out),
            w.text() == head + cards_text(w.compact, w.depth as nat, cards@, i as int),
    {
        emit_card(w, &cards[i]);
    }
    put_close(w, "CardCollection");
    assert(final(w).text() =~= old(w).text() + card_collection_text(
        old(w).compact,
        old(w).depth as nat,
        cards@,
    ));
}

// ── Catalogue entries ───────────────────────────────────────────────────────

/// The lines of the synonyms, each a `<lcx:Synonym>` text element.
pub open spec fn synonyms_text(compact: bool, depth: nat, syn: Seq<Seq<char>>, n: int) -> Seq<char>
    decreases n,
{
    if n <= 0 {
        seq![]
    } else {
        synonyms_text(compact, depth, syn, n - 1) + text_line(compact, depth, "lcx:Synonym"@, syn[n
            - 1])
    }
}

/// A `<Documentation>` block with the synonyms and the description, when
/// the entry has either.
pub open spec fn documentation_text(compact: bool, depth: nat, t: SemType) -> Seq<char> {
    if t.synonyms.len() > 0 || t.description is Some {
        line_text(compact, depth, "Documentation"@, seq![], false) + synonyms_text(
            compact,
            depth + 1,
            t.synonyms,
            t.synonyms.len() as int,
        ) + text_line(
            compact,
            depth + 1,
            "Description"@,
            match t.description {
                Some(d) => d,
                None => seq![],
            },
        ) + close_line(compact, depth, "Documentation"@)
    } else {
        seq![]
    }
}

/// A catalogue entry: the tag with its GUID, parent and `abstract` flag, its
/// name element, and its documentation.
pub open spec fn lcx_type_text(
    compact: bool,
    depth: nat,
    tag: Seq<char>,
    guid_attr: Seq<char>,
    parent_attr: Seq<char>,
    name_tag: Seq<char>,
    t: SemType,
) -> Seq<char> {
    line_text(
        compact,
        depth,
        tag,
        seq![(guid_attr, t.guid)] + (match t.parent {
            Some(p) => seq![(parent_attr, p)],
            None => seq![],
        }) + pair_if(t.abstract_, "abstract"@, "true"@),
        false,
    ) + text_line(compact, depth + 1, name_tag, t.name) + documentation_text(compact, depth + 1, t)
        + close_line(compact, depth, tag)
}

#[verifier::rlimit(50)]
fn emit_documentation<'s, S: XmlSink>(w: &mut Writer<'s, S>, t: &CatType)
    requires
        old(w).out.valid(),
        old(w).depth < usize::MAX - 2,
    ensures
        final(w).out.valid(),
        final(w).text() == old(w).text() + documentation_text(
            old(w).compact,
            old(w).depth as nat,
            cat_view(*t),
        ),
        final(w).compact == old(w).compact,
        final(w).depth == old(w).depth,
        *final(final(w).out) == *final(old(w).out),
{
    if t.synonyms.len() > 0 || t.description.is_some() {
        let none: Vec<Attr> = Vec::new();
        assert(attr_views(none@) =~= Seq::<Pair>::empty());
        put_open(w, "Documentation", &none);
        let ghost head = w.text();
        let n = t.synonyms.len();
        for i in 0..n
            invariant
                n == t.synonyms@.len(),
                w.out.valid(),
                w.compact == old(w).compact,
                w.depth == old(w).depth + 1,
                old(w).depth < usize::MAX - 2,
                *final(w.out) == *final(old(w).out),
                w.text() == head + synonyms_text(w.compact, w.depth as nat, strs(t.synonyms@), i as int),
        {
            w.text_element("lcx:Synonym", t.synonyms[i].as_str());
        }
        let d: &str = match &t.description {
            Some(x) => x.as_str(),
            None => {
                proof {
                    reveal_strlit("");
                }
                ""
            },
        };
        w.text_element("Description", d);
        put_close(w, "Documentation");
        assert(final(w).text() =~= old(w).text() + documentation_text(
            old(w).compact,
            old(w).depth as nat,
            cat_view(*t),
        ));
    } else {
        assert(final(w).text() =~= old(w).text());
    }
}

/// Emit one `<lcx:Type>` / `<lcx:Property>` catalogue entry.
#[verifier::rlimit(50)]
pub fn emit_lcx_type<'s, S: XmlSink>(
    w: &mut Writer<'s, S>,
    tag: &str,
    guid_attr: &'static str,
    parent_attr: &'static str,
    name_tag: &str,
    t: &CatType,
)
    requires
        old(w).out.valid(),
        old(w).depth < usize::MAX - 3,
    ensures
        final(w).out.valid(),
        final(w).text() == old(w).text() + lcx_type_text(
            old(w).compact,
            old(w).depth as nat,
            tag@,
            guid_attr@,
            parent_attr@,
            name_tag@,
            cat_view(*t),
        ),
        final(w).compact == old(w).compact,
        final(w).depth == old(w).depth,
        *final(final(w).out) == *final(old(w).out),
{
    let mut a: Vec<Attr> = Vec::new();
    push_pair(&mut a, guid_attr, t.guid.clone());
    push_text(&mut a, parent_attr, &t.parent_guid);
    if t.abstract_ {
        push_pair(&mut a, "abstract", "true".to_owned());
    }
    assert(attr_views(a@) =~= seq![(guid_attr@, t.guid@)] + text_pair(parent_attr@, t.parent_guid)
        + pair_if(t.abstract_, "abstract"@, "true"@));
    assert(text_pair(parent_attr@, t.parent_guid) == match cat_view(*t).parent {
        Some(p) => seq![(parent_attr@, p)],
        None => Seq::<Pair>::empty(),
    });
    put_open(w, tag, &a);
    let ghost s1 = w.text();
    w.text_element(name_tag, t.name.as_str());
    emit_documentation(w, t);
    put_close(w, tag);
    assert(final(w).text() =~= old(w).text() + lcx_type_text(
        old(w).compact,
        old(w).depth as nat,
        tag@,
        guid_attr@,
        parent_attr@,
        name_tag@,
        cat_view(*t),
    ));
}

} // verus!
