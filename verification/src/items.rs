//! Chart-item emission: an entity's representation element and style, its
//! `<AttributeCollection>`, the `<CIStyle>` of label font and sub-item
//! visibility, and the whole entity `<ChartItem>`.
use vstd::prelude::*;

use crate::datetime::opt_view;
use crate::emit::{card_collection_text, color_of, emit_cards, emit_timezone, grade_pairs, hundredths, int_pair, meta_attrs, meta_pairs, pair_if, push_fill, push_grades, push_icon_override, push_int, push_pair, push_text, push_type_ref, push_wh, put_close, put_empty, put_open, resolve_color, text_pair, timezone_text, box_dims, hundredths_text, Pair};
use crate::entities::{ref_common, EntityRef};
use crate::models::{CategoricalStyleCfg, Font, Link, Show};
use crate::resolved::{ResolvedAttr, ResolvedEntity, ResolvedLink};
use crate::text::{dec, dec_int, i64_string, u64_string};
use crate::tokens::{b, bool_text, enlargement_of, enlargement_token, text_align_of, text_align_token};
use crate::xml::{attr_views, close_line, line_text, Attr, Writer, XmlSink};

verus! {

// ── Entity representations ──────────────────────────────────────────────────

/// An element holding one empty style element: the opening line, the style
/// line one level deeper, the closing line.
pub open spec fn wrapped_text(
    compact: bool,
    depth: nat,
    tag: Seq<char>,
    attrs: Seq<Pair>,
    style_tag: Seq<char>,
    style: Seq<Pair>,
) -> Seq<char> {
    line_text(compact, depth, tag, attrs, false) + line_text(compact, depth + 1, style_tag, style, true)
        + close_line(compact, depth, tag)
}

/// `IconShadingColour` for a shade that is set and not black.
pub open spec fn shade_pair(c: Option<u32>) -> Seq<Pair> {
    match c {
        Some(x) => pair_if(x != 0, "IconShadingColour"@, dec(x as nat)),
        None => seq![],
    }
}

/// The first of two optional colors that is set.
pub open spec fn either(a: Option<u32>, b: Option<u32>) -> Option<u32> {
    match a {
        Some(x) => Some(x),
        None => b,
    }
}

/// A color pair for a set color.
pub open spec fn color_pair(name: Seq<char>, c: Option<u32>) -> Seq<Pair> {
    match c {
        Some(x) => seq![(name, dec(x as nat))],
        None => seq![],
    }
}

/// The fill pairs: background, filled flag, line width.
pub open spec fn fill_pairs(bg: Option<u32>, filled: Option<bool>, line_width: Option<i64>) -> Seq<Pair> {
    color_pair("BackColour"@, bg) + (match filled {
        Some(v) => seq![("Filled"@, bool_text(v))],
        None => seq![],
    }) + int_pair("LineWidth"@, line_width)
}

/// The icon override pairs.
pub open spec fn override_pairs(icon: Option<String>) -> Seq<Pair> {
    match icon {
        Some(n) => seq![("OverrideTypeIcon"@, "true"@), ("TypeIconName"@, n@)],
        None => seq![],
    }
}

/// A token pair for a set text field, through `tok`.
pub open spec fn token_pair(name: Seq<char>, v: Option<String>, tok: spec_fn(Seq<char>) -> Seq<char>) -> Seq<Pair> {
    match v {
        Some(x) => seq![(name, tok(x@))],
        None => seq![],
    }
}

/// `Width` and `Height` in hundredths.
pub open spec fn wh_pairs(width: Option<i64>, height: Option<i64>) -> Seq<Pair> {
    (match width {
        Some(w) => seq![("Width"@, hundredths(w as int))],
        None => seq![],
    }) + (match height {
        Some(h) => seq![("Height"@, hundredths(h as int))],
        None => seq![],
    })
}

/// The pairs every non-icon style starts with: strength, type, type reference.
pub open spec fn style_head(e: ResolvedEntity, strength: Seq<char>) -> Seq<Pair> {
    seq![("Strength"@, strength), ("Type"@, e.etype@)] + text_pair("EntityTypeReference"@, e.etype_ref)
}

/// The XML of an entity's representation: its element and the style element
/// inside it, by representation. Shading falls back to the auto-assigned
/// shade and is left out when black; a label is a text block drawn in the
/// chart background color (white when the chart sets none).
#[verifier::opaque]
pub open spec fn representation_text(
    compact: bool,
    depth: nat,
    e: ResolvedEntity,
    er: EntityRef,
    strength: Seq<char>,
    chart_bg: Option<u32>,
) -> Seq<char> {
    match er {
        EntityRef::Icon(i) => wrapped_text(
            compact,
            depth,
            "Icon"@,
            int_pair("TextX"@, i.text_x) + int_pair("TextY"@, i.text_y),
            "IconStyle"@,
            seq![("Type"@, e.etype@)] + text_pair("EntityTypeReference"@, e.etype_ref)
                + override_pairs(e.icon_override) + token_pair(
                "Enlargement"@,
                i.enlargement,
                |x: Seq<char>| enlargement_of(x),
            ) + shade_pair(either(color_of(i.color), e.auto_shade)),
        ),
        EntityRef::Box(x) => wrapped_text(
            compact,
            depth,
            "Box"@,
            int_pair("Width"@, x.width) + int_pair("Height"@, x.height) + int_pair("Depth"@, x.depth),
            "BoxStyle"@,
            style_head(e, strength) + fill_pairs(color_of(x.bg_color), x.filled, x.line_width),
        ),
        EntityRef::Circle(x) => wrapped_text(
            compact,
            depth,
            "Circle"@,
            seq![],
            "CircleStyle"@,
            style_head(e, strength) + fill_pairs(color_of(x.bg_color), x.filled, x.line_width) + (
            match x.diameter {
                Some(d) => seq![("Diameter"@, hundredths(d as int))],
                None => seq![],
            }) + (match x.autosize {
                Some(v) => seq![("Autosize"@, bool_text(v))],
                None => seq![],
            }),
        ),
        EntityRef::TextBlock(x) => wrapped_text(
            compact,
            depth,
            "TextBlock"@,
            seq![],
            "TextBlockStyle"@,
            style_head(e, strength) + token_pair(
                "Alignment"@,
                x.alignment,
                |a: Seq<char>| text_align_of(a),
            ) + fill_pairs(color_of(x.bg_color), x.filled, x.line_width) + color_pair(
                "LineColour"@,
                color_of(x.line_color),
            ) + wh_pairs(x.width, x.height),
        ),
        EntityRef::Label(x) => {
            let bg = match chart_bg {
                Some(c) => c,
                None => 16777215u32,
            };
            wrapped_text(
                compact,
                depth,
                "TextBlock"@,
                seq![],
                "TextBlockStyle"@,
                seq![
                    ("Strength"@, strength),
                    ("Type"@, e.etype@),
                    ("BackColour"@, dec(bg as nat)),
                    ("Filled"@, "false"@),
                    ("LineColour"@, dec(bg as nat)),
                ] + text_pair("EntityTypeReference"@, e.etype_ref) + token_pair(
                    "Alignment"@,
                    x.alignment,
                    |a: Seq<char>| text_align_of(a),
                ) + wh_pairs(x.width, x.height),
            )
        },
        EntityRef::EventFrame(x) => wrapped_text(
            compact,
            depth,
            "Event"@,
            seq![],
            "EventStyle"@,
            style_head(e, strength) + fill_pairs(color_of(x.bg_color), x.filled, x.line_width)
                + shade_pair(either(color_of(x.shade_color), e.auto_shade)) + color_pair(
                "LineColour"@,
                either(color_of(x.line_color), e.auto_shade),
            ) + override_pairs(e.icon_override),
        ),
        EntityRef::ThemeLine(x) => wrapped_text(
            compact,
            depth,
            "Theme"@,
            seq![],
            "ThemeStyle"@,
            style_head(e, strength) + int_pair("LineWidth"@, x.line_width) + shade_pair(
                either(color_of(x.shade_color), e.auto_shade),
            ) + color_pair("LineColour"@, either(color_of(x.line_color), e.auto_shade))
                + override_pairs(e.icon_override),
        ),
    }
}

fn put_wrapped<'s, S: XmlSink>(
    w: &mut Writer<'s, S>,
    tag: &str,
    attrs: &Vec<Attr>,
    style_tag: &str,
    style: &Vec<Attr>,
)
    requires
        old(w).out.valid(),
        old(w).depth < usize::MAX - 1,
    ensures
        final(w).out.valid(),
        final(w).text() == old(w).text() + wrapped_text(
            old(w).compact,
            old(w).depth as nat,
            tag@,
            attr_views(attrs@),
            style_tag@,
            attr_views(style@),
        ),
        final(w).compact == old(w).compact,
        final(w).depth == old(w).depth,
        *final(final(w).out) == *final(old(w).out),
{
    put_open(w, tag, attrs);
    put_empty(w, style_tag, style);
    put_close(w, tag);
    assert(final(w).text() =~= old(w).text() + wrapped_text(
        old(w).compact,
        old(w).depth as nat,
        tag@,
        attr_views(attrs@),
        style_tag@,
        attr_views(style@),
    ));
}

fn push_shade(style: &mut Vec<Attr<'static>>, c: Option<u32>)
    ensures
        attr_views(final(style)@) == attr_views(old(style)@) + shade_pair(c),
{
    match c {
        Some(x) => {
            if x != 0 {
                push_pair(style, "IconShadingColour", u64_string(x as u64));
            } else {
                assert(attr_views(style@) =~= attr_views(old(style)@) + shade_pair(c));
            }
        },
        None => {
            assert(attr_views(style@) =~= attr_views(old(style)@) + shade_pair(c));
        },
    }
}

pub(crate) fn push_color(style: &mut Vec<Attr<'static>>, name: &'static str, c: Option<u32>)
    ensures
        attr_views(final(style)@) == attr_views(old(style)@) + color_pair(name@, c),
{
    match c {
        Some(x) => push_pair(style, name, u64_string(x as u64)),
        None => {
            assert(attr_views(style@) =~= attr_views(old(style)@) + color_pair(name@, c));
        },
    }
}

pub(crate) fn push_bool(style: &mut Vec<Attr<'static>>, name: &'static str, v: Option<bool>)
    ensures
        attr_views(final(style)@) == attr_views(old(style)@) + match v {
            Some(x) => seq![(name@, bool_text(x))],
            None => Seq::<Pair>::empty(),
        },
{
    match v {
        Some(x) => push_pair(style, name, b(x)),
        None => {
            assert(attr_views(style@) =~= attr_views(old(style)@));
        },
    }
}

fn push_hundredths(style: &mut Vec<Attr<'static>>, name: &'static str, v: Option<i64>)
    ensures
        attr_views(final(style)@) == attr_views(old(style)@) + match v {
            Some(x) => seq![(name@, hundredths(x as int))],
            None => Seq::<Pair>::empty(),
        },
{
    match v {
        Some(x) => push_pair(style, name, hundredths_text(x)),
        None => {
            assert(attr_views(style@) =~= attr_views(old(style)@));
        },
    }
}

fn push_alignment(style: &mut Vec<Attr<'static>>, al: &Option<String>)
    ensures
        attr_views(final(style)@) == attr_views(old(style)@) + token_pair(
            "Alignment"@,
            *al,
            |a: Seq<char>| text_align_of(a),
        ),
{
    match al {
        Some(a) => push_pair(style, "Alignment", text_align_token(a.as_str())),
        None => {
            assert(attr_views(style@) =~= attr_views(old(style)@));
        },
    }
}

fn or_color(a: Option<u32>, b: Option<u32>) -> (r: Option<u32>)
    ensures
        r == either(a, b),
{
    match a {
        Some(x) => Some(x),
        None => b,
    }
}

fn head_style(e: &ResolvedEntity, strength: &str) -> (style: Vec<Attr<'static>>)
    ensures
        attr_views(style@) == style_head(*e, strength@),
{
    let mut style: Vec<Attr<'static>> = Vec::new();
    assert(attr_views(style@) =~= Seq::<Pair>::empty());
    push_pair(&mut style, "Strength", strength.to_owned());
    push_pair(&mut style, "Type", e.etype.clone());
    push_type_ref(&mut style, &e.etype_ref);
    assert(attr_views(style@) =~= style_head(*e, strength@));
    style
}

fn emit_icon_rep<'s, S: XmlSink>(
    w: &mut Writer<'s, S>,
    e: &ResolvedEntity,
    icon: &crate::entities::Icon,
    strength: &str,
    chart_bg: Option<u32>,
)
    requires
        old(w).out.valid(),
        old(w).depth < usize::MAX - 1,
    ensures
        final(w).out.valid(),
        final(w).text() == old(w).text() + representation_text(
            old(w).compact,
            old(w).depth as nat,
            *e,
            EntityRef::Icon(icon),
            strength@,
            chart_bg,
        ),
        final(w).compact == old(w).compact,
        final(w).depth == old(w).depth,
        *final(final(w).out) == *final(old(w).out),
{
    reveal(representation_text);
        let mut ia: Vec<Attr> = Vec::new();
        assert(attr_views(ia@) =~= Seq::<Pair>::empty());
        push_int(&mut ia, "TextX", icon.text_x);
        push_int(&mut ia, "TextY", icon.text_y);
        let mut style: Vec<Attr> = Vec::new();
        assert(attr_views(style@) =~= Seq::<Pair>::empty());
        push_pair(&mut style, "Type", e.etype.clone());
        push_type_ref(&mut style, &e.etype_ref);
        push_icon_override(&mut style, &e.icon_override);
        match &icon.enlargement {
            Some(en) => push_pair(&mut style, "Enlargement", enlargement_token(en.as_str())),
            None => {},
        }
        let ghost s3 = attr_views(style@);
        push_shade(&mut style, or_color(resolve_color(&icon.color), e.auto_shade));
        assert(attr_views(ia@) =~= int_pair("TextX"@, icon.text_x) + int_pair("TextY"@, icon.text_y));
        assert(attr_views(style@) =~= seq![("Type"@, e.etype@)] + text_pair(
            "EntityTypeReference"@,
            e.etype_ref,
        ) + override_pairs(e.icon_override) + token_pair(
            "Enlargement"@,
            icon.enlargement,
            |x: Seq<char>| enlargement_of(x),
        ) + shade_pair(either(color_of(icon.color), e.auto_shade)));
        put_wrapped(w, "Icon", &ia, "IconStyle", &style);
}

fn emit_box_rep<'s, S: XmlSink>(
    w: &mut Writer<'s, S>,
    e: &ResolvedEntity,
    bx: &crate::entities::Box,
    strength: &str,
    chart_bg: Option<u32>,
)
    requires
        old(w).out.valid(),
        old(w).depth < usize::MAX - 1,
    ensures
        final(w).out.valid(),
        final(w).text() == old(w).text() + representation_text(
            old(w).compact,
            old(w).depth as nat,
            *e,
            EntityRef::Box(bx),
            strength@,
            chart_bg,
        ),
        final(w).compact == old(w).compact,
        final(w).depth == old(w).depth,
        *final(final(w).out) == *final(old(w).out),
{
    reveal(representation_text);
        let dims = box_dims(bx.width, bx.height, bx.depth);
        let mut style = head_style(e, strength);
        push_fill(&mut style, resolve_color(&bx.bg_color), bx.filled, bx.line_width);
        assert(attr_views(style@) =~= style_head(*e, strength@) + fill_pairs(
            color_of(bx.bg_color),
            bx.filled,
            bx.line_width,
        ));
        put_wrapped(w, "Box", &dims, "BoxStyle", &style);
}

fn emit_circle_rep<'s, S: XmlSink>(
    w: &mut Writer<'s, S>,
    e: &ResolvedEntity,
    c: &crate::entities::Circle,
    strength: &str,
    chart_bg: Option<u32>,
)
    requires
        old(w).out.valid(),
        old(w).depth < usize::MAX - 1,
    ensures
        final(w).out.valid(),
        final(w).text() == old(w).text() + representation_text(
            old(w).compact,
            old(w).depth as nat,
            *e,
            EntityRef::Circle(c),
            strength@,
            chart_bg,
        ),
        final(w).compact == old(w).compact,
        final(w).depth == old(w).depth,
        *final(final(w).out) == *final(old(w).out),
{
    reveal(representation_text);
    let none: Vec<Attr> = Vec::new();
    assert(attr_views(none@) =~= Seq::<Pair>::empty());
        let mut style = head_style(e, strength);
        push_fill(&mut style, resolve_color(&c.bg_color), c.filled, c.line_width);
        push_hundredths(&mut style, "Diameter", c.diameter);
        push_bool(&mut style, "Autosize", c.autosize);
        assert(attr_views(style@) =~= style_head(*e, strength@) + fill_pairs(
            color_of(c.bg_color),
            c.filled,
            c.line_width,
        ) + (match c.diameter {
            Some(d) => seq![("Diameter"@, hundredths(d as int))],
            None => seq![],
        }) + (match c.autosize {
            Some(v) => seq![("Autosize"@, bool_text(v))],
            None => seq![],
        }));
        put_wrapped(w, "Circle", &none, "CircleStyle", &style);
}

fn emit_text_block_rep<'s, S: XmlSink>(
    w: &mut Writer<'s, S>,
    e: &ResolvedEntity,
    t: &crate::entities::TextBlock,
    strength: &str,
    chart_bg: Option<u32>,
)
    requires
        old(w).out.valid(),
        old(w).depth < usize::MAX - 1,
    ensures
        final(w).out.valid(),
        final(w).text() == old(w).text() + representation_text(
            old(w).compact,
            old(w).depth as nat,
            *e,
            EntityRef::TextBlock(t),
            strength@,
            chart_bg,
        ),
        final(w).compact == old(w).compact,
        final(w).depth == old(w).depth,
        *final(final(w).out) == *final(old(w).out),
{
    reveal(representation_text);
    let none: Vec<Attr> = Vec::new();
    assert(attr_views(none@) =~= Seq::<Pair>::empty());
        let mut style = head_style(e, strength);
        push_alignment(&mut style, &t.alignment);
        push_fill(&mut style, resolve_color(&t.bg_color), t.filled, t.line_width);
        push_color(&mut style, "LineColour", resolve_color(&t.line_color));
        push_wh(&mut style, t.width, t.height);
        assert(attr_views(style@) =~= style_head(*e, strength@) + token_pair(
            "Alignment"@,
            t.alignment,
            |a: Seq<char>| text_align_of(a),
        ) + fill_pairs(color_of(t.bg_color), t.filled, t.line_width) + color_pair(
            "LineColour"@,
            color_of(t.line_color),
        ) + wh_pairs(t.width, t.height));
        put_wrapped(w, "TextBlock", &none, "TextBlockStyle", &style);
}

fn emit_label_rep<'s, S: XmlSink>(
    w: &mut Writer<'s, S>,
    e: &ResolvedEntity,
    l: &crate::entities::Label,
    strength: &str,
    chart_bg: Option<u32>,
)
    requires
        old(w).out.valid(),
        old(w).depth < usize::MAX - 1,
    ensures
        final(w).out.valid(),
        final(w).text() == old(w).text() + representation_text(
            old(w).compact,
            old(w).depth as nat,
            *e,
            EntityRef::Label(l),
            strength@,
            chart_bg,
        ),
        final(w).compact == old(w).compact,
        final(w).depth == old(w).depth,
        *final(final(w).out) == *final(old(w).out),
{
    reveal(representation_text);
    let none: Vec<Attr> = Vec::new();
    assert(attr_views(none@) =~= Seq::<Pair>::empty());
        let bg: u32 = match chart_bg {
            Some(c) => c,
            None => 16777215u32,
        };
        let mut style: Vec<Attr> = Vec::new();
        assert(attr_views(style@) =~= Seq::<Pair>::empty());
        push_pair(&mut style, "Strength", strength.to_owned());
        push_pair(&mut style, "Type", e.etype.clone());
        push_pair(&mut style, "BackColour", u64_string(bg as u64));
        push_pair(&mut style, "Filled", "false".to_owned());
        push_pair(&mut style, "LineColour", u64_string(bg as u64));
        push_type_ref(&mut style, &e.etype_ref);
        push_alignment(&mut style, &l.alignment);
        push_wh(&mut style, l.width, l.height);
        assert(attr_views(style@) =~= seq![
            ("Strength"@, strength@),
            ("Type"@, e.etype@),
            ("BackColour"@, dec(bg as nat)),
            ("Filled"@, "false"@),
            ("LineColour"@, dec(bg as nat)),
        ] + text_pair("EntityTypeReference"@, e.etype_ref) + token_pair(
            "Alignment"@,
            l.alignment,
            |a: Seq<char>| text_align_of(a),
        ) + wh_pairs(l.width, l.height));
        put_wrapped(w, "TextBlock", &none, "TextBlockStyle", &style);
}

fn emit_event_frame_rep<'s, S: XmlSink>(
    w: &mut Writer<'s, S>,
    e: &ResolvedEntity,
    ev: &crate::entities::EventFrame,
    strength: &str,
    chart_bg: Option<u32>,
)
    requires
        old(w).out.valid(),
        old(w).depth < usize::MAX - 1,
    ensures
        final(w).out.valid(),
        final(w).text() == old(w).text() + representation_text(
            old(w).compact,
            old(w).depth as nat,
            *e,
            EntityRef::EventFrame(ev),
            strength@,
            chart_bg,
        ),
        final(w).compact == old(w).compact,
        final(w).depth == old(w).depth,
        *final(final(w).out) == *final(old(w).out),
{
    reveal(representation_text);
    let none: Vec<Attr> = Vec::new();
    assert(attr_views(none@) =~= Seq::<Pair>::empty());
        let mut style = head_style(e, strength);
        push_fill(&mut style, resolve_color(&ev.bg_color), ev.filled, ev.line_width);
        push_shade(&mut style, or_color(resolve_color(&ev.shade_color), e.auto_shade));
        push_color(&mut style, "LineColour", or_color(resolve_color(&ev.line_color), e.auto_shade));
        push_icon_override(&mut style, &e.icon_override);
        assert(attr_views(style@) =~= style_head(*e, strength@) + fill_pairs(
            color_of(ev.bg_color),
            ev.filled,
            ev.line_width,
        ) + shade_pair(either(color_of(ev.shade_color), e.auto_shade)) + color_pair(
            "LineColour"@,
            either(color_of(ev.line_color), e.auto_shade),
        ) + override_pairs(e.icon_override));
        put_wrapped(w, "Event", &none, "EventStyle", &style);
}

fn emit_theme_line_rep<'s, S: XmlSink>(
    w: &mut Writer<'s, S>,
    e: &ResolvedEntity,
    th: &crate::entities::ThemeLine,
    strength: &str,
    chart_bg: Option<u32>,
)
    requires
        old(w).out.valid(),
        old(w).depth < usize::MAX - 1,
    ensures
        final(w).out.valid(),
        final(w).text() == old(w).text() + representation_text(
            old(w).compact,
            old(w).depth as nat,
            *e,
            EntityRef::ThemeLine(th),
            strength@,
            chart_bg,
        ),
        final(w).compact == old(w).compact,
        final(w).depth == old(w).depth,
        *final(final(w).out) == *final(old(w).out),
{
    reveal(representation_text);
    let none: Vec<Attr> = Vec::new();
    assert(attr_views(none@) =~= Seq::<Pair>::empty());
        let mut style = head_style(e, strength);
        push_int(&mut style, "LineWidth", th.line_width);
        push_shade(&mut style, or_color(resolve_color(&th.shade_color), e.auto_shade));
        push_color(&mut style, "LineColour", or_color(resolve_color(&th.line_color), e.auto_shade));
        push_icon_override(&mut style, &e.icon_override);
        assert(attr_views(style@) =~= style_head(*e, strength@) + int_pair(
            "LineWidth"@,
            th.line_width,
        ) + shade_pair(either(color_of(th.shade_color), e.auto_shade)) + color_pair(
            "LineColour"@,
            either(color_of(th.line_color), e.auto_shade),
        ) + override_pairs(e.icon_override));
        put_wrapped(w, "Theme", &none, "ThemeStyle", &style);
}

/// Emit an entity's representation element (`Icon`, `Box`, `Circle`,
/// `TextBlock`, `Event` or `Theme`) with its style; `strength` is the chart's
/// default strength and `chart_bg` the chart background color.
pub fn emit_representation<'s, S: XmlSink>(
    w: &mut Writer<'s, S>,
    e: &ResolvedEntity,
    er: EntityRef,
    strength: &str,
    chart_bg: Option<u32>,
)
    requires
        old(w).out.valid(),
        old(w).depth < usize::MAX - 1,
    ensures
        final(w).out.valid(),
        final(w).text() == old(w).text() + representation_text(
            old(w).compact,
            old(w).depth as nat,
            *e,
            er,
            strength@,
            chart_bg,
        ),
        final(w).compact == old(w).compact,
        final(w).depth == old(w).depth,
        *final(final(w).out) == *final(old(w).out),
{
    match er {
        EntityRef::Icon(x) => emit_icon_rep(w, e, x, strength, chart_bg),
        EntityRef::Box(x) => emit_box_rep(w, e, x, strength, chart_bg),
        EntityRef::Circle(x) => emit_circle_rep(w, e, x, strength, chart_bg),
        EntityRef::TextBlock(x) => emit_text_block_rep(w, e, x, strength, chart_bg),
        EntityRef::Label(x) => emit_label_rep(w, e, x, strength, chart_bg),
        EntityRef::EventFrame(x) => emit_event_frame_rep(w, e, x, strength, chart_bg),
        EntityRef::ThemeLine(x) => emit_theme_line_rep(w, e, x, strength, chart_bg),
    }
}

// ── Attribute collections ───────────────────────────────────────────────────

/// One `<Attribute>` line.
pub open spec fn attribute_line(compact: bool, depth: nat, a: ResolvedAttr) -> Seq<char> {
    line_text(
        compact,
        depth,
        "Attribute"@,
        seq![("AttributeClass"@, a.class@), ("AttributeClassReference"@, a.reference@)] + text_pair(
            "Value"@,
            a.value,
        ),
        true,
    )
}

/// The `<Attribute>` lines of the first `k` attributes.
pub open spec fn attribute_lines(compact: bool, depth: nat, attrs: Seq<ResolvedAttr>, k: int) -> Seq<char>
    decreases k,
{
    if k <= 0 {
        seq![]
    } else {
        attribute_lines(compact, depth, attrs, k - 1) + attribute_line(compact, depth, attrs[k - 1])
    }
}

/// The `<AttributeCollection>` of an item; nothing when no attribute has a
/// value.
#[verifier::opaque]
pub open spec fn attribute_collection_text(compact: bool, depth: nat, attrs: Seq<ResolvedAttr>) -> Seq<char> {
    if forall|i: int| 0 <= i < attrs.len() ==> (#[trigger] attrs[i]).value is None {
        seq![]
    } else {
        line_text(compact, depth, "AttributeCollection"@, seq![], false) + attribute_lines(
            compact,
            depth + 1,
            attrs,
            attrs.len() as int,
        ) + close_line(compact, depth, "AttributeCollection"@)
    }
}

/// Emit an item's `<AttributeCollection>`, unless no attribute has a value.
pub fn emit_attribute_collection<'s, S: XmlSink>(w: &mut Writer<'s, S>, attrs: &Vec<ResolvedAttr>)
    requires
        old(w).out.valid(),
        old(w).depth < usize::MAX - 1,
    ensures
        final(w).out.valid(),
        final(w).text() == old(w).text() + attribute_collection_text(
            old(w).compact,
            old(w).depth as nat,
            attrs@,
        ),
        final(w).compact == old(w).compact,
        final(w).depth == old(w).depth,
        *final(final(w).out) == *final(old(w).out),
{
    reveal(attribute_collection_text);
    let n = attrs.len();
    let mut any = false;
    for i in 0..n
        invariant
            n == attrs@.len(),
            any == exists|j: int| 0 <= j < i && (#[trigger] attrs@[j]).value is Some,
    {
        if attrs[i].value.is_some() {
            any = true;
        }
    }
    if !any {
        assert(final(w).text() =~= old(w).text());
        return;
    }
    let none: Vec<Attr> = Vec::new();
    assert(attr_views(none@) =~= Seq::<Pair>::empty());
    put_open(w, "AttributeCollection", &none);
    let ghost head = w.text();
    for i in 0..n
        invariant
            n == attrs@.len(),
            w.out.valid(),
            w.compact == old(w).compact,
            w.depth == old(w).depth + 1,
            old(w).depth < usize::MAX - 1,
            *final(w.out) == *final(old(w).out),
            w.text() == head + attribute_lines(w.compact, w.depth as nat, attrs@, i as int),
    {
        let a = &attrs[i];
        let mut at: Vec<Attr> = Vec::new();
        assert(attr_views(at@) =~= Seq::<Pair>::empty());
        push_pair(&mut at, "AttributeClass", a.class.clone());
        push_pair(&mut at, "AttributeClassReference", a.reference.clone());
        push_text(&mut at, "Value", &a.value);
        assert(attr_views(at@) =~= seq![
            ("AttributeClass"@, a.class@),
            ("AttributeClassReference"@, a.reference@),
        ] + text_pair("Value"@, a.value));
        put_empty(w, "Attribute", &at);
    }
    put_close(w, "AttributeCollection");
    assert(final(w).text() =~= old(w).text() + attribute_collection_text(
        old(w).compact,
        old(w).depth as nat,
        attrs@,
    ));
}

// ── Chart item style ────────────────────────────────────────────────────────

/// A pair for a set flag.
pub open spec fn flag_pair(name: Seq<char>, v: Option<bool>) -> Seq<Pair> {
    match v {
        Some(x) => seq![(name, bool_text(x))],
        None => seq![],
    }
}

/// Whether a label font sets anything once the automatic colors are merged in.
pub open spec fn font_set(f: Font, auto_bg: Option<u32>, auto_fg: Option<u32>) -> bool {
    either(color_of(f.color), auto_fg) is Some || either(color_of(f.bg_color), auto_bg) is Some
        || f.name is Some || f.size is Some || f.bold is Some || f.italic is Some || f.strikeout is Some
        || f.underline is Some
}

/// The label `<Font>` pairs: only the set fields, automatic colors filling in
/// unset ones.
pub open spec fn label_font_pairs(f: Font, auto_bg: Option<u32>, auto_fg: Option<u32>) -> Seq<Pair> {
    color_pair("FontColour"@, either(color_of(f.color), auto_fg)) + color_pair(
        "BackColour"@,
        either(color_of(f.bg_color), auto_bg),
    ) + text_pair("FaceName"@, f.name) + int_pair("PointSize"@, f.size) + flag_pair("Bold"@, f.bold)
        + flag_pair("Italic"@, f.italic) + flag_pair("Strikeout"@, f.strikeout) + flag_pair(
        "Underline"@,
        f.underline,
    )
}

/// The sub-item kinds in document order, each with its flag and default.
pub open spec fn show_fields(s: Show) -> Seq<(Seq<char>, Option<bool>, bool)> {
    seq![
        ("SubItemDescription"@, s.description, false),
        ("SubItemGrades"@, s.grades, false),
        ("SubItemLabel"@, s.label, true),
        ("SubItemPin"@, s.pin, false),
        ("SubItemSourceReference"@, s.source_ref, false),
        ("SubItemSourceType"@, s.source_type, false),
        ("SubItemDateTime"@, s.date, false),
    ]
}

pub open spec fn show_set(s: Show) -> bool {
    s.description is Some || s.grades is Some || s.label is Some || s.pin is Some || s.source_ref is Some
        || s.source_type is Some || s.date is Some
}

/// A sub-item's visibility: its flag, else its default.
pub open spec fn visible(v: Option<bool>, d: bool) -> bool {
    match v {
        Some(x) => x,
        None => d,
    }
}

/// The `<SubItem>` lines of the first `k` sub-item kinds.
pub open spec fn sub_item_lines(compact: bool, depth: nat, f: Seq<(Seq<char>, Option<bool>, bool)>, k: int) -> Seq<
    char,
>
    decreases k,
{
    if k <= 0 {
        seq![]
    } else {
        sub_item_lines(compact, depth, f, k - 1) + line_text(
            compact,
            depth,
            "SubItem"@,
            seq![("Type"@, f[k - 1].0), ("Visible"@, bool_text(visible(f[k - 1].1, f[k - 1].2)))],
            true,
        )
    }
}

/// The `<CIStyle>` of a chart item: nothing when no font field, sub-item
/// flag or style attribute is set; otherwise the style attributes, the label
/// `<Font>` when any font field is set, and all seven sub-items when any flag
/// is set.
#[verifier::opaque]
pub open spec fn ci_style_text(
    compact: bool,
    depth: nat,
    font: Font,
    show: Show,
    sub_text_width: Option<Seq<char>>,
    use_sub_text_width: Option<bool>,
    show_dt: Option<bool>,
    auto_bg: Option<u32>,
    auto_fg: Option<u32>,
) -> Seq<char> {
    let ci = (match sub_text_width {
        Some(t) => seq![("SubTextWidth"@, t)],
        None => seq![],
    }) + flag_pair("UseSubTextWidth"@, use_sub_text_width) + flag_pair("ShowDateTimeDescription"@, show_dt);
    let hf = font_set(font, auto_bg, auto_fg);
    let hs = show_set(show);
    if !hf && !hs && ci.len() == 0 {
        seq![]
    } else {
        line_text(compact, depth, "CIStyle"@, ci, false) + (if hf {
            line_text(compact, depth + 1, "Font"@, label_font_pairs(font, auto_bg, auto_fg), true)
        } else {
            seq![]
        }) + (if hs {
            line_text(compact, depth + 1, "SubItemCollection"@, seq![], false) + sub_item_lines(
                compact,
                depth + 2,
                show_fields(show),
                7,
            ) + close_line(compact, depth + 1, "SubItemCollection"@)
        } else {
            seq![]
        }) + close_line(compact, depth, "CIStyle"@)
    }
}

fn label_font_attrs(f: &Font, auto_bg: Option<u32>, auto_fg: Option<u32>) -> (a: Vec<Attr<'static>>)
    ensures
        attr_views(a@) == label_font_pairs(*f, auto_bg, auto_fg),
{
    let mut a: Vec<Attr> = Vec::new();
    assert(attr_views(a@) =~= Seq::<Pair>::empty());
    push_color(&mut a, "FontColour", or_color(resolve_color(&f.color), auto_fg));
    push_color(&mut a, "BackColour", or_color(resolve_color(&f.bg_color), auto_bg));
    push_text(&mut a, "FaceName", &f.name);
    push_int(&mut a, "PointSize", f.size);
    push_bool(&mut a, "Bold", f.bold);
    push_bool(&mut a, "Italic", f.italic);
    push_bool(&mut a, "Strikeout", f.strikeout);
    push_bool(&mut a, "Underline", f.underline);
    assert(attr_views(a@) =~= label_font_pairs(*f, auto_bg, auto_fg));
    a
}

fn emit_sub_items<'s, S: XmlSink>(w: &mut Writer<'s, S>, show: &Show)
    requires
        old(w).out.valid(),
        old(w).depth < usize::MAX - 1,
    ensures
        final(w).out.valid(),
        final(w).text() == old(w).text() + line_text(
            old(w).compact,
            old(w).depth as nat,
            "SubItemCollection"@,
            seq![],
            false,
        ) + sub_item_lines(old(w).compact, (old(w).depth + 1) as nat, show_fields(*show), 7) + close_line(
            old(w).compact,
            old(w).depth as nat,
            "SubItemCollection"@,
        ),
        final(w).compact == old(w).compact,
        final(w).depth == old(w).depth,
        *final(final(w).out) == *final(old(w).out),
{
    let none: Vec<Attr> = Vec::new();
    assert(attr_views(none@) =~= Seq::<Pair>::empty());
    put_open(w, "SubItemCollection", &none);
    let ghost head = w.text();
    let fields: Vec<(&'static str, Option<bool>, bool)> = vec![
        ("SubItemDescription", show.description, false),
        ("SubItemGrades", show.grades, false),
        ("SubItemLabel", show.label, true),
        ("SubItemPin", show.pin, false),
        ("SubItemSourceReference", show.source_ref, false),
        ("SubItemSourceType", show.source_type, false),
        ("SubItemDateTime", show.date, false),
    ];
    let ghost fv = fields@.map_values(|f: (&'static str, Option<bool>, bool)| (f.0@, f.1, f.2));
    assert(fv =~= show_fields(*show));
    for i in 0..7usize
        invariant
            fields@.len() == 7,
            fv == fields@.map_values(|f: (&'static str, Option<bool>, bool)| (f.0@, f.1, f.2)),
            fv == show_fields(*show),
            w.out.valid(),
            w.compact == old(w).compact,
            w.depth == old(w).depth + 1,
            old(w).depth < usize::MAX - 1,
            *final(w.out) == *final(old(w).out),
            w.text() == head + sub_item_lines(w.compact, w.depth as nat, fv, i as int),
    {
        let (ty, val, default) = fields[i];
        assert(fv[i as int] == (ty@, val, default));
        let mut a: Vec<Attr> = Vec::new();
        assert(attr_views(a@) =~= Seq::<Pair>::empty());
        push_pair(&mut a, "Type", ty.to_owned());
        let vis = match val {
            Some(x) => x,
            None => default,
        };
        push_pair(&mut a, "Visible", b(vis));
        assert(attr_views(a@) =~= seq![("Type"@, ty@), ("Visible"@, bool_text(vis))]);
        let ghost before = w.text();
        put_empty(w, "SubItem", &a);
        let ghost line = line_text(
            w.compact,
            w.depth as nat,
            "SubItem"@,
            seq![("Type"@, ty@), ("Visible"@, bool_text(vis))],
            true,
        );
        assert(w.text() == before + line);
        assert(sub_item_lines(w.compact, w.depth as nat, fv, i + 1) == sub_item_lines(
            w.compact,
            w.depth as nat,
            fv,
            i as int,
        ) + line);
        assert(w.text() =~= head + sub_item_lines(w.compact, w.depth as nat, fv, i + 1));
    }
    put_close(w, "SubItemCollection");
}

/// The `<CIStyle>` element's own attributes.
pub open spec fn ci_pairs(sub_text_width: Option<Seq<char>>, use_sub_text_width: Option<bool>, show_dt: Option<bool>) -> Seq<
    Pair,
> {
    (match sub_text_width {
        Some(t) => seq![("SubTextWidth"@, t)],
        None => seq![],
    }) + flag_pair("UseSubTextWidth"@, use_sub_text_width) + flag_pair("ShowDateTimeDescription"@, show_dt)
}

fn ci_attrs(sub_text_width: Option<&str>, use_sub_text_width: Option<bool>, show_dt: Option<bool>) -> (a: Vec<
    Attr<'static>,
>)
    ensures
        attr_views(a@) == ci_pairs(opt_view(sub_text_width), use_sub_text_width, show_dt),
{
    let mut ci: Vec<Attr> = Vec::new();
    assert(attr_views(ci@) =~= Seq::<Pair>::empty());
    match sub_text_width {
        Some(t) => push_pair(&mut ci, "SubTextWidth", t.to_owned()),
        None => {},
    }
    push_bool(&mut ci, "UseSubTextWidth", use_sub_text_width);
    push_bool(&mut ci, "ShowDateTimeDescription", show_dt);
    assert(attr_views(ci@) =~= ci_pairs(opt_view(sub_text_width), use_sub_text_width, show_dt));
    ci
}

fn has_font_fields(font: &Font, auto_bg: Option<u32>, auto_fg: Option<u32>) -> (r: bool)
    ensures
        r == font_set(*font, auto_bg, auto_fg),
{
    let font_colour = or_color(resolve_color(&font.color), auto_fg);
    let back_colour = or_color(resolve_color(&font.bg_color), auto_bg);
    font_colour.is_some() || back_colour.is_some() || font.name.is_some() || font.size.is_some()
        || font.bold.is_some() || font.italic.is_some() || font.strikeout.is_some()
        || font.underline.is_some()
}

fn has_show_fields(show: &Show) -> (r: bool)
    ensures
        r == show_set(*show),
{
    show.description.is_some() || show.grades.is_some() || show.label.is_some() || show.pin.is_some()
        || show.source_ref.is_some() || show.source_type.is_some() || show.date.is_some()
}

/// Emit a chart item's `<CIStyle>` (label font and sub-item visibility) when
/// any of its inputs is set; `sub_text_width` is the width's text.
#[verifier::rlimit(50)]
pub fn emit_ci_style<'s, S: XmlSink>(
    w: &mut Writer<'s, S>,
    font: &Font,
    show: &Show,
    sub_text_width: Option<&str>,
    use_sub_text_width: Option<bool>,
    show_datetime_description: Option<bool>,
    auto_bg: Option<u32>,
    auto_fg: Option<u32>,
)
    requires
        old(w).out.valid(),
        old(w).depth < usize::MAX - 2,
    ensures
        final(w).out.valid(),
        final(w).text() == old(w).text() + ci_style_text(
            old(w).compact,
            old(w).depth as nat,
            *font,
            *show,
            opt_view(sub_text_width),
            use_sub_text_width,
            show_datetime_description,
            auto_bg,
            auto_fg,
        ),
        final(w).compact == old(w).compact,
        final(w).depth == old(w).depth,
        *final(final(w).out) == *final(old(w).out),
{
    reveal(ci_style_text);
    let has_font = has_font_fields(font, auto_bg, auto_fg);
    let has_show = has_show_fields(show);
    let ci = ci_attrs(sub_text_width, use_sub_text_width, show_datetime_description);
    if !has_font && !has_show && ci.len() == 0 {
        assert(final(w).text() =~= old(w).text());
        return;
    }
    let ghost t0 = w.text();
    let ghost c = w.compact;
    let ghost d = w.depth as nat;
    put_open(w, "CIStyle", &ci);
    let ghost t1 = w.text();
    let ghost fpart = if has_font {
        line_text(c, d + 1, "Font"@, label_font_pairs(*font, auto_bg, auto_fg), true)
    } else {
        seq![]
    };
    if has_font {
        let fa = label_font_attrs(font, auto_bg, auto_fg);
        put_empty(w, "Font", &fa);
    }
    assert(w.text() =~= t1 + fpart);
    let ghost t2 = w.text();
    let ghost spart = if has_show {
        line_text(c, d + 1, "SubItemCollection"@, seq![], false) + sub_item_lines(
            c,
            d + 2,
            show_fields(*show),
            7,
        ) + close_line(c, d + 1, "SubItemCollection"@)
    } else {
        seq![]
    };
    if has_show {
        emit_sub_items(w, show);
    }
    assert(w.text() =~= t2 + spart);
    put_close(w, "CIStyle");
    assert(final(w).text() =~= t0 + line_text(c, d, "CIStyle"@, ci_pairs(
        opt_view(sub_text_width),
        use_sub_text_width,
        show_datetime_description,
    ), false) + fpart + spart + close_line(c, d, "CIStyle"@));
}

// ── Entity chart items ──────────────────────────────────────────────────────

/// An optional text as an optional sequence.
pub open spec fn ov(o: Option<String>) -> Option<Seq<char>> {
    match o {
        Some(x) => Some(x@),
        None => None,
    }
}

fn as_text(o: &Option<String>) -> (r: Option<&str>)
    ensures
        opt_view(r) == ov(*o),
{
    match o {
        Some(x) => Some(x.as_str()),
        None => None,
    }
}

/// The `<ChartItem>` attributes of an entity: id, label, metadata, grades,
/// and `XPosition` for an entity placed off the origin.
pub open spec fn entity_ci_pairs(e: ResolvedEntity, er: EntityRef) -> Seq<Pair> {
    let k = ref_common(er);
    seq![("Id"@, e.ci_id@), ("Label"@, e.label@)] + meta_pairs(
        ov(k.description),
        ov(k.date),
        ov(k.time),
        ov(k.datetime_description),
        k.ordered,
        ov(k.source_ref),
        ov(k.source_type),
    ) + grade_pairs(e.grade_one, e.grade_two, e.grade_three) + pair_if(
        e.x != 0 || e.y != 0,
        "XPosition"@,
        dec_int(e.x as int),
    )
}

/// The `<Entity>` attributes: number, identity, whether the label is the
/// identity, and the semantic type.
pub open spec fn entity_pairs(e: ResolvedEntity) -> Seq<Pair> {
    seq![
        ("EntityId"@, dec_int(e.int_id as int)),
        ("Identity"@, e.identity@),
        ("LabelIsIdentity"@, bool_text(e.label@ == e.identity@)),
    ] + text_pair("SemanticTypeGuid"@, e.semantic_guid)
}

/// An entity's `<End>`: its position, holding the `<Entity>` with the
/// representation and the cards.
#[verifier::opaque]
pub open spec fn end_text(
    c: bool,
    d: nat,
    e: ResolvedEntity,
    er: EntityRef,
    strength: Seq<char>,
    chart_bg: Option<u32>,
) -> Seq<char> {
    line_text(
        c,
        d,
        "End"@,
        seq![("X"@, dec_int(e.x as int)), ("Y"@, dec_int(e.y as int)), ("Z"@, "0"@)],
        false,
    ) + line_text(c, d + 1, "Entity"@, entity_pairs(e), false) + representation_text(
        c,
        d + 2,
        e,
        er,
        strength,
        chart_bg,
    ) + card_collection_text(c, d + 2, e.cards@) + close_line(c, d + 1, "Entity"@) + close_line(
        c,
        d,
        "End"@,
    )
}

/// An entity's `<ChartItem>`: its `<End>` position holding the `<Entity>`
/// (representation and cards), then attributes, style and time zone.
#[verifier::opaque]
pub open spec fn entity_item_text(
    c: bool,
    d: nat,
    e: ResolvedEntity,
    er: EntityRef,
    strength: Seq<char>,
    chart_bg: Option<u32>,
    sub_text_width: Option<Seq<char>>,
) -> Seq<char> {
    let k = ref_common(er);
    line_text(c, d, "ChartItem"@, entity_ci_pairs(e, er), false) + end_text(
        c,
        d + 1,
        e,
        er,
        strength,
        chart_bg,
    ) + attribute_collection_text(c, d + 1, e.attrs@) + ci_style_text(
        c,
        d + 1,
        k.label_font,
        k.show,
        sub_text_width,
        k.use_sub_text_width,
        k.show_datetime_description,
        e.label_bg,
        e.label_fg,
    ) + timezone_text(c, d + 1, k.timezone) + close_line(c, d, "ChartItem"@)
}

fn entity_ci_attrs(e: &ResolvedEntity, er: EntityRef) -> (a: Vec<Attr<'static>>)
    ensures
        attr_views(a@) == entity_ci_pairs(*e, er),
{
    let k = er.common();
    let mut a: Vec<Attr> = Vec::new();
    assert(attr_views(a@) =~= Seq::<Pair>::empty());
    push_pair(&mut a, "Id", e.ci_id.clone());
    push_pair(&mut a, "Label", e.label.clone());
    let m = meta_attrs(
        as_text(&k.description),
        as_text(&k.date),
        as_text(&k.time),
        as_text(&k.datetime_description),
        k.ordered,
        as_text(&k.source_ref),
        as_text(&k.source_type),
    );
    let ghost before = attr_views(a@);
    let mut m = m;
    a.append(&mut m);
    assert(attr_views(a@) =~= before + meta_pairs(
        ov(k.description),
        ov(k.date),
        ov(k.time),
        ov(k.datetime_description),
        k.ordered,
        ov(k.source_ref),
        ov(k.source_type),
    ));
    push_grades(&mut a, e.grade_one, e.grade_two, e.grade_three);
    if e.x != 0 || e.y != 0 {
        push_pair(&mut a, "XPosition", i64_string(e.x));
    }
    assert(attr_views(a@) =~= entity_ci_pairs(*e, er));
    a
}

fn entity_attrs(e: &ResolvedEntity) -> (a: Vec<Attr<'static>>)
    ensures
        attr_views(a@) == entity_pairs(*e),
{
    let mut a: Vec<Attr> = Vec::new();
    assert(attr_views(a@) =~= Seq::<Pair>::empty());
    push_pair(&mut a, "EntityId", i64_string(e.int_id));
    push_pair(&mut a, "Identity", e.identity.clone());
    push_pair(&mut a, "LabelIsIdentity", b(crate::text::str_eq(e.label.as_str(), e.identity.as_str())));
    push_text(&mut a, "SemanticTypeGuid", &e.semantic_guid);
    assert(attr_views(a@) =~= entity_pairs(*e));
    a
}

#[verifier::spinoff_prover]
#[verifier::rlimit(80)]
fn emit_entity_end<'s, S: XmlSink>(
    w: &mut Writer<'s, S>,
    e: &ResolvedEntity,
    er: EntityRef,
    strength: &str,
    chart_bg: Option<u32>,
)
    requires
        old(w).out.valid(),
        old(w).depth < usize::MAX - 5,
    ensures
        final(w).out.valid(),
        final(w).text() == old(w).text() + end_text(
            old(w).compact,
            old(w).depth as nat,
            *e,
            er,
            strength@,
            chart_bg,
        ),
        final(w).compact == old(w).compact,
        final(w).depth == old(w).depth,
        *final(final(w).out) == *final(old(w).out),
{
    reveal(end_text);
    let ghost c = w.compact;
    let ghost d = w.depth as nat;
    let mut end: Vec<Attr> = Vec::new();
    assert(attr_views(end@) =~= Seq::<Pair>::empty());
    push_pair(&mut end, "X", i64_string(e.x));
    push_pair(&mut end, "Y", i64_string(e.y));
    push_pair(&mut end, "Z", "0".to_owned());
    assert(attr_views(end@) =~= seq![("X"@, dec_int(e.x as int)), ("Y"@, dec_int(e.y as int)), ("Z"@, "0"@)]);
    put_open(w, "End", &end);
    let ea = entity_attrs(e);
    put_open(w, "Entity", &ea);
    emit_representation(w, e, er, strength, chart_bg);
    emit_cards(w, &e.cards);
    put_close(w, "Entity");
    put_close(w, "End");
    assert(final(w).text() =~= old(w).text() + end_text(c, d, *e, er, strength@, chart_bg));
}

#[verifier::spinoff_prover]
#[verifier::rlimit(80)]
fn emit_entity_tail<'s, S: XmlSink>(w: &mut Writer<'s, S>, e: &ResolvedEntity, er: EntityRef, sub_text_width: Option<&str>)
    requires
        old(w).out.valid(),
        old(w).depth < usize::MAX - 5,
    ensures
        final(w).out.valid(),
        final(w).text() == old(w).text() + attribute_collection_text(
            old(w).compact,
            old(w).depth as nat,
            e.attrs@,
        ) + ci_style_text(
            old(w).compact,
            old(w).depth as nat,
            ref_common(er).label_font,
            ref_common(er).show,
            opt_view(sub_text_width),
            ref_common(er).use_sub_text_width,
            ref_common(er).show_datetime_description,
            e.label_bg,
            e.label_fg,
        ) + timezone_text(old(w).compact, old(w).depth as nat, ref_common(er).timezone),
        final(w).compact == old(w).compact,
        final(w).depth == old(w).depth,
        *final(final(w).out) == *final(old(w).out),
{
    let k = er.common();
    emit_attribute_collection(w, &e.attrs);
    emit_ci_style(
        w,
        &k.label_font,
        &k.show,
        sub_text_width,
        k.use_sub_text_width,
        k.show_datetime_description,
        e.label_bg,
        e.label_fg,
    );
    let tz = match &k.timezone {
        Some(t) => Some(t),
        None => None,
    };
    emit_timezone(w, tz);
    assert(final(w).text() =~= old(w).text() + attribute_collection_text(
        old(w).compact,
        old(w).depth as nat,
        e.attrs@,
    ) + ci_style_text(
        old(w).compact,
        old(w).depth as nat,
        k.label_font,
        k.show,
        opt_view(sub_text_width),
        k.use_sub_text_width,
        k.show_datetime_description,
        e.label_bg,
        e.label_fg,
    ) + timezone_text(old(w).compact, old(w).depth as nat, k.timezone));
}

/// Emit an entity's `<ChartItem>`; `strength` is the chart's default
/// strength, `chart_bg` the chart background color and `sub_text_width` the
/// text of the entity's sub-text width.
#[verifier::spinoff_prover]
#[verifier::rlimit(80)]
pub fn emit_entity_item<'s, S: XmlSink>(
    w: &mut Writer<'s, S>,
    e: &ResolvedEntity,
    er: EntityRef,
    strength: &str,
    chart_bg: Option<u32>,
    sub_text_width: Option<&str>,
)
    requires
        old(w).out.valid(),
        old(w).depth < usize::MAX - 6,
    ensures
        final(w).out.valid(),
        final(w).text() == old(w).text() + entity_item_text(
            old(w).compact,
            old(w).depth as nat,
            *e,
            er,
            strength@,
            chart_bg,
            opt_view(sub_text_width),
        ),
        final(w).compact == old(w).compact,
        final(w).depth == old(w).depth,
        *final(final(w).out) == *final(old(w).out),
{
    reveal(entity_item_text);
    let ghost c = w.compact;
    let ghost d = w.depth as nat;
    let ci = entity_ci_attrs(e, er);
    put_open(w, "ChartItem", &ci);
    let ghost t1 = w.text();
    emit_entity_end(w, e, er, strength, chart_bg);
    let ghost t2 = w.text();
    emit_entity_tail(w, e, er, sub_text_width);
    let ghost t3 = w.text();
    put_close(w, "ChartItem");
    assert(final(w).text() =~= old(w).text() + entity_item_text(
        c,
        d,
        *e,
        er,
        strength@,
        chart_bg,
        opt_view(sub_text_width),
    ));
}

// ── Link chart items ────────────────────────────────────────────────────────

/// A link's style values after precedence: the width, color and strength the
/// link sets; else the categorical style's (a negative width counts as zero);
/// else, for width and color, the intensity styling's; else, for color, the
/// color matched from the target entity; the strength falls back to the
/// chart default.
pub open spec fn link_style(
    l: Link,
    cat: Option<CategoricalStyleCfg>,
    int_width: Option<i64>,
    int_color: Option<u32>,
    matched: Option<u32>,
    default_strength: Seq<char>,
) -> (Option<i64>, Option<u32>, Seq<char>) {
    let style_color = match cat {
        Some(st) => if l.line_color is None {
            color_of(st.line_color)
        } else {
            None
        },
        None => None,
    };
    let style_width = match cat {
        Some(st) => if l.line_width is None {
            match st.line_width {
                Some(x) => Some(if x < 0 {
                    0i64
                } else {
                    x
                }),
                None => None,
            }
        } else {
            None
        },
        None => None,
    };
    let style_strength = match cat {
        Some(st) => if l.strength is None {
            ov(st.strength)
        } else {
            None
        },
        None => None,
    };
    let width = match l.line_width {
        Some(x) => Some(x),
        None => match style_width {
            Some(x) => Some(x),
            None => int_width,
        },
    };
    let color = either(either(either(color_of(l.line_color), style_color), int_color), matched);
    let strength = match ov(l.strength) {
        Some(x) => x,
        None => match style_strength {
            Some(x) => x,
            None => default_strength,
        },
    };
    (width, color, strength)
}

/// Resolve a link's line width, line color and strength by precedence.
pub fn link_style_values(
    l: &Link,
    cat: Option<&CategoricalStyleCfg>,
    int_width: Option<i64>,
    int_color: Option<u32>,
    matched: Option<u32>,
    default_strength: &str,
) -> (r: (Option<i64>, Option<u32>, String))
    ensures
        (r.0, r.1, r.2@) == link_style(
            *l,
            match cat {
                Some(c) => Some(*c),
                None => None,
            },
            int_width,
            int_color,
            matched,
            default_strength@,
        ),
{
    let mut style_color: Option<u32> = None;
    let mut style_width: Option<i64> = None;
    let mut style_strength: Option<String> = None;
    if let Some(st) = cat {
        if l.line_color.is_none() {
            style_color = resolve_color(&st.line_color);
        }
        if l.line_width.is_none() {
            style_width = match st.line_width {
                Some(x) => Some(if x < 0 {
                    0
                } else {
                    x
                }),
                None => None,
            };
        }
        if l.strength.is_none() {
            style_strength = match &st.strength {
                Some(x) => Some(x.clone()),
                None => None,
            };
        }
    }
    let width = match l.line_width {
        Some(x) => Some(x),
        None => match style_width {
            Some(x) => Some(x),
            None => int_width,
        },
    };
    let color = or_color(or_color(or_color(resolve_color(&l.line_color), style_color), int_color), matched);
    let strength = match &l.strength {
        Some(x) => x.clone(),
        None => match style_strength {
            Some(x) => x,
            None => default_strength.to_owned(),
        },
    };
    (width, color, strength)
}

/// The `<ChartItem>` attributes of a link: id, label, metadata, grades.
pub open spec fn link_ci_pairs(rl: ResolvedLink, l: Link) -> Seq<Pair> {
    seq![("Id"@, rl.ci_id@), ("Label"@, rl.label@)] + meta_pairs(
        ov(l.description),
        ov(l.date),
        ov(l.time),
        ov(l.datetime_description),
        l.ordered,
        ov(l.source_ref),
        ov(l.source_type),
    ) + grade_pairs(rl.grade_one, rl.grade_two, rl.grade_three)
}

/// The `<Link>` attributes: the end entities, a non-zero offset, the
/// connection reference and the semantic type.
pub open spec fn link_pairs(rl: ResolvedLink) -> Seq<Pair> {
    seq![("End1Id"@, dec_int(rl.end1 as int)), ("End2Id"@, dec_int(rl.end2 as int))] + pair_if(
        rl.offset != 0,
        "Offset"@,
        dec_int(rl.offset as int),
    ) + text_pair("ConnectionReference"@, rl.conn_ref) + text_pair("SemanticTypeGuid"@, rl.semantic_guid)
}

/// The `<LinkStyle>` attributes: strength, arrow, a width other than one, a
/// color other than black, the type and its reference.
pub open spec fn link_style_pairs(rl: ResolvedLink) -> Seq<Pair> {
    seq![("Strength"@, rl.strength@)] + text_pair("ArrowStyle"@, rl.arrow) + (match rl.line_width {
        Some(x) => pair_if(x != 1, "LineWidth"@, dec_int(x as int)),
        None => seq![],
    }) + (match rl.line_color {
        Some(c) => pair_if(c != 0, "LineColour"@, dec(c as nat)),
        None => seq![],
    }) + (match rl.ltype {
        Some(t) => seq![("Type"@, t@)] + text_pair("LinkTypeReference"@, rl.ltype_ref),
        None => seq![],
    })
}

/// A link's `<Link>`: its cards and its style.
pub open spec fn link_body_text(c: bool, d: nat, rl: ResolvedLink) -> Seq<char> {
    line_text(c, d, "Link"@, link_pairs(rl), false) + card_collection_text(c, d + 1, rl.cards@) + line_text(
        c,
        d + 1,
        "LinkStyle"@,
        link_style_pairs(rl),
        true,
    ) + close_line(c, d, "Link"@)
}

/// What follows a link's `<Link>`: attributes, style and time zone.
pub open spec fn link_tail_text(c: bool, d: nat, rl: ResolvedLink, l: Link, sub_text_width: Option<Seq<char>>) -> Seq<
    char,
> {
    attribute_collection_text(c, d, rl.attrs@) + ci_style_text(
        c,
        d,
        l.label_font,
        l.show,
        sub_text_width,
        l.use_sub_text_width,
        l.show_datetime_description,
        None,
        None,
    ) + timezone_text(c, d, l.timezone)
}

/// A link's `<ChartItem>`: the `<Link>` with its cards and style, then
/// attributes, style and time zone.
pub open spec fn link_item_text(c: bool, d: nat, rl: ResolvedLink, l: Link, sub_text_width: Option<Seq<char>>) -> Seq<
    char,
> {
    line_text(c, d, "ChartItem"@, link_ci_pairs(rl, l), false) + link_body_text(c, d + 1, rl)
        + link_tail_text(c, d + 1, rl, l, sub_text_width) + close_line(c, d, "ChartItem"@)
}

fn link_ci_attrs(rl: &ResolvedLink, l: &Link) -> (a: Vec<Attr<'static>>)
    ensures
        attr_views(a@) == link_ci_pairs(*rl, *l),
{
    let mut a: Vec<Attr> = Vec::new();
    assert(attr_views(a@) =~= Seq::<Pair>::empty());
    push_pair(&mut a, "Id", rl.ci_id.clone());
    push_pair(&mut a, "Label", rl.label.clone());
    let mut m = meta_attrs(
        as_text(&l.description),
        as_text(&l.date),
        as_text(&l.time),
        as_text(&l.datetime_description),
        l.ordered,
        as_text(&l.source_ref),
        as_text(&l.source_type),
    );
    let ghost before = attr_views(a@);
    let ghost mv = attr_views(m@);
    a.append(&mut m);
    assert(attr_views(a@) =~= before + mv);
    push_grades(&mut a, rl.grade_one, rl.grade_two, rl.grade_three);
    assert(attr_views(a@) =~= link_ci_pairs(*rl, *l));
    a
}

fn link_attrs(rl: &ResolvedLink) -> (a: Vec<Attr<'static>>)
    ensures
        attr_views(a@) == link_pairs(*rl),
{
    let mut a: Vec<Attr> = Vec::new();
    assert(attr_views(a@) =~= Seq::<Pair>::empty());
    push_pair(&mut a, "End1Id", i64_string(rl.end1));
    push_pair(&mut a, "End2Id", i64_string(rl.end2));
    if rl.offset != 0 {
        push_pair(&mut a, "Offset", i64_string(rl.offset));
    }
    push_text(&mut a, "ConnectionReference", &rl.conn_ref);
    push_text(&mut a, "SemanticTypeGuid", &rl.semantic_guid);
    assert(attr_views(a@) =~= link_pairs(*rl));
    a
}

fn link_style_attrs(rl: &ResolvedLink) -> (a: Vec<Attr<'static>>)
    ensures
        attr_views(a@) == link_style_pairs(*rl),
{
    let mut a: Vec<Attr> = Vec::new();
    assert(attr_views(a@) =~= Seq::<Pair>::empty());
    push_pair(&mut a, "Strength", rl.strength.clone());
    push_text(&mut a, "ArrowStyle", &rl.arrow);
    let ghost s1 = attr_views(a@);
    match rl.line_width {
        Some(x) => {
            if x != 1 {
                push_pair(&mut a, "LineWidth", i64_string(x));
            }
        },
        None => {},
    }
    let ghost s2 = attr_views(a@);
    match rl.line_color {
        Some(c) => {
            if c != 0 {
                push_pair(&mut a, "LineColour", u64_string(c as u64));
            }
        },
        None => {},
    }
    let ghost s3 = attr_views(a@);
    match &rl.ltype {
        Some(t) => {
            push_pair(&mut a, "Type", t.clone());
            push_text(&mut a, "LinkTypeReference", &rl.ltype_ref);
        },
        None => {},
    }
    assert(attr_views(a@) =~= link_style_pairs(*rl));
    a
}

#[verifier::spinoff_prover]
#[verifier::rlimit(80)]
fn emit_link_body<'s, S: XmlSink>(w: &mut Writer<'s, S>, rl: &ResolvedLink)
    requires
        old(w).out.valid(),
        old(w).depth < usize::MAX - 4,
    ensures
        final(w).out.valid(),
        final(w).text() == old(w).text() + link_body_text(old(w).compact, old(w).depth as nat, *rl),
        final(w).compact == old(w).compact,
        final(w).depth == old(w).depth,
        *final(final(w).out) == *final(old(w).out),
{
    let la = link_attrs(rl);
    put_open(w, "Link", &la);
    emit_cards(w, &rl.cards);
    let st = link_style_attrs(rl);
    put_empty(w, "LinkStyle", &st);
    put_close(w, "Link");
    assert(final(w).text() =~= old(w).text() + link_body_text(old(w).compact, old(w).depth as nat, *rl));
}

#[verifier::spinoff_prover]
#[verifier::rlimit(80)]
fn emit_link_tail<'s, S: XmlSink>(w: &mut Writer<'s, S>, rl: &ResolvedLink, l: &Link, sub_text_width: Option<&str>)
    requires
        old(w).out.valid(),
        old(w).depth < usize::MAX - 5,
    ensures
        final(w).out.valid(),
        final(w).text() == old(w).text() + link_tail_text(
            old(w).compact,
            old(w).depth as nat,
            *rl,
            *l,
            opt_view(sub_text_width),
        ),
        final(w).compact == old(w).compact,
        final(w).depth == old(w).depth,
        *final(final(w).out) == *final(old(w).out),
{
    emit_attribute_collection(w, &rl.attrs);
    emit_ci_style(
        w,
        &l.label_font,
        &l.show,
        sub_text_width,
        l.use_sub_text_width,
        l.show_datetime_description,
        None,
        None,
    );
    let tz = match &l.timezone {
        Some(t) => Some(t),
        None => None,
    };
    emit_timezone(w, tz);
    assert(final(w).text() =~= old(w).text() + link_tail_text(
        old(w).compact,
        old(w).depth as nat,
        *rl,
        *l,
        opt_view(sub_text_width),
    ));
}

/// Emit a link's `<ChartItem>` from its resolution and the input link (for
/// metadata, label font, sub-item flags and time zone); `sub_text_width` is
/// the text of the link's sub-text width.
#[verifier::spinoff_prover]
#[verifier::rlimit(80)]
pub fn emit_link_item<'s, S: XmlSink>(w: &mut Writer<'s, S>, rl: &ResolvedLink, l: &Link, sub_text_width: Option<&str>)
    requires
        old(w).out.valid(),
        old(w).depth < usize::MAX - 6,
    ensures
        final(w).out.valid(),
        final(w).text() == old(w).text() + link_item_text(
            old(w).compact,
            old(w).depth as nat,
            *rl,
            *l,
            opt_view(sub_text_width),
        ),
        final(w).compact == old(w).compact,
        final(w).depth == old(w).depth,
        *final(final(w).out) == *final(old(w).out),
{
    let ghost c = w.compact;
    let ghost d = w.depth as nat;
    let ci = link_ci_attrs(rl, l);
    put_open(w, "ChartItem", &ci);
    emit_link_body(w, rl);
    emit_link_tail(w, rl, l, sub_text_width);
    put_close(w, "ChartItem");
    assert(final(w).text() =~= old(w).text() + link_item_text(c, d, *rl, *l, opt_view(sub_text_width)));
}

} // verus!
