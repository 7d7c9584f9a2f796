//! Entity representations. The fields every representation shares live in
//! [`EntityCommon`]; each concrete representation adds its own styling.
use vstd::prelude::*;
use indexmap::IndexMap;

use crate::color::ColorValue;
use crate::input::ChartData;
use crate::models::{Card, Font, Frame, GradeRef, Show, TimeZone};
use crate::number::F64Bits;
use crate::value::AttrValue;

verus! {

/// Fields shared by every entity representation (the `_BaseEntity` payload).
#[derive(Debug, Default)]
pub struct EntityCommon {
    pub id: String,
    pub type_: String,
    pub label: Option<String>,
    pub date: Option<String>,
    pub time: Option<String>,
    pub description: Option<String>,
    pub ordered: Option<bool>,
    pub strength: Option<String>,
    pub grade_one: Option<GradeRef>,
    pub grade_two: Option<GradeRef>,
    pub grade_three: Option<GradeRef>,
    pub x: Option<i64>,
    pub y: Option<i64>,
    pub attributes: IndexMap<String, AttrValue>,
    pub cards: Vec<Card>,
    pub label_font: Font,
    pub timezone: Option<TimeZone>,
    pub source_ref: Option<String>,
    pub source_type: Option<String>,
    pub show: Show,
    pub background: Option<bool>,
    pub datetime_description: Option<String>,
    pub show_datetime_description: Option<bool>,
    pub datetime_format: Option<String>,
    pub sub_text_width: Option<F64Bits>,
    pub use_sub_text_width: Option<bool>,
    pub semantic_type: Option<String>,
}

/// Icon entity — the most common representation. `color` is the icon shading
/// color; `icon` overrides the type's default icon for this instance.
#[derive(Debug, Default)]
pub struct Icon {
    pub common: EntityCommon,
    pub color: Option<ColorValue>,
    pub icon: Option<String>,
    pub frame: Frame,
    pub text_x: Option<i64>,
    pub text_y: Option<i64>,
    pub enlargement: Option<String>,
}

/// Box entity — rectangle. Builder defaults: `bg_color` white, `filled` false,
/// `line_width` 1, `width`/`height` 100.
#[derive(Debug, Default)]
pub struct Box {
    pub common: EntityCommon,
    pub bg_color: Option<ColorValue>,
    pub filled: Option<bool>,
    pub line_color: Option<ColorValue>,
    pub line_width: Option<i64>,
    pub width: Option<i64>,
    pub height: Option<i64>,
    pub depth: Option<i64>,
}

/// Circle entity. Builder defaults: `bg_color` white, `filled` true,
/// `line_width` 1, `diameter` 138, `autosize` false.
#[derive(Debug, Default)]
pub struct Circle {
    pub common: EntityCommon,
    pub bg_color: Option<ColorValue>,
    pub filled: Option<bool>,
    pub line_width: Option<i64>,
    pub diameter: Option<i64>,
    pub autosize: Option<bool>,
}

/// ThemeLine entity — a horizontal band. Builder default `line_width` 3.
#[derive(Debug, Default)]
pub struct ThemeLine {
    pub common: EntityCommon,
    pub shade_color: Option<ColorValue>,
    pub line_color: Option<ColorValue>,
    pub line_width: Option<i64>,
    pub frame: Frame,
    pub enlargement: Option<String>,
    pub icon: Option<String>,
}

/// EventFrame entity — a time-bounded region. Builder defaults: `bg_color`
/// white, `filled` true, `line_width` 1.
#[derive(Debug, Default)]
pub struct EventFrame {
    pub common: EntityCommon,
    pub shade_color: Option<ColorValue>,
    pub bg_color: Option<ColorValue>,
    pub filled: Option<bool>,
    pub line_color: Option<ColorValue>,
    pub line_width: Option<i64>,
    pub enlargement: Option<String>,
    pub icon: Option<String>,
}

/// TextBlock entity — a free-standing text box. Builder defaults: `bg_color`
/// white, `filled` true, `line_width` 1, `alignment` centre, `width` 138,
/// `height` 79.
#[derive(Debug, Default)]
pub struct TextBlock {
    pub common: EntityCommon,
    pub bg_color: Option<ColorValue>,
    pub filled: Option<bool>,
    pub line_color: Option<ColorValue>,
    pub line_width: Option<i64>,
    pub alignment: Option<String>,
    pub width: Option<i64>,
    pub height: Option<i64>,
}

/// Label entity — a transparent text overlay (rendered via TextBlock XML).
/// Builder defaults: `filled` true, `line_width` 1, `alignment` centre,
/// `width` 100, `height` 39.
#[derive(Debug, Default)]
pub struct Label {
    pub common: EntityCommon,
    pub bg_color: Option<ColorValue>,
    pub filled: Option<bool>,
    pub line_color: Option<ColorValue>,
    pub line_width: Option<i64>,
    pub alignment: Option<String>,
    pub width: Option<i64>,
    pub height: Option<i64>,
}

/// Any entity representation, one per `entities.{icons,boxes,...}` group of
/// the input schema; the active variant determines the i2 representation.
#[derive(Debug)]
pub enum Entity {
    Icon(Icon),
    Box(Box),
    Circle(Circle),
    ThemeLine(ThemeLine),
    EventFrame(EventFrame),
    TextBlock(TextBlock),
    Label(Label),
}

/// The shared fields of an entity, whatever its representation.
pub open spec fn common_of(e: Entity) -> EntityCommon {
    match e {
        Entity::Icon(x) => x.common,
        Entity::Box(x) => x.common,
        Entity::Circle(x) => x.common,
        Entity::ThemeLine(x) => x.common,
        Entity::EventFrame(x) => x.common,
        Entity::TextBlock(x) => x.common,
        Entity::Label(x) => x.common,
    }
}

impl Entity {
    /// Borrow the shared fields regardless of representation.
    pub fn common(&self) -> (c: &EntityCommon)
        ensures
            *c == common_of(*self),
    {
        match self {
            Entity::Icon(e) => &e.common,
            Entity::Box(e) => &e.common,
            Entity::Circle(e) => &e.common,
            Entity::ThemeLine(e) => &e.common,
            Entity::EventFrame(e) => &e.common,
            Entity::TextBlock(e) => &e.common,
            Entity::Label(e) => &e.common,
        }
    }
}

/// A borrowed view of an entity living in one of the typed data groups.
#[derive(Debug, Clone, Copy)]
pub enum EntityRef<'a> {
    Icon(&'a Icon),
    Box(&'a Box),
    Circle(&'a Circle),
    ThemeLine(&'a ThemeLine),
    EventFrame(&'a EventFrame),
    TextBlock(&'a TextBlock),
    Label(&'a Label),
}

/// The shared fields of a borrowed entity.
pub open spec fn ref_common(e: EntityRef) -> EntityCommon {
    match e {
        EntityRef::Icon(x) => x.common,
        EntityRef::Box(x) => x.common,
        EntityRef::Circle(x) => x.common,
        EntityRef::ThemeLine(x) => x.common,
        EntityRef::EventFrame(x) => x.common,
        EntityRef::TextBlock(x) => x.common,
        EntityRef::Label(x) => x.common,
    }
}

impl<'a> EntityRef<'a> {
    /// Borrow the shared fields regardless of representation.
    pub fn common(&self) -> (c: &'a EntityCommon)
        ensures
            *c == ref_common(*self),
    {
        match self {
            EntityRef::Icon(e) => &e.common,
            EntityRef::Box(e) => &e.common,
            EntityRef::Circle(e) => &e.common,
            EntityRef::ThemeLine(e) => &e.common,
            EntityRef::EventFrame(e) => &e.common,
            EntityRef::TextBlock(e) => &e.common,
            EntityRef::Label(e) => &e.common,
        }
    }
}


/// Every entity of a data layer, group by group: icons, boxes, circles, theme
/// lines, event frames, text blocks, labels, each group in input order.
pub open spec fn entity_refs<'a>(d: &'a ChartData) -> Seq<EntityRef<'a>> {
    d.entities.icons@.map_values(|x: Icon| EntityRef::Icon(&x)) + d.entities.boxes@.map_values(
        |x: Box| EntityRef::Box(&x),
    ) + d.entities.circles@.map_values(|x: Circle| EntityRef::Circle(&x))
        + d.entities.theme_lines@.map_values(|x: ThemeLine| EntityRef::ThemeLine(&x))
        + d.entities.event_frames@.map_values(|x: EventFrame| EntityRef::EventFrame(&x))
        + d.entities.text_blocks@.map_values(|x: TextBlock| EntityRef::TextBlock(&x))
        + d.entities.labels@.map_values(|x: Label| EntityRef::Label(&x))
}

/// Borrow every entity of a data layer in group order.
pub fn collect_entity_refs<'a>(data: &'a ChartData) -> (v: Vec<EntityRef<'a>>)
    ensures
        v@ == entity_refs(data),
{
    let g = &data.entities;
    let mut v: Vec<EntityRef<'a>> = Vec::new();
    let ghost before = v@;
    for i in 0..g.icons.len()
        invariant
            g == &data.entities,
            v@ == before + g.icons@.take(i as int).map_values(|x: Icon| EntityRef::Icon(&x)),
    {
        v.push(EntityRef::Icon(&g.icons[i]));
        assert(g.icons@.take(i + 1).map_values(|x: Icon| EntityRef::Icon(&x)) =~= g.icons@.take(i as int).map_values(
            |x: Icon| EntityRef::Icon(&x),
        ).push(EntityRef::Icon(&g.icons@[i as int])));
    }
    assert(g.icons@.take(g.icons@.len() as int) =~= g.icons@);
    let ghost before = v@;
    for i in 0..g.boxes.len()
        invariant
            g == &data.entities,
            v@ == before + g.boxes@.take(i as int).map_values(|x: Box| EntityRef::Box(&x)),
    {
        v.push(EntityRef::Box(&g.boxes[i]));
        assert(g.boxes@.take(i + 1).map_values(|x: Box| EntityRef::Box(&x)) =~= g.boxes@.take(i as int).map_values(
            |x: Box| EntityRef::Box(&x),
        ).push(EntityRef::Box(&g.boxes@[i as int])));
    }
    assert(g.boxes@.take(g.boxes@.len() as int) =~= g.boxes@);
    let ghost before = v@;
    for i in 0..g.circles.len()
        invariant
            g == &data.entities,
            v@ == before + g.circles@.take(i as int).map_values(|x: Circle| EntityRef::Circle(&x)),
    {
        v.push(EntityRef::Circle(&g.circles[i]));
        assert(g.circles@.take(i + 1).map_values(|x: Circle| EntityRef::Circle(&x)) =~= g.circles@.take(i as int).map_values(
            |x: Circle| EntityRef::Circle(&x),
        ).push(EntityRef::Circle(&g.circles@[i as int])));
    }
    assert(g.circles@.take(g.circles@.len() as int) =~= g.circles@);
    let ghost before = v@;
    for i in 0..g.theme_lines.len()
        invariant
            g == &data.entities,
            v@ == before + g.theme_lines@.take(i as int).map_values(|x: ThemeLine| EntityRef::ThemeLine(&x)),
    {
        v.push(EntityRef::ThemeLine(&g.theme_lines[i]));
        assert(g.theme_lines@.take(i + 1).map_values(|x: ThemeLine| EntityRef::ThemeLine(&x)) =~= g.theme_lines@.take(i as int).map_values(
            |x: ThemeLine| EntityRef::ThemeLine(&x),
        ).push(EntityRef::ThemeLine(&g.theme_lines@[i as int])));
    }
    assert(g.theme_lines@.take(g.theme_lines@.len() as int) =~= g.theme_lines@);
    let ghost before = v@;
    for i in 0..g.event_frames.len()
        invariant
            g == &data.entities,
            v@ == before + g.event_frames@.take(i as int).map_values(|x: EventFrame| EntityRef::EventFrame(&x)),
    {
        v.push(EntityRef::EventFrame(&g.event_frames[i]));
        assert(g.event_frames@.take(i + 1).map_values(|x: EventFrame| EntityRef::EventFrame(&x)) =~= g.event_frames@.take(i as int).map_values(
            |x: EventFrame| EntityRef::EventFrame(&x),
        ).push(EntityRef::EventFrame(&g.event_frames@[i as int])));
    }
    assert(g.event_frames@.take(g.event_frames@.len() as int) =~= g.event_frames@);
    let ghost before = v@;
    for i in 0..g.text_blocks.len()
        invariant
            g == &data.entities,
            v@ == before + g.text_blocks@.take(i as int).map_values(|x: TextBlock| EntityRef::TextBlock(&x)),
    {
        v.push(EntityRef::TextBlock(&g.text_blocks[i]));
        assert(g.text_blocks@.take(i + 1).map_values(|x: TextBlock| EntityRef::TextBlock(&x)) =~= g.text_blocks@.take(i as int).map_values(
            |x: TextBlock| EntityRef::TextBlock(&x),
        ).push(EntityRef::TextBlock(&g.text_blocks@[i as int])));
    }
    assert(g.text_blocks@.take(g.text_blocks@.len() as int) =~= g.text_blocks@);
    let ghost before = v@;
    for i in 0..g.labels.len()
        invariant
            g == &data.entities,
            v@ == before + g.labels@.take(i as int).map_values(|x: Label| EntityRef::Label(&x)),
    {
        v.push(EntityRef::Label(&g.labels[i]));
        assert(g.labels@.take(i + 1).map_values(|x: Label| EntityRef::Label(&x)) =~= g.labels@.take(i as int).map_values(
            |x: Label| EntityRef::Label(&x),
        ).push(EntityRef::Label(&g.labels@[i as int])));
    }
    assert(g.labels@.take(g.labels@.len() as int) =~= g.labels@);
    assert(v@ =~= entity_refs(data));
    v
}

} // verus!
