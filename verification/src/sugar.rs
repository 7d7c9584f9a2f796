//! Fluent constructors over the data model: build entities, links and cards
//! without assembling every field by hand, and accumulate them into a data
//! layer.
use vstd::prelude::*;

use crate::color::ColorValue;
use crate::entities::{
    Box, Circle, Entity, EntityCommon, EventFrame, Icon, Label, TextBlock, ThemeLine,
};
use crate::input::{ChartData};
use crate::maps::{attr_entries, attr_insert, attr_map_new, upsert};
use crate::models::{Card, Font, Frame, GradeRef, Link, Show};
use crate::value::AttrValue;

verus! {

impl Card {
    /// A card with a summary and nothing else set.
    pub fn new(summary: &str) -> (c: Card)
        ensures
            c.summary matches Some(s) && s@ == summary@,
            c.date is None && c.time is None && c.description is None,
            c.source_ref is None && c.source_type is None,
            c.grade_one is None && c.grade_two is None && c.grade_three is None,
            c.datetime_description is None && c.timezone is None,
            c.entity_id is None && c.link_id is None,
    {
        Card {
            summary: Some(summary.to_owned()),
            date: None,
            time: None,
            description: None,
            source_ref: None,
            source_type: None,
            grade_one: None,
            grade_two: None,
            grade_three: None,
            datetime_description: None,
            timezone: None,
            entity_id: None,
            link_id: None,
        }
    }

    /// The card with its date set.
    pub fn date(self, d: &str) -> (c: Card)
        ensures
            c.date matches Some(x) && x@ == d@,
            c == (Card { date: c.date, ..self }),
    {
        Card { date: Some(d.to_owned()), ..self }
    }

    /// The card with its time set.
    pub fn time(self, t: &str) -> (c: Card)
        ensures
            c.time matches Some(x) && x@ == t@,
            c == (Card { time: c.time, ..self }),
    {
        Card { time: Some(t.to_owned()), ..self }
    }

    /// The card with its description set.
    pub fn description(self, d: &str) -> (c: Card)
        ensures
            c.description matches Some(x) && x@ == d@,
            c == (Card { description: c.description, ..self }),
    {
        Card { description: Some(d.to_owned()), ..self }
    }

    /// The card with its evidence source type set.
    pub fn source(self, source_type: &str) -> (c: Card)
        ensures
            c.source_type matches Some(x) && x@ == source_type@,
            c == (Card { source_type: c.source_type, ..self }),
    {
        Card { source_type: Some(source_type.to_owned()), ..self }
    }

    /// The card with its source reference set.
    pub fn source_ref(self, r: &str) -> (c: Card)
        ensures
            c.source_ref matches Some(x) && x@ == r@,
            c == (Card { source_ref: c.source_ref, ..self }),
    {
        Card { source_ref: Some(r.to_owned()), ..self }
    }
}

// ── Chart data accumulation ─────────────────────────────────────────────────

/// The contents of a data layer: the seven entity groups, the links and
/// the loose cards.
pub open spec fn contents(d: ChartData) -> (
    Seq<Icon>,
    Seq<Box>,
    Seq<Circle>,
    Seq<ThemeLine>,
    Seq<EventFrame>,
    Seq<TextBlock>,
    Seq<Label>,
    Seq<Link>,
    Seq<Card>,
) {
    (
        d.entities.icons@,
        d.entities.boxes@,
        d.entities.circles@,
        d.entities.theme_lines@,
        d.entities.event_frames@,
        d.entities.text_blocks@,
        d.entities.labels@,
        d.links@,
        d.loose_cards@,
    )
}

/// The contents after adding an entity to the group of its representation.
pub open spec fn with_entity(d: ChartData, e: Entity) -> (
    Seq<Icon>,
    Seq<Box>,
    Seq<Circle>,
    Seq<ThemeLine>,
    Seq<EventFrame>,
    Seq<TextBlock>,
    Seq<Label>,
    Seq<Link>,
    Seq<Card>,
) {
    let c = contents(d);
    match e {
        Entity::Icon(x) => (c.0.push(x), c.1, c.2, c.3, c.4, c.5, c.6, c.7, c.8),
        Entity::Box(x) => (c.0, c.1.push(x), c.2, c.3, c.4, c.5, c.6, c.7, c.8),
        Entity::Circle(x) => (c.0, c.1, c.2.push(x), c.3, c.4, c.5, c.6, c.7, c.8),
        Entity::ThemeLine(x) => (c.0, c.1, c.2, c.3.push(x), c.4, c.5, c.6, c.7, c.8),
        Entity::EventFrame(x) => (c.0, c.1, c.2, c.3, c.4.push(x), c.5, c.6, c.7, c.8),
        Entity::TextBlock(x) => (c.0, c.1, c.2, c.3, c.4, c.5.push(x), c.6, c.7, c.8),
        Entity::Label(x) => (c.0, c.1, c.2, c.3, c.4, c.5, c.6.push(x), c.7, c.8),
    }
}

impl ChartData {
    /// Append an icon entity.
    pub fn add_icon(&mut self, e: Icon) -> (r: &mut Self)
        ensures
            contents(*r) == with_entity(*old(self), Entity::Icon(e)),
            *final(self) == *final(r),
    {
        self.entities.icons.push(e);
        self
    }

    /// Append a box entity.
    pub fn add_box(&mut self, e: Box) -> (r: &mut Self)
        ensures
            contents(*r) == with_entity(*old(self), Entity::Box(e)),
            *final(self) == *final(r),
    {
        self.entities.boxes.push(e);
        self
    }

    /// Append a circle entity.
    pub fn add_circle(&mut self, e: Circle) -> (r: &mut Self)
        ensures
            contents(*r) == with_entity(*old(self), Entity::Circle(e)),
            *final(self) == *final(r),
    {
        self.entities.circles.push(e);
        self
    }

    /// Append a theme line entity.
    pub fn add_theme_line(&mut self, e: ThemeLine) -> (r: &mut Self)
        ensures
            contents(*r) == with_entity(*old(self), Entity::ThemeLine(e)),
            *final(self) == *final(r),
    {
        self.entities.theme_lines.push(e);
        self
    }

    /// Append an event frame entity.
    pub fn add_event_frame(&mut self, e: EventFrame) -> (r: &mut Self)
        ensures
            contents(*r) == with_entity(*old(self), Entity::EventFrame(e)),
            *final(self) == *final(r),
    {
        self.entities.event_frames.push(e);
        self
    }

    /// Append a text block entity.
    pub fn add_text_block(&mut self, e: TextBlock) -> (r: &mut Self)
        ensures
            contents(*r) == with_entity(*old(self), Entity::TextBlock(e)),
            *final(self) == *final(r),
    {
        self.entities.text_blocks.push(e);
        self
    }

    /// Append a label entity.
    pub fn add_label(&mut self, e: Label) -> (r: &mut Self)
        ensures
            contents(*r) == with_entity(*old(self), Entity::Label(e)),
            *final(self) == *final(r),
    {
        self.entities.labels.push(e);
        self
    }

    /// Append a link.
    pub fn add_link(&mut self, l: Link) -> (r: &mut Self)
        ensures
            ({
                let c = contents(*old(self));
                contents(*r) == (c.0, c.1, c.2, c.3, c.4, c.5, c.6, c.7.push(l), c.8)
            }),
            *final(self) == *final(r),
    {
        self.links.push(l);
        self
    }

    /// Add a loose card (routed to an entity or link by its `entity_id` or
    /// `link_id`).
    pub fn add_loose_card(&mut self, c: Card) -> (r: &mut Self)
        ensures
            ({
                let k = contents(*old(self));
                contents(*r) == (k.0, k.1, k.2, k.3, k.4, k.5, k.6, k.7, k.8.push(c))
            }),
            *final(self) == *final(r),
    {
        self.loose_cards.push(c);
        self
    }

    /// Add any entity, routed to its representation group by variant.
    pub fn add(&mut self, e: Entity) -> (r: &mut Self)
        ensures
            contents(*r) == with_entity(*old(self), e),
            *final(self) == *final(r),
    {
        match e {
            Entity::Icon(x) => self.entities.icons.push(x),
            Entity::Box(x) => self.entities.boxes.push(x),
            Entity::Circle(x) => self.entities.circles.push(x),
            Entity::ThemeLine(x) => self.entities.theme_lines.push(x),
            Entity::EventFrame(x) => self.entities.event_frames.push(x),
            Entity::TextBlock(x) => self.entities.text_blocks.push(x),
            Entity::Label(x) => self.entities.labels.push(x),
        }
        self
    }
}

// ── Links ───────────────────────────────────────────────────────────────────

/// A font with nothing set.
pub open spec fn blank_font(f: Font) -> bool {
    f.name is None && f.size is None && f.color is None && f.bg_color is None && f.bold is None
        && f.italic is None && f.strikeout is None && f.underline is None
}

/// Sub-item flags with nothing set.
pub open spec fn blank_show(s: Show) -> bool {
    s.description is None && s.grades is None && s.label is None && s.date is None
        && s.source_ref is None && s.source_type is None && s.pin is None
}

fn no_font() -> (f: Font)
    ensures
        blank_font(f),
{
    Font {
        name: None,
        size: None,
        color: None,
        bg_color: None,
        bold: None,
        italic: None,
        strikeout: None,
        underline: None,
    }
}

fn no_show() -> (s: Show)
    ensures
        blank_show(s),
{
    Show {
        description: None,
        grades: None,
        label: None,
        date: None,
        source_ref: None,
        source_type: None,
        pin: None,
    }
}

/// A link with only its ends set.
pub open spec fn bare_link(l: Link) -> bool {
    &&& l.type_ is None && l.arrow is None && l.label is None && l.date is None && l.time is None
    &&& l.description is None && l.strength is None && l.line_color is None
    &&& l.line_width is None && l.offset is None && l.ordered is None
    &&& l.grade_one is None && l.grade_two is None && l.grade_three is None
    &&& attr_entries(l.attributes).len() == 0 && l.cards@.len() == 0
    &&& blank_font(l.label_font) && l.timezone is None && l.source_ref is None
    &&& l.source_type is None && blank_show(l.show) && l.background is None
    &&& l.datetime_description is None && l.show_datetime_description is None
    &&& l.datetime_format is None && l.sub_text_width is None && l.use_sub_text_width is None
    &&& l.multiplicity is None && l.fan_out is None && l.theme_wiring is None
    &&& l.link_id is None && l.semantic_type is None
}

impl Link {
    /// A link between two entity ids; type and style unset.
    pub fn new(from: &str, to: &str) -> (l: Link)
        ensures
            l.from_id@ == from@,
            l.to_id@ == to@,
            bare_link(l),
    {
        Link {
            from_id: from.to_owned(),
            to_id: to.to_owned(),
            type_: None,
            arrow: None,
            label: None,
            date: None,
            time: None,
            description: None,
            strength: None,
            line_color: None,
            line_width: None,
            offset: None,
            ordered: None,
            grade_one: None,
            grade_two: None,
            grade_three: None,
            attributes: attr_map_new(),
            cards: Vec::new(),
            label_font: no_font(),
            timezone: None,
            source_ref: None,
            source_type: None,
            show: no_show(),
            background: None,
            datetime_description: None,
            show_datetime_description: None,
            datetime_format: None,
            sub_text_width: None,
            use_sub_text_width: None,
            multiplicity: None,
            fan_out: None,
            theme_wiring: None,
            link_id: None,
            semantic_type: None,
        }
    }

    /// The link with its type set.
    pub fn link_type(self, t: &str) -> (l: Link)
        ensures
            l.type_ matches Some(x) && x@ == t@,
            l == (Link { type_: l.type_, ..self }),
    {
        Link { type_: Some(t.to_owned()), ..self }
    }

    /// The link with its label set.
    pub fn label(self, text: &str) -> (l: Link)
        ensures
            l.label matches Some(x) && x@ == text@,
            l == (Link { label: l.label, ..self }),
    {
        Link { label: Some(text.to_owned()), ..self }
    }

    /// The link with its arrow set (`->`, `<-`, `<->`, or a token).
    pub fn arrow(self, a: &str) -> (l: Link)
        ensures
            l.arrow matches Some(x) && x@ == a@,
            l == (Link { arrow: l.arrow, ..self }),
    {
        Link { arrow: Some(a.to_owned()), ..self }
    }

    /// The link with its strength set.
    pub fn strength(self, s: &str) -> (l: Link)
        ensures
            l.strength matches Some(x) && x@ == s@,
            l == (Link { strength: l.strength, ..self }),
    {
        Link { strength: Some(s.to_owned()), ..self }
    }

    /// The link with its date set.
    pub fn date(self, d: &str) -> (l: Link)
        ensures
            l.date matches Some(x) && x@ == d@,
            l == (Link { date: l.date, ..self }),
    {
        Link { date: Some(d.to_owned()), ..self }
    }

    /// The link with its time set.
    pub fn time(self, t: &str) -> (l: Link)
        ensures
            l.time matches Some(x) && x@ == t@,
            l == (Link { time: l.time, ..self }),
    {
        Link { time: Some(t.to_owned()), ..self }
    }

    /// The link with its multiplicity set.
    pub fn multiplicity(self, m: &str) -> (l: Link)
        ensures
            l.multiplicity matches Some(x) && x@ == m@,
            l == (Link { multiplicity: l.multiplicity, ..self }),
    {
        Link { multiplicity: Some(m.to_owned()), ..self }
    }

    /// The link with its theme wiring set.
    pub fn theme_wiring(self, w: &str) -> (l: Link)
        ensures
            l.theme_wiring matches Some(x) && x@ == w@,
            l == (Link { theme_wiring: l.theme_wiring, ..self }),
    {
        Link { theme_wiring: Some(w.to_owned()), ..self }
    }

    /// Shorthand for an arrow on the head (`->`).
    pub fn directed(self) -> (l: Link)
        ensures
            l.arrow matches Some(x) && x@ == "->"@,
            l == (Link { arrow: l.arrow, ..self }),
    {
        self.arrow("->")
    }

    /// The link with an attribute set (a name already present keeps its place).
    pub fn attr(self, name: &str, value: AttrValue) -> (l: Link)
        ensures
            attr_entries(l.attributes) == upsert(attr_entries(self.attributes), name@, value),
            l == (Link { attributes: l.attributes, ..self }),
    {
        let mut l = self;
        attr_insert(&mut l.attributes, name.to_owned(), value);
        l
    }

    /// The link with its line color set.
    pub fn line_color(self, c: ColorValue) -> (l: Link)
        ensures
            l == (Link { line_color: Some(c), ..self }),
    {
        Link { line_color: Some(c), ..self }
    }

    /// The link with its line width set.
    pub fn line_width(self, w: i64) -> (l: Link)
        ensures
            l == (Link { line_width: Some(w), ..self }),
    {
        Link { line_width: Some(w), ..self }
    }

    /// The link with its first grade set.
    pub fn grade_one(self, g: GradeRef) -> (l: Link)
        ensures
            l == (Link { grade_one: Some(g), ..self }),
    {
        Link { grade_one: Some(g), ..self }
    }

    /// The link with its second grade set.
    pub fn grade_two(self, g: GradeRef) -> (l: Link)
        ensures
            l == (Link { grade_two: Some(g), ..self }),
    {
        Link { grade_two: Some(g), ..self }
    }

    /// The link with its third grade set.
    pub fn grade_three(self, g: GradeRef) -> (l: Link)
        ensures
            l == (Link { grade_three: Some(g), ..self }),
    {
        Link { grade_three: Some(g), ..self }
    }

    /// The link with a card appended.
    pub fn card(self, c: Card) -> (l: Link)
        ensures
            l.cards@ == self.cards@.push(c),
            l == (Link { cards: l.cards, ..self }),
    {
        let mut l = self;
        l.cards.push(c);
        l
    }
}

// ── Entities ────────────────────────────────────────────────────────────────

/// Shared entity fields with only the id and type set.
pub open spec fn bare_common(c: EntityCommon) -> bool {
    &&& c.label is None && c.date is None && c.time is None && c.description is None
    &&& c.ordered is None && c.strength is None
    &&& c.grade_one is None && c.grade_two is None && c.grade_three is None
    &&& c.x is None && c.y is None
    &&& attr_entries(c.attributes).len() == 0 && c.cards@.len() == 0
    &&& blank_font(c.label_font) && c.timezone is None && c.source_ref is None
    &&& c.source_type is None && blank_show(c.show) && c.background is None
    &&& c.datetime_description is None && c.show_datetime_description is None
    &&& c.datetime_format is None && c.sub_text_width is None && c.use_sub_text_width is None
    &&& c.semantic_type is None
}

fn new_common(id: &str, ty: &str) -> (c: EntityCommon)
    ensures
        c.id@ == id@,
        c.type_@ == ty@,
        bare_common(c),
{
    EntityCommon {
        id: id.to_owned(),
        type_: ty.to_owned(),
        label: None,
        date: None,
        time: None,
        description: None,
        ordered: None,
        strength: None,
        grade_one: None,
        grade_two: None,
        grade_three: None,
        x: None,
        y: None,
        attributes: attr_map_new(),
        cards: Vec::new(),
        label_font: no_font(),
        timezone: None,
        source_ref: None,
        source_type: None,
        show: no_show(),
        background: None,
        datetime_description: None,
        show_datetime_description: None,
        datetime_format: None,
        sub_text_width: None,
        use_sub_text_width: None,
        semantic_type: None,
    }
}

fn no_frame() -> (f: Frame)
    ensures
        f.color is None && f.margin is None && f.visible is None,
{
    Frame { color: None, margin: None, visible: None }
}

/// Fluent setters shared by every entity representation; they work on the
/// shared fields and leave the rest of the entity as it was.
pub trait EntityExt: Sized {
    /// The shared fields.
    spec fn shared(&self) -> EntityCommon;

    /// The same entity with its shared fields replaced.
    spec fn with_shared(&self, c: EntityCommon) -> Self;

    /// Borrow the shared fields mutably.
    fn common_mut(&mut self) -> (r: &mut EntityCommon)
        ensures
            *r == old(self).shared(),
            *final(self) == old(self).with_shared(*final(r)),
            final(self).shared() == *final(r),
    ;

    /// The entity with its label set.
    fn label(self, v: &str) -> (r: Self)
        ensures
            r.shared().label matches Some(x) && x@ == v@,
            r == self.with_shared(EntityCommon { label: r.shared().label, ..self.shared() }),
    {
        let mut e = self;
        let c = e.common_mut();
        c.label = Some(v.to_owned());
        e
    }

    /// The entity with an attribute set (a name already present keeps its place).
    fn attr(self, name: &str, value: AttrValue) -> (r: Self)
        ensures
            attr_entries(r.shared().attributes) == upsert(attr_entries(self.shared().attributes), name@, value),
            r == self.with_shared(EntityCommon { attributes: r.shared().attributes, ..self.shared() }),
    {
        let mut e = self;
        let c = e.common_mut();
        attr_insert(&mut c.attributes, name.to_owned(), value);
        e
    }

    /// The entity placed at `(x, y)`.
    fn position(self, x: i64, y: i64) -> (r: Self)
        ensures
            r == self.with_shared(EntityCommon { x: Some(x), y: Some(y), ..self.shared() }),
    {
        let mut e = self;
        let c = e.common_mut();
        c.x = Some(x);
        c.y = Some(y);
        e
    }

    /// The entity with its date set.
    fn date(self, v: &str) -> (r: Self)
        ensures
            r.shared().date matches Some(x) && x@ == v@,
            r == self.with_shared(EntityCommon { date: r.shared().date, ..self.shared() }),
    {
        let mut e = self;
        let c = e.common_mut();
        c.date = Some(v.to_owned());
        e
    }

    /// The entity with its time set.
    fn time(self, v: &str) -> (r: Self)
        ensures
            r.shared().time matches Some(x) && x@ == v@,
            r == self.with_shared(EntityCommon { time: r.shared().time, ..self.shared() }),
    {
        let mut e = self;
        let c = e.common_mut();
        c.time = Some(v.to_owned());
        e
    }

    /// The entity with its description set.
    fn description(self, v: &str) -> (r: Self)
        ensures
            r.shared().description matches Some(x) && x@ == v@,
            r == self.with_shared(EntityCommon { description: r.shared().description, ..self.shared() }),
    {
        let mut e = self;
        let c = e.common_mut();
        c.description = Some(v.to_owned());
        e
    }

    /// The entity with its strength set.
    fn strength(self, v: &str) -> (r: Self)
        ensures
            r.shared().strength matches Some(x) && x@ == v@,
            r == self.with_shared(EntityCommon { strength: r.shared().strength, ..self.shared() }),
    {
        let mut e = self;
        let c = e.common_mut();
        c.strength = Some(v.to_owned());
        e
    }

    /// The entity with its first grade set.
    fn grade_one(self, g: GradeRef) -> (r: Self)
        ensures
            r == self.with_shared(EntityCommon { grade_one: Some(g), ..self.shared() }),
    {
        let mut e = self;
        let c = e.common_mut();
        c.grade_one = Some(g);
        e
    }

    /// The entity with its second grade set.
    fn grade_two(self, g: GradeRef) -> (r: Self)
        ensures
            r == self.with_shared(EntityCommon { grade_two: Some(g), ..self.shared() }),
    {
        let mut e = self;
        let c = e.common_mut();
        c.grade_two = Some(g);
        e
    }

    /// The entity with its third grade set.
    fn grade_three(self, g: GradeRef) -> (r: Self)
        ensures
            r == self.with_shared(EntityCommon { grade_three: Some(g), ..self.shared() }),
    {
        let mut e = self;
        let c = e.common_mut();
        c.grade_three = Some(g);
        e
    }

    /// The entity with a card appended.
    fn card(self, card: Card) -> (r: Self)
        ensures
            r.shared().cards@ == self.shared().cards@.push(card),
            r == self.with_shared(EntityCommon { cards: r.shared().cards, ..self.shared() }),
    {
        let mut e = self;
        let c = e.common_mut();
        c.cards.push(card);
        e
    }
}

impl Icon {
    /// The entity with its required id and type; everything else unset.
    pub fn new(id: &str, ty: &str) -> (e: Icon)
        ensures
            e.common.id@ == id@,
            e.common.type_@ == ty@,
            bare_common(e.common),
            e.color is None && e.icon is None && e.text_x is None && e.text_y is None && e.enlargement is None && e.frame.color is None && e.frame.margin is None && e.frame.visible is None,
    {
        Icon { common: new_common(id, ty), color: None, icon: None, frame: no_frame(), text_x: None, text_y: None, enlargement: None }
    }
}

impl EntityExt for Icon {
    open spec fn shared(&self) -> EntityCommon {
        self.common
    }

    open spec fn with_shared(&self, c: EntityCommon) -> Self {
        Icon { common: c, ..*self }
    }

    fn common_mut(&mut self) -> (r: &mut EntityCommon) {
        &mut self.common
    }
}

impl Box {
    /// The entity with its required id and type; everything else unset.
    pub fn new(id: &str, ty: &str) -> (e: Box)
        ensures
            e.common.id@ == id@,
            e.common.type_@ == ty@,
            bare_common(e.common),
            e.bg_color is None && e.filled is None && e.line_color is None && e.line_width is None && e.width is None && e.height is None && e.depth is None,
    {
        Box { common: new_common(id, ty), bg_color: None, filled: None, line_color: None, line_width: None, width: None, height: None, depth: None }
    }
}

impl EntityExt for Box {
    open spec fn shared(&self) -> EntityCommon {
        self.common
    }

    open spec fn with_shared(&self, c: EntityCommon) -> Self {
        Box { common: c, ..*self }
    }

    fn common_mut(&mut self) -> (r: &mut EntityCommon) {
        &mut self.common
    }
}

impl Circle {
    /// The entity with its required id and type; everything else unset.
    pub fn new(id: &str, ty: &str) -> (e: Circle)
        ensures
            e.common.id@ == id@,
            e.common.type_@ == ty@,
            bare_common(e.common),
            e.bg_color is None && e.filled is None && e.line_width is None && e.diameter is None && e.autosize is None,
    {
        Circle { common: new_common(id, ty), bg_color: None, filled: None, line_width: None, diameter: None, autosize: None }
    }
}

impl EntityExt for Circle {
    open spec fn shared(&self) -> EntityCommon {
        self.common
    }

    open spec fn with_shared(&self, c: EntityCommon) -> Self {
        Circle { common: c, ..*self }
    }

    fn common_mut(&mut self) -> (r: &mut EntityCommon) {
        &mut self.common
    }
}

impl ThemeLine {
    /// The entity with its required id and type; everything else unset.
    pub fn new(id: &str, ty: &str) -> (e: ThemeLine)
        ensures
            e.common.id@ == id@,
            e.common.type_@ == ty@,
            bare_common(e.common),
            e.shade_color is None && e.line_color is None && e.line_width is None && e.enlargement is None && e.icon is None && e.frame.color is None && e.frame.margin is None && e.frame.visible is None,
    {
        ThemeLine { common: new_common(id, ty), shade_color: None, line_color: None, line_width: None, frame: no_frame(), enlargement: None, icon: None }
    }
}

impl EntityExt for ThemeLine {
    open spec fn shared(&self) -> EntityCommon {
        self.common
    }

    open spec fn with_shared(&self, c: EntityCommon) -> Self {
        ThemeLine { common: c, ..*self }
    }

    fn common_mut(&mut self) -> (r: &mut EntityCommon) {
        &mut self.common
    }
}

impl EventFrame {
    /// The entity with its required id and type; everything else unset.
    pub fn new(id: &str, ty: &str) -> (e: EventFrame)
        ensures
            e.common.id@ == id@,
            e.common.type_@ == ty@,
            bare_common(e.common),
            e.shade_color is None && e.bg_color is None && e.filled is None && e.line_color is None && e.line_width is None && e.enlargement is None && e.icon is None,
    {
        EventFrame { common: new_common(id, ty), shade_color: None, bg_color: None, filled: None, line_color: None, line_width: None, enlargement: None, icon: None }
    }
}

impl EntityExt for EventFrame {
    open spec fn shared(&self) -> EntityCommon {
        self.common
    }

    open spec fn with_shared(&self, c: EntityCommon) -> Self {
        EventFrame { common: c, ..*self }
    }

    fn common_mut(&mut self) -> (r: &mut EntityCommon) {
        &mut self.common
    }
}

impl TextBlock {
    /// The entity with its required id and type; everything else unset.
    pub fn new(id: &str, ty: &str) -> (e: TextBlock)
        ensures
            e.common.id@ == id@,
            e.common.type_@ == ty@,
            bare_common(e.common),
            e.bg_color is None && e.filled is None && e.line_color is None && e.line_width is None && e.alignment is None && e.width is None && e.height is None,
    {
        TextBlock { common: new_common(id, ty), bg_color: None, filled: None, line_color: None, line_width: None, alignment: None, width: None, height: None }
    }
}

impl EntityExt for TextBlock {
    open spec fn shared(&self) -> EntityCommon {
        self.common
    }

    open spec fn with_shared(&self, c: EntityCommon) -> Self {
        TextBlock { common: c, ..*self }
    }

    fn common_mut(&mut self) -> (r: &mut EntityCommon) {
        &mut self.common
    }
}

impl Label {
    /// The entity with its required id and type; everything else unset.
    pub fn new(id: &str, ty: &str) -> (e: Label)
        ensures
            e.common.id@ == id@,
            e.common.type_@ == ty@,
            bare_common(e.common),
            e.bg_color is None && e.filled is None && e.line_color is None && e.line_width is None && e.alignment is None && e.width is None && e.height is None,
    {
        Label { common: new_common(id, ty), bg_color: None, filled: None, line_color: None, line_width: None, alignment: None, width: None, height: None }
    }
}

impl EntityExt for Label {
    open spec fn shared(&self) -> EntityCommon {
        self.common
    }

    open spec fn with_shared(&self, c: EntityCommon) -> Self {
        Label { common: c, ..*self }
    }

    fn common_mut(&mut self) -> (r: &mut EntityCommon) {
        &mut self.common
    }
}

impl Icon {
    /// The icon with its shading color set.
    pub fn color(self, c: ColorValue) -> (e: Icon)
        ensures
            e == (Icon { color: Some(c), ..self }),
    {
        Icon { color: Some(c), ..self }
    }

    /// The icon with its icon name overridden.
    pub fn icon_name(self, name: &str) -> (e: Icon)
        ensures
            e.icon matches Some(x) && x@ == name@,
            e == (Icon { icon: e.icon, ..self }),
    {
        Icon { icon: Some(name.to_owned()), ..self }
    }
}

} // verus!
