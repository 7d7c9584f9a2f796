//! The top-level inputs of a build: zero or more config layers (type
//! definitions, settings, strengths, grades, legend, semantic types) and one
//! data layer (entities, links, loose cards).
use vstd::prelude::*;

use crate::entities::{Box, Circle, EventFrame, Icon, Label, TextBlock, ThemeLine};
use crate::models::{
    AttributeClass, Card, DateTimeFormat, EntityType, GradeCollection, LegendItem, Link, LinkType,
    Palette, SemanticEntity, SemanticLink, SemanticProperty, Settings, StrengthCollection,
    Validator,
};

verus! {

/// Entity rows grouped by representation, keyed exactly as the data schema
/// (`entities.icons`, `entities.boxes`, ...).
#[derive(Debug, Default)]
pub struct EntityGroups {
    pub icons: Vec<Icon>,
    pub boxes: Vec<Box>,
    pub circles: Vec<Circle>,
    pub theme_lines: Vec<ThemeLine>,
    pub event_frames: Vec<EventFrame>,
    pub text_blocks: Vec<TextBlock>,
    pub labels: Vec<Label>,
}

/// A data layer: the chart's entities, links, and any loose cards.
#[derive(Debug, Default)]
pub struct ChartData {
    pub entities: EntityGroups,
    pub links: Vec<Link>,
    pub loose_cards: Vec<Card>,
}

/// A config layer: type definitions, settings, and chart-wide collections.
#[derive(Debug, Default)]
pub struct Config {
    pub settings: Option<Settings>,
    pub entity_types: Vec<EntityType>,
    pub link_types: Vec<LinkType>,
    pub attribute_classes: Vec<AttributeClass>,
    pub datetime_formats: Vec<DateTimeFormat>,
    pub strengths: Option<StrengthCollection>,
    pub grades_one: Option<GradeCollection>,
    pub grades_two: Option<GradeCollection>,
    pub grades_three: Option<GradeCollection>,
    pub source_types: Vec<String>,
    pub legend_items: Vec<LegendItem>,
    pub palettes: Vec<Palette>,
    pub semantic_entities: Vec<SemanticEntity>,
    pub semantic_links: Vec<SemanticLink>,
    pub semantic_properties: Vec<SemanticProperty>,
    pub validators: Vec<Validator>,
    pub custom_entity_icons: Vec<crate::models::CustomIconEntry>,
    pub custom_attribute_icons: Vec<crate::models::CustomIconEntry>,
}

} // verus!
