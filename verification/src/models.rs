//! The chart data model: typed configuration and link inputs. Almost every
//! field is optional; `None` means unset and the emitter applies i2's
//! defaults. Numeric values that arrive as doubles are held as their bit
//! patterns ([`F64Bits`]).
use vstd::prelude::*;
use indexmap::IndexMap;

use crate::color::ColorValue;
use crate::enums::{AttributeType, DotStyle, MergeBehaviour};
use crate::number::F64Bits;
use crate::value::AttrValue;

verus! {

/// A grade reference: a 0-based index into a grade collection, or a grade name.
#[derive(Debug, Clone)]
pub enum GradeRef {
    Index(i64),
    Name(String),
}

/// An intensity domain: an explicit `[min, max]` range or a keyword (`robust`).
#[derive(Debug, Clone)]
pub enum IntensityDomain {
    Range(F64Bits, F64Bits),
    Keyword(String),
}

// ── Shared styling shapes ───────────────────────────────────────────────────

/// Font styling (`FaceName`, `PointSize`, colours, weight flags).
#[derive(Debug, Default)]
pub struct Font {
    pub name: Option<String>,
    pub size: Option<i64>,
    pub color: Option<ColorValue>,
    pub bg_color: Option<ColorValue>,
    pub bold: Option<bool>,
    pub italic: Option<bool>,
    pub strikeout: Option<bool>,
    pub underline: Option<bool>,
}

/// Frame highlight border (`FrameStyle`).
#[derive(Debug, Default)]
pub struct Frame {
    pub color: Option<ColorValue>,
    pub margin: Option<i64>,
    pub visible: Option<bool>,
}

/// Sub-item visibility flags (`SubItemVisibility`).
#[derive(Debug, Default)]
pub struct Show {
    pub description: Option<bool>,
    pub grades: Option<bool>,
    pub label: Option<bool>,
    pub date: Option<bool>,
    pub source_ref: Option<bool>,
    pub source_type: Option<bool>,
    pub pin: Option<bool>,
}

// ── Settings sub-blocks ─────────────────────────────────────────────────────

#[derive(Debug, Default)]
pub struct ChartCfg {
    pub bg_color: Option<ColorValue>,
    pub bg_filled: Option<bool>,
    pub label_merge_rule: Option<String>,
    pub icon_quality: Option<String>,
    pub rigorous: Option<bool>,
    pub id_reference_linking: Option<bool>,
}

#[derive(Debug, Default)]
pub struct ViewCfg {
    pub show_pages_boundaries: Option<bool>,
    pub show_all: Option<bool>,
    pub hidden_items: Option<String>,
    pub cover_sheet_on_open: Option<bool>,
    pub time_bar: Option<bool>,
}

#[derive(Debug, Default)]
pub struct GridCfg {
    pub width: Option<F64Bits>,
    pub height: Option<F64Bits>,
    pub snap: Option<bool>,
    pub visible: Option<bool>,
}

#[derive(Debug, Default)]
pub struct WiringCfg {
    pub distance_far: Option<F64Bits>,
    pub distance_near: Option<F64Bits>,
    pub height: Option<F64Bits>,
    pub spacing: Option<F64Bits>,
    pub use_height_for_theme_icon: Option<bool>,
}

#[derive(Debug, Default)]
pub struct LinksCfg {
    pub spacing: Option<F64Bits>,
    pub use_default_spacing_when_dragging: Option<bool>,
    pub blank_labels: Option<bool>,
    pub sum_numeric_labels: Option<bool>,
}

#[derive(Debug, Default)]
pub struct TimeCfg {
    pub default_date: Option<String>,
    pub default_datetime: Option<String>,
    pub tick_rate: Option<F64Bits>,
    pub local_tz: Option<bool>,
    pub hide_matching_tz_format: Option<bool>,
}

#[derive(Debug, Default)]
pub struct SummaryCfg {
    pub title: Option<String>,
    pub subject: Option<String>,
    pub author: Option<String>,
    pub keywords: Option<String>,
    pub category: Option<String>,
    pub comments: Option<String>,
    pub template: Option<String>,
    pub created: Option<String>,
    pub revision: Option<i64>,
    pub edit_time: Option<i64>,
    pub last_print: Option<String>,
    pub last_save: Option<String>,
    pub custom_properties: Vec<CustomProperty>,
}

#[derive(Debug, Default)]
pub struct LegendCfg {
    pub show: Option<bool>,
    pub x: Option<i64>,
    pub y: Option<i64>,
    pub arrange: Option<String>,
    pub valign: Option<String>,
    pub halign: Option<String>,
    pub font: Font,
}

#[derive(Debug, Default)]
pub struct GeoMapCfg {
    pub attribute_name: Option<String>,
    /// `position`, `latlon`, or `both` (default `both`).
    pub mode: Option<String>,
    pub width: Option<i64>,
    pub height: Option<i64>,
    pub spread_radius: Option<i64>,
    pub data: Option<IndexMap<String, Vec<F64Bits>>>,
    pub data_file: Option<String>,
    pub accent_insensitive: Option<bool>,
}

#[derive(Debug, Default)]
pub struct IconRule {
    /// `attribute` (default) or `id`.
    pub match_: Option<String>,
    pub attribute_name: Option<String>,
    pub type_: Option<String>,
    pub mapping: IndexMap<String, String>,
    pub default: Option<String>,
    pub default_when_absent: Option<String>,
    pub strict_match: Option<bool>,
}

#[derive(Debug, Default)]
pub struct IconMapCfg {
    pub rules: Vec<IconRule>,
}

// ── Data-driven link styling ────────────────────────────────────────────────

#[derive(Debug, Default)]
pub struct CategoricalStyleCfg {
    pub line_color: Option<ColorValue>,
    pub line_width: Option<i64>,
    pub strength: Option<String>,
}

#[derive(Debug, Default)]
pub struct IntensityWidthCfg {
    pub attribute: Option<String>,
    pub scale: Option<String>,
    pub domain: Option<IntensityDomain>,
    pub clip: Option<bool>,
    pub power: Option<F64Bits>,
    pub range: Option<Vec<i64>>,
}

#[derive(Debug, Default)]
pub struct IntensityColorCfg {
    pub attribute: Option<String>,
    pub scale: Option<String>,
    pub domain: Option<IntensityDomain>,
    pub clip: Option<bool>,
    pub power: Option<F64Bits>,
    pub ramp: Option<Vec<ColorValue>>,
    /// `rgb`, `rgb_linear` (default), or `hsl`.
    pub space: Option<String>,
    pub diverging: Option<bool>,
    pub midpoint: Option<F64Bits>,
}

#[derive(Debug, Default)]
pub struct IntensityCfg {
    pub attribute: Option<String>,
    pub scale: Option<String>,
    pub domain: Option<IntensityDomain>,
    pub clip: Option<bool>,
    pub missing: Option<String>,
    pub legend: Option<bool>,
    pub legend_count: Option<i64>,
    pub decimal_separator: Option<String>,
    pub thousand_separator: Option<String>,
    pub width: Option<IntensityWidthCfg>,
    pub color: Option<IntensityColorCfg>,
}

#[derive(Debug, Default)]
pub struct CategoricalCfg {
    pub attribute: Option<String>,
    pub styles: IndexMap<String, CategoricalStyleCfg>,
    pub default: Option<CategoricalStyleCfg>,
    pub missing: Option<String>,
    pub case_sensitive: Option<bool>,
    pub accent_insensitive: Option<bool>,
    pub legend: Option<bool>,
}

#[derive(Debug, Default)]
pub struct LinkStylingCfg {
    pub intensity: Option<IntensityCfg>,
    pub categorical: Option<CategoricalCfg>,
}

#[derive(Debug, Default)]
pub struct StylingCfg {
    pub links: Option<LinkStylingCfg>,
}

// ── Display synthesizers ────────────────────────────────────────────────────

#[derive(Debug, Default)]
pub struct DisplaySource {
    pub attribute: Option<String>,
    pub alias: Option<String>,
    pub missing: Option<String>,
    pub placeholder: Option<String>,
}

#[derive(Debug, Default)]
pub struct DisplayAttribute {
    pub key: Option<String>,
    pub attribute_name: Option<String>,
    /// `entity`, `link`, or `both` (default `both`).
    pub kind: Option<String>,
    pub type_: Option<String>,
    pub template: Option<String>,
    pub decimal_separator: Option<String>,
    pub thousand_separator: Option<String>,
    pub sources: Vec<DisplaySource>,
    pub attribute_class: Option<AttributeClass>,
}

#[derive(Debug, Default)]
pub struct DisplayLabel {
    pub key: Option<String>,
    pub kind: Option<String>,
    pub type_: Option<String>,
    pub template: Option<String>,
    pub decimal_separator: Option<String>,
    pub thousand_separator: Option<String>,
    pub sources: Vec<DisplaySource>,
    pub override_existing: Option<bool>,
}

#[derive(Debug, Default)]
pub struct ExtraCfg {
    pub entity_auto_color: Option<bool>,
    pub link_match_entity_color: Option<bool>,
    /// `radial` (default) / `circle` / `grid` / `random` / `fr` / `forceatlas2` / `tree`.
    pub arrange: Option<String>,
    pub layout_scale: Option<F64Bits>,
    pub link_arc_offset: Option<i64>,
    pub geo_map: Option<GeoMapCfg>,
    pub icon_map: Option<IconMapCfg>,
    pub styling: Option<StylingCfg>,
    pub display_attribute: Vec<DisplayAttribute>,
    pub display_label: Vec<DisplayLabel>,
    /// `referenced` (default) or `all`.
    pub custom_icons_include: Option<String>,
}

/// Chart-wide settings; the `settings` block of a config.
#[derive(Debug, Default)]
pub struct Settings {
    pub chart: ChartCfg,
    pub font: Font,
    pub view: ViewCfg,
    pub grid: GridCfg,
    pub wiring: WiringCfg,
    pub links_cfg: LinksCfg,
    pub time: TimeCfg,
    pub summary: SummaryCfg,
    pub legend_cfg: LegendCfg,
    pub extra_cfg: ExtraCfg,
}

// ── Metadata & shared values ────────────────────────────────────────────────

/// ANB timezone: internal `id` (UniqueID 1-122) plus cosmetic `name`.
#[derive(Debug)]
pub struct TimeZone {
    pub id: i64,
    pub name: String,
}

#[derive(Debug, Default)]
pub struct CustomProperty {
    pub name: String,
    pub value: String,
}

/// A custom icon definition: either a raw `image` source (path / `data:` URI) to
/// convert, or a pre-baked `data` (base64 of zlib-compressed BMP) + `datalength`.
#[derive(Debug, Default)]
pub struct CustomIconEntry {
    pub name: String,
    pub image: Option<String>,
    pub data: Option<String>,
    pub datalength: Option<u32>,
    pub prefix: Option<String>,
}

/// An evidence card attached to an entity or link.
#[derive(Debug, Default)]
pub struct Card {
    pub summary: Option<String>,
    pub date: Option<String>,
    pub time: Option<String>,
    pub description: Option<String>,
    pub source_ref: Option<String>,
    pub source_type: Option<String>,
    pub grade_one: Option<GradeRef>,
    pub grade_two: Option<GradeRef>,
    pub grade_three: Option<GradeRef>,
    pub datetime_description: Option<String>,
    pub timezone: Option<TimeZone>,
    /// INTERNAL — routes a loose card to an entity; not written to XML.
    pub entity_id: Option<String>,
    /// INTERNAL — routes a loose card to a link; not written to XML.
    pub link_id: Option<String>,
}

// ── Value enforcement (1.17.0) ──────────────────────────────────────────────

#[derive(Debug, Default)]
pub struct AttributeClassEnforce {
    pub pattern: Option<String>,
    pub description: Option<String>,
    pub allowed_values: Option<Vec<AttrValue>>,
}

#[derive(Debug, Default)]
pub struct EntityTypeEnforce {
    pub id_pattern: Option<String>,
    pub id_pattern_description: Option<String>,
    pub required_attributes: Vec<String>,
}

#[derive(Debug, Default)]
pub struct LinkTypeEnforce {
    pub id_pattern: Option<String>,
    pub id_pattern_description: Option<String>,
    pub required_attributes: Vec<String>,
}

#[derive(Debug, Default)]
pub struct Validator {
    pub entity_type: Option<String>,
    pub link_type: Option<String>,
    pub attribute: Option<String>,
    pub pattern: Option<String>,
    pub allowed_values: Option<Vec<AttrValue>>,
    pub description: Option<String>,
}

// ── Attribute & type definitions ────────────────────────────────────────────

#[derive(Debug, Default)]
pub struct AttributeClass {
    pub name: String,
    pub type_: Option<AttributeType>,
    pub prefix: Option<String>,
    pub suffix: Option<String>,
    pub decimal_places: Option<i64>,
    pub show_value: Option<bool>,
    pub show_date: Option<bool>,
    pub show_time: Option<bool>,
    pub show_seconds: Option<bool>,
    pub show_if_set: Option<bool>,
    pub show_class_name: Option<bool>,
    pub show_symbol: Option<bool>,
    pub visible: Option<bool>,
    pub is_user: Option<bool>,
    pub user_can_add: Option<bool>,
    pub user_can_remove: Option<bool>,
    pub icon_file: Option<String>,
    pub semantic_type: Option<String>,
    pub merge_behaviour: Option<MergeBehaviour>,
    pub paste_behaviour: Option<MergeBehaviour>,
    pub font: Font,
    pub enforce: Option<AttributeClassEnforce>,
}

/// A link between two entities.
#[derive(Debug, Default)]
pub struct Link {
    pub from_id: String,
    pub to_id: String,
    pub type_: Option<String>,
    pub arrow: Option<String>,
    pub label: Option<String>,
    pub date: Option<String>,
    pub time: Option<String>,
    pub description: Option<String>,
    pub strength: Option<String>,
    pub line_color: Option<ColorValue>,
    pub line_width: Option<i64>,
    pub offset: Option<i64>,
    pub ordered: Option<bool>,
    pub grade_one: Option<GradeRef>,
    pub grade_two: Option<GradeRef>,
    pub grade_three: Option<GradeRef>,
    pub attributes: IndexMap<String, AttrValue>,
    pub cards: Vec<Card>,
    pub label_font: Font,
    pub timezone: Option<TimeZone>,
    pub source_ref: Option<String>,
    pub source_type: Option<String>,
    pub show: Show,
    pub background: Option<bool>,
    pub datetime_description: Option<String>,
    pub show_datetime_description: Option<bool>,
    pub datetime_format: Option<String>,
    pub sub_text_width: Option<F64Bits>,
    pub use_sub_text_width: Option<bool>,
    /// `multiple` / `single` / `directed`, or an ANB token (kept as-is).
    pub multiplicity: Option<String>,
    pub fan_out: Option<i64>,
    /// ThemeWiring value or ANB token.
    pub theme_wiring: Option<String>,
    /// INTERNAL — target for loose-card attachment; not written to XML.
    pub link_id: Option<String>,
    pub semantic_type: Option<String>,
}

/// A line dash/dot strength.
#[derive(Debug)]
pub struct Strength {
    pub name: String,
    pub dot_style: DotStyle,
}

impl Default for Strength {
    fn default() -> (s: Self)
        ensures
            s.name@ == Seq::<char>::empty(),
            s.dot_style == DotStyle::Solid,
    {
        Self {
            name: String::new(),
            dot_style: DotStyle::Solid,
        }
    }
}

/// A grade dimension: ordered names plus an optional default.
#[derive(Debug, Default)]
pub struct GradeCollection {
    pub default: Option<String>,
    pub items: Vec<String>,
}

/// The strength dimension: ordered strengths plus an optional default.
#[derive(Debug, Default)]
pub struct StrengthCollection {
    pub default: Option<String>,
    pub items: Vec<Strength>,
}

#[derive(Debug, Default)]
pub struct EntityType {
    pub name: String,
    pub icon_file: Option<String>,
    pub color: Option<ColorValue>,
    pub shade_color: Option<ColorValue>,
    /// Representation value (`icon`, `box`, ...) or ANB token.
    pub representation: Option<String>,
    pub semantic_type: Option<String>,
    pub enforce: Option<EntityTypeEnforce>,
}

#[derive(Debug, Default)]
pub struct LinkType {
    pub name: String,
    pub color: Option<ColorValue>,
    pub semantic_type: Option<String>,
    pub enforce: Option<LinkTypeEnforce>,
}

#[derive(Debug, Default)]
pub struct PaletteAttributeEntry {
    pub name: String,
    pub value: Option<String>,
}

#[derive(Debug)]
pub struct Palette {
    pub name: String,
    pub locked: bool,
    pub entity_types: Vec<String>,
    pub link_types: Vec<String>,
    pub attribute_classes: Vec<String>,
    pub attribute_entries: Vec<PaletteAttributeEntry>,
}

impl Default for Palette {
    fn default() -> (p: Self)
        ensures
            p.name@ == "Standard"@,
            !p.locked,
            p.entity_types@.len() == 0,
            p.link_types@.len() == 0,
            p.attribute_classes@.len() == 0,
            p.attribute_entries@.len() == 0,
    {
        Self {
            name: "Standard".to_owned(),
            locked: false,
            entity_types: Vec::new(),
            link_types: Vec::new(),
            attribute_classes: Vec::new(),
            attribute_entries: Vec::new(),
        }
    }
}

#[derive(Debug)]
pub struct LegendItem {
    /// Identity field; config files may spell it `label` (aliased here).
    pub name: String,
    /// Legend item type (`font` default, `text`, `icon`, ...) or ANB token.
    pub item_type: Option<String>,
    pub color: Option<ColorValue>,
    pub line_width: Option<i64>,
    pub dash_style: Option<String>,
    pub arrows: Option<String>,
    pub image_name: Option<String>,
    pub shade_color: Option<ColorValue>,
    pub font: Font,
}

impl Default for LegendItem {
    fn default() -> (li: Self)
        ensures
            li.name@ == Seq::<char>::empty(),
            li.item_type matches Some(t) && t@ == "Font"@,
            li.color is None,
            li.line_width is None,
            li.dash_style is None,
            li.arrows is None,
            li.image_name is None,
            li.shade_color is None,
    {
        Self {
            name: String::new(),
            item_type: Some("Font".to_owned()),
            color: None,
            line_width: None,
            dash_style: None,
            arrows: None,
            image_name: None,
            shade_color: None,
            font: Font {
                name: None,
                size: None,
                color: None,
                bg_color: None,
                bold: None,
                italic: None,
                strikeout: None,
                underline: None,
            },
        }
    }
}

#[derive(Debug, Default)]
pub struct DateTimeFormat {
    pub name: String,
    pub format: String,
}

// ── Semantic types ──────────────────────────────────────────────────────────

#[derive(Debug, Default)]
pub struct SemanticEntity {
    pub name: String,
    pub kind_of: String,
    pub guid: Option<String>,
    pub abstract_: bool,
    pub synonyms: Option<Vec<String>>,
    pub description: Option<String>,
}

#[derive(Debug, Default)]
pub struct SemanticLink {
    pub name: String,
    pub kind_of: String,
    pub guid: Option<String>,
    pub abstract_: bool,
    pub synonyms: Option<Vec<String>>,
    pub description: Option<String>,
}

#[derive(Debug, Default)]
pub struct SemanticProperty {
    pub name: String,
    pub base_property: String,
    pub guid: Option<String>,
    pub abstract_: bool,
    pub synonyms: Option<Vec<String>>,
    pub description: Option<String>,
}

} // verus!
