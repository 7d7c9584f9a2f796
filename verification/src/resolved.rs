//! The typed intermediate between input models and XML emission: after
//! resolution ids are minted, attribute classes registered, colors are
//! integers and positions fixed, so emission is a straight walk.
use vstd::prelude::*;

verus! {

/// A resolved evidence card, with its datetime built and grades resolved.
#[derive(Debug, Default)]
pub struct ResolvedCard {
    pub summary: Option<String>,
    pub datetime: Option<String>,
    pub date_set: bool,
    pub time_set: bool,
    pub grade_one: Option<i64>,
    pub grade_two: Option<i64>,
    pub grade_three: Option<i64>,
    pub source_ref: Option<String>,
    pub source_type: Option<String>,
    pub description: Option<String>,
    pub datetime_description: Option<String>,
    pub timezone_id: Option<i64>,
    pub timezone_name: Option<String>,
}

/// A resolved attribute: its class name, the minted class reference id, and
/// the formatted value.
#[derive(Debug)]
pub struct ResolvedAttr {
    pub class: String,
    pub reference: String,
    pub value: Option<String>,
}

/// A resolved entity ready to emit.
#[derive(Debug)]
pub struct ResolvedEntity {
    pub ci_id: String,
    pub int_id: i64,
    pub identity: String,
    pub label: String,
    pub etype: String,
    /// Reference id of the entity type, when it is a collection entry.
    pub etype_ref: Option<String>,
    pub x: i64,
    pub y: i64,
    pub attrs: Vec<ResolvedAttr>,
    pub grade_one: Option<i64>,
    pub grade_two: Option<i64>,
    pub grade_three: Option<i64>,
    /// Auto-assigned shade color, when auto-color applied.
    pub auto_shade: Option<u32>,
    /// Label background / foreground colors for the `<CIStyle>` font.
    pub label_bg: Option<u32>,
    pub label_fg: Option<u32>,
    pub cards: Vec<ResolvedCard>,
    /// Per-instance semantic-type GUID.
    pub semantic_guid: Option<String>,
    /// Icon override (explicit `icon` or icon-map result).
    pub icon_override: Option<String>,
}

/// A resolved link ready to emit: minted id, end entity numbers, arc offset,
/// connection style and type references, the style values after precedence
/// (explicit, categorical, intensity, matched entity color), grades, cards and
/// attributes.
#[derive(Debug)]
pub struct ResolvedLink {
    pub ci_id: String,
    pub label: String,
    pub end1: i64,
    pub end2: i64,
    pub offset: i64,
    pub conn_ref: Option<String>,
    pub semantic_guid: Option<String>,
    pub strength: String,
    /// The arrow token, when the arrow names one.
    pub arrow: Option<String>,
    pub line_width: Option<i64>,
    pub line_color: Option<u32>,
    /// The link type, when set and non-empty.
    pub ltype: Option<String>,
    pub ltype_ref: Option<String>,
    pub grade_one: Option<i64>,
    pub grade_two: Option<i64>,
    pub grade_three: Option<i64>,
    pub cards: Vec<ResolvedCard>,
    pub attrs: Vec<ResolvedAttr>,
}

} // verus!
