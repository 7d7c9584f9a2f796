//! Discovery tables for a service's `/meta` endpoint: every public enum with
//! its accepted string values, the named-color map, and the arrange algorithm
//! and alias tables — all read from the crate's own definitions, so a published
//! vocabulary cannot drift from what the emitter accepts.
use vstd::prelude::*;

use crate::enums::{
    ArrowStyle, AttributeType, Color, ColorSpace, DotStyle, Enlargement, EnumMeta,
    IntensityScale, LegendItemType, MergeBehaviour, MissingPolicy, Multiplicity, Representation,
    ThemeWiring,
};

verus! {

/// One discoverable enum: its type name and the string value of every
/// variant, in declaration order.
#[derive(Debug)]
pub struct EnumInfo {
    pub name: &'static str,
    pub values: Vec<&'static str>,
}

/// `values` lists the tokens of every variant of `T`, in order.
pub open spec fn lists_tokens_of<T: EnumMeta>(values: Seq<&'static str>) -> bool {
    &&& values.len() == T::all().len()
    &&& forall|i: int| 0 <= i < values.len() ==> #[trigger] values[i]@ == T::all()[i].token()
}

/// `info` describes enum `T` under the name `name`.
pub open spec fn describes<T: EnumMeta>(info: EnumInfo, name: Seq<char>) -> bool {
    info.name@ == name && lists_tokens_of::<T>(info.values@)
}

fn info<T: EnumMeta>(name: &'static str) -> (e: EnumInfo)
    ensures
        e.name == name,
        lists_tokens_of::<T>(e.values@),
{
    EnumInfo { name, values: T::values() }
}

/// Every public config/style enum with its values.
pub fn enums() -> (r: Vec<EnumInfo>)
    ensures
        r@.len() == 13,
        describes::<ArrowStyle>(r@[0], "ArrowStyle"@),
        describes::<DotStyle>(r@[1], "DotStyle"@),
        describes::<Multiplicity>(r@[2], "Multiplicity"@),
        describes::<Representation>(r@[3], "Representation"@),
        describes::<ThemeWiring>(r@[4], "ThemeWiring"@),
        describes::<Enlargement>(r@[5], "Enlargement"@),
        describes::<IntensityScale>(r@[6], "IntensityScale"@),
        describes::<MergeBehaviour>(r@[7], "MergeBehaviour"@),
        describes::<LegendItemType>(r@[8], "LegendItemType"@),
        describes::<MissingPolicy>(r@[9], "MissingPolicy"@),
        describes::<AttributeType>(r@[10], "AttributeType"@),
        describes::<ColorSpace>(r@[11], "ColorSpace"@),
        describes::<Color>(r@[12], "Color"@),
{
    let mut r: Vec<EnumInfo> = Vec::new();
    r.push(info::<ArrowStyle>("ArrowStyle"));
    r.push(info::<DotStyle>("DotStyle"));
    r.push(info::<Multiplicity>("Multiplicity"));
    r.push(info::<Representation>("Representation"));
    r.push(info::<ThemeWiring>("ThemeWiring"));
    r.push(info::<Enlargement>("Enlargement"));
    r.push(info::<IntensityScale>("IntensityScale"));
    r.push(info::<MergeBehaviour>("MergeBehaviour"));
    r.push(info::<LegendItemType>("LegendItemType"));
    r.push(info::<MissingPolicy>("MissingPolicy"));
    r.push(info::<AttributeType>("AttributeType"));
    r.push(info::<ColorSpace>("ColorSpace"));
    r.push(info::<Color>("Color"));
    r
}

/// The named-color table: `(normalized_name, COLORREF)`.
pub fn named_colors() -> (t: Vec<(&'static str, u32)>)
    ensures
        t@ == crate::color::named_table(),
{
    crate::color::named_colors()
}

/// The named-color table under display names: `(display_name, COLORREF)`.
pub fn named_colors_display() -> (t: Vec<(&'static str, u32)>)
    ensures
        t@ == crate::color::display_table(),
{
    crate::color::named_colors_display()
}

/// The canonical arrange algorithm keys.
pub fn arrange_algorithms() -> (t: Vec<&'static str>)
    ensures
        t@ == crate::layout::algorithm_table(),
{
    crate::layout::arrange_algorithms()
}

/// The arrange alias table: `(alias, canonical)`.
pub fn arrange_aliases() -> (t: Vec<(&'static str, &'static str)>)
    ensures
        t@ == crate::layout::alias_table(),
{
    crate::layout::arrange_aliases()
}

} // verus!
