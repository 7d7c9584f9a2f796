//! The ANB tokens the emitter writes for config vocabulary: dot styles,
//! arrows, attribute types, representations, merge behaviours,
//! enlargements, text alignment, legend item types and arrangements, link
//! multiplicity and theme wiring, booleans, and the grade collection's
//! trailing `-` sentinel.
use vstd::prelude::*;

use crate::enums::ArrowStyle;
use crate::models::GradeCollection;
use crate::text::{chars_of, lowercase, str_eq, string_of, to_lowercase_chars, to_uppercase_chars, uppercase};

verus! {

/// The ANB dot style of a strength's style name or glyph.
pub open spec fn dot_style_of(s: Seq<char>) -> Seq<char> {
    if s == "dashed"@ || s == "---"@ {
        "DotStyleDashed"@
    } else if s == "dash_dot"@ || s == "-."@ {
        "DotStyleDashDot"@
    } else if s == "dash_dot_dot"@ || s == "-.."@ {
        "DotStyleDashDotDot"@
    } else if s == "dotted"@ || s == "..."@ {
        "DotStyleDotted"@
    } else {
        "DotStyleSolid"@
    }
}

pub fn dot_style_token(s: &str) -> (r: &'static str)
    ensures
        r@ == dot_style_of(s@),
{
    if str_eq(s, "dashed") || str_eq(s, "---") {
        "DotStyleDashed"
    } else if str_eq(s, "dash_dot") || str_eq(s, "-.") {
        "DotStyleDashDot"
    } else if str_eq(s, "dash_dot_dot") || str_eq(s, "-..") {
        "DotStyleDashDotDot"
    } else if str_eq(s, "dotted") || str_eq(s, "...") {
        "DotStyleDotted"
    } else {
        "DotStyleSolid"
    }
}

/// The ANB arrow style of an arrow alias or token, if it names one.
pub open spec fn arrow_of(s: Seq<char>) -> Option<Seq<char>> {
    if s == "head"@ || s == "->"@ || s == "ArrowOnHead"@ {
        Some("ArrowOnHead"@)
    } else if s == "tail"@ || s == "<-"@ || s == "ArrowOnTail"@ {
        Some("ArrowOnTail"@)
    } else if s == "both"@ || s == "<->"@ || s == "ArrowOnBoth"@ {
        Some("ArrowOnBoth"@)
    } else {
        None
    }
}

pub fn arrow_token(s: &str) -> (r: Option<&'static str>)
    ensures
        match r {
            Some(t) => arrow_of(s@) == Some(t@),
            None => arrow_of(s@) is None,
        },
{
    if str_eq(s, "head") || str_eq(s, "->") || str_eq(s, "ArrowOnHead") {
        Some("ArrowOnHead")
    } else if str_eq(s, "tail") || str_eq(s, "<-") || str_eq(s, "ArrowOnTail") {
        Some("ArrowOnTail")
    } else if str_eq(s, "both") || str_eq(s, "<->") || str_eq(s, "ArrowOnBoth") {
        Some("ArrowOnBoth")
    } else {
        None
    }
}

/// Arrow aliases resolve to the style they are aliases of: a string that
/// names an arrow style (its token, its glyph or its ANB name) gives that
/// style's ANB name, and a string that names none gives no style.
pub proof fn arrow_alias_resolves_to_its_style(s: Seq<char>)
    ensures
        forall|a: ArrowStyle| #[trigger] a.aliases().contains(s) ==> arrow_of(s) == Some(a.anb_name()),
        (forall|a: ArrowStyle| !(#[trigger] a.aliases().contains(s))) ==> arrow_of(s) is None,
{
    reveal_strlit("head");
    reveal_strlit("->");
    reveal_strlit("ArrowOnHead");
    reveal_strlit("tail");
    reveal_strlit("<-");
    reveal_strlit("ArrowOnTail");
    reveal_strlit("both");
    reveal_strlit("<->");
    reveal_strlit("ArrowOnBoth");
    assert("head"@.len() == 4 && "head"@[0] == 'h');
    assert("->"@.len() == 2 && "->"@[0] == '-');
    assert("ArrowOnHead"@.len() == 11 && "ArrowOnHead"@[0] == 'A' && "ArrowOnHead"@[7] == 'H');
    assert("tail"@.len() == 4 && "tail"@[0] == 't');
    assert("<-"@.len() == 2 && "<-"@[0] == '<');
    assert("ArrowOnTail"@.len() == 11 && "ArrowOnTail"@[0] == 'A' && "ArrowOnTail"@[7] == 'T');
    assert("both"@.len() == 4 && "both"@[0] == 'b');
    assert("<->"@.len() == 3 && "<->"@[0] == '<');
    assert("ArrowOnBoth"@.len() == 11 && "ArrowOnBoth"@[0] == 'A' && "ArrowOnBoth"@[7] == 'B');
    assert forall|a: ArrowStyle| #[trigger] a.aliases().contains(s) implies arrow_of(s) == Some(a.anb_name()) by {
        let v = a.aliases();
        let j = choose|j: int| 0 <= j < v.len() && v[j] == s;
        match a {
            ArrowStyle::ArrowOnHead => {
                assert(j == 0 || j == 1 || j == 2);
            },
            ArrowStyle::ArrowOnTail => {
                assert(j == 0 || j == 1 || j == 2);
                assert(s != "head"@ && s != "->"@ && s != "ArrowOnHead"@);
            },
            ArrowStyle::ArrowOnBoth => {
                assert(j == 0 || j == 1 || j == 2);
                assert(s != "head"@ && s != "->"@ && s != "ArrowOnHead"@);
                assert(s != "tail"@ && s != "<-"@ && s != "ArrowOnTail"@);
            },
        }
    }
    if forall|a: ArrowStyle| !(#[trigger] a.aliases().contains(s)) {
        assert(!ArrowStyle::ArrowOnHead.aliases().contains(s));
        assert(!ArrowStyle::ArrowOnTail.aliases().contains(s));
        assert(!ArrowStyle::ArrowOnBoth.aliases().contains(s));
        assert(ArrowStyle::ArrowOnHead.aliases()[0] == "head"@);
        assert(ArrowStyle::ArrowOnHead.aliases()[1] == "->"@);
        assert(ArrowStyle::ArrowOnHead.aliases()[2] == "ArrowOnHead"@);
        assert(ArrowStyle::ArrowOnTail.aliases()[0] == "tail"@);
        assert(ArrowStyle::ArrowOnTail.aliases()[1] == "<-"@);
        assert(ArrowStyle::ArrowOnTail.aliases()[2] == "ArrowOnTail"@);
        assert(ArrowStyle::ArrowOnBoth.aliases()[0] == "both"@);
        assert(ArrowStyle::ArrowOnBoth.aliases()[1] == "<->"@);
        assert(ArrowStyle::ArrowOnBoth.aliases()[2] == "ArrowOnBoth"@);
    }
}

/// The ANB attribute type of a config type name (text by default).
pub open spec fn attribute_type_of(s: Seq<char>) -> Seq<char> {
    if s == "number"@ {
        "AttNumber"@
    } else if s == "datetime"@ {
        "AttTime"@
    } else if s == "flag"@ {
        "AttFlag"@
    } else {
        "AttText"@
    }
}

pub fn attribute_type_token(s: &str) -> (r: &'static str)
    ensures
        r@ == attribute_type_of(s@),
{
    if str_eq(s, "number") {
        "AttNumber"
    } else if str_eq(s, "datetime") {
        "AttTime"
    } else if str_eq(s, "flag") {
        "AttFlag"
    } else {
        "AttText"
    }
}

fn lower_string(s: &str) -> (r: String)
    ensures
        r@ == lowercase(s@),
{
    string_of(&to_lowercase_chars(&chars_of(s)))
}

/// The ANB representation of a representation name, compared lowercased
/// (an icon by default).
pub open spec fn representation_of(s: Seq<char>) -> Seq<char> {
    let l = lowercase(s);
    if l == "box"@ {
        "RepresentAsBox"@
    } else if l == "circle"@ {
        "RepresentAsCircle"@
    } else if l == "text_block"@ {
        "RepresentAsTextBlock"@
    } else if l == "label"@ {
        "RepresentAsBorder"@
    } else if l == "ole_object"@ {
        "RepresentAsOLE"@
    } else {
        "RepresentAsIcon"@
    }
}

pub fn representation_token(s: &str) -> (r: &'static str)
    ensures
        r@ == representation_of(s@),
{
    let l = lower_string(s);
    let l = l.as_str();
    if str_eq(l, "box") {
        "RepresentAsBox"
    } else if str_eq(l, "circle") {
        "RepresentAsCircle"
    } else if str_eq(l, "text_block") {
        "RepresentAsTextBlock"
    } else if str_eq(l, "label") {
        "RepresentAsBorder"
    } else if str_eq(l, "ole_object") {
        "RepresentAsOLE"
    } else {
        "RepresentAsIcon"
    }
}

/// The ANB merge behaviour of a behaviour name (add by default).
pub open spec fn merge_behaviour_of(s: Seq<char>) -> Seq<char> {
    if s == "assign"@ {
        "AttMergeAssign"@
    } else if s == "noop"@ {
        "AttMergeNoOp"@
    } else if s == "add_space"@ {
        "AttMergeAddWithSpace"@
    } else if s == "add_line_break"@ {
        "AttMergeAddWithLineBreak"@
    } else if s == "max"@ {
        "AttMergeMax"@
    } else if s == "min"@ {
        "AttMergeMin"@
    } else if s == "subtract"@ {
        "AttMergeSubtract"@
    } else if s == "subtract_swap"@ {
        "AttMergeSubtractSwap"@
    } else if s == "or"@ {
        "AttMergeOR"@
    } else if s == "and"@ {
        "AttMergeAND"@
    } else if s == "xor"@ {
        "AttMergeXOR"@
    } else {
        "AttMergeAdd"@
    }
}

pub fn merge_behaviour_token(s: &str) -> (r: &'static str)
    ensures
        r@ == merge_behaviour_of(s@),
{
    if str_eq(s, "assign") {
        "AttMergeAssign"
    } else if str_eq(s, "noop") {
        "AttMergeNoOp"
    } else if str_eq(s, "add_space") {
        "AttMergeAddWithSpace"
    } else if str_eq(s, "add_line_break") {
        "AttMergeAddWithLineBreak"
    } else if str_eq(s, "max") {
        "AttMergeMax"
    } else if str_eq(s, "min") {
        "AttMergeMin"
    } else if str_eq(s, "subtract") {
        "AttMergeSubtract"
    } else if str_eq(s, "subtract_swap") {
        "AttMergeSubtractSwap"
    } else if str_eq(s, "or") {
        "AttMergeOR"
    } else if str_eq(s, "and") {
        "AttMergeAND"
    } else if str_eq(s, "xor") {
        "AttMergeXOR"
    } else {
        "AttMergeAdd"
    }
}

/// The ANB enlargement of an enlargement name, compared lowercased; an
/// unknown name passes through lowercased.
pub open spec fn enlargement_of(s: Seq<char>) -> Seq<char> {
    let l = lowercase(s);
    if l == "half"@ {
        "ICEnlargeHalf"@
    } else if l == "double"@ {
        "ICEnlargeDouble"@
    } else if l == "triple"@ {
        "ICEnlargeTriple"@
    } else if l == "quadruple"@ {
        "ICEnlargeQuadruple"@
    } else if l == "single"@ {
        "ICEnlargeSingle"@
    } else {
        l
    }
}

pub fn enlargement_token(s: &str) -> (r: String)
    ensures
        r@ == enlargement_of(s@),
{
    let l = lower_string(s);
    if str_eq(l.as_str(), "half") {
        "ICEnlargeHalf".to_owned()
    } else if str_eq(l.as_str(), "double") {
        "ICEnlargeDouble".to_owned()
    } else if str_eq(l.as_str(), "triple") {
        "ICEnlargeTriple".to_owned()
    } else if str_eq(l.as_str(), "quadruple") {
        "ICEnlargeQuadruple".to_owned()
    } else if str_eq(l.as_str(), "single") {
        "ICEnlargeSingle".to_owned()
    } else {
        l
    }
}

/// The ANB text alignment of an alignment name, compared lowercased; an
/// unknown name passes through lowercased.
pub open spec fn text_align_of(s: Seq<char>) -> Seq<char> {
    let l = lowercase(s);
    if l == "left"@ {
        "TextAlignLeft"@
    } else if l == "right"@ {
        "TextAlignRight"@
    } else if l == "centre"@ || l == "center"@ {
        "TextAlignCentre"@
    } else {
        l
    }
}

pub fn text_align_token(s: &str) -> (r: String)
    ensures
        r@ == text_align_of(s@),
{
    let l = lower_string(s);
    if str_eq(l.as_str(), "left") {
        "TextAlignLeft".to_owned()
    } else if str_eq(l.as_str(), "right") {
        "TextAlignRight".to_owned()
    } else if str_eq(l.as_str(), "centre") || str_eq(l.as_str(), "center") {
        "TextAlignCentre".to_owned()
    } else {
        l
    }
}

/// The ANB legend item type of a type name, compared lowercased (font by
/// default).
pub open spec fn legend_item_type_of(s: Seq<char>) -> Seq<char> {
    let l = lowercase(s);
    if l == "text"@ {
        "LegendItemTypeText"@
    } else if l == "icon"@ {
        "LegendItemTypeIcon"@
    } else if l == "attribute"@ {
        "LegendItemTypeAttribute"@
    } else if l == "line"@ {
        "LegendItemTypeLine"@
    } else if l == "link"@ {
        "LegendItemTypeLink"@
    } else if l == "timezone"@ {
        "LegendItemTypeTimeZone"@
    } else if l == "icon_frame"@ {
        "LegendItemTypeIconFrame"@
    } else {
        "LegendItemTypeFont"@
    }
}

pub fn legend_item_type_token(s: &str) -> (r: String)
    ensures
        r@ == legend_item_type_of(s@),
{
    let l = lower_string(s);
    let l = l.as_str();
    let t = if str_eq(l, "text") {
        "LegendItemTypeText"
    } else if str_eq(l, "icon") {
        "LegendItemTypeIcon"
    } else if str_eq(l, "attribute") {
        "LegendItemTypeAttribute"
    } else if str_eq(l, "line") {
        "LegendItemTypeLine"
    } else if str_eq(l, "link") {
        "LegendItemTypeLink"
    } else if str_eq(l, "timezone") {
        "LegendItemTypeTimeZone"
    } else if str_eq(l, "icon_frame") {
        "LegendItemTypeIconFrame"
    } else {
        "LegendItemTypeFont"
    };
    t.to_owned()
}

/// `LegendArrangement` followed by the arrangement name with its first
/// character uppercased.
pub open spec fn legend_arrange_of(s: Seq<char>) -> Seq<char> {
    "LegendArrangement"@ + if s.len() == 0 {
        seq![]
    } else {
        uppercase(seq![s[0]]) + s.drop_first()
    }
}

pub fn legend_arrange_token(s: &str) -> (r: String)
    ensures
        r@ == legend_arrange_of(s@),
{
    let v = chars_of(s);
    let mut out = String::new();
    out.append("LegendArrangement");
    if v.len() > 0 {
        let mut first: Vec<char> = Vec::new();
        first.push(v[0]);
        let up = to_uppercase_chars(&first);
        crate::text::push_chars(&mut out, &up);
        let rest = crate::text::slice_chars(&v, 1, v.len());
        crate::text::push_chars(&mut out, &rest);
        assert(first@ =~= seq![s@[0]]);
        assert(rest@ =~= s@.drop_first());
    }
    out
}

/// The ANB multiplicity of a multiplicity alias; an ANB token passes through.
pub open spec fn multiplicity_of(s: Seq<char>) -> Seq<char> {
    if s == "multiple"@ {
        "MultiplicityMultiple"@
    } else if s == "single"@ {
        "MultiplicitySingle"@
    } else if s == "directed"@ {
        "MultiplicityDirected"@
    } else {
        s
    }
}

pub fn multiplicity_token(s: &str) -> (r: String)
    ensures
        r@ == multiplicity_of(s@),
{
    if str_eq(s, "multiple") {
        "MultiplicityMultiple".to_owned()
    } else if str_eq(s, "single") {
        "MultiplicitySingle".to_owned()
    } else if str_eq(s, "directed") {
        "MultiplicityDirected".to_owned()
    } else {
        s.to_owned()
    }
}

/// The ANB theme wiring of a wiring alias; an ANB token passes through.
pub open spec fn theme_wiring_of(s: Seq<char>) -> Seq<char> {
    if s == "keep_event"@ {
        "KeepsAtEventHeight"@
    } else if s == "return_theme"@ {
        "ReturnsToThemeHeight"@
    } else if s == "next_event"@ {
        "GoesToNextEventHeight"@
    } else if s == "no_diversion"@ {
        "NoDiversion"@
    } else {
        s
    }
}

pub fn theme_wiring_token(s: &str) -> (r: String)
    ensures
        r@ == theme_wiring_of(s@),
{
    if str_eq(s, "keep_event") {
        "KeepsAtEventHeight".to_owned()
    } else if str_eq(s, "return_theme") {
        "ReturnsToThemeHeight".to_owned()
    } else if str_eq(s, "next_event") {
        "GoesToNextEventHeight".to_owned()
    } else if str_eq(s, "no_diversion") {
        "NoDiversion".to_owned()
    } else {
        s.to_owned()
    }
}

/// `true` or `false`.
pub open spec fn bool_text(v: bool) -> Seq<char> {
    if v {
        "true"@
    } else {
        "false"@
    }
}

/// A boolean as an XML attribute value.
pub fn b(v: bool) -> (r: String)
    ensures
        r@ == bool_text(v),
{
    if v {
        "true".to_owned()
    } else {
        "false".to_owned()
    }
}

/// A grade collection with items but no default gets a trailing `-`
/// sentinel, which also becomes its default.
pub fn grade_with_dash(gc: GradeCollection) -> (r: GradeCollection)
    ensures
        if gc.items@.len() > 0 && gc.default is None {
            r.items@.len() == gc.items@.len() + 1 && r.items@.take(gc.items@.len() as int)
                == gc.items@ && r.items@.last()@ == "-"@ && (r.default matches Some(d) && d@
                == "-"@)
        } else {
            r == gc
        },
{
    let mut gc = gc;
    if gc.items.len() > 0 && gc.default.is_none() {
        let ghost before = gc.items@;
        gc.items.push("-".to_owned());
        assert(gc.items@.take(before.len() as int) =~= before);
        gc.default = Some("-".to_owned());
    }
    gc
}

} // verus!
