//! The public configuration and style enums. Each variant carries the exact
//! lowercase/snake_case string it is written as in JSON/YAML configuration
//! (its `token`); [`EnumMeta`] exposes the variant list and those strings so a
//! service can publish its accepted vocabulary without restating it.
use vstd::prelude::*;

verus! {

/// Introspection for the public config/style enums: every variant in
/// declaration order, and the string each one is written as.
pub trait EnumMeta: Copy + Sized {
    /// The string this variant is written as.
    spec fn token(self) -> Seq<char>;

    /// Every variant, in declaration order.
    spec fn all() -> Seq<Self>;

    /// This variant's string value.
    fn as_str(self) -> (s: &'static str)
        ensures
            s@ == self.token(),
    ;

    /// Every variant, in declaration order.
    fn variants() -> (v: Vec<Self>)
        ensures
            v@ == Self::all(),
    ;

    /// The string values of all variants, in declaration order.
    fn values() -> (v: Vec<&'static str>)
        ensures
            v@.len() == Self::all().len(),
            forall|i: int| 0 <= i < v@.len() ==> #[trigger] v@[i]@ == Self::all()[i].token(),
    {
        let vs = Self::variants();
        let mut out: Vec<&'static str> = Vec::new();
        let n = vs.len();
        for i in 0..n
            invariant
                n == vs@.len(),
                vs@ == Self::all(),
                out@.len() == i,
                forall|k: int| 0 <= k < i ==> #[trigger] out@[k]@ == Self::all()[k].token(),
        {
            out.push(vs[i].as_str());
        }
        out
    }
}

/// How an entity is drawn on the chart.
#[derive(Debug, Clone, Copy, PartialEq, Eq, Structural)]
pub enum Representation {
    Icon,
    ThemeLine,
    EventFrame,
    Box,
    Circle,
    TextBlock,
    Label,
    OleObject,
}

impl EnumMeta for Representation {
    open spec fn token(self) -> Seq<char> {
        match self {
            Representation::Icon => "icon"@,
            Representation::ThemeLine => "theme_line"@,
            Representation::EventFrame => "event_frame"@,
            Representation::Box => "box"@,
            Representation::Circle => "circle"@,
            Representation::TextBlock => "text_block"@,
            Representation::Label => "label"@,
            Representation::OleObject => "ole_object"@,
        }
    }

    open spec fn all() -> Seq<Self> {
        seq![
            Representation::Icon,
            Representation::ThemeLine,
            Representation::EventFrame,
            Representation::Box,
            Representation::Circle,
            Representation::TextBlock,
            Representation::Label,
            Representation::OleObject,
        ]
    }

    fn as_str(self) -> (s: &'static str) {
        match self {
            Representation::Icon => "icon",
            Representation::ThemeLine => "theme_line",
            Representation::EventFrame => "event_frame",
            Representation::Box => "box",
            Representation::Circle => "circle",
            Representation::TextBlock => "text_block",
            Representation::Label => "label",
            Representation::OleObject => "ole_object",
        }
    }

    fn variants() -> (v: Vec<Self>) {
        let v = vec![
            Representation::Icon,
            Representation::ThemeLine,
            Representation::EventFrame,
            Representation::Box,
            Representation::Circle,
            Representation::TextBlock,
            Representation::Label,
            Representation::OleObject,
        ];
        assert(v@ =~= Self::all());
        v
    }
}

/// Direction of a link's arrowhead.
#[derive(Debug, Clone, Copy, PartialEq, Eq, Structural)]
pub enum ArrowStyle {
    ArrowOnHead,
    ArrowOnTail,
    ArrowOnBoth,
}

impl EnumMeta for ArrowStyle {
    open spec fn token(self) -> Seq<char> {
        match self {
            ArrowStyle::ArrowOnHead => "head"@,
            ArrowStyle::ArrowOnTail => "tail"@,
            ArrowStyle::ArrowOnBoth => "both"@,
        }
    }

    open spec fn all() -> Seq<Self> {
        seq![
            ArrowStyle::ArrowOnHead,
            ArrowStyle::ArrowOnTail,
            ArrowStyle::ArrowOnBoth,
        ]
    }

    fn as_str(self) -> (s: &'static str) {
        match self {
            ArrowStyle::ArrowOnHead => "head",
            ArrowStyle::ArrowOnTail => "tail",
            ArrowStyle::ArrowOnBoth => "both",
        }
    }

    fn variants() -> (v: Vec<Self>) {
        let v = vec![
            ArrowStyle::ArrowOnHead,
            ArrowStyle::ArrowOnTail,
            ArrowStyle::ArrowOnBoth,
        ];
        assert(v@ =~= Self::all());
        v
    }
}

impl ArrowStyle {
    /// Every string that names this style in configuration: its token, its
    /// arrow glyph and the ANB style name.
    pub open spec fn aliases(self) -> Seq<Seq<char>> {
        match self {
            ArrowStyle::ArrowOnHead => seq!["head"@, "->"@, "ArrowOnHead"@],
            ArrowStyle::ArrowOnTail => seq!["tail"@, "<-"@, "ArrowOnTail"@],
            ArrowStyle::ArrowOnBoth => seq!["both"@, "<->"@, "ArrowOnBoth"@],
        }
    }

    /// The ANB name of this style.
    pub open spec fn anb_name(self) -> Seq<char> {
        match self {
            ArrowStyle::ArrowOnHead => "ArrowOnHead"@,
            ArrowStyle::ArrowOnTail => "ArrowOnTail"@,
            ArrowStyle::ArrowOnBoth => "ArrowOnBoth"@,
        }
    }
}

/// Data type of an attribute class.
#[derive(Debug, Clone, Copy, PartialEq, Eq, Structural)]
pub enum AttributeType {
    Text,
    Flag,
    Datetime,
    Number,
}

impl EnumMeta for AttributeType {
    open spec fn token(self) -> Seq<char> {
        match self {
            AttributeType::Text => "text"@,
            AttributeType::Flag => "flag"@,
            AttributeType::Datetime => "datetime"@,
            AttributeType::Number => "number"@,
        }
    }

    open spec fn all() -> Seq<Self> {
        seq![
            AttributeType::Text,
            AttributeType::Flag,
            AttributeType::Datetime,
            AttributeType::Number,
        ]
    }

    fn as_str(self) -> (s: &'static str) {
        match self {
            AttributeType::Text => "text",
            AttributeType::Flag => "flag",
            AttributeType::Datetime => "datetime",
            AttributeType::Number => "number",
        }
    }

    fn variants() -> (v: Vec<Self>) {
        let v = vec![
            AttributeType::Text,
            AttributeType::Flag,
            AttributeType::Datetime,
            AttributeType::Number,
        ];
        assert(v@ =~= Self::all());
        v
    }
}

/// Link connection multiplicity.
#[derive(Debug, Clone, Copy, PartialEq, Eq, Structural)]
pub enum Multiplicity {
    Multiple,
    Single,
    Directed,
}

impl EnumMeta for Multiplicity {
    open spec fn token(self) -> Seq<char> {
        match self {
            Multiplicity::Multiple => "multiple"@,
            Multiplicity::Single => "single"@,
            Multiplicity::Directed => "directed"@,
        }
    }

    open spec fn all() -> Seq<Self> {
        seq![
            Multiplicity::Multiple,
            Multiplicity::Single,
            Multiplicity::Directed,
        ]
    }

    fn as_str(self) -> (s: &'static str) {
        match self {
            Multiplicity::Multiple => "multiple",
            Multiplicity::Single => "single",
            Multiplicity::Directed => "directed",
        }
    }

    fn variants() -> (v: Vec<Self>) {
        let v = vec![
            Multiplicity::Multiple,
            Multiplicity::Single,
            Multiplicity::Directed,
        ];
        assert(v@ =~= Self::all());
        v
    }
}

/// How a link behaves relative to a theme line.
#[derive(Debug, Clone, Copy, PartialEq, Eq, Structural)]
pub enum ThemeWiring {
    KeepsAtEventHeight,
    ReturnsToThemeHeight,
    GoesToNextEvent,
    NoDiversion,
}

impl EnumMeta for ThemeWiring {
    open spec fn token(self) -> Seq<char> {
        match self {
            ThemeWiring::KeepsAtEventHeight => "keep_event"@,
            ThemeWiring::ReturnsToThemeHeight => "return_theme"@,
            ThemeWiring::GoesToNextEvent => "next_event"@,
            ThemeWiring::NoDiversion => "no_diversion"@,
        }
    }

    open spec fn all() -> Seq<Self> {
        seq![
            ThemeWiring::KeepsAtEventHeight,
            ThemeWiring::ReturnsToThemeHeight,
            ThemeWiring::GoesToNextEvent,
            ThemeWiring::NoDiversion,
        ]
    }

    fn as_str(self) -> (s: &'static str) {
        match self {
            ThemeWiring::KeepsAtEventHeight => "keep_event",
            ThemeWiring::ReturnsToThemeHeight => "return_theme",
            ThemeWiring::GoesToNextEvent => "next_event",
            ThemeWiring::NoDiversion => "no_diversion",
        }
    }

    fn variants() -> (v: Vec<Self>) {
        let v = vec![
            ThemeWiring::KeepsAtEventHeight,
            ThemeWiring::ReturnsToThemeHeight,
            ThemeWiring::GoesToNextEvent,
            ThemeWiring::NoDiversion,
        ];
        assert(v@ =~= Self::all());
        v
    }
}

/// Merge / paste behaviour for an attribute class.
#[derive(Debug, Clone, Copy, PartialEq, Eq, Structural)]
pub enum MergeBehaviour {
    Assign,
    NoOp,
    Add,
    AddWithSpace,
    AddWithLineBreak,
    Max,
    Min,
    Subtract,
    SubtractSwap,
    Or,
    And,
    Xor,
}

impl EnumMeta for MergeBehaviour {
    open spec fn token(self) -> Seq<char> {
        match self {
            MergeBehaviour::Assign => "assign"@,
            MergeBehaviour::NoOp => "noop"@,
            MergeBehaviour::Add => "add"@,
            MergeBehaviour::AddWithSpace => "add_space"@,
            MergeBehaviour::AddWithLineBreak => "add_line_break"@,
            MergeBehaviour::Max => "max"@,
            MergeBehaviour::Min => "min"@,
            MergeBehaviour::Subtract => "subtract"@,
            MergeBehaviour::SubtractSwap => "subtract_swap"@,
            MergeBehaviour::Or => "or"@,
            MergeBehaviour::And => "and"@,
            MergeBehaviour::Xor => "xor"@,
        }
    }

    open spec fn all() -> Seq<Self> {
        seq![
            MergeBehaviour::Assign,
            MergeBehaviour::NoOp,
            MergeBehaviour::Add,
            MergeBehaviour::AddWithSpace,
            MergeBehaviour::AddWithLineBreak,
            MergeBehaviour::Max,
            MergeBehaviour::Min,
            MergeBehaviour::Subtract,
            MergeBehaviour::SubtractSwap,
            MergeBehaviour::Or,
            MergeBehaviour::And,
            MergeBehaviour::Xor,
        ]
    }

    fn as_str(self) -> (s: &'static str) {
        match self {
            MergeBehaviour::Assign => "assign",
            MergeBehaviour::NoOp => "noop",
            MergeBehaviour::Add => "add",
            MergeBehaviour::AddWithSpace => "add_space",
            MergeBehaviour::AddWithLineBreak => "add_line_break",
            MergeBehaviour::Max => "max",
            MergeBehaviour::Min => "min",
            MergeBehaviour::Subtract => "subtract",
            MergeBehaviour::SubtractSwap => "subtract_swap",
            MergeBehaviour::Or => "or",
            MergeBehaviour::And => "and",
            MergeBehaviour::Xor => "xor",
        }
    }

    fn variants() -> (v: Vec<Self>) {
        let v = vec![
            MergeBehaviour::Assign,
            MergeBehaviour::NoOp,
            MergeBehaviour::Add,
            MergeBehaviour::AddWithSpace,
            MergeBehaviour::AddWithLineBreak,
            MergeBehaviour::Max,
            MergeBehaviour::Min,
            MergeBehaviour::Subtract,
            MergeBehaviour::SubtractSwap,
            MergeBehaviour::Or,
            MergeBehaviour::And,
            MergeBehaviour::Xor,
        ];
        assert(v@ =~= Self::all());
        v
    }
}

/// Icon enlargement factor.
#[derive(Debug, Clone, Copy, PartialEq, Eq, Structural)]
pub enum Enlargement {
    Half,
    Single,
    Double,
    Triple,
    Quadruple,
}

impl EnumMeta for Enlargement {
    open spec fn token(self) -> Seq<char> {
        match self {
            Enlargement::Half => "half"@,
            Enlargement::Single => "single"@,
            Enlargement::Double => "double"@,
            Enlargement::Triple => "triple"@,
            Enlargement::Quadruple => "quadruple"@,
        }
    }

    open spec fn all() -> Seq<Self> {
        seq![
            Enlargement::Half,
            Enlargement::Single,
            Enlargement::Double,
            Enlargement::Triple,
            Enlargement::Quadruple,
        ]
    }

    fn as_str(self) -> (s: &'static str) {
        match self {
            Enlargement::Half => "half",
            Enlargement::Single => "single",
            Enlargement::Double => "double",
            Enlargement::Triple => "triple",
            Enlargement::Quadruple => "quadruple",
        }
    }

    fn variants() -> (v: Vec<Self>) {
        let v = vec![
            Enlargement::Half,
            Enlargement::Single,
            Enlargement::Double,
            Enlargement::Triple,
            Enlargement::Quadruple,
        ];
        assert(v@ =~= Self::all());
        v
    }
}

/// Line dash/dot pattern for a strength.
#[derive(Debug, Clone, Copy, PartialEq, Eq, Structural)]
pub enum DotStyle {
    Solid,
    Dashed,
    DashDot,
    DashDotDot,
    Dotted,
}

impl EnumMeta for DotStyle {
    open spec fn token(self) -> Seq<char> {
        match self {
            DotStyle::Solid => "solid"@,
            DotStyle::Dashed => "dashed"@,
            DotStyle::DashDot => "dash_dot"@,
            DotStyle::DashDotDot => "dash_dot_dot"@,
            DotStyle::Dotted => "dotted"@,
        }
    }

    open spec fn all() -> Seq<Self> {
        seq![
            DotStyle::Solid,
            DotStyle::Dashed,
            DotStyle::DashDot,
            DotStyle::DashDotDot,
            DotStyle::Dotted,
        ]
    }

    fn as_str(self) -> (s: &'static str) {
        match self {
            DotStyle::Solid => "solid",
            DotStyle::Dashed => "dashed",
            DotStyle::DashDot => "dash_dot",
            DotStyle::DashDotDot => "dash_dot_dot",
            DotStyle::Dotted => "dotted",
        }
    }

    fn variants() -> (v: Vec<Self>) {
        let v = vec![
            DotStyle::Solid,
            DotStyle::Dashed,
            DotStyle::DashDot,
            DotStyle::DashDotDot,
            DotStyle::Dotted,
        ];
        assert(v@ =~= Self::all());
        v
    }
}

/// Kind of a legend row.
#[derive(Debug, Clone, Copy, PartialEq, Eq, Structural)]
pub enum LegendItemType {
    Font,
    Text,
    Icon,
    Attribute,
    Line,
    Link,
    Timezone,
    IconFrame,
}

impl EnumMeta for LegendItemType {
    open spec fn token(self) -> Seq<char> {
        match self {
            LegendItemType::Font => "font"@,
            LegendItemType::Text => "text"@,
            LegendItemType::Icon => "icon"@,
            LegendItemType::Attribute => "attribute"@,
            LegendItemType::Line => "line"@,
            LegendItemType::Link => "link"@,
            LegendItemType::Timezone => "timezone"@,
            LegendItemType::IconFrame => "icon_frame"@,
        }
    }

    open spec fn all() -> Seq<Self> {
        seq![
            LegendItemType::Font,
            LegendItemType::Text,
            LegendItemType::Icon,
            LegendItemType::Attribute,
            LegendItemType::Line,
            LegendItemType::Link,
            LegendItemType::Timezone,
            LegendItemType::IconFrame,
        ]
    }

    fn as_str(self) -> (s: &'static str) {
        match self {
            LegendItemType::Font => "font",
            LegendItemType::Text => "text",
            LegendItemType::Icon => "icon",
            LegendItemType::Attribute => "attribute",
            LegendItemType::Line => "line",
            LegendItemType::Link => "link",
            LegendItemType::Timezone => "timezone",
            LegendItemType::IconFrame => "icon_frame",
        }
    }

    fn variants() -> (v: Vec<Self>) {
        let v = vec![
            LegendItemType::Font,
            LegendItemType::Text,
            LegendItemType::Icon,
            LegendItemType::Attribute,
            LegendItemType::Line,
            LegendItemType::Link,
            LegendItemType::Timezone,
            LegendItemType::IconFrame,
        ];
        assert(v@ =~= Self::all());
        v
    }
}

/// Scaling function for data-driven intensity styling.
#[derive(Debug, Clone, Copy, PartialEq, Eq, Structural)]
pub enum IntensityScale {
    Linear,
    Log,
    Sqrt,
    Power,
    Quantile,
    Threshold,
}

impl EnumMeta for IntensityScale {
    open spec fn token(self) -> Seq<char> {
        match self {
            IntensityScale::Linear => "linear"@,
            IntensityScale::Log => "log"@,
            IntensityScale::Sqrt => "sqrt"@,
            IntensityScale::Power => "power"@,
            IntensityScale::Quantile => "quantile"@,
            IntensityScale::Threshold => "threshold"@,
        }
    }

    open spec fn all() -> Seq<Self> {
        seq![
            IntensityScale::Linear,
            IntensityScale::Log,
            IntensityScale::Sqrt,
            IntensityScale::Power,
            IntensityScale::Quantile,
            IntensityScale::Threshold,
        ]
    }

    fn as_str(self) -> (s: &'static str) {
        match self {
            IntensityScale::Linear => "linear",
            IntensityScale::Log => "log",
            IntensityScale::Sqrt => "sqrt",
            IntensityScale::Power => "power",
            IntensityScale::Quantile => "quantile",
            IntensityScale::Threshold => "threshold",
        }
    }

    fn variants() -> (v: Vec<Self>) {
        let v = vec![
            IntensityScale::Linear,
            IntensityScale::Log,
            IntensityScale::Sqrt,
            IntensityScale::Power,
            IntensityScale::Quantile,
            IntensityScale::Threshold,
        ];
        assert(v@ =~= Self::all());
        v
    }
}

/// Color space used to interpolate ramps.
#[derive(Debug, Clone, Copy, PartialEq, Eq, Structural)]
pub enum ColorSpace {
    Rgb,
    RgbLinear,
    Hsl,
}

impl EnumMeta for ColorSpace {
    open spec fn token(self) -> Seq<char> {
        match self {
            ColorSpace::Rgb => "rgb"@,
            ColorSpace::RgbLinear => "rgb_linear"@,
            ColorSpace::Hsl => "hsl"@,
        }
    }

    open spec fn all() -> Seq<Self> {
        seq![
            ColorSpace::Rgb,
            ColorSpace::RgbLinear,
            ColorSpace::Hsl,
        ]
    }

    fn as_str(self) -> (s: &'static str) {
        match self {
            ColorSpace::Rgb => "rgb",
            ColorSpace::RgbLinear => "rgb_linear",
            ColorSpace::Hsl => "hsl",
        }
    }

    fn variants() -> (v: Vec<Self>) {
        let v = vec![
            ColorSpace::Rgb,
            ColorSpace::RgbLinear,
            ColorSpace::Hsl,
        ];
        assert(v@ =~= Self::all());
        v
    }
}

/// Policy when an attribute referenced by styling is missing.
#[derive(Debug, Clone, Copy, PartialEq, Eq, Structural)]
pub enum MissingPolicy {
    Fallback,
    Skip,
    Error,
}

impl EnumMeta for MissingPolicy {
    open spec fn token(self) -> Seq<char> {
        match self {
            MissingPolicy::Fallback => "fallback"@,
            MissingPolicy::Skip => "skip"@,
            MissingPolicy::Error => "error"@,
        }
    }

    open spec fn all() -> Seq<Self> {
        seq![
            MissingPolicy::Fallback,
            MissingPolicy::Skip,
            MissingPolicy::Error,
        ]
    }

    fn as_str(self) -> (s: &'static str) {
        match self {
            MissingPolicy::Fallback => "fallback",
            MissingPolicy::Skip => "skip",
            MissingPolicy::Error => "error",
        }
    }

    fn variants() -> (v: Vec<Self>) {
        let v = vec![
            MissingPolicy::Fallback,
            MissingPolicy::Skip,
            MissingPolicy::Error,
        ];
        assert(v@ =~= Self::all());
        v
    }
}

/// The 40 named i2 ANB shading colors, in snake_case.
#[derive(Debug, Clone, Copy, PartialEq, Eq, Structural)]
pub enum Color {
    Black,
    Brown,
    OliveGreen,
    DarkGreen,
    DarkTeal,
    DarkBlue,
    Indigo,
    DarkGrey,
    DarkRed,
    Orange,
    DarkYellow,
    Green,
    Teal,
    Blue,
    BlueGrey,
    Grey,
    Red,
    LightOrange,
    Lime,
    SeaGreen,
    Aqua,
    LightBlue,
    Violet,
    LightGrey,
    Pink,
    Gold,
    Yellow,
    BrightGreen,
    Turquoise,
    SkyBlue,
    Plum,
    Silver,
    Rose,
    Tan,
    LightYellow,
    LightGreen,
    LightTurquoise,
    PaleBlue,
    Lavender,
    White,
}

impl EnumMeta for Color {
    open spec fn token(self) -> Seq<char> {
        match self {
            Color::Black => "black"@,
            Color::Brown => "brown"@,
            Color::OliveGreen => "olive_green"@,
            Color::DarkGreen => "dark_green"@,
            Color::DarkTeal => "dark_teal"@,
            Color::DarkBlue => "dark_blue"@,
            Color::Indigo => "indigo"@,
            Color::DarkGrey => "dark_grey"@,
            Color::DarkRed => "dark_red"@,
            Color::Orange => "orange"@,
            Color::DarkYellow => "dark_yellow"@,
            Color::Green => "green"@,
            Color::Teal => "teal"@,
            Color::Blue => "blue"@,
            Color::BlueGrey => "blue_grey"@,
            Color::Grey => "grey"@,
            Color::Red => "red"@,
            Color::LightOrange => "light_orange"@,
            Color::Lime => "lime"@,
            Color::SeaGreen => "sea_green"@,
            Color::Aqua => "aqua"@,
            Color::LightBlue => "light_blue"@,
            Color::Violet => "violet"@,
            Color::LightGrey => "light_grey"@,
            Color::Pink => "pink"@,
            Color::Gold => "gold"@,
            Color::Yellow => "yellow"@,
            Color::BrightGreen => "bright_green"@,
            Color::Turquoise => "turquoise"@,
            Color::SkyBlue => "sky_blue"@,
            Color::Plum => "plum"@,
            Color::Silver => "silver"@,
            Color::Rose => "rose"@,
            Color::Tan => "tan"@,
            Color::LightYellow => "light_yellow"@,
            Color::LightGreen => "light_green"@,
            Color::LightTurquoise => "light_turquoise"@,
            Color::PaleBlue => "pale_blue"@,
            Color::Lavender => "lavender"@,
            Color::White => "white"@,
        }
    }

    open spec fn all() -> Seq<Self> {
        seq![
            Color::Black,
            Color::Brown,
            Color::OliveGreen,
            Color::DarkGreen,
            Color::DarkTeal,
            Color::DarkBlue,
            Color::Indigo,
            Color::DarkGrey,
            Color::DarkRed,
            Color::Orange,
            Color::DarkYellow,
            Color::Green,
            Color::Teal,
            Color::Blue,
            Color::BlueGrey,
            Color::Grey,
            Color::Red,
            Color::LightOrange,
            Color::Lime,
            Color::SeaGreen,
            Color::Aqua,
            Color::LightBlue,
            Color::Violet,
            Color::LightGrey,
            Color::Pink,
            Color::Gold,
            Color::Yellow,
            Color::BrightGreen,
            Color::Turquoise,
            Color::SkyBlue,
            Color::Plum,
            Color::Silver,
            Color::Rose,
            Color::Tan,
            Color::LightYellow,
            Color::LightGreen,
            Color::LightTurquoise,
            Color::PaleBlue,
            Color::Lavender,
            Color::White,
        ]
    }

    fn as_str(self) -> (s: &'static str) {
        match self {
            Color::Black => "black",
            Color::Brown => "brown",
            Color::OliveGreen => "olive_green",
            Color::DarkGreen => "dark_green",
            Color::DarkTeal => "dark_teal",
            Color::DarkBlue => "dark_blue",
            Color::Indigo => "indigo",
            Color::DarkGrey => "dark_grey",
            Color::DarkRed => "dark_red",
            Color::Orange => "orange",
            Color::DarkYellow => "dark_yellow",
            Color::Green => "green",
            Color::Teal => "teal",
            Color::Blue => "blue",
            Color::BlueGrey => "blue_grey",
            Color::Grey => "grey",
            Color::Red => "red",
            Color::LightOrange => "light_orange",
            Color::Lime => "lime",
            Color::SeaGreen => "sea_green",
            Color::Aqua => "aqua",
            Color::LightBlue => "light_blue",
            Color::Violet => "violet",
            Color::LightGrey => "light_grey",
            Color::Pink => "pink",
            Color::Gold => "gold",
            Color::Yellow => "yellow",
            Color::BrightGreen => "bright_green",
            Color::Turquoise => "turquoise",
            Color::SkyBlue => "sky_blue",
            Color::Plum => "plum",
            Color::Silver => "silver",
            Color::Rose => "rose",
            Color::Tan => "tan",
            Color::LightYellow => "light_yellow",
            Color::LightGreen => "light_green",
            Color::LightTurquoise => "light_turquoise",
            Color::PaleBlue => "pale_blue",
            Color::Lavender => "lavender",
            Color::White => "white",
        }
    }

    fn variants() -> (v: Vec<Self>) {
        let v = vec![
            Color::Black,
            Color::Brown,
            Color::OliveGreen,
            Color::DarkGreen,
            Color::DarkTeal,
            Color::DarkBlue,
            Color::Indigo,
            Color::DarkGrey,
            Color::DarkRed,
            Color::Orange,
            Color::DarkYellow,
            Color::Green,
            Color::Teal,
            Color::Blue,
            Color::BlueGrey,
            Color::Grey,
            Color::Red,
            Color::LightOrange,
            Color::Lime,
            Color::SeaGreen,
            Color::Aqua,
            Color::LightBlue,
            Color::Violet,
            Color::LightGrey,
            Color::Pink,
            Color::Gold,
            Color::Yellow,
            Color::BrightGreen,
            Color::Turquoise,
            Color::SkyBlue,
            Color::Plum,
            Color::Silver,
            Color::Rose,
            Color::Tan,
            Color::LightYellow,
            Color::LightGreen,
            Color::LightTurquoise,
            Color::PaleBlue,
            Color::Lavender,
            Color::White,
        ];
        assert(v@ =~= Self::all());
        v
    }
}

} // verus!
