//! Rules on the `settings.extra_cfg` blocks: geographic positioning, icon
//! rules, and data-driven link styling.
use vstd::prelude::*;

use crate::error::{ErrorType, ValidationError};
use crate::input::{ChartData, Config};
use crate::maps::{
    attr_entries, attr_get, geo_at, geo_count, geo_entries, lookup, mapping_count, mapping_entries,
    style_at, style_count, style_entries,
};
use crate::models::{
    CategoricalCfg, GeoMapCfg, IconMapCfg, IconRule, IntensityCfg, IntensityColorCfg,
    IntensityWidthCfg, LinkStylingCfg,
};
use crate::number::{above_zero, at_most_zero, within, F64Bits};
use crate::report::{at, at_index, cat3, findings, finding_if, gather, one, report, Finding};
use crate::text::{is_empty_str, str_eq};
use crate::validation::chart::{common_at, count_entities, entity_common, entity_count};
use crate::validation::common::{filled, has_name, is_filled, names_include};
use crate::validation::links::oview;
use crate::value::AttrValue;

verus! {

// ── Geographic positioning ──────────────────────────────────────────────────

/// The geo map block, when settings carry one.
pub open spec fn geo_block(cfg: Config) -> Option<GeoMapCfg> {
    match cfg.settings {
        Some(s) => s.extra_cfg.geo_map,
        None => None,
    }
}

/// A `[lat, lon]` entry with two coordinates in range.
pub open spec fn geo_entry_findings(e: (Seq<char>, Seq<F64Bits>)) -> Seq<Finding> {
    let loc = "settings.extra_cfg.geo_map"@;
    if e.1.len() != 2 {
        one(ErrorType::InvalidGeoMap, loc, "geo_map data['"@ + e.0 + "'] must be [lat, lon]"@)
    } else {
        finding_if(
            !within(e.1[0].bits, 90),
            ErrorType::InvalidGeoMap,
            loc,
            "latitude out of range for '"@ + e.0 + "'"@,
        ) + finding_if(
            !within(e.1[1].bits, 180),
            ErrorType::InvalidGeoMap,
            loc,
            "longitude out of range for '"@ + e.0 + "'"@,
        )
    }
}

/// A geo map's own settings: an attribute, a known mode, positive
/// dimensions, a non-negative spread, and a data source.
pub open spec fn geo_settings_findings(g: GeoMapCfg) -> Seq<Finding> {
    let loc = "settings.extra_cfg.geo_map"@;
    finding_if(
        !filled(g.attribute_name),
        ErrorType::InvalidGeoMap,
        loc,
        "geo_map requires 'attribute_name'"@,
    ) + (match g.mode {
        Some(m) => finding_if(
            !(m@ == "position"@ || m@ == "latlon"@ || m@ == "both"@),
            ErrorType::InvalidGeoMap,
            loc,
            "invalid geo_map mode '"@ + m@ + "'"@,
        ),
        None => seq![],
    }) + finding_if(
        (g.width matches Some(w) && w <= 0) || (g.height matches Some(h) && h <= 0),
        ErrorType::InvalidGeoMap,
        loc,
        "geo_map width/height must be positive"@,
    ) + finding_if(
        g.spread_radius matches Some(r) && r < 0,
        ErrorType::InvalidGeoMap,
        loc,
        "geo_map spread_radius must be >= 0"@,
    ) + finding_if(
        g.data is None && g.data_file is None,
        ErrorType::InvalidGeoMap,
        loc,
        "geo_map needs 'data' or 'data_file'"@,
    )
}

/// Each inline data entry, in order.
pub open spec fn geo_data_findings(g: GeoMapCfg) -> Seq<Finding> {
    match g.data {
        Some(m) => gather(|k: int| geo_entry_findings(geo_entries(m)[k]), geo_entries(m).len() as int),
        None => seq![],
    }
}

/// The settings of a geo map block, then each of its data entries.
pub open spec fn geo_map_findings(cfg: Config) -> Seq<Finding> {
    match geo_block(cfg) {
        None => seq![],
        Some(g) => geo_settings_findings(g) + geo_data_findings(g),
    }
}

fn check_geo_entries(out: &mut Vec<ValidationError>, m: &indexmap::IndexMap<String, Vec<F64Bits>>)
    ensures
        findings(final(out)@) == findings(old(out)@) + gather(
            |k: int| geo_entry_findings(geo_entries(*m)[k]),
            geo_entries(*m).len() as int,
        ),
{
    let n = geo_count(m);
    for k in 0..n
        invariant
            n == geo_entries(*m).len(),
            findings(out@) == findings(old(out)@) + gather(
                |k: int| geo_entry_findings(geo_entries(*m)[k]),
                k as int,
            ),
    {
        let ghost before = findings(out@);
        let (key, v) = geo_at(m, k);
        let loc = "settings.extra_cfg.geo_map";
        if v.len() != 2 {
            report(out, ErrorType::InvalidGeoMap, loc.to_owned(),
                cat3("geo_map data['", key.as_str(), "'] must be [lat, lon]"));
        } else {
            if !v[0].within(90) {
                report(out, ErrorType::InvalidGeoMap, loc.to_owned(),
                    cat3("latitude out of range for '", key.as_str(), "'"));
            }
            let ghost mid = findings(out@);
            if !v[1].within(180) {
                report(out, ErrorType::InvalidGeoMap, loc.to_owned(),
                    cat3("longitude out of range for '", key.as_str(), "'"));
            }
        }
        assert(findings(out@) =~= before + geo_entry_findings(geo_entries(*m)[k as int]));
    }
}

fn check_geo_settings(out: &mut Vec<ValidationError>, g: &GeoMapCfg)
    ensures
        findings(final(out)@) == findings(old(out)@) + geo_settings_findings(*g),
{
    let ghost start = findings(out@);
    let loc = "settings.extra_cfg.geo_map";
    if !is_filled(&g.attribute_name) {
        report(out, ErrorType::InvalidGeoMap, loc.to_owned(), "geo_map requires 'attribute_name'".to_owned());
    }
    let ghost s1 = findings(out@);
    if let Some(m) = &g.mode {
        if !(str_eq(m.as_str(), "position") || str_eq(m.as_str(), "latlon") || str_eq(m.as_str(), "both")) {
            report(out, ErrorType::InvalidGeoMap, loc.to_owned(), cat3("invalid geo_map mode '", m.as_str(), "'"));
        }
    }
    let ghost s2 = findings(out@);
    let bad_w = match g.width {
        Some(w) => w <= 0,
        None => false,
    };
    let bad_h = match g.height {
        Some(h) => h <= 0,
        None => false,
    };
    if bad_w || bad_h {
        report(out, ErrorType::InvalidGeoMap, loc.to_owned(), "geo_map width/height must be positive".to_owned());
    }
    let ghost s3 = findings(out@);
    let bad_r = match g.spread_radius {
        Some(r) => r < 0,
        None => false,
    };
    if bad_r {
        report(out, ErrorType::InvalidGeoMap, loc.to_owned(), "geo_map spread_radius must be >= 0".to_owned());
    }
    let ghost s4 = findings(out@);
    if g.data.is_none() && g.data_file.is_none() {
        report(out, ErrorType::InvalidGeoMap, loc.to_owned(), "geo_map needs 'data' or 'data_file'".to_owned());
    }
    assert(findings(out@) =~= start + geo_settings_findings(*g));
}

/// A geo map needs an attribute, a known mode, positive dimensions, a
/// non-negative spread, and data (inline or from a file) whose entries are
/// `[lat, lon]` pairs in range.
pub fn validate_geo_map(out: &mut Vec<ValidationError>, config: &Config)
    ensures
        findings(final(out)@) == findings(old(out)@) + geo_map_findings(*config),
{
    let ghost start = findings(out@);
    if let Some(st) = &config.settings {
        if let Some(g) = &st.extra_cfg.geo_map {
            check_geo_settings(out, g);
            let ghost s1 = findings(out@);
            if let Some(m) = &g.data {
                check_geo_entries(out, m);
            }
            assert(findings(out@) =~= start + geo_map_findings(*config));
            return;
        }
    }
    assert(findings(out@) =~= start + geo_map_findings(*config));
}

// ── Icon rules ──────────────────────────────────────────────────────────────

/// The icon map block, when settings carry one.
pub open spec fn icon_block(cfg: Config) -> Option<IconMapCfg> {
    match cfg.settings {
        Some(s) => s.extra_cfg.icon_map,
        None => None,
    }
}

/// A type name the chart knows: a defined entity type or the type of any
/// entity.
pub open spec fn type_known(cfg: Config, d: ChartData, t: Seq<char>) -> bool {
    has_name(cfg.entity_types@, t) || exists|j: int|
        0 <= j < entity_count(d) && entity_common(d, j).type_@ == t
}

/// How a rule matches: its `match` field, `attribute` when unset.
pub open spec fn rule_match(r: IconRule) -> Seq<char> {
    match r.match_ {
        Some(m) => m@,
        None => "attribute"@,
    }
}

/// Findings for the `i`-th icon rule.
pub open spec fn icon_rule_findings(cfg: Config, d: ChartData, rules: Seq<IconRule>, i: int) -> Seq<
    Finding,
> {
    let r = rules[i];
    let m = rule_match(r);
    let loc = at("settings.extra_cfg.icon_map.rules"@, i);
    finding_if(
        m != "attribute"@ && m != "id"@,
        ErrorType::IconMapInvalid,
        loc,
        "invalid match '"@ + m + "'"@,
    ) + finding_if(
        mapping_entries(r.mapping).len() == 0,
        ErrorType::IconMapInvalid,
        loc,
        "icon rule has empty mapping"@,
    ) + finding_if(
        m == "id"@ && (r.default is Some || r.default_when_absent is Some || r.type_ is Some),
        ErrorType::IconMapInvalid,
        loc,
        "id rule cannot have default/default_when_absent/type"@,
    ) + finding_if(
        m == "attribute"@ && !filled(r.attribute_name),
        ErrorType::IconMapInvalid,
        loc,
        "attribute rule needs 'attribute_name'"@,
    ) + (match r.type_ {
        Some(t) => finding_if(
            !type_known(cfg, d, t@),
            ErrorType::IconMapInvalid,
            loc,
            "unknown type filter '"@ + t@ + "'"@,
        ),
        None => seq![],
    })
}

pub open spec fn icon_map_findings(cfg: Config, d: ChartData) -> Seq<Finding> {
    match icon_block(cfg) {
        Some(im) => gather(|i: int| icon_rule_findings(cfg, d, im.rules@, i), im.rules@.len() as int),
        None => seq![],
    }
}

fn type_is_known(cfg: &Config, d: &ChartData, t: &str) -> (r: bool)
    requires
        entity_count(*d) <= usize::MAX,
    ensures
        r == type_known(*cfg, *d, t@),
{
    if names_include(&cfg.entity_types, t) {
        return true;
    }
    let n = count_entities(d);
    for j in 0..n
        invariant
            n == entity_count(*d),
            entity_count(*d) <= usize::MAX,
            forall|k: int| 0 <= k < j ==> entity_common(*d, k).type_@ != t@,
    {
        if str_eq(common_at(d, j).type_.as_str(), t) {
            return true;
        }
    }
    false
}

fn check_icon_rule(out: &mut Vec<ValidationError>, cfg: &Config, d: &ChartData, rules: &Vec<IconRule>, i: usize)
    requires
        entity_count(*d) <= usize::MAX,
        i < rules@.len(),
    ensures
        findings(final(out)@) == findings(old(out)@) + icon_rule_findings(*cfg, *d, rules@, i as int),
{
    let ghost start = findings(out@);
    let r = &rules[i];
    let m: &str = match &r.match_ {
        Some(m) => m.as_str(),
        None => "attribute",
    };
    let loc = at_index("settings.extra_cfg.icon_map.rules", i);
    let is_attr = str_eq(m, "attribute");
    let is_id = str_eq(m, "id");
    if !is_attr && !is_id {
        report(out, ErrorType::IconMapInvalid, loc.clone(), cat3("invalid match '", m, "'"));
    }
    let ghost s1 = findings(out@);
    if mapping_count(&r.mapping) == 0 {
        report(out, ErrorType::IconMapInvalid, loc.clone(), "icon rule has empty mapping".to_owned());
    }
    let ghost s2 = findings(out@);
    if is_id && (r.default.is_some() || r.default_when_absent.is_some() || r.type_.is_some()) {
        report(out, ErrorType::IconMapInvalid, loc.clone(),
            "id rule cannot have default/default_when_absent/type".to_owned());
    }
    let ghost s3 = findings(out@);
    if is_attr && !is_filled(&r.attribute_name) {
        report(out, ErrorType::IconMapInvalid, loc.clone(), "attribute rule needs 'attribute_name'".to_owned());
    }
    let ghost s4 = findings(out@);
    if let Some(t) = &r.type_ {
        if !type_is_known(cfg, d, t.as_str()) {
            report(out, ErrorType::IconMapInvalid, loc.clone(), cat3("unknown type filter '", t.as_str(), "'"));
        }
    }
    assert(findings(out@) =~= start + icon_rule_findings(*cfg, *d, rules@, i as int));
}

/// Icon rules match by `attribute` (naming one) or `id` (without defaults
/// or a type filter), have a non-empty mapping, and filter on known types.
pub fn validate_icon_map(out: &mut Vec<ValidationError>, cfg: &Config, d: &ChartData)
    requires
        entity_count(*d) <= usize::MAX,
    ensures
        findings(final(out)@) == findings(old(out)@) + icon_map_findings(*cfg, *d),
{
    if let Some(st) = &cfg.settings {
        if let Some(im) = &st.extra_cfg.icon_map {
            let n = im.rules.len();
            for i in 0..n
                invariant
                    n == im.rules@.len(),
                    entity_count(*d) <= usize::MAX,
                    icon_block(*cfg) == Some(*im),
                    findings(out@) == findings(old(out)@) + gather(
                        |i: int| icon_rule_findings(*cfg, *d, im.rules@, i),
                        i as int,
                    ),
            {
                check_icon_rule(out, cfg, d, &im.rules, i);
            }
            return;
        }
    }
    assert(findings(out@) =~= findings(old(out)@) + icon_map_findings(*cfg, *d));
}

// ── Link styling ────────────────────────────────────────────────────────────

/// The link styling block, when settings carry one.
pub open spec fn styling_block(cfg: Config) -> Option<LinkStylingCfg> {
    match cfg.settings {
        Some(s) => match s.extra_cfg.styling {
            Some(st) => st.links,
            None => None,
        },
        None => None,
    }
}

pub open spec fn intensity_loc() -> Seq<char> {
    "settings.extra_cfg.styling.links.intensity"@
}

pub open spec fn categorical_loc() -> Seq<char> {
    "settings.extra_cfg.styling.links.categorical"@
}

/// A width range is required and is `[min, max]` with `0 <= min < max`.
pub open spec fn width_range_findings(w: IntensityWidthCfg) -> Seq<Finding> {
    let loc = intensity_loc();
    match w.range {
        None => one(ErrorType::InvalidIntensityRange, loc, "width.range is required"@),
        Some(r) => if r@.len() != 2 {
            one(ErrorType::InvalidIntensityRange, loc, "width.range must be [min, max]"@)
        } else if r@[0] < 0 || r@[1] < 0 {
            one(ErrorType::InvalidIntensityRange, loc, "width.range must be >= 0"@)
        } else if r@[0] >= r@[1] {
            one(ErrorType::InvalidIntensityRange, loc, "width.range min must be < max"@)
        } else {
            seq![]
        },
    }
}

/// A color ramp is required and holds at least two colors; the color space,
/// when set, is `rgb`, `rgb_linear` or `hsl`.
pub open spec fn color_ramp_findings(c: IntensityColorCfg) -> Seq<Finding> {
    let loc = intensity_loc();
    (match c.ramp {
        None => one(ErrorType::InvalidIntensityRamp, loc, "color.ramp is required"@),
        Some(r) => finding_if(
            r@.len() < 2,
            ErrorType::InvalidIntensityRamp,
            loc,
            "color.ramp needs >= 2 colors"@,
        ),
    }) + (match c.space {
        Some(sp) => finding_if(
            !(sp@ == "rgb"@ || sp@ == "rgb_linear"@ || sp@ == "hsl"@),
            ErrorType::InvalidIntensityConfig,
            loc,
            "invalid color space '"@ + sp@ + "'"@,
        ),
        None => seq![],
    })
}

/// The attribute the width channel reads: its own, else the block's.
pub open spec fn width_attr(ic: IntensityCfg) -> Option<Seq<char>> {
    match ic.width {
        Some(w) => match w.attribute {
            Some(a) => Some(a@),
            None => oview(ic.attribute),
        },
        None => oview(ic.attribute),
    }
}

/// The attribute the color channel reads: its own, else the block's.
pub open spec fn color_attr(ic: IntensityCfg) -> Option<Seq<char>> {
    match ic.color {
        Some(c) => match c.attribute {
            Some(a) => Some(a@),
            None => oview(ic.attribute),
        },
        None => oview(ic.attribute),
    }
}

/// The text of an optional name, empty when unset.
pub open spec fn name_or_empty(o: Option<Seq<char>>) -> Seq<char> {
    match o {
        Some(s) => s,
        None => seq![],
    }
}

/// The scale a channel uses: its own, else the block's, else `sqrt`.
pub open spec fn channel_scale(sub: Option<String>, top: Option<String>) -> Seq<char> {
    match sub {
        Some(s) => s@,
        None => match top {
            Some(t) => t@,
            None => "sqrt"@,
        },
    }
}

/// A numeric attribute value at or below zero.
pub open spec fn non_positive(v: AttrValue) -> bool {
    match v {
        AttrValue::Int(n) => n <= 0,
        AttrValue::Float(f) => at_most_zero(f.value.bits),
        _ => false,
    }
}

/// Whether a link carries a numeric value at or below zero on `attr`.
pub open spec fn blocks_log(l: crate::models::Link, attr: Seq<char>) -> bool {
    match lookup(attr_entries(l.attributes), attr) {
        Some(v) => non_positive(v),
        None => false,
    }
}

/// Whether some link carries a numeric value at or below zero on `attr`.
pub open spec fn log_blocked(d: ChartData, attr: Seq<char>) -> bool {
    exists|k: int| 0 <= k < d.links@.len() && #[trigger] blocks_log(d.links@[k], attr)
}

/// The scale of one channel: `power` needs a positive exponent, `log` needs
/// every value of the attribute above zero.
pub open spec fn channel_findings(d: ChartData, scale: Seq<char>, power: Option<F64Bits>, attr: Seq<
    char,
>) -> Seq<Finding> {
    let loc = intensity_loc();
    finding_if(
        scale == "power"@ && !(power matches Some(p) && above_zero(p.bits)),
        ErrorType::InvalidIntensityConfig,
        loc,
        "intensity.scale='power' requires 'power' > 0"@,
    ) + finding_if(
        scale == "log"@ && log_blocked(d, attr),
        ErrorType::InvalidIntensityDomain,
        loc,
        "intensity.scale='log' requires every value > 0 on attribute '"@ + attr + "'"@,
    )
}

/// The intensity block's own shape: ranges, ramps, and an attribute per
/// channel.
pub open spec fn intensity_shape_findings(ic: IntensityCfg) -> Seq<Finding> {
    (match ic.width {
        Some(w) => width_range_findings(w),
        None => seq![],
    }) + (match ic.color {
        Some(c) => color_ramp_findings(c),
        None => seq![],
    }) + finding_if(
        (ic.width is Some && name_or_empty(width_attr(ic)).len() == 0) || (ic.color is Some
            && name_or_empty(color_attr(ic)).len() == 0),
        ErrorType::InvalidIntensityAttribute,
        intensity_loc(),
        "intensity requires an 'attribute'"@,
    )
}

/// The scales of the width and color channels.
pub open spec fn intensity_scale_findings(d: ChartData, ic: IntensityCfg) -> Seq<Finding> {
    (match ic.width {
        Some(w) => channel_findings(
            d,
            channel_scale(w.scale, ic.scale),
            w.power,
            name_or_empty(width_attr(ic)),
        ),
        None => seq![],
    }) + (match ic.color {
        Some(c) => channel_findings(
            d,
            channel_scale(c.scale, ic.scale),
            c.power,
            name_or_empty(color_attr(ic)),
        ),
        None => seq![],
    })
}

/// The intensity block's findings.
pub open spec fn intensity_findings(d: ChartData, ic: IntensityCfg) -> Seq<Finding> {
    intensity_shape_findings(ic) + intensity_scale_findings(d, ic)
}

/// The categorical block's findings: an attribute, a non-empty style table,
/// and styles that set something.
pub open spec fn categorical_findings(cc: CategoricalCfg) -> Seq<Finding> {
    let loc = categorical_loc();
    let e = style_entries(cc.styles);
    finding_if(
        !filled(cc.attribute),
        ErrorType::InvalidCategoricalAttribute,
        loc,
        "categorical requires 'attribute'"@,
    ) + finding_if(
        e.len() == 0,
        ErrorType::InvalidCategoricalConfig,
        loc,
        "categorical requires non-empty 'styles'"@,
    ) + gather(
        |k: int|
            finding_if(
                e[k].1.line_color is None && e[k].1.line_width is None && e[k].1.strength is None,
                ErrorType::InvalidCategoricalStyle,
                loc,
                "categorical style at styles['"@ + e[k].0
                    + "'] has no settable fields (line_color/line_width/strength)"@,
            ),
        e.len() as int,
    )
}

/// Intensity and categorical styling may not target the same attribute.
pub open spec fn styling_conflict_findings(ic: IntensityCfg, cc: CategoricalCfg) -> Seq<Finding> {
    match cc.attribute {
        Some(ca) => finding_if(
            oview(ic.attribute) == Some(ca@) || width_attr(ic) == Some(ca@) || color_attr(ic) == Some(
                ca@,
            ),
            ErrorType::StylingConflict,
            "settings.extra_cfg.styling.links"@,
            "intensity and categorical both target attribute '"@ + ca@ + "' — pick one."@,
        ),
        None => seq![],
    }
}

pub open spec fn styling_findings(cfg: Config, d: ChartData) -> Seq<Finding> {
    match styling_block(cfg) {
        None => seq![],
        Some(links) => (match links.intensity {
            Some(ic) => intensity_findings(d, ic),
            None => seq![],
        }) + (match links.categorical {
            Some(cc) => categorical_findings(cc),
            None => seq![],
        }) + (match (links.intensity, links.categorical) {
            (Some(ic), Some(cc)) => styling_conflict_findings(ic, cc),
            _ => seq![],
        }),
    }
}

fn check_width_range(out: &mut Vec<ValidationError>, w: &IntensityWidthCfg)
    ensures
        findings(final(out)@) == findings(old(out)@) + width_range_findings(*w),
{
    let loc = "settings.extra_cfg.styling.links.intensity";
    match &w.range {
        None => report(out, ErrorType::InvalidIntensityRange, loc.to_owned(), "width.range is required".to_owned()),
        Some(r) => {
            if r.len() != 2 {
                report(out, ErrorType::InvalidIntensityRange, loc.to_owned(),
                    "width.range must be [min, max]".to_owned());
            } else if r[0] < 0 || r[1] < 0 {
                report(out, ErrorType::InvalidIntensityRange, loc.to_owned(),
                    "width.range must be >= 0".to_owned());
            } else if r[0] >= r[1] {
                report(out, ErrorType::InvalidIntensityRange, loc.to_owned(),
                    "width.range min must be < max".to_owned());
            } else {
                assert(findings(out@) =~= findings(old(out)@) + width_range_findings(*w));
            }
        },
    }
}

fn check_color_ramp(out: &mut Vec<ValidationError>, c: &IntensityColorCfg)
    ensures
        findings(final(out)@) == findings(old(out)@) + color_ramp_findings(*c),
{
    let ghost start = findings(out@);
    let loc = "settings.extra_cfg.styling.links.intensity";
    match &c.ramp {
        None => report(out, ErrorType::InvalidIntensityRamp, loc.to_owned(), "color.ramp is required".to_owned()),
        Some(r) => {
            if r.len() < 2 {
                report(out, ErrorType::InvalidIntensityRamp, loc.to_owned(),
                    "color.ramp needs >= 2 colors".to_owned());
            }
        },
    }
    let ghost s1 = findings(out@);
    if let Some(sp) = &c.space {
        if !(str_eq(sp.as_str(), "rgb") || str_eq(sp.as_str(), "rgb_linear") || str_eq(sp.as_str(), "hsl")) {
            report(out, ErrorType::InvalidIntensityConfig, loc.to_owned(),
                cat3("invalid color space '", sp.as_str(), "'"));
        }
    }
    assert(findings(out@) =~= start + color_ramp_findings(*c));
}

fn value_non_positive(v: &AttrValue) -> (r: bool)
    ensures
        r == non_positive(*v),
{
    match v {
        AttrValue::Int(n) => *n <= 0,
        AttrValue::Float(f) => f.value.at_most_zero(),
        _ => false,
    }
}

fn is_log_blocked(d: &ChartData, attr: &str) -> (r: bool)
    ensures
        r == log_blocked(*d, attr@),
{
    let n = d.links.len();
    for k in 0..n
        invariant
            n == d.links@.len(),
            forall|j: int| 0 <= j < k ==> !#[trigger] blocks_log(d.links@[j], attr@),
    {
        if let Some(v) = attr_get(&d.links[k].attributes, attr) {
            if value_non_positive(v) {
                assert(blocks_log(d.links@[k as int], attr@));
                return true;
            }
        }
    }
    false
}

fn check_channel(
    out: &mut Vec<ValidationError>,
    d: &ChartData,
    sub: &Option<String>,
    top: &Option<String>,
    power: Option<F64Bits>,
    attr: &str,
)
    ensures
        findings(final(out)@) == findings(old(out)@) + channel_findings(
            *d,
            channel_scale(*sub, *top),
            power,
            attr@,
        ),
{
    let ghost start = findings(out@);
    let loc = "settings.extra_cfg.styling.links.intensity";
    let scale: &str = match sub {
        Some(s) => s.as_str(),
        None => match top {
            Some(t) => t.as_str(),
            None => "sqrt",
        },
    };
    let positive = match power {
        Some(p) => p.above_zero(),
        None => false,
    };
    if str_eq(scale, "power") && !positive {
        report(out, ErrorType::InvalidIntensityConfig, loc.to_owned(),
            "intensity.scale='power' requires 'power' > 0".to_owned());
    }
    let ghost s1 = findings(out@);
    if str_eq(scale, "log") && is_log_blocked(d, attr) {
        report(out, ErrorType::InvalidIntensityDomain, loc.to_owned(),
            cat3("intensity.scale='log' requires every value > 0 on attribute '", attr, "'"));
    }
    assert(findings(out@) =~= start + channel_findings(*d, channel_scale(*sub, *top), power, attr@));
}

fn opt_name<'a>(sub: &'a Option<String>, top: &'a Option<String>) -> (r: &'a str)
    ensures
        r@ == name_or_empty(
            match sub {
                Some(a) => Some(a@),
                None => oview(*top),
            },
        ),
{
    match sub {
        Some(a) => a.as_str(),
        None => match top {
            Some(t) => t.as_str(),
            None => {
                proof {
                    reveal_strlit("");
                }
                ""
            },
        },
    }
}

fn channel_attrs(ic: &IntensityCfg) -> (r: (&str, &str))
    ensures
        r.0@ == name_or_empty(width_attr(*ic)),
        r.1@ == name_or_empty(color_attr(*ic)),
{
    let w_attr = match &ic.width {
        Some(w) => opt_name(&w.attribute, &ic.attribute),
        None => opt_name(&ic.attribute, &ic.attribute),
    };
    let c_attr = match &ic.color {
        Some(c) => opt_name(&c.attribute, &ic.attribute),
        None => opt_name(&ic.attribute, &ic.attribute),
    };
    (w_attr, c_attr)
}

fn check_intensity_shape(out: &mut Vec<ValidationError>, ic: &IntensityCfg)
    ensures
        findings(final(out)@) == findings(old(out)@) + intensity_shape_findings(*ic),
{
    let ghost start = findings(out@);
    if let Some(w) = &ic.width {
        check_width_range(out, w);
    }
    let ghost s1 = findings(out@);
    if let Some(c) = &ic.color {
        check_color_ramp(out, c);
    }
    let ghost s2 = findings(out@);
    let (w_attr, c_attr) = channel_attrs(ic);
    if (ic.width.is_some() && is_empty_str(w_attr)) || (ic.color.is_some() && is_empty_str(c_attr)) {
        report(out, ErrorType::InvalidIntensityAttribute, "settings.extra_cfg.styling.links.intensity".to_owned(),
            "intensity requires an 'attribute'".to_owned());
    }
    assert(findings(out@) =~= start + intensity_shape_findings(*ic));
}

fn check_intensity_scales(out: &mut Vec<ValidationError>, d: &ChartData, ic: &IntensityCfg)
    ensures
        findings(final(out)@) == findings(old(out)@) + intensity_scale_findings(*d, *ic),
{
    let ghost start = findings(out@);
    let (w_attr, c_attr) = channel_attrs(ic);
    if let Some(w) = &ic.width {
        check_channel(out, d, &w.scale, &ic.scale, w.power, w_attr);
    }
    let ghost s1 = findings(out@);
    if let Some(c) = &ic.color {
        check_channel(out, d, &c.scale, &ic.scale, c.power, c_attr);
    }
    assert(findings(out@) =~= start + intensity_scale_findings(*d, *ic));
}

fn check_intensity(out: &mut Vec<ValidationError>, d: &ChartData, ic: &IntensityCfg)
    ensures
        findings(final(out)@) == findings(old(out)@) + intensity_findings(*d, *ic),
{
    let ghost start = findings(out@);
    check_intensity_shape(out, ic);
    check_intensity_scales(out, d, ic);
    assert(findings(out@) =~= start + intensity_findings(*d, *ic));
}

fn check_categorical(out: &mut Vec<ValidationError>, cc: &CategoricalCfg)
    ensures
        findings(final(out)@) == findings(old(out)@) + categorical_findings(*cc),
{
    let ghost start = findings(out@);
    let loc = "settings.extra_cfg.styling.links.categorical";
    if !is_filled(&cc.attribute) {
        report(out, ErrorType::InvalidCategoricalAttribute, loc.to_owned(),
            "categorical requires 'attribute'".to_owned());
    }
    let ghost s1 = findings(out@);
    let n = style_count(&cc.styles);
    if n == 0 {
        report(out, ErrorType::InvalidCategoricalConfig, loc.to_owned(),
            "categorical requires non-empty 'styles'".to_owned());
    }
    let ghost s2 = findings(out@);
    let ghost e = style_entries(cc.styles);
    for k in 0..n
        invariant
            n == e.len(),
            e == style_entries(cc.styles),
            findings(out@) == s2 + gather(
                |k: int|
                    finding_if(
                        e[k].1.line_color is None && e[k].1.line_width is None && e[k].1.strength is None,
                        ErrorType::InvalidCategoricalStyle,
                        categorical_loc(),
                        "categorical style at styles['"@ + e[k].0
                            + "'] has no settable fields (line_color/line_width/strength)"@,
                    ),
                k as int,
            ),
    {
        let ghost before = findings(out@);
        let (key, st) = style_at(&cc.styles, k);
        if st.line_color.is_none() && st.line_width.is_none() && st.strength.is_none() {
            report(out, ErrorType::InvalidCategoricalStyle, "settings.extra_cfg.styling.links.categorical".to_owned(),
                cat3("categorical style at styles['", key.as_str(),
                    "'] has no settable fields (line_color/line_width/strength)"));
        }
        assert(findings(out@) =~= before + finding_if(
            e[k as int].1.line_color is None && e[k as int].1.line_width is None && e[k as int].1.strength is None,
            ErrorType::InvalidCategoricalStyle,
            categorical_loc(),
            "categorical style at styles['"@ + e[k as int].0
                + "'] has no settable fields (line_color/line_width/strength)"@,
        ));
    }
    assert(findings(out@) =~= start + categorical_findings(*cc));
}

fn opt_is(o: Option<&str>, s: &str) -> (r: bool)
    ensures
        r == (match o {
            Some(x) => x@ == s@,
            None => false,
        }),
{
    match o {
        Some(x) => str_eq(x, s),
        None => false,
    }
}

fn check_styling_conflict(out: &mut Vec<ValidationError>, ic: &IntensityCfg, cc: &CategoricalCfg)
    ensures
        findings(final(out)@) == findings(old(out)@) + styling_conflict_findings(*ic, *cc),
{
    if let Some(ca) = &cc.attribute {
        let top: Option<&str> = match &ic.attribute {
            Some(a) => Some(a.as_str()),
            None => None,
        };
        let w: Option<&str> = match &ic.width {
            Some(wc) => match &wc.attribute {
                Some(a) => Some(a.as_str()),
                None => top,
            },
            None => top,
        };
        let c: Option<&str> = match &ic.color {
            Some(cl) => match &cl.attribute {
                Some(a) => Some(a.as_str()),
                None => top,
            },
            None => top,
        };
        if opt_is(top, ca.as_str()) || opt_is(w, ca.as_str()) || opt_is(c, ca.as_str()) {
            report(out, ErrorType::StylingConflict, "settings.extra_cfg.styling.links".to_owned(),
                cat3("intensity and categorical both target attribute '", ca.as_str(), "' — pick one."));
            return;
        }
    }
    assert(findings(out@) =~= findings(old(out)@) + styling_conflict_findings(*ic, *cc));
}

/// Intensity styling needs a width range and/or a color ramp, an attribute
/// per channel, and scales its data allows; categorical styling needs an
/// attribute and styles that set something; the two may not share an
/// attribute.
pub fn validate_styling(out: &mut Vec<ValidationError>, cfg: &Config, d: &ChartData)
    ensures
        findings(final(out)@) == findings(old(out)@) + styling_findings(*cfg, *d),
{
    let ghost start = findings(out@);
    if let Some(st) = &cfg.settings {
        if let Some(sty) = &st.extra_cfg.styling {
            if let Some(links) = &sty.links {
                if let Some(ic) = &links.intensity {
                    check_intensity(out, d, ic);
                }
                let ghost s1 = findings(out@);
                if let Some(cc) = &links.categorical {
                    check_categorical(out, cc);
                }
                let ghost s2 = findings(out@);
                if let (Some(ic), Some(cc)) = (&links.intensity, &links.categorical) {
                    check_styling_conflict(out, ic, cc);
                }
                assert(findings(out@) =~= start + styling_findings(*cfg, *d));
                return;
            }
        }
    }
    assert(findings(out@) =~= start + styling_findings(*cfg, *d));
}

} // verus!
