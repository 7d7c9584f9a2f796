//! Rules on the config layer's own definitions: type names, merge/paste
//! behaviours, datetime formats, semantic types, palettes, validators and
//! enforce blocks.
use vstd::prelude::*;

use crate::enums::{AttributeType, EnumMeta};
use crate::error::{ErrorType, ValidationError};
use crate::input::Config;
use crate::models::{AttributeClass, DateTimeFormat, EntityType, LinkType, SemanticEntity, SemanticLink, SemanticProperty, Validator};
use crate::pattern::{regex_compiles, regex_finds, regex_matches};
use crate::report::{at, at_index, cat3, cat5, findings, finding_if, gather, one, report, Finding};
use crate::text::{char_count, is_empty_str, str_eq};
use crate::validation::common::{check_color, color_findings, filled, has_name, name_before, name_seen_before, names_include, text_of};

verus! {

// ── Type definitions ────────────────────────────────────────────────────────

/// Findings for the `i`-th entity type: a name that is required and unique,
/// and its two colors.
pub open spec fn entity_type_findings(ets: Seq<EntityType>, i: int) -> Seq<Finding> {
    let t = ets[i];
    let loc = at("entity_types"@, i);
    (if t.name@.len() == 0 {
        one(ErrorType::MissingRequired, loc, "Entity type missing 'name'"@)
    } else {
        finding_if(
            name_before(ets, i),
            ErrorType::DuplicateName,
            loc,
            "Duplicate entity type '"@ + t.name@ + "'"@,
        )
    }) + color_findings(t.color, "color"@, loc) + color_findings(t.shade_color, "shade_color"@, loc)
}

/// Findings for the `i`-th link type: a required, unique name and its color.
pub open spec fn link_type_findings(lts: Seq<LinkType>, i: int) -> Seq<Finding> {
    let t = lts[i];
    let loc = at("link_types"@, i);
    (if t.name@.len() == 0 {
        one(ErrorType::MissingRequired, loc, "Link type missing 'name'"@)
    } else {
        finding_if(
            name_before(lts, i),
            ErrorType::DuplicateName,
            loc,
            "Duplicate link type '"@ + t.name@ + "'"@,
        )
    }) + color_findings(t.color, "color"@, loc)
}

/// Findings for the `i`-th attribute class: a required, unique name, and no
/// canvas-visible datetime class.
pub open spec fn attribute_class_findings(acs: Seq<AttributeClass>, i: int) -> Seq<Finding> {
    let a = acs[i];
    let loc = at("attribute_classes"@, i);
    (if a.name@.len() == 0 {
        one(ErrorType::MissingRequired, loc, "Attribute class missing 'name'"@)
    } else {
        finding_if(
            name_before(acs, i),
            ErrorType::DuplicateName,
            loc,
            "Duplicate attribute class '"@ + a.name@ + "'"@,
        )
    }) + finding_if(
        a.type_ == Some(AttributeType::Datetime) && a.visible == Some(true),
        ErrorType::DatetimeAcForbidsVisible,
        loc,
        "A DateTime attribute class cannot have visible=true"@,
    )
}

/// All type-definition findings: entity types, then link types, then
/// attribute classes.
pub open spec fn type_def_findings(cfg: Config) -> Seq<Finding> {
    gather(|i: int| entity_type_findings(cfg.entity_types@, i), cfg.entity_types@.len() as int)
        + gather(|i: int| link_type_findings(cfg.link_types@, i), cfg.link_types@.len() as int)
        + gather(
        |i: int| attribute_class_findings(cfg.attribute_classes@, i),
        cfg.attribute_classes@.len() as int,
    )
}

fn check_entity_types(out: &mut Vec<ValidationError>, config: &Config)
    ensures
        findings(final(out)@) == findings(old(out)@) + gather(
            |i: int| entity_type_findings(config.entity_types@, i),
            config.entity_types@.len() as int,
        ),
{
    let n = config.entity_types.len();
    for i in 0..n
        invariant
            n == config.entity_types@.len(),
            findings(out@) == findings(old(out)@) + gather(
                |i: int| entity_type_findings(config.entity_types@, i),
                i as int,
            ),
    {
        let ghost before = findings(out@);
        let t = &config.entity_types[i];
        if is_empty_str(t.name.as_str()) {
            report(out, ErrorType::MissingRequired, at_index("entity_types", i),
                "Entity type missing 'name'".to_owned());
        } else if name_seen_before(&config.entity_types, i) {
            report(out, ErrorType::DuplicateName, at_index("entity_types", i),
                cat3("Duplicate entity type '", t.name.as_str(), "'"));
        }
        let ghost mid = findings(out@);
        let loc = at_index("entity_types", i);
        check_color(out, &t.color, "color", loc.as_str());
        check_color(out, &t.shade_color, "shade_color", loc.as_str());
        assert(findings(out@) =~= before + entity_type_findings(config.entity_types@, i as int));
    }
}

fn check_link_types(out: &mut Vec<ValidationError>, config: &Config)
    ensures
        findings(final(out)@) == findings(old(out)@) + gather(
            |i: int| link_type_findings(config.link_types@, i),
            config.link_types@.len() as int,
        ),
{
    let n = config.link_types.len();
    for i in 0..n
        invariant
            n == config.link_types@.len(),
            findings(out@) == findings(old(out)@) + gather(
                |i: int| link_type_findings(config.link_types@, i),
                i as int,
            ),
    {
        let ghost before = findings(out@);
        let t = &config.link_types[i];
        if is_empty_str(t.name.as_str()) {
            report(out, ErrorType::MissingRequired, at_index("link_types", i),
                "Link type missing 'name'".to_owned());
        } else if name_seen_before(&config.link_types, i) {
            report(out, ErrorType::DuplicateName, at_index("link_types", i),
                cat3("Duplicate link type '", t.name.as_str(), "'"));
        }
        let loc = at_index("link_types", i);
        check_color(out, &t.color, "color", loc.as_str());
        assert(findings(out@) =~= before + link_type_findings(config.link_types@, i as int));
    }
}

fn check_attribute_classes(out: &mut Vec<ValidationError>, config: &Config)
    ensures
        findings(final(out)@) == findings(old(out)@) + gather(
            |i: int| attribute_class_findings(config.attribute_classes@, i),
            config.attribute_classes@.len() as int,
        ),
{
    let n = config.attribute_classes.len();
    for i in 0..n
        invariant
            n == config.attribute_classes@.len(),
            findings(out@) == findings(old(out)@) + gather(
                |i: int| attribute_class_findings(config.attribute_classes@, i),
                i as int,
            ),
    {
        let ghost before = findings(out@);
        let a = &config.attribute_classes[i];
        if is_empty_str(a.name.as_str()) {
            report(out, ErrorType::MissingRequired, at_index("attribute_classes", i),
                "Attribute class missing 'name'".to_owned());
        } else if name_seen_before(&config.attribute_classes, i) {
            report(out, ErrorType::DuplicateName, at_index("attribute_classes", i),
                cat3("Duplicate attribute class '", a.name.as_str(), "'"));
        }
        let ghost mid = findings(out@);
        if a.type_ == Some(AttributeType::Datetime) && a.visible == Some(true) {
            report(out, ErrorType::DatetimeAcForbidsVisible, at_index("attribute_classes", i),
                "A DateTime attribute class cannot have visible=true".to_owned());
        }
        assert(findings(out@) =~= before + attribute_class_findings(
            config.attribute_classes@,
            i as int,
        ));
    }
}

/// Entity type, link type and attribute class names are required and unique
/// within their kind; type colors must resolve; a datetime attribute class
/// cannot be visible on the canvas.
pub fn validate_type_defs(out: &mut Vec<ValidationError>, config: &Config)
    ensures
        findings(final(out)@) == findings(old(out)@) + type_def_findings(*config),
{
    let ghost start = findings(out@);
    check_entity_types(out, config);
    check_link_types(out, config);
    check_attribute_classes(out, config);
    assert(findings(out@) =~= start + type_def_findings(*config));
}

// ── Merge and paste behaviours ──────────────────────────────────────────────

/// The merge behaviours an attribute type accepts, as written in config.
pub open spec fn merge_tokens(ty: AttributeType) -> Seq<Seq<char>> {
    match ty {
        AttributeType::Text => seq!["add"@, "add_space"@, "add_line_break"@],
        AttributeType::Number => seq!["add"@, "max"@, "min"@],
        AttributeType::Datetime => seq!["min"@, "max"@],
        AttributeType::Flag => seq!["or"@, "and"@, "xor"@],
    }
}

/// The paste behaviours an attribute type accepts, as written in config.
pub open spec fn paste_tokens(ty: AttributeType) -> Seq<Seq<char>> {
    match ty {
        AttributeType::Text => seq!["add"@, "add_space"@, "add_line_break"@, "assign"@, "noop"@],
        AttributeType::Number => seq![
            "add"@,
            "max"@,
            "min"@,
            "subtract"@,
            "subtract_swap"@,
            "assign"@,
            "noop"@,
        ],
        AttributeType::Datetime => seq!["min"@, "max"@, "assign"@, "noop"@],
        AttributeType::Flag => seq!["or"@, "and"@, "xor"@, "assign"@, "noop"@],
    }
}

/// The strings as character sequences.
pub open spec fn views(v: Seq<&'static str>) -> Seq<Seq<char>> {
    v.map_values(|s: &'static str| s@)
}

/// The merge behaviours valid for an attribute type.
pub fn merge_valid(ty: AttributeType) -> (v: Vec<&'static str>)
    ensures
        views(v@) == merge_tokens(ty),
{
    let v = match ty {
        AttributeType::Text => vec!["add", "add_space", "add_line_break"],
        AttributeType::Number => vec!["add", "max", "min"],
        AttributeType::Datetime => vec!["min", "max"],
        AttributeType::Flag => vec!["or", "and", "xor"],
    };
    assert(views(v@) =~= merge_tokens(ty));
    v
}

/// The paste behaviours valid for an attribute type.
pub fn paste_valid(ty: AttributeType) -> (v: Vec<&'static str>)
    ensures
        views(v@) == paste_tokens(ty),
{
    let v = match ty {
        AttributeType::Text => vec!["add", "add_space", "add_line_break", "assign", "noop"],
        AttributeType::Number => vec![
            "add",
            "max",
            "min",
            "subtract",
            "subtract_swap",
            "assign",
            "noop",
        ],
        AttributeType::Datetime => vec!["min", "max", "assign", "noop"],
        AttributeType::Flag => vec!["or", "and", "xor", "assign", "noop"],
    };
    assert(views(v@) =~= paste_tokens(ty));
    v
}

pub fn listed(list: &Vec<&'static str>, s: &str) -> (r: bool)
    ensures
        r == views(list@).contains(s@),
{
    let n = list.len();
    for k in 0..n
        invariant
            n == list@.len(),
            forall|j: int| 0 <= j < k ==> list@[j]@ != s@,
    {
        if str_eq(list[k], s) {
            assert(views(list@)[k as int] == s@);
            return true;
        }
    }
    assert(!views(list@).contains(s@)) by {
        assert forall|j: int| 0 <= j < views(list@).len() implies views(list@)[j] != s@ by {
            assert(views(list@)[j] == list@[j]@);
        }
    }
    false
}

/// Findings for the `i`-th attribute class's merge and paste behaviours
/// (checked only when its type is set).
pub open spec fn behaviour_findings(acs: Seq<AttributeClass>, i: int) -> Seq<Finding> {
    let a = acs[i];
    let loc = at("attribute_classes"@, i);
    match a.type_ {
        None => seq![],
        Some(ty) => (match a.merge_behaviour {
            Some(m) => finding_if(
                !merge_tokens(ty).contains(m.token()),
                ErrorType::InvalidMergeBehaviour,
                loc,
                "merge_behaviour '"@ + m.token() + "' is not valid for type '"@ + ty.token() + "'"@,
            ),
            None => seq![],
        }) + (match a.paste_behaviour {
            Some(p) => finding_if(
                !paste_tokens(ty).contains(p.token()),
                ErrorType::InvalidPasteBehaviour,
                loc,
                "paste_behaviour '"@ + p.token() + "' is not valid for type '"@ + ty.token() + "'"@,
            ),
            None => seq![],
        }),
    }
}

/// Merge and paste behaviours must be valid for the attribute class's type.
pub fn validate_attribute_class_behaviours(out: &mut Vec<ValidationError>, config: &Config)
    ensures
        findings(final(out)@) == findings(old(out)@) + gather(
            |i: int| behaviour_findings(config.attribute_classes@, i),
            config.attribute_classes@.len() as int,
        ),
{
    let n = config.attribute_classes.len();
    for i in 0..n
        invariant
            n == config.attribute_classes@.len(),
            findings(out@) == findings(old(out)@) + gather(
                |i: int| behaviour_findings(config.attribute_classes@, i),
                i as int,
            ),
    {
        let ghost before = findings(out@);
        let a = &config.attribute_classes[i];
        if let Some(ty) = a.type_ {
            if let Some(m) = a.merge_behaviour {
                if !listed(&merge_valid(ty), m.as_str()) {
                    report(out, ErrorType::InvalidMergeBehaviour, at_index("attribute_classes", i),
                        cat5("merge_behaviour '", m.as_str(), "' is not valid for type '",
                            ty.as_str(), "'"));
                }
            }
            let ghost mid = findings(out@);
            if let Some(p) = a.paste_behaviour {
                if !listed(&paste_valid(ty), p.as_str()) {
                    report(out, ErrorType::InvalidPasteBehaviour, at_index("attribute_classes", i),
                        cat5("paste_behaviour '", p.as_str(), "' is not valid for type '",
                            ty.as_str(), "'"));
                }
            }
        }
        assert(findings(out@) =~= before + behaviour_findings(config.attribute_classes@, i as int));
    }
}

// ── Datetime formats ────────────────────────────────────────────────────────

/// Findings for the `i`-th datetime format.
pub open spec fn dtf_findings(fs: Seq<DateTimeFormat>, i: int) -> Seq<Finding> {
    let f = fs[i];
    let loc = at("datetime_formats"@, i);
    (if f.name@.len() == 0 {
        one(ErrorType::MissingRequired, loc, "DateTimeFormat missing 'name'"@)
    } else {
        finding_if(
            f.name@.len() > 250,
            ErrorType::InvalidValue,
            loc,
            "DateTimeFormat name exceeds 250 chars"@,
        ) + finding_if(
            name_before(fs, i),
            ErrorType::DuplicateName,
            loc,
            "Duplicate datetime format '"@ + f.name@ + "'"@,
        )
    }) + finding_if(
        f.format@.len() > 259,
        ErrorType::InvalidValue,
        loc,
        "DateTimeFormat format exceeds 259 chars"@,
    )
}

/// Datetime format names are required, unique and at most 250 characters; a
/// format string holds at most 259 characters.
pub fn validate_datetime_formats(out: &mut Vec<ValidationError>, config: &Config)
    ensures
        findings(final(out)@) == findings(old(out)@) + gather(
            |i: int| dtf_findings(config.datetime_formats@, i),
            config.datetime_formats@.len() as int,
        ),
{
    let n = config.datetime_formats.len();
    for i in 0..n
        invariant
            n == config.datetime_formats@.len(),
            findings(out@) == findings(old(out)@) + gather(
                |i: int| dtf_findings(config.datetime_formats@, i),
                i as int,
            ),
    {
        let ghost before = findings(out@);
        let f = &config.datetime_formats[i];
        if is_empty_str(f.name.as_str()) {
            report(out, ErrorType::MissingRequired, at_index("datetime_formats", i),
                "DateTimeFormat missing 'name'".to_owned());
        } else {
            if char_count(f.name.as_str()) > 250 {
                report(out, ErrorType::InvalidValue, at_index("datetime_formats", i),
                    "DateTimeFormat name exceeds 250 chars".to_owned());
            }
            if name_seen_before(&config.datetime_formats, i) {
                report(out, ErrorType::DuplicateName, at_index("datetime_formats", i),
                    cat3("Duplicate datetime format '", f.name.as_str(), "'"));
            }
        }
        let ghost mid = findings(out@);
        if char_count(f.format.as_str()) > 259 {
            report(out, ErrorType::InvalidValue, at_index("datetime_formats", i),
                "DateTimeFormat format exceeds 259 chars".to_owned());
        }
        assert(findings(out@) =~= before + dtf_findings(config.datetime_formats@, i as int));
    }
}

// ── Semantic types ──────────────────────────────────────────────────────────

/// The pattern of names reserved for i2's own COM semantic types.
pub open spec fn com_name_pattern() -> Seq<char> {
    "^LN(Entity|Link|Property)[A-Z]"@
}

/// A name i2 reserves for its own semantic types.
pub open spec fn reserved_com_name(s: Seq<char>) -> bool {
    regex_compiles(com_name_pattern()) && regex_finds(com_name_pattern(), s)
}

pub fn is_reserved_com_name(s: &str) -> (r: bool)
    ensures
        r == reserved_com_name(s@),
{
    regex_matches("^LN(Entity|Link|Property)[A-Z]", s) == Some(true)
}

pub open spec fn semantic_entity_findings(v: Seq<SemanticEntity>, i: int) -> Seq<Finding> {
    let loc = at("semantic_entities"@, i);
    finding_if(v[i].name@.len() == 0, ErrorType::MissingRequired, loc, "SemanticEntity missing 'name'"@)
        + finding_if(
        v[i].kind_of@.len() == 0 && !v[i].abstract_,
        ErrorType::MissingRequired,
        loc,
        "SemanticEntity needs 'kind_of' or abstract"@,
    )
}

pub open spec fn semantic_link_findings(v: Seq<SemanticLink>, i: int) -> Seq<Finding> {
    let loc = at("semantic_links"@, i);
    finding_if(v[i].name@.len() == 0, ErrorType::MissingRequired, loc, "SemanticLink missing 'name'"@)
        + finding_if(
        v[i].kind_of@.len() == 0 && !v[i].abstract_,
        ErrorType::MissingRequired,
        loc,
        "SemanticLink needs 'kind_of' or abstract"@,
    )
}

pub open spec fn semantic_property_findings(v: Seq<SemanticProperty>, i: int) -> Seq<Finding> {
    let loc = at("semantic_properties"@, i);
    finding_if(
        v[i].name@.len() == 0,
        ErrorType::MissingRequired,
        loc,
        "SemanticProperty missing 'name'"@,
    ) + finding_if(
        v[i].base_property@.len() == 0 && !v[i].abstract_,
        ErrorType::MissingRequired,
        loc,
        "SemanticProperty needs 'base_property' or abstract"@,
    )
}

/// Whether a semantic reference names a registered type: a property for an
/// attribute class, an entity or link type otherwise.
pub open spec fn semantic_known(cfg: Config, s: Seq<char>, is_prop: bool) -> bool {
    if is_prop {
        has_name(cfg.semantic_properties@, s)
    } else {
        has_name(cfg.semantic_entities@, s) || has_name(cfg.semantic_links@, s)
    }
}

/// A set semantic reference must not use a reserved COM name, and unless it
/// is a `guid…` literal it must name a registered semantic type.
pub open spec fn semantic_ref_findings(cfg: Config, val: Option<String>, loc: Seq<char>, is_prop: bool) -> Seq<
    Finding,
> {
    let s = text_of(val);
    if !filled(val) {
        seq![]
    } else if reserved_com_name(s) {
        one(ErrorType::InvalidSemanticType, loc, "'"@ + s + "' uses a reserved i2 COM name"@)
    } else {
        finding_if(
            !crate::text::starts_with(s, "guid"@) && !semantic_known(cfg, s, is_prop),
            ErrorType::UnknownSemanticType,
            loc,
            "Unknown semantic type '"@ + s + "'"@,
        )
    }
}

/// The location of a type definition's `semantic_type` field.
pub open spec fn semantic_loc(base: Seq<char>, i: int) -> Seq<char> {
    at(base, i) + ".semantic_type"@
}

/// All semantic-type findings: the definitions, then the references from
/// entity types, link types and attribute classes.
pub open spec fn semantic_findings(cfg: Config) -> Seq<Finding> {
    gather(|i: int| semantic_entity_findings(cfg.semantic_entities@, i), cfg.semantic_entities@.len() as int)
        + gather(|i: int| semantic_link_findings(cfg.semantic_links@, i), cfg.semantic_links@.len() as int)
        + gather(
        |i: int| semantic_property_findings(cfg.semantic_properties@, i),
        cfg.semantic_properties@.len() as int,
    ) + gather(
        |i: int|
            semantic_ref_findings(
                cfg,
                cfg.entity_types@[i].semantic_type,
                semantic_loc("entity_types"@, i),
                false,
            ),
        cfg.entity_types@.len() as int,
    ) + gather(
        |i: int|
            semantic_ref_findings(
                cfg,
                cfg.link_types@[i].semantic_type,
                semantic_loc("link_types"@, i),
                false,
            ),
        cfg.link_types@.len() as int,
    ) + gather(
        |i: int|
            semantic_ref_findings(
                cfg,
                cfg.attribute_classes@[i].semantic_type,
                semantic_loc("attribute_classes"@, i),
                true,
            ),
        cfg.attribute_classes@.len() as int,
    )
}

fn check_semantic_ref(
    out: &mut Vec<ValidationError>,
    cfg: &Config,
    val: &Option<String>,
    loc: String,
    is_prop: bool,
)
    ensures
        findings(final(out)@) == findings(old(out)@) + semantic_ref_findings(*cfg, *val, loc@, is_prop),
{
    if let Some(s) = val {
        if !is_empty_str(s.as_str()) {
            if is_reserved_com_name(s.as_str()) {
                report(out, ErrorType::InvalidSemanticType, loc,
                    cat3("'", s.as_str(), "' uses a reserved i2 COM name"));
                return;
            } else if !crate::text::has_prefix(s.as_str(), "guid") {
                let known = if is_prop {
                    names_include(&cfg.semantic_properties, s.as_str())
                } else {
                    names_include(&cfg.semantic_entities, s.as_str())
                        || names_include(&cfg.semantic_links, s.as_str())
                };
                if !known {
                    report(out, ErrorType::UnknownSemanticType, loc,
                        cat3("Unknown semantic type '", s.as_str(), "'"));
                    return;
                }
            }
        }
    }
    assert(findings(out@) =~= findings(old(out)@) + semantic_ref_findings(*cfg, *val, loc@, is_prop));
}

fn semantic_loc_of(base: &str, i: usize) -> (s: String)
    ensures
        s@ == semantic_loc(base@, i as int),
{
    let mut s = at_index(base, i);
    s.append(".semantic_type");
    s
}

fn check_semantic_defs(out: &mut Vec<ValidationError>, config: &Config)
    ensures
        findings(final(out)@) == findings(old(out)@) + gather(
            |i: int| semantic_entity_findings(config.semantic_entities@, i),
            config.semantic_entities@.len() as int,
        ) + gather(
            |i: int| semantic_link_findings(config.semantic_links@, i),
            config.semantic_links@.len() as int,
        ) + gather(
            |i: int| semantic_property_findings(config.semantic_properties@, i),
            config.semantic_properties@.len() as int,
        ),
{
    let ghost start = findings(out@);
    let n = config.semantic_entities.len();
    for i in 0..n
        invariant
            n == config.semantic_entities@.len(),
            findings(out@) == start + gather(
                |i: int| semantic_entity_findings(config.semantic_entities@, i),
                i as int,
            ),
    {
        let ghost before = findings(out@);
        let se = &config.semantic_entities[i];
        if is_empty_str(se.name.as_str()) {
            report(out, ErrorType::MissingRequired, at_index("semantic_entities", i),
                "SemanticEntity missing 'name'".to_owned());
        }
        let ghost mid = findings(out@);
        if is_empty_str(se.kind_of.as_str()) && !se.abstract_ {
            report(out, ErrorType::MissingRequired, at_index("semantic_entities", i),
                "SemanticEntity needs 'kind_of' or abstract".to_owned());
        }
        assert(findings(out@) =~= before + semantic_entity_findings(config.semantic_entities@, i as int));
    }
    let ghost s1 = findings(out@);
    let n = config.semantic_links.len();
    for i in 0..n
        invariant
            n == config.semantic_links@.len(),
            findings(out@) == s1 + gather(
                |i: int| semantic_link_findings(config.semantic_links@, i),
                i as int,
            ),
    {
        let ghost before = findings(out@);
        let sl = &config.semantic_links[i];
        if is_empty_str(sl.name.as_str()) {
            report(out, ErrorType::MissingRequired, at_index("semantic_links", i),
                "SemanticLink missing 'name'".to_owned());
        }
        let ghost mid = findings(out@);
        if is_empty_str(sl.kind_of.as_str()) && !sl.abstract_ {
            report(out, ErrorType::MissingRequired, at_index("semantic_links", i),
                "SemanticLink needs 'kind_of' or abstract".to_owned());
        }
        assert(findings(out@) =~= before + semantic_link_findings(config.semantic_links@, i as int));
    }
    let ghost s2 = findings(out@);
    let n = config.semantic_properties.len();
    for i in 0..n
        invariant
            n == config.semantic_properties@.len(),
            findings(out@) == s2 + gather(
                |i: int| semantic_property_findings(config.semantic_properties@, i),
                i as int,
            ),
    {
        let ghost before = findings(out@);
        let sp = &config.semantic_properties[i];
        if is_empty_str(sp.name.as_str()) {
            report(out, ErrorType::MissingRequired, at_index("semantic_properties", i),
                "SemanticProperty missing 'name'".to_owned());
        }
        let ghost mid = findings(out@);
        if is_empty_str(sp.base_property.as_str()) && !sp.abstract_ {
            report(out, ErrorType::MissingRequired, at_index("semantic_properties", i),
                "SemanticProperty needs 'base_property' or abstract".to_owned());
        }
        assert(findings(out@) =~= before + semantic_property_findings(
            config.semantic_properties@,
            i as int,
        ));
    }
    assert(findings(out@) =~= start + gather(
        |i: int| semantic_entity_findings(config.semantic_entities@, i),
        config.semantic_entities@.len() as int,
    ) + gather(
        |i: int| semantic_link_findings(config.semantic_links@, i),
        config.semantic_links@.len() as int,
    ) + gather(
        |i: int| semantic_property_findings(config.semantic_properties@, i),
        config.semantic_properties@.len() as int,
    ));
}

fn check_semantic_refs(out: &mut Vec<ValidationError>, config: &Config)
    ensures
        findings(final(out)@) == findings(old(out)@) + gather(
            |i: int|
                semantic_ref_findings(
                    *config,
                    config.entity_types@[i].semantic_type,
                    semantic_loc("entity_types"@, i),
                    false,
                ),
            config.entity_types@.len() as int,
        ) + gather(
            |i: int|
                semantic_ref_findings(
                    *config,
                    config.link_types@[i].semantic_type,
                    semantic_loc("link_types"@, i),
                    false,
                ),
            config.link_types@.len() as int,
        ) + gather(
            |i: int|
                semantic_ref_findings(
                    *config,
                    config.attribute_classes@[i].semantic_type,
                    semantic_loc("attribute_classes"@, i),
                    true,
                ),
            config.attribute_classes@.len() as int,
        ),
{
    let ghost start = findings(out@);
    let n = config.entity_types.len();
    for i in 0..n
        invariant
            n == config.entity_types@.len(),
            findings(out@) == start + gather(
                |i: int|
                    semantic_ref_findings(
                        *config,
                        config.entity_types@[i].semantic_type,
                        semantic_loc("entity_types"@, i),
                        false,
                    ),
                i as int,
            ),
    {
        check_semantic_ref(out, config, &config.entity_types[i].semantic_type,
            semantic_loc_of("entity_types", i), false);
    }
    let ghost s1 = findings(out@);
    let n = config.link_types.len();
    for i in 0..n
        invariant
            n == config.link_types@.len(),
            findings(out@) == s1 + gather(
                |i: int|
                    semantic_ref_findings(
                        *config,
                        config.link_types@[i].semantic_type,
                        semantic_loc("link_types"@, i),
                        false,
                    ),
                i as int,
            ),
    {
        check_semantic_ref(out, config, &config.link_types[i].semantic_type,
            semantic_loc_of("link_types", i), false);
    }
    let ghost s2 = findings(out@);
    let n = config.attribute_classes.len();
    for i in 0..n
        invariant
            n == config.attribute_classes@.len(),
            findings(out@) == s2 + gather(
                |i: int|
                    semantic_ref_findings(
                        *config,
                        config.attribute_classes@[i].semantic_type,
                        semantic_loc("attribute_classes"@, i),
                        true,
                    ),
                i as int,
            ),
    {
        check_semantic_ref(out, config, &config.attribute_classes[i].semantic_type,
            semantic_loc_of("attribute_classes", i), true);
    }
}

/// Semantic type definitions need a name and either a parent (`kind_of`,
/// `base_property`) or `abstract`; references from type definitions must be
/// registered or a `guid…` literal, and must not use a reserved COM name.
pub fn validate_semantic_types(out: &mut Vec<ValidationError>, config: &Config)
    ensures
        findings(final(out)@) == findings(old(out)@) + semantic_findings(*config),
{
    let ghost start = findings(out@);
    check_semantic_defs(out, config);
    check_semantic_refs(out, config);
    assert(findings(out@) =~= start + semantic_findings(*config));
}

// ── Palettes ────────────────────────────────────────────────────────────────

/// Findings for the `i`-th palette: every entity type, link type and
/// attribute class it lists must be defined.
pub open spec fn palette_findings(cfg: Config, i: int) -> Seq<Finding> {
    let p = cfg.palettes@[i];
    let loc = at("palettes"@, i);
    gather(
        |j: int|
            finding_if(
                !has_name(cfg.entity_types@, p.entity_types@[j]@),
                ErrorType::PaletteUnknownRef,
                loc,
                "unknown entity type '"@ + p.entity_types@[j]@ + "'"@,
            ),
        p.entity_types@.len() as int,
    ) + gather(
        |j: int|
            finding_if(
                !has_name(cfg.link_types@, p.link_types@[j]@),
                ErrorType::PaletteUnknownRef,
                loc,
                "unknown link type '"@ + p.link_types@[j]@ + "'"@,
            ),
        p.link_types@.len() as int,
    ) + gather(
        |j: int|
            finding_if(
                !has_name(cfg.attribute_classes@, p.attribute_classes@[j]@),
                ErrorType::PaletteUnknownRef,
                loc,
                "unknown attribute class '"@ + p.attribute_classes@[j]@ + "'"@,
            ),
        p.attribute_classes@.len() as int,
    )
}

fn check_palette(out: &mut Vec<ValidationError>, config: &Config, i: usize)
    requires
        i < config.palettes@.len(),
    ensures
        findings(final(out)@) == findings(old(out)@) + palette_findings(*config, i as int),
{
    let ghost start = findings(out@);
    let p = &config.palettes[i];
    let loc = at_index("palettes", i);
    let n = p.entity_types.len();
    for j in 0..n
        invariant
            n == p.entity_types@.len(),
            *p == config.palettes@[i as int],
            loc@ == at("palettes"@, i as int),
            findings(out@) == start + gather(
                |j: int|
                    finding_if(
                        !has_name(config.entity_types@, p.entity_types@[j]@),
                        ErrorType::PaletteUnknownRef,
                        loc@,
                        "unknown entity type '"@ + p.entity_types@[j]@ + "'"@,
                    ),
                j as int,
            ),
    {
        let ghost before = findings(out@);
        let name = p.entity_types[j].as_str();
        if !names_include(&config.entity_types, name) {
            report(out, ErrorType::PaletteUnknownRef, loc.clone(), cat3("unknown entity type '", name, "'"));
        }
        assert(findings(out@) =~= before + finding_if(
            !has_name(config.entity_types@, p.entity_types@[j as int]@),
            ErrorType::PaletteUnknownRef,
            loc@,
            "unknown entity type '"@ + p.entity_types@[j as int]@ + "'"@,
        ));
    }
    let ghost s1 = findings(out@);
    let n = p.link_types.len();
    for j in 0..n
        invariant
            n == p.link_types@.len(),
            *p == config.palettes@[i as int],
            loc@ == at("palettes"@, i as int),
            findings(out@) == s1 + gather(
                |j: int|
                    finding_if(
                        !has_name(config.link_types@, p.link_types@[j]@),
                        ErrorType::PaletteUnknownRef,
                        loc@,
                        "unknown link type '"@ + p.link_types@[j]@ + "'"@,
                    ),
                j as int,
            ),
    {
        let ghost before = findings(out@);
        let name = p.link_types[j].as_str();
        if !names_include(&config.link_types, name) {
            report(out, ErrorType::PaletteUnknownRef, loc.clone(), cat3("unknown link type '", name, "'"));
        }
        assert(findings(out@) =~= before + finding_if(
            !has_name(config.link_types@, p.link_types@[j as int]@),
            ErrorType::PaletteUnknownRef,
            loc@,
            "unknown link type '"@ + p.link_types@[j as int]@ + "'"@,
        ));
    }
    let ghost s2 = findings(out@);
    let n = p.attribute_classes.len();
    for j in 0..n
        invariant
            n == p.attribute_classes@.len(),
            *p == config.palettes@[i as int],
            loc@ == at("palettes"@, i as int),
            findings(out@) == s2 + gather(
                |j: int|
                    finding_if(
                        !has_name(config.attribute_classes@, p.attribute_classes@[j]@),
                        ErrorType::PaletteUnknownRef,
                        loc@,
                        "unknown attribute class '"@ + p.attribute_classes@[j]@ + "'"@,
                    ),
                j as int,
            ),
    {
        let ghost before = findings(out@);
        let name = p.attribute_classes[j].as_str();
        if !names_include(&config.attribute_classes, name) {
            report(out, ErrorType::PaletteUnknownRef, loc.clone(),
                cat3("unknown attribute class '", name, "'"));
        }
        assert(findings(out@) =~= before + finding_if(
            !has_name(config.attribute_classes@, p.attribute_classes@[j as int]@),
            ErrorType::PaletteUnknownRef,
            loc@,
            "unknown attribute class '"@ + p.attribute_classes@[j as int]@ + "'"@,
        ));
    }
    assert(findings(out@) =~= start + palette_findings(*config, i as int));
}

/// Every type and attribute class a palette lists must be defined.
pub fn validate_palettes(out: &mut Vec<ValidationError>, config: &Config)
    ensures
        findings(final(out)@) == findings(old(out)@) + gather(
            |i: int| palette_findings(*config, i),
            config.palettes@.len() as int,
        ),
{
    let n = config.palettes.len();
    for i in 0..n
        invariant
            n == config.palettes@.len(),
            findings(out@) == findings(old(out)@) + gather(
                |i: int| palette_findings(*config, i),
                i as int,
            ),
    {
        check_palette(out, config, i);
    }
}

// ── Validators ──────────────────────────────────────────────────────────────

/// The key that makes a validator unique: `scope::attribute`, where the
/// scope is its entity type, else its link type.
pub open spec fn validator_key(v: Validator) -> Option<Seq<char>> {
    let scope = if v.entity_type is Some {
        v.entity_type
    } else {
        v.link_type
    };
    match (scope, v.attribute) {
        (Some(s), Some(a)) => Some(s@ + "::"@ + a@),
        _ => None,
    }
}

/// Whether a validator before `i` has the same key as validator `i`.
pub open spec fn key_before(vs: Seq<Validator>, i: int) -> bool {
    exists|j: int| 0 <= j < i && validator_key(vs[j]) == validator_key(vs[i])
}

/// Findings on a validator's own shape: one scope, a non-reserved
/// attribute, one of pattern/allowed values, a description for a pattern.
pub open spec fn validator_shape_findings(v: Validator, loc: Seq<char>) -> Seq<Finding> {
    finding_if(
        (v.entity_type is Some) == (v.link_type is Some),
        ErrorType::ValidatorInvalidScope,
        loc,
        "validator needs exactly one of entity_type/link_type"@,
    ) + (match v.attribute {
        None => one(ErrorType::MissingRequired, loc, "validator missing 'attribute'"@),
        Some(a) => finding_if(
            a@ == "id"@,
            ErrorType::ValidatorReservedAttribute,
            loc,
            "'id' is reserved; use enforce.id_pattern"@,
        ),
    }) + finding_if(
        (v.pattern is Some) == (v.allowed_values is Some),
        ErrorType::ValidatorInvalidShape,
        loc,
        "validator needs exactly one of pattern/allowed_values"@,
    ) + finding_if(
        v.pattern is Some && v.description is None,
        ErrorType::PatternMissingDescription,
        loc,
        "pattern validator needs a 'description'"@,
    )
}

/// Findings on what the `i`-th validator refers to: defined types, and a
/// key no earlier validator holds.
pub open spec fn validator_ref_findings(cfg: Config, i: int, loc: Seq<char>) -> Seq<Finding> {
    let v = cfg.validators@[i];
    (match v.entity_type {
        Some(t) => finding_if(
            !has_name(cfg.entity_types@, t@),
            ErrorType::ValidatorUnknownType,
            loc,
            "unknown entity type '"@ + t@ + "'"@,
        ),
        None => seq![],
    }) + (match v.link_type {
        Some(t) => finding_if(
            !has_name(cfg.link_types@, t@),
            ErrorType::ValidatorUnknownType,
            loc,
            "unknown link type '"@ + t@ + "'"@,
        ),
        None => seq![],
    }) + finding_if(
        validator_key(v) is Some && key_before(cfg.validators@, i),
        ErrorType::ValidatorDuplicateKey,
        loc,
        "duplicate validator scope/attribute"@,
    )
}

/// Findings for the `i`-th validator.
pub open spec fn validator_findings(cfg: Config, i: int) -> Seq<Finding> {
    let loc = at("validators"@, i);
    validator_shape_findings(cfg.validators@[i], loc) + validator_ref_findings(cfg, i, loc)
}

fn key_of(v: &Validator) -> (r: Option<String>)
    ensures
        match r {
            Some(k) => validator_key(*v) == Some(k@),
            None => validator_key(*v) is None,
        },
{
    let scope = if v.entity_type.is_some() {
        &v.entity_type
    } else {
        &v.link_type
    };
    match (scope, &v.attribute) {
        (Some(s), Some(a)) => Some(cat3(s.as_str(), "::", a.as_str())),
        _ => None,
    }
}

fn key_seen_before(vs: &Vec<Validator>, i: usize, key: &str) -> (r: bool)
    requires
        i < vs@.len(),
        validator_key(vs@[i as int]) == Some(key@),
    ensures
        r == key_before(vs@, i as int),
{
    let mut j: usize = 0;
    while j < i
        invariant
            i < vs@.len(),
            j <= i,
            validator_key(vs@[i as int]) == Some(key@),
            forall|k: int| 0 <= k < j ==> validator_key(vs@[k]) != validator_key(vs@[i as int]),
        decreases i - j,
    {
        if let Some(k) = key_of(&vs[j]) {
            if str_eq(k.as_str(), key) {
                return true;
            }
        }
        j = j + 1;
    }
    false
}

fn check_validator_shape(out: &mut Vec<ValidationError>, v: &Validator, loc: &String)
    ensures
        findings(final(out)@) == findings(old(out)@) + validator_shape_findings(*v, loc@),
{
    let ghost start = findings(out@);
    if v.entity_type.is_some() == v.link_type.is_some() {
        report(out, ErrorType::ValidatorInvalidScope, loc.clone(),
            "validator needs exactly one of entity_type/link_type".to_owned());
    }
    let ghost s1 = findings(out@);
    match &v.attribute {
        None => report(out, ErrorType::MissingRequired, loc.clone(),
            "validator missing 'attribute'".to_owned()),
        Some(a) => {
            if str_eq(a.as_str(), "id") {
                report(out, ErrorType::ValidatorReservedAttribute, loc.clone(),
                    "'id' is reserved; use enforce.id_pattern".to_owned());
            }
        },
    }
    let ghost s2 = findings(out@);
    if v.pattern.is_some() == v.allowed_values.is_some() {
        report(out, ErrorType::ValidatorInvalidShape, loc.clone(),
            "validator needs exactly one of pattern/allowed_values".to_owned());
    }
    let ghost s3 = findings(out@);
    if v.pattern.is_some() && v.description.is_none() {
        report(out, ErrorType::PatternMissingDescription, loc.clone(),
            "pattern validator needs a 'description'".to_owned());
    }
    assert(findings(out@) =~= start + validator_shape_findings(*v, loc@));
}

fn check_validator_refs(out: &mut Vec<ValidationError>, config: &Config, i: usize, loc: &String)
    requires
        i < config.validators@.len(),
    ensures
        findings(final(out)@) == findings(old(out)@) + validator_ref_findings(*config, i as int, loc@),
{
    let ghost start = findings(out@);
    let v = &config.validators[i];
    if let Some(t) = &v.entity_type {
        if !names_include(&config.entity_types, t.as_str()) {
            report(out, ErrorType::ValidatorUnknownType, loc.clone(),
                cat3("unknown entity type '", t.as_str(), "'"));
        }
    }
    let ghost s1 = findings(out@);
    if let Some(t) = &v.link_type {
        if !names_include(&config.link_types, t.as_str()) {
            report(out, ErrorType::ValidatorUnknownType, loc.clone(),
                cat3("unknown link type '", t.as_str(), "'"));
        }
    }
    let ghost s2 = findings(out@);
    if let Some(k) = key_of(v) {
        if key_seen_before(&config.validators, i, k.as_str()) {
            report(out, ErrorType::ValidatorDuplicateKey, loc.clone(),
                "duplicate validator scope/attribute".to_owned());
        }
    }
    assert(findings(out@) =~= start + validator_ref_findings(*config, i as int, loc@));
}

fn check_validator(out: &mut Vec<ValidationError>, config: &Config, i: usize)
    requires
        i < config.validators@.len(),
    ensures
        findings(final(out)@) == findings(old(out)@) + validator_findings(*config, i as int),
{
    let ghost start = findings(out@);
    let loc = at_index("validators", i);
    check_validator_shape(out, &config.validators[i], &loc);
    check_validator_refs(out, config, i, &loc);
    assert(findings(out@) =~= start + validator_findings(*config, i as int));
}

/// Each validator needs exactly one scope (entity or link type, which must
/// be defined), a non-reserved attribute, exactly one of pattern or allowed
/// values, a description for a pattern, and a scope/attribute key of its own.
pub fn validate_validators_config(out: &mut Vec<ValidationError>, config: &Config)
    ensures
        findings(final(out)@) == findings(old(out)@) + gather(
            |i: int| validator_findings(*config, i),
            config.validators@.len() as int,
        ),
{
    let n = config.validators.len();
    for i in 0..n
        invariant
            n == config.validators@.len(),
            findings(out@) == findings(old(out)@) + gather(
                |i: int| validator_findings(*config, i),
                i as int,
            ),
    {
        check_validator(out, config, i);
    }
}

// ── Enforce blocks ──────────────────────────────────────────────────────────

/// The location of a definition's `enforce` block.
pub open spec fn enforce_loc(base: Seq<char>, i: int) -> Seq<char> {
    at(base, i) + ".enforce"@
}

pub open spec fn et_enforce_findings(ets: Seq<EntityType>, i: int) -> Seq<Finding> {
    match ets[i].enforce {
        Some(e) => finding_if(
            e.id_pattern is Some && e.id_pattern_description is None,
            ErrorType::PatternMissingDescription,
            enforce_loc("entity_types"@, i),
            "EntityType '"@ + ets[i].name@
                + "' declares enforce.id_pattern but is missing 'id_pattern_description'"@,
        ),
        None => seq![],
    }
}

pub open spec fn lt_enforce_findings(lts: Seq<LinkType>, i: int) -> Seq<Finding> {
    match lts[i].enforce {
        Some(e) => finding_if(
            e.id_pattern is Some && e.id_pattern_description is None,
            ErrorType::PatternMissingDescription,
            enforce_loc("link_types"@, i),
            "LinkType '"@ + lts[i].name@
                + "' declares enforce.id_pattern but is missing 'id_pattern_description'"@,
        ),
        None => seq![],
    }
}

pub open spec fn ac_enforce_findings(acs: Seq<AttributeClass>, i: int) -> Seq<Finding> {
    match acs[i].enforce {
        Some(e) => finding_if(
            e.pattern is Some && e.description is None,
            ErrorType::PatternMissingDescription,
            enforce_loc("attribute_classes"@, i),
            "AttributeClass '"@ + acs[i].name@
                + "' declares enforce.pattern but is missing 'description'"@,
        ),
        None => seq![],
    }
}

pub open spec fn enforce_description_findings(cfg: Config) -> Seq<Finding> {
    gather(|i: int| et_enforce_findings(cfg.entity_types@, i), cfg.entity_types@.len() as int)
        + gather(|i: int| lt_enforce_findings(cfg.link_types@, i), cfg.link_types@.len() as int)
        + gather(
        |i: int| ac_enforce_findings(cfg.attribute_classes@, i),
        cfg.attribute_classes@.len() as int,
    )
}

fn enforce_loc_of(base: &str, i: usize) -> (s: String)
    ensures
        s@ == enforce_loc(base@, i as int),
{
    let mut s = at_index(base, i);
    s.append(".enforce");
    s
}

/// A `pattern`/`id_pattern` in an enforce block needs a human-readable
/// description.
pub fn validate_enforce_descriptions(out: &mut Vec<ValidationError>, config: &Config)
    ensures
        findings(final(out)@) == findings(old(out)@) + enforce_description_findings(*config),
{
    let ghost start = findings(out@);
    let n = config.entity_types.len();
    for i in 0..n
        invariant
            n == config.entity_types@.len(),
            findings(out@) == start + gather(
                |i: int| et_enforce_findings(config.entity_types@, i),
                i as int,
            ),
    {
        let ghost before = findings(out@);
        let et = &config.entity_types[i];
        if let Some(e) = &et.enforce {
            if e.id_pattern.is_some() && e.id_pattern_description.is_none() {
                report(out, ErrorType::PatternMissingDescription, enforce_loc_of("entity_types", i),
                    cat3("EntityType '", et.name.as_str(),
                        "' declares enforce.id_pattern but is missing 'id_pattern_description'"));
            }
        }
        assert(findings(out@) =~= before + et_enforce_findings(config.entity_types@, i as int));
    }
    let ghost s1 = findings(out@);
    let n = config.link_types.len();
    for i in 0..n
        invariant
            n == config.link_types@.len(),
            findings(out@) == s1 + gather(
                |i: int| lt_enforce_findings(config.link_types@, i),
                i as int,
            ),
    {
        let ghost before = findings(out@);
        let lt = &config.link_types[i];
        if let Some(e) = &lt.enforce {
            if e.id_pattern.is_some() && e.id_pattern_description.is_none() {
                report(out, ErrorType::PatternMissingDescription, enforce_loc_of("link_types", i),
                    cat3("LinkType '", lt.name.as_str(),
                        "' declares enforce.id_pattern but is missing 'id_pattern_description'"));
            }
        }
        assert(findings(out@) =~= before + lt_enforce_findings(config.link_types@, i as int));
    }
    let ghost s2 = findings(out@);
    let n = config.attribute_classes.len();
    for i in 0..n
        invariant
            n == config.attribute_classes@.len(),
            findings(out@) == s2 + gather(
                |i: int| ac_enforce_findings(config.attribute_classes@, i),
                i as int,
            ),
    {
        let ghost before = findings(out@);
        let ac = &config.attribute_classes[i];
        if let Some(e) = &ac.enforce {
            if e.pattern.is_some() && e.description.is_none() {
                report(out, ErrorType::PatternMissingDescription,
                    enforce_loc_of("attribute_classes", i),
                    cat3("AttributeClass '", ac.name.as_str(),
                        "' declares enforce.pattern but is missing 'description'"));
            }
        }
        assert(findings(out@) =~= before + ac_enforce_findings(config.attribute_classes@, i as int));
    }
    assert(findings(out@) =~= start + enforce_description_findings(*config));
}

// ── Custom icon inclusion ───────────────────────────────────────────────────

/// `custom_icons_include`, when set, is `all` or `referenced`.
pub open spec fn custom_icons_include_findings(cfg: Config) -> Seq<Finding> {
    match cfg.settings {
        Some(st) => match st.extra_cfg.custom_icons_include {
            Some(v) => finding_if(
                v@ != "all"@ && v@ != "referenced"@,
                ErrorType::InvalidCustomIconsInclude,
                "settings.extra_cfg.custom_icons_include"@,
                "must be 'all' or 'referenced', got '"@ + v@ + "'"@,
            ),
            None => seq![],
        },
        None => seq![],
    }
}

pub fn validate_custom_icons_include(out: &mut Vec<ValidationError>, config: &Config)
    ensures
        findings(final(out)@) == findings(old(out)@) + custom_icons_include_findings(*config),
{
    if let Some(st) = &config.settings {
        if let Some(v) = &st.extra_cfg.custom_icons_include {
            if !str_eq(v.as_str(), "all") && !str_eq(v.as_str(), "referenced") {
                report(out, ErrorType::InvalidCustomIconsInclude,
                    "settings.extra_cfg.custom_icons_include".to_owned(),
                    cat3("must be 'all' or 'referenced', got '", v.as_str(), "'"));
                return;
            }
        }
    }
    assert(findings(out@) =~= findings(old(out)@) + custom_icons_include_findings(*config));
}

} // verus!
