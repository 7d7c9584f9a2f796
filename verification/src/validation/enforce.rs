//! Value enforcement: entity-type id patterns, required attributes on entity
//! and link types, and attribute-class value patterns and allowed values.
//! When several definitions share a name, the last one that declares a rule
//! is the one applied.
use vstd::prelude::*;

use crate::error::{ErrorType, ValidationError};
use crate::input::{ChartData, Config};
use crate::maps::{attr_at, attr_count, attr_entries, attr_get, has_key};
use crate::models::{AttributeClass, EntityType, LinkType};
use crate::pattern::{anchored, full_match, regex_compiles, regex_finds};
use crate::report::{at, at_index, cat3, findings, finding_if, gather, report, Finding};
use crate::text::{is_empty_str, str_eq};
use crate::validation::chart::{
    common_at, count_entities, entity_common, entity_count, entity_loc, loc_at,
};
use crate::value::{attr_equal, rendered, AttrValue};

verus! {

// ── The rules each definition declares ──────────────────────────────────────

/// An entity type's id pattern, when it declares one that compiles.
pub open spec fn et_id_rule(et: EntityType) -> Option<Seq<char>> {
    match et.enforce {
        Some(e) => match e.id_pattern {
            Some(p) => if regex_compiles(anchored(p@)) {
                Some(p@)
            } else {
                None
            },
            None => None,
        },
        None => None,
    }
}

/// An entity type's required attributes, when it declares any.
pub open spec fn et_required_rule(et: EntityType) -> Option<Seq<String>> {
    match et.enforce {
        Some(e) => if e.required_attributes@.len() > 0 {
            Some(e.required_attributes@)
        } else {
            None
        },
        None => None,
    }
}

/// A link type's required attributes, when it declares any.
pub open spec fn lt_required_rule(lt: LinkType) -> Option<Seq<String>> {
    match lt.enforce {
        Some(e) => if e.required_attributes@.len() > 0 {
            Some(e.required_attributes@)
        } else {
            None
        },
        None => None,
    }
}

/// An attribute class's value pattern and its description, when it declares
/// a pattern that compiles.
pub open spec fn ac_pattern_rule(ac: AttributeClass) -> Option<(Seq<char>, Option<String>)> {
    match ac.enforce {
        Some(e) => match e.pattern {
            Some(p) => if regex_compiles(anchored(p@)) {
                Some((p@, e.description))
            } else {
                None
            },
            None => None,
        },
        None => None,
    }
}

/// An attribute class's allowed values, when it declares them and no pattern.
pub open spec fn ac_allowed_rule(ac: AttributeClass) -> Option<Seq<AttrValue>> {
    match ac.enforce {
        Some(e) => match e.pattern {
            Some(_) => None,
            None => match e.allowed_values {
                Some(av) => Some(av@),
                None => None,
            },
        },
        None => None,
    }
}

// ── The rule in force for a name ────────────────────────────────────────────

/// The id pattern of the last of the first `n` entity types named `t` that
/// declares one.
pub open spec fn last_id_rule(ets: Seq<EntityType>, t: Seq<char>, n: int) -> Option<Seq<char>>
    decreases n,
{
    if n <= 0 {
        None
    } else if ets[n - 1].name@ == t && et_id_rule(ets[n - 1]) is Some {
        et_id_rule(ets[n - 1])
    } else {
        last_id_rule(ets, t, n - 1)
    }
}

pub open spec fn last_et_required(ets: Seq<EntityType>, t: Seq<char>, n: int) -> Option<Seq<String>>
    decreases n,
{
    if n <= 0 {
        None
    } else if ets[n - 1].name@ == t && et_required_rule(ets[n - 1]) is Some {
        et_required_rule(ets[n - 1])
    } else {
        last_et_required(ets, t, n - 1)
    }
}

pub open spec fn last_lt_required(lts: Seq<LinkType>, t: Seq<char>, n: int) -> Option<Seq<String>>
    decreases n,
{
    if n <= 0 {
        None
    } else if lts[n - 1].name@ == t && lt_required_rule(lts[n - 1]) is Some {
        lt_required_rule(lts[n - 1])
    } else {
        last_lt_required(lts, t, n - 1)
    }
}

pub open spec fn last_pattern(acs: Seq<AttributeClass>, name: Seq<char>, n: int) -> Option<
    (Seq<char>, Option<String>),
>
    decreases n,
{
    if n <= 0 {
        None
    } else if acs[n - 1].name@ == name && ac_pattern_rule(acs[n - 1]) is Some {
        ac_pattern_rule(acs[n - 1])
    } else {
        last_pattern(acs, name, n - 1)
    }
}

pub open spec fn last_allowed(acs: Seq<AttributeClass>, name: Seq<char>, n: int) -> Option<
    Seq<AttrValue>,
>
    decreases n,
{
    if n <= 0 {
        None
    } else if acs[n - 1].name@ == name && ac_allowed_rule(acs[n - 1]) is Some {
        ac_allowed_rule(acs[n - 1])
    } else {
        last_allowed(acs, name, n - 1)
    }
}

/// The id pattern in force for entity type `t`.
pub open spec fn id_rule_for(cfg: Config, t: Seq<char>) -> Option<Seq<char>> {
    last_id_rule(cfg.entity_types@, t, cfg.entity_types@.len() as int)
}

/// The required attributes in force for entity type `t`.
pub open spec fn et_required_for(cfg: Config, t: Seq<char>) -> Option<Seq<String>> {
    last_et_required(cfg.entity_types@, t, cfg.entity_types@.len() as int)
}

/// The required attributes in force for link type `t`.
pub open spec fn lt_required_for(cfg: Config, t: Seq<char>) -> Option<Seq<String>> {
    last_lt_required(cfg.link_types@, t, cfg.link_types@.len() as int)
}

/// The value pattern in force for attribute `name`.
pub open spec fn pattern_for(cfg: Config, name: Seq<char>) -> Option<(Seq<char>, Option<String>)> {
    last_pattern(cfg.attribute_classes@, name, cfg.attribute_classes@.len() as int)
}

/// The allowed values in force for attribute `name`.
pub open spec fn allowed_for(cfg: Config, name: Seq<char>) -> Option<Seq<AttrValue>> {
    last_allowed(cfg.attribute_classes@, name, cfg.attribute_classes@.len() as int)
}

proof fn lemma_id_rule_compiles(ets: Seq<EntityType>, t: Seq<char>, n: int)
    ensures
        last_id_rule(ets, t, n) matches Some(p) ==> regex_compiles(anchored(p)),
    decreases n,
{
    if n > 0 {
        lemma_id_rule_compiles(ets, t, n - 1);
    }
}

proof fn lemma_pattern_compiles(acs: Seq<AttributeClass>, name: Seq<char>, n: int)
    ensures
        last_pattern(acs, name, n) matches Some((p, _)) ==> regex_compiles(anchored(p)),
    decreases n,
{
    if n > 0 {
        lemma_pattern_compiles(acs, name, n - 1);
    }
}

fn compiles(p: &str) -> (r: bool)
    ensures
        r == regex_compiles(anchored(p@)),
{
    full_match(p, "").is_some()
}

fn id_rule_of(et: &EntityType) -> (r: Option<&String>)
    ensures
        match r {
            Some(p) => et_id_rule(*et) == Some(p@),
            None => et_id_rule(*et) is None,
        },
{
    match &et.enforce {
        Some(e) => match &e.id_pattern {
            Some(p) => if compiles(p.as_str()) {
                Some(p)
            } else {
                None
            },
            None => None,
        },
        None => None,
    }
}

fn find_id_rule<'a>(cfg: &'a Config, t: &str) -> (r: Option<&'a String>)
    ensures
        match r {
            Some(p) => id_rule_for(*cfg, t@) == Some(p@),
            None => id_rule_for(*cfg, t@) is None,
        },
{
    let ets = &cfg.entity_types;
    let mut i = ets.len();
    while i > 0
        invariant
            i <= ets@.len(),
            ets@ == cfg.entity_types@,
            last_id_rule(ets@, t@, ets@.len() as int) == last_id_rule(ets@, t@, i as int),
        decreases i,
    {
        let et = &ets[i - 1];
        if str_eq(et.name.as_str(), t) {
            if let Some(p) = id_rule_of(et) {
                return Some(p);
            }
        }
        i = i - 1;
    }
    None
}

fn required_of_et(et: &EntityType) -> (r: Option<&Vec<String>>)
    ensures
        match r {
            Some(v) => et_required_rule(*et) == Some(v@),
            None => et_required_rule(*et) is None,
        },
{
    match &et.enforce {
        Some(e) => if e.required_attributes.len() > 0 {
            Some(&e.required_attributes)
        } else {
            None
        },
        None => None,
    }
}

fn find_et_required<'a>(cfg: &'a Config, t: &str) -> (r: Option<&'a Vec<String>>)
    ensures
        match r {
            Some(v) => et_required_for(*cfg, t@) == Some(v@),
            None => et_required_for(*cfg, t@) is None,
        },
{
    let ets = &cfg.entity_types;
    let mut i = ets.len();
    while i > 0
        invariant
            i <= ets@.len(),
            ets@ == cfg.entity_types@,
            last_et_required(ets@, t@, ets@.len() as int) == last_et_required(ets@, t@, i as int),
        decreases i,
    {
        let et = &ets[i - 1];
        if str_eq(et.name.as_str(), t) {
            if let Some(v) = required_of_et(et) {
                return Some(v);
            }
        }
        i = i - 1;
    }
    None
}

fn required_of_lt(lt: &LinkType) -> (r: Option<&Vec<String>>)
    ensures
        match r {
            Some(v) => lt_required_rule(*lt) == Some(v@),
            None => lt_required_rule(*lt) is None,
        },
{
    match &lt.enforce {
        Some(e) => if e.required_attributes.len() > 0 {
            Some(&e.required_attributes)
        } else {
            None
        },
        None => None,
    }
}

fn find_lt_required<'a>(cfg: &'a Config, t: &str) -> (r: Option<&'a Vec<String>>)
    ensures
        match r {
            Some(v) => lt_required_for(*cfg, t@) == Some(v@),
            None => lt_required_for(*cfg, t@) is None,
        },
{
    let lts = &cfg.link_types;
    let mut i = lts.len();
    while i > 0
        invariant
            i <= lts@.len(),
            lts@ == cfg.link_types@,
            last_lt_required(lts@, t@, lts@.len() as int) == last_lt_required(lts@, t@, i as int),
        decreases i,
    {
        let lt = &lts[i - 1];
        if str_eq(lt.name.as_str(), t) {
            if let Some(v) = required_of_lt(lt) {
                return Some(v);
            }
        }
        i = i - 1;
    }
    None
}

fn pattern_of(ac: &AttributeClass) -> (r: Option<(&String, &Option<String>)>)
    ensures
        match r {
            Some((p, dsc)) => ac_pattern_rule(*ac) == Some((p@, *dsc)),
            None => ac_pattern_rule(*ac) is None,
        },
{
    match &ac.enforce {
        Some(e) => match &e.pattern {
            Some(p) => if compiles(p.as_str()) {
                Some((p, &e.description))
            } else {
                None
            },
            None => None,
        },
        None => None,
    }
}

fn find_pattern<'a>(cfg: &'a Config, name: &str) -> (r: Option<(&'a String, &'a Option<String>)>)
    ensures
        match r {
            Some((p, dsc)) => pattern_for(*cfg, name@) == Some((p@, *dsc)),
            None => pattern_for(*cfg, name@) is None,
        },
{
    let acs = &cfg.attribute_classes;
    let mut i = acs.len();
    while i > 0
        invariant
            i <= acs@.len(),
            acs@ == cfg.attribute_classes@,
            last_pattern(acs@, name@, acs@.len() as int) == last_pattern(acs@, name@, i as int),
        decreases i,
    {
        let ac = &acs[i - 1];
        if str_eq(ac.name.as_str(), name) {
            if let Some(r) = pattern_of(ac) {
                return Some(r);
            }
        }
        i = i - 1;
    }
    None
}

fn allowed_of(ac: &AttributeClass) -> (r: Option<&Vec<AttrValue>>)
    ensures
        match r {
            Some(v) => ac_allowed_rule(*ac) == Some(v@),
            None => ac_allowed_rule(*ac) is None,
        },
{
    match &ac.enforce {
        Some(e) => match &e.pattern {
            Some(_) => None,
            None => match &e.allowed_values {
                Some(av) => Some(av),
                None => None,
            },
        },
        None => None,
    }
}

fn find_allowed<'a>(cfg: &'a Config, name: &str) -> (r: Option<&'a Vec<AttrValue>>)
    ensures
        match r {
            Some(v) => allowed_for(*cfg, name@) == Some(v@),
            None => allowed_for(*cfg, name@) is None,
        },
{
    let acs = &cfg.attribute_classes;
    let mut i = acs.len();
    while i > 0
        invariant
            i <= acs@.len(),
            acs@ == cfg.attribute_classes@,
            last_allowed(acs@, name@, acs@.len() as int) == last_allowed(acs@, name@, i as int),
        decreases i,
    {
        let ac = &acs[i - 1];
        if str_eq(ac.name.as_str(), name) {
            if let Some(v) = allowed_of(ac) {
                return Some(v);
            }
        }
        i = i - 1;
    }
    None
}


// ── Findings ────────────────────────────────────────────────────────────────

/// The description a pattern rule reports, `pattern mismatch` when it has none.
pub open spec fn rule_description(d: Option<String>) -> Seq<char> {
    match d {
        Some(s) => s@,
        None => "pattern mismatch"@,
    }
}

/// Whether a value equals one of the allowed values.
pub open spec fn value_allowed(allowed: Seq<AttrValue>, v: AttrValue) -> bool {
    exists|j: int| 0 <= j < allowed.len() && attr_equal(#[trigger] allowed[j], v)
}

/// The value rules of the attribute classes on one attribute.
pub open spec fn attr_rule_findings(cfg: Config, e: (Seq<char>, AttrValue), loc: Seq<char>) -> Seq<
    Finding,
> {
    (match pattern_for(cfg, e.0) {
        Some((p, dsc)) => finding_if(
            !regex_finds(anchored(p), rendered(e.1)),
            ErrorType::AttributePatternMismatch,
            loc,
            "attribute '"@ + e.0 + "' value '"@ + rendered(e.1) + "': "@ + rule_description(dsc),
        ),
        None => seq![],
    }) + (match allowed_for(cfg, e.0) {
        Some(av) => finding_if(
            !value_allowed(av, e.1),
            ErrorType::AttributeValueNotAllowed,
            loc,
            "attribute '"@ + e.0 + "' value not allowed"@,
        ),
        None => seq![],
    })
}

/// The value rules over an attribute map, in map order.
pub open spec fn attrs_rule_findings(
    cfg: Config,
    m: indexmap::IndexMap<String, AttrValue>,
    loc: Seq<char>,
) -> Seq<Finding> {
    gather(|k: int| attr_rule_findings(cfg, attr_entries(m)[k], loc), attr_entries(m).len() as int)
}

/// A missing required attribute, per required name.
pub open spec fn required_findings(
    req: Seq<String>,
    m: indexmap::IndexMap<String, AttrValue>,
    loc: Seq<char>,
) -> Seq<Finding> {
    gather(
        |k: int|
            finding_if(
                !has_key(attr_entries(m), req[k]@),
                ErrorType::RequiredAttributeMissing,
                loc,
                "missing required attribute '"@ + req[k]@ + "'"@,
            ),
        req.len() as int,
    )
}

/// Enforcement findings for entity `i`: its type's id pattern, its type's
/// required attributes, and the value rules of its attributes.
pub open spec fn entity_enforce_findings(cfg: Config, d: ChartData, i: int) -> Seq<Finding> {
    let c = entity_common(d, i);
    let loc = entity_loc(d, i);
    (match id_rule_for(cfg, c.type_@) {
        Some(p) => finding_if(
            c.id@.len() > 0 && !regex_finds(anchored(p), c.id@),
            ErrorType::IdPatternMismatch,
            loc,
            "id '"@ + c.id@ + "' does not match the type pattern"@,
        ),
        None => seq![],
    }) + (match et_required_for(cfg, c.type_@) {
        Some(req) => required_findings(req, c.attributes, loc),
        None => seq![],
    }) + attrs_rule_findings(cfg, c.attributes, loc)
}

/// Enforcement findings for link `i`: its type's required attributes and the
/// value rules of its attributes.
pub open spec fn link_enforce_findings(cfg: Config, d: ChartData, i: int) -> Seq<Finding> {
    let l = d.links@[i];
    let loc = at("links"@, i);
    (match l.type_ {
        Some(t) => match lt_required_for(cfg, t@) {
            Some(req) => required_findings(req, l.attributes, loc),
            None => seq![],
        },
        None => seq![],
    }) + attrs_rule_findings(cfg, l.attributes, loc)
}

pub open spec fn enforcement_findings(cfg: Config, d: ChartData) -> Seq<Finding> {
    gather(|i: int| entity_enforce_findings(cfg, d, i), entity_count(d)) + gather(
        |i: int| link_enforce_findings(cfg, d, i),
        d.links@.len() as int,
    )
}

fn is_allowed(allowed: &Vec<AttrValue>, v: &AttrValue) -> (r: bool)
    ensures
        r == value_allowed(allowed@, *v),
{
    let n = allowed.len();
    for j in 0..n
        invariant
            n == allowed@.len(),
            forall|k: int| 0 <= k < j ==> !attr_equal(#[trigger] allowed@[k], *v),
    {
        if allowed[j].equals(v) {
            return true;
        }
    }
    false
}

fn check_attr_rule(out: &mut Vec<ValidationError>, cfg: &Config, name: &String, v: &AttrValue, loc: &str)
    ensures
        findings(final(out)@) == findings(old(out)@) + attr_rule_findings(*cfg, (name@, *v), loc@),
{
    let ghost start = findings(out@);
    proof {
        lemma_pattern_compiles(cfg.attribute_classes@, name@, cfg.attribute_classes@.len() as int);
    }
    if let Some((p, dsc)) = find_pattern(cfg, name.as_str()) {
        let s = v.render();
        if full_match(p.as_str(), s.as_str()) != Some(true) {
            let mut m = String::new();
            m.append("attribute '");
            m.append(name.as_str());
            m.append("' value '");
            m.append(s.as_str());
            m.append("': ");
            match dsc {
                Some(x) => m.append(x.as_str()),
                None => m.append("pattern mismatch"),
            }
            report(out, ErrorType::AttributePatternMismatch, loc.to_owned(), m);
        }
    }
    let ghost s1 = findings(out@);
    if let Some(av) = find_allowed(cfg, name.as_str()) {
        if !is_allowed(av, v) {
            report(out, ErrorType::AttributeValueNotAllowed, loc.to_owned(),
                cat3("attribute '", name.as_str(), "' value not allowed"));
        }
    }
    assert(findings(out@) =~= start + attr_rule_findings(*cfg, (name@, *v), loc@));
}

fn check_attr_rules(
    out: &mut Vec<ValidationError>,
    cfg: &Config,
    m: &indexmap::IndexMap<String, AttrValue>,
    loc: &str,
)
    ensures
        findings(final(out)@) == findings(old(out)@) + attrs_rule_findings(*cfg, *m, loc@),
{
    let n = attr_count(m);
    for k in 0..n
        invariant
            n == attr_entries(*m).len(),
            findings(out@) == findings(old(out)@) + gather(
                |k: int| attr_rule_findings(*cfg, attr_entries(*m)[k], loc@),
                k as int,
            ),
    {
        let (name, v) = attr_at(m, k);
        check_attr_rule(out, cfg, name, v, loc);
    }
}

fn check_required(
    out: &mut Vec<ValidationError>,
    req: &Vec<String>,
    m: &indexmap::IndexMap<String, AttrValue>,
    loc: &str,
)
    ensures
        findings(final(out)@) == findings(old(out)@) + required_findings(req@, *m, loc@),
{
    let n = req.len();
    for k in 0..n
        invariant
            n == req@.len(),
            findings(out@) == findings(old(out)@) + gather(
                |k: int|
                    finding_if(
                        !has_key(attr_entries(*m), req@[k]@),
                        ErrorType::RequiredAttributeMissing,
                        loc@,
                        "missing required attribute '"@ + req@[k]@ + "'"@,
                    ),
                k as int,
            ),
    {
        let ghost before = findings(out@);
        let a = &req[k];
        if attr_get(m, a.as_str()).is_none() {
            report(out, ErrorType::RequiredAttributeMissing, loc.to_owned(),
                cat3("missing required attribute '", a.as_str(), "'"));
        }
        assert(findings(out@) =~= before + finding_if(
            !has_key(attr_entries(*m), req@[k as int]@),
            ErrorType::RequiredAttributeMissing,
            loc@,
            "missing required attribute '"@ + req@[k as int]@ + "'"@,
        ));
    }
}

fn check_entity_enforce(out: &mut Vec<ValidationError>, cfg: &Config, d: &ChartData, i: usize)
    requires
        entity_count(*d) <= usize::MAX,
        i < entity_count(*d),
    ensures
        findings(final(out)@) == findings(old(out)@) + entity_enforce_findings(*cfg, *d, i as int),
{
    let ghost start = findings(out@);
    let c = common_at(d, i);
    let loc = loc_at(d, i);
    proof {
        lemma_id_rule_compiles(cfg.entity_types@, c.type_@, cfg.entity_types@.len() as int);
    }
    if let Some(p) = find_id_rule(cfg, c.type_.as_str()) {
        if !is_empty_str(c.id.as_str()) && full_match(p.as_str(), c.id.as_str()) != Some(true) {
            report(out, ErrorType::IdPatternMismatch, loc.clone(),
                cat3("id '", c.id.as_str(), "' does not match the type pattern"));
        }
    }
    let ghost s1 = findings(out@);
    if let Some(req) = find_et_required(cfg, c.type_.as_str()) {
        check_required(out, req, &c.attributes, loc.as_str());
    }
    let ghost s2 = findings(out@);
    check_attr_rules(out, cfg, &c.attributes, loc.as_str());
    assert(findings(out@) =~= start + entity_enforce_findings(*cfg, *d, i as int));
}

fn check_link_enforce(out: &mut Vec<ValidationError>, cfg: &Config, d: &ChartData, i: usize)
    requires
        i < d.links@.len(),
    ensures
        findings(final(out)@) == findings(old(out)@) + link_enforce_findings(*cfg, *d, i as int),
{
    let ghost start = findings(out@);
    let l = &d.links[i];
    let loc = at_index("links", i);
    if let Some(t) = &l.type_ {
        if let Some(req) = find_lt_required(cfg, t.as_str()) {
            check_required(out, req, &l.attributes, loc.as_str());
        }
    }
    let ghost s1 = findings(out@);
    check_attr_rules(out, cfg, &l.attributes, loc.as_str());
    assert(findings(out@) =~= start + link_enforce_findings(*cfg, *d, i as int));
}

/// Entities must match their type's id pattern and carry its required
/// attributes; links must carry their type's required attributes; every
/// attribute must satisfy its class's pattern or allowed values.
pub fn validate_value_enforcement(out: &mut Vec<ValidationError>, cfg: &Config, d: &ChartData)
    requires
        entity_count(*d) <= usize::MAX,
    ensures
        findings(final(out)@) == findings(old(out)@) + enforcement_findings(*cfg, *d),
{
    let ghost start = findings(out@);
    let n = count_entities(d);
    for i in 0..n
        invariant
            n == entity_count(*d),
            entity_count(*d) <= usize::MAX,
            findings(out@) == start + gather(|i: int| entity_enforce_findings(*cfg, *d, i), i as int),
    {
        check_entity_enforce(out, cfg, d, i);
    }
    let ghost s1 = findings(out@);
    let n = d.links.len();
    for i in 0..n
        invariant
            n == d.links@.len(),
            findings(out@) == s1 + gather(|i: int| link_enforce_findings(*cfg, *d, i), i as int),
    {
        check_link_enforce(out, cfg, d, i);
    }
    assert(findings(out@) =~= start + enforcement_findings(*cfg, *d));
}

} // verus!
