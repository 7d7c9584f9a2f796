//! Chart validation. Every rule group appends its findings, in input order,
//! to one list, so the caller sees every problem at once.
use vstd::prelude::*;

pub mod common;
pub mod defs;
pub mod chart;
pub mod links;
pub mod settings;
pub mod enforce;
pub mod display;

use crate::error::ValidationError;
use crate::input::{ChartData, Config};
use crate::report::{findings, gather, Finding};
use crate::validation::chart::{entities_findings, entity_count, validate_entities};
use crate::validation::defs::{
    behaviour_findings, custom_icons_include_findings, dtf_findings, enforce_description_findings,
    palette_findings, semantic_findings, type_def_findings, validate_attribute_class_behaviours,
    validate_custom_icons_include, validate_datetime_formats, validate_enforce_descriptions,
    validate_palettes, validate_semantic_types, validate_type_defs, validate_validators_config,
    validator_findings,
};
use crate::validation::display::{display_findings, validate_display};
use crate::validation::enforce::{enforcement_findings, validate_value_enforcement};
use crate::validation::links::{
    connection_findings, legend_item_findings, links_findings, loose_card_findings,
    strength_default_findings, validate_connection_conflicts, validate_legend_items, validate_links,
    validate_loose_cards, validate_strength_default,
};
use crate::validation::settings::{
    geo_map_findings, icon_map_findings, styling_findings, validate_geo_map, validate_icon_map,
    validate_styling,
};

verus! {

/// The rules on definitions and chart items: type definitions, entities,
/// links, legend items and the strength default.
pub open spec fn item_rule_findings(cfg: Config, d: ChartData) -> Seq<Finding> {
    type_def_findings(cfg) + entities_findings(cfg, d) + links_findings(cfg, d) + gather(
        |i: int| legend_item_findings(cfg, i),
        cfg.legend_items@.len() as int,
    ) + strength_default_findings(cfg)
}

/// The rules on the config layer: behaviours, datetime formats, semantic
/// types, geo and icon maps, styling, palettes.
pub open spec fn config_rule_findings(cfg: Config, d: ChartData) -> Seq<Finding> {
    gather(|i: int| behaviour_findings(cfg.attribute_classes@, i), cfg.attribute_classes@.len() as int)
        + gather(|i: int| dtf_findings(cfg.datetime_formats@, i), cfg.datetime_formats@.len() as int)
        + semantic_findings(cfg) + geo_map_findings(cfg) + icon_map_findings(cfg, d) + styling_findings(
        cfg,
        d,
    ) + gather(|i: int| palette_findings(cfg, i), cfg.palettes@.len() as int)
}

/// The remaining rules: value enforcement, validators, custom icon
/// inclusion, loose cards, connection styles, display entries, enforce
/// descriptions.
pub open spec fn further_rule_findings(cfg: Config, d: ChartData) -> Seq<Finding> {
    enforcement_findings(cfg, d) + gather(|i: int| validator_findings(cfg, i), cfg.validators@.len() as int)
        + custom_icons_include_findings(cfg) + gather(
        |i: int| loose_card_findings(d, i),
        d.loose_cards@.len() as int,
    ) + gather(|i: int| connection_findings(d.links@, i), d.links@.len() as int) + display_findings(cfg)
        + enforce_description_findings(cfg)
}

/// Everything `validate` reports, in order.
pub open spec fn validation_findings(cfg: Config, d: ChartData) -> Seq<Finding> {
    item_rule_findings(cfg, d) + config_rule_findings(cfg, d) + further_rule_findings(cfg, d)
}

fn run_item_rules(out: &mut Vec<ValidationError>, config: &Config, data: &ChartData)
    requires
        entity_count(*data) <= usize::MAX,
    ensures
        findings(final(out)@) == findings(old(out)@) + item_rule_findings(*config, *data),
{
    let ghost start = findings(out@);
    validate_type_defs(out, config);
    validate_entities(out, config, data);
    validate_links(out, config, data);
    validate_legend_items(out, config);
    validate_strength_default(out, config);
    assert(findings(out@) =~= start + item_rule_findings(*config, *data));
}

fn run_config_rules(out: &mut Vec<ValidationError>, config: &Config, data: &ChartData)
    requires
        entity_count(*data) <= usize::MAX,
    ensures
        findings(final(out)@) == findings(old(out)@) + config_rule_findings(*config, *data),
{
    let ghost start = findings(out@);
    validate_attribute_class_behaviours(out, config);
    validate_datetime_formats(out, config);
    validate_semantic_types(out, config);
    validate_geo_map(out, config);
    validate_icon_map(out, config, data);
    validate_styling(out, config, data);
    validate_palettes(out, config);
    assert(findings(out@) =~= start + config_rule_findings(*config, *data));
}

fn run_further_rules(out: &mut Vec<ValidationError>, config: &Config, data: &ChartData)
    requires
        entity_count(*data) <= usize::MAX,
    ensures
        findings(final(out)@) == findings(old(out)@) + further_rule_findings(*config, *data),
{
    let ghost start = findings(out@);
    validate_value_enforcement(out, config, data);
    validate_validators_config(out, config);
    validate_custom_icons_include(out, config);
    validate_loose_cards(out, data);
    validate_connection_conflicts(out, &data.links);
    validate_display(out, config);
    validate_enforce_descriptions(out, config);
    assert(findings(out@) =~= start + further_rule_findings(*config, *data));
}

/// Validate a chart (one merged config layer and its data) and return every
/// finding, in rule-group order and, within a group, in input order. The
/// chart's entities must be countable (their total fits in `usize`).
pub fn validate(config: &Config, data: &ChartData) -> (out: Vec<ValidationError>)
    requires
        entity_count(*data) <= usize::MAX,
    ensures
        findings(out@) == validation_findings(*config, *data),
{
    let mut out: Vec<ValidationError> = Vec::new();
    assert(findings(out@) =~= Seq::<Finding>::empty());
    run_item_rules(&mut out, config, data);
    run_config_rules(&mut out, config, data);
    run_further_rules(&mut out, config, data);
    assert(findings(out@) =~= validation_findings(*config, *data));
    out
}

} // verus!
