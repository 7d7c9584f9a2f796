use anxwritter::color::ColorValue;
use anxwritter::entities::{Box, Entity, EntityRef, Icon, Label, ThemeLine};
use anxwritter::input::ChartData;
use anxwritter::models::{
    Card, CategoricalCfg, CategoricalStyleCfg, GradeRef, IconMapCfg, IconRule, Link,
};
use anxwritter::sugar::EntityExt;
use anxwritter::transforms::{apply_icon_map, categorical_style};
use anxwritter::value::AttrValue;
use indexmap::IndexMap;

fn s(x: &str) -> AttrValue {
    AttrValue::Str(x.to_string())
}

#[test]
fn fluent_entity_and_link_setters() {
    let e = Icon::new("alice", "Person")
        .label("Alice")
        .attr("Phone", s("555-0100"))
        .attr("Age", AttrValue::Int(30))
        .attr("Phone", s("555-0199"))
        .position(30, 80)
        .date("2026-01-05")
        .grade_one(GradeRef::Index(1))
        .card(Card::new("Sighting"))
        .color(ColorValue::Str("Red".into()))
        .icon_name("crown");
    assert_eq!(e.common.id, "alice");
    assert_eq!(e.common.type_, "Person");
    assert_eq!(e.common.label.as_deref(), Some("Alice"));
    let keys: Vec<&String> = e.common.attributes.keys().collect();
    assert_eq!(keys, vec!["Phone", "Age"]);
    assert!(matches!(e.common.attributes.get("Phone"), Some(AttrValue::Str(v)) if v == "555-0199"));
    assert_eq!((e.common.x, e.common.y), (Some(30), Some(80)));
    assert_eq!(e.common.cards.len(), 1);
    assert_eq!(e.icon.as_deref(), Some("crown"));

    let l = Link::new("alice", "bob")
        .link_type("Call")
        .directed()
        .attr("weight", AttrValue::Int(3))
        .line_width(2)
        .multiplicity("single");
    assert_eq!((l.from_id.as_str(), l.to_id.as_str()), ("alice", "bob"));
    assert_eq!(l.type_.as_deref(), Some("Call"));
    assert_eq!(l.arrow.as_deref(), Some("->"));
    assert_eq!(l.line_width, Some(2));
    assert_eq!(l.multiplicity.as_deref(), Some("single"));
    assert_eq!(l.attributes.len(), 1);
    assert!(l.label.is_none() && l.strength.is_none());
}

#[test]
fn chart_data_routes_entities_by_representation() {
    let mut d = ChartData::default();
    d.add_icon(Icon::new("a", "P"))
        .add_box(Box::new("b", "Org"))
        .add(Entity::Label(Label::new("l", "Note")))
        .add(Entity::ThemeLine(ThemeLine::new("t", "Timeline")))
        .add_link(Link::new("a", "b"))
        .add_loose_card(Card::new("loose"));
    assert_eq!(d.entities.icons.len(), 1);
    assert_eq!(d.entities.boxes.len(), 1);
    assert_eq!(d.entities.labels.len(), 1);
    assert_eq!(d.entities.theme_lines.len(), 1);
    assert_eq!(d.entities.circles.len(), 0);
    assert_eq!(d.links.len(), 1);
    assert_eq!(d.loose_cards.len(), 1);
}

fn style(strength: &str) -> CategoricalStyleCfg {
    CategoricalStyleCfg { strength: Some(strength.into()), ..Default::default() }
}

#[test]
fn categorical_style_matches_folded_value_or_default() {
    let mut styles = IndexMap::new();
    styles.insert(" High ".to_string(), style("Bold"));
    styles.insert("low".to_string(), style("Dotted"));
    let cfg = CategoricalCfg {
        attribute: Some("Risk".into()),
        styles,
        default: Some(style("Plain")),
        ..Default::default()
    };
    let mut attrs = IndexMap::new();
    attrs.insert("Risk".to_string(), s("HIGH"));
    assert_eq!(categorical_style(&attrs, &cfg).and_then(|st| st.strength.as_deref()), Some("Bold"));
    attrs.insert("Risk".to_string(), s("medium"));
    assert_eq!(categorical_style(&attrs, &cfg).and_then(|st| st.strength.as_deref()), Some("Plain"));
    let none: IndexMap<String, AttrValue> = IndexMap::new();
    assert_eq!(categorical_style(&none, &cfg).and_then(|st| st.strength.as_deref()), Some("Plain"));
    let sensitive = CategoricalCfg { case_sensitive: Some(true), ..cfg };
    attrs.insert("Risk".to_string(), s("HIGH"));
    assert_eq!(
        categorical_style(&attrs, &sensitive).and_then(|st| st.strength.as_deref()),
        Some("Plain")
    );
    let no_attr = CategoricalCfg::default();
    assert!(categorical_style(&attrs, &no_attr).is_none());
}

#[test]
fn icon_map_prefers_id_rules_and_skips_non_icon_entities() {
    let mut by_status = IndexMap::new();
    by_status.insert("active".to_string(), "star".to_string());
    let attr_rule = IconRule {
        attribute_name: Some("Status".into()),
        mapping: by_status,
        default: Some("dot".into()),
        default_when_absent: Some("blank".into()),
        ..Default::default()
    };
    let mut by_id = IndexMap::new();
    by_id.insert("b".to_string(), "crown".to_string());
    let id_rule = IconRule { match_: Some("ID".into()), mapping: by_id, ..Default::default() };
    let cfg = IconMapCfg { rules: vec![id_rule, attr_rule] };

    let a = Icon::new("a", "P").attr("status ", s(" Active"));
    let b = Icon::new("b", "P").attr("Status", s("active"));
    let c = Icon::new("c", "P");
    let d = Icon::new("d", "P").attr("Status", s("retired"));
    let bx = Box::new("x", "P").attr("Status", s("active"));
    let ents = vec![
        EntityRef::Icon(&a),
        EntityRef::Icon(&b),
        EntityRef::Icon(&c),
        EntityRef::Icon(&d),
        EntityRef::Box(&bx),
    ];
    let out = apply_icon_map(&ents, &cfg);
    let got: Vec<(&str, &str)> = out.iter().map(|(k, v)| (k.as_str(), v.as_str())).collect();
    assert_eq!(got, vec![("a", "star"), ("b", "crown"), ("c", "blank"), ("d", "dot")]);
    assert!(apply_icon_map(&ents, &IconMapCfg::default()).is_empty());
}

use anxwritter::transforms::{
    display_values, group_thousands, source_metas, template_parts, TemplatePart,
};
use anxwritter::models::DisplaySource;

#[test]
fn template_splits_literals_fields_and_escaped_braces() {
    let parts = template_parts("{{x}} {name} ({ age : ,.1f}){tail");
    let mut text = String::new();
    let mut fields = Vec::new();
    for p in &parts {
        match p {
            TemplatePart::Literal(c) => text.push(*c),
            TemplatePart::Field(k, s) => {
                text.push('#');
                fields.push((k.clone(), s.clone()));
            }
        }
    }
    assert_eq!(text, "{x} # (#)#");
    assert_eq!(
        fields,
        vec![
            ("name".to_string(), "".to_string()),
            ("age".to_string(), " ,.1f".to_string()),
            ("tail".to_string(), "".to_string()),
        ]
    );
    // A lone closing brace is literal.
    assert!(matches!(template_parts("a}b")[1], TemplatePart::Literal('}')));
}

#[test]
fn display_values_follow_missing_policy() {
    let src = |attr: &str, alias: Option<&str>, missing: Option<&str>| DisplaySource {
        attribute: Some(attr.into()),
        alias: alias.map(|a| a.into()),
        missing: missing.map(|m| m.into()),
        placeholder: Some("?".into()),
    };
    let mut lookup = IndexMap::new();
    lookup.insert("Name".to_string(), "Alice".to_string());
    let metas = source_metas(&vec![src("Name", Some("n"), None), src("Age", None, Some("placeholder"))]);
    let v = display_values(&lookup, &metas).expect("values");
    let got: Vec<(&str, &str)> = v.iter().map(|(k, x)| (k.as_str(), x.as_str())).collect();
    assert_eq!(got, vec![("n", "Alice"), ("Age", "?")]);
    let skipping = source_metas(&vec![src("Age", None, None)]);
    assert!(display_values(&lookup, &skipping).is_none());
    let erroring = source_metas(&vec![src("Age", None, Some("error"))]);
    assert!(display_values(&lookup, &erroring).is_none());
}

#[test]
fn thousands_grouping() {
    assert_eq!(group_thousands("1234567", ","), "1,234,567");
    assert_eq!(group_thousands("123", ","), "123");
    assert_eq!(group_thousands("1234", "."), "1.234");
    assert_eq!(group_thousands("", ","), "");
}
