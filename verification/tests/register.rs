use anxwritter::entities::{EntityRef, Icon};
use anxwritter::enums::DotStyle;
use anxwritter::models::{DateTimeFormat, Strength, StrengthCollection};
use anxwritter::register::{setup_datetime_formats, setup_strengths, string_ids};
use anxwritter::enums::AttributeType;
use anxwritter::ids::IdCounter;
use anxwritter::input::Config;
use anxwritter::maps::{mapping_insert, mapping_new, string_set_len, string_set_new};
use anxwritter::models::{AttributeClass, EntityType, Link, LinkType};
use anxwritter::register::{
    ensure_strength, register_attribute_class, register_connection, register_entity_type, register_geo_class,
    display_targets, may_replace_label, register_display_class, lookup_attrs, register_link, register_link_type, resolve_attrs, resolve_entity, Tables, register_remaining_attribute_classes, register_remaining_entity_types,
    register_remaining_link_types, file_attribute_classes, file_entity_types, file_link_types, Connections, Registry,
};
use anxwritter::semantic::SemanticResolver;
use anxwritter::value::AttrValue;

#[test]
fn strengths_register_once_with_solid_dots() {
    let mut reg = Registry::new();
    let mut ids = IdCounter::new();
    assert_eq!(ensure_strength(&mut reg, &mut ids, None, None), "Default");
    assert_eq!(ensure_strength(&mut reg, &mut ids, None, Some("Default")), "Default");
    assert_eq!(ensure_strength(&mut reg, &mut ids, Some("Weak"), None), "Weak");
    let e = reg.entries();
    assert_eq!(e.len(), 2);
    assert_eq!((e[0].id.as_str(), e[0].dot_token.as_str()), ("ID1", "DotStyleSolid"));
    assert_eq!(e[1].id, "ID2");
    assert_eq!(ids.count(), 2);
}

#[test]
fn link_types_are_auto_created_and_reused() {
    let mut reg = Registry::new();
    let mut ids = IdCounter::new();
    let mut res = SemanticResolver::new(&Config::default());
    let cfg = LinkType { name: "Call".into(), semantic_type: Some("Link".into()), ..Default::default() };
    let mut pending = file_link_types(vec![cfg]);
    assert_eq!(register_link_type(&mut reg, &mut ids, &mut res, &mut pending, "Call"), "ID1");
    assert_eq!(register_link_type(&mut reg, &mut ids, &mut res, &mut pending, "Knows"), "ID2");
    assert_eq!(register_link_type(&mut reg, &mut ids, &mut res, &mut pending, "Call"), "ID1");
    assert!(pending.is_empty());
    let e = reg.entries();
    assert_eq!(e.len(), 2);
    assert!(e[0].semantic_guid.is_some());
    assert_eq!(e[1].cfg.name, "Knows");
    assert_eq!(e[1].semantic_guid, None);
    assert_eq!(reg.id_of("Knows"), Some("ID2".to_string()));
}

#[test]
fn entity_types_need_a_name_and_a_configuration() {
    let mut reg = Registry::new();
    let mut ids = IdCounter::new();
    let mut res = SemanticResolver::new(&Config::default());
    let mut names = mapping_new();
    mapping_insert(&mut names, "star".into(), "anxW_star".into());
    let mut used = string_set_new();
    let cfg = EntityType { name: "Person".into(), icon_file: Some("star".into()), ..Default::default() };
    let mut pending = file_entity_types(vec![cfg]);
    assert_eq!(register_entity_type(&mut reg, &mut ids, &mut res, &names, &mut used, &mut pending, ""), None);
    assert_eq!(register_entity_type(&mut reg, &mut ids, &mut res, &names, &mut used, &mut pending, "Bare"), None);
    assert_eq!(
        register_entity_type(&mut reg, &mut ids, &mut res, &names, &mut used, &mut pending, "Person"),
        Some("ID1".to_string())
    );
    assert_eq!(
        register_entity_type(&mut reg, &mut ids, &mut res, &names, &mut used, &mut pending, "Person"),
        Some("ID1".to_string())
    );
    assert_eq!(reg.entries()[0].cfg.icon_file.as_deref(), Some("anxW_star"));
    assert_eq!(string_set_len(&used), 1);
    assert_eq!(ids.count(), 1);
}

#[test]
fn attribute_classes_take_their_type_from_config_or_value() {
    let mut reg = Registry::new();
    let mut ids = IdCounter::new();
    let mut res = SemanticResolver::new(&Config::default());
    let names = mapping_new();
    let mut used = string_set_new();
    let cfg = AttributeClass { name: "When".into(), type_: Some(AttributeType::Datetime), ..Default::default() };
    let mut p = file_attribute_classes(vec![cfg]);
    let a = register_attribute_class(&mut reg, &mut ids, &mut res, &names, &mut used, &mut p, "When", &AttrValue::Int(1));
    let b = register_attribute_class(&mut reg, &mut ids, &mut res, &names, &mut used, &mut p, "Armed", &AttrValue::Bool(true));
    let c = register_attribute_class(&mut reg, &mut ids, &mut res, &names, &mut used, &mut p, "When", &AttrValue::Bool(true));
    assert_eq!((a.as_str(), b.as_str(), c.as_str()), ("ID1", "ID2", "ID1"));
    let e = reg.entries();
    assert_eq!(e[0].type_token, "AttTime");
    assert_eq!(e[1].type_token, "AttFlag");
    let g = register_geo_class(&mut reg, &mut ids, &mut res, "Latitude");
    assert_eq!(g, "ID3");
    assert_eq!(reg.entries()[2].type_token, "AttNumber");
    assert_eq!(reg.entries()[2].cfg.show_value, Some(true));
}

#[test]
fn connection_styles_are_deduplicated() {
    let mut conns = Connections::new();
    let mut ids = IdCounter::new();
    let plain = Link::default();
    assert_eq!(register_connection(&mut conns, &mut ids, &plain), None);
    let mut a = Link::default();
    a.multiplicity = Some("single".into());
    let mut b = Link::default();
    b.fan_out = Some(2);
    assert_eq!(register_connection(&mut conns, &mut ids, &a), Some("ID1".to_string()));
    assert_eq!(register_connection(&mut conns, &mut ids, &b), Some("ID2".to_string()));
    assert_eq!(register_connection(&mut conns, &mut ids, &a), Some("ID1".to_string()));
    assert_eq!(conns.entries().len(), 2);
    assert_eq!(conns.entries()[1].fan_out, Some(2));
}

#[test]
fn configured_strengths_get_a_fallback_default() {
    let sc = StrengthCollection {
        default: None,
        items: vec![
            Strength { name: "A".into(), dot_style: DotStyle::Dashed },
            Strength { name: "A".into(), dot_style: DotStyle::Solid },
            Strength { name: "B".into(), dot_style: DotStyle::Solid },
        ],
    };
    let mut reg = Registry::new();
    let mut ids = IdCounter::new();
    let d = setup_strengths(&mut reg, &mut ids, &Some(sc));
    assert_eq!(d.as_deref(), Some("-"));
    let got: Vec<(String, String, String)> =
        reg.entries().iter().map(|e| (e.name.clone(), e.id.clone(), e.dot_token.clone())).collect();
    assert_eq!(
        got,
        vec![
            ("-".to_string(), "ID1".to_string(), "DotStyleSolid".to_string()),
            ("A".to_string(), "ID2".to_string(), "DotStyleDashed".to_string()),
            ("B".to_string(), "ID3".to_string(), "DotStyleSolid".to_string()),
        ]
    );
    let mut reg = Registry::new();
    let mut ids = IdCounter::new();
    assert_eq!(setup_strengths(&mut reg, &mut ids, &None).as_deref(), Some("Default"));
    assert_eq!(reg.entries().len(), 1);
    let named = StrengthCollection { default: Some("X".into()), items: vec![] };
    let mut reg = Registry::new();
    assert_eq!(setup_strengths(&mut reg, &mut ids, &Some(named)).as_deref(), Some("Default"));
    assert_eq!(reg.entries()[0].id, "ID2");
}

#[test]
fn grade_strings_and_formats_mint_ids_in_order() {
    let mut ids = IdCounter::new();
    let f = setup_datetime_formats(&mut ids, &vec![DateTimeFormat { name: "Short".into(), format: "dd".into() }]);
    assert_eq!((f[0].id.as_str(), f[0].name.as_str(), f[0].format.as_str()), ("ID1", "Short", "dd"));
    let g = string_ids(&mut ids, vec!["x".into(), "y".into()]);
    assert_eq!(g.ids, vec!["ID2", "ID3"]);
    assert_eq!(g.items, vec!["x", "y"]);
}

#[test]
fn unreferenced_configured_types_are_registered_last_in_order() {
    let mut ids = IdCounter::new();
    let mut res = SemanticResolver::new(&Config::default());
    let names = mapping_new();
    let mut used = string_set_new();
    let mut ets = Registry::new();
    let mut pe = file_entity_types(vec![
        EntityType { name: "A".into(), ..Default::default() },
        EntityType { name: "B".into(), ..Default::default() },
        EntityType { name: "A".into(), representation: Some("box".into()), ..Default::default() },
    ]);
    assert_eq!(register_entity_type(&mut ets, &mut ids, &mut res, &names, &mut used, &mut pe, "B"), Some("ID1".to_string()));
    register_remaining_entity_types(&mut ets, &mut pe, &mut ids, &mut res, &names, &mut used);
    let got: Vec<(String, String)> = ets.entries().iter().map(|e| (e.name.clone(), e.id.clone())).collect();
    assert_eq!(got, vec![("B".to_string(), "ID1".to_string()), ("A".to_string(), "ID2".to_string())]);
    assert_eq!(ets.entries()[1].cfg.representation.as_deref(), Some("box"));
    assert!(pe.is_empty());
    let mut lts = Registry::new();
    let mut pl = file_link_types(vec![LinkType { name: "Call".into(), ..Default::default() }]);
    register_remaining_link_types(&mut lts, &mut pl, &mut ids, &mut res);
    assert_eq!(lts.entries()[0].id, "ID3");
    let mut acs = Registry::new();
    let mut pa = file_attribute_classes(vec![AttributeClass { name: "Note".into(), ..Default::default() }]);
    register_remaining_attribute_classes(&mut acs, &mut pa, &mut ids, &mut res, &names, &mut used);
    assert_eq!((acs.entries()[0].id.as_str(), acs.entries()[0].type_token.as_str()), ("ID4", "AttText"));
}

#[test]
fn attribute_lists_read_registered_class_ids() {
    let mut reg = Registry::new();
    let mut ids = IdCounter::new();
    let mut res = SemanticResolver::new(&Config::default());
    let names = mapping_new();
    let mut used = string_set_new();
    let mut p = file_attribute_classes(vec![]);
    register_attribute_class(&mut reg, &mut ids, &mut res, &names, &mut used, &mut p, "Phone", &AttrValue::Int(1));
    let mut attrs = indexmap::IndexMap::new();
    attrs.insert("Phone".to_string(), AttrValue::Int(5550100));
    attrs.insert("Unknown".to_string(), AttrValue::Bool(true));
    let r = lookup_attrs(&reg, &attrs);
    assert_eq!(r.len(), 2);
    assert_eq!((r[0].class.as_str(), r[0].reference.as_str(), r[0].value.as_deref()), ("Phone", "ID1", Some("5550100")));
    assert_eq!((r[1].class.as_str(), r[1].reference.as_str(), r[1].value.as_deref()), ("Unknown", "", Some("true")));
}

#[test]
fn attribute_lists_register_new_classes_in_order() {
    let mut reg = Registry::new();
    let mut ids = IdCounter::new();
    let mut res = SemanticResolver::new(&Config::default());
    let names = mapping_new();
    let mut used = string_set_new();
    let mut p = file_attribute_classes(vec![AttributeClass { name: "Age".into(), type_: Some(AttributeType::Number), ..Default::default() }]);
    let mut attrs = indexmap::IndexMap::new();
    attrs.insert("Name".to_string(), AttrValue::Str("Ann".into()));
    attrs.insert("Age".to_string(), AttrValue::Int(41));
    let r = resolve_attrs(&mut reg, &mut p, &mut ids, &mut res, &names, &mut used, &attrs);
    let got: Vec<(&str, &str, Option<&str>)> =
        r.iter().map(|a| (a.class.as_str(), a.reference.as_str(), a.value.as_deref())).collect();
    assert_eq!(got, vec![("Name", "ID1", Some("Ann")), ("Age", "ID2", Some("41"))]);
    assert_eq!(reg.entries()[1].type_token, "AttNumber");
    let again = resolve_attrs(&mut reg, &mut p, &mut ids, &mut res, &names, &mut used, &attrs);
    assert_eq!(again[1].reference, "ID2");
    assert_eq!(ids.count(), 2);
}

fn tables() -> Tables {
    let et = vec![EntityType { name: "Person".into(), ..Default::default() }];
    Tables::new(SemanticResolver::new(&Config::default()), et, vec![], vec![], mapping_new(), mapping_new())
}

#[test]
fn entity_resolution_mints_the_item_id_before_its_type_and_classes() {
    let mut t = tables();
    let mut icon = Icon::new("alice", "Person");
    icon.common.label = Some("Alice".into());
    icon.common.attributes.insert("Phone".into(), AttrValue::Str("555".into()));
    let g = anxwritter::models::GradeCollection::default();
    let geo = Some(("ID9".to_string(), "1.5".to_string(), "ID10".to_string(), "2.5".to_string()));
    let (re, shade) = resolve_entity(&mut t, &EntityRef::Icon(&icon), 1, (10, 20), geo, Some((7, 0)), Some("crown"), &vec![], &g, &g, &g);
    assert_eq!(re.ci_id, "ID1");
    assert_eq!(re.etype_ref.as_deref(), Some("ID2"));
    assert_eq!((re.attrs[0].class.as_str(), re.attrs[0].reference.as_str()), ("Phone", "ID3"));
    assert_eq!((re.attrs[1].class.as_str(), re.attrs[1].value.as_deref()), ("Latitude", Some("1.5")));
    assert_eq!(re.attrs[2].reference, "ID10");
    assert_eq!((re.x, re.y, re.int_id), (10, 20, 1));
    assert_eq!(re.label, "Alice");
    assert_eq!((re.auto_shade, re.label_bg, re.label_fg, shade), (Some(7), Some(7), Some(0), Some(7)));
    assert_eq!(re.icon_override.as_deref(), Some("crown"));
    let other = Icon::new("bob", "Unconfigured");
    let (rb, _) = resolve_entity(&mut t, &EntityRef::Icon(&other), 2, (0, 0), None, None, None, &vec![], &g, &g, &g);
    assert_eq!(rb.ci_id, "ID4");
    assert_eq!(rb.etype_ref, None);
}

#[test]
fn link_registration_order_is_type_strength_connection_item() {
    let mut t = tables();
    let mut l = Link::default();
    l.type_ = Some("Call".into());
    l.multiplicity = Some("single".into());
    l.attributes.insert("Duration".into(), AttrValue::Int(5));
    let m = register_link(&mut t, &l, None, None, 20, (Some(3), None));
    assert_eq!(m.ci_id, "ID4");
    assert_eq!(m.conn_ref.as_deref(), Some("ID3"));
    assert_eq!((m.offset, m.int_width, m.int_color), (20, Some(3), None));
    assert_eq!(t.link_types.entries()[0].id, "ID1");
    assert_eq!(t.strengths.entries()[0].name, "Default");
    assert_eq!(t.classes.entries()[0].id, "ID5");
    l.offset = Some(-5);
    let m2 = register_link(&mut t, &l, None, None, 20, (None, None));
    assert_eq!((m2.ci_id.as_str(), m2.conn_ref.as_deref(), m2.offset), ("ID6", Some("ID3"), -5));
}

#[test]
fn display_entries_target_and_replace_as_configured() {
    let mut reg = Registry::new();
    let mut ids = IdCounter::new();
    assert_eq!(register_display_class(&mut reg, &mut ids, "Shown"), "ID1");
    assert_eq!(register_display_class(&mut reg, &mut ids, "Shown"), "ID1");
    let e = &reg.entries()[0];
    assert_eq!((e.type_token.as_str(), e.cfg.visible, e.cfg.show_value), ("AttText", Some(true), Some(true)));
    assert!(display_targets(None, None, false, Some("Person")));
    assert!(!display_targets(Some("link"), None, false, Some("Person")));
    assert!(display_targets(Some("link"), Some("Call"), true, Some("Call")));
    assert!(!display_targets(None, Some("Call"), true, None));
    assert!(may_replace_label("a", Some("a"), false));
    assert!(!may_replace_label("Alice", Some("a"), false));
    assert!(may_replace_label("Alice", Some("a"), true));
    assert!(may_replace_label("", None, false));
    assert!(!may_replace_label("x", None, false));
}
