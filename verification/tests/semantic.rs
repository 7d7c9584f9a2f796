use anxwritter::entities::{collect_entity_refs, EntityRef, Icon, Label};
use anxwritter::input::ChartData;
use anxwritter::input::Config;
use anxwritter::interop::{generate_guid, ROOT_ABSTRACT_NUM, ROOT_ENTITY, ROOT_LINK};
use anxwritter::layout::{edge_index_pairs, Lcg};
use anxwritter::models::{SemanticEntity, SemanticLink, SemanticProperty};
use anxwritter::semantic::SemanticResolver;

fn suspect_config() -> Config {
    Config {
        semantic_entities: vec![SemanticEntity {
            name: "Suspect".into(),
            kind_of: "Entity".into(),
            description: Some("under investigation".into()),
            ..Default::default()
        }],
        ..Default::default()
    }
}

#[test]
fn semantic_type_resolves_to_its_deterministic_guid() {
    let mut r = SemanticResolver::new(&suspect_config());
    let g = r.resolve_type_name(Some("Suspect"));
    assert_eq!(g.as_deref(), Some("guidCEE90BAD-62EE-5F57-8F82-E528A0E54AF4"));
}

#[test]
fn unknown_and_literal_type_names() {
    let mut r = SemanticResolver::new(&suspect_config());
    assert_eq!(r.resolve_type_name(None), None);
    assert_eq!(r.resolve_type_name(Some("")), None);
    assert_eq!(r.resolve_type_name(Some("Nobody")).as_deref(), Some("Nobody"));
    assert_eq!(r.resolve_type_name(Some("guidABC")).as_deref(), Some("guidABC"));
}

#[test]
fn catalogue_lists_ancestors_first() {
    let mut r = SemanticResolver::new(&suspect_config());
    r.resolve_type_name(Some("Suspect"));
    r.resolve_type_name(Some("Suspect"));
    let (types, props) = r.build_catalogue().expect("catalogue");
    let names: Vec<&str> = types.iter().map(|t| t.name.as_str()).collect();
    assert_eq!(names, vec!["Entity", "Suspect"]);
    assert_eq!(types[0].guid, ROOT_ENTITY);
    assert!(types[0].abstract_);
    assert_eq!(types[1].parent_guid.as_deref(), Some(ROOT_ENTITY));
    assert_eq!(types[1].description.as_deref(), Some("under investigation"));
    assert!(props.is_empty());
}

#[test]
fn empty_resolver_has_no_catalogue() {
    let r = SemanticResolver::new(&Config::default());
    assert!(r.build_catalogue().is_none());
}

#[test]
fn link_and_property_hierarchies() {
    let config = Config {
        semantic_links: vec![SemanticLink {
            name: "Called".into(),
            kind_of: "Link".into(),
            ..Default::default()
        }],
        semantic_properties: vec![
            SemanticProperty {
                name: "Score".into(),
                base_property: "Abstract Number".into(),
                ..Default::default()
            },
            SemanticProperty {
                name: "Risk".into(),
                base_property: "Score".into(),
                guid: Some("guidFIXED".into()),
                ..Default::default()
            },
        ],
        ..Default::default()
    };
    let mut r = SemanticResolver::new(&config);
    assert_eq!(
        r.resolve_type_name(Some("Called")),
        Some(generate_guid("link:Called"))
    );
    assert_eq!(r.resolve_property_name(Some("Risk")).as_deref(), Some("guidFIXED"));
    let (types, props) = r.build_catalogue().expect("catalogue");
    let tn: Vec<&str> = types.iter().map(|t| t.name.as_str()).collect();
    assert_eq!(tn, vec!["Link", "Called"]);
    assert_eq!(types[0].guid, ROOT_LINK);
    let pn: Vec<&str> = props.iter().map(|t| t.name.as_str()).collect();
    assert_eq!(pn, vec!["Abstract Number", "Score", "Risk"]);
    assert_eq!(props[0].guid, ROOT_ABSTRACT_NUM);
    assert_eq!(props[2].parent_guid, Some(generate_guid("property:Score")));
}

#[test]
fn geo_properties_resolve_to_standard_guids() {
    let mut r = SemanticResolver::new(&Config::default());
    r.register_geo_properties();
    assert_eq!(
        r.resolve_property_name(Some("Latitude")).as_deref(),
        Some("guid5304A03B-FE47-4406-91E7-0D49EC8409A6")
    );
    let (_, props) = r.build_catalogue().expect("catalogue");
    let pn: Vec<&str> = props.iter().map(|t| t.name.as_str()).collect();
    assert_eq!(pn, vec!["Abstract Number", "Grid Reference", "Latitude", "Longitude"]);
}

#[test]
fn edge_pairs_drop_loops_dangling_and_reverse_duplicates() {
    let nodes: Vec<String> = ["a", "b", "c", "a"].iter().map(|s| s.to_string()).collect();
    let e = |x: &str, y: &str| (x.to_string(), y.to_string());
    let edges = vec![e("a", "b"), e("b", "a"), e("a", "a"), e("c", "zz"), e("c", "b")];
    // "a" resolves to its last position (3).
    assert_eq!(edge_index_pairs(&nodes, &edges), vec![(3, 1), (2, 1)]);
}

#[test]
fn generator_is_deterministic() {
    let mut g = Lcg::new(42);
    let mut h = Lcg::new(42);
    let a = g.next_u64();
    assert_eq!(a, h.next_u64());
    let s0 = 42u64.wrapping_mul(2862933555777941757).wrapping_add(3037000493);
    assert_eq!(a, s0.wrapping_mul(6364136223846793005).wrapping_add(1442695040888963407));
    assert_ne!(g.next_u64(), a);
}

#[test]
fn entity_refs_follow_group_order() {
    let mut d = ChartData::default();
    d.add_label(Label::new("l", "N")).add_box(anxwritter::entities::Box::new("b", "O")).add_icon(Icon::new("i", "P"));
    let ids: Vec<&str> = collect_entity_refs(&d).iter().map(|e| e.common().id.as_str()).collect();
    assert_eq!(ids, vec!["i", "b", "l"]);
    assert!(matches!(collect_entity_refs(&d)[0], EntityRef::Icon(_)));
}
