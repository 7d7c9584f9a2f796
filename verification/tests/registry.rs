use anxwritter::color::ColorValue;
use anxwritter::enums::MergeBehaviour;
use anxwritter::models::{AttributeClass, EntityType, Link, LinkType, Palette, PaletteAttributeEntry};
use anxwritter::registry::{
    choose_strength_name, connection_key, emit_attribute_classes, emit_connections, emit_datetime_formats,
    emit_entity_types, emit_grades, emit_link_types, emit_palettes, emit_strengths, find_id,
    AttributeClassEntry, ConnectionEntry, DateTimeFormatEntry, EntityTypeEntry, LinkTypeEntry, StrengthEntry,
    StringCollection,
};
use anxwritter::xml::Writer;

fn render<F: FnOnce(&mut Writer<String>)>(f: F) -> String {
    let mut s = String::new();
    {
        let mut w = Writer::new(&mut s, true);
        f(&mut w);
    }
    s
}

fn ac(name: &str, id: &str, cfg: AttributeClass) -> AttributeClassEntry {
    AttributeClassEntry { name: name.into(), id: id.into(), type_token: "AttText".into(), cfg, semantic_guid: None }
}

fn et(name: &str, id: &str) -> EntityTypeEntry {
    EntityTypeEntry { name: name.into(), id: id.into(), cfg: EntityType::default(), semantic_guid: None }
}

fn lt(name: &str, id: &str) -> LinkTypeEntry {
    LinkTypeEntry { name: name.into(), id: id.into(), cfg: LinkType::default(), semantic_guid: None }
}

#[test]
fn strength_collection_is_written_even_when_empty() {
    assert_eq!(render(|w| emit_strengths(w, &vec![])), "<StrengthCollection>\n</StrengthCollection>\n");
    let s = vec![StrengthEntry { name: "Default".into(), id: "ID1".into(), dot_token: "DotStyleSolid".into() }];
    assert_eq!(
        render(|w| emit_strengths(w, &s)),
        "<StrengthCollection>\n<Strength Id=\"ID1\" Name=\"Default\" DotStyle=\"DotStyleSolid\"/>\n</StrengthCollection>\n"
    );
}

#[test]
fn strength_name_falls_back_to_chart_default_then_default() {
    assert_eq!(choose_strength_name(Some("Weak"), Some("Firm")), "Firm");
    assert_eq!(choose_strength_name(Some("Weak"), None), "Weak");
    assert_eq!(choose_strength_name(None, None), "Default");
}

#[test]
fn datetime_formats_omit_empty_format() {
    assert_eq!(render(|w| emit_datetime_formats(w, &vec![])), "");
    let f = vec![
        DateTimeFormatEntry { id: "ID2".into(), name: "Short".into(), format: "dd/MM".into() },
        DateTimeFormatEntry { id: "ID3".into(), name: "Bare".into(), format: "".into() },
    ];
    assert_eq!(
        render(|w| emit_datetime_formats(w, &f)),
        "<DateTimeFormatCollection>\n<DateTimeFormat Id=\"ID2\" Name=\"Short\" Format=\"dd/MM\"/>\n<DateTimeFormat Id=\"ID3\" Name=\"Bare\"/>\n</DateTimeFormatCollection>\n"
    );
}

#[test]
fn grades_skip_empty_dimensions() {
    let one = StringCollection { items: vec!["-".into(), "Reliable".into()], ids: vec!["ID1".into(), "ID2".into()] };
    let none = StringCollection::default();
    let src = StringCollection { items: vec!["Witness".into()], ids: vec!["ID3".into()] };
    assert_eq!(
        render(|w| emit_grades(w, &one, &none, &none, &src)),
        "<GradeOne>\n<StringCollection>\n<String Id=\"ID1\" Text=\"-\"/>\n<String Id=\"ID2\" Text=\"Reliable\"/>\n</StringCollection>\n</GradeOne>\n<SourceHints>\n<StringCollection>\n<String Id=\"ID3\" Text=\"Witness\"/>\n</StringCollection>\n</SourceHints>\n"
    );
}

#[test]
fn entity_and_link_types_carry_configured_fields() {
    let mut e = et("Person", "ID4");
    e.cfg.representation = Some("box".into());
    e.cfg.icon_file = Some("person".into());
    e.cfg.color = Some(ColorValue::Int(255));
    e.semantic_guid = Some("guid".into());
    assert_eq!(
        render(|w| emit_entity_types(w, &vec![e])),
        "<EntityTypeCollection>\n<EntityType Id=\"ID4\" Name=\"Person\" PreferredRepresentation=\"RepresentAsBox\" IconFile=\"person\" Colour=\"255\" SemanticTypeGuid=\"guid\"/>\n</EntityTypeCollection>\n"
    );
    let mut l = lt("Call", "ID5");
    l.cfg.color = Some(ColorValue::Int(65280));
    assert_eq!(
        render(|w| emit_link_types(w, &vec![l])),
        "<LinkTypeCollection>\n<LinkType Id=\"ID5\" Name=\"Call\" Colour=\"65280\"/>\n</LinkTypeCollection>\n"
    );
    assert_eq!(render(|w| emit_link_types(w, &vec![])), "");
}

#[test]
fn connection_key_ignores_empty_texts() {
    let mut l = Link::default();
    assert!(connection_key(&l).is_none());
    l.multiplicity = Some("".into());
    assert!(connection_key(&l).is_none());
    l.fan_out = Some(3);
    assert_eq!(connection_key(&l), Some((None, Some(3), None)));
    l.theme_wiring = Some("keep_event".into());
    assert_eq!(connection_key(&l), Some((None, Some(3), Some("keep_event".to_string()))));
}

#[test]
fn connections_write_their_styles() {
    let c = vec![ConnectionEntry {
        multiplicity: Some("single".into()),
        fan_out: Some(-2),
        theme_wiring: Some("keep_event".into()),
        id: "ID6".into(),
    }];
    assert_eq!(
        render(|w| emit_connections(w, &c)),
        "<ConnectionCollection>\n<Connection Id=\"ID6\">\n<ConnectionStyle Multiplicity=\"MultiplicitySingle\" FanOut=\"-2\" ThemeWiring=\"KeepsAtEventHeight\"/>\n</Connection>\n</ConnectionCollection>\n"
    );
}

#[test]
fn attribute_classes_write_defaults_then_configured_fields() {
    let cfg = AttributeClass {
        prefix: Some("$".into()),
        suffix: Some("".into()),
        decimal_places: Some(2),
        merge_behaviour: Some(MergeBehaviour::Add),
        user_can_remove: Some(false),
        ..Default::default()
    };
    assert_eq!(
        render(|w| emit_attribute_classes(w, &vec![ac("Amount", "ID7", cfg)])),
        "<AttributeClassCollection>\n<AttributeClass Id=\"ID7\" Name=\"Amount\" Type=\"AttText\" IsUser=\"true\" UserCanAdd=\"true\" UserCanRemove=\"false\" ShowValue=\"true\" Prefix=\"$\" ShowPrefix=\"true\" Suffix=\"\" ShowSuffix=\"false\" DecimalPlaces=\"2\" MergeBehaviour=\"AttMergeAdd\"/>\n</AttributeClassCollection>\n"
    );
}

#[test]
fn find_id_reads_the_registry() {
    let r = vec![et("A", "ID1"), et("B", "ID2")];
    assert_eq!(find_id(&r, "B"), Some("ID2".to_string()));
    assert_eq!(find_id(&r, "C"), None);
}

#[test]
fn auto_palette_lists_addable_classes_and_all_types() {
    let hidden = AttributeClass { user_can_add: Some(false), ..Default::default() };
    let acs = vec![ac("Phone", "ID1", AttributeClass::default()), ac("Secret", "ID2", hidden)];
    let ets = vec![et("Person", "ID3")];
    let out = render(|w| emit_palettes(w, &vec![], &acs, &ets, &vec![]));
    assert_eq!(
        out,
        "<PaletteCollection>\n<Palette Name=\"anxwritter\">\n<AttributeClassEntryCollection>\n<AttributeClassEntry AttributeClass=\"Phone\" AttributeClassReference=\"ID1\"/>\n</AttributeClassEntryCollection>\n<EntityTypeEntryCollection>\n<EntityTypeEntry Entity=\"Person\" EntityTypeReference=\"ID3\"/>\n</EntityTypeEntryCollection>\n</Palette>\n</PaletteCollection>\n"
    );
    let empty = render(|w| emit_palettes(w, &vec![], &vec![], &vec![], &vec![]));
    assert_eq!(empty, "<PaletteCollection>\n<Palette Name=\"anxwritter\"/>\n</PaletteCollection>\n");
}

#[test]
fn user_palettes_replace_the_auto_palette() {
    let acs = vec![ac("Phone", "ID1", AttributeClass::default())];
    let lts = vec![lt("Call", "ID4")];
    let pal = Palette {
        name: "Mine".into(),
        locked: true,
        entity_types: vec!["Ghost".into()],
        link_types: vec!["Call".into()],
        attribute_classes: vec![],
        attribute_entries: vec![PaletteAttributeEntry { name: "Phone".into(), value: Some("555".into()) }],
    };
    let bare = Palette { name: "Empty".into(), ..Default::default() };
    let out = render(|w| emit_palettes(w, &vec![pal, bare], &acs, &vec![], &lts));
    assert_eq!(
        out,
        "<PaletteCollection>\n<Palette Name=\"Mine\" Locked=\"true\">\n<AttributeEntryCollection>\n<AttributeClassEntry AttributeClass=\"Phone\" AttributeClassReference=\"ID1\" Value=\"555\"/>\n</AttributeEntryCollection>\n<EntityTypeEntryCollection>\n</EntityTypeEntryCollection>\n<LinkTypeEntryCollection>\n<LinkTypeEntry LinkType=\"Call\" LinkTypeReference=\"ID4\"/>\n</LinkTypeEntryCollection>\n</Palette>\n<Palette Name=\"Empty\"/>\n</PaletteCollection>\n"
    );
}
