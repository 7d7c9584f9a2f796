use anxwritter::input::Config;
use anxwritter::models::Settings;
use anxwritter::sections::chart_attrs;
use anxwritter::semantic::SemanticResolver;
use anxwritter::entities::{Box as BoxEntity, EntityRef, Icon, ThemeLine};
use anxwritter::maps::{mapping_insert, mapping_new, string_set_len, string_set_new};
use anxwritter::models::{Card, GradeCollection, GradeRef, TimeZone};
use anxwritter::resolve::{
    entity_number, choose_icon, entity_colors, entity_label, entity_position, layout_keys, resolve_card, resolve_cards,
    resolve_custom_icon,
};

fn grades() -> GradeCollection {
    GradeCollection { default: Some("B".into()), items: vec!["A".into(), "B".into(), "C".into()] }
}

#[test]
fn card_combines_date_and_time_and_resolves_grades() {
    let c = Card {
        summary: Some("seen".into()),
        date: Some("2024-03-05".into()),
        time: Some("14:30".into()),
        grade_one: Some(GradeRef::Name("C".into())),
        grade_two: Some(GradeRef::Index(0)),
        timezone: Some(TimeZone { id: 7, name: "UTC".into() }),
        ..Default::default()
    };
    let g = grades();
    let none = GradeCollection::default();
    let r = resolve_card(&c, &g, &g, &none);
    assert_eq!(r.summary.as_deref(), Some("seen"));
    assert_eq!(r.datetime.as_deref(), Some("2024-03-05T14:30:00.000"));
    assert!(r.date_set && r.time_set);
    assert_eq!(r.grade_one, Some(2));
    assert_eq!(r.grade_two, Some(0));
    assert_eq!(r.grade_three, None);
    assert_eq!(r.timezone_id, Some(7));
    assert_eq!(r.timezone_name.as_deref(), Some("UTC"));
    let bare = resolve_card(&Card::default(), &g, &none, &none);
    assert_eq!(bare.datetime, None);
    assert!(!bare.date_set && !bare.time_set);
    assert_eq!(bare.grade_one, Some(1));
}

#[test]
fn loose_cards_follow_their_owner() {
    let inline = vec![Card { summary: Some("own".into()), ..Default::default() }];
    let loose = vec![
        Card { summary: Some("to a".into()), entity_id: Some("a".into()), ..Default::default() },
        Card { summary: Some("to b".into()), entity_id: Some("b".into()), ..Default::default() },
        Card { summary: Some("link a".into()), link_id: Some("a".into()), ..Default::default() },
    ];
    let g = GradeCollection::default();
    let r = resolve_cards(&inline, &loose, Some("a"), false, &g, &g, &g);
    let s: Vec<&str> = r.iter().map(|c| c.summary.as_deref().unwrap()).collect();
    assert_eq!(s, vec!["own", "to a"]);
    let r = resolve_cards(&vec![], &loose, Some("a"), true, &g, &g, &g);
    assert_eq!(r.len(), 1);
    assert_eq!(r[0].summary.as_deref(), Some("link a"));
    assert_eq!(resolve_cards(&inline, &loose, None, false, &g, &g, &g).len(), 1);
}

#[test]
fn layout_keys_skip_theme_lines_and_placed_entities() {
    let a = Icon::new("a", "P");
    let mut b = Icon::new("b", "P");
    b.common.x = Some(10);
    b.common.y = Some(20);
    let t = ThemeLine::new("t", "T");
    let g = BoxEntity::new("g", "O");
    let c = Icon::new("c", "P");
    let es = vec![EntityRef::Icon(&a), EntityRef::Icon(&b), EntityRef::ThemeLine(&t), EntityRef::Box(&g), EntityRef::Icon(&c)];
    let (all, auto) = layout_keys(&es, &vec!["g".to_string()]);
    assert_eq!(all, vec!["a", "b", "g", "c"]);
    assert_eq!(auto, vec!["a", "c"]);
}

#[test]
fn position_prefers_manual_then_geo_then_layout() {
    let mut i = Icon::new("a", "P");
    assert_eq!(entity_position(&i.common, Some((1, 2)), Some((3, 4))), (1, 2));
    assert_eq!(entity_position(&i.common, None, Some((3, 4))), (3, 4));
    assert_eq!(entity_position(&i.common, None, None), (0, 0));
    i.common.x = Some(5);
    assert_eq!(entity_position(&i.common, None, Some((3, 4))), (3, 4));
    i.common.y = Some(6);
    assert_eq!(entity_position(&i.common, Some((1, 2)), Some((3, 4))), (5, 6));
    assert_eq!(entity_label(&i.common), "a");
    i.common.label = Some("Alice".into());
    assert_eq!(entity_label(&i.common), "Alice");
}

#[test]
fn colors_shade_only_shaded_kinds_and_own_shade_wins() {
    let mut i = Icon::new("a", "P");
    let b = BoxEntity::new("b", "O");
    assert_eq!(entity_colors(&EntityRef::Icon(&i), Some((1, 2))), (Some(1), Some(1), Some(2), Some(1)));
    assert_eq!(entity_colors(&EntityRef::Box(&b), Some((1, 2))), (None, Some(1), Some(2), None));
    i.color = Some(anxwritter::color::ColorValue::Int(99));
    assert_eq!(entity_colors(&EntityRef::Icon(&i), None), (None, None, None, Some(99)));
}

#[test]
fn own_icon_beats_icon_map_and_custom_icons_are_marked_used() {
    let mut i = Icon::new("a", "P");
    assert_eq!(choose_icon(&EntityRef::Icon(&i), Some("mapped")), Some("mapped".to_string()));
    i.icon = Some("own".into());
    assert_eq!(choose_icon(&EntityRef::Icon(&i), Some("mapped")), Some("own".to_string()));
    let b = BoxEntity::new("b", "O");
    assert_eq!(choose_icon(&EntityRef::Box(&b), None), None);
    let mut names = mapping_new();
    mapping_insert(&mut names, "star".into(), "anxW_star".into());
    let mut used = string_set_new();
    assert_eq!(resolve_custom_icon(&names, &mut used, "star"), "anxW_star");
    assert_eq!(resolve_custom_icon(&names, &mut used, "person"), "person");
    assert_eq!(string_set_len(&used), 1);
}

#[test]
fn chart_attributes_follow_settings() {
    let mut s = Settings::default();
    s.chart.bg_filled = Some(true);
    s.view.time_bar = Some(false);
    s.chart.bg_color = Some(anxwritter::color::ColorValue::Int(16777215));
    let r = SemanticResolver::new(&Config::default());
    let a = chart_attrs(&s, &r, Some("12.5"), None);
    let got: Vec<(String, String)> = a.iter().map(|(k, v)| (k.to_string(), v.clone())).collect();
    assert_eq!(
        got,
        vec![
            ("IsBackColourFilled".to_string(), "true".to_string()),
            ("TimeBarVisible".to_string(), "false".to_string()),
            ("BackColour".to_string(), "16777215".to_string()),
            ("GridWidthSize".to_string(), "12.5".to_string()),
        ]
    );
}

#[test]
fn entity_numbers_follow_the_last_occurrence() {
    let ids: Vec<String> = vec!["a".into(), "b".into(), "a".into()];
    assert_eq!(entity_number(&ids, &"a".to_string()), 3);
    assert_eq!(entity_number(&ids, &"b".to_string()), 2);
    assert_eq!(entity_number(&ids, &"z".to_string()), 0);
}
