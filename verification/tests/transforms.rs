use anxwritter::emit::{box_dims, emit_cards, emit_font_full, meta_attrs, push_wh};
use anxwritter::models::Font;
use anxwritter::resolved::ResolvedCard;
use anxwritter::xml::Writer;
use anxwritter::api::{AnxByteChunks, BuildOptions};
use anxwritter::custom_icons::{composite_key, IconKind};
use anxwritter::input::Config;
use anxwritter::models::{Card, DisplaySource, EntityType, GradeCollection, GradeRef, Link};
use anxwritter::semantic::root_names;
use anxwritter::tokens::{
    arrow_token, attribute_type_token, b, dot_style_token, enlargement_token, grade_with_dash,
    legend_arrange_token, legend_item_type_token, merge_behaviour_token, multiplicity_token,
    representation_token, text_align_token, theme_wiring_token,
};
use anxwritter::transforms::{
    compute_link_offsets, display_kind_matches, fold_key, norm_geo_key,
    resolve_grade_with_default, source_metas, symmetric_offsets,
};

fn link(from: &str, to: &str) -> Link {
    Link { from_id: from.into(), to_id: to.into(), ..Default::default() }
}

#[test]
fn symmetric_offsets_fan_out() {
    assert_eq!(symmetric_offsets(0, 20), Vec::<i64>::new());
    assert_eq!(symmetric_offsets(1, 20), vec![0]);
    assert_eq!(symmetric_offsets(3, 20), vec![0, 20, -20]);
    assert_eq!(symmetric_offsets(4, 20), vec![10, -10, 30, -30]);
    assert_eq!(symmetric_offsets(2, -7), vec![-3, 3]);
}

#[test]
fn parallel_links_get_symmetric_offsets() {
    let links = vec![link("a", "b"), link("a", "b"), link("b", "a"), link("a", "a"), link("a", "b")];
    assert_eq!(compute_link_offsets(&links, 20), vec![0, 20, 0, 0, -20]);
}

#[test]
fn interleaved_directions_are_fanned_separately() {
    let links = vec![
        link("a", "b"),
        link("c", "d"),
        link("a", "b"),
        link("c", "d"),
        link("", "d"),
        link("c", "d"),
        link("a", "b"),
        link("a", "b"),
    ];
    assert_eq!(compute_link_offsets(&links, 20), vec![10, 0, -10, 20, 0, -20, 30, -30]);
}

#[test]
fn grade_default_fallback() {
    let gc = GradeCollection { default: Some("B".into()), items: vec!["A".into(), "B".into()] };
    assert_eq!(resolve_grade_with_default(None, &gc), Some(1));
    assert_eq!(resolve_grade_with_default(Some(&GradeRef::Name(" 7 ".into())), &gc), Some(7));
    assert_eq!(resolve_grade_with_default(Some(&GradeRef::Name("A".into())), &gc), Some(0));
}

#[test]
fn keys_fold_case_and_trim() {
    assert_eq!(fold_key("  Alpha ", true), "alpha");
    assert_eq!(fold_key("  Alpha ", false), "Alpha");
    assert_eq!(norm_geo_key(" São Paulo "), "são paulo");
}

#[test]
fn display_kind_filter() {
    assert!(display_kind_matches(None, true));
    assert!(!display_kind_matches(Some("entity"), true));
    assert!(!display_kind_matches(Some("link"), false));
    assert!(display_kind_matches(Some("link"), true));
}

#[test]
fn display_source_defaults() {
    let sources = vec![
        DisplaySource { attribute: Some("Age".into()), ..Default::default() },
        DisplaySource { attribute: None, alias: Some("x".into()), ..Default::default() },
        DisplaySource {
            attribute: Some("Name".into()),
            alias: Some("n".into()),
            missing: Some("placeholder".into()),
            placeholder: Some("?".into()),
        },
    ];
    let m = source_metas(&sources);
    assert_eq!(m.len(), 2);
    assert_eq!((m[0].alias.as_str(), m[0].missing.as_str(), m[0].placeholder.as_str()), ("Age", "skip", ""));
    assert_eq!((m[1].alias.as_str(), m[1].placeholder.as_str()), ("n", "?"));
}

#[test]
fn vocabulary_tokens() {
    assert_eq!(dot_style_token("---"), "DotStyleDashed");
    assert_eq!(dot_style_token("anything"), "DotStyleSolid");
    assert_eq!(arrow_token("<->"), Some("ArrowOnBoth"));
    assert_eq!(arrow_token("sideways"), None);
    assert_eq!(attribute_type_token("flag"), "AttFlag");
    assert_eq!(representation_token("Text_Block"), "RepresentAsTextBlock");
    assert_eq!(merge_behaviour_token("xor"), "AttMergeXOR");
    assert_eq!(enlargement_token("Double"), "ICEnlargeDouble");
    assert_eq!(enlargement_token("Huge"), "huge");
    assert_eq!(text_align_token("CENTER"), "TextAlignCentre");
    assert_eq!(legend_item_type_token("Icon_Frame"), "LegendItemTypeIconFrame");
    assert_eq!(legend_arrange_token("wide"), "LegendArrangementWide");
    assert_eq!(legend_arrange_token(""), "LegendArrangement");
    assert_eq!(multiplicity_token("directed"), "MultiplicityDirected");
    assert_eq!(theme_wiring_token("no_diversion"), "NoDiversion");
    assert_eq!(theme_wiring_token("KeepsAtEventHeight"), "KeepsAtEventHeight");
    assert_eq!(b(true), "true");
}

#[test]
fn grade_sentinel_is_appended_without_default() {
    let gc = grade_with_dash(GradeCollection { default: None, items: vec!["A".into()] });
    assert_eq!(gc.items, vec!["A".to_string(), "-".to_string()]);
    assert_eq!(gc.default.as_deref(), Some("-"));
    let kept = grade_with_dash(GradeCollection { default: Some("A".into()), items: vec!["A".into()] });
    assert_eq!(kept.items, vec!["A".to_string()]);
}

#[test]
fn custom_image_ids() {
    assert_eq!(composite_key("anxW_vip", IconKind::Icon), "anxW_vip,Screen,Icon");
    assert_eq!(composite_key("x", IconKind::Attribute), "x,Screen,Attribute");
}

#[test]
fn semantic_roots_are_listed() {
    let roots = root_names();
    assert_eq!(roots.len(), 6);
    assert_eq!(roots[0], ("Entity", "guid3669EC21-8E41-438A-AA1A-26B477C15BE0"));
}

#[test]
fn cards_are_built_fluently() {
    let c = Card::new("Sighting").date("2026-01-05").source("Witness").source_ref("R1");
    assert_eq!(c.summary.as_deref(), Some("Sighting"));
    assert_eq!(c.date.as_deref(), Some("2026-01-05"));
    assert_eq!(c.source_type.as_deref(), Some("Witness"));
    assert_eq!(c.source_ref.as_deref(), Some("R1"));
    assert!(c.time.is_none());
    let c = c.time("10:00").description("seen");
    assert_eq!(c.time.as_deref(), Some("10:00"));
    assert_eq!(c.description.as_deref(), Some("seen"));
}

#[test]
fn overlay_upserts_by_name_and_appends() {
    let mut base = Config::default();
    base.entity_types.push(EntityType { name: "Person".into(), icon_file: Some("adult".into()), ..Default::default() });
    base.source_types.push("A".into());
    let mut top = Config::default();
    top.entity_types.push(EntityType { name: "Person".into(), icon_file: Some("woman".into()), ..Default::default() });
    top.entity_types.push(EntityType { name: "Car".into(), ..Default::default() });
    top.source_types.push("B".into());
    base.overlay(top);
    assert_eq!(base.entity_types.len(), 2);
    assert_eq!(base.entity_types[0].icon_file.as_deref(), Some("woman"));
    assert_eq!(base.entity_types[1].name, "Car");
    assert_eq!(base.source_types, vec!["A".to_string(), "B".to_string()]);
}

#[test]
fn byte_chunks_never_split_a_code_unit() {
    let bytes: Vec<u8> = (0u8..7).collect();
    let mut it = AnxByteChunks::new(bytes.clone(), 3);
    let mut all = Vec::new();
    let mut sizes = Vec::new();
    while let Some(c) = it.next_chunk() {
        sizes.push(c.len());
        all.extend(c);
    }
    assert_eq!(sizes, vec![2, 2, 3]);
    assert_eq!(all, bytes);
    let mut small = AnxByteChunks::new(vec![1, 2, 3], 0);
    assert_eq!(small.next_chunk(), Some(vec![1, 2]));
    assert_eq!(small.next_chunk(), Some(vec![3]));
    assert_eq!(small.next_chunk(), None);
}

#[test]
fn build_options_default() {
    let o = BuildOptions::default();
    assert!(o.compact && o.validate);
}

#[test]
fn emitted_cards_font_and_meta() {
    let cards = vec![
        ResolvedCard { summary: Some("S".into()), date_set: true, datetime: Some("D".into()), grade_one: Some(1), ..Default::default() },
        ResolvedCard { timezone_id: Some(3), timezone_name: Some("UTC".into()), ..Default::default() },
    ];
    let mut s = String::new();
    {
        let mut w = Writer::new(&mut s, false);
        emit_cards(&mut w, &cards);
        emit_font_full(&mut w, &Font { bold: Some(true), ..Default::default() }, 8);
    }
    assert_eq!(
        s,
        "<CardCollection>\n  <Card Summary=\"S\" DateSet=\"true\" DateTime=\"D\" GradeOneIndex=\"1\"/>\n  <Card>\n    <TimeZone UniqueID=\"3\" Name=\"UTC\"/>\n  </Card>\n</CardCollection>\n<Font BackColour=\"16777215\" Bold=\"true\" CharSet=\"CharSetDefault\" FaceName=\"Tahoma\" FontColour=\"0\" Italic=\"false\" PointSize=\"8\" Strikeout=\"false\" Underline=\"false\"/>\n"
    );
    let a = meta_attrs(Some(""), Some("2026-02-14"), Some("09:30"), None, Some(true), Some("R"), None);
    let names: Vec<(&str, String)> = a;
    assert_eq!(
        names,
        vec![
            ("DateSet", "true".to_string()),
            ("TimeSet", "true".to_string()),
            ("DateTime", "2026-02-14T09:30:00.000".to_string()),
            ("Ordered", "true".to_string()),
            ("SourceReference", "R".to_string()),
        ]
    );
    assert_eq!(box_dims(Some(5), None, Some(-2)), vec![("Width", "5".to_string()), ("Depth", "-2".to_string())]);
    let mut st = Vec::new();
    push_wh(&mut st, Some(150), Some(-5));
    assert_eq!(st, vec![("Width", "1.5".to_string()), ("Height", "-0.05".to_string())]);
}

#[test]
fn offsets_sum_pairs() {
    let v = symmetric_offsets(5, 12);
    assert_eq!(v, vec![0, 12, -12, 24, -24]);
}
