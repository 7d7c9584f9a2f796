use anxwritter::custom_icons::{emit_custom_images, payload, prepare_custom_icons, CustomImage, IconKind};
use anxwritter::models::CustomIconEntry;
use anxwritter::color::ColorValue;
use anxwritter::entities::{Circle, EntityRef, Icon, Label};
use anxwritter::items::{emit_entity_item, emit_link_item, emit_representation, link_style_values};
use anxwritter::models::{CategoricalStyleCfg, Link, Show};
use anxwritter::resolved::{ResolvedAttr, ResolvedEntity, ResolvedLink};
use anxwritter::xml::Writer;

fn resolved(id: &str, ty: &str) -> ResolvedEntity {
    ResolvedEntity {
        ci_id: "ID9".into(),
        int_id: 1,
        identity: id.into(),
        label: id.into(),
        etype: ty.into(),
        etype_ref: None,
        x: 0,
        y: 0,
        attrs: vec![],
        grade_one: None,
        grade_two: None,
        grade_three: None,
        auto_shade: None,
        label_bg: None,
        label_fg: None,
        cards: vec![],
        semantic_guid: None,
        icon_override: None,
    }
}

fn render<F: FnOnce(&mut Writer<String>)>(f: F) -> String {
    let mut s = String::new();
    {
        let mut w = Writer::new(&mut s, true);
        f(&mut w);
    }
    s
}

#[test]
fn icon_representation_with_override_and_shade() {
    let icon = Icon::new("a", "Person");
    let icon = Icon { color: Some(ColorValue::Int(255)), enlargement: Some("Double".into()), ..icon };
    let mut e = resolved("a", "Person");
    e.etype_ref = Some("ID4".into());
    e.icon_override = Some("crown".into());
    let out = render(|w| emit_representation(w, &e, EntityRef::Icon(&icon), "Default", None));
    assert_eq!(
        out,
        "<Icon>\n<IconStyle Type=\"Person\" EntityTypeReference=\"ID4\" OverrideTypeIcon=\"true\" TypeIconName=\"crown\" Enlargement=\"ICEnlargeDouble\" IconShadingColour=\"255\"/>\n</Icon>\n"
    );
}

#[test]
fn label_and_circle_representations() {
    let l = Label::new("n", "Note");
    let e = resolved("n", "Note");
    let out = render(|w| emit_representation(w, &e, EntityRef::Label(&l), "S", Some(255)));
    assert_eq!(
        out,
        "<TextBlock>\n<TextBlockStyle Strength=\"S\" Type=\"Note\" BackColour=\"255\" Filled=\"false\" LineColour=\"255\"/>\n</TextBlock>\n"
    );
    let c = Circle { diameter: Some(138), autosize: Some(false), ..Circle::new("c", "Zone") };
    let out = render(|w| emit_representation(w, &e, EntityRef::Circle(&c), "S", None));
    assert_eq!(
        out,
        "<Circle>\n<CircleStyle Strength=\"S\" Type=\"Note\" Diameter=\"1.38\" Autosize=\"false\"/>\n</Circle>\n"
    );
}

#[test]
fn entity_item_layout() {
    let icon = Icon::new("alice", "Person");
    let mut icon = icon;
    icon.common.show = Show { label: Some(false), ..Default::default() };
    let mut e = resolved("alice", "Person");
    e.label = "Alice".into();
    e.x = 30;
    e.y = 80;
    e.attrs = vec![ResolvedAttr { class: "Phone".into(), reference: "ID2".into(), value: Some("555".into()) }];
    let out = render(|w| emit_entity_item(w, &e, EntityRef::Icon(&icon), "Default", None, None));
    let expected = [
        "<ChartItem Id=\"ID9\" Label=\"Alice\" XPosition=\"30\">",
        "<End X=\"30\" Y=\"80\" Z=\"0\">",
        "<Entity EntityId=\"1\" Identity=\"alice\" LabelIsIdentity=\"false\">",
        "<Icon>",
        "<IconStyle Type=\"Person\"/>",
        "</Icon>",
        "</Entity>",
        "</End>",
        "<AttributeCollection>",
        "<Attribute AttributeClass=\"Phone\" AttributeClassReference=\"ID2\" Value=\"555\"/>",
        "</AttributeCollection>",
        "<CIStyle>",
        "<SubItemCollection>",
        "<SubItem Type=\"SubItemDescription\" Visible=\"false\"/>",
        "<SubItem Type=\"SubItemGrades\" Visible=\"false\"/>",
        "<SubItem Type=\"SubItemLabel\" Visible=\"false\"/>",
        "<SubItem Type=\"SubItemPin\" Visible=\"false\"/>",
        "<SubItem Type=\"SubItemSourceReference\" Visible=\"false\"/>",
        "<SubItem Type=\"SubItemSourceType\" Visible=\"false\"/>",
        "<SubItem Type=\"SubItemDateTime\" Visible=\"false\"/>",
        "</SubItemCollection>",
        "</CIStyle>",
        "</ChartItem>",
    ];
    assert_eq!(out, expected.join("\n") + "\n");
}

#[test]
fn link_style_precedence() {
    let cat = CategoricalStyleCfg {
        line_color: Some(ColorValue::Int(65280)),
        line_width: Some(-2),
        strength: Some("Dotted".into()),
    };
    let l = Link::new("a", "b");
    assert_eq!(
        link_style_values(&l, Some(&cat), Some(5), Some(9), Some(7), "Default"),
        (Some(0), Some(65280), "Dotted".to_string())
    );
    assert_eq!(
        link_style_values(&l, None, Some(5), None, Some(7), "Default"),
        (Some(5), Some(7), "Default".to_string())
    );
    let l2 = Link::new("a", "b").line_width(3).strength("Solid");
    assert_eq!(
        link_style_values(&l2, Some(&cat), None, None, None, "Default"),
        (Some(3), Some(65280), "Solid".to_string())
    );
}

#[test]
fn link_item_layout() {
    let l = Link::new("a", "b");
    let rl = ResolvedLink {
        ci_id: "ID7".into(),
        label: "calls".into(),
        end1: 1,
        end2: 2,
        offset: -20,
        conn_ref: Some("ID6".into()),
        semantic_guid: None,
        strength: "Default".into(),
        arrow: Some("ArrowOnHead".into()),
        line_width: Some(1),
        line_color: Some(0),
        ltype: Some("Call".into()),
        ltype_ref: Some("ID5".into()),
        grade_one: None,
        grade_two: Some(2),
        grade_three: None,
        cards: vec![],
        attrs: vec![ResolvedAttr { class: "X".into(), reference: "ID3".into(), value: None }],
    };
    let out = render(|w| emit_link_item(w, &rl, &l, None));
    let expected = [
        "<ChartItem Id=\"ID7\" Label=\"calls\" GradeTwoIndex=\"2\">",
        "<Link End1Id=\"1\" End2Id=\"2\" Offset=\"-20\" ConnectionReference=\"ID6\">",
        "<LinkStyle Strength=\"Default\" ArrowStyle=\"ArrowOnHead\" Type=\"Call\" LinkTypeReference=\"ID5\"/>",
        "</Link>",
        "</ChartItem>",
    ];
    assert_eq!(out, expected.join("\n") + "\n");
}

use anxwritter::input::Config;
use anxwritter::models::{CustomProperty, LegendCfg, LegendItem, SemanticEntity, SummaryCfg};
use anxwritter::sections::{emit_legend, emit_library_catalogue, emit_summary};
use anxwritter::semantic::SemanticResolver;

#[test]
fn library_catalogue_lists_root_then_custom_type() {
    let config = Config {
        semantic_entities: vec![SemanticEntity {
            name: "Suspect".into(),
            kind_of: "Entity".into(),
            description: Some("under investigation".into()),
            ..Default::default()
        }],
        ..Default::default()
    };
    let mut r = SemanticResolver::new(&config);
    r.resolve_type_name(Some("Suspect"));
    let out = render(|w| emit_library_catalogue(w, &r));
    let guid = "guidCEE90BAD-62EE-5F57-8F82-E528A0E54AF4";
    assert!(out.starts_with("<lcx:LibraryCatalogue VersionMajor=\"1\" VersionMinor=\"18\""));
    assert!(out.contains("<lcx:Type tGUID=\"guid3669EC21-8E41-438A-AA1A-26B477C15BE0\" abstract=\"true\">"));
    assert!(out.contains(&format!("<lcx:Type tGUID=\"{guid}\" kindOf=\"guid3669EC21-8E41-438A-AA1A-26B477C15BE0\">")));
    assert!(out.contains("<Description>under investigation</Description>"));
    assert!(out.ends_with("</lcx:LibraryCatalogue>\n"));
    let empty = SemanticResolver::new(&Config::default());
    assert_eq!(render(|w| emit_library_catalogue(w, &empty)), "");
}

#[test]
fn summary_fields_properties_and_origin() {
    assert_eq!(render(|w| emit_summary(w, &SummaryCfg::default(), "2026-01-01T00:00:00")), "");
    let s = SummaryCfg {
        title: Some("Op".into()),
        author: Some("".into()),
        custom_properties: vec![CustomProperty { name: "Case".into(), value: "42".into() }],
        revision: Some(3),
        ..Default::default()
    };
    let out = render(|w| emit_summary(w, &s, "2026-01-01T00:00:00"));
    let expected = [
        "<Summary>",
        "<FieldCollection>",
        "<Field Type=\"SummaryFieldTitle\" Field=\"Op\"/>",
        "</FieldCollection>",
        "<CustomPropertyCollection>",
        "<CustomProperty Name=\"Case\" Type=\"String\" Value=\"42\"/>",
        "</CustomPropertyCollection>",
        "<Origin CreatedDate=\"2026-01-01T00:00:00\" EditTime=\"0\" RevisionNumber=\"3\"/>",
        "</Summary>",
    ];
    assert_eq!(out, expected.join("\n") + "\n");
}

#[test]
fn legend_only_with_content() {
    assert_eq!(render(|w| emit_legend(w, &LegendCfg::default(), &vec![])), "");
    let item = LegendItem {
        name: "Calls".into(),
        item_type: Some("line".into()),
        color: Some(ColorValue::Int(255)),
        line_width: Some(2),
        arrows: Some("->".into()),
        dash_style: Some("dashed".into()),
        ..Default::default()
    };
    let lc = LegendCfg { x: Some(10), show: Some(true), ..Default::default() };
    let out = render(|w| emit_legend(w, &lc, &vec![item]));
    assert!(out.starts_with("<LegendDefinition Arrange=\"LegendArrangementWide\" X=\"10\" Shown=\"true\">\n"));
    assert!(out.contains("Label=\"Calls\" Colour=\"255\" LineWidth=\"2\" Arrows=\"ArrowOnHead\" DashStyle=\"DotStyleDashed\"/>"));
    assert!(out.ends_with("</LegendDefinition>\n"));
}

#[test]
fn custom_icons_are_prepared_in_order_and_skipped_when_unnamed_or_empty() {
    let entries = vec![
        CustomIconEntry { name: "".into(), data: Some("QQ==".into()), ..Default::default() },
        CustomIconEntry { name: "star".into(), data: Some("QQ==".into()), datalength: Some(7), ..Default::default() },
        CustomIconEntry { name: "logo".into(), image: Some("logo.png".into()), prefix: Some("my_".into()), ..Default::default() },
        CustomIconEntry { name: "broken".into(), image: Some("missing.png".into()), ..Default::default() },
        CustomIconEntry { name: "nothing".into(), ..Default::default() },
    ];
    let bmp = b"BMxyz".to_vec();
    let bmps = vec![None, None, Some(bmp.clone()), None, None];
    let (imgs, names) = prepare_custom_icons(&entries, &bmps, IconKind::Attribute);
    assert_eq!(imgs.len(), 2);
    assert_eq!(imgs[0].id, "anxW_star,Screen,Attribute");
    assert_eq!(imgs[0].datalength, 7);
    assert_eq!(imgs[0].data, "QQ==");
    assert_eq!(imgs[0].emitted, "anxW_star");
    let (data, len) = payload(&bmp);
    assert_eq!(imgs[1].id, "my_logo,Screen,Attribute");
    assert_eq!(imgs[1].datalength, len);
    assert_eq!(imgs[1].data, data);
    assert_ne!(imgs[1].data, "");
    assert_eq!(names.len(), 2);
    assert_eq!(names.get("star").map(|s| s.as_str()), Some("anxW_star"));
    assert_eq!(names.get("logo").map(|s| s.as_str()), Some("my_logo"));
}

#[test]
fn custom_image_collection_keeps_used_images_unless_all() {
    let imgs = vec![
        CustomImage { id: "anxW_a,Screen,Icon".into(), datalength: 3, data: "AAA".into(), emitted: "anxW_a".into() },
        CustomImage { id: "anxW_b,Screen,Icon".into(), datalength: 4, data: "BBB".into(), emitted: "anxW_b".into() },
    ];
    let used = vec!["anxW_b".to_string()];
    let out = render(|w| emit_custom_images(w, &imgs, &used, false));
    assert_eq!(
        out,
        "<CustomImageCollection>\n<CustomImage Id=\"anxW_b,Screen,Icon\" DataLength=\"4\" Data=\"BBB\"/>\n</CustomImageCollection>\n"
    );
    let out = render(|w| emit_custom_images(w, &imgs, &used, true));
    assert_eq!(
        out,
        "<CustomImageCollection>\n<CustomImage Id=\"anxW_a,Screen,Icon\" DataLength=\"3\" Data=\"AAA\"/>\n<CustomImage Id=\"anxW_b,Screen,Icon\" DataLength=\"4\" Data=\"BBB\"/>\n</CustomImageCollection>\n"
    );
    let out = render(|w| emit_custom_images(w, &imgs, &vec![], false));
    assert_eq!(out, "");
}
