use anxwritter::api::BuildOptions;
use anxwritter::builder::{build_anx, build_anx_with, iter_anx_bytes, render_xml, to_xml, write_anx, Builder, LaidOut};
use anxwritter::entities::Icon;
use anxwritter::error::Error;
use anxwritter::input::{ChartData, Config};
use anxwritter::models::{Link, Settings};
use anxwritter::value::AttrValue;

fn icon_data(ids: &[&str]) -> ChartData {
    let mut d = ChartData::default();
    for id in ids {
        d.entities.icons.push(Icon::new(id, "P"));
    }
    d
}

fn plain() -> LaidOut {
    LaidOut::plain("2024-01-02T03:04:05".to_string())
}

fn utf16_text(bytes: &[u8]) -> String {
    assert_eq!(&bytes[..2], &[0xFF, 0xFE]);
    let units: Vec<u16> = bytes[2..].chunks(2).map(|c| u16::from_le_bytes([c[0], c[1]])).collect();
    String::from_utf16(&units).unwrap()
}

fn sample() -> ChartData {
    icon_data(&["a"])
}

#[test]
fn end_to_end_json() {
    let mut data = icon_data(&["a", "b"]);
    let mut l = Link::new("a", "b");
    l.type_ = Some("L".to_string());
    data.links.push(l);
    let bytes = build_anx(Config::default(), Settings::default(), &data, &plain(), true).unwrap();
    // UTF-16 LE BOM.
    assert_eq!(&bytes[..2], &[0xFF, 0xFE]);
    let text = utf16_text(&bytes);
    assert!(text.contains("<Chart>"));
    assert!(text.contains("Identity=\"a\""));
}

#[test]
fn validation_blocks_build() {
    let mut data = icon_data(&["a"]);
    data.links.push(Link::new("a", "x"));
    let e = build_anx(Config::default(), Settings::default(), &data, &plain(), true).unwrap_err();
    assert!(matches!(e, Error::Validation(_)));
}

#[test]
fn declaration_encoding_matches_output_form() {
    let data = sample();

    // String forms → utf-8.
    assert!(to_xml(Config::default(), Settings::default(), &data, &plain())
        .unwrap()
        .starts_with("<?xml version='1.0' encoding='utf-8'?>"));
    assert!(render_xml(Config::default(), Settings::default(), &data, &plain())
        .unwrap()
        .starts_with("<?xml version='1.0' encoding='utf-8'?>"));

    // The builder's string form → utf-8.
    let mut b = Builder::new(Config::default(), Settings::default(), &plain()).unwrap();
    let s = b.build_with(&data, &plain(), true).unwrap();
    assert!(s.starts_with("<?xml version='1.0' encoding='utf-8'?>"));

    // .anx byte forms → utf-16 declaration, UTF-16 LE + BOM on disk.
    let bytes = build_anx(Config::default(), Settings::default(), &data, &plain(), true).unwrap();
    assert_eq!(&bytes[..2], &[0xFF, 0xFE]);
    let text = utf16_text(&bytes);
    assert!(text.starts_with("<?xml version='1.0' encoding='utf-16'?>"));
}

#[test]
fn build_options_default_is_compact_and_validating() {
    let opts = BuildOptions::default();
    assert!(opts.compact && opts.validate);
    let data = sample();
    assert_eq!(
        build_anx_with(Config::default(), Settings::default(), &data, &plain(), opts).unwrap(),
        build_anx(Config::default(), Settings::default(), &data, &plain(), true).unwrap()
    );
}

#[test]
fn builds_are_deterministic() {
    let mut data = icon_data(&["a", "b", "c"]);
    data.links.push(Link::new("a", "b"));
    data.links.push(Link::new("b", "c"));
    let one = build_anx(Config::default(), Settings::default(), &data, &plain(), true).unwrap();
    let two = build_anx(Config::default(), Settings::default(), &data, &plain(), true).unwrap();
    assert_eq!(one, two);
}

#[test]
fn build_without_validation_still_builds_a_dangling_link() {
    let mut data = icon_data(&["a"]);
    data.links.push(Link::new("a", "x"));
    let bytes = build_anx(Config::default(), Settings::default(), &data, &plain(), false).unwrap();
    let text = utf16_text(&bytes);
    assert!(text.contains("Identity=\"a\""));
}

#[test]
fn the_anx_bytes_are_the_utf16_document() {
    let data = icon_data(&["a", "b"]);
    let bytes = build_anx(Config::default(), Settings::default(), &data, &plain(), false).unwrap();
    let text = utf16_text(&bytes);
    // The same document as the string form, but for the declared encoding.
    let s = render_xml(Config::default(), Settings::default(), &data, &plain()).unwrap();
    assert_eq!(text.replacen("utf-16", "utf-8", 1), s);
    assert_eq!(bytes.len(), 2 + 2 * text.encode_utf16().count());
}

#[test]
fn compact_and_pretty_differ_only_in_layout() {
    let data = icon_data(&["a"]);
    let mut b1 = Builder::new(Config::default(), Settings::default(), &plain()).unwrap();
    let compact = b1.build_with(&data, &plain(), true).unwrap();
    let mut b2 = Builder::new(Config::default(), Settings::default(), &plain()).unwrap();
    let pretty = b2.build_with(&data, &plain(), false).unwrap();
    assert!(pretty.contains("\n  <"));
    assert!(!compact.contains("\n  <"));
    let squash = |s: &str| s.lines().map(|l| l.trim_start().to_string()).collect::<Vec<_>>().join("\n");
    assert_eq!(squash(&compact), squash(&pretty));
}

#[test]
fn layout_positions_reach_the_items_and_explicit_ones_win() {
    let mut data = icon_data(&["a", "b"]);
    data.entities.icons[1].common.x = Some(7);
    data.entities.icons[1].common.y = Some(9);
    let mut laid = plain();
    laid.layout.push(("a".to_string(), 120, 340));
    laid.layout.push(("b".to_string(), 1, 2));
    let mut b = Builder::new(Config::default(), Settings::default(), &laid).unwrap();
    let s = b.build_with(&data, &laid, true).unwrap();
    assert_eq!((b.entities[0].x, b.entities[0].y), (120, 340));
    assert_eq!((b.entities[1].x, b.entities[1].y), (7, 9));
    assert!(s.contains("X=\"120\""));
    assert!(s.contains("Y=\"340\""));
}

#[test]
fn entities_are_numbered_in_order_and_links_point_at_them() {
    let mut data = icon_data(&["a", "b", "c"]);
    data.links.push(Link::new("c", "a"));
    let mut b = Builder::new(Config::default(), Settings::default(), &plain()).unwrap();
    b.build(&data, &plain()).unwrap();
    let nums: Vec<i64> = b.entities.iter().map(|e| e.int_id).collect();
    assert_eq!(nums, vec![1, 2, 3]);
    assert_eq!((b.links[0].end1, b.links[0].end2), (3, 1));
}

#[test]
fn the_created_date_reaches_the_summary() {
    let data = sample();
    // No summary field set: no summary, so no creation date.
    let s = render_xml(Config::default(), Settings::default(), &data, &plain()).unwrap();
    assert!(!s.contains("CreatedDate"));
    let mut settings = Settings::default();
    settings.summary.title = Some("T".to_string());
    let s = render_xml(Config::default(), settings, &data, &plain()).unwrap();
    assert!(s.contains("CreatedDate=\"2024-01-02T03:04:05\""));
    // A configured creation date wins over the one handed in.
    let mut settings = Settings::default();
    settings.summary.title = Some("T".to_string());
    settings.summary.created = Some("2000-01-01T00:00:00".to_string());
    let s = render_xml(Config::default(), settings, &data, &plain()).unwrap();
    assert!(s.contains("CreatedDate=\"2000-01-01T00:00:00\""));
}

#[test]
fn iter_anx_bytes_chunks_rebuild_the_anx_bytes() {
    let data = icon_data(&["a", "b"]);
    let whole = build_anx(Config::default(), Settings::default(), &data, &plain(), true).unwrap();
    let mut it = iter_anx_bytes(Config::default(), Settings::default(), &data, &plain(), 7).unwrap();
    let mut joined: Vec<u8> = Vec::new();
    while let Some(c) = it.next_chunk() {
        assert!(c.len() <= 7 && c.len() % 2 == 0);
        joined.extend_from_slice(&c);
    }
    assert_eq!(joined, whole);
}

#[test]
fn write_anx_appends_the_anx_bytes() {
    let data = icon_data(&["a"]);
    let whole = build_anx(Config::default(), Settings::default(), &data, &plain(), true).unwrap();
    let out = write_anx(Config::default(), Settings::default(), &data, &plain(), vec![1u8], true).unwrap();
    assert_eq!(out[0], 1);
    assert_eq!(&out[1..], &whole[..]);
}

#[test]
fn write_anx_refuses_an_invalid_chart() {
    let mut data = icon_data(&["a"]);
    data.links.push(Link::new("a", "missing"));
    let e = write_anx(Config::default(), Settings::default(), &data, &plain(), Vec::new(), true).unwrap_err();
    assert!(matches!(e, Error::Validation(_)));
}

/// The expected document of a two-person chart with one call, placed where
/// the radial layout puts two entities; every line after the provenance
/// comment.
const MINIMAL_BODY: &[&str] = &[
    "<Chart>\n",
    "<ApplicationVersion Major=\"9\" Minor=\"0\" Point=\"0\" Build=\"0\"/>\n",
    "<StrengthCollection>\n",
    "<Strength Id=\"ID1\" Name=\"Default\" DotStyle=\"DotStyleSolid\"/>\n",
    "</StrengthCollection>\n",
    "<AttributeClassCollection>\n",
    "<AttributeClass Id=\"ID3\" Name=\"phone\" Type=\"AttText\" IsUser=\"true\" UserCanAdd=\"true\" UserCanRemove=\"true\" ShowValue=\"true\"/>\n",
    "</AttributeClassCollection>\n",
    "<LinkTypeCollection>\n",
    "<LinkType Id=\"ID5\" Name=\"Call\"/>\n",
    "</LinkTypeCollection>\n",
    "<ChartItemCollection>\n",
    "<ChartItem Id=\"ID2\" Label=\"Alice\" XPosition=\"-80\">\n",
    "<End X=\"-80\" Y=\"320\" Z=\"0\">\n",
    "<Entity EntityId=\"1\" Identity=\"alice\" LabelIsIdentity=\"false\">\n",
    "<Icon>\n",
    "<IconStyle Type=\"Person\"/>\n",
    "</Icon>\n",
    "</Entity>\n",
    "</End>\n",
    "<AttributeCollection>\n",
    "<Attribute AttributeClass=\"phone\" AttributeClassReference=\"ID3\" Value=\"555-0001\"/>\n",
    "</AttributeCollection>\n",
    "</ChartItem>\n",
    "<ChartItem Id=\"ID4\" Label=\"bob\" XPosition=\"80\">\n",
    "<End X=\"80\" Y=\"320\" Z=\"0\">\n",
    "<Entity EntityId=\"2\" Identity=\"bob\" LabelIsIdentity=\"true\">\n",
    "<Icon>\n",
    "<IconStyle Type=\"Person\"/>\n",
    "</Icon>\n",
    "</Entity>\n",
    "</End>\n",
    "</ChartItem>\n",
    "<ChartItem Id=\"ID6\" Label=\"\">\n",
    "<Link End1Id=\"1\" End2Id=\"2\">\n",
    "<LinkStyle Strength=\"Default\" ArrowStyle=\"ArrowOnHead\" Type=\"Call\" LinkTypeReference=\"ID5\"/>\n",
    "</Link>\n",
    "</ChartItem>\n",
    "</ChartItemCollection>\n",
    "<PaletteCollection>\n",
    "<Palette Name=\"anxwritter\">\n",
    "<AttributeClassEntryCollection>\n",
    "<AttributeClassEntry AttributeClass=\"phone\" AttributeClassReference=\"ID3\"/>\n",
    "</AttributeClassEntryCollection>\n",
    "<LinkTypeEntryCollection>\n",
    "<LinkTypeEntry LinkType=\"Call\" LinkTypeReference=\"ID5\"/>\n",
    "</LinkTypeEntryCollection>\n",
    "</Palette>\n",
    "</PaletteCollection>\n",
    "</Chart>\n",
];

#[test]
fn minimal_chart_is_built_line_for_line() {
    let mut data = ChartData::default();
    let mut alice = Icon::new("alice", "Person");
    alice.common.label = Some("Alice".to_string());
    alice.common.attributes.insert("phone".to_string(), AttrValue::Str("555-0001".to_string()));
    data.entities.icons.push(alice);
    data.entities.icons.push(Icon::new("bob", "Person"));
    let mut l = Link::new("alice", "bob");
    l.type_ = Some("Call".to_string());
    l.arrow = Some("->".to_string());
    data.links.push(l);
    let mut laid = plain();
    laid.layout.push(("alice".to_string(), -80, 320));
    laid.layout.push(("bob".to_string(), 80, 320));
    let mut b = Builder::new(Config::default(), Settings::default(), &laid).unwrap();
    let xml = b.build(&data, &laid).unwrap();
    let mut lines = xml.splitn(3, '\n');
    assert_eq!(lines.next().unwrap(), "<?xml version='1.0' encoding='utf-8'?>");
    assert_eq!(
        lines.next().unwrap(),
        "<!-- Built with anxwritter 1.24.2 \u{2014} https://github.com/gustavo-gkmi/anxwritter -->"
    );
    assert_eq!(lines.next().unwrap(), MINIMAL_BODY.concat());
}
