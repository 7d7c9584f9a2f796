use anxwritter::error::ErrorType;
use anxwritter::color::{
    named_to_colorref, parse_color_str, rgb_to_colorref, ColorValue,
};
use anxwritter::custom_icons::payload;
use anxwritter::datetime::{build_datetime, parse_date, parse_time};
use anxwritter::discovery::{
    arrange_aliases, arrange_algorithms, enums, named_colors, named_colors_display,
};
use anxwritter::enums::Color;
use anxwritter::ids::IdCounter;
use anxwritter::interop::generate_guid;
use anxwritter::layout::normalize_arrange;
use anxwritter::models::{GradeCollection, GradeRef};
use anxwritter::number::F64Bits;
use anxwritter::transforms::{grade_default_index, resolve_grade};
use anxwritter::value::{AttrValue, FloatAttr, InferredType};
use anxwritter::xml::{escape, to_utf16le_with_bom, Utf16Sink, Utf8Sink, Writer, XmlSink};
use flate2::read::ZlibDecoder;
use std::io::Read;

#[test]
fn named_lookup_is_case_and_punctuation_insensitive() {
    let want = rgb_to_colorref(255, 153, 0);
    assert_eq!(named_to_colorref("Light Orange"), Some(want));
    assert_eq!(named_to_colorref("light-orange"), Some(want));
    assert_eq!(named_to_colorref("light_orange"), Some(want));
}

#[test]
fn hex_parsing() {
    assert_eq!(parse_color_str("#FF0000").unwrap(), rgb_to_colorref(255, 0, 0));
    assert_eq!(parse_color_str("00FF00").unwrap(), rgb_to_colorref(0, 255, 0));
}

#[test]
fn white_and_black_constants() {
    assert_eq!(named_to_colorref("white"), Some(16777215));
    assert_eq!(named_to_colorref("black"), Some(0));
}

#[test]
fn enum_resolves() {
    assert_eq!(
        ColorValue::Named(Color::Red).to_colorref().unwrap(),
        rgb_to_colorref(255, 0, 0)
    );
}

#[test]
fn iso_date_and_time() {
    assert_eq!(
        build_datetime(Some("2026-02-14"), Some("09:30:00")),
        Some(("2026-02-14T09:30:00.000".to_string(), true, true))
    );
}

#[test]
fn date_only() {
    assert_eq!(
        build_datetime(Some("2026-02-15"), None),
        Some(("2026-02-15T00:00:00.000".to_string(), true, false))
    );
}

#[test]
fn alt_formats() {
    assert_eq!(parse_date("14/02/2026"), Some((2026, 2, 14)));
    assert_eq!(parse_date("20260214"), Some((2026, 2, 14)));
    assert_eq!(parse_time("2:30 PM"), Some((14, 30, 0)));
}

#[test]
fn enums_cover_the_required_set() {
    let all = enums();
    let names: Vec<&str> = all.iter().map(|e| e.name).collect();
    for required in [
        "ArrowStyle",
        "DotStyle",
        "Multiplicity",
        "Representation",
        "ThemeWiring",
        "Enlargement",
        "IntensityScale",
        "MergeBehaviour",
        "LegendItemType",
        "MissingPolicy",
        "AttributeType",
        "ColorSpace",
    ] {
        assert!(names.contains(&required), "missing enum {required}");
    }
    let by_name = |n: &str| enums().into_iter().find(|e| e.name == n).unwrap().values;
    assert_eq!(by_name("ArrowStyle"), vec!["head", "tail", "both"]);
    assert_eq!(by_name("ColorSpace"), vec!["rgb", "rgb_linear", "hsl"]);
}

#[test]
fn arrange_alias_table_matches_python() {
    for (alias, canonical) in arrange_aliases() {
        assert!(
            arrange_algorithms().contains(&canonical),
            "alias {alias} -> {canonical} not a canonical algorithm"
        );
    }
    let has = |a: &str, c: &str| arrange_aliases().contains(&(a, c));
    assert!(has("fa2", "forceatlas2"));
    assert!(has("fruchterman_reingold", "fr"));
    assert!(has("reingold_tilford", "tree"));
    assert!(has("tidy_tree", "tree"));
}

#[test]
fn named_colors_are_present() {
    let map = named_colors();
    assert_eq!(map.len(), 40);
    assert!(map.contains(&("white", 0x00FF_FFFF)));
    assert!(map.contains(&("black", 0)));
}

#[test]
fn named_colors_display_preserves_python_casing() {
    let map = named_colors_display();
    assert_eq!(map.len(), 40);
    assert!(map.contains(&("Light Orange", 0x0000_99FF)));
    assert!(map.contains(&("Blue-Grey", 0x0099_6666)));
    assert!(map.contains(&("White", 0x00FF_FFFF)));
}

#[test]
fn starts_at_one_and_increments() {
    let mut c = IdCounter::new();
    assert_eq!(c.next_id(), "ID1");
    assert_eq!(c.next_id(), "ID2");
    assert_eq!(c.count(), 2);
}

#[test]
fn guid_is_deterministic_and_prefixed() {
    let a = generate_guid("entity:Suspect");
    let b = generate_guid("entity:Suspect");
    assert_eq!(a, b);
    assert!(a.starts_with("guid"));
    assert_eq!(a.len(), 4 + 36);
}

#[test]
fn distinct_keys_differ() {
    assert_ne!(generate_guid("entity:A"), generate_guid("entity:B"));
}

#[test]
fn normalize_aliases() {
    assert_eq!(normalize_arrange("Force-Atlas 2"), "forceatlas2");
    assert_eq!(normalize_arrange("FA2"), "forceatlas2");
    assert_eq!(normalize_arrange("Reingold-Tilford"), "tree");
    assert_eq!(normalize_arrange("weird"), "weird");
}

#[test]
fn grade_name_resolves_to_index() {
    let names = vec!["A".to_string(), "B".to_string(), "C".to_string()];
    assert_eq!(resolve_grade(Some(&GradeRef::Name("B".into())), &names), Some(1));
    assert_eq!(resolve_grade(Some(&GradeRef::Index(2)), &names), Some(2));
    assert_eq!(resolve_grade(Some(&GradeRef::Name("Z".into())), &names), None);
}

#[test]
fn grade_default_index_lookup() {
    let gc = GradeCollection {
        default: Some("B".into()),
        items: vec!["A".into(), "B".into()],
    };
    assert_eq!(grade_default_index(&gc), Some(1));
}

#[test]
fn bool_infers_flag_not_number() {
    assert_eq!(AttrValue::Bool(true).infer_type(), InferredType::Flag);
}

#[test]
fn numbers_infer_number() {
    assert_eq!(AttrValue::Int(12).infer_type(), InferredType::Number);
    let f = AttrValue::Float(FloatAttr {
        value: F64Bits { bits: 1.5f64.to_bits() },
        text: "1.5".to_string(),
    });
    assert_eq!(f.infer_type(), InferredType::Number);
}

#[test]
fn payload_roundtrips_to_a_valid_bmp() {
    let bmp = b"BM\x00\x00".to_vec();
    let (data, len) = payload(&bmp);
    assert_eq!(len, 4);
    let compressed =
        base64::Engine::decode(&base64::engine::general_purpose::STANDARD, data).unwrap();
    let mut d = ZlibDecoder::new(&compressed[..]);
    let mut out = Vec::new();
    d.read_to_end(&mut out).unwrap();
    assert_eq!(&out[..2], b"BM");
}

#[test]
fn escapes_markup_chars() {
    assert_eq!(escape("a & b < c > d \" e"), "a &amp; b &lt; c &gt; d &quot; e");
}

#[test]
fn keeps_allowed_whitespace_strips_forbidden_controls() {
    assert_eq!(escape("a\tb\nc\rd\u{0001}e"), "a\tb\nc\rde");
}

#[test]
fn writer_emits_compact_lines() {
    let mut s = String::new();
    {
        let mut w = Writer::new(&mut s, true);
        w.open("Chart", &[]);
        w.empty("Strength", &[("Id", "ID1".into()), ("Name", "A & B".into())]);
        w.close("Chart");
    }
    assert_eq!(s, "<Chart>\n<Strength Id=\"ID1\" Name=\"A &amp; B\"/>\n</Chart>\n");
}

#[test]
fn utf16_sink_streams_with_bom() {
    let mut out: Vec<u8> = Vec::new();
    {
        let mut sink = Utf16Sink::new(&mut out).unwrap();
        {
            let mut w = Writer::new(&mut sink, true);
            w.empty("A", &[]);
        }
        sink.finish().unwrap();
    }
    assert_eq!(&out[..2], &[0xFF, 0xFE]);
    let units: Vec<u16> = out[2..]
        .chunks(2)
        .map(|c| u16::from_le_bytes([c[0], c[1]]))
        .collect();
    assert_eq!(String::from_utf16(&units).unwrap(), "<A/>\n");
}

#[test]
fn bom_then_utf16le() {
    let b = to_utf16le_with_bom("A");
    assert_eq!(b, vec![0xFF, 0xFE, 0x41, 0x00]);
}

#[test]
fn sinks_over_memory_always_succeed() {
    let mut s = Utf16Sink::new(Vec::<u8>::new()).unwrap();
    s.write_str("A");
    assert_eq!(s.finish().unwrap(), vec![0xFF, 0xFE, b'A', 0]);
    let mut u = Utf8Sink::new(Vec::<u8>::new());
    u.write_str("é");
    assert_eq!(u.finish().unwrap(), "é".as_bytes().to_vec());
}

#[test]
fn decoding_escaped_text_gives_back_the_input_without_dropped_controls() {
    let input = "a&b<c>d\"e\u{1}f\tg\nh\ri&amp;";
    let escaped = escape(input).to_string();
    let decoded = escaped
        .replace("&lt;", "<")
        .replace("&gt;", ">")
        .replace("&quot;", "\"")
        .replace("&amp;", "&");
    assert_eq!(decoded, "a&b<c>d\"ef\tg\nh\ri&amp;");
}

#[test]
fn distinct_error_types_have_distinct_codes() {
    let kinds = [
        ErrorType::MissingRequired,
        ErrorType::DuplicateId,
        ErrorType::DuplicateName,
        ErrorType::MissingEntity,
        ErrorType::MissingTarget,
        ErrorType::LockedOverride,
        ErrorType::DeleteContract,
        ErrorType::PatternMissingDescription,
    ];
    for (i, a) in kinds.iter().enumerate() {
        for b in kinds.iter().skip(i + 1) {
            assert_ne!(a.as_str(), b.as_str());
        }
    }
}
