use anxwritter::color::ColorValue;
use anxwritter::entities::{EntityCommon, Icon, ThemeLine};
use anxwritter::error::{ErrorType, ValidationError};
use anxwritter::input::{ChartData, Config};
use anxwritter::models::{
    AttributeClass, DateTimeFormat, EntityType, GradeCollection, GradeRef, Link, Settings,
    Strength, StrengthCollection, Validator,
};
use anxwritter::enums::{AttributeType, DotStyle, MergeBehaviour};
use anxwritter::validation::display::{kinds_overlap, template_has_placeholder};
use anxwritter::validation::validate;

fn icon(id: &str, ty: &str) -> Icon {
    Icon {
        common: EntityCommon { id: id.into(), type_: ty.into(), ..Default::default() },
        ..Default::default()
    }
}

fn link(from: &str, to: &str) -> Link {
    Link { from_id: from.into(), to_id: to.into(), ..Default::default() }
}

fn kinds(errs: &[ValidationError]) -> Vec<ErrorType> {
    errs.iter().map(|e| e.error_type).collect()
}

#[test]
fn catches_dangling_link_and_self_loop() {
    let mut data = ChartData::default();
    data.entities.icons.push(icon("a", "P"));
    data.links.push(link("a", "ghost"));
    data.links.push(link("a", "a"));
    let errs = validate(&Config::default(), &data);
    assert!(errs.iter().any(|e| e.error_type == ErrorType::MissingEntity));
    assert!(errs.iter().any(|e| e.error_type == ErrorType::SelfLoop));
}

#[test]
fn catches_duplicate_id_and_missing_type() {
    let mut data = ChartData::default();
    data.entities.icons.push(icon("a", "P"));
    data.entities.icons.push(icon("a", ""));
    let errs = validate(&Config::default(), &data);
    assert!(errs.iter().any(|e| e.error_type == ErrorType::DuplicateId));
    assert!(errs.iter().any(|e| e.error_type == ErrorType::MissingRequired));
}

#[test]
fn catches_bad_arrow_and_color() {
    let mut data = ChartData::default();
    data.entities.icons.push(icon("a", "P"));
    data.entities.icons.push(icon("b", "P"));
    let mut l = link("a", "b");
    l.arrow = Some("sideways".into());
    l.line_color = Some(ColorValue::Str("notacolor".into()));
    data.links.push(l);
    let errs = validate(&Config::default(), &data);
    assert!(errs.iter().any(|e| e.error_type == ErrorType::InvalidArrow));
    assert!(errs.iter().any(|e| e.error_type == ErrorType::UnknownColor));
}

#[test]
fn empty_chart_has_no_findings() {
    assert!(validate(&Config::default(), &ChartData::default()).is_empty());
}

#[test]
fn duplicate_id_names_the_first_location() {
    let mut data = ChartData::default();
    data.entities.icons.push(icon("a", "P"));
    data.entities.theme_lines.push(ThemeLine {
        common: EntityCommon { id: "a".into(), type_: "T".into(), ..Default::default() },
        ..Default::default()
    });
    let errs = validate(&Config::default(), &data);
    assert_eq!(errs.len(), 1);
    assert_eq!(errs[0].error_type, ErrorType::DuplicateId);
    assert_eq!(errs[0].location, "entities[1] (ThemeLine)");
    assert_eq!(errs[0].message, "Duplicate entity id 'a' (first seen at entities[0] (Icon))");
}

#[test]
fn missing_id_skips_the_other_entity_rules() {
    let mut data = ChartData::default();
    data.entities.icons.push(icon("", ""));
    let errs = validate(&Config::default(), &data);
    assert_eq!(kinds(&errs), vec![ErrorType::MissingRequired]);
    assert_eq!(errs[0].message, "Missing required field 'id'");
}

#[test]
fn dangling_endpoint_messages() {
    let mut data = ChartData::default();
    data.entities.icons.push(icon("a", "P"));
    data.links.push(link("x", "y"));
    let errs = validate(&Config::default(), &data);
    assert_eq!(kinds(&errs), vec![ErrorType::MissingEntity, ErrorType::MissingEntity]);
    assert_eq!(errs[0].location, "links[0]");
    assert_eq!(errs[0].message, "Link from_id 'x' does not reference a known entity");
    assert_eq!(errs[1].message, "Entity 'y' (to_id) not found in any entity list");
}

#[test]
fn attribute_type_conflict_reports_both_types() {
    let mut data = ChartData::default();
    let mut a = icon("a", "P");
    a.common.attributes.insert("Age".into(), anxwritter::value::AttrValue::Int(3));
    let mut b = icon("b", "P");
    b.common.attributes.insert("Age".into(), anxwritter::value::AttrValue::Str("x".into()));
    data.entities.icons.push(a);
    data.entities.icons.push(b);
    let errs = validate(&Config::default(), &data);
    assert_eq!(kinds(&errs), vec![ErrorType::TypeConflict]);
    assert_eq!(errs[0].message, "Attribute 'Age' used as AttNumber and AttText");
}

#[test]
fn strength_must_be_known() {
    let mut data = ChartData::default();
    let mut a = icon("a", "P");
    a.common.strength = Some("Weak".into());
    data.entities.icons.push(a);
    let errs = validate(&Config::default(), &data);
    assert_eq!(kinds(&errs), vec![ErrorType::InvalidStrength]);
    let mut cfg = Config::default();
    cfg.strengths = Some(StrengthCollection {
        default: Some("Nope".into()),
        items: vec![Strength { name: "Weak".into(), dot_style: DotStyle::Dotted }],
    });
    let errs = validate(&cfg, &data);
    assert_eq!(kinds(&errs), vec![ErrorType::InvalidStrengthDefault]);
    assert_eq!(errs[0].message, "Default strength 'Nope' is not among the defined strengths");
}

#[test]
fn grades_are_range_checked() {
    let mut cfg = Config::default();
    cfg.grades_one = Some(GradeCollection { default: None, items: vec!["A".into()] });
    let mut data = ChartData::default();
    let mut a = icon("a", "P");
    a.common.grade_one = Some(GradeRef::Index(3));
    a.common.grade_two = Some(GradeRef::Name("Zed".into()));
    data.entities.icons.push(a);
    let errs = validate(&cfg, &data);
    assert_eq!(kinds(&errs), vec![ErrorType::GradeOutOfRange, ErrorType::UnknownGrade]);
    assert_eq!(errs[0].message, "grade_one index 3 out of range (0..1)");
    assert_eq!(errs[1].message, "Unknown grade_two 'Zed'");
}

#[test]
fn invalid_date_and_time() {
    let mut data = ChartData::default();
    let mut a = icon("a", "P");
    a.common.date = Some("2026-02-30".into());
    a.common.time = Some("25:00".into());
    data.entities.icons.push(a);
    let errs = validate(&Config::default(), &data);
    assert_eq!(kinds(&errs), vec![ErrorType::InvalidDate, ErrorType::InvalidTime]);
}

#[test]
fn ordered_needs_theme_lines() {
    let mut data = ChartData::default();
    data.entities.icons.push(icon("a", "P"));
    data.entities.icons.push(icon("b", "P"));
    let mut l = link("a", "b");
    l.ordered = Some(true);
    data.links.push(l);
    let errs = validate(&Config::default(), &data);
    assert_eq!(kinds(&errs), vec![ErrorType::InvalidOrdered]);
}

#[test]
fn type_definitions_must_be_unique() {
    let mut cfg = Config::default();
    cfg.entity_types.push(EntityType { name: "P".into(), ..Default::default() });
    cfg.entity_types.push(EntityType { name: "P".into(), ..Default::default() });
    cfg.attribute_classes.push(AttributeClass {
        name: "When".into(),
        type_: Some(AttributeType::Datetime),
        visible: Some(true),
        merge_behaviour: Some(MergeBehaviour::Add),
        ..Default::default()
    });
    let errs = validate(&cfg, &ChartData::default());
    assert_eq!(
        kinds(&errs),
        vec![
            ErrorType::DuplicateName,
            ErrorType::DatetimeAcForbidsVisible,
            ErrorType::InvalidMergeBehaviour
        ]
    );
    assert_eq!(errs[0].location, "entity_types[1]");
    assert_eq!(errs[2].message, "merge_behaviour 'add' is not valid for type 'datetime'");
}

#[test]
fn datetime_format_names_are_checked() {
    let mut cfg = Config::default();
    cfg.datetime_formats.push(DateTimeFormat { name: String::new(), format: "x".into() });
    cfg.datetime_formats.push(DateTimeFormat { name: "a".repeat(251), format: "y".into() });
    let errs = validate(&cfg, &ChartData::default());
    assert_eq!(kinds(&errs), vec![ErrorType::MissingRequired, ErrorType::InvalidValue]);
}

#[test]
fn validators_need_one_scope() {
    let mut cfg = Config::default();
    cfg.validators.push(Validator {
        attribute: Some("id".into()),
        pattern: Some("x".into()),
        ..Default::default()
    });
    let errs = validate(&cfg, &ChartData::default());
    assert_eq!(
        kinds(&errs),
        vec![
            ErrorType::ValidatorInvalidScope,
            ErrorType::ValidatorReservedAttribute,
            ErrorType::PatternMissingDescription
        ]
    );
}

#[test]
fn custom_icons_include_vocabulary() {
    let mut cfg = Config::default();
    let mut st = Settings::default();
    st.extra_cfg.custom_icons_include = Some("some".into());
    cfg.settings = Some(st);
    let errs = validate(&cfg, &ChartData::default());
    assert_eq!(kinds(&errs), vec![ErrorType::InvalidCustomIconsInclude]);
    assert_eq!(errs[0].message, "must be 'all' or 'referenced', got 'some'");
}

#[test]
fn id_pattern_is_enforced() {
    let mut cfg = Config::default();
    cfg.entity_types.push(EntityType {
        name: "P".into(),
        enforce: Some(anxwritter::models::EntityTypeEnforce {
            id_pattern: Some("[a-z]+".into()),
            id_pattern_description: Some("lowercase".into()),
            required_attributes: vec!["Age".into()],
        }),
        ..Default::default()
    });
    let mut data = ChartData::default();
    data.entities.icons.push(icon("A1", "P"));
    let errs = validate(&cfg, &data);
    assert_eq!(
        kinds(&errs),
        vec![ErrorType::IdPatternMismatch, ErrorType::RequiredAttributeMissing]
    );
    assert_eq!(errs[0].message, "id 'A1' does not match the type pattern");
}

#[test]
fn connection_styles_conflict_between_the_same_pair() {
    let mut data = ChartData::default();
    data.entities.icons.push(icon("a", "P"));
    data.entities.icons.push(icon("b", "P"));
    let mut l1 = link("a", "b");
    l1.multiplicity = Some("single".into());
    let mut l2 = link("b", "a");
    l2.multiplicity = Some("multiple".into());
    data.links.push(l1);
    data.links.push(l2);
    let errs = validate(&Config::default(), &data);
    assert_eq!(kinds(&errs), vec![ErrorType::ConnectionConflict]);
    assert_eq!(errs[0].location, "links[1]");
}

#[test]
fn reserved_com_names_are_rejected() {
    let mut cfg = Config::default();
    cfg.entity_types.push(EntityType {
        name: "P".into(),
        semantic_type: Some("LNEntityPerson".into()),
        ..Default::default()
    });
    cfg.link_types.push(anxwritter::models::LinkType {
        name: "L".into(),
        semantic_type: Some("Nothing".into()),
        ..Default::default()
    });
    let errs = validate(&cfg, &ChartData::default());
    assert_eq!(
        kinds(&errs),
        vec![ErrorType::InvalidSemanticType, ErrorType::UnknownSemanticType]
    );
}

#[test]
fn placeholders_and_kinds() {
    assert!(template_has_placeholder("{name} ({age})"));
    assert!(!template_has_placeholder("{{literal}}"));
    assert!(!template_has_placeholder("no braces"));
    assert!(kinds_overlap("both", "link"));
    assert!(kinds_overlap("entity", "entity"));
    assert!(!kinds_overlap("entity", "link"));
}
