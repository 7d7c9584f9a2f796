//! Error types and the validation-error record.
//!
//! Validation collects a list of [`ValidationError`] records rather than
//! stopping at the first problem; the whole batch travels together in
//! [`AnxValidationError`].
use vstd::prelude::*;

use crate::text::{push_dec};

verus! {

/// The registry of validation error categories. Each code is written as a
/// stable snake_case string (see [`ErrorType::as_str`]).
#[derive(Debug, Clone, Copy, PartialEq, Eq, Structural)]
pub enum ErrorType {
    MissingRequired,
    DuplicateId,
    DuplicateName,
    MissingEntity,
    MissingTarget,
    UnknownColor,
    InvalidDate,
    InvalidTime,
    TypeConflict,
    InvalidArrow,
    SelfLoop,
    InvalidStrength,
    InvalidStrengthDefault,
    InvalidGradeDefault,
    GradeOutOfRange,
    UnknownGrade,
    InvalidOrdered,
    InvalidLegendType,
    InvalidTimezone,
    TimezoneWithoutDatetime,
    InvalidMultiplicity,
    InvalidThemeWiring,
    ConnectionConflict,
    ConfigConflict,
    PaletteTypeMismatch,
    PaletteUnknownRef,
    PaletteInvalidClass,
    InvalidValue,
    UnsupportedRepresentation,
    UnregisteredDatetimeFormat,
    InvalidSemanticType,
    UnknownSemanticType,
    InvalidMergeBehaviour,
    InvalidPasteBehaviour,
    InvalidGeoMap,
    IconMapInvalid,
    InvalidCustomIconsInclude,
    InvalidIntensityConfig,
    InvalidIntensityAttribute,
    InvalidIntensityDomain,
    InvalidIntensityRange,
    InvalidIntensityRamp,
    InvalidCategoricalConfig,
    InvalidCategoricalAttribute,
    InvalidCategoricalStyle,
    StylingConflict,
    DatetimeAcForbidsVisible,
    DisplayInvalid,
    DisplayNameCollision,
    DisplayOverlapConflict,
    LockedOverride,
    DeleteContract,
    IdPatternMismatch,
    AttributePatternMismatch,
    AttributeValueNotAllowed,
    RequiredAttributeMissing,
    InvalidValidatorPattern,
    ValidatorUnknownType,
    ValidatorInvalidScope,
    ValidatorInvalidShape,
    ValidatorDuplicateKey,
    ValidatorReservedAttribute,
    PatternMissingDescription,
}

/// Length, first, ninth and third-to-last character of a code: enough to
/// tell every category's code apart.
pub open spec fn code_feature(s: Seq<char>) -> (nat, char, char, char) {
    (s.len(), s[0], s[8], s[s.len() - 3])
}

/// The feature of each category's code.
pub open spec fn feature_of(e: ErrorType) -> (nat, char, char, char) {
    match e {
        ErrorType::MissingRequired => (16, 'm', 'r', 'r'),
        ErrorType::DuplicateId => (12, 'd', 'e', '_'),
        ErrorType::DuplicateName => (14, 'd', 'e', 'a'),
        ErrorType::MissingEntity => (14, 'm', 'e', 'i'),
        ErrorType::MissingTarget => (14, 'm', 't', 'g'),
        ErrorType::UnknownColor => (13, 'u', 'c', 'l'),
        ErrorType::InvalidDate => (12, 'i', 'd', 'a'),
        ErrorType::InvalidTime => (12, 'i', 't', 'i'),
        ErrorType::TypeConflict => (13, 't', 'f', 'i'),
        ErrorType::InvalidArrow => (13, 'i', 'a', 'r'),
        ErrorType::SelfLoop => (9, 's', 'p', 'o'),
        ErrorType::InvalidStrength => (16, 'i', 's', 'g'),
        ErrorType::InvalidStrengthDefault => (24, 'i', 's', 'u'),
        ErrorType::InvalidGradeDefault => (21, 'i', 'g', 'u'),
        ErrorType::GradeOutOfRange => (18, 'g', 't', 'n'),
        ErrorType::UnknownGrade => (13, 'u', 'g', 'a'),
        ErrorType::InvalidOrdered => (15, 'i', 'o', 'r'),
        ErrorType::InvalidLegendType => (19, 'i', 'l', 'y'),
        ErrorType::InvalidTimezone => (16, 'i', 't', 'o'),
        ErrorType::TimezoneWithoutDatetime => (25, 't', '_', 'i'),
        ErrorType::InvalidMultiplicity => (20, 'i', 'm', 'i'),
        ErrorType::InvalidThemeWiring => (20, 'i', 't', 'i'),
        ErrorType::ConnectionConflict => (19, 'c', 'o', 'i'),
        ErrorType::ConfigConflict => (15, 'c', 'o', 'i'),
        ErrorType::PaletteTypeMismatch => (21, 'p', 't', 't'),
        ErrorType::PaletteUnknownRef => (19, 'p', 'u', 'r'),
        ErrorType::PaletteInvalidClass => (21, 'p', 'i', 'a'),
        ErrorType::InvalidValue => (13, 'i', 'v', 'l'),
        ErrorType::UnsupportedRepresentation => (26, 'u', 't', 'i'),
        ErrorType::UnregisteredDatetimeFormat => (28, 'u', 'e', 'm'),
        ErrorType::InvalidSemanticType => (21, 'i', 's', 'y'),
        ErrorType::UnknownSemanticType => (21, 'u', 's', 'y'),
        ErrorType::InvalidMergeBehaviour => (23, 'i', 'm', 'o'),
        ErrorType::InvalidPasteBehaviour => (23, 'i', 'p', 'o'),
        ErrorType::InvalidGeoMap => (15, 'i', 'g', 'm'),
        ErrorType::IconMapInvalid => (16, 'i', '_', 'l'),
        ErrorType::InvalidCustomIconsInclude => (28, 'i', 'c', 'u'),
        ErrorType::InvalidIntensityConfig => (24, 'i', 'i', 'f'),
        ErrorType::InvalidIntensityAttribute => (27, 'i', 'i', 'u'),
        ErrorType::InvalidIntensityDomain => (24, 'i', 'i', 'a'),
        ErrorType::InvalidIntensityRange => (23, 'i', 'i', 'n'),
        ErrorType::InvalidIntensityRamp => (22, 'i', 'i', 'a'),
        ErrorType::InvalidCategoricalConfig => (26, 'i', 'c', 'f'),
        ErrorType::InvalidCategoricalAttribute => (29, 'i', 'c', 'u'),
        ErrorType::InvalidCategoricalStyle => (25, 'i', 'c', 'y'),
        ErrorType::StylingConflict => (16, 's', 'c', 'i'),
        ErrorType::DatetimeAcForbidsVisible => (27, 'd', '_', 'b'),
        ErrorType::DisplayInvalid => (15, 'd', 'i', 'l'),
        ErrorType::DisplayNameCollision => (22, 'd', 'n', 'i'),
        ErrorType::DisplayOverlapConflict => (24, 'd', 'o', 'i'),
        ErrorType::LockedOverride => (15, 'l', 'v', 'i'),
        ErrorType::DeleteContract => (15, 'd', 'o', 'a'),
        ErrorType::IdPatternMismatch => (19, 'i', 'r', 't'),
        ErrorType::AttributePatternMismatch => (26, 'a', 'e', 't'),
        ErrorType::AttributeValueNotAllowed => (27, 'a', 'e', 'w'),
        ErrorType::RequiredAttributeMissing => (26, 'r', '_', 'i'),
        ErrorType::InvalidValidatorPattern => (25, 'i', 'v', 'e'),
        ErrorType::ValidatorUnknownType => (22, 'v', 'r', 'y'),
        ErrorType::ValidatorInvalidScope => (23, 'v', 'r', 'o'),
        ErrorType::ValidatorInvalidShape => (23, 'v', 'r', 'a'),
        ErrorType::ValidatorDuplicateKey => (23, 'v', 'r', 'k'),
        ErrorType::ValidatorReservedAttribute => (28, 'v', 'r', 'u'),
        ErrorType::PatternMissingDescription => (27, 'p', 'm', 'i'),
    }
}

/// The category with a given feature.
pub open spec fn category_with(f: (nat, char, char, char)) -> ErrorType {
    if f == (16nat, 'm', 'r', 'r') {
        ErrorType::MissingRequired
    } else if f == (12nat, 'd', 'e', '_') {
        ErrorType::DuplicateId
    } else if f == (14nat, 'd', 'e', 'a') {
        ErrorType::DuplicateName
    } else if f == (14nat, 'm', 'e', 'i') {
        ErrorType::MissingEntity
    } else if f == (14nat, 'm', 't', 'g') {
        ErrorType::MissingTarget
    } else if f == (13nat, 'u', 'c', 'l') {
        ErrorType::UnknownColor
    } else if f == (12nat, 'i', 'd', 'a') {
        ErrorType::InvalidDate
    } else if f == (12nat, 'i', 't', 'i') {
        ErrorType::InvalidTime
    } else if f == (13nat, 't', 'f', 'i') {
        ErrorType::TypeConflict
    } else if f == (13nat, 'i', 'a', 'r') {
        ErrorType::InvalidArrow
    } else if f == (9nat, 's', 'p', 'o') {
        ErrorType::SelfLoop
    } else if f == (16nat, 'i', 's', 'g') {
        ErrorType::InvalidStrength
    } else if f == (24nat, 'i', 's', 'u') {
        ErrorType::InvalidStrengthDefault
    } else if f == (21nat, 'i', 'g', 'u') {
        ErrorType::InvalidGradeDefault
    } else if f == (18nat, 'g', 't', 'n') {
        ErrorType::GradeOutOfRange
    } else if f == (13nat, 'u', 'g', 'a') {
        ErrorType::UnknownGrade
    } else if f == (15nat, 'i', 'o', 'r') {
        ErrorType::InvalidOrdered
    } else if f == (19nat, 'i', 'l', 'y') {
        ErrorType::InvalidLegendType
    } else if f == (16nat, 'i', 't', 'o') {
        ErrorType::InvalidTimezone
    } else if f == (25nat, 't', '_', 'i') {
        ErrorType::TimezoneWithoutDatetime
    } else if f == (20nat, 'i', 'm', 'i') {
        ErrorType::InvalidMultiplicity
    } else if f == (20nat, 'i', 't', 'i') {
        ErrorType::InvalidThemeWiring
    } else if f == (19nat, 'c', 'o', 'i') {
        ErrorType::ConnectionConflict
    } else if f == (15nat, 'c', 'o', 'i') {
        ErrorType::ConfigConflict
    } else if f == (21nat, 'p', 't', 't') {
        ErrorType::PaletteTypeMismatch
    } else if f == (19nat, 'p', 'u', 'r') {
        ErrorType::PaletteUnknownRef
    } else if f == (21nat, 'p', 'i', 'a') {
        ErrorType::PaletteInvalidClass
    } else if f == (13nat, 'i', 'v', 'l') {
        ErrorType::InvalidValue
    } else if f == (26nat, 'u', 't', 'i') {
        ErrorType::UnsupportedRepresentation
    } else if f == (28nat, 'u', 'e', 'm') {
        ErrorType::UnregisteredDatetimeFormat
    } else if f == (21nat, 'i', 's', 'y') {
        ErrorType::InvalidSemanticType
    } else if f == (21nat, 'u', 's', 'y') {
        ErrorType::UnknownSemanticType
    } else if f == (23nat, 'i', 'm', 'o') {
        ErrorType::InvalidMergeBehaviour
    } else if f == (23nat, 'i', 'p', 'o') {
        ErrorType::InvalidPasteBehaviour
    } else if f == (15nat, 'i', 'g', 'm') {
        ErrorType::InvalidGeoMap
    } else if f == (16nat, 'i', '_', 'l') {
        ErrorType::IconMapInvalid
    } else if f == (28nat, 'i', 'c', 'u') {
        ErrorType::InvalidCustomIconsInclude
    } else if f == (24nat, 'i', 'i', 'f') {
        ErrorType::InvalidIntensityConfig
    } else if f == (27nat, 'i', 'i', 'u') {
        ErrorType::InvalidIntensityAttribute
    } else if f == (24nat, 'i', 'i', 'a') {
        ErrorType::InvalidIntensityDomain
    } else if f == (23nat, 'i', 'i', 'n') {
        ErrorType::InvalidIntensityRange
    } else if f == (22nat, 'i', 'i', 'a') {
        ErrorType::InvalidIntensityRamp
    } else if f == (26nat, 'i', 'c', 'f') {
        ErrorType::InvalidCategoricalConfig
    } else if f == (29nat, 'i', 'c', 'u') {
        ErrorType::InvalidCategoricalAttribute
    } else if f == (25nat, 'i', 'c', 'y') {
        ErrorType::InvalidCategoricalStyle
    } else if f == (16nat, 's', 'c', 'i') {
        ErrorType::StylingConflict
    } else if f == (27nat, 'd', '_', 'b') {
        ErrorType::DatetimeAcForbidsVisible
    } else if f == (15nat, 'd', 'i', 'l') {
        ErrorType::DisplayInvalid
    } else if f == (22nat, 'd', 'n', 'i') {
        ErrorType::DisplayNameCollision
    } else if f == (24nat, 'd', 'o', 'i') {
        ErrorType::DisplayOverlapConflict
    } else if f == (15nat, 'l', 'v', 'i') {
        ErrorType::LockedOverride
    } else if f == (15nat, 'd', 'o', 'a') {
        ErrorType::DeleteContract
    } else if f == (19nat, 'i', 'r', 't') {
        ErrorType::IdPatternMismatch
    } else if f == (26nat, 'a', 'e', 't') {
        ErrorType::AttributePatternMismatch
    } else if f == (27nat, 'a', 'e', 'w') {
        ErrorType::AttributeValueNotAllowed
    } else if f == (26nat, 'r', '_', 'i') {
        ErrorType::RequiredAttributeMissing
    } else if f == (25nat, 'i', 'v', 'e') {
        ErrorType::InvalidValidatorPattern
    } else if f == (22nat, 'v', 'r', 'y') {
        ErrorType::ValidatorUnknownType
    } else if f == (23nat, 'v', 'r', 'o') {
        ErrorType::ValidatorInvalidScope
    } else if f == (23nat, 'v', 'r', 'a') {
        ErrorType::ValidatorInvalidShape
    } else if f == (23nat, 'v', 'r', 'k') {
        ErrorType::ValidatorDuplicateKey
    } else if f == (28nat, 'v', 'r', 'u') {
        ErrorType::ValidatorReservedAttribute
    } else if f == (27nat, 'p', 'm', 'i') {
        ErrorType::PatternMissingDescription
    } else {
        ErrorType::MissingRequired
    }
}

#[verifier::rlimit(50)]
proof fn lemma_code_feature(e: ErrorType)
    ensures
        code_feature(e.code()) == feature_of(e),
{
    match e {
        ErrorType::MissingRequired => {
            reveal_strlit("missing_required");
        },
        ErrorType::DuplicateId => {
            reveal_strlit("duplicate_id");
        },
        ErrorType::DuplicateName => {
            reveal_strlit("duplicate_name");
        },
        ErrorType::MissingEntity => {
            reveal_strlit("missing_entity");
        },
        ErrorType::MissingTarget => {
            reveal_strlit("missing_target");
        },
        ErrorType::UnknownColor => {
            reveal_strlit("unknown_color");
        },
        ErrorType::InvalidDate => {
            reveal_strlit("invalid_date");
        },
        ErrorType::InvalidTime => {
            reveal_strlit("invalid_time");
        },
        ErrorType::TypeConflict => {
            reveal_strlit("type_conflict");
        },
        ErrorType::InvalidArrow => {
            reveal_strlit("invalid_arrow");
        },
        ErrorType::SelfLoop => {
            reveal_strlit("self_loop");
        },
        ErrorType::InvalidStrength => {
            reveal_strlit("invalid_strength");
        },
        ErrorType::InvalidStrengthDefault => {
            reveal_strlit("invalid_strength_default");
        },
        ErrorType::InvalidGradeDefault => {
            reveal_strlit("invalid_grade_default");
        },
        ErrorType::GradeOutOfRange => {
            reveal_strlit("grade_out_of_range");
        },
        ErrorType::UnknownGrade => {
            reveal_strlit("unknown_grade");
        },
        ErrorType::InvalidOrdered => {
            reveal_strlit("invalid_ordered");
        },
        ErrorType::InvalidLegendType => {
            reveal_strlit("invalid_legend_type");
        },
        ErrorType::InvalidTimezone => {
            reveal_strlit("invalid_timezone");
        },
        ErrorType::TimezoneWithoutDatetime => {
            reveal_strlit("timezone_without_datetime");
        },
        ErrorType::InvalidMultiplicity => {
            reveal_strlit("invalid_multiplicity");
        },
        ErrorType::InvalidThemeWiring => {
            reveal_strlit("invalid_theme_wiring");
        },
        ErrorType::ConnectionConflict => {
            reveal_strlit("connection_conflict");
        },
        ErrorType::ConfigConflict => {
            reveal_strlit("config_conflict");
        },
        ErrorType::PaletteTypeMismatch => {
            reveal_strlit("palette_type_mismatch");
        },
        ErrorType::PaletteUnknownRef => {
            reveal_strlit("palette_unknown_ref");
        },
        ErrorType::PaletteInvalidClass => {
            reveal_strlit("palette_invalid_class");
        },
        ErrorType::InvalidValue => {
            reveal_strlit("invalid_value");
        },
        ErrorType::UnsupportedRepresentation => {
            reveal_strlit("unsupported_representation");
        },
        ErrorType::UnregisteredDatetimeFormat => {
            reveal_strlit("unregistered_datetime_format");
        },
        ErrorType::InvalidSemanticType => {
            reveal_strlit("invalid_semantic_type");
        },
        ErrorType::UnknownSemanticType => {
            reveal_strlit("unknown_semantic_type");
        },
        ErrorType::InvalidMergeBehaviour => {
            reveal_strlit("invalid_merge_behaviour");
        },
        ErrorType::InvalidPasteBehaviour => {
            reveal_strlit("invalid_paste_behaviour");
        },
        ErrorType::InvalidGeoMap => {
            reveal_strlit("invalid_geo_map");
        },
        ErrorType::IconMapInvalid => {
            reveal_strlit("icon_map_invalid");
        },
        ErrorType::InvalidCustomIconsInclude => {
            reveal_strlit("invalid_custom_icons_include");
        },
        ErrorType::InvalidIntensityConfig => {
            reveal_strlit("invalid_intensity_config");
        },
        ErrorType::InvalidIntensityAttribute => {
            reveal_strlit("invalid_intensity_attribute");
        },
        ErrorType::InvalidIntensityDomain => {
            reveal_strlit("invalid_intensity_domain");
        },
        ErrorType::InvalidIntensityRange => {
            reveal_strlit("invalid_intensity_range");
        },
        ErrorType::InvalidIntensityRamp => {
            reveal_strlit("invalid_intensity_ramp");
        },
        ErrorType::InvalidCategoricalConfig => {
            reveal_strlit("invalid_categorical_config");
        },
        ErrorType::InvalidCategoricalAttribute => {
            reveal_strlit("invalid_categorical_attribute");
        },
        ErrorType::InvalidCategoricalStyle => {
            reveal_strlit("invalid_categorical_style");
        },
        ErrorType::StylingConflict => {
            reveal_strlit("styling_conflict");
        },
        ErrorType::DatetimeAcForbidsVisible => {
            reveal_strlit("datetime_ac_forbids_visible");
        },
        ErrorType::DisplayInvalid => {
            reveal_strlit("display_invalid");
        },
        ErrorType::DisplayNameCollision => {
            reveal_strlit("display_name_collision");
        },
        ErrorType::DisplayOverlapConflict => {
            reveal_strlit("display_overlap_conflict");
        },
        ErrorType::LockedOverride => {
            reveal_strlit("locked_override");
        },
        ErrorType::DeleteContract => {
            reveal_strlit("delete_contract");
        },
        ErrorType::IdPatternMismatch => {
            reveal_strlit("id_pattern_mismatch");
        },
        ErrorType::AttributePatternMismatch => {
            reveal_strlit("attribute_pattern_mismatch");
        },
        ErrorType::AttributeValueNotAllowed => {
            reveal_strlit("attribute_value_not_allowed");
        },
        ErrorType::RequiredAttributeMissing => {
            reveal_strlit("required_attribute_missing");
        },
        ErrorType::InvalidValidatorPattern => {
            reveal_strlit("invalid_validator_pattern");
        },
        ErrorType::ValidatorUnknownType => {
            reveal_strlit("validator_unknown_type");
        },
        ErrorType::ValidatorInvalidScope => {
            reveal_strlit("validator_invalid_scope");
        },
        ErrorType::ValidatorInvalidShape => {
            reveal_strlit("validator_invalid_shape");
        },
        ErrorType::ValidatorDuplicateKey => {
            reveal_strlit("validator_duplicate_key");
        },
        ErrorType::ValidatorReservedAttribute => {
            reveal_strlit("validator_reserved_attribute");
        },
        ErrorType::PatternMissingDescription => {
            reveal_strlit("pattern_missing_description");
        },
    }
}

#[verifier::rlimit(50)]
proof fn lemma_category_with(e: ErrorType)
    ensures
        category_with(feature_of(e)) == e,
{
}

/// Distinct error categories have distinct codes.
pub proof fn error_codes_distinct(a: ErrorType, b: ErrorType)
    requires
        a != b,
    ensures
        a.code() != b.code(),
{
    lemma_code_feature(a);
    lemma_code_feature(b);
    lemma_category_with(a);
    lemma_category_with(b);
}

impl ErrorType {
    /// The snake_case code of this category.
    pub open spec fn code(self) -> Seq<char> {
        match self {
            ErrorType::MissingRequired => "missing_required"@,
            ErrorType::DuplicateId => "duplicate_id"@,
            ErrorType::DuplicateName => "duplicate_name"@,
            ErrorType::MissingEntity => "missing_entity"@,
            ErrorType::MissingTarget => "missing_target"@,
            ErrorType::UnknownColor => "unknown_color"@,
            ErrorType::InvalidDate => "invalid_date"@,
            ErrorType::InvalidTime => "invalid_time"@,
            ErrorType::TypeConflict => "type_conflict"@,
            ErrorType::InvalidArrow => "invalid_arrow"@,
            ErrorType::SelfLoop => "self_loop"@,
            ErrorType::InvalidStrength => "invalid_strength"@,
            ErrorType::InvalidStrengthDefault => "invalid_strength_default"@,
            ErrorType::InvalidGradeDefault => "invalid_grade_default"@,
            ErrorType::GradeOutOfRange => "grade_out_of_range"@,
            ErrorType::UnknownGrade => "unknown_grade"@,
            ErrorType::InvalidOrdered => "invalid_ordered"@,
            ErrorType::InvalidLegendType => "invalid_legend_type"@,
            ErrorType::InvalidTimezone => "invalid_timezone"@,
            ErrorType::TimezoneWithoutDatetime => "timezone_without_datetime"@,
            ErrorType::InvalidMultiplicity => "invalid_multiplicity"@,
            ErrorType::InvalidThemeWiring => "invalid_theme_wiring"@,
            ErrorType::ConnectionConflict => "connection_conflict"@,
            ErrorType::ConfigConflict => "config_conflict"@,
            ErrorType::PaletteTypeMismatch => "palette_type_mismatch"@,
            ErrorType::PaletteUnknownRef => "palette_unknown_ref"@,
            ErrorType::PaletteInvalidClass => "palette_invalid_class"@,
            ErrorType::InvalidValue => "invalid_value"@,
            ErrorType::UnsupportedRepresentation => "unsupported_representation"@,
            ErrorType::UnregisteredDatetimeFormat => "unregistered_datetime_format"@,
            ErrorType::InvalidSemanticType => "invalid_semantic_type"@,
            ErrorType::UnknownSemanticType => "unknown_semantic_type"@,
            ErrorType::InvalidMergeBehaviour => "invalid_merge_behaviour"@,
            ErrorType::InvalidPasteBehaviour => "invalid_paste_behaviour"@,
            ErrorType::InvalidGeoMap => "invalid_geo_map"@,
            ErrorType::IconMapInvalid => "icon_map_invalid"@,
            ErrorType::InvalidCustomIconsInclude => "invalid_custom_icons_include"@,
            ErrorType::InvalidIntensityConfig => "invalid_intensity_config"@,
            ErrorType::InvalidIntensityAttribute => "invalid_intensity_attribute"@,
            ErrorType::InvalidIntensityDomain => "invalid_intensity_domain"@,
            ErrorType::InvalidIntensityRange => "invalid_intensity_range"@,
            ErrorType::InvalidIntensityRamp => "invalid_intensity_ramp"@,
            ErrorType::InvalidCategoricalConfig => "invalid_categorical_config"@,
            ErrorType::InvalidCategoricalAttribute => "invalid_categorical_attribute"@,
            ErrorType::InvalidCategoricalStyle => "invalid_categorical_style"@,
            ErrorType::StylingConflict => "styling_conflict"@,
            ErrorType::DatetimeAcForbidsVisible => "datetime_ac_forbids_visible"@,
            ErrorType::DisplayInvalid => "display_invalid"@,
            ErrorType::DisplayNameCollision => "display_name_collision"@,
            ErrorType::DisplayOverlapConflict => "display_overlap_conflict"@,
            ErrorType::LockedOverride => "locked_override"@,
            ErrorType::DeleteContract => "delete_contract"@,
            ErrorType::IdPatternMismatch => "id_pattern_mismatch"@,
            ErrorType::AttributePatternMismatch => "attribute_pattern_mismatch"@,
            ErrorType::AttributeValueNotAllowed => "attribute_value_not_allowed"@,
            ErrorType::RequiredAttributeMissing => "required_attribute_missing"@,
            ErrorType::InvalidValidatorPattern => "invalid_validator_pattern"@,
            ErrorType::ValidatorUnknownType => "validator_unknown_type"@,
            ErrorType::ValidatorInvalidScope => "validator_invalid_scope"@,
            ErrorType::ValidatorInvalidShape => "validator_invalid_shape"@,
            ErrorType::ValidatorDuplicateKey => "validator_duplicate_key"@,
            ErrorType::ValidatorReservedAttribute => "validator_reserved_attribute"@,
            ErrorType::PatternMissingDescription => "pattern_missing_description"@,
        }
    }

    /// The stable snake_case wire string for this code.
    pub fn as_str(&self) -> (s: &'static str)
        ensures
            s@ == self.code(),
    {
        match self {
            ErrorType::MissingRequired => "missing_required",
            ErrorType::DuplicateId => "duplicate_id",
            ErrorType::DuplicateName => "duplicate_name",
            ErrorType::MissingEntity => "missing_entity",
            ErrorType::MissingTarget => "missing_target",
            ErrorType::UnknownColor => "unknown_color",
            ErrorType::InvalidDate => "invalid_date",
            ErrorType::InvalidTime => "invalid_time",
            ErrorType::TypeConflict => "type_conflict",
            ErrorType::InvalidArrow => "invalid_arrow",
            ErrorType::SelfLoop => "self_loop",
            ErrorType::InvalidStrength => "invalid_strength",
            ErrorType::InvalidStrengthDefault => "invalid_strength_default",
            ErrorType::InvalidGradeDefault => "invalid_grade_default",
            ErrorType::GradeOutOfRange => "grade_out_of_range",
            ErrorType::UnknownGrade => "unknown_grade",
            ErrorType::InvalidOrdered => "invalid_ordered",
            ErrorType::InvalidLegendType => "invalid_legend_type",
            ErrorType::InvalidTimezone => "invalid_timezone",
            ErrorType::TimezoneWithoutDatetime => "timezone_without_datetime",
            ErrorType::InvalidMultiplicity => "invalid_multiplicity",
            ErrorType::InvalidThemeWiring => "invalid_theme_wiring",
            ErrorType::ConnectionConflict => "connection_conflict",
            ErrorType::ConfigConflict => "config_conflict",
            ErrorType::PaletteTypeMismatch => "palette_type_mismatch",
            ErrorType::PaletteUnknownRef => "palette_unknown_ref",
            ErrorType::PaletteInvalidClass => "palette_invalid_class",
            ErrorType::InvalidValue => "invalid_value",
            ErrorType::UnsupportedRepresentation => "unsupported_representation",
            ErrorType::UnregisteredDatetimeFormat => "unregistered_datetime_format",
            ErrorType::InvalidSemanticType => "invalid_semantic_type",
            ErrorType::UnknownSemanticType => "unknown_semantic_type",
            ErrorType::InvalidMergeBehaviour => "invalid_merge_behaviour",
            ErrorType::InvalidPasteBehaviour => "invalid_paste_behaviour",
            ErrorType::InvalidGeoMap => "invalid_geo_map",
            ErrorType::IconMapInvalid => "icon_map_invalid",
            ErrorType::InvalidCustomIconsInclude => "invalid_custom_icons_include",
            ErrorType::InvalidIntensityConfig => "invalid_intensity_config",
            ErrorType::InvalidIntensityAttribute => "invalid_intensity_attribute",
            ErrorType::InvalidIntensityDomain => "invalid_intensity_domain",
            ErrorType::InvalidIntensityRange => "invalid_intensity_range",
            ErrorType::InvalidIntensityRamp => "invalid_intensity_ramp",
            ErrorType::InvalidCategoricalConfig => "invalid_categorical_config",
            ErrorType::InvalidCategoricalAttribute => "invalid_categorical_attribute",
            ErrorType::InvalidCategoricalStyle => "invalid_categorical_style",
            ErrorType::StylingConflict => "styling_conflict",
            ErrorType::DatetimeAcForbidsVisible => "datetime_ac_forbids_visible",
            ErrorType::DisplayInvalid => "display_invalid",
            ErrorType::DisplayNameCollision => "display_name_collision",
            ErrorType::DisplayOverlapConflict => "display_overlap_conflict",
            ErrorType::LockedOverride => "locked_override",
            ErrorType::DeleteContract => "delete_contract",
            ErrorType::IdPatternMismatch => "id_pattern_mismatch",
            ErrorType::AttributePatternMismatch => "attribute_pattern_mismatch",
            ErrorType::AttributeValueNotAllowed => "attribute_value_not_allowed",
            ErrorType::RequiredAttributeMissing => "required_attribute_missing",
            ErrorType::InvalidValidatorPattern => "invalid_validator_pattern",
            ErrorType::ValidatorUnknownType => "validator_unknown_type",
            ErrorType::ValidatorInvalidScope => "validator_invalid_scope",
            ErrorType::ValidatorInvalidShape => "validator_invalid_shape",
            ErrorType::ValidatorDuplicateKey => "validator_duplicate_key",
            ErrorType::ValidatorReservedAttribute => "validator_reserved_attribute",
            ErrorType::PatternMissingDescription => "pattern_missing_description",
        }
    }
}

/// A single validation finding. `source`, `config_source` and `rule_source`
/// are optional provenance tags attached as findings flow through config
/// layering and rule groups.
#[derive(Debug)]
pub struct ValidationError {
    pub error_type: ErrorType,
    pub location: String,
    pub message: String,
    pub source: Option<String>,
    pub config_source: Option<String>,
    pub rule_source: Option<String>,
}

impl ValidationError {
    /// A finding with no provenance tags.
    pub fn new(error_type: ErrorType, location: String, message: String) -> (e: Self)
        ensures
            e.error_type == error_type,
            e.location == location,
            e.message == message,
            e.source is None,
            e.config_source is None,
            e.rule_source is None,
    {
        ValidationError {
            error_type,
            location,
            message,
            source: None,
            config_source: None,
            rule_source: None,
        }
    }
}

/// Raised when a chart fails validation; carries the full batch of findings.
#[derive(Debug)]
pub struct AnxValidationError {
    pub errors: Vec<ValidationError>,
}

/// One finding as it appears in the batch summary: `\n  - [{location}] {code}: {message}`.
pub open spec fn finding_line(e: ValidationError) -> Seq<char> {
    "\n  - ["@ + e.location@ + "] "@ + e.error_type.code() + ": "@ + e.message@
}

/// All findings' lines, in order.
pub open spec fn finding_lines(es: Seq<ValidationError>) -> Seq<char>
    decreases es.len(),
{
    if es.len() == 0 {
        seq![]
    } else {
        finding_lines(es.drop_last()) + finding_line(es.last())
    }
}

impl AnxValidationError {
    pub fn new(errors: Vec<ValidationError>) -> (e: Self)
        ensures
            e.errors == errors,
    {
        AnxValidationError { errors }
    }

    /// The human-readable summary: a count line, then one line per finding.
    pub fn message(&self) -> (s: String)
        ensures
            s@ == "chart validation failed with "@ + crate::text::dec(self.errors@.len())
                + " error(s)"@ + finding_lines(self.errors@),
    {
        let mut s = String::new();
        s.append("chart validation failed with ");
        push_dec(&mut s, self.errors.len() as u64);
        s.append(" error(s)");
        let ghost head = s@;
        let n = self.errors.len();
        for i in 0..n
            invariant
                n == self.errors@.len(),
                s@ == head + finding_lines(self.errors@.take(i as int)),
        {
            let e = &self.errors[i];
            s.append("\n  - [");
            s.append(e.location.as_str());
            s.append("] ");
            s.append(e.error_type.as_str());
            s.append(": ");
            s.append(e.message.as_str());
            assert(self.errors@.take(i + 1).drop_last() =~= self.errors@.take(i as int));
            assert(s@ =~= head + finding_lines(self.errors@.take(i + 1)));
        }
        assert(self.errors@.take(n as int) =~= self.errors@);
        s
    }
}

/// The crate's top-level error.
#[derive(Debug)]
pub enum Error {
    /// The chart failed validation.
    Validation(AnxValidationError),
    /// A color value that names no known color and is not `#RRGGBB` hex.
    Color(String),
    /// Any other failure, with its description.
    Other(String),
}

impl Error {
    /// The human-readable description of the error.
    pub fn message(&self) -> (s: String)
        ensures
            s@ == match self {
                Error::Validation(v) => "chart validation failed with "@ + crate::text::dec(
                    v.errors@.len(),
                ) + " error(s)"@ + finding_lines(v.errors@),
                Error::Color(c) => "invalid color: "@ + c@,
                Error::Other(m) => m@,
            },
    {
        match self {
            Error::Validation(v) => v.message(),
            Error::Color(c) => {
                let mut s = String::new();
                s.append("invalid color: ");
                s.append(c.as_str());
                s
            },
            Error::Other(m) => m.clone(),
        }
    }
}

pub type Result<T> = core::result::Result<T, Error>;

} // verus!
