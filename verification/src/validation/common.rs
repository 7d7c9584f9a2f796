//! Checks shared by several rule groups: color values, grade references,
//! the date/time/strength/grade/format fields every chart item carries, and
//! membership of a string field in a fixed vocabulary.
use vstd::prelude::*;

use crate::color::{color_value_of, ColorValue};
use crate::datetime::{date_value, parse_date, parse_time, time_value};
use crate::error::{ErrorType, ValidationError};
use crate::input::Config;
use crate::models::{
    AttributeClass, DateTimeFormat, EntityType, GradeCollection, GradeRef, LegendItem, LinkType,
    Palette, SemanticEntity, SemanticLink, SemanticProperty,
};
use crate::report::{cat3, cat5, findings, finding_if, one, report, Finding};
use crate::text::{chars_of, dec, dec_int, is_empty_str, parse_i64, parse_i64_chars, str_eq};

verus! {

// ── Colors ──────────────────────────────────────────────────────────────────

/// A color value that names a COLORREF: an integer within 24 bits, or a
/// name or hex string that resolves.
pub open spec fn color_ok(c: ColorValue) -> bool {
    match c {
        ColorValue::Int(v) => v <= 0xFF_FFFF,
        _ => color_value_of(c) is Some,
    }
}

/// `unknown_color` for a set color field that does not resolve.
pub open spec fn color_findings(c: Option<ColorValue>, field: Seq<char>, loc: Seq<char>) -> Seq<
    Finding,
> {
    match c {
        Some(v) => finding_if(
            !color_ok(v),
            ErrorType::UnknownColor,
            loc,
            "Invalid color in '"@ + field + "'"@,
        ),
        None => seq![],
    }
}

pub fn color_valid(c: &ColorValue) -> (r: bool)
    ensures
        r == color_ok(*c),
{
    match c {
        ColorValue::Int(v) => *v <= 0x00FF_FFFF,
        _ => c.to_colorref().is_ok(),
    }
}

pub fn check_color(out: &mut Vec<ValidationError>, c: &Option<ColorValue>, field: &str, loc: &str)
    ensures
        findings(final(out)@) == findings(old(out)@) + color_findings(*c, field@, loc@),
{
    if let Some(v) = c {
        if !color_valid(v) {
            report(out, ErrorType::UnknownColor, loc.to_owned(), cat3("Invalid color in '", field, "'"));
            return;
        }
    }
    assert(findings(out@) =~= findings(old(out)@) + color_findings(*c, field@, loc@));
}

// ── Grades ──────────────────────────────────────────────────────────────────

/// The names of a grade collection, empty when it is not configured.
pub open spec fn grade_items(g: Option<GradeCollection>) -> Seq<String> {
    match g {
        Some(gc) => gc.items@,
        None => seq![],
    }
}

/// Whether a name occurs among strings.
pub open spec fn names_contain(items: Seq<String>, n: Seq<char>) -> bool {
    exists|k: int| 0 <= k < items.len() && items[k]@ == n
}

/// An index must fall inside the collection; a name that is not an integer
/// must be one of its names.
pub open spec fn grade_findings(g: Option<GradeRef>, items: Seq<String>, field: Seq<char>, loc: Seq<
    char,
>) -> Seq<Finding> {
    match g {
        None => seq![],
        Some(GradeRef::Index(i)) => finding_if(
            i < 0 || i >= items.len(),
            ErrorType::GradeOutOfRange,
            loc,
            field + " index "@ + dec_int(i as int) + " out of range (0.."@ + dec(items.len()) + ")"@,
        ),
        Some(GradeRef::Name(n)) => finding_if(
            parse_i64(n@) is None && !names_contain(items, n@),
            ErrorType::UnknownGrade,
            loc,
            "Unknown "@ + field + " '"@ + n@ + "'"@,
        ),
    }
}

pub fn check_grade(
    out: &mut Vec<ValidationError>,
    g: &Option<GradeRef>,
    items: &Vec<String>,
    field: &str,
    loc: &str,
)
    ensures
        findings(final(out)@) == findings(old(out)@) + grade_findings(*g, items@, field@, loc@),
{
    match g {
        None => {},
        Some(GradeRef::Index(i)) => {
            if *i < 0 || (*i as u64) >= (items.len() as u64) {
                let mut m = String::new();
                m.append(field);
                m.append(" index ");
                crate::text::push_int(&mut m, *i);
                m.append(" out of range (0..");
                crate::text::push_dec(&mut m, items.len() as u64);
                m.append(")");
                report(out, ErrorType::GradeOutOfRange, loc.to_owned(), m);
                return;
            }
        },
        Some(GradeRef::Name(n)) => {
            let v = chars_of(n.as_str());
            if parse_i64_chars(&v).is_none() && !crate::text::contains_str(items, n.as_str()) {
                report(out, ErrorType::UnknownGrade, loc.to_owned(), cat5("Unknown ", field, " '", n.as_str(), "'"));
                return;
            }
        },
    }
    assert(findings(out@) =~= findings(old(out)@) + grade_findings(*g, items@, field@, loc@));
}

// ── Chart item fields ───────────────────────────────────────────────────────

/// The strength names a chart knows: the configured ones, or the implicit
/// `Default` when none are configured.
pub open spec fn strength_known(cfg: Config, s: Seq<char>) -> bool {
    match cfg.strengths {
        Some(sc) => exists|k: int| 0 <= k < sc.items@.len() && sc.items@[k].name@ == s,
        None => s == "Default"@,
    }
}

/// Whether a datetime format of that name is registered.
pub open spec fn dtf_known(cfg: Config, f: Seq<char>) -> bool {
    exists|k: int| 0 <= k < cfg.datetime_formats@.len() && cfg.datetime_formats@[k].name@ == f
}

/// A set, non-empty optional text field.
pub open spec fn filled(o: Option<String>) -> bool {
    o matches Some(s) && s@.len() > 0
}

/// The text of an optional field (empty when unset).
pub open spec fn text_of(o: Option<String>) -> Seq<char> {
    match o {
        Some(s) => s@,
        None => seq![],
    }
}

/// `unregistered_datetime_format` for a set format name nothing registers.
pub open spec fn dtf_ref_findings(cfg: Config, loc: Seq<char>, dtf: Option<String>) -> Seq<Finding> {
    finding_if(
        filled(dtf) && !dtf_known(cfg, text_of(dtf)),
        ErrorType::UnregisteredDatetimeFormat,
        loc,
        "datetime_format '"@ + text_of(dtf)
            + "' is not registered in the DateTimeFormatCollection"@,
    )
}

/// `invalid_date` for a set date that is not a calendar date.
pub open spec fn date_findings(loc: Seq<char>, date: Option<String>) -> Seq<Finding> {
    finding_if(
        filled(date) && date_value(text_of(date)) is None,
        ErrorType::InvalidDate,
        loc,
        "Invalid date '"@ + text_of(date) + "'"@,
    )
}

/// `invalid_time` for a set time that is not a time of day.
pub open spec fn time_findings(loc: Seq<char>, time: Option<String>) -> Seq<Finding> {
    finding_if(
        filled(time) && time_value(text_of(time)) is None,
        ErrorType::InvalidTime,
        loc,
        "Invalid time '"@ + text_of(time) + "'"@,
    )
}

/// `invalid_strength` for a set strength the chart does not know.
pub open spec fn strength_findings(cfg: Config, loc: Seq<char>, strength: Option<String>) -> Seq<
    Finding,
> {
    finding_if(
        filled(strength) && !strength_known(cfg, text_of(strength)),
        ErrorType::InvalidStrength,
        loc,
        "Strength '"@ + text_of(strength) + "' not found in chart.strengths"@,
    )
}

/// The findings on the three grade references of a chart item.
pub open spec fn grades_findings(
    cfg: Config,
    loc: Seq<char>,
    g1: Option<GradeRef>,
    g2: Option<GradeRef>,
    g3: Option<GradeRef>,
) -> Seq<Finding> {
    grade_findings(g1, grade_items(cfg.grades_one), "grade_one"@, loc) + grade_findings(
        g2,
        grade_items(cfg.grades_two),
        "grade_two"@,
        loc,
    ) + grade_findings(g3, grade_items(cfg.grades_three), "grade_three"@, loc)
}

/// The findings on the fields every chart item (entity or link) carries.
pub open spec fn item_common_findings(
    cfg: Config,
    loc: Seq<char>,
    date: Option<String>,
    time: Option<String>,
    strength: Option<String>,
    g1: Option<GradeRef>,
    g2: Option<GradeRef>,
    g3: Option<GradeRef>,
    dtf: Option<String>,
) -> Seq<Finding> {
    dtf_ref_findings(cfg, loc, dtf) + date_findings(loc, date) + time_findings(loc, time)
        + strength_findings(cfg, loc, strength) + grades_findings(cfg, loc, g1, g2, g3)
}

fn strength_is_known(cfg: &Config, s: &str) -> (r: bool)
    ensures
        r == strength_known(*cfg, s@),
{
    match &cfg.strengths {
        Some(sc) => {
            let n = sc.items.len();
            for k in 0..n
                invariant
                    n == sc.items@.len(),
                    cfg.strengths == Some(*sc),
                    forall|j: int| 0 <= j < k ==> sc.items@[j].name@ != s@,
            {
                if str_eq(sc.items[k].name.as_str(), s) {
                    assert(sc.items@[k as int].name@ == s@);
                    return true;
                }
            }
            false
        },
        None => str_eq(s, "Default"),
    }
}

pub fn dtf_is_known(cfg: &Config, f: &str) -> (r: bool)
    ensures
        r == dtf_known(*cfg, f@),
{
    let n = cfg.datetime_formats.len();
    for k in 0..n
        invariant
            n == cfg.datetime_formats@.len(),
            forall|j: int| 0 <= j < k ==> cfg.datetime_formats@[j].name@ != f@,
    {
        if str_eq(cfg.datetime_formats[k].name.as_str(), f) {
            assert(cfg.datetime_formats@[k as int].name@ == f@);
            return true;
        }
    }
    false
}

/// Whether an optional text field is set and non-empty.
pub fn is_filled(o: &Option<String>) -> (r: bool)
    ensures
        r == filled(*o),
{
    match o {
        Some(s) => !is_empty_str(s.as_str()),
        None => false,
    }
}

fn check_dtf_ref(out: &mut Vec<ValidationError>, cfg: &Config, loc: &str, dtf: &Option<String>)
    ensures
        findings(final(out)@) == findings(old(out)@) + dtf_ref_findings(*cfg, loc@, *dtf),
{
    if let Some(f) = dtf {
        if !is_empty_str(f.as_str()) && !dtf_is_known(cfg, f.as_str()) {
            report(out, ErrorType::UnregisteredDatetimeFormat, loc.to_owned(), cat3(
                "datetime_format '",
                f.as_str(),
                "' is not registered in the DateTimeFormatCollection",
            ));
            return;
        }
    }
    assert(findings(out@) =~= findings(old(out)@) + dtf_ref_findings(*cfg, loc@, *dtf));
}

fn check_date(out: &mut Vec<ValidationError>, loc: &str, date: &Option<String>)
    ensures
        findings(final(out)@) == findings(old(out)@) + date_findings(loc@, *date),
{
    if let Some(d) = date {
        if !is_empty_str(d.as_str()) && parse_date(d.as_str()).is_none() {
            report(out, ErrorType::InvalidDate, loc.to_owned(), cat3("Invalid date '", d.as_str(), "'"));
            return;
        }
    }
    assert(findings(out@) =~= findings(old(out)@) + date_findings(loc@, *date));
}

fn check_time(out: &mut Vec<ValidationError>, loc: &str, time: &Option<String>)
    ensures
        findings(final(out)@) == findings(old(out)@) + time_findings(loc@, *time),
{
    if let Some(t) = time {
        if !is_empty_str(t.as_str()) && parse_time(t.as_str()).is_none() {
            report(out, ErrorType::InvalidTime, loc.to_owned(), cat3("Invalid time '", t.as_str(), "'"));
            return;
        }
    }
    assert(findings(out@) =~= findings(old(out)@) + time_findings(loc@, *time));
}

fn check_strength(out: &mut Vec<ValidationError>, cfg: &Config, loc: &str, strength: &Option<String>)
    ensures
        findings(final(out)@) == findings(old(out)@) + strength_findings(*cfg, loc@, *strength),
{
    if let Some(s) = strength {
        if !is_empty_str(s.as_str()) && !strength_is_known(cfg, s.as_str()) {
            report(out, ErrorType::InvalidStrength, loc.to_owned(), cat3(
                "Strength '",
                s.as_str(),
                "' not found in chart.strengths",
            ));
            return;
        }
    }
    assert(findings(out@) =~= findings(old(out)@) + strength_findings(*cfg, loc@, *strength));
}

fn check_grades(
    out: &mut Vec<ValidationError>,
    cfg: &Config,
    loc: &str,
    g1: &Option<GradeRef>,
    g2: &Option<GradeRef>,
    g3: &Option<GradeRef>,
)
    ensures
        findings(final(out)@) == findings(old(out)@) + grades_findings(*cfg, loc@, *g1, *g2, *g3),
{
    let ghost start = findings(out@);
    let none: Vec<String> = Vec::new();
    let i1 = match &cfg.grades_one {
        Some(gc) => &gc.items,
        None => &none,
    };
    let i2 = match &cfg.grades_two {
        Some(gc) => &gc.items,
        None => &none,
    };
    let i3 = match &cfg.grades_three {
        Some(gc) => &gc.items,
        None => &none,
    };
    check_grade(out, g1, i1, "grade_one", loc);
    check_grade(out, g2, i2, "grade_two", loc);
    check_grade(out, g3, i3, "grade_three", loc);
    assert(findings(out@) =~= start + grades_findings(*cfg, loc@, *g1, *g2, *g3));
}

pub fn check_chart_item_common(
    out: &mut Vec<ValidationError>,
    cfg: &Config,
    loc: &str,
    date: &Option<String>,
    time: &Option<String>,
    strength: &Option<String>,
    g1: &Option<GradeRef>,
    g2: &Option<GradeRef>,
    g3: &Option<GradeRef>,
    dtf: &Option<String>,
)
    ensures
        findings(final(out)@) == findings(old(out)@) + item_common_findings(
            *cfg,
            loc@,
            *date,
            *time,
            *strength,
            *g1,
            *g2,
            *g3,
            *dtf,
        ),
{
    let ghost start = findings(out@);
    check_dtf_ref(out, cfg, loc, dtf);
    check_date(out, loc, date);
    check_time(out, loc, time);
    check_strength(out, cfg, loc, strength);
    check_grades(out, cfg, loc, g1, g2, g3);
    assert(findings(out@) =~= start + item_common_findings(
        *cfg,
        loc@,
        *date,
        *time,
        *strength,
        *g1,
        *g2,
        *g3,
        *dtf,
    ));
}

// ── Vocabulary fields ───────────────────────────────────────────────────────

/// `kind` for a set, non-empty field whose value is outside the vocabulary.
pub open spec fn enum_findings(
    val: Option<String>,
    valid: bool,
    kind: ErrorType,
    field: Seq<char>,
    loc: Seq<char>,
) -> Seq<Finding> {
    finding_if(
        filled(val) && !valid,
        kind,
        loc,
        "Invalid "@ + field + " '"@ + text_of(val) + "'"@,
    )
}

/// Report `kind` when a set, non-empty value is not `valid` (the caller's
/// membership test of that value).
pub fn check_enum(
    out: &mut Vec<ValidationError>,
    val: &Option<String>,
    valid: bool,
    kind: ErrorType,
    field: &str,
    loc: &str,
)
    ensures
        findings(final(out)@) == findings(old(out)@) + enum_findings(*val, valid, kind, field@, loc@),
{
    if let Some(v) = val {
        if !is_empty_str(v.as_str()) && !valid {
            report(out, kind, loc.to_owned(), cat5("Invalid ", field, " '", v.as_str(), "'"));
            return;
        }
    }
    assert(findings(out@) =~= findings(old(out)@) + enum_findings(*val, valid, kind, field@, loc@));
}


// ── Named definitions ───────────────────────────────────────────────────────

/// A definition identified by its `name`.
pub trait Named {
    spec fn name_view(&self) -> Seq<char>;

    fn name_str(&self) -> (s: &str)
        ensures
            s@ == self.name_view(),
    ;
}

/// Whether an item before `i` has the same name as item `i`.
pub open spec fn name_before<T: Named>(v: Seq<T>, i: int) -> bool {
    exists|j: int| 0 <= j < i && v[j].name_view() == v[i].name_view()
}

/// Whether some item carries the name `s`.
pub open spec fn has_name<T: Named>(v: Seq<T>, s: Seq<char>) -> bool {
    exists|j: int| 0 <= j < v.len() && v[j].name_view() == s
}

pub fn name_seen_before<T: Named>(v: &Vec<T>, i: usize) -> (r: bool)
    requires
        i < v@.len(),
    ensures
        r == name_before(v@, i as int),
{
    let mut j: usize = 0;
    while j < i
        invariant
            i < v@.len(),
            j <= i,
            forall|k: int| 0 <= k < j ==> v@[k].name_view() != v@[i as int].name_view(),
        decreases i - j,
    {
        if str_eq(v[j].name_str(), v[i].name_str()) {
            return true;
        }
        j = j + 1;
    }
    false
}

pub fn names_include<T: Named>(v: &Vec<T>, s: &str) -> (r: bool)
    ensures
        r == has_name(v@, s@),
{
    let n = v.len();
    for k in 0..n
        invariant
            n == v@.len(),
            forall|j: int| 0 <= j < k ==> v@[j].name_view() != s@,
    {
        if str_eq(v[k].name_str(), s) {
            assert(v@[k as int].name_view() == s@);
            return true;
        }
    }
    false
}

impl Named for EntityType {
    open spec fn name_view(&self) -> Seq<char> {
        self.name@
    }

    fn name_str(&self) -> (s: &str) {
        self.name.as_str()
    }
}

impl Named for LinkType {
    open spec fn name_view(&self) -> Seq<char> {
        self.name@
    }

    fn name_str(&self) -> (s: &str) {
        self.name.as_str()
    }
}

impl Named for AttributeClass {
    open spec fn name_view(&self) -> Seq<char> {
        self.name@
    }

    fn name_str(&self) -> (s: &str) {
        self.name.as_str()
    }
}

impl Named for DateTimeFormat {
    open spec fn name_view(&self) -> Seq<char> {
        self.name@
    }

    fn name_str(&self) -> (s: &str) {
        self.name.as_str()
    }
}

impl Named for SemanticEntity {
    open spec fn name_view(&self) -> Seq<char> {
        self.name@
    }

    fn name_str(&self) -> (s: &str) {
        self.name.as_str()
    }
}

impl Named for SemanticLink {
    open spec fn name_view(&self) -> Seq<char> {
        self.name@
    }

    fn name_str(&self) -> (s: &str) {
        self.name.as_str()
    }
}

impl Named for SemanticProperty {
    open spec fn name_view(&self) -> Seq<char> {
        self.name@
    }

    fn name_str(&self) -> (s: &str) {
        self.name.as_str()
    }
}

impl Named for Palette {
    open spec fn name_view(&self) -> Seq<char> {
        self.name@
    }

    fn name_str(&self) -> (s: &str) {
        self.name.as_str()
    }
}

impl Named for LegendItem {
    open spec fn name_view(&self) -> Seq<char> {
        self.name@
    }

    fn name_str(&self) -> (s: &str) {
        self.name.as_str()
    }
}

} // verus!
