//! Rules on the display synthesizers (`display_attribute`, `display_label`):
//! required fields, a known kind, sources for templates with placeholders,
//! no clash with an explicit attribute class, and no two entries that would
//! write the same slot.
use vstd::prelude::*;

use crate::error::{ErrorType, ValidationError};
use crate::input::Config;
use crate::models::{DisplayAttribute, DisplayLabel, ExtraCfg};
use crate::report::{at, at_index, cat2, cat3, findings, finding_if, gather, report, Finding};
use crate::text::{chars_of, dec, str_eq};
use crate::validation::common::{filled, has_name, is_filled, names_include, text_of};
use crate::validation::links::oview;

verus! {

// ── Templates ───────────────────────────────────────────────────────────────

/// `s` with every doubled `c` removed, scanning left to right
/// (`str::replace` of `cc` by nothing).
pub open spec fn strip_pairs(s: Seq<char>, c: char) -> Seq<char>
    decreases s.len(),
{
    if s.len() < 2 {
        s
    } else if s[0] == c && s[1] == c {
        strip_pairs(s.skip(2), c)
    } else {
        seq![s[0]] + strip_pairs(s.skip(1), c)
    }
}

/// Whether a template references a placeholder: after removing the escaped
/// `{{` and `}}`, some `{` is followed later by a `}`.
pub open spec fn has_placeholder(t: Seq<char>) -> bool {
    let cl = strip_pairs(strip_pairs(t, '{'), '}');
    exists|i: int, j: int| 0 <= i < j < cl.len() && cl[i] == '{' && cl[j] == '}'
}

fn strip_pairs_of(v: &Vec<char>, c: char) -> (r: Vec<char>)
    ensures
        r@ == strip_pairs(v@, c),
{
    let mut out: Vec<char> = Vec::new();
    let mut p: usize = 0;
    assert(v@.skip(0) =~= v@);
    while p < v.len()
        invariant
            p <= v@.len(),
            out@ + strip_pairs(v@.skip(p as int), c) == strip_pairs(v@, c),
        decreases v@.len() - p,
    {
        let ghost s = v@.skip(p as int);
        if p + 1 < v.len() && v[p] == c && v[p + 1] == c {
            assert(s.skip(2) =~= v@.skip(p + 2));
            p = p + 2;
        } else {
            assert(s.skip(1) =~= v@.skip(p + 1));
            proof {
                if s.len() < 2 {
                    assert(s =~= seq![s[0]]);
                    assert(v@.skip(p + 1).len() == 0);
                }
            }
            out.push(v[p]);
            p = p + 1;
        }
    }
    assert(v@.skip(p as int).len() == 0);
    out
}

/// Whether a display template references a placeholder.
pub fn template_has_placeholder(t: &str) -> (r: bool)
    ensures
        r == has_placeholder(t@),
{
    let v = chars_of(t);
    let a = strip_pairs_of(&v, '{');
    let cl = strip_pairs_of(&a, '}');
    let ghost g = cl@;
    let n = cl.len();
    let mut open: usize = 0;
    while open < n && cl[open] != '{'
        invariant
            open <= n,
            n == g.len(),
            g == cl@,
            forall|k: int| 0 <= k < open ==> g[k] != '{',
        decreases n - open,
    {
        open = open + 1;
    }
    if open == n {
        return false;
    }
    let mut j: usize = open + 1;
    while j < n
        invariant
            open < j <= n,
            n == g.len(),
            g == cl@,
            g == strip_pairs(strip_pairs(t@, '{'), '}'),
            g[open as int] == '{',
            forall|k: int| 0 <= k < open ==> g[k] != '{',
            forall|k: int| open < k < j ==> g[k] != '}',
        decreases n - j,
    {
        if cl[j] == '}' {
            assert(0 <= open < j < g.len() && g[open as int] == '{' && g[j as int] == '}');
            return true;
        }
        j = j + 1;
    }
    assert forall|i: int, k: int| 0 <= i < k < g.len() && g[i] == '{' implies g[k] != '}' by {
        assert(i >= open);
    }
    false
}

/// Two display kinds overlap if either is `both` or they are equal.
pub open spec fn kinds_meet(a: Seq<char>, b: Seq<char>) -> bool {
    a == "both"@ || b == "both"@ || a == b
}

/// Whether two display kinds overlap.
pub fn kinds_overlap(a: &str, b: &str) -> (r: bool)
    ensures
        r == kinds_meet(a@, b@),
{
    str_eq(a, "both") || str_eq(b, "both") || str_eq(a, b)
}

// ── Entries ─────────────────────────────────────────────────────────────────

/// An entry's kind, `both` when unset.
pub open spec fn kind_of(k: Option<String>) -> Seq<char> {
    match k {
        Some(s) => s@,
        None => "both"@,
    }
}

pub open spec fn kind_valid(k: Seq<char>) -> bool {
    k == "entity"@ || k == "link"@ || k == "both"@
}

pub open spec fn attr_base() -> Seq<char> {
    "settings.extra_cfg.display_attribute"@
}

pub open spec fn label_base() -> Seq<char> {
    "settings.extra_cfg.display_label"@
}

/// Findings shared by both entry kinds: key, template, kind, sources.
pub open spec fn entry_findings(
    loc: Seq<char>,
    key: Option<String>,
    template: Option<String>,
    kind: Option<String>,
    no_sources: bool,
) -> Seq<Finding> {
    finding_if(!filled(key), ErrorType::DisplayInvalid, loc, "display entry needs 'key'"@)
        + finding_if(!filled(template), ErrorType::DisplayInvalid, loc, "display entry needs 'template'"@)
        + finding_if(
        !kind_valid(kind_of(kind)),
        ErrorType::DisplayInvalid,
        loc,
        "invalid kind '"@ + kind_of(kind) + "'"@,
    ) + finding_if(
        no_sources && filled(template) && has_placeholder(text_of(template)),
        ErrorType::DisplayInvalid,
        loc + ".sources"@,
        "'sources' is required because the template references placeholders"@,
    )
}

/// Findings for the `i`-th display attribute.
pub open spec fn display_attribute_findings(cfg: Config, das: Seq<DisplayAttribute>, i: int) -> Seq<
    Finding,
> {
    let d = das[i];
    let loc = at(attr_base(), i);
    finding_if(!filled(d.key), ErrorType::DisplayInvalid, loc, "display entry needs 'key'"@)
        + finding_if(
        !filled(d.attribute_name),
        ErrorType::DisplayInvalid,
        loc,
        "display_attribute needs 'attribute_name'"@,
    ) + finding_if(!filled(d.template), ErrorType::DisplayInvalid, loc, "display entry needs 'template'"@)
        + finding_if(
        !kind_valid(kind_of(d.kind)),
        ErrorType::DisplayInvalid,
        loc,
        "invalid kind '"@ + kind_of(d.kind) + "'"@,
    ) + finding_if(
        d.sources@.len() == 0 && filled(d.template) && has_placeholder(text_of(d.template)),
        ErrorType::DisplayInvalid,
        loc + ".sources"@,
        "'sources' is required because the template references placeholders"@,
    ) + finding_if(
        filled(d.attribute_name) && has_name(cfg.attribute_classes@, text_of(d.attribute_name)),
        ErrorType::DisplayNameCollision,
        loc + ".attribute_name"@,
        "display_attribute["@ + dec(i as nat) + "] synthesized AC name '"@ + text_of(d.attribute_name)
            + "' collides with explicit AttributeClass"@,
    )
}

/// Findings for the `i`-th display label.
pub open spec fn display_label_findings(dls: Seq<DisplayLabel>, i: int) -> Seq<Finding> {
    let d = dls[i];
    entry_findings(at(label_base(), i), d.key, d.template, d.kind, d.sources@.len() == 0)
}

// ── Slots ───────────────────────────────────────────────────────────────────

/// A display entry that writes a slot: where it is listed, its kind, its type
/// filter, and the slot (an attribute name, or empty for the label).
pub type Part = (Seq<char>, int, Seq<char>, Option<Seq<char>>, Seq<char>);

/// The slot-writing parts of the first `n` display attributes.
pub open spec fn attr_parts(das: Seq<DisplayAttribute>, n: int) -> Seq<Part>
    decreases n,
{
    if n <= 0 {
        seq![]
    } else {
        let d = das[n - 1];
        attr_parts(das, n - 1) + (if filled(d.key) && kind_valid(kind_of(d.kind)) && filled(
            d.attribute_name,
        ) {
            seq![(attr_base(), n - 1, kind_of(d.kind), oview(d.type_), text_of(d.attribute_name))]
        } else {
            seq![]
        })
    }
}

/// The slot-writing parts of the first `n` display labels.
pub open spec fn label_parts(dls: Seq<DisplayLabel>, n: int) -> Seq<Part>
    decreases n,
{
    if n <= 0 {
        seq![]
    } else {
        let d = dls[n - 1];
        label_parts(dls, n - 1) + (if filled(d.key) && kind_valid(kind_of(d.kind)) {
            seq![(label_base(), n - 1, kind_of(d.kind), oview(d.type_), seq![])]
        } else {
            seq![]
        })
    }
}

pub open spec fn display_parts(e: ExtraCfg) -> Seq<Part> {
    attr_parts(e.display_attribute@, e.display_attribute@.len() as int) + label_parts(
        e.display_label@,
        e.display_label@.len() as int,
    )
}

/// Two parts write the same slot at the same specificity.
pub open spec fn parts_clash(a: Part, b: Part) -> bool {
    a.4 == b.4 && kinds_meet(a.2, b.2) && ((a.3 is None && b.3 is None) || (a.3 is Some && a.3
        == b.3))
}

/// The finding for parts `a < b`, reported at `b` (both named under `b`'s
/// list).
pub open spec fn clash_findings(ps: Seq<Part>, a: int, b: int) -> Seq<Finding> {
    finding_if(
        parts_clash(ps[a], ps[b]),
        ErrorType::DisplayOverlapConflict,
        at(ps[b].0, ps[b].1),
        at(ps[b].0, ps[b].1) + " overlaps "@ + at(ps[b].0, ps[a].1) + ": both apply to the same slot"@,
    )
}

/// Every pair of parts, the earlier one first, in order.
pub open spec fn overlap_findings(ps: Seq<Part>) -> Seq<Finding> {
    gather(
        |a: int| gather(|k: int| clash_findings(ps, a, a + 1 + k), ps.len() - a - 1),
        ps.len() as int,
    )
}

pub open spec fn display_findings(cfg: Config) -> Seq<Finding> {
    match cfg.settings {
        None => seq![],
        Some(st) => gather(
            |i: int| display_attribute_findings(cfg, st.extra_cfg.display_attribute@, i),
            st.extra_cfg.display_attribute@.len() as int,
        ) + gather(
            |i: int| display_label_findings(st.extra_cfg.display_label@, i),
            st.extra_cfg.display_label@.len() as int,
        ) + overlap_findings(display_parts(st.extra_cfg)),
    }
}

// ── Checks ──────────────────────────────────────────────────────────────────

/// An optional borrowed text as a sequence.
pub open spec fn sview(o: Option<&str>) -> Option<Seq<char>> {
    match o {
        Some(s) => Some(s@),
        None => None,
    }
}

/// A part as built: list name, index, kind, type filter, slot.
pub type PartRef<'a> = (&'static str, usize, &'a str, Option<&'a str>, &'a str);

pub open spec fn part_view(p: PartRef) -> Part {
    (p.0@, p.1 as int, p.2@, sview(p.3), p.4@)
}

pub open spec fn parts_view(v: Seq<PartRef>) -> Seq<Part> {
    v.map_values(|p: PartRef| part_view(p))
}

fn kind_str(k: &Option<String>) -> (r: &str)
    ensures
        r@ == kind_of(*k),
{
    match k {
        Some(s) => s.as_str(),
        None => "both",
    }
}

fn text_str(o: &Option<String>) -> (r: &str)
    ensures
        r@ == text_of(*o),
{
    match o {
        Some(s) => s.as_str(),
        None => {
            proof {
                reveal_strlit("");
            }
            ""
        },
    }
}

fn opt_ref(o: &Option<String>) -> (r: Option<&str>)
    ensures
        sview(r) == oview(*o),
{
    match o {
        Some(s) => Some(s.as_str()),
        None => None,
    }
}

fn kind_is_valid(k: &str) -> (r: bool)
    ensures
        r == kind_valid(k@),
{
    str_eq(k, "entity") || str_eq(k, "link") || str_eq(k, "both")
}

fn check_display_attribute(
    out: &mut Vec<ValidationError>,
    cfg: &Config,
    das: &Vec<DisplayAttribute>,
    i: usize,
)
    requires
        i < das@.len(),
    ensures
        findings(final(out)@) == findings(old(out)@) + display_attribute_findings(*cfg, das@, i as int),
{
    let ghost start = findings(out@);
    let d = &das[i];
    let loc = at_index("settings.extra_cfg.display_attribute", i);
    if !is_filled(&d.key) {
        report(out, ErrorType::DisplayInvalid, loc.clone(), "display entry needs 'key'".to_owned());
    }
    let ghost s1 = findings(out@);
    if !is_filled(&d.attribute_name) {
        report(out, ErrorType::DisplayInvalid, loc.clone(), "display_attribute needs 'attribute_name'".to_owned());
    }
    let ghost s2 = findings(out@);
    if !is_filled(&d.template) {
        report(out, ErrorType::DisplayInvalid, loc.clone(), "display entry needs 'template'".to_owned());
    }
    let ghost s3 = findings(out@);
    let kind = kind_str(&d.kind);
    if !kind_is_valid(kind) {
        report(out, ErrorType::DisplayInvalid, loc.clone(), cat3("invalid kind '", kind, "'"));
    }
    let ghost s4 = findings(out@);
    if d.sources.len() == 0 && is_filled(&d.template) && template_has_placeholder(text_str(&d.template)) {
        report(out, ErrorType::DisplayInvalid, cat2(loc.as_str(), ".sources"),
            "'sources' is required because the template references placeholders".to_owned());
    }
    let ghost s5 = findings(out@);
    let attr = text_str(&d.attribute_name);
    if is_filled(&d.attribute_name) && names_include(&cfg.attribute_classes, attr) {
        let mut m = String::new();
        m.append("display_attribute[");
        crate::text::push_dec(&mut m, i as u64);
        m.append("] synthesized AC name '");
        m.append(attr);
        m.append("' collides with explicit AttributeClass");
        report(out, ErrorType::DisplayNameCollision, cat2(loc.as_str(), ".attribute_name"), m);
    }
    assert(findings(out@) =~= start + display_attribute_findings(*cfg, das@, i as int));
}

fn check_display_label(out: &mut Vec<ValidationError>, dls: &Vec<DisplayLabel>, i: usize)
    requires
        i < dls@.len(),
    ensures
        findings(final(out)@) == findings(old(out)@) + display_label_findings(dls@, i as int),
{
    let ghost start = findings(out@);
    let d = &dls[i];
    let loc = at_index("settings.extra_cfg.display_label", i);
    if !is_filled(&d.key) {
        report(out, ErrorType::DisplayInvalid, loc.clone(), "display entry needs 'key'".to_owned());
    }
    let ghost s1 = findings(out@);
    if !is_filled(&d.template) {
        report(out, ErrorType::DisplayInvalid, loc.clone(), "display entry needs 'template'".to_owned());
    }
    let ghost s2 = findings(out@);
    let kind = kind_str(&d.kind);
    if !kind_is_valid(kind) {
        report(out, ErrorType::DisplayInvalid, loc.clone(), cat3("invalid kind '", kind, "'"));
    }
    let ghost s3 = findings(out@);
    if d.sources.len() == 0 && is_filled(&d.template) && template_has_placeholder(text_str(&d.template)) {
        report(out, ErrorType::DisplayInvalid, cat2(loc.as_str(), ".sources"),
            "'sources' is required because the template references placeholders".to_owned());
    }
    assert(findings(out@) =~= start + display_label_findings(dls@, i as int));
}

fn collect_parts<'a>(e: &'a ExtraCfg) -> (ps: Vec<PartRef<'a>>)
    ensures
        parts_view(ps@) == display_parts(*e),
{
    let mut ps: Vec<PartRef<'a>> = Vec::new();
    let das = &e.display_attribute;
    let n = das.len();
    for i in 0..n
        invariant
            n == das@.len(),
            das@ == e.display_attribute@,
            parts_view(ps@) == attr_parts(das@, i as int),
    {
        let d = &das[i];
        let ghost before = ps@;
        let kind = kind_str(&d.kind);
        if is_filled(&d.key) && kind_is_valid(kind) && is_filled(&d.attribute_name) {
            ps.push(("settings.extra_cfg.display_attribute", i, kind, opt_ref(&d.type_), text_str(&d.attribute_name)));
            assert(parts_view(ps@) =~= parts_view(before) + seq![(attr_base(), i as int, kind_of(d.kind), oview(d.type_), text_of(d.attribute_name))]);
        } else {
            assert(parts_view(ps@) =~= parts_view(before) + seq![]);
        }
    }
    let ghost mid = ps@;
    let dls = &e.display_label;
    let n = dls.len();
    for i in 0..n
        invariant
            n == dls@.len(),
            dls@ == e.display_label@,
            parts_view(mid) == attr_parts(e.display_attribute@, e.display_attribute@.len() as int),
            parts_view(ps@) == parts_view(mid) + label_parts(dls@, i as int),
    {
        let d = &dls[i];
        let ghost before = ps@;
        let kind = kind_str(&d.kind);
        if is_filled(&d.key) && kind_is_valid(kind) {
            let slot: &str = "";
            proof {
                reveal_strlit("");
            }
            assert(slot@ =~= Seq::<char>::empty());
            ps.push(("settings.extra_cfg.display_label", i, kind, opt_ref(&d.type_), slot));
            assert(parts_view(ps@) =~= parts_view(before) + seq![(label_base(), i as int, kind_of(d.kind), oview(d.type_), Seq::<char>::empty())]);
        } else {
            assert(parts_view(ps@) =~= parts_view(before) + seq![]);
        }
    }
    ps
}

fn opt_str_same(a: Option<&str>, b: Option<&str>) -> (r: bool)
    ensures
        r == (sview(a) == sview(b)),
{
    match (a, b) {
        (Some(x), Some(y)) => str_eq(x, y),
        (None, None) => true,
        _ => false,
    }
}

fn check_clash(out: &mut Vec<ValidationError>, ps: &Vec<PartRef>, a: usize, b: usize)
    requires
        a < b < ps@.len(),
    ensures
        findings(final(out)@) == findings(old(out)@) + clash_findings(parts_view(ps@), a as int, b as int),
{
    let pa = ps[a];
    let pb = ps[b];
    let ghost v = parts_view(ps@);
    assert(v[a as int] == part_view(pa));
    assert(v[b as int] == part_view(pb));
    let same_tier = (pa.3.is_none() && pb.3.is_none()) || (pa.3.is_some() && opt_str_same(pa.3, pb.3));
    if str_eq(pa.4, pb.4) && kinds_overlap(pa.2, pb.2) && same_tier {
        let loc = at_index(pb.0, pb.1);
        let mut m = at_index(pb.0, pb.1);
        m.append(" overlaps ");
        let other = at_index(pb.0, pa.1);
        m.append(other.as_str());
        m.append(": both apply to the same slot");
        report(out, ErrorType::DisplayOverlapConflict, loc, m);
        return;
    }
    assert(findings(out@) =~= findings(old(out)@) + clash_findings(v, a as int, b as int));
}

/// Display entries need a key, a template, a known kind, and sources when
/// the template has placeholders; a display attribute also needs an
/// attribute name that no explicit attribute class uses; no two entries may
/// write the same slot for the same kind at the same specificity.
#[verifier::spinoff_prover]
pub fn validate_display(out: &mut Vec<ValidationError>, cfg: &Config)
    ensures
        findings(final(out)@) == findings(old(out)@) + display_findings(*cfg),
{
    let ghost start = findings(out@);
    let st = match &cfg.settings {
        Some(st) => st,
        None => {
            assert(findings(out@) =~= start + display_findings(*cfg));
            return;
        },
    };
    let extra = &st.extra_cfg;
    let das = &extra.display_attribute;
    let n = das.len();
    for i in 0..n
        invariant
            n == das@.len(),
            findings(out@) == start + gather(
                |i: int| display_attribute_findings(*cfg, das@, i),
                i as int,
            ),
    {
        check_display_attribute(out, cfg, das, i);
    }
    let ghost s1 = findings(out@);
    let dls = &extra.display_label;
    let n = dls.len();
    for i in 0..n
        invariant
            n == dls@.len(),
            findings(out@) == s1 + gather(|i: int| display_label_findings(dls@, i), i as int),
    {
        check_display_label(out, dls, i);
    }
    let ghost s2 = findings(out@);
    let ps = collect_parts(extra);
    let ghost v = parts_view(ps@);
    let n = ps.len();
    for a in 0..n
        invariant
            n == ps@.len(),
            v == parts_view(ps@),
            findings(out@) == s2 + gather(
                |a: int| gather(|k: int| clash_findings(v, a, a + 1 + k), v.len() - a - 1),
                a as int,
            ),
    {
        let ghost sa = findings(out@);
        let mut b = a + 1;
        while b < n
            invariant
                a < b <= n,
                n == ps@.len(),
                v == parts_view(ps@),
                findings(out@) == sa + gather(|k: int| clash_findings(v, a as int, a + 1 + k), b - a - 1),
            decreases n - b,
        {
            check_clash(out, &ps, a, b);
            b = b + 1;
        }
    }
    assert(findings(out@) =~= start + display_findings(*cfg));
}

} // verus!
