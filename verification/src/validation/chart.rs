//! The chart's entities as one sequence, in the order of the data groups
//! (icons, boxes, circles, theme lines, event frames, text blocks, labels),
//! and the per-entity rules: required and unique ids, colors, the shared
//! item fields, and one attribute type per attribute name chart-wide.
use vstd::prelude::*;

use crate::entities::EntityCommon;
use crate::error::{ErrorType, ValidationError};
use crate::input::{ChartData, Config};
use crate::maps::{attr_at, attr_count, attr_entries, lookup};
use crate::report::{at, at_index, cat3, findings, finding_if, gather, one, report, Finding};
use crate::text::{is_empty_str, str_eq};
use crate::validation::common::{
    check_chart_item_common, check_color, color_findings, item_common_findings,
};
use crate::value::inferred;

verus! {

// ── The entity sequence ─────────────────────────────────────────────────────

/// How many entities the chart holds, over all groups.
pub open spec fn entity_count(d: ChartData) -> int {
    let g = d.entities;
    (g.icons@.len() + g.boxes@.len() + g.circles@.len() + g.theme_lines@.len()
        + g.event_frames@.len() + g.text_blocks@.len() + g.labels@.len()) as int
}

/// Where each group starts in the entity sequence.
pub open spec fn group_start(d: ChartData, k: int) -> int {
    let g = d.entities;
    let b = g.icons@.len() as int;
    let c = b + g.boxes@.len();
    let t = c + g.circles@.len();
    let e = t + g.theme_lines@.len();
    let x = e + g.event_frames@.len();
    let l = x + g.text_blocks@.len();
    if k == 0 {
        0
    } else if k == 1 {
        b
    } else if k == 2 {
        c
    } else if k == 3 {
        t
    } else if k == 4 {
        e
    } else if k == 5 {
        x
    } else {
        l
    }
}

/// The group (0 icons … 6 labels) entity `i` belongs to.
pub open spec fn group_of(d: ChartData, i: int) -> int {
    if i < group_start(d, 1) {
        0
    } else if i < group_start(d, 2) {
        1
    } else if i < group_start(d, 3) {
        2
    } else if i < group_start(d, 4) {
        3
    } else if i < group_start(d, 5) {
        4
    } else if i < group_start(d, 6) {
        5
    } else {
        6
    }
}

/// The shared fields of entity `i`.
pub open spec fn entity_common(d: ChartData, i: int) -> EntityCommon {
    let g = d.entities;
    let k = group_of(d, i);
    let j = i - group_start(d, k);
    if k == 0 {
        g.icons@[j].common
    } else if k == 1 {
        g.boxes@[j].common
    } else if k == 2 {
        g.circles@[j].common
    } else if k == 3 {
        g.theme_lines@[j].common
    } else if k == 4 {
        g.event_frames@[j].common
    } else if k == 5 {
        g.text_blocks@[j].common
    } else {
        g.labels@[j].common
    }
}

/// The representation name of entity `i` (`Icon`, `Box`, …).
pub open spec fn entity_kind(d: ChartData, i: int) -> Seq<char> {
    let k = group_of(d, i);
    if k == 0 {
        "Icon"@
    } else if k == 1 {
        "Box"@
    } else if k == 2 {
        "Circle"@
    } else if k == 3 {
        "ThemeLine"@
    } else if k == 4 {
        "EventFrame"@
    } else if k == 5 {
        "TextBlock"@
    } else {
        "Label"@
    }
}

/// Where entity `i` is reported: `entities[i] (Kind)`.
pub open spec fn entity_loc(d: ChartData, i: int) -> Seq<char> {
    at("entities"@, i) + " ("@ + entity_kind(d, i) + ")"@
}

/// The color findings of the representation-specific color fields of
/// entity `i`, in field order.
pub open spec fn entity_color_findings(d: ChartData, i: int, loc: Seq<char>) -> Seq<Finding> {
    let g = d.entities;
    let k = group_of(d, i);
    let j = i - group_start(d, k);
    if k == 0 {
        color_findings(g.icons@[j].color, "color"@, loc)
    } else if k == 1 {
        color_findings(g.boxes@[j].bg_color, "bg_color"@, loc) + color_findings(
            g.boxes@[j].line_color,
            "line_color"@,
            loc,
        )
    } else if k == 2 {
        color_findings(g.circles@[j].bg_color, "bg_color"@, loc)
    } else if k == 3 {
        color_findings(g.theme_lines@[j].shade_color, "shade_color"@, loc) + color_findings(
            g.theme_lines@[j].line_color,
            "line_color"@,
            loc,
        )
    } else if k == 4 {
        color_findings(g.event_frames@[j].shade_color, "shade_color"@, loc) + color_findings(
            g.event_frames@[j].bg_color,
            "bg_color"@,
            loc,
        ) + color_findings(g.event_frames@[j].line_color, "line_color"@, loc)
    } else if k == 5 {
        color_findings(g.text_blocks@[j].bg_color, "bg_color"@, loc) + color_findings(
            g.text_blocks@[j].line_color,
            "line_color"@,
            loc,
        )
    } else {
        color_findings(g.labels@[j].bg_color, "bg_color"@, loc) + color_findings(
            g.labels@[j].line_color,
            "line_color"@,
            loc,
        )
    }
}

/// The start of group `k`, computed.
fn start_of(d: &ChartData, k: usize) -> (s: usize)
    requires
        entity_count(*d) <= usize::MAX,
        k <= 6,
    ensures
        s == group_start(*d, k as int),
{
    let g = &d.entities;
    let b = g.icons.len();
    let c = b + g.boxes.len();
    let t = c + g.circles.len();
    let e = t + g.theme_lines.len();
    let x = e + g.event_frames.len();
    let l = x + g.text_blocks.len();
    if k == 0 {
        0
    } else if k == 1 {
        b
    } else if k == 2 {
        c
    } else if k == 3 {
        t
    } else if k == 4 {
        e
    } else if k == 5 {
        x
    } else {
        l
    }
}

/// The number of entities.
pub fn count_entities(d: &ChartData) -> (n: usize)
    requires
        entity_count(*d) <= usize::MAX,
    ensures
        n == entity_count(*d),
{
    start_of(d, 6) + d.entities.labels.len()
}

/// The group entity `i` belongs to, computed.
fn group_index(d: &ChartData, i: usize) -> (k: usize)
    requires
        entity_count(*d) <= usize::MAX,
    ensures
        k == group_of(*d, i as int),
        k <= 6,
{
    if i < start_of(d, 1) {
        0
    } else if i < start_of(d, 2) {
        1
    } else if i < start_of(d, 3) {
        2
    } else if i < start_of(d, 4) {
        3
    } else if i < start_of(d, 5) {
        4
    } else if i < start_of(d, 6) {
        5
    } else {
        6
    }
}

/// The shared fields of entity `i`.
pub fn common_at(d: &ChartData, i: usize) -> (c: &EntityCommon)
    requires
        entity_count(*d) <= usize::MAX,
        i < entity_count(*d),
    ensures
        *c == entity_common(*d, i as int),
{
    let g = &d.entities;
    let k = group_index(d, i);
    let j = i - start_of(d, k);
    if k == 0 {
        &g.icons[j].common
    } else if k == 1 {
        &g.boxes[j].common
    } else if k == 2 {
        &g.circles[j].common
    } else if k == 3 {
        &g.theme_lines[j].common
    } else if k == 4 {
        &g.event_frames[j].common
    } else if k == 5 {
        &g.text_blocks[j].common
    } else {
        &g.labels[j].common
    }
}

/// The representation name of entity `i`.
pub fn kind_at(d: &ChartData, i: usize) -> (s: &'static str)
    requires
        entity_count(*d) <= usize::MAX,
    ensures
        s@ == entity_kind(*d, i as int),
{
    let k = group_index(d, i);
    if k == 0 {
        "Icon"
    } else if k == 1 {
        "Box"
    } else if k == 2 {
        "Circle"
    } else if k == 3 {
        "ThemeLine"
    } else if k == 4 {
        "EventFrame"
    } else if k == 5 {
        "TextBlock"
    } else {
        "Label"
    }
}

/// The location `entities[i] (Kind)`.
pub fn loc_at(d: &ChartData, i: usize) -> (s: String)
    requires
        entity_count(*d) <= usize::MAX,
    ensures
        s@ == entity_loc(*d, i as int),
{
    let mut s = at_index("entities", i);
    s.append(" (");
    s.append(kind_at(d, i));
    s.append(")");
    s
}

fn check_entity_colors(out: &mut Vec<ValidationError>, d: &ChartData, i: usize, loc: &str)
    requires
        entity_count(*d) <= usize::MAX,
        i < entity_count(*d),
    ensures
        findings(final(out)@) == findings(old(out)@) + entity_color_findings(*d, i as int, loc@),
{
    let ghost start = findings(out@);
    let g = &d.entities;
    let k = group_index(d, i);
    let j = i - start_of(d, k);
    if k == 0 {
        check_color(out, &g.icons[j].color, "color", loc);
    } else if k == 1 {
        check_color(out, &g.boxes[j].bg_color, "bg_color", loc);
        check_color(out, &g.boxes[j].line_color, "line_color", loc);
    } else if k == 2 {
        check_color(out, &g.circles[j].bg_color, "bg_color", loc);
    } else if k == 3 {
        check_color(out, &g.theme_lines[j].shade_color, "shade_color", loc);
        check_color(out, &g.theme_lines[j].line_color, "line_color", loc);
    } else if k == 4 {
        check_color(out, &g.event_frames[j].shade_color, "shade_color", loc);
        check_color(out, &g.event_frames[j].bg_color, "bg_color", loc);
        check_color(out, &g.event_frames[j].line_color, "line_color", loc);
    } else if k == 5 {
        check_color(out, &g.text_blocks[j].bg_color, "bg_color", loc);
        check_color(out, &g.text_blocks[j].line_color, "line_color", loc);
    } else {
        check_color(out, &g.labels[j].bg_color, "bg_color", loc);
        check_color(out, &g.labels[j].line_color, "line_color", loc);
    }
    assert(findings(out@) =~= start + entity_color_findings(*d, i as int, loc@));
}

// ── Identifiers ─────────────────────────────────────────────────────────────

/// The first entity at or after `j` and before `i` whose id is `id`.
pub open spec fn first_with_id(d: ChartData, id: Seq<char>, j: int, i: int) -> Option<int>
    decreases i - j,
{
    if j >= i {
        None
    } else if entity_common(d, j).id@ == id {
        Some(j)
    } else {
        first_with_id(d, id, j + 1, i)
    }
}

/// Whether some entity carries the (non-empty) id.
pub open spec fn entity_id_known(d: ChartData, id: Seq<char>) -> bool {
    exists|j: int| 0 <= j < entity_count(d) && entity_common(d, j).id@ == id
}

fn find_id(d: &ChartData, id: &str, i: usize) -> (r: Option<usize>)
    requires
        entity_count(*d) <= usize::MAX,
        i <= entity_count(*d),
    ensures
        match r {
            Some(j) => first_with_id(*d, id@, 0, i as int) == Some(j as int),
            None => first_with_id(*d, id@, 0, i as int) is None,
        },
{
    let mut j: usize = 0;
    while j < i
        invariant
            entity_count(*d) <= usize::MAX,
            i <= entity_count(*d),
            j <= i,
            first_with_id(*d, id@, 0, i as int) == first_with_id(*d, id@, j as int, i as int),
        decreases i - j,
    {
        if str_eq(common_at(d, j).id.as_str(), id) {
            return Some(j);
        }
        j = j + 1;
    }
    None
}

proof fn lemma_first_with_id_found(d: ChartData, id: Seq<char>, j: int, i: int)
    requires
        first_with_id(d, id, j, i) is Some,
    ensures
        ({
            let k = first_with_id(d, id, j, i)->0;
            j <= k < i && entity_common(d, k).id@ == id
        }),
    decreases i - j,
{
    if j < i && entity_common(d, j).id@ != id {
        lemma_first_with_id_found(d, id, j + 1, i);
    }
}

proof fn lemma_first_with_id_none(d: ChartData, id: Seq<char>, j: int, i: int, k: int)
    requires
        first_with_id(d, id, j, i) is None,
        j <= k < i,
    ensures
        entity_common(d, k).id@ != id,
    decreases i - j,
{
    if j < k {
        lemma_first_with_id_none(d, id, j + 1, i, k);
    }
}

/// Whether some entity carries `id`.
pub fn id_known(d: &ChartData, id: &str) -> (r: bool)
    requires
        entity_count(*d) <= usize::MAX,
    ensures
        r == entity_id_known(*d, id@),
{
    let n = count_entities(d);
    let f = find_id(d, id, n);
    proof {
        match f {
            Some(_) => lemma_first_with_id_found(*d, id@, 0, n as int),
            None => {
                assert forall|j: int| 0 <= j < entity_count(*d) implies entity_common(*d, j).id@
                    != id@ by {
                    lemma_first_with_id_none(*d, id@, 0, n as int, j);
                }
            },
        }
    }
    f.is_some()
}

// ── Attribute types ─────────────────────────────────────────────────────────

/// An entity's attributes as (name, i2 type token) pairs, in map order.
pub open spec fn typed_attrs(c: EntityCommon) -> Seq<(Seq<char>, Seq<char>)> {
    attr_entries(c.attributes).map_values(|e: (Seq<char>, crate::value::AttrValue)| (e.0, inferred(e.1).token()))
}

/// The typed attributes of the entities before `i` that carry an id (an
/// entity without one is not checked further).
pub open spec fn typed_attrs_before(d: ChartData, i: int) -> Seq<(Seq<char>, Seq<char>)>
    decreases i,
{
    if i <= 0 {
        seq![]
    } else {
        typed_attrs_before(d, i - 1) + (if entity_common(d, i - 1).id@.len() > 0 {
            typed_attrs(entity_common(d, i - 1))
        } else {
            seq![]
        })
    }
}

/// `type_conflict` for an attribute whose name was first seen (earlier in
/// the chart, or earlier on this entity) with another type.
pub open spec fn attr_type_findings(d: ChartData, i: int, loc: Seq<char>) -> Seq<Finding> {
    let pairs = typed_attrs(entity_common(d, i));
    gather(
        |k: int|
            match lookup(typed_attrs_before(d, i) + pairs.take(k), pairs[k].0) {
                Some(prev) => finding_if(
                    prev != pairs[k].1,
                    ErrorType::TypeConflict,
                    loc,
                    "Attribute '"@ + pairs[k].0 + "' used as "@ + prev + " and "@ + pairs[k].1,
                ),
                None => seq![],
            },
        pairs.len() as int,
    )
}

/// The recorded (name, type) pairs, as sequences.
pub open spec fn seen_view(v: Seq<(String, &'static str)>) -> Seq<(Seq<char>, Seq<char>)> {
    v.map_values(|p: (String, &'static str)| (p.0@, p.1@))
}

fn seen_type(seen: &Vec<(String, &'static str)>, name: &str) -> (r: Option<&'static str>)
    ensures
        match r {
            Some(t) => lookup(seen_view(seen@), name@) == Some(t@),
            None => lookup(seen_view(seen@), name@) is None,
        },
{
    let ghost e = seen_view(seen@);
    let n = seen.len();
    let mut i: usize = 0;
    assert(e.skip(0) =~= e);
    while i < n
        invariant
            n == seen@.len(),
            e == seen_view(seen@),
            i <= n,
            lookup(e, name@) == lookup(e.skip(i as int), name@),
        decreases n - i,
    {
        assert(e.skip(i as int)[0] == e[i as int]);
        assert(e.skip(i as int).drop_first() =~= e.skip(i + 1));
        if str_eq(seen[i].0.as_str(), name) {
            return Some(seen[i].1);
        }
        i = i + 1;
    }
    assert(e.skip(n as int).len() == 0);
    None
}

fn check_attr_types(
    out: &mut Vec<ValidationError>,
    seen: &mut Vec<(String, &'static str)>,
    d: &ChartData,
    i: usize,
    loc: &str,
)
    requires
        entity_count(*d) <= usize::MAX,
        i < entity_count(*d),
        seen_view(old(seen)@) == typed_attrs_before(*d, i as int),
    ensures
        findings(final(out)@) == findings(old(out)@) + attr_type_findings(*d, i as int, loc@),
        seen_view(final(seen)@) == typed_attrs_before(*d, i as int) + typed_attrs(
            entity_common(*d, i as int),
        ),
{
    let c = common_at(d, i);
    let ghost pairs = typed_attrs(entity_common(*d, i as int));
    let ghost base = typed_attrs_before(*d, i as int);
    let n = attr_count(&c.attributes);
    for k in 0..n
        invariant
            n == pairs.len(),
            *c == entity_common(*d, i as int),
            pairs == typed_attrs(*c),
            base == typed_attrs_before(*d, i as int),
            seen_view(seen@) == base + pairs.take(k as int),
            findings(out@) == findings(old(out)@) + gather(
                |k: int|
                    match lookup(typed_attrs_before(*d, i as int) + pairs.take(k), pairs[k].0) {
                        Some(prev) => finding_if(
                            prev != pairs[k].1,
                            ErrorType::TypeConflict,
                            loc@,
                            "Attribute '"@ + pairs[k].0 + "' used as "@ + prev + " and "@
                                + pairs[k].1,
                        ),
                        None => seq![],
                    },
                k as int,
            ),
    {
        let ghost before = findings(out@);
        let (name, val) = attr_at(&c.attributes, k);
        let t = val.infer_type().anb_token();
        assert(pairs[k as int] == (name@, t@));
        let ghost prior = typed_attrs_before(*d, i as int) + pairs.take(k as int);
        assert(seen_view(seen@) == prior);
        let ghost expected = match lookup(prior, name@) {
            Some(prev) => finding_if(
                prev != t@,
                ErrorType::TypeConflict,
                loc@,
                "Attribute '"@ + name@ + "' used as "@ + prev + " and "@ + t@,
            ),
            None => seq![],
        };
        match seen_type(seen, name.as_str()) {
            Some(prev) => {
                if !str_eq(prev, t) {
                    let mut m = String::new();
                    m.append("Attribute '");
                    m.append(name.as_str());
                    m.append("' used as ");
                    m.append(prev);
                    m.append(" and ");
                    m.append(t);
                    report(out, ErrorType::TypeConflict, loc.to_owned(), m);
                }
                assert(findings(out@) =~= before + expected);
            },
            None => {
                assert(findings(out@) =~= before + expected);
            },
        }
        let ghost old_seen = seen@;
        seen.push((name.clone(), t));
        assert(seen_view(seen@) =~= seen_view(old_seen).push((name@, t@)));
        assert(pairs.take(k + 1) =~= pairs.take(k as int).push(pairs[k as int]));
    }
    assert(pairs.take(n as int) =~= pairs);
}

// ── Entities ────────────────────────────────────────────────────────────────

/// A required type, and an id no earlier entity carries.
pub open spec fn entity_head_findings(d: ChartData, i: int, loc: Seq<char>) -> Seq<Finding> {
    let c = entity_common(d, i);
    finding_if(
        c.type_@.len() == 0,
        ErrorType::MissingRequired,
        loc,
        "Missing required field 'type' on entity '"@ + c.id@ + "'"@,
    ) + (match first_with_id(d, c.id@, 0, i) {
        Some(j) => one(
            ErrorType::DuplicateId,
            loc,
            "Duplicate entity id '"@ + c.id@ + "' (first seen at "@ + entity_loc(d, j) + ")"@,
        ),
        None => seq![],
    })
}

/// Colors, then the fields every chart item carries.
pub open spec fn entity_field_findings(cfg: Config, d: ChartData, i: int, loc: Seq<char>) -> Seq<
    Finding,
> {
    let c = entity_common(d, i);
    entity_color_findings(d, i, loc) + color_findings(c.label_font.color, "label_font.color"@, loc)
        + item_common_findings(
        cfg,
        loc,
        c.date,
        c.time,
        c.strength,
        c.grade_one,
        c.grade_two,
        c.grade_three,
        c.datetime_format,
    )
}

/// Findings for entity `i`: a required id (nothing else is checked without
/// one), a required type, a unique id, colors, the shared item fields, and
/// consistent attribute types.
pub open spec fn entity_findings(cfg: Config, d: ChartData, i: int) -> Seq<Finding> {
    let loc = entity_loc(d, i);
    if entity_common(d, i).id@.len() == 0 {
        one(ErrorType::MissingRequired, loc, "Missing required field 'id'"@)
    } else {
        entity_head_findings(d, i, loc) + entity_field_findings(cfg, d, i, loc) + attr_type_findings(
            d,
            i,
            loc,
        )
    }
}

fn check_entity_ids(out: &mut Vec<ValidationError>, d: &ChartData, i: usize, loc: &String)
    requires
        entity_count(*d) <= usize::MAX,
        i < entity_count(*d),
    ensures
        findings(final(out)@) == findings(old(out)@) + entity_head_findings(*d, i as int, loc@),
{
    let ghost start = findings(out@);
    let c = common_at(d, i);
    if is_empty_str(c.type_.as_str()) {
        report(out, ErrorType::MissingRequired, loc.clone(),
            cat3("Missing required field 'type' on entity '", c.id.as_str(), "'"));
    }
    let ghost mid = findings(out@);
    match find_id(d, c.id.as_str(), i) {
        Some(j) => {
            let first = loc_at(d, j);
            let mut m = String::new();
            m.append("Duplicate entity id '");
            m.append(c.id.as_str());
            m.append("' (first seen at ");
            m.append(first.as_str());
            m.append(")");
            report(out, ErrorType::DuplicateId, loc.clone(), m);
        },
        None => {},
    }
    assert(findings(out@) =~= start + entity_head_findings(*d, i as int, loc@));
}

fn check_entity_fields(out: &mut Vec<ValidationError>, cfg: &Config, d: &ChartData, i: usize, loc: &String)
    requires
        entity_count(*d) <= usize::MAX,
        i < entity_count(*d),
    ensures
        findings(final(out)@) == findings(old(out)@) + entity_field_findings(*cfg, *d, i as int, loc@),
{
    let ghost start = findings(out@);
    let c = common_at(d, i);
    check_entity_colors(out, d, i, loc.as_str());
    check_color(out, &c.label_font.color, "label_font.color", loc.as_str());
    check_chart_item_common(
        out,
        cfg,
        loc.as_str(),
        &c.date,
        &c.time,
        &c.strength,
        &c.grade_one,
        &c.grade_two,
        &c.grade_three,
        &c.datetime_format,
    );
    assert(findings(out@) =~= start + entity_field_findings(*cfg, *d, i as int, loc@));
}

fn check_entity(
    out: &mut Vec<ValidationError>,
    seen: &mut Vec<(String, &'static str)>,
    cfg: &Config,
    d: &ChartData,
    i: usize,
)
    requires
        entity_count(*d) <= usize::MAX,
        i < entity_count(*d),
        seen_view(old(seen)@) == typed_attrs_before(*d, i as int),
    ensures
        findings(final(out)@) == findings(old(out)@) + entity_findings(*cfg, *d, i as int),
        seen_view(final(seen)@) == typed_attrs_before(*d, i as int + 1),
{
    let ghost start = findings(out@);
    let c = common_at(d, i);
    let loc = loc_at(d, i);
    if is_empty_str(c.id.as_str()) {
        report(out, ErrorType::MissingRequired, loc, "Missing required field 'id'".to_owned());
        assert(seen_view(seen@) =~= typed_attrs_before(*d, i as int + 1));
        return;
    }
    check_entity_ids(out, d, i, &loc);
    check_entity_fields(out, cfg, d, i, &loc);
    check_attr_types(out, seen, d, i, loc.as_str());
    assert(findings(out@) =~= start + entity_findings(*cfg, *d, i as int));
}

/// The entity rules over the whole chart, in entity order.
pub open spec fn entities_findings(cfg: Config, d: ChartData) -> Seq<Finding> {
    gather(|i: int| entity_findings(cfg, d, i), entity_count(d))
}

pub fn validate_entities(out: &mut Vec<ValidationError>, cfg: &Config, d: &ChartData)
    requires
        entity_count(*d) <= usize::MAX,
    ensures
        findings(final(out)@) == findings(old(out)@) + entities_findings(*cfg, *d),
{
    let n = count_entities(d);
    let mut seen: Vec<(String, &'static str)> = Vec::new();
    assert(seen_view(seen@) =~= typed_attrs_before(*d, 0));
    for i in 0..n
        invariant
            n == entity_count(*d),
            entity_count(*d) <= usize::MAX,
            seen_view(seen@) == typed_attrs_before(*d, i as int),
            findings(out@) == findings(old(out)@) + gather(
                |i: int| entity_findings(*cfg, *d, i),
                i as int,
            ),
    {
        check_entity(out, &mut seen, cfg, d, i);
    }
}

} // verus!
