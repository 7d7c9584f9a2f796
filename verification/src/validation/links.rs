//! Per-link rules (known endpoints, no self-loop, colors and vocabulary
//! fields, the shared item fields, `ordered` between theme lines), legend
//! items, the strength default, loose cards, and connection styles.
use vstd::prelude::*;

use crate::error::{ErrorType, ValidationError};
use crate::input::{ChartData, Config};
use crate::models::Link;
use crate::report::{at, at_index, cat3, findings, finding_if, gather, one, report, Finding};
use crate::text::{is_empty_str, str_eq};
use crate::validation::chart::{
    common_at, count_entities, entity_common, entity_count, entity_id_known, entity_kind, id_known,
    kind_at,
};
use crate::validation::common::{check_chart_item_common, check_color, check_enum, color_findings, enum_findings, filled, item_common_findings, text_of};
use crate::validation::defs::{listed, views};

verus! {

// ── Vocabularies ────────────────────────────────────────────────────────────

pub open spec fn arrow_values() -> Seq<Seq<char>> {
    seq![
        "ArrowOnHead"@,
        "ArrowOnTail"@,
        "ArrowOnBoth"@,
        "head"@,
        "tail"@,
        "both"@,
        "->"@,
        "<-"@,
        "<->"@,
    ]
}

pub open spec fn multiplicity_values() -> Seq<Seq<char>> {
    seq![
        "MultiplicityMultiple"@,
        "MultiplicitySingle"@,
        "MultiplicityDirected"@,
        "multiple"@,
        "single"@,
        "directed"@,
    ]
}

pub open spec fn theme_wiring_values() -> Seq<Seq<char>> {
    seq![
        "KeepsAtEventHeight"@,
        "ReturnsToThemeHeight"@,
        "GoesToNextEventHeight"@,
        "NoDiversion"@,
        "keep_event"@,
        "return_theme"@,
        "next_event"@,
        "no_diversion"@,
    ]
}

pub open spec fn legend_type_values() -> Seq<Seq<char>> {
    seq![
        "Font"@,
        "Text"@,
        "Icon"@,
        "Attribute"@,
        "Line"@,
        "Link"@,
        "TimeZone"@,
        "IconFrame"@,
        "font"@,
        "text"@,
        "icon"@,
        "attribute"@,
        "line"@,
        "link"@,
        "timezone"@,
        "icon_frame"@,
    ]
}

fn arrow_list() -> (v: Vec<&'static str>)
    ensures
        views(v@) == arrow_values(),
{
    let v = vec!["ArrowOnHead", "ArrowOnTail", "ArrowOnBoth", "head", "tail", "both", "->", "<-", "<->"];
    assert(views(v@) =~= arrow_values());
    v
}

fn multiplicity_list() -> (v: Vec<&'static str>)
    ensures
        views(v@) == multiplicity_values(),
{
    let v = vec![
        "MultiplicityMultiple",
        "MultiplicitySingle",
        "MultiplicityDirected",
        "multiple",
        "single",
        "directed",
    ];
    assert(views(v@) =~= multiplicity_values());
    v
}

fn theme_wiring_list() -> (v: Vec<&'static str>)
    ensures
        views(v@) == theme_wiring_values(),
{
    let v = vec![
        "KeepsAtEventHeight",
        "ReturnsToThemeHeight",
        "GoesToNextEventHeight",
        "NoDiversion",
        "keep_event",
        "return_theme",
        "next_event",
        "no_diversion",
    ];
    assert(views(v@) =~= theme_wiring_values());
    v
}

fn legend_type_list() -> (v: Vec<&'static str>)
    ensures
        views(v@) == legend_type_values(),
{
    let v = vec![
        "Font",
        "Text",
        "Icon",
        "Attribute",
        "Line",
        "Link",
        "TimeZone",
        "IconFrame",
        "font",
        "text",
        "icon",
        "attribute",
        "line",
        "link",
        "timezone",
        "icon_frame",
    ];
    assert(views(v@) =~= legend_type_values());
    v
}

fn listed_opt(list: &Vec<&'static str>, o: &Option<String>) -> (r: bool)
    ensures
        o is Some ==> r == views(list@).contains(text_of(*o)),
{
    match o {
        Some(s) => listed(list, s.as_str()),
        None => true,
    }
}

// ── Links ───────────────────────────────────────────────────────────────────

/// The last entity before `i` whose id is `id`.
pub open spec fn last_with_id(d: ChartData, id: Seq<char>, i: int) -> Option<int>
    decreases i,
{
    if i <= 0 {
        None
    } else if entity_common(d, i - 1).id@ == id {
        Some(i - 1)
    } else {
        last_with_id(d, id, i - 1)
    }
}

/// Whether the id resolves to a theme line (the last entity with that id
/// decides).
pub open spec fn theme_line_id(d: ChartData, id: Seq<char>) -> bool {
    match last_with_id(d, id, entity_count(d)) {
        Some(j) => entity_kind(d, j) == "ThemeLine"@,
        None => false,
    }
}

fn is_theme_line_id(d: &ChartData, id: &str) -> (r: bool)
    requires
        entity_count(*d) <= usize::MAX,
    ensures
        r == theme_line_id(*d, id@),
{
    let mut i = count_entities(d);
    while i > 0
        invariant
            entity_count(*d) <= usize::MAX,
            i <= entity_count(*d),
            last_with_id(*d, id@, entity_count(*d)) == last_with_id(*d, id@, i as int),
        decreases i,
    {
        if str_eq(common_at(d, i - 1).id.as_str(), id) {
            return str_eq(kind_at(d, i - 1), "ThemeLine");
        }
        i = i - 1;
    }
    false
}

/// Both endpoints are required and must name entities; a link may not
/// join an entity to itself.
pub open spec fn link_end_findings(d: ChartData, l: Link, loc: Seq<char>) -> Seq<Finding> {
    (if l.from_id@.len() == 0 {
        one(ErrorType::MissingRequired, loc, "Missing required field 'from_id'"@)
    } else {
        finding_if(
            !entity_id_known(d, l.from_id@),
            ErrorType::MissingEntity,
            loc,
            "Link from_id '"@ + l.from_id@ + "' does not reference a known entity"@,
        )
    }) + (if l.to_id@.len() == 0 {
        one(ErrorType::MissingRequired, loc, "Missing required field 'to_id'"@)
    } else {
        finding_if(
            !entity_id_known(d, l.to_id@),
            ErrorType::MissingEntity,
            loc,
            "Entity '"@ + l.to_id@ + "' (to_id) not found in any entity list"@,
        )
    }) + finding_if(
        l.from_id@.len() > 0 && l.from_id@ == l.to_id@,
        ErrorType::SelfLoop,
        loc,
        "Link forms a self-loop on '"@ + l.from_id@ + "'"@,
    )
}

/// The line color and the arrow, multiplicity and theme-wiring vocabularies.
pub open spec fn link_style_findings(l: Link, loc: Seq<char>) -> Seq<Finding> {
    color_findings(l.line_color, "line_color"@, loc) + enum_findings(
        l.arrow,
        arrow_values().contains(text_of(l.arrow)),
        ErrorType::InvalidArrow,
        "arrow"@,
        loc,
    ) + enum_findings(
        l.multiplicity,
        multiplicity_values().contains(text_of(l.multiplicity)),
        ErrorType::InvalidMultiplicity,
        "multiplicity"@,
        loc,
    ) + enum_findings(
        l.theme_wiring,
        theme_wiring_values().contains(text_of(l.theme_wiring)),
        ErrorType::InvalidThemeWiring,
        "theme_wiring"@,
        loc,
    )
}

/// Findings for the `i`-th link.
pub open spec fn link_findings(cfg: Config, d: ChartData, i: int) -> Seq<Finding> {
    let l = d.links@[i];
    let loc = at("links"@, i);
    link_end_findings(d, l, loc) + link_style_findings(l, loc) + item_common_findings(
        cfg,
        loc,
        l.date,
        l.time,
        l.strength,
        l.grade_one,
        l.grade_two,
        l.grade_three,
        l.datetime_format,
    ) + finding_if(
        l.ordered == Some(true) && !(theme_line_id(d, l.from_id@) && theme_line_id(d, l.to_id@)),
        ErrorType::InvalidOrdered,
        loc,
        "ordered=True requires both ends to be ThemeLine entities"@,
    )
}

fn check_link_ends(out: &mut Vec<ValidationError>, d: &ChartData, l: &Link, loc: &String)
    requires
        entity_count(*d) <= usize::MAX,
    ensures
        findings(final(out)@) == findings(old(out)@) + link_end_findings(*d, *l, loc@),
{
    let ghost start = findings(out@);
    if is_empty_str(l.from_id.as_str()) {
        report(out, ErrorType::MissingRequired, loc.clone(), "Missing required field 'from_id'".to_owned());
    } else if !id_known(d, l.from_id.as_str()) {
        report(out, ErrorType::MissingEntity, loc.clone(),
            cat3("Link from_id '", l.from_id.as_str(), "' does not reference a known entity"));
    }
    let ghost s1 = findings(out@);
    if is_empty_str(l.to_id.as_str()) {
        report(out, ErrorType::MissingRequired, loc.clone(), "Missing required field 'to_id'".to_owned());
    } else if !id_known(d, l.to_id.as_str()) {
        report(out, ErrorType::MissingEntity, loc.clone(),
            cat3("Entity '", l.to_id.as_str(), "' (to_id) not found in any entity list"));
    }
    let ghost s2 = findings(out@);
    if !is_empty_str(l.from_id.as_str()) && str_eq(l.from_id.as_str(), l.to_id.as_str()) {
        report(out, ErrorType::SelfLoop, loc.clone(),
            cat3("Link forms a self-loop on '", l.from_id.as_str(), "'"));
    }
    assert(findings(out@) =~= start + link_end_findings(*d, *l, loc@));
}

fn check_link_style(out: &mut Vec<ValidationError>, l: &Link, loc: &String)
    ensures
        findings(final(out)@) == findings(old(out)@) + link_style_findings(*l, loc@),
{
    let ghost start = findings(out@);
    check_color(out, &l.line_color, "line_color", loc.as_str());
    let ok = listed_opt(&arrow_list(), &l.arrow);
    check_enum(out, &l.arrow, ok, ErrorType::InvalidArrow, "arrow", loc.as_str());
    let ok = listed_opt(&multiplicity_list(), &l.multiplicity);
    check_enum(out, &l.multiplicity, ok, ErrorType::InvalidMultiplicity, "multiplicity", loc.as_str());
    let ok = listed_opt(&theme_wiring_list(), &l.theme_wiring);
    check_enum(out, &l.theme_wiring, ok, ErrorType::InvalidThemeWiring, "theme_wiring", loc.as_str());
    assert(findings(out@) =~= start + link_style_findings(*l, loc@));
}

fn check_link(out: &mut Vec<ValidationError>, cfg: &Config, d: &ChartData, i: usize)
    requires
        entity_count(*d) <= usize::MAX,
        i < d.links@.len(),
    ensures
        findings(final(out)@) == findings(old(out)@) + link_findings(*cfg, *d, i as int),
{
    let ghost start = findings(out@);
    let l = &d.links[i];
    let loc = at_index("links", i);
    check_link_ends(out, d, l, &loc);
    check_link_style(out, l, &loc);
    check_chart_item_common(
        out,
        cfg,
        loc.as_str(),
        &l.date,
        &l.time,
        &l.strength,
        &l.grade_one,
        &l.grade_two,
        &l.grade_three,
        &l.datetime_format,
    );
    let ghost s3 = findings(out@);
    if l.ordered == Some(true) {
        if !is_theme_line_id(d, l.from_id.as_str()) || !is_theme_line_id(d, l.to_id.as_str()) {
            report(out, ErrorType::InvalidOrdered, loc,
                "ordered=True requires both ends to be ThemeLine entities".to_owned());
        }
    }
    assert(findings(out@) =~= start + link_findings(*cfg, *d, i as int));
}

/// The link rules over every link, in order.
pub open spec fn links_findings(cfg: Config, d: ChartData) -> Seq<Finding> {
    gather(|i: int| link_findings(cfg, d, i), d.links@.len() as int)
}

pub fn validate_links(out: &mut Vec<ValidationError>, cfg: &Config, d: &ChartData)
    requires
        entity_count(*d) <= usize::MAX,
    ensures
        findings(final(out)@) == findings(old(out)@) + links_findings(*cfg, *d),
{
    let n = d.links.len();
    for i in 0..n
        invariant
            n == d.links@.len(),
            entity_count(*d) <= usize::MAX,
            findings(out@) == findings(old(out)@) + gather(
                |i: int| link_findings(*cfg, *d, i),
                i as int,
            ),
    {
        check_link(out, cfg, d, i);
    }
}

// ── Legend and strengths ────────────────────────────────────────────────────

pub open spec fn legend_item_findings(cfg: Config, i: int) -> Seq<Finding> {
    let li = cfg.legend_items@[i];
    let loc = at("legend_items"@, i);
    finding_if(li.name@.len() == 0, ErrorType::MissingRequired, loc, "Legend item missing 'name'/'label'"@)
        + (match li.item_type {
        Some(t) => finding_if(
            !legend_type_values().contains(t@),
            ErrorType::InvalidLegendType,
            loc,
            "Invalid legend item_type '"@ + t@ + "'"@,
        ),
        None => seq![],
    })
}

/// Legend items need a name and a known item type.
pub fn validate_legend_items(out: &mut Vec<ValidationError>, cfg: &Config)
    ensures
        findings(final(out)@) == findings(old(out)@) + gather(
            |i: int| legend_item_findings(*cfg, i),
            cfg.legend_items@.len() as int,
        ),
{
    let n = cfg.legend_items.len();
    for i in 0..n
        invariant
            n == cfg.legend_items@.len(),
            findings(out@) == findings(old(out)@) + gather(
                |i: int| legend_item_findings(*cfg, i),
                i as int,
            ),
    {
        let ghost before = findings(out@);
        let li = &cfg.legend_items[i];
        if is_empty_str(li.name.as_str()) {
            report(out, ErrorType::MissingRequired, at_index("legend_items", i),
                "Legend item missing 'name'/'label'".to_owned());
        }
        let ghost mid = findings(out@);
        if let Some(t) = &li.item_type {
            if !listed(&legend_type_list(), t.as_str()) {
                report(out, ErrorType::InvalidLegendType, at_index("legend_items", i),
                    cat3("Invalid legend item_type '", t.as_str(), "'"));
            }
        }
        assert(findings(out@) =~= before + legend_item_findings(*cfg, i as int));
    }
}

/// A configured default strength must be one of the strengths.
pub open spec fn strength_default_findings(cfg: Config) -> Seq<Finding> {
    match cfg.strengths {
        Some(sc) => match sc.default {
            Some(dflt) => finding_if(
                !(exists|k: int| 0 <= k < sc.items@.len() && sc.items@[k].name@ == dflt@),
                ErrorType::InvalidStrengthDefault,
                "strengths"@,
                "Default strength '"@ + dflt@ + "' is not among the defined strengths"@,
            ),
            None => seq![],
        },
        None => seq![],
    }
}

pub fn validate_strength_default(out: &mut Vec<ValidationError>, cfg: &Config)
    ensures
        findings(final(out)@) == findings(old(out)@) + strength_default_findings(*cfg),
{
    if let Some(sc) = &cfg.strengths {
        if let Some(dflt) = &sc.default {
            let n = sc.items.len();
            let mut found = false;
            for k in 0..n
                invariant
                    n == sc.items@.len(),
                    found == exists|j: int| 0 <= j < k && sc.items@[j].name@ == dflt@,
            {
                if str_eq(sc.items[k].name.as_str(), dflt.as_str()) {
                    found = true;
                }
            }
            if !found {
                report(out, ErrorType::InvalidStrengthDefault, "strengths".to_owned(),
                    cat3("Default strength '", dflt.as_str(), "' is not among the defined strengths"));
                return;
            }
        }
    }
    assert(findings(out@) =~= findings(old(out)@) + strength_default_findings(*cfg));
}

// ── Loose cards ─────────────────────────────────────────────────────────────

/// Whether some link carries that `link_id`.
pub open spec fn link_id_known(d: ChartData, id: Seq<char>) -> bool {
    exists|k: int| 0 <= k < d.links@.len() && oview(d.links@[k].link_id) == Some(id)
}

fn link_id_is_known(d: &ChartData, id: &str) -> (r: bool)
    ensures
        r == link_id_known(*d, id@),
{
    let n = d.links.len();
    for k in 0..n
        invariant
            n == d.links@.len(),
            forall|j: int| 0 <= j < k ==> oview(d.links@[j].link_id) != Some(id@),
    {
        if let Some(x) = &d.links[k].link_id {
            if str_eq(x.as_str(), id) {
                assert(oview(d.links@[k as int].link_id) == Some(id@));
                return true;
            }
        }
    }
    false
}

/// A loose card must point at an existing entity and/or link.
pub open spec fn loose_card_findings(d: ChartData, i: int) -> Seq<Finding> {
    let c = d.loose_cards@[i];
    let loc = at("loose_cards"@, i);
    finding_if(
        filled(c.entity_id) && !entity_id_known(d, text_of(c.entity_id)),
        ErrorType::MissingTarget,
        loc,
        "loose card entity_id '"@ + text_of(c.entity_id) + "' not found"@,
    ) + finding_if(
        filled(c.link_id) && !link_id_known(d, text_of(c.link_id)),
        ErrorType::MissingTarget,
        loc,
        "loose card link_id '"@ + text_of(c.link_id) + "' not found"@,
    )
}

/// A loose card's `link_id` is looked up among the links' `link_id`s (not
/// among entity ids): when some link carries it, the card draws no
/// finding about it; when it is set and no link carries it, the card draws
/// a missing-target finding at its position naming it.
pub proof fn loose_card_link_id_rule(d: ChartData, i: int)
    requires
        0 <= i < d.loose_cards@.len(),
    ensures
        ({
            let c = d.loose_cards@[i];
            let f = loose_card_findings(d, i);
            let msg = "loose card link_id '"@ + text_of(c.link_id) + "' not found"@;
            let carried = exists|k: int|
                0 <= k < d.links@.len() && (#[trigger] d.links@[k]).link_id is Some && text_of(d.links@[k].link_id) == text_of(c.link_id);
            &&& carried ==> forall|j: int| 0 <= j < f.len() ==> (#[trigger] f[j]).2 != msg
            &&& filled(c.link_id) && !carried ==> exists|j: int|
                0 <= j < f.len() && #[trigger] f[j] == (
                    ErrorType::MissingTarget,
                    at("loose_cards"@, i),
                    msg,
                    None::<Seq<char>>,
                    None::<Seq<char>>,
                    None::<Seq<char>>,
                )
        }),
{
    let c = d.loose_cards@[i];
    let f = loose_card_findings(d, i);
    let lmsg = "loose card link_id '"@ + text_of(c.link_id) + "' not found"@;
    let emsg = "loose card entity_id '"@ + text_of(c.entity_id) + "' not found"@;
    reveal_strlit("loose card link_id '");
    reveal_strlit("loose card entity_id '");
    assert(emsg[11] == 'e');
    assert(lmsg[11] == 'l');
    assert(emsg != lmsg);
    let carried = exists|k: int|
        0 <= k < d.links@.len() && (#[trigger] d.links@[k]).link_id is Some && text_of(d.links@[k].link_id) == text_of(c.link_id);
    if carried {
        let k = choose|k: int|
            0 <= k < d.links@.len() && (#[trigger] d.links@[k]).link_id is Some && text_of(d.links@[k].link_id) == text_of(c.link_id);
        assert(oview(d.links@[k].link_id) == Some(text_of(c.link_id)));
        assert(link_id_known(d, text_of(c.link_id)));
        assert forall|j: int| 0 <= j < f.len() implies (#[trigger] f[j]).2 != lmsg by {}
    }
    if filled(c.link_id) && !carried {
        assert(!link_id_known(d, text_of(c.link_id))) by {
            if link_id_known(d, text_of(c.link_id)) {
                let k = choose|k: int| 0 <= k < d.links@.len() && oview(d.links@[k].link_id) == Some(text_of(c.link_id));
                assert(d.links@[k].link_id is Some && text_of(d.links@[k].link_id) == text_of(c.link_id));
            }
        }
        let j = f.len() - 1;
        assert(f[j] == (
            ErrorType::MissingTarget,
            at("loose_cards"@, i),
            lmsg,
            None::<Seq<char>>,
            None::<Seq<char>>,
            None::<Seq<char>>,
        ));
    }
}

pub fn validate_loose_cards(out: &mut Vec<ValidationError>, d: &ChartData)
    requires
        entity_count(*d) <= usize::MAX,
    ensures
        findings(final(out)@) == findings(old(out)@) + gather(
            |i: int| loose_card_findings(*d, i),
            d.loose_cards@.len() as int,
        ),
{
    let n = d.loose_cards.len();
    for i in 0..n
        invariant
            n == d.loose_cards@.len(),
            entity_count(*d) <= usize::MAX,
            findings(out@) == findings(old(out)@) + gather(
                |i: int| loose_card_findings(*d, i),
                i as int,
            ),
    {
        let ghost before = findings(out@);
        let c = &d.loose_cards[i];
        if let Some(eid) = &c.entity_id {
            if !is_empty_str(eid.as_str()) && !id_known(d, eid.as_str()) {
                report(out, ErrorType::MissingTarget, at_index("loose_cards", i),
                    cat3("loose card entity_id '", eid.as_str(), "' not found"));
            }
        }
        let ghost mid = findings(out@);
        if let Some(lid) = &c.link_id {
            if !is_empty_str(lid.as_str()) && !link_id_is_known(d, lid.as_str()) {
                report(out, ErrorType::MissingTarget, at_index("loose_cards", i),
                    cat3("loose card link_id '", lid.as_str(), "' not found"));
            }
        }
        assert(findings(out@) =~= before + loose_card_findings(*d, i as int));
    }
}

// ── Connection styles ───────────────────────────────────────────────────────

/// A link that sets any connection-style field.
pub open spec fn styled(l: Link) -> bool {
    l.multiplicity is Some || l.fan_out is Some || l.theme_wiring is Some
}

/// Two links join the same two entities, in either direction.
pub open spec fn same_pair(a: Link, b: Link) -> bool {
    (a.from_id@ == b.from_id@ && a.to_id@ == b.to_id@) || (a.from_id@ == b.to_id@ && a.to_id@
        == b.from_id@)
}

/// An optional text field as a sequence.
pub open spec fn oview(o: Option<String>) -> Option<Seq<char>> {
    match o {
        Some(s) => Some(s@),
        None => None,
    }
}

/// The connection style of a link.
pub open spec fn conn_style(l: Link) -> (Option<Seq<char>>, Option<i64>, Option<Seq<char>>) {
    (oview(l.multiplicity), l.fan_out, oview(l.theme_wiring))
}

/// The first styled link in `j..i` between the same pair as link `i`.
pub open spec fn first_styled_pair(ls: Seq<Link>, i: int, j: int) -> Option<int>
    decreases i - j,
{
    if j >= i {
        None
    } else if styled(ls[j]) && same_pair(ls[j], ls[i]) {
        Some(j)
    } else {
        first_styled_pair(ls, i, j + 1)
    }
}

/// A styled link must agree with the first styled link between the same pair.
pub open spec fn connection_findings(ls: Seq<Link>, i: int) -> Seq<Finding> {
    if !styled(ls[i]) {
        seq![]
    } else {
        match first_styled_pair(ls, i, 0) {
            Some(j) => finding_if(
                conn_style(ls[j]) != conn_style(ls[i]),
                ErrorType::ConnectionConflict,
                at("links"@, i),
                "links between the same pair have conflicting connection styles"@,
            ),
            None => seq![],
        }
    }
}

fn opt_str_eq(a: &Option<String>, b: &Option<String>) -> (r: bool)
    ensures
        r == (oview(*a) == oview(*b)),
{
    match (a, b) {
        (Some(x), Some(y)) => str_eq(x.as_str(), y.as_str()),
        (None, None) => true,
        _ => false,
    }
}

fn is_styled(l: &Link) -> (r: bool)
    ensures
        r == styled(*l),
{
    l.multiplicity.is_some() || l.fan_out.is_some() || l.theme_wiring.is_some()
}

fn first_styled(ls: &Vec<Link>, i: usize) -> (r: Option<usize>)
    requires
        i < ls@.len(),
    ensures
        match r {
            Some(j) => j < i && first_styled_pair(ls@, i as int, 0) == Some(j as int),
            None => first_styled_pair(ls@, i as int, 0) is None,
        },
{
    let mut j: usize = 0;
    while j < i
        invariant
            i < ls@.len(),
            j <= i,
            first_styled_pair(ls@, i as int, 0) == first_styled_pair(ls@, i as int, j as int),
        decreases i - j,
    {
        let a = &ls[j];
        let b = &ls[i];
        let same = (str_eq(a.from_id.as_str(), b.from_id.as_str()) && str_eq(a.to_id.as_str(), b.to_id.as_str()))
            || (str_eq(a.from_id.as_str(), b.to_id.as_str()) && str_eq(a.to_id.as_str(), b.from_id.as_str()));
        if is_styled(a) && same {
            return Some(j);
        }
        j = j + 1;
    }
    None
}

/// Links between the same pair of entities must not set conflicting
/// connection styles.
pub fn validate_connection_conflicts(out: &mut Vec<ValidationError>, links: &Vec<Link>)
    ensures
        findings(final(out)@) == findings(old(out)@) + gather(
            |i: int| connection_findings(links@, i),
            links@.len() as int,
        ),
{
    let n = links.len();
    for i in 0..n
        invariant
            n == links@.len(),
            findings(out@) == findings(old(out)@) + gather(
                |i: int| connection_findings(links@, i),
                i as int,
            ),
    {
        let ghost before = findings(out@);
        let l = &links[i];
        if is_styled(l) {
            if let Some(j) = first_styled(links, i) {
                let p = &links[j];
                let same = opt_str_eq(&p.multiplicity, &l.multiplicity) && p.fan_out == l.fan_out
                    && opt_str_eq(&p.theme_wiring, &l.theme_wiring);
                if !same {
                    report(out, ErrorType::ConnectionConflict, at_index("links", i),
                        "links between the same pair have conflicting connection styles".to_owned());
                }
            }
        }
        assert(findings(out@) =~= before + connection_findings(links@, i as int));
    }
}

} // verus!
