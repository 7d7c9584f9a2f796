//! The decisions of the resolve pass: evidence cards with their date-time and
//! grades, the loose cards routed to an entity or link, which entities are
//! laid out automatically, where an entity is placed, and which shade, label
//! colors and icon it ends up with.
use vstd::prelude::*;
use indexmap::{IndexMap, IndexSet};

use crate::datetime::{build_datetime, datetime_value, opt_view};
use crate::emit::{color_of, resolve_color};
use crate::entities::{ref_common, EntityCommon, EntityRef};
use crate::items::ov;
use crate::layout::{find_last_node, last_node};
use crate::maps::{lookup, mapping_entries, mapping_get, set_add, string_set_entries, string_set_insert};
use crate::models::{Card, GradeCollection, GradeRef};
use crate::resolved::ResolvedCard;
use crate::text::{contains_str, str_eq};
use crate::transforms::{default_grade, grade_index, resolve_grade_with_default};

verus! {

// ── Cards ───────────────────────────────────────────────────────────────────

/// A grade resolved against its collection, with the collection's default
/// as the fallback.
pub open spec fn grade_with_default(val: Option<GradeRef>, gc: GradeCollection) -> Option<i64> {
    match grade_index(val, gc.items@) {
        Some(i) => Some(i as i64),
        None => match default_grade(gc) {
            Some(i) => Some(i as i64),
            None => None,
        },
    }
}

/// `r` is card `c` resolved against the three grade collections: its texts
/// carried over, its date and time combined, its grades resolved.
pub open spec fn card_resolved(
    r: ResolvedCard,
    c: Card,
    g1: GradeCollection,
    g2: GradeCollection,
    g3: GradeCollection,
) -> bool {
    &&& ov(r.summary) == ov(c.summary)
    &&& match datetime_value(ov(c.date), ov(c.time)) {
        Some((t, ds, ts)) => ov(r.datetime) == Some(t) && r.date_set == ds && r.time_set == ts,
        None => r.datetime is None && !r.date_set && !r.time_set,
    }
    &&& r.grade_one == grade_with_default(c.grade_one, g1)
    &&& r.grade_two == grade_with_default(c.grade_two, g2)
    &&& r.grade_three == grade_with_default(c.grade_three, g3)
    &&& ov(r.source_ref) == ov(c.source_ref)
    &&& ov(r.source_type) == ov(c.source_type)
    &&& ov(r.description) == ov(c.description)
    &&& ov(r.datetime_description) == ov(c.datetime_description)
    &&& r.timezone_id == match c.timezone {
        Some(t) => Some(t.id),
        None => None,
    }
    &&& ov(r.timezone_name) == match c.timezone {
        Some(t) => Some(t.name@),
        None => None,
    }
}

fn text_of(o: &Option<String>) -> (r: Option<&str>)
    ensures
        opt_view(r) == ov(*o),
{
    match o {
        Some(x) => Some(x.as_str()),
        None => None,
    }
}

fn copy_text(o: &Option<String>) -> (r: Option<String>)
    ensures
        ov(r) == ov(*o),
{
    match o {
        Some(x) => Some(x.clone()),
        None => None,
    }
}

fn grade_ref(o: &Option<GradeRef>) -> (r: Option<&GradeRef>)
    ensures
        match r {
            Some(g) => *o == Some(*g),
            None => o is None,
        },
{
    match o {
        Some(g) => Some(g),
        None => None,
    }
}

/// Resolve one evidence card.
pub fn resolve_card(c: &Card, g1: &GradeCollection, g2: &GradeCollection, g3: &GradeCollection) -> (r: ResolvedCard)
    ensures
        card_resolved(r, *c, *g1, *g2, *g3),
{
    let (datetime, date_set, time_set) = match build_datetime(text_of(&c.date), text_of(&c.time)) {
        Some((dt, ds, ts)) => (Some(dt), ds, ts),
        None => (None, false, false),
    };
    let (timezone_id, timezone_name) = match &c.timezone {
        Some(t) => (Some(t.id), Some(t.name.clone())),
        None => (None, None),
    };
    ResolvedCard {
        summary: copy_text(&c.summary),
        datetime,
        date_set,
        time_set,
        grade_one: resolve_grade_with_default(grade_ref(&c.grade_one), g1),
        grade_two: resolve_grade_with_default(grade_ref(&c.grade_two), g2),
        grade_three: resolve_grade_with_default(grade_ref(&c.grade_three), g3),
        source_ref: copy_text(&c.source_ref),
        source_type: copy_text(&c.source_type),
        description: copy_text(&c.description),
        datetime_description: copy_text(&c.datetime_description),
        timezone_id,
        timezone_name,
    }
}

/// Whether a loose card is routed to the owner: the owner has an id and the
/// card names it (as its link or its entity, as the owner is one or the other).
pub open spec fn routed_to(c: Card, owner: Option<Seq<char>>, is_link: bool) -> bool {
    match owner {
        Some(o) => (if is_link {
            ov(c.link_id)
        } else {
            ov(c.entity_id)
        }) == Some(o),
        None => false,
    }
}

/// The owner's own cards, then the loose cards routed to it, in order.
pub open spec fn owned_cards(inline: Seq<Card>, loose: Seq<Card>, owner: Option<Seq<char>>, is_link: bool) -> Seq<Card> {
    inline + loose.filter(|c: Card| routed_to(c, owner, is_link))
}

fn routed(c: &Card, owner: Option<&str>, is_link: bool) -> (r: bool)
    ensures
        r == routed_to(*c, opt_view(owner), is_link),
{
    match owner {
        Some(o) => {
            let t = if is_link {
                &c.link_id
            } else {
                &c.entity_id
            };
            match t {
                Some(x) => str_eq(x.as_str(), o),
                None => false,
            }
        },
        None => false,
    }
}

/// Resolve an owner's cards: its own, then the loose cards routed to it.
pub fn resolve_cards(
    inline: &Vec<Card>,
    loose: &Vec<Card>,
    owner: Option<&str>,
    is_link: bool,
    g1: &GradeCollection,
    g2: &GradeCollection,
    g3: &GradeCollection,
) -> (r: Vec<ResolvedCard>)
    ensures
        r@.len() == owned_cards(inline@, loose@, opt_view(owner), is_link).len(),
        forall|i: int|
            0 <= i < r@.len() ==> card_resolved(
                #[trigger] r@[i],
                owned_cards(inline@, loose@, opt_view(owner), is_link)[i],
                *g1,
                *g2,
                *g3,
            ),
{
    let ghost ow = opt_view(owner);
    let ghost f = |c: Card| routed_to(c, ow, is_link);
    let mut out: Vec<ResolvedCard> = Vec::new();
    for i in 0..inline.len()
        invariant
            out@.len() == i,
            forall|k: int| 0 <= k < i ==> card_resolved(#[trigger] out@[k], inline@[k], *g1, *g2, *g3),
    {
        out.push(resolve_card(&inline[i], g1, g2, g3));
    }
    let n = inline.len();
    for j in 0..loose.len()
        invariant
            n == inline@.len(),
            f == (|c: Card| routed_to(c, ow, is_link)),
            ow == opt_view(owner),
            out@.len() == n + loose@.take(j as int).filter(f).len(),
            forall|k: int| 0 <= k < n ==> card_resolved(#[trigger] out@[k], inline@[k], *g1, *g2, *g3),
            forall|k: int|
                n <= k < out@.len() ==> card_resolved(
                    #[trigger] out@[k],
                    loose@.take(j as int).filter(f)[k - n],
                    *g1,
                    *g2,
                    *g3,
                ),
    {
        proof {
            assert(loose@.take(j + 1) =~= loose@.take(j as int).push(loose@[j as int]));
            loose@.take(j as int).lemma_filter_push(loose@[j as int], f);
        }
        if routed(&loose[j], owner, is_link) {
            out.push(resolve_card(&loose[j], g1, g2, g3));
        }
    }
    proof {
        assert(loose@.take(loose@.len() as int) =~= loose@);
        let all = owned_cards(inline@, loose@, ow, is_link);
        assert(all =~= inline@ + loose@.filter(f));
        assert forall|i: int| 0 <= i < out@.len() implies card_resolved(#[trigger] out@[i], all[i], *g1, *g2, *g3) by {
            if i < n {
                assert(all[i] == inline@[i]);
            } else {
                assert(all[i] == loose@.filter(f)[i - n]);
            }
        }
    }
    out
}

// ── Entities ────────────────────────────────────────────────────────────────

/// Theme lines span the timeline and are not laid out.
pub open spec fn is_theme_line(e: EntityRef) -> bool {
    e is ThemeLine
}

/// The ids of the first `k` entities that take part in the layout.
pub open spec fn layout_ids(es: Seq<EntityRef>, k: int) -> Seq<Seq<char>>
    decreases k,
{
    if k <= 0 {
        seq![]
    } else if is_theme_line(es[k - 1]) {
        layout_ids(es, k - 1)
    } else {
        layout_ids(es, k - 1).push(ref_common(es[k - 1]).id@)
    }
}

/// Whether an entity is placed by the automatic layout: it takes part in the
/// layout, has no manual coordinate and no geographic position.
pub open spec fn auto_placed(e: EntityRef, geo_placed: Seq<Seq<char>>) -> bool {
    let c = ref_common(e);
    !is_theme_line(e) && c.x is None && c.y is None && !geo_placed.contains(c.id@)
}

/// The ids of the first `k` entities placed by the automatic layout.
pub open spec fn auto_ids(es: Seq<EntityRef>, geo_placed: Seq<Seq<char>>, k: int) -> Seq<Seq<char>>
    decreases k,
{
    if k <= 0 {
        seq![]
    } else if auto_placed(es[k - 1], geo_placed) {
        auto_ids(es, geo_placed, k - 1).push(ref_common(es[k - 1]).id@)
    } else {
        auto_ids(es, geo_placed, k - 1)
    }
}

pub open spec fn views(v: Seq<String>) -> Seq<Seq<char>> {
    v.map_values(|s: String| s@)
}

/// The layout's inputs: the ids of every entity that takes part in the
/// layout, and of those among them it places (given the ids that have a
/// geographic position).
pub fn layout_keys(es: &Vec<EntityRef>, geo_placed: &Vec<String>) -> (r: (Vec<String>, Vec<String>))
    ensures
        views(r.0@) == layout_ids(es@, es@.len() as int),
        views(r.1@) == auto_ids(es@, views(geo_placed@), es@.len() as int),
{
    let ghost gv = views(geo_placed@);
    let mut all: Vec<String> = Vec::new();
    let mut auto: Vec<String> = Vec::new();
    for i in 0..es.len()
        invariant
            gv == views(geo_placed@),
            views(all@) == layout_ids(es@, i as int),
            views(auto@) == auto_ids(es@, gv, i as int),
    {
        let e = &es[i];
        let c = e.common();
        let theme = match e {
            EntityRef::ThemeLine(_) => true,
            _ => false,
        };
        if !theme {
            let ghost before = views(all@);
            all.push(c.id.clone());
            assert(views(all@) =~= before.push(c.id@));
            let geo = contains_str(geo_placed, c.id.as_str());
            proof {
                if geo {
                    let k = choose|k: int| 0 <= k < geo_placed@.len() && geo_placed@[k]@ == c.id@;
                    assert(gv[k] == c.id@);
                }
                if gv.contains(c.id@) {
                    let k = choose|k: int| 0 <= k < gv.len() && gv[k] == c.id@;
                    assert(geo_placed@[k]@ == c.id@);
                }
            }
            if c.x.is_none() && c.y.is_none() && !geo {
                let ghost before = views(auto@);
                auto.push(c.id.clone());
                assert(views(auto@) =~= before.push(c.id@));
            }
        }
    }
    (all, auto)
}

/// Where an entity is placed: its manual coordinates when both are set, else
/// its geographic position, else its layout position, else the origin.
pub open spec fn placement(c: EntityCommon, geo: Option<(i64, i64)>, laid: Option<(i64, i64)>) -> (i64, i64) {
    match (c.x, c.y) {
        (Some(x), Some(y)) => (x, y),
        _ => match geo {
            Some(p) => p,
            None => match laid {
                Some(p) => p,
                None => (0, 0),
            },
        },
    }
}

pub fn entity_position(c: &EntityCommon, geo: Option<(i64, i64)>, laid: Option<(i64, i64)>) -> (r: (i64, i64))
    ensures
        r == placement(*c, geo, laid),
{
    match (c.x, c.y) {
        (Some(x), Some(y)) => (x, y),
        _ => match geo {
            Some(p) => p,
            None => match laid {
                Some(p) => p,
                None => (0, 0),
            },
        },
    }
}

/// The label an entity shows: its own, else its id.
pub open spec fn label_of(c: EntityCommon) -> Seq<char> {
    match c.label {
        Some(l) => l@,
        None => c.id@,
    }
}

pub fn entity_label(c: &EntityCommon) -> (r: String)
    ensures
        r@ == label_of(*c),
{
    match &c.label {
        Some(l) => l.clone(),
        None => c.id.clone(),
    }
}

/// Whether an entity is drawn with a shade (icons, theme lines, event frames).
pub open spec fn shaded_kind(e: EntityRef) -> bool {
    e is Icon || e is ThemeLine || e is EventFrame
}

/// The shade an entity sets itself, if any.
pub open spec fn own_shade(e: EntityRef) -> Option<u32> {
    match e {
        EntityRef::Icon(i) => color_of(i.color),
        EntityRef::ThemeLine(t) => color_of(t.shade_color),
        EntityRef::EventFrame(f) => color_of(f.shade_color),
        _ => None,
    }
}

/// An entity's automatic colors: given its `(background, foreground)` pair,
/// the shade (for shaded kinds), the label background and foreground.
pub open spec fn auto_parts(e: EntityRef, auto: Option<(u32, u32)>) -> (Option<u32>, Option<u32>, Option<u32>) {
    match auto {
        Some((bg, fg)) => (if shaded_kind(e) {
            Some(bg)
        } else {
            None
        }, Some(bg), Some(fg)),
        None => (None, None, None),
    }
}

/// The shade used to match link colors: the entity's own, else its
/// automatic shade.
pub open spec fn effective_shade(e: EntityRef, auto: Option<(u32, u32)>) -> Option<u32> {
    match own_shade(e) {
        Some(c) => Some(c),
        None => auto_parts(e, auto).0,
    }
}

/// An entity's colors: `(automatic shade, label background, label
/// foreground, effective shade)`.
pub fn entity_colors(e: &EntityRef, auto: Option<(u32, u32)>) -> (r: (Option<u32>, Option<u32>, Option<u32>, Option<u32>))
    ensures
        (r.0, r.1, r.2) == auto_parts(*e, auto),
        r.3 == effective_shade(*e, auto),
{
    let (shade, bg, fg) = match auto {
        Some((b, f)) => {
            let shaded = match e {
                EntityRef::Icon(_) | EntityRef::ThemeLine(_) | EntityRef::EventFrame(_) => true,
                _ => false,
            };
            (if shaded {
                Some(b)
            } else {
                None
            }, Some(b), Some(f))
        },
        None => (None, None, None),
    };
    let own = match e {
        EntityRef::Icon(i) => resolve_color(&i.color),
        EntityRef::ThemeLine(t) => resolve_color(&t.shade_color),
        EntityRef::EventFrame(f) => resolve_color(&f.shade_color),
        _ => None,
    };
    let eff = match own {
        Some(c) => Some(c),
        None => shade,
    };
    (shade, bg, fg, eff)
}

/// The icon an entity asks for itself, if any.
pub open spec fn own_icon(e: EntityRef) -> Option<Seq<char>> {
    match e {
        EntityRef::Icon(i) => ov(i.icon),
        EntityRef::ThemeLine(t) => ov(t.icon),
        EntityRef::EventFrame(f) => ov(f.icon),
        _ => None,
    }
}

/// The icon that overrides an entity's type icon: its own, else the one the
/// icon map chose.
pub open spec fn icon_choice(e: EntityRef, mapped: Option<Seq<char>>) -> Option<Seq<char>> {
    match own_icon(e) {
        Some(i) => Some(i),
        None => mapped,
    }
}

pub fn choose_icon(e: &EntityRef, mapped: Option<&str>) -> (r: Option<String>)
    ensures
        ov(r) == icon_choice(*e, opt_view(mapped)),
{
    let own = match e {
        EntityRef::Icon(i) => copy_text(&i.icon),
        EntityRef::ThemeLine(t) => copy_text(&t.icon),
        EntityRef::EventFrame(f) => copy_text(&f.icon),
        _ => None,
    };
    match own {
        Some(i) => Some(i),
        None => match mapped {
            Some(m) => Some(m.to_owned()),
            None => None,
        },
    }
}

/// Resolve a (possibly custom) icon name: a configured custom icon gives its
/// emitted name and is marked as used; any other name stays as it is.
pub fn resolve_custom_icon(names: &IndexMap<String, String>, used: &mut IndexSet<String>, name: &str) -> (r: String)
    ensures
        match lookup(mapping_entries(*names), name@) {
            Some(em) => r@ == em && string_set_entries(*final(used)) == set_add(string_set_entries(*old(used)), em),
            None => r@ == name@ && string_set_entries(*final(used)) == string_set_entries(*old(used)),
        },
{
    match mapping_get(names, name) {
        Some(em) => {
            let _ = string_set_insert(used, em.clone());
            em.clone()
        },
        None => name.to_owned(),
    }
}

/// An entity's number in the chart: one more than the position of the last
/// entity with its id, or 0 when no entity has it.
pub open spec fn entity_number_of(ids: Seq<Seq<char>>, id: Seq<char>) -> int {
    match last_node(ids, id) {
        Some(i) => i + 1,
        None => 0,
    }
}

/// The number of the entity with `id`, given every entity's id in order.
pub fn entity_number(ids: &Vec<String>, id: &String) -> (r: i64)
    requires
        ids@.len() < i64::MAX,
    ensures
        r == entity_number_of(views(ids@), id@),
{
    let sl = ids.as_slice();
    let found = find_last_node(sl, id);
    proof {
        assert(views(ids@) =~= sl@.map_values(|s: String| s@));
        lemma_last_node_bound(views(ids@), id@);
    }
    match found {
        Some(i) => (i as i64) + 1,
        None => 0,
    }
}

proof fn lemma_last_node_bound(ns: Seq<Seq<char>>, name: Seq<char>)
    ensures
        last_node(ns, name) matches Some(i) ==> 0 <= i < ns.len(),
    decreases ns.len(),
{
    if ns.len() > 0 && ns.last() != name {
        lemma_last_node_bound(ns.drop_last(), name);
    }
}

} // verus!
