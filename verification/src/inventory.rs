//! Items: where they are, what they weigh, and who can carry them.
//!
//! Weights and values are in thousandths of a pound and of a gold piece.

use vstd::prelude::*;
use crate::campaign::{
    find, index_of, lemma_character, lemma_index, lemma_item, lemma_push, lemma_row, lemma_tables,
    lemma_update, listed, next_id, ordered, put, row, top, Campaign, World,
};
use crate::conditions::{condition_over, end_condition, find_newest, is_under, lemma_newest, newest};
use crate::content::{Content, MAX_UNIT};
use crate::error::Error;
use crate::events::{
    entry, entry_view, field, field_view, fields1, fields2, fields3, fields4, fields5, fields8, int_field,
    nobody, one, only, opt_int, opt_int32, opt_int32_field, opt_int_field, opt_str, opt_text_field,
    text_field,
};
use crate::rows::{
    views, Character, Condition, Event, EventItem, EventRole, EventView, Item, Place, Value, ValueView,
};
use crate::text::{copy_opt, debug_text, decimal, int_text, opt_text, quoted, Thousandths};
use crate::world::{campaign_hour, current_campaign_hour};

verus! {

#[derive(Debug, Clone, PartialEq, Eq)]
pub struct CreateParams {
    pub base_kind: String,
    pub name: Option<String>,
    pub material: Option<String>,
    pub material_tier: Option<i32>,
    pub quality: Option<String>,
    pub quantity: Option<i64>,
    pub holder_character_id: Option<i64>,
    pub zone_location_id: Option<i64>,
    pub container_item_id: Option<i64>,
}

#[derive(Debug, Clone, Copy, PartialEq, Eq)]
pub struct CreateResult {
    pub item_id: i64,
    pub event_id: i64,
}

#[derive(Debug, Clone, PartialEq, Eq)]
pub struct PickupParams {
    pub character_id: i64,
    pub item_id: i64,
}

#[derive(Debug, Clone, Copy, PartialEq, Eq)]
pub struct PickupResult {
    pub item_id: i64,
    pub character_id: i64,
    pub carried_weight_lb: Thousandths,
    pub capacity_lb: Thousandths,
    pub percent_of_capacity: i32,
    pub encumbered: bool,
    pub encumbered_condition_id: Option<i64>,
    pub event_id: i64,
}

/// That the character would carry too much.
#[derive(Debug, Clone, Copy, PartialEq, Eq)]
pub struct PickupRefused {
    pub error: &'static str,
    pub character_id: i64,
    pub item_id: i64,
    pub would_be_weight_lb: Thousandths,
    pub capacity_lb: Thousandths,
}

#[derive(Debug, Clone, PartialEq, Eq)]
pub struct DropParams {
    pub character_id: i64,
    pub item_id: i64,
}

#[derive(Debug, Clone, Copy, PartialEq, Eq)]
pub struct DropResult {
    pub item_id: i64,
    pub zone_id: i64,
    pub carried_weight_lb: Thousandths,
    pub capacity_lb: Thousandths,
    pub percent_of_capacity: i32,
    pub encumbered: bool,
    pub event_id: i64,
}

#[derive(Debug, Clone, PartialEq, Eq)]
pub struct EquipParams {
    pub character_id: i64,
    pub item_id: i64,
    pub slot: String,
}

#[derive(Debug, Clone, PartialEq, Eq)]
pub struct UnequipParams {
    pub character_id: i64,
    pub item_id: i64,
}

#[derive(Debug, Clone, PartialEq, Eq)]
pub struct EquipResult {
    pub item_id: i64,
    pub slot: Option<String>,
    pub event_id: i64,
}

#[derive(Debug, Clone, PartialEq, Eq)]
pub struct GetParams {
    pub character_id: i64,
}

#[derive(Debug, Clone, PartialEq, Eq)]
pub struct InventoryView {
    pub character_id: i64,
    pub items: Vec<ItemView>,
    pub carried_weight_lb: Thousandths,
    pub capacity_lb: Thousandths,
    pub percent_of_capacity: i32,
    pub encumbered: bool,
}

#[derive(Debug, Clone, PartialEq, Eq)]
pub struct ItemView<S = String> {
    pub id: i64,
    pub base_kind: S,
    pub name: Option<S>,
    pub material: Option<S>,
    pub material_tier: Option<i32>,
    pub quality: Option<S>,
    pub quantity: i64,
    pub equipped_slot: Option<S>,
    pub effective_weight_lb: Thousandths,
    pub effective_value_gp: Thousandths,
}

impl View for ItemView {
    type V = ItemView<Seq<char>>;

    open spec fn view(&self) -> ItemView<Seq<char>> {
        ItemView {
            id: self.id,
            base_kind: self.base_kind@,
            name: opt_text(self.name),
            material: opt_text(self.material),
            material_tier: self.material_tier,
            quality: opt_text(self.quality),
            quantity: self.quantity,
            equipped_slot: opt_text(self.equipped_slot),
            effective_weight_lb: self.effective_weight_lb,
            effective_value_gp: self.effective_value_gp,
        }
    }
}

#[derive(Debug, Clone, PartialEq, Eq)]
pub struct InspectParams {
    pub item_id: i64,
}

#[derive(Debug, Clone, PartialEq, Eq)]
pub struct TransferParams {
    pub item_id: i64,
    pub to_character_id: Option<i64>,
    pub to_container_item_id: Option<i64>,
    pub to_zone_location_id: Option<i64>,
}

#[derive(Debug, Clone, Copy, PartialEq, Eq)]
pub struct TransferResult {
    pub item_id: i64,
    pub event_id: i64,
}

// ── Weights ──

/// What one item of this kind weighs; nothing where the kind is unknown.
pub open spec fn unit_weight(content: Content, kind: Seq<char>) -> int {
    match content.base(kind) {
        Some(k) => content.item_bases@[k].weight_lb as int,
        None => 0,
    }
}

/// What one item of this kind is worth; nothing where the kind is unknown.
pub open spec fn unit_value(content: Content, kind: Seq<char>) -> int {
    match content.base(kind) {
        Some(k) => content.item_bases@[k].base_value_gp as int,
        None => 0,
    }
}

/// What the item, or the stack, weighs.
pub open spec fn item_weight(content: Content, item: Item<Seq<char>>) -> int {
    unit_weight(content, item.base_kind) * item.quantity
}

/// What the item, or the stack, is worth.
pub open spec fn item_value(content: Content, item: Item<Seq<char>>) -> int {
    unit_value(content, item.base_kind) * item.quantity
}

/// What a character carries: the items it holds itself.
pub open spec fn carried(content: Content, items: Seq<Item<Seq<char>>>, id: i64) -> int
    decreases items.len(),
{
    if items.len() == 0 {
        0
    } else {
        carried(content, items.drop_last(), id) + (if items.last().place == Place::Holder(id) {
            item_weight(content, items.last())
        } else {
            0
        })
    }
}

/// What a character can carry.
pub open spec fn capacity(content: Content, ch: Character<Seq<char>>) -> int {
    ch.str_score * content.encumbrance.capacity_per_str * 1000
}

/// The number, or the nearest `i32`.
pub open spec fn nearest_i32(n: int) -> i32 {
    if n > i32::MAX {
        i32::MAX
    } else if n < i32::MIN {
        i32::MIN
    } else {
        n as i32
    }
}

/// The weight in percent of the capacity, rounded down; 100 where there is no capacity.
pub open spec fn percent(weight: int, cap: int) -> i32 {
    if cap <= 0 {
        100
    } else {
        nearest_i32(weight * 100 / cap)
    }
}

/// Whether the weight is more than the character can carry at all.
pub open spec fn overloads(content: Content, weight: int, cap: int) -> bool {
    weight * 100 > cap * content.encumbrance.overloaded_threshold_pct
}

/// Whole pounds, as far as an `i64` holds them.
pub open spec fn whole_pounds(t: int) -> int {
    let n = if t >= 0 {
        t / 1000
    } else {
        -((-t) / 1000)
    };
    if n > i64::MAX {
        i64::MAX as int
    } else if n < i64::MIN {
        i64::MIN as int
    } else {
        n
    }
}

fn weigh_kind(content: &Content, kind: &str) -> (r: i64)
    requires
        content.measures_ok(),
    ensures
        r == unit_weight(*content, kind@),
        -MAX_UNIT <= r <= MAX_UNIT,
{
    match content.find_base(kind) {
        Some(k) => content.item_bases[k].weight_lb,
        None => 0,
    }
}

fn value_kind(content: &Content, kind: &str) -> (r: i64)
    requires
        content.measures_ok(),
    ensures
        r == unit_value(*content, kind@),
        -MAX_UNIT <= r <= MAX_UNIT,
{
    match content.find_base(kind) {
        Some(k) => content.item_bases[k].base_value_gp,
        None => 0,
    }
}

proof fn lemma_product(a: int, b: int)
    requires
        -MAX_UNIT <= a <= MAX_UNIT,
        1 <= b <= i64::MAX,
    ensures
        -0x8000_0000_0000_0000_0000_0000 <= a * b <= 0x8000_0000_0000_0000_0000_0000,
{
    assert(-(MAX_UNIT * i64::MAX) <= a * b <= MAX_UNIT * i64::MAX) by (nonlinear_arith)
        requires
            -MAX_UNIT <= a <= MAX_UNIT,
            1 <= b <= i64::MAX,
    ;
}

/// What the item, or the stack, weighs.
pub(crate) fn effective_weight_for_item(item: &Item, content: &Content) -> (r: Thousandths)
    requires
        content.measures_ok(),
        item.quantity >= 1,
    ensures
        r == item_weight(*content, item@),
        -0x8000_0000_0000_0000_0000_0000 <= r <= 0x8000_0000_0000_0000_0000_0000,
{
    let unit: i64 = weigh_kind(content, item.base_kind.as_str());
    proof {
        lemma_product(unit as int, item.quantity as int);
    }
    unit as i128 * item.quantity as i128
}

/// What the item, or the stack, is worth.
pub(crate) fn effective_value_for_item(item: &Item, content: &Content) -> (r: Thousandths)
    requires
        content.measures_ok(),
        item.quantity >= 1,
    ensures
        r == item_value(*content, item@),
        -0x8000_0000_0000_0000_0000_0000 <= r <= 0x8000_0000_0000_0000_0000_0000,
{
    let unit: i64 = value_kind(content, item.base_kind.as_str());
    proof {
        lemma_product(unit as int, item.quantity as int);
    }
    unit as i128 * item.quantity as i128
}

/// The most that a character can be found to carry.
pub const MAX_CARRIED: i128 = 0x4000_0000_0000_0000_0000_0000_0000_0000;

/// What a character carries.
pub(crate) fn carried_weight_lb(c: &Campaign, content: &Content, id: i64) -> (r: Thousandths)
    requires
        c@.wf(),
        c@.items.len() < i32::MAX,
        content.measures_ok(),
    ensures
        r == carried(*content, c@.items, id),
        -MAX_CARRIED < r < MAX_CARRIED,
{
    let mut total: i128 = 0;
    let mut i: usize = 0;
    while i < c.items.len()
        invariant
            c@.wf(),
            c.items.len() < i32::MAX,
            content.measures_ok(),
            i <= c.items.len(),
            total == carried(*content, c@.items.take(i as int), id),
            -(0x8000_0000_0000_0000_0000_0000 * i) <= total <= 0x8000_0000_0000_0000_0000_0000 * i,
        decreases c.items.len() - i,
    {
        let it = &c.items[i];
        proof {
            assert(c@.items[i as int] == it@);
            assert(c@.items.take(i + 1).drop_last() =~= c@.items.take(i as int));
            assert(it.quantity >= 1) by {
                reveal(World::wf);
                assert(c@.item_ok(c@.items[i as int]));
            }
        }
        if it.place == Place::Holder(id) {
            total = total + effective_weight_for_item(it, content);
        }
        i = i + 1;
    }
    assert(c@.items.take(i as int) =~= c@.items);
    total
}

fn capacity_of(content: &Content, ch: &Character) -> (r: Thousandths)
    ensures
        r == capacity(*content, ch@),
        -4_611_686_018_427_387_904_000 <= r <= 4_611_686_018_427_387_904_000,
{
    let a: i128 = ch.str_score as i128;
    let b: i128 = content.encumbrance.capacity_per_str as i128;
    assert(-0x4000_0000_0000_0000 <= a * b <= 0x4000_0000_0000_0000) by (nonlinear_arith)
        requires
            -0x8000_0000 <= a <= 0x7fff_ffff,
            -0x8000_0000 <= b <= 0x7fff_ffff,
    ;
    a * b * 1000
}

/// A hundred times the weight, divided by the capacity: what whole times the capacity gives,
/// and what is left over.
proof fn lemma_percent(weight: int, cap: int, q: int, m: int)
    requires
        cap > 0,
        weight == cap * q + m,
    ensures
        weight * 100 / cap == q * 100 + m * 100 / cap,
{
    assert(weight * 100 == (q * 100) * cap + m * 100) by (nonlinear_arith)
        requires
            weight == cap * q + m,
    ;
    vstd::arithmetic::div_mod::lemma_hoist_over_denominator(m * 100, q * 100, cap as nat);
}

/// The weight in percent of the capacity, rounded down; 100 where there is no capacity.
fn pct_of_capacity(weight: Thousandths, cap: Thousandths) -> (r: i32)
    requires
        -0x7000_0000_0000_0000_0000_0000_0000_0000 < weight,
        cap < 0x1_0000_0000_0000_0000_0000,
    ensures
        r == percent(weight as int, cap as int),
{
    if cap <= 0 {
        return 100;
    }
    // The quotient and the remainder that is not negative.
    let q: i128 = if weight >= 0 {
        weight / cap
    } else {
        -((-weight - 1) / cap) - 1
    };
    proof {
        if weight >= 0 {
            vstd::arithmetic::div_mod::lemma_fundamental_div_mod(weight as int, cap as int);
            vstd::arithmetic::div_mod::lemma_div_pos_is_pos(weight as int, cap as int);
        } else {
            let x = -weight - 1;
            let y = x / (cap as int);
            vstd::arithmetic::div_mod::lemma_fundamental_div_mod(x, cap as int);
            vstd::arithmetic::div_mod::lemma_div_pos_is_pos(x, cap as int);
            vstd::arithmetic::div_mod::lemma_div_is_ordered_by_denominator(x, 1, cap as int);
            assert(cap * (-y - 1) == -(cap * y) - cap) by (nonlinear_arith);
        }
        assert(0 <= weight - cap * q < cap);
    }
    let m: i128 = weight - cap * q;
    proof {
        lemma_percent(weight as int, cap as int, q as int, m as int);
        assert(0 <= m * 100 / (cap as int) < 100) by (nonlinear_arith)
            requires
                0 <= m < cap,
        ;
    }
    if q >= 0x7fff_ffff {
        return 0x7fff_ffff;
    }
    if q < -0x8000_0000 {
        return -0x8000_0000;
    }
    let n: i128 = q * 100 + m * 100 / cap;
    if n > 0x7fff_ffff {
        0x7fff_ffff
    } else if n < -0x8000_0000 {
        -0x8000_0000
    } else {
        n as i32
    }
}

fn is_overload(content: &Content, weight: Thousandths, cap: Thousandths) -> (r: bool)
    requires
        -0x1_0000_0000_0000_0000_0000 < cap < 0x1_0000_0000_0000_0000_0000,
    ensures
        r == overloads(*content, weight as int, cap as int),
{
    let pct: i128 = content.encumbrance.overloaded_threshold_pct as i128;
    assert(-0x1_0000_0000_0000_0000_0000_0000_0000 < cap * pct < 0x1_0000_0000_0000_0000_0000_0000_0000)
        by (nonlinear_arith)
        requires
            -0x1_0000_0000_0000_0000_0000 < cap < 0x1_0000_0000_0000_0000_0000,
            -0x8000_0000 <= pct <= 0x7fff_ffff,
    ;
    if weight >= 0x1_0000_0000_0000_0000_0000_0000_0000 {
        true
    } else if weight <= -0x1_0000_0000_0000_0000_0000_0000_0000 {
        false
    } else {
        weight * 100 > cap * pct
    }
}

fn to_pounds(t: Thousandths) -> (r: i64)
    requires
        t > i128::MIN,
    ensures
        r == whole_pounds(t as int),
{
    let n: i128 = if t >= 0 {
        t / 1000
    } else {
        -((-t) / 1000)
    };
    if n > 0x7fff_ffff_ffff_ffff {
        0x7fff_ffff_ffff_ffff
    } else if n < -0x8000_0000_0000_0000 {
        -0x8000_0000_0000_0000
    } else {
        n as i64
    }
}

// ── Being encumbered ──

/// Whether the load, in percent, encumbers: both ends of the band count.
pub open spec fn in_band(content: Content, pct: i32) -> bool {
    content.encumbrance.encumbered_threshold_pct <= pct <= content.encumbrance.overloaded_threshold_pct
}

pub open spec fn burdened_entry(id: i64, pct: i32, now: i64) -> EventView {
    entry_view(
        "condition.applied"@,
        now,
        "Character id="@ + int_text(id as int) + " became encumbered ("@ + int_text(pct as int)
            + "% of capacity)"@,
        seq![
            field_view("condition"@, ValueView::Text("encumbered"@)),
            field_view("severity"@, ValueView::Int(1)),
            field_view("percent_of_capacity"@, ValueView::Int(pct as int)),
        ],
        one(id, EventRole::Target),
    )
}

pub open spec fn unburdened_entry(id: i64, condition_id: i64, pct: i32, now: i64) -> EventView {
    entry_view(
        "condition.expired"@,
        now,
        "Character id="@ + int_text(id as int) + " no longer encumbered ("@ + int_text(pct as int)
            + "% of capacity)"@,
        seq![
            field_view("condition_id"@, ValueView::Int(condition_id as int)),
            field_view("condition"@, ValueView::Text("encumbered"@)),
            field_view("reason"@, ValueView::Text("weight_dropped_below_threshold"@)),
            field_view("percent_of_capacity"@, ValueView::Int(pct as int)),
        ],
        one(id, EventRole::Target),
    )
}

/// The campaign in which the character is encumbered just where its load is in the band.
pub open spec fn weighed(w: World, content: Content, id: i64, pct: i32, now: i64) -> World {
    match newest(w, id, "encumbered"@) {
        Some(k) => if in_band(content, pct) {
            w
        } else {
            condition_over(w, k).with_event(unburdened_entry(id, w.conditions[k].id, pct, now))
        },
        None => if in_band(content, pct) {
            let logged = w.with_event(burdened_entry(id, pct, now));
            World {
                conditions: logged.conditions.push(
                    Condition {
                        id: next_id(w.conditions),
                        character_id: id,
                        condition: "encumbered"@,
                        severity: 1,
                        source_event_id: Some(next_id(w.events)),
                        expires_at_hour: None,
                        expires_after_rounds: None,
                        remove_on_save: None,
                        active: true,
                    },
                ),
                ..logged
            }
        } else {
            w
        },
    }
}

/// The condition that is recorded, where one is.
pub open spec fn new_burden(w: World, content: Content, id: i64, pct: i32) -> Option<i64> {
    if newest(w, id, "encumbered"@) is None && in_band(content, pct) {
        Some(next_id(w.conditions))
    } else {
        None
    }
}

fn apply_encumbered(c: &mut Campaign, content: &Content, id: i64, pct: i32, now: i64) -> (r: (
    bool,
    Option<i64>,
))
    requires
        old(c)@.wf(),
        listed(old(c)@.characters, id),
        top(old(c)@.events) < i64::MAX,
        top(old(c)@.conditions) < i64::MAX,
    ensures
        final(c)@.wf(),
        final(c)@ == weighed(old(c)@, *content, id, pct, now),
        r.0 == in_band(*content, pct),
        r.1 == new_burden(old(c)@, *content, id, pct),
        top(final(c)@.events) <= top(old(c)@.events) + 1,
        top(final(c)@.conditions) <= top(old(c)@.conditions) + 1,
        final(c)@ == (World { conditions: final(c)@.conditions, events: final(c)@.events, ..old(c)@ }),
{
    let ghost w = c@;
    let heavy = content.encumbrance.encumbered_threshold_pct <= pct && pct
        <= content.encumbrance.overloaded_threshold_pct;
    match find_newest(c, id, "encumbered") {
        Some(k) => {
            if !heavy {
                let condition_id: i64 = c.conditions[k].id;
                end_condition(c, k);
                proof {
                    lemma_tables(w);
                    lemma_update(
                        w.conditions,
                        k as int,
                        Condition { active: false, ..w.conditions[k as int] },
                    );
                }
                let mut s = "Character id=".to_owned();
                s.append(decimal(id).as_str());
                s.append(" no longer encumbered (");
                s.append(decimal(pct as i64).as_str());
                s.append("% of capacity)");
                let e = entry(
                    "condition.expired",
                    now,
                    s,
                    fields4(
                        int_field("condition_id", condition_id),
                        text_field("condition", "encumbered"),
                        text_field("reason", "weight_dropped_below_threshold"),
                        int_field("percent_of_capacity", pct as i64),
                    ),
                    only(id, EventRole::Target),
                );
                assert(e@ == unburdened_entry(id, condition_id, pct, now));
                let _ = c.add_event(e);
            }
            (heavy, None)
        },
        None => {
            if heavy {
                let mut s = "Character id=".to_owned();
                s.append(decimal(id).as_str());
                s.append(" became encumbered (");
                s.append(decimal(pct as i64).as_str());
                s.append("% of capacity)");
                let e = entry(
                    "condition.applied",
                    now,
                    s,
                    fields3(
                        text_field("condition", "encumbered"),
                        int_field("severity", 1),
                        int_field("percent_of_capacity", pct as i64),
                    ),
                    only(id, EventRole::Target),
                );
                assert(e@ == burdened_entry(id, pct, now));
                let source: i64 = c.add_event(e);
                let condition_id: i64 = c.add_condition(
                    Condition {
                        id: 0,
                        character_id: id,
                        condition: "encumbered".to_owned(),
                        severity: 1,
                        source_event_id: Some(source),
                        expires_at_hour: None,
                        expires_after_rounds: None,
                        remove_on_save: None,
                        active: true,
                    },
                );
                (heavy, Some(condition_id))
            } else {
                (heavy, None)
            }
        },
    }
}

/// A single item that an event is about.
pub open spec fn item_ref(id: i64, role: Seq<char>) -> Seq<EventItem<Seq<char>>> {
    seq![EventItem { item_id: id, role }]
}

/// A single item that an event is about.
pub(crate) fn refer(id: i64, role: &str) -> (r: Vec<EventItem>)
    ensures
        views(r@) == item_ref(id, role@),
{
    let mut v: Vec<EventItem> = Vec::new();
    v.push(EventItem { item_id: id, role: role.to_owned() });
    assert(views(v@) =~= item_ref(id, role@));
    v
}

// ── item.created ──

/// How many of the three places are given.
pub open spec fn place_count(holder: Option<i64>, zone: Option<i64>, container: Option<i64>) -> int {
    (if holder is Some {
        1int
    } else {
        0
    }) + (if zone is Some {
        1int
    } else {
        0
    }) + (if container is Some {
        1int
    } else {
        0
    })
}

/// The one place that is given.
pub open spec fn place_of(holder: Option<i64>, zone: Option<i64>, container: Option<i64>) -> Place {
    match holder {
        Some(c) => Place::Holder(c),
        None => match zone {
            Some(z) => Place::Zone(z),
            None => Place::Container(container->0),
        },
    }
}

fn count_places(holder: Option<i64>, zone: Option<i64>, container: Option<i64>) -> (r: i64)
    ensures
        r == place_count(holder, zone, container),
{
    let mut n: i64 = 0;
    if holder.is_some() {
        n = n + 1;
    }
    if zone.is_some() {
        n = n + 1;
    }
    if container.is_some() {
        n = n + 1;
    }
    n
}

fn pick_place(holder: Option<i64>, zone: Option<i64>, container: Option<i64>) -> (r: Place)
    requires
        place_count(holder, zone, container) == 1,
    ensures
        r == place_of(holder, zone, container),
{
    match holder {
        Some(c) => Place::Holder(c),
        None => match zone {
            Some(z) => Place::Zone(z),
            None => match container {
                Some(i) => Place::Container(i),
                None => Place::Container(0),
            },
        },
    }
}

/// How many of the item are made.
pub open spec fn made(p: CreateParams) -> i64 {
    match p.quantity {
        Some(n) => n,
        None => 1,
    }
}

pub open spec fn create_refusal(w: World, content: Content, p: CreateParams) -> Option<Error<Seq<char>>> {
    let count = place_count(p.holder_character_id, p.zone_location_id, p.container_item_id);
    match content.base(p.base_kind@) {
        None => Some(Error::UnknownBaseKind { kind: p.base_kind@ }),
        Some(k) => if count != 1 {
            Some(Error::LocationCount { count: count as i64 })
        } else if made(p) < 1 {
            Some(Error::QuantityLow { quantity: made(p) })
        } else if made(p) > 1 && !content.item_bases@[k].stackable {
            Some(Error::NotStackable { kind: p.base_kind@ })
        } else {
            match place_of(p.holder_character_id, p.zone_location_id, p.container_item_id) {
                Place::Holder(c) => if listed(w.characters, c) {
                    None
                } else {
                    Some(Error::ItemRow)
                },
                Place::Container(i) => if listed(w.items, i) {
                    None
                } else {
                    Some(Error::ItemRow)
                },
                Place::Zone(z) => if listed(w.zones, z) {
                    None
                } else {
                    Some(Error::EventRow)
                },
            }
        },
    }
}

/// The item that is made.
pub open spec fn made_item(w: World, p: CreateParams) -> Item<Seq<char>> {
    Item {
        id: next_id(w.items),
        base_kind: p.base_kind@,
        name: opt_text(p.name),
        material: opt_text(p.material),
        material_tier: p.material_tier,
        quality: opt_text(p.quality),
        quantity: made(p),
        place: place_of(p.holder_character_id, p.zone_location_id, p.container_item_id),
        equipped_slot: None,
        created_at_event_id: None,
        updated_at: campaign_hour(w),
    }
}

pub open spec fn made_entry(w: World, p: CreateParams) -> EventView {
    let id = next_id(w.items);
    EventView {
        zone_id: p.zone_location_id,
        items: item_ref(id, "created"@),
        ..entry_view(
            "item.created"@,
            campaign_hour(w),
            "Item "@ + debug_text(
                match p.name {
                    Some(t) => t@,
                    None => p.base_kind@,
                },
            ) + " created (id="@ + int_text(id as int) + ", qty="@ + int_text(made(p) as int)
                + ", base_kind="@ + debug_text(p.base_kind@) + ")"@,
            seq![
                field_view("base_kind"@, ValueView::Text(p.base_kind@)),
                field_view("material"@, opt_str(opt_text(p.material))),
                field_view("material_tier"@, opt_int32(p.material_tier)),
                field_view("quality"@, opt_str(opt_text(p.quality))),
                field_view("quantity"@, ValueView::Int(made(p) as int)),
                field_view("holder_character_id"@, opt_int(p.holder_character_id)),
                field_view("zone_location_id"@, opt_int(p.zone_location_id)),
                field_view("container_item_id"@, opt_int(p.container_item_id)),
            ],
            match p.holder_character_id {
                Some(c) => one(c, EventRole::Actor),
                None => Seq::empty(),
            },
        )
    }
}

/// The campaign with the item made.
pub open spec fn item_made(w: World, p: CreateParams) -> World {
    World { items: w.items.push(made_item(w, p)), ..w }.with_event(made_entry(w, p))
}

/// Makes an item in exactly one place and writes `item.created`.
pub fn create(c: &mut Campaign, content: &Content, p: CreateParams) -> (r: Result<CreateResult, Error>)
    requires
        old(c)@.wf(),
        old(c)@.room(),
    ensures
        final(c)@.wf(),
        create_refusal(old(c)@, *content, p) matches Some(e) ==> r is Err && r->Err_0@ == e && final(c)@
            == old(c)@,
        create_refusal(old(c)@, *content, p) is None ==> {
            &&& r is Ok
            &&& r->Ok_0.item_id == next_id(old(c)@.items)
            &&& r->Ok_0.event_id == next_id(old(c)@.events)
            &&& final(c)@ == item_made(old(c)@, p)
        },
{
    let ghost w = c@;
    let k: usize = match content.find_base(p.base_kind.as_str()) {
        Some(k) => k,
        None => {
            return Err(Error::UnknownBaseKind { kind: p.base_kind });
        },
    };
    let count: i64 = count_places(p.holder_character_id, p.zone_location_id, p.container_item_id);
    if count != 1 {
        return Err(Error::LocationCount { count });
    }
    let quantity: i64 = match p.quantity {
        Some(n) => n,
        None => 1,
    };
    if quantity < 1 {
        return Err(Error::QuantityLow { quantity });
    }
    if quantity > 1 && !content.item_bases[k].stackable {
        return Err(Error::NotStackable { kind: p.base_kind });
    }
    let place = pick_place(p.holder_character_id, p.zone_location_id, p.container_item_id);
    proof {
        lemma_tables(w);
    }
    match place {
        Place::Holder(x) => {
            if find(&c.characters, x).is_none() {
                return Err(Error::ItemRow);
            }
        },
        Place::Container(x) => {
            if find(&c.items, x).is_none() {
                return Err(Error::ItemRow);
            }
        },
        Place::Zone(x) => {
            if find(&c.zones, x).is_none() {
                return Err(Error::EventRow);
            }
        },
    }
    let now: i64 = current_campaign_hour(c);
    let it = Item {
        id: 0,
        base_kind: p.base_kind.clone(),
        name: copy_opt(&p.name),
        material: copy_opt(&p.material),
        material_tier: p.material_tier,
        quality: copy_opt(&p.quality),
        quantity,
        place,
        equipped_slot: None,
        created_at_event_id: None,
        updated_at: now,
    };
    assert(Item { id: next_id(w.items), ..it@ } == made_item(w, p));
    let item_id: i64 = c.add_item(it);
    let shown = match &p.name {
        Some(t) => t.clone(),
        None => p.base_kind.clone(),
    };
    let mut s = "Item ".to_owned();
    s.append(quoted(shown.as_str()).as_str());
    s.append(" created (id=");
    s.append(decimal(item_id).as_str());
    s.append(", qty=");
    s.append(decimal(quantity).as_str());
    s.append(", base_kind=");
    s.append(quoted(p.base_kind.as_str()).as_str());
    s.append(")");
    let who = match p.holder_character_id {
        Some(x) => only(x, EventRole::Actor),
        None => nobody(),
    };
    let base = entry(
        "item.created",
        now,
        s,
        fields8(
            text_field("base_kind", p.base_kind.as_str()),
            opt_text_field("material", &p.material),
            opt_int32_field("material_tier", p.material_tier),
            opt_text_field("quality", &p.quality),
            int_field("quantity", quantity),
            opt_int_field("holder_character_id", p.holder_character_id),
            opt_int_field("zone_location_id", p.zone_location_id),
            opt_int_field("container_item_id", p.container_item_id),
        ),
        who,
    );
    let e = Event { zone_id: p.zone_location_id, items: refer(item_id, "created"), ..base };
    assert(e@ == made_entry(w, p));
    let event_id: i64 = c.add_event(e);
    assert(c@ == item_made(w, p));
    Ok(CreateResult { item_id, event_id })
}

// ── item.pickup ──

/// Who holds the item.
pub open spec fn holder_of(place: Place) -> Option<i64> {
    match place {
        Place::Holder(c) => Some(c),
        _ => None,
    }
}

/// What the item is in.
pub open spec fn container_of(place: Place) -> Option<i64> {
    match place {
        Place::Container(i) => Some(i),
        _ => None,
    }
}

/// Where the item lies.
pub open spec fn zone_of(place: Place) -> Option<i64> {
    match place {
        Place::Zone(z) => Some(z),
        _ => None,
    }
}

pub(crate) fn holder(place: Place) -> (r: Option<i64>)
    ensures
        r == holder_of(place),
{
    match place {
        Place::Holder(c) => Some(c),
        _ => None,
    }
}

fn container(place: Place) -> (r: Option<i64>)
    ensures
        r == container_of(place),
{
    match place {
        Place::Container(i) => Some(i),
        _ => None,
    }
}

pub open spec fn pickup_refusal(w: World, p: PickupParams) -> Option<Error<Seq<char>>> {
    if !listed(w.items, p.item_id) {
        Some(Error::ItemNotFound { id: p.item_id })
    } else {
        let place = row(w.items, p.item_id).place;
        match zone_of(place) {
            None => Some(
                Error::ItemNotInZone {
                    id: p.item_id,
                    holder: holder_of(place),
                    container: container_of(place),
                },
            ),
            Some(z) => if !listed(w.characters, p.character_id) {
                Some(Error::CharacterNotFound { id: p.character_id })
            } else if row(w.characters, p.character_id).current_zone_id != Some(z) {
                Some(
                    Error::WrongZone {
                        item: p.item_id,
                        zone: z,
                        character: p.character_id,
                        current: row(w.characters, p.character_id).current_zone_id,
                    },
                )
            } else {
                None
            },
        }
    }
}

/// What the character would carry with the item.
pub open spec fn would_carry(w: World, content: Content, p: PickupParams) -> int {
    carried(content, w.items, p.character_id) + item_weight(content, row(w.items, p.item_id))
}

pub open spec fn pickup_entry(w: World, content: Content, p: PickupParams) -> EventView {
    let it = row(w.items, p.item_id);
    let cap = capacity(content, row(w.characters, p.character_id));
    let load = would_carry(w, content, p);
    EventView {
        zone_id: zone_of(it.place),
        items: item_ref(p.item_id, "picked_up"@),
        ..entry_view(
            "item.pickup"@,
            campaign_hour(w),
            "Character id="@ + int_text(p.character_id as int) + " picked up item id="@ + int_text(
                p.item_id as int,
            ) + " ("@ + int_text(whole_pounds(load)) + " lb carried of "@ + int_text(whole_pounds(cap))
                + " capacity)"@,
            seq![
                field_view("item_id"@, ValueView::Int(p.item_id as int)),
                field_view("base_kind"@, ValueView::Text(it.base_kind)),
                field_view("quantity"@, ValueView::Int(it.quantity as int)),
                field_view("weight_lb"@, ValueView::Thousandths(item_weight(content, it))),
                field_view(
                    "carried_before"@,
                    ValueView::Thousandths(carried(content, w.items, p.character_id)),
                ),
                field_view("carried_after"@, ValueView::Thousandths(load)),
                field_view("capacity_lb"@, ValueView::Thousandths(cap)),
                field_view("percent_of_capacity"@, ValueView::Int(percent(load, cap) as int)),
            ],
            one(p.character_id, EventRole::Actor),
        )
    }
}

/// The campaign in which the character holds the item and the log says so.
pub open spec fn taken(w: World, content: Content, p: PickupParams) -> World {
    World {
        items: put(
            w.items,
            Item {
                place: Place::Holder(p.character_id),
                updated_at: campaign_hour(w),
                ..row(w.items, p.item_id)
            },
        ),
        ..w
    }.with_event(pickup_entry(w, content, p))
}

/// The campaign after the item was picked up.
pub open spec fn picked_up(w: World, content: Content, p: PickupParams) -> World {
    weighed(
        taken(w, content, p),
        content,
        p.character_id,
        percent(would_carry(w, content, p), capacity(content, row(w.characters, p.character_id))),
        campaign_hour(w),
    )
}

/// What picking up an item does to the campaign and returns: nothing where the character
/// would carry too much, else the item changes hands.
pub open spec fn pickup_ok(
    w: World,
    content: Content,
    p: PickupParams,
    after: World,
    r: Result<PickupResult, PickupRefused>,
) -> bool {
    let cap = capacity(content, row(w.characters, p.character_id));
    let load = would_carry(w, content, p);
    let pct = percent(load, cap);
    if overloads(content, load, cap) {
        &&& r is Err
        &&& r->Err_0.error@ == "would_overload"@
        &&& r->Err_0.character_id == p.character_id
        &&& r->Err_0.item_id == p.item_id
        &&& r->Err_0.would_be_weight_lb == load
        &&& r->Err_0.capacity_lb == cap
        &&& after == w
    } else {
        &&& r is Ok
        &&& r->Ok_0.item_id == p.item_id
        &&& r->Ok_0.character_id == p.character_id
        &&& r->Ok_0.carried_weight_lb == load
        &&& r->Ok_0.capacity_lb == cap
        &&& r->Ok_0.percent_of_capacity == pct
        &&& r->Ok_0.encumbered == in_band(content, pct)
        &&& r->Ok_0.encumbered_condition_id == new_burden(
            taken(w, content, p),
            content,
            p.character_id,
            pct,
        )
        &&& r->Ok_0.event_id == next_id(w.events)
        &&& after == picked_up(w, content, p)
    }
}

/// Picks up an item that lies in the character's zone, unless that would overload it.
pub fn pickup(c: &mut Campaign, content: &Content, p: PickupParams) -> (r: Result<
    Result<PickupResult, PickupRefused>,
    Error,
>)
    requires
        old(c)@.wf(),
        old(c)@.room(),
        content.measures_ok(),
    ensures
        final(c)@.wf(),
        pickup_refusal(old(c)@, p) matches Some(e) ==> r is Err && r->Err_0@ == e && final(c)@ == old(
            c,
        )@,
        pickup_refusal(old(c)@, p) is None ==> r is Ok && pickup_ok(
            old(c)@,
            *content,
            p,
            final(c)@,
            r->Ok_0,
        ),
{
    let ghost w = c@;
    proof {
        lemma_tables(w);
    }
    let i: usize = match find(&c.items, p.item_id) {
        Some(i) => i,
        None => {
            return Err(Error::ItemNotFound { id: p.item_id });
        },
    };
    proof {
        lemma_item(w, p.item_id);
    }
    let mut it = c.items[i].copy();
    let ghost it0 = it@;
    let zone: i64 = match it.place {
        Place::Zone(z) => z,
        _ => {
            return Err(
                Error::ItemNotInZone {
                    id: p.item_id,
                    holder: holder(it.place),
                    container: container(it.place),
                },
            );
        },
    };
    let k: usize = match find(&c.characters, p.character_id) {
        Some(k) => k,
        None => {
            return Err(Error::CharacterNotFound { id: p.character_id });
        },
    };
    let current = c.characters[k].current_zone_id;
    let here = match current {
        Some(z) => z == zone,
        None => false,
    };
    if !here {
        return Err(
            Error::WrongZone { item: p.item_id, zone, character: p.character_id, current },
        );
    }
    let cap: i128 = capacity_of(content, &c.characters[k]);
    let weight: i128 = effective_weight_for_item(&it, content);
    let before: i128 = carried_weight_lb(c, content, p.character_id);
    let load: i128 = before + weight;
    let pct: i32 = pct_of_capacity(load, cap);
    if is_overload(content, load, cap) {
        return Ok(
            Err(
                PickupRefused {
                    error: "would_overload",
                    character_id: p.character_id,
                    item_id: p.item_id,
                    would_be_weight_lb: load,
                    capacity_lb: cap,
                },
            ),
        );
    }
    let now: i64 = current_campaign_hour(c);
    let kind = it.base_kind.clone();
    let quantity: i64 = it.quantity;
    it.place = Place::Holder(p.character_id);
    it.updated_at = now;
    assert(it@ == Item { place: Place::Holder(p.character_id), updated_at: now, ..it0 });
    c.set_item(i, it);
    let mut s = "Character id=".to_owned();
    s.append(decimal(p.character_id).as_str());
    s.append(" picked up item id=");
    s.append(decimal(p.item_id).as_str());
    s.append(" (");
    s.append(decimal(to_pounds(load)).as_str());
    s.append(" lb carried of ");
    s.append(decimal(to_pounds(cap)).as_str());
    s.append(" capacity)");
    let base = entry(
        "item.pickup",
        now,
        s,
        fields8(
            int_field("item_id", p.item_id),
            text_field("base_kind", kind.as_str()),
            int_field("quantity", quantity),
            field("weight_lb", Value::Thousandths(weight)),
            field("carried_before", Value::Thousandths(before)),
            field("carried_after", Value::Thousandths(load)),
            field("capacity_lb", Value::Thousandths(cap)),
            int_field("percent_of_capacity", pct as i64),
        ),
        only(p.character_id, EventRole::Actor),
    );
    let e = Event { zone_id: Some(zone), items: refer(p.item_id, "picked_up"), ..base };
    assert(e@ == pickup_entry(w, *content, p));
    let event_id: i64 = c.add_event(e);
    assert(c@ == taken(w, *content, p));
    let (encumbered, condition) = apply_encumbered(c, content, p.character_id, pct, now);
    assert(c@ == picked_up(w, *content, p));
    Ok(
        Ok(
            PickupResult {
                item_id: p.item_id,
                character_id: p.character_id,
                carried_weight_lb: load,
                capacity_lb: cap,
                percent_of_capacity: pct,
                encumbered,
                encumbered_condition_id: condition,
                event_id,
            },
        ),
    )
}

// ── item.drop ──

pub open spec fn drop_refusal(w: World, p: DropParams) -> Option<Error<Seq<char>>> {
    if !listed(w.items, p.item_id) {
        Some(Error::ItemNotFound { id: p.item_id })
    } else if row(w.items, p.item_id).place != Place::Holder(p.character_id) {
        Some(
            Error::NotHeld {
                item: p.item_id,
                character: p.character_id,
                holder: holder_of(row(w.items, p.item_id).place),
            },
        )
    } else if row(w.characters, p.character_id).current_zone_id is None {
        Some(Error::NowhereToDrop { id: p.character_id })
    } else {
        None
    }
}

/// The campaign in which the item lies in the character's zone.
pub open spec fn laid_down(w: World, p: DropParams) -> World {
    World {
        items: put(
            w.items,
            Item {
                place: Place::Zone(row(w.characters, p.character_id).current_zone_id->0),
                equipped_slot: None,
                updated_at: campaign_hour(w),
                ..row(w.items, p.item_id)
            },
        ),
        ..w
    }
}

pub open spec fn drop_entry(w: World, content: Content, p: DropParams) -> EventView {
    let z = row(w.characters, p.character_id).current_zone_id->0;
    let cap = capacity(content, row(w.characters, p.character_id));
    let load = carried(content, laid_down(w, p).items, p.character_id);
    EventView {
        zone_id: Some(z),
        items: item_ref(p.item_id, "dropped"@),
        ..entry_view(
            "item.drop"@,
            campaign_hour(w),
            "Character id="@ + int_text(p.character_id as int) + " dropped item id="@ + int_text(
                p.item_id as int,
            ) + " in zone "@ + int_text(z as int),
            seq![
                field_view("item_id"@, ValueView::Int(p.item_id as int)),
                field_view("zone_id"@, ValueView::Int(z as int)),
                field_view("carried_after"@, ValueView::Thousandths(load)),
                field_view("capacity_lb"@, ValueView::Thousandths(cap)),
                field_view("percent_of_capacity"@, ValueView::Int(percent(load, cap) as int)),
            ],
            one(p.character_id, EventRole::Actor),
        )
    }
}

/// The campaign in which the item lies down and the character is weighed again.
pub open spec fn lightened(w: World, content: Content, p: DropParams) -> World {
    weighed(
        laid_down(w, p),
        content,
        p.character_id,
        percent(
            carried(content, laid_down(w, p).items, p.character_id),
            capacity(content, row(w.characters, p.character_id)),
        ),
        campaign_hour(w),
    )
}

/// The campaign after the item was dropped.
pub open spec fn dropped(w: World, content: Content, p: DropParams) -> World {
    lightened(w, content, p).with_event(drop_entry(w, content, p))
}

/// Drops an item in the zone where its holder is.
pub fn drop_item(c: &mut Campaign, content: &Content, p: DropParams) -> (r: Result<DropResult, Error>)
    requires
        old(c)@.wf(),
        old(c)@.room(),
        content.measures_ok(),
    ensures
        final(c)@.wf(),
        drop_refusal(old(c)@, p) matches Some(e) ==> r is Err && r->Err_0@ == e && final(c)@ == old(c)@,
        drop_refusal(old(c)@, p) is None ==> {
            let cap = capacity(*content, row(old(c)@.characters, p.character_id));
            let load = carried(*content, laid_down(old(c)@, p).items, p.character_id);
            &&& r is Ok
            &&& r->Ok_0.item_id == p.item_id
            &&& Some(r->Ok_0.zone_id) == row(old(c)@.characters, p.character_id).current_zone_id
            &&& r->Ok_0.carried_weight_lb == load
            &&& r->Ok_0.carried_weight_lb == carried(*content, final(c)@.items, p.character_id)
            &&& r->Ok_0.capacity_lb == cap
            &&& r->Ok_0.percent_of_capacity == percent(load, cap)
            &&& r->Ok_0.encumbered == in_band(*content, percent(load, cap))
            &&& r->Ok_0.event_id == next_id(lightened(old(c)@, *content, p).events)
            &&& final(c)@ == dropped(old(c)@, *content, p)
        },
{
    let ghost w = c@;
    proof {
        lemma_tables(w);
    }
    let i: usize = match find(&c.items, p.item_id) {
        Some(i) => i,
        None => {
            return Err(Error::ItemNotFound { id: p.item_id });
        },
    };
    proof {
        lemma_item(w, p.item_id);
    }
    let mut it = c.items[i].copy();
    let ghost it0 = it@;
    if it.place != Place::Holder(p.character_id) {
        return Err(
            Error::NotHeld {
                item: p.item_id,
                character: p.character_id,
                holder: holder(it.place),
            },
        );
    }
    let k: usize = match find(&c.characters, p.character_id) {
        Some(k) => k,
        None => {
            return Err(Error::CharacterNotFound { id: p.character_id });
        },
    };
    proof {
        lemma_character(w, p.character_id);
    }
    let zone: i64 = match c.characters[k].current_zone_id {
        Some(z) => z,
        None => {
            return Err(Error::NowhereToDrop { id: p.character_id });
        },
    };
    let now: i64 = current_campaign_hour(c);
    let cap: i128 = capacity_of(content, &c.characters[k]);
    it.place = Place::Zone(zone);
    it.equipped_slot = None;
    it.updated_at = now;
    assert(it@ == Item { place: Place::Zone(zone), equipped_slot: None, updated_at: now, ..it0 });
    c.set_item(i, it);
    assert(c@ == laid_down(w, p));
    let load: i128 = carried_weight_lb(c, content, p.character_id);
    let pct: i32 = pct_of_capacity(load, cap);
    let (encumbered, _) = apply_encumbered(c, content, p.character_id, pct, now);
    assert(c@ == lightened(w, *content, p));
    let mut s = "Character id=".to_owned();
    s.append(decimal(p.character_id).as_str());
    s.append(" dropped item id=");
    s.append(decimal(p.item_id).as_str());
    s.append(" in zone ");
    s.append(decimal(zone).as_str());
    let base = entry(
        "item.drop",
        now,
        s,
        fields5(
            int_field("item_id", p.item_id),
            int_field("zone_id", zone),
            field("carried_after", Value::Thousandths(load)),
            field("capacity_lb", Value::Thousandths(cap)),
            int_field("percent_of_capacity", pct as i64),
        ),
        only(p.character_id, EventRole::Actor),
    );
    let e = Event { zone_id: Some(zone), items: refer(p.item_id, "dropped"), ..base };
    assert(e@ == drop_entry(w, *content, p));
    let event_id: i64 = c.add_event(e);
    assert(c@ == dropped(w, *content, p));
    Ok(
        DropResult {
            item_id: p.item_id,
            zone_id: zone,
            carried_weight_lb: load,
            capacity_lb: cap,
            percent_of_capacity: pct,
            encumbered,
            event_id,
        },
    )
}

// ── item.equipped, item.unequipped ──

pub open spec fn equip_refusal(w: World, p: EquipParams) -> Option<Error<Seq<char>>> {
    if !listed(w.items, p.item_id) {
        Some(Error::ItemNotFound { id: p.item_id })
    } else if row(w.items, p.item_id).place != Place::Holder(p.character_id) {
        Some(Error::CannotEquip { item: p.item_id, character: p.character_id })
    } else if p.slot@.len() == 0 {
        Some(Error::SlotEmpty)
    } else {
        None
    }
}

pub open spec fn equip_entry(w: World, p: EquipParams) -> EventView {
    EventView {
        items: item_ref(p.item_id, "equipped"@),
        ..entry_view(
            "item.equipped"@,
            campaign_hour(w),
            "Character id="@ + int_text(p.character_id as int) + " equipped item id="@ + int_text(
                p.item_id as int,
            ) + " to slot "@ + debug_text(p.slot@),
            seq![
                field_view("item_id"@, ValueView::Int(p.item_id as int)),
                field_view("slot"@, ValueView::Text(p.slot@)),
            ],
            one(p.character_id, EventRole::Actor),
        )
    }
}

/// The campaign in which the item is worn in the slot.
pub open spec fn equipped(w: World, p: EquipParams) -> World {
    World {
        items: put(
            w.items,
            Item {
                equipped_slot: Some(p.slot@),
                updated_at: campaign_hour(w),
                ..row(w.items, p.item_id)
            },
        ),
        ..w
    }.with_event(equip_entry(w, p))
}

/// Puts a held item into a slot.
pub fn equip(c: &mut Campaign, content: &Content, p: EquipParams) -> (r: Result<EquipResult, Error>)
    requires
        old(c)@.wf(),
        old(c)@.room(),
    ensures
        final(c)@.wf(),
        equip_refusal(old(c)@, p) matches Some(e) ==> r is Err && r->Err_0@ == e && final(c)@ == old(c)@,
        equip_refusal(old(c)@, p) is None ==> {
            &&& r is Ok
            &&& r->Ok_0.item_id == p.item_id
            &&& opt_text(r->Ok_0.slot) == Some(p.slot@)
            &&& r->Ok_0.event_id == next_id(old(c)@.events)
            &&& final(c)@ == equipped(old(c)@, p)
        },
{
    let ghost w = c@;
    proof {
        lemma_tables(w);
    }
    let i: usize = match find(&c.items, p.item_id) {
        Some(i) => i,
        None => {
            return Err(Error::ItemNotFound { id: p.item_id });
        },
    };
    proof {
        lemma_item(w, p.item_id);
    }
    let mut it = c.items[i].copy();
    let ghost it0 = it@;
    if it.place != Place::Holder(p.character_id) {
        return Err(Error::CannotEquip { item: p.item_id, character: p.character_id });
    }
    if p.slot.as_str().is_empty() {
        return Err(Error::SlotEmpty);
    }
    let now: i64 = current_campaign_hour(c);
    it.equipped_slot = Some(p.slot.clone());
    it.updated_at = now;
    assert(it@ == Item { equipped_slot: Some(p.slot@), updated_at: now, ..it0 });
    c.set_item(i, it);
    let mut s = "Character id=".to_owned();
    s.append(decimal(p.character_id).as_str());
    s.append(" equipped item id=");
    s.append(decimal(p.item_id).as_str());
    s.append(" to slot ");
    s.append(quoted(p.slot.as_str()).as_str());
    let base = entry(
        "item.equipped",
        now,
        s,
        fields2(int_field("item_id", p.item_id), text_field("slot", p.slot.as_str())),
        only(p.character_id, EventRole::Actor),
    );
    let e = Event { items: refer(p.item_id, "equipped"), ..base };
    assert(e@ == equip_entry(w, p));
    let event_id: i64 = c.add_event(e);
    assert(c@ == equipped(w, p));
    Ok(EquipResult { item_id: p.item_id, slot: Some(p.slot), event_id })
}

pub open spec fn unequip_refusal(w: World, p: UnequipParams) -> Option<Error<Seq<char>>> {
    if !listed(w.items, p.item_id) {
        Some(Error::ItemNotFound { id: p.item_id })
    } else if row(w.items, p.item_id).place != Place::Holder(p.character_id) {
        Some(Error::CannotUnequip { item: p.item_id, character: p.character_id })
    } else {
        None
    }
}

pub open spec fn unequip_entry(w: World, p: UnequipParams) -> EventView {
    EventView {
        items: item_ref(p.item_id, "unequipped"@),
        ..entry_view(
            "item.unequipped"@,
            campaign_hour(w),
            "Character id="@ + int_text(p.character_id as int) + " unequipped item id="@ + int_text(
                p.item_id as int,
            ),
            seq![field_view("item_id"@, ValueView::Int(p.item_id as int))],
            one(p.character_id, EventRole::Actor),
        )
    }
}

/// The campaign in which the item is worn no more.
pub open spec fn unequipped(w: World, p: UnequipParams) -> World {
    World {
        items: put(
            w.items,
            Item {
                equipped_slot: None,
                updated_at: campaign_hour(w),
                ..row(w.items, p.item_id)
            },
        ),
        ..w
    }.with_event(unequip_entry(w, p))
}

/// Takes a held item out of its slot.
pub fn unequip(c: &mut Campaign, content: &Content, p: UnequipParams) -> (r: Result<EquipResult, Error>)
    requires
        old(c)@.wf(),
        old(c)@.room(),
    ensures
        final(c)@.wf(),
        unequip_refusal(old(c)@, p) matches Some(e) ==> r is Err && r->Err_0@ == e && final(c)@ == old(
            c,
        )@,
        unequip_refusal(old(c)@, p) is None ==> {
            &&& r is Ok
            &&& r->Ok_0.item_id == p.item_id
            &&& r->Ok_0.slot is None
            &&& r->Ok_0.event_id == next_id(old(c)@.events)
            &&& final(c)@ == unequipped(old(c)@, p)
        },
{
    let ghost w = c@;
    proof {
        lemma_tables(w);
    }
    let i: usize = match find(&c.items, p.item_id) {
        Some(i) => i,
        None => {
            return Err(Error::ItemNotFound { id: p.item_id });
        },
    };
    proof {
        lemma_item(w, p.item_id);
    }
    let mut it = c.items[i].copy();
    let ghost it0 = it@;
    if it.place != Place::Holder(p.character_id) {
        return Err(Error::CannotUnequip { item: p.item_id, character: p.character_id });
    }
    let now: i64 = current_campaign_hour(c);
    it.equipped_slot = None;
    it.updated_at = now;
    assert(it@ == Item { equipped_slot: None, updated_at: now, ..it0 });
    c.set_item(i, it);
    let mut s = "Character id=".to_owned();
    s.append(decimal(p.character_id).as_str());
    s.append(" unequipped item id=");
    s.append(decimal(p.item_id).as_str());
    let base = entry(
        "item.unequipped",
        now,
        s,
        fields1(int_field("item_id", p.item_id)),
        only(p.character_id, EventRole::Actor),
    );
    let e = Event { items: refer(p.item_id, "unequipped"), ..base };
    assert(e@ == unequip_entry(w, p));
    let event_id: i64 = c.add_event(e);
    assert(c@ == unequipped(w, p));
    Ok(EquipResult { item_id: p.item_id, slot: None, event_id })
}

// ── Reading ──

/// What reading an item returns.
pub open spec fn item_view(content: Content, it: Item<Seq<char>>) -> ItemView<Seq<char>> {
    ItemView {
        id: it.id,
        base_kind: it.base_kind,
        name: it.name,
        material: it.material,
        material_tier: it.material_tier,
        quality: it.quality,
        quantity: it.quantity,
        equipped_slot: it.equipped_slot,
        effective_weight_lb: item_weight(content, it) as i128,
        effective_value_gp: item_value(content, it) as i128,
    }
}

/// What the character holds, in the order of ids.
pub open spec fn held(content: Content, items: Seq<Item<Seq<char>>>, id: i64) -> Seq<ItemView<Seq<char>>>
    decreases items.len(),
{
    if items.len() == 0 {
        Seq::empty()
    } else {
        let rest = held(content, items.drop_last(), id);
        if items.last().place == Place::Holder(id) {
            rest.push(item_view(content, items.last()))
        } else {
            rest
        }
    }
}

fn show_item(content: &Content, it: &Item) -> (r: ItemView)
    requires
        content.measures_ok(),
        it.quantity >= 1,
    ensures
        r@ == item_view(*content, it@),
{
    ItemView {
        id: it.id,
        base_kind: it.base_kind.clone(),
        name: copy_opt(&it.name),
        material: copy_opt(&it.material),
        material_tier: it.material_tier,
        quality: copy_opt(&it.quality),
        quantity: it.quantity,
        equipped_slot: copy_opt(&it.equipped_slot),
        effective_weight_lb: effective_weight_for_item(it, content),
        effective_value_gp: effective_value_for_item(it, content),
    }
}

/// Reads what a character holds, and how heavy that is for it.
pub fn get(c: &Campaign, content: &Content, character_id: i64) -> (r: Result<InventoryView, Error>)
    requires
        c@.wf(),
        c@.room(),
        content.measures_ok(),
    ensures
        match r {
            Ok(v) => {
                let cap = capacity(*content, row(c@.characters, character_id));
                let load = carried(*content, c@.items, character_id);
                &&& listed(c@.characters, character_id)
                &&& v.character_id == character_id
                &&& views(v.items@) == held(*content, c@.items, character_id)
                &&& v.carried_weight_lb == load
                &&& v.capacity_lb == cap
                &&& v.percent_of_capacity == percent(load, cap)
                &&& v.encumbered == (percent(load, cap)
                    >= content.encumbrance.encumbered_threshold_pct)
            },
            Err(e) => !listed(c@.characters, character_id) && e@ == (Error::<Seq<char>>::CharacterNotFound {
                id: character_id,
            }),
        },
{
    proof {
        lemma_tables(c@);
    }
    let k: usize = match find(&c.characters, character_id) {
        Some(k) => k,
        None => {
            return Err(Error::CharacterNotFound { id: character_id });
        },
    };
    let mut items: Vec<ItemView> = Vec::new();
    let mut i: usize = 0;
    assert(views(items@) =~= held(*content, c@.items.take(0), character_id));
    while i < c.items.len()
        invariant
            c@.wf(),
            content.measures_ok(),
            i <= c.items.len(),
            views(items@) == held(*content, c@.items.take(i as int), character_id),
        decreases c.items.len() - i,
    {
        let it = &c.items[i];
        proof {
            assert(c@.items[i as int] == it@);
            assert(c@.items.take(i + 1).drop_last() =~= c@.items.take(i as int));
            assert(it.quantity >= 1) by {
                reveal(World::wf);
                assert(c@.item_ok(c@.items[i as int]));
            }
        }
        if it.place == Place::Holder(character_id) {
            let ghost before = items@;
            let v = show_item(content, it);
            items.push(v);
            assert(views(items@) =~= views(before).push(v@));
        }
        i = i + 1;
    }
    assert(c@.items.take(i as int) =~= c@.items);
    let load: i128 = carried_weight_lb(c, content, character_id);
    let cap: i128 = capacity_of(content, &c.characters[k]);
    let pct: i32 = pct_of_capacity(load, cap);
    Ok(
        InventoryView {
            character_id,
            items,
            carried_weight_lb: load,
            capacity_lb: cap,
            percent_of_capacity: pct,
            encumbered: pct >= content.encumbrance.encumbered_threshold_pct,
        },
    )
}

/// Reads an item.
pub fn inspect(c: &Campaign, content: &Content, item_id: i64) -> (r: Result<ItemView, Error>)
    requires
        c@.wf(),
        content.measures_ok(),
    ensures
        match r {
            Ok(v) => listed(c@.items, item_id) && v@ == item_view(*content, row(c@.items, item_id)),
            Err(e) => !listed(c@.items, item_id) && e@ == (Error::<Seq<char>>::ItemNotFound {
                id: item_id,
            }),
        },
{
    proof {
        lemma_tables(c@);
    }
    match find(&c.items, item_id) {
        Some(i) => {
            proof {
                lemma_item(c@, item_id);
            }
            Ok(show_item(content, &c.items[i]))
        },
        None => Err(Error::ItemNotFound { id: item_id }),
    }
}

// ── item.transfer ──

/// The deepest that containers may be nested.
pub const MAX_CONTAINER_DEPTH: u32 = 32;

/// What the item is in, where it is in another item.
pub open spec fn inside(w: World, id: i64) -> Option<i64> {
    if listed(w.items, id) {
        container_of(row(w.items, id).place)
    } else {
        None
    }
}

/// Why an item cannot go into the container `start`, found by walking outward from `at`
/// after `steps` steps: the walk meets the item, or it goes too far.
pub open spec fn chain_refusal(w: World, start: i64, item: i64, at: Option<i64>, steps: nat) -> Option<
    Error<Seq<char>>,
>
    decreases MAX_CONTAINER_DEPTH + 1 - steps,
{
    match at {
        None => None,
        Some(id) => if id == item {
            Some(Error::ContainerCycle { item, container: start })
        } else if steps + 1 > MAX_CONTAINER_DEPTH {
            Some(Error::ContainerDepth { container: start })
        } else {
            chain_refusal(w, start, item, inside(w, id), steps + 1)
        },
    }
}

/// What the character would carry with the item; nothing more where it holds it already.
pub open spec fn would_hold(w: World, content: Content, p: TransferParams, id: i64) -> int {
    let it = row(w.items, p.item_id);
    carried(content, w.items, id) + (if it.place == Place::Holder(id) {
        0
    } else {
        item_weight(content, it)
    })
}

pub open spec fn transfer_refusal(w: World, content: Content, p: TransferParams) -> Option<Error<Seq<char>>> {
    let count = place_count(p.to_character_id, p.to_zone_location_id, p.to_container_item_id);
    if count != 1 {
        Some(Error::DestinationCount { count: count as i64 })
    } else if p.to_container_item_id == Some(p.item_id) {
        Some(Error::IntoItself { id: p.item_id })
    } else if !listed(w.items, p.item_id) {
        Some(Error::ItemNotFound { id: p.item_id })
    } else {
        match place_of(p.to_character_id, p.to_zone_location_id, p.to_container_item_id) {
            Place::Holder(id) => if !listed(w.characters, id) {
                Some(Error::NoDestinationCharacter { id })
            } else {
                let load = would_hold(w, content, p, id);
                let cap = capacity(content, row(w.characters, id));
                if overloads(content, load, cap) {
                    Some(
                        Error::TransferOverload { id, would_be: load as i128, capacity: cap as i128 },
                    )
                } else {
                    None
                }
            },
            Place::Container(id) => if !listed(w.items, id) {
                Some(Error::NoDestinationContainer { id })
            } else {
                chain_refusal(w, id, p.item_id, Some(id), 0)
            },
            Place::Zone(id) => if !listed(w.zones, id) {
                Some(Error::NoDestinationZone { id })
            } else {
                None
            },
        }
    }
}

/// Where the item goes, in words.
pub open spec fn destination_text(p: TransferParams) -> Seq<char> {
    match p.to_character_id {
        Some(c) => "character id="@ + int_text(c as int),
        None => match p.to_container_item_id {
            Some(i) => "container id="@ + int_text(i as int),
            None => match p.to_zone_location_id {
                Some(z) => "zone id="@ + int_text(z as int),
                None => "nowhere"@,
            },
        },
    }
}

/// Where the item goes, in words.
pub fn describe_destination(p: &TransferParams) -> (r: String)
    ensures
        r@ == destination_text(*p),
{
    if let Some(c) = p.to_character_id {
        let mut s = "character id=".to_owned();
        s.append(decimal(c).as_str());
        s
    } else if let Some(i) = p.to_container_item_id {
        let mut s = "container id=".to_owned();
        s.append(decimal(i).as_str());
        s
    } else if let Some(z) = p.to_zone_location_id {
        let mut s = "zone id=".to_owned();
        s.append(decimal(z).as_str());
        s
    } else {
        "nowhere".to_owned()
    }
}

/// The campaign in which the item is where it goes, worn no more.
pub open spec fn moved(w: World, p: TransferParams) -> World {
    World {
        items: put(
            w.items,
            Item {
                place: place_of(p.to_character_id, p.to_zone_location_id, p.to_container_item_id),
                equipped_slot: None,
                updated_at: campaign_hour(w),
                ..row(w.items, p.item_id)
            },
        ),
        ..w
    }
}

pub open spec fn transfer_entry(w: World, p: TransferParams) -> EventView {
    EventView {
        zone_id: p.to_zone_location_id,
        items: item_ref(p.item_id, "transferred"@),
        ..entry_view(
            "item.transfer"@,
            campaign_hour(w),
            "Item id="@ + int_text(p.item_id as int) + " transferred to "@ + destination_text(p),
            seq![
                field_view("item_id"@, ValueView::Int(p.item_id as int)),
                field_view("to_character_id"@, opt_int(p.to_character_id)),
                field_view("to_container_item_id"@, opt_int(p.to_container_item_id)),
                field_view("to_zone_location_id"@, opt_int(p.to_zone_location_id)),
            ],
            match p.to_character_id {
                Some(c) => one(c, EventRole::Beneficiary),
                None => Seq::empty(),
            },
        )
    }
}

/// The campaign in which who gets the item has been weighed.
pub open spec fn received(w: World, content: Content, p: TransferParams) -> World {
    let given = moved(w, p).with_event(transfer_entry(w, p));
    match p.to_character_id {
        Some(c) => weighed(
            given,
            content,
            c,
            percent(would_hold(w, content, p, c), capacity(content, row(w.characters, c))),
            campaign_hour(w),
        ),
        None => given,
    }
}

/// The campaign after the transfer: who gets the item and who gives it away are weighed again.
pub open spec fn transferred(w: World, content: Content, p: TransferParams) -> World {
    let after = received(w, content, p);
    match holder_of(row(w.items, p.item_id).place) {
        Some(h) => if Some(h) != p.to_character_id {
            weighed(
                after,
                content,
                h,
                percent(carried(content, moved(w, p).items, h), capacity(content, row(w.characters, h))),
                campaign_hour(w),
            )
        } else {
            after
        },
        None => after,
    }
}

/// Walks outward from a container, so that no item ends up inside itself.
fn check_no_container_cycle(c: &Campaign, start: i64, item: i64) -> (r: Result<(), Error>)
    requires
        c@.wf(),
    ensures
        match r {
            Ok(_) => chain_refusal(c@, start, item, Some(start), 0) is None,
            Err(e) => chain_refusal(c@, start, item, Some(start), 0) == Some(e@),
        },
{
    let mut at: Option<i64> = Some(start);
    let mut steps: u32 = 0;
    loop
        invariant
            c@.wf(),
            steps <= MAX_CONTAINER_DEPTH,
            chain_refusal(c@, start, item, Some(start), 0) == chain_refusal(
                c@,
                start,
                item,
                at,
                steps as nat,
            ),
        decreases MAX_CONTAINER_DEPTH + 1 - steps,
    {
        match at {
            None => {
                return Ok(());
            },
            Some(id) => {
                if id == item {
                    return Err(Error::ContainerCycle { item, container: start });
                }
                if steps + 1 > MAX_CONTAINER_DEPTH {
                    return Err(Error::ContainerDepth { container: start });
                }
                proof {
                    lemma_tables(c@);
                }
                at = match find(&c.items, id) {
                    Some(i) => container(c.items[i].place),
                    None => None,
                };
                steps = steps + 1;
            },
        }
    }
}

/// Whether the transfer is possible: where the item stands, where it goes, and for a
/// character how heavy its load will be, in percent.
fn check_transfer(c: &Campaign, content: &Content, p: &TransferParams) -> (r: Result<
    (usize, Place, i32),
    Error,
>)
    requires
        c@.wf(),
        c@.room(),
        content.measures_ok(),
    ensures
        match r {
            Ok((i, place, pct)) => {
                &&& transfer_refusal(c@, *content, *p) is None
                &&& i < c.items.len()
                &&& index_of(c@.items, p.item_id) == i
                &&& c@.items[i as int].id == p.item_id
                &&& place == place_of(p.to_character_id, p.to_zone_location_id, p.to_container_item_id)
                &&& (place matches Place::Holder(id) ==> listed(c@.characters, id) && pct == percent(
                    would_hold(c@, *content, *p, id),
                    capacity(*content, row(c@.characters, id)),
                ))
                &&& (place matches Place::Container(id) ==> listed(c@.items, id))
                &&& (place matches Place::Zone(id) ==> listed(c@.zones, id))
                &&& listed(c@.items, p.item_id)
            },
            Err(e) => transfer_refusal(c@, *content, *p) == Some(e@),
        },
{
    let count: i64 = count_places(p.to_character_id, p.to_zone_location_id, p.to_container_item_id);
    if count != 1 {
        return Err(Error::DestinationCount { count });
    }
    if let Some(k) = p.to_container_item_id {
        if k == p.item_id {
            return Err(Error::IntoItself { id: p.item_id });
        }
    }
    proof {
        lemma_tables(c@);
    }
    let i: usize = match find(&c.items, p.item_id) {
        Some(i) => i,
        None => {
            return Err(Error::ItemNotFound { id: p.item_id });
        },
    };
    proof {
        lemma_item(c@, p.item_id);
    }
    let place = pick_place(p.to_character_id, p.to_zone_location_id, p.to_container_item_id);
    let mut pct: i32 = 0;
    match place {
        Place::Holder(id) => {
            let k: usize = match find(&c.characters, id) {
                Some(k) => k,
                None => {
                    return Err(Error::NoDestinationCharacter { id });
                },
            };
            let cap: i128 = capacity_of(content, &c.characters[k]);
            let it = &c.items[i];
            let more: i128 = if it.place == Place::Holder(id) {
                0
            } else {
                effective_weight_for_item(it, content)
            };
            let load: i128 = carried_weight_lb(c, content, id) + more;
            if is_overload(content, load, cap) {
                return Err(Error::TransferOverload { id, would_be: load, capacity: cap });
            }
            pct = pct_of_capacity(load, cap);
        },
        Place::Container(id) => {
            if find(&c.items, id).is_none() {
                return Err(Error::NoDestinationContainer { id });
            }
            match check_no_container_cycle(c, id, p.item_id) {
                Ok(_) => {},
                Err(e) => {
                    return Err(e);
                },
            }
        },
        Place::Zone(id) => {
            if find(&c.zones, id).is_none() {
                return Err(Error::NoDestinationZone { id });
            }
        },
    }
    Ok((i, place, pct))
}

/// Moves an item to a character, into a container or to a zone.
pub fn transfer(c: &mut Campaign, content: &Content, p: TransferParams) -> (r: Result<TransferResult, Error>)
    requires
        old(c)@.wf(),
        old(c)@.room(),
        content.measures_ok(),
    ensures
        final(c)@.wf(),
        transfer_refusal(old(c)@, *content, p) matches Some(e) ==> r is Err && r->Err_0@ == e && final(c)@
            == old(c)@,
        transfer_refusal(old(c)@, *content, p) is None ==> {
            &&& r is Ok
            &&& r->Ok_0.item_id == p.item_id
            &&& r->Ok_0.event_id == next_id(old(c)@.events)
            &&& final(c)@ == transferred(old(c)@, *content, p)
        },
{
    let ghost w = c@;
    let (i, place, pct) = match check_transfer(c, content, &p) {
        Ok(x) => x,
        Err(e) => {
            return Err(e);
        },
    };
    proof {
        lemma_tables(w);
        lemma_item(w, p.item_id);
    }
    let now: i64 = current_campaign_hour(c);
    let mut it = c.items[i].copy();
    let ghost it0 = it@;
    let giver = holder(it.place);
    it.place = place;
    it.equipped_slot = None;
    it.updated_at = now;
    assert(it@ == Item { place, equipped_slot: None, updated_at: now, ..it0 });
    c.set_item(i, it);
    assert(c@ == moved(w, p));
    let mut s = "Item id=".to_owned();
    s.append(decimal(p.item_id).as_str());
    s.append(" transferred to ");
    s.append(describe_destination(&p).as_str());
    let who = match p.to_character_id {
        Some(x) => only(x, EventRole::Beneficiary),
        None => nobody(),
    };
    let base = entry(
        "item.transfer",
        now,
        s,
        fields4(
            int_field("item_id", p.item_id),
            opt_int_field("to_character_id", p.to_character_id),
            opt_int_field("to_container_item_id", p.to_container_item_id),
            opt_int_field("to_zone_location_id", p.to_zone_location_id),
        ),
        who,
    );
    let e = Event { zone_id: p.to_zone_location_id, items: refer(p.item_id, "transferred"), ..base };
    assert(e@ == transfer_entry(w, p));
    let event_id: i64 = c.add_event(e);
    if let Some(x) = p.to_character_id {
        assert(place == Place::Holder(x));
        let _ = apply_encumbered(c, content, x, pct, now);
    }
    assert(c@ == received(w, *content, p));
    if let Some(h) = giver {
        let stays = match p.to_character_id {
            Some(x) => x == h,
            None => false,
        };
        if !stays {
            assert(c@.items == moved(w, p).items);
            assert(listed(w.characters, h));
            let load: i128 = carried_weight_lb(c, content, h);
            if let Some(k) = find(&c.characters, h) {
                let cap: i128 = capacity_of(content, &c.characters[k]);
                let left: i32 = pct_of_capacity(load, cap);
                let _ = apply_encumbered(c, content, h, left, now);
            }
        }
    }
    assert(c@ == transferred(w, *content, p));
    Ok(TransferResult { item_id: p.item_id, event_id })
}

// ── Laws ──

/// What holds an item, `n` containers outward.
pub open spec fn outward(w: World, id: i64, n: nat) -> Option<i64>
    decreases n,
{
    if n == 0 {
        Some(id)
    } else {
        match outward(w, id, (n - 1) as nat) {
            Some(x) => inside(w, x),
            None => None,
        }
    }
}

pub(crate) proof fn lemma_outward_from(w: World, id: i64, n: nat)
    requires
        n > 0,
    ensures
        outward(w, id, n) == (match inside(w, id) {
            Some(x) => outward(w, x, (n - 1) as nat),
            None => None,
        }),
    decreases n,
{
    if n > 1 {
        lemma_outward_from(w, id, (n - 1) as nat);
    } else {
        assert(outward(w, id, 0) == Some(id));
        assert(match inside(w, id) {
            Some(x) => outward(w, x, 0) == Some(x),
            None => true,
        });
    }
}

/// A walk that refuses nothing never meets the item.
pub(crate) proof fn lemma_chain(w: World, v: World, start: i64, item: i64, at: i64, steps: nat, n: nat)
    requires
        chain_refusal(w, start, item, Some(at), steps) is None,
        forall|id: i64| id != item ==> #[trigger] inside(v, id) == inside(w, id),
    ensures
        outward(v, at, n) != Some(item),
    decreases n,
{
    assert(at != item);
    if n > 0 {
        lemma_outward_from(v, at, n);
        assert(inside(v, at) == inside(w, at));
        match inside(w, at) {
            Some(x) => {
                lemma_chain(w, v, start, item, x, steps + 1, (n - 1) as nat);
            },
            None => {},
        }
    }
}

proof fn lemma_outward_on(w: World, id: i64, a: nat, b: nat)
    ensures
        outward(w, id, a + b) == (match outward(w, id, a) {
            Some(x) => outward(w, x, b),
            None => None,
        }),
    decreases b,
{
    if b > 0 {
        lemma_outward_on(w, id, a, (b - 1) as nat);
        assert((a + b - 1) as nat == a + (b - 1) as nat);
    }
}

/// Where only one item changes its place, a walk that does not meet it stays the same.
proof fn lemma_outward_same(w: World, v: World, item: i64, id: i64, n: nat)
    requires
        forall|x: i64| x != item ==> #[trigger] inside(v, x) == inside(w, x),
        forall|k: nat| k < n ==> #[trigger] outward(v, id, k) != Some(item),
    ensures
        outward(v, id, n) == outward(w, id, n),
    decreases n,
{
    if n > 0 {
        let m = (n - 1) as nat;
        lemma_outward_same(w, v, item, id, m);
        assert(outward(v, id, m) != Some(item));
        if let Some(x) = outward(v, id, m) {
            assert(inside(v, x) == inside(w, x));
        }
    }
}

/// After a transfer only the item has another place, and it is not inside itself.
proof fn lemma_transfer_frees_the_item(w: World, content: Content, p: TransferParams)
    requires
        w.wf(),
        transfer_refusal(w, content, p) is None,
    ensures
        forall|id: i64|
            id != p.item_id ==> #[trigger] inside(transferred(w, content, p), id) == inside(w, id),
        forall|n: nat|
            n > 0 ==> #[trigger] outward(transferred(w, content, p), p.item_id, n) != Some(p.item_id),
{
    let v = transferred(w, content, p);
    lemma_tables(w);
    lemma_item(w, p.item_id);
    let i = index_of(w.items, p.item_id);
    let place = place_of(p.to_character_id, p.to_zone_location_id, p.to_container_item_id);
    let x = Item {
        place,
        equipped_slot: None,
        updated_at: campaign_hour(w),
        ..row(w.items, p.item_id)
    };
    lemma_update(w.items, i, x);
    assert(v.items == w.items.update(i, x));
    assert forall|id: i64| id != p.item_id implies #[trigger] inside(v, id) == inside(w, id) by {
        if listed(w.items, id) {
            lemma_row(w.items, id);
            let k = index_of(w.items, id);
            assert(k != i);
            assert(v.items[k] == w.items[k]);
            lemma_index(v.items, k);
        }
    }
    assert(row(v.items, p.item_id) == x);
    assert forall|n: nat| n > 0 implies #[trigger] outward(v, p.item_id, n) != Some(p.item_id) by {
        lemma_outward_from(v, p.item_id, n);
        match container_of(place) {
            Some(id) => {
                lemma_chain(w, v, id, p.item_id, id, 0, (n - 1) as nat);
            },
            None => {},
        }
    }
}

/// No transfer puts any item inside itself, however many containers there are between: the item
/// that is moved is not inside itself, and no other is that was not before.
pub proof fn law_transfer_makes_no_cycle(w: World, content: Content, p: TransferParams, id: i64, n: nat)
    requires
        w.wf(),
        transfer_refusal(w, content, p) is None,
        n > 0,
        id != p.item_id ==> outward(w, id, n) != Some(id),
    ensures
        outward(transferred(w, content, p), id, n) != Some(id),
{
    let v = transferred(w, content, p);
    let item = p.item_id;
    lemma_transfer_frees_the_item(w, content, p);
    if id != item && outward(v, id, n) == Some(id) {
        if exists|k: nat| k < n && #[trigger] outward(v, id, k) == Some(item) {
            let k = choose|k: nat| k < n && #[trigger] outward(v, id, k) == Some(item);
            let rest = (n - k) as nat;
            lemma_outward_on(v, id, k, rest);
            lemma_outward_on(v, item, rest, k);
            assert(outward(v, item, rest + k) == Some(item));
            assert(false);
        } else {
            lemma_outward_same(w, v, item, id, n);
        }
    }
}

/// Whether the condition of being encumbered holds just where the load is in the band.
pub open spec fn encumbrance_fits(w: World, content: Content, id: i64, pct: i32) -> bool {
    newest(w, id, "encumbered"@) is Some == in_band(content, pct)
}

/// Whether the character is under at most one condition of being encumbered.
pub open spec fn burdened_once(rows: Seq<Condition<Seq<char>>>, id: i64) -> bool {
    forall|i: int, j: int|
        #![trigger rows[i], rows[j]]
        0 <= i < j < rows.len() ==> !(is_under(rows[i], id, "encumbered"@) && is_under(
            rows[j],
            id,
            "encumbered"@,
        ))
}

proof fn lemma_weighed(w: World, content: Content, id: i64, pct: i32, now: i64)
    requires
        ordered(w.conditions),
        top(w.conditions) < i64::MAX,
        burdened_once(w.conditions, id),
    ensures
        encumbrance_fits(weighed(w, content, id, pct, now), content, id, pct),
        burdened_once(weighed(w, content, id, pct, now).conditions, id),
        ordered(weighed(w, content, id, pct, now).conditions),
        top(weighed(w, content, id, pct, now).conditions) <= top(w.conditions) + 1,
{
    let v = weighed(w, content, id, pct, now);
    let name = "encumbered"@;
    lemma_newest(w.conditions, id, name, w.conditions.len());
    lemma_newest(v.conditions, id, name, v.conditions.len());
    match newest(w, id, name) {
        Some(k) => {
            if !in_band(content, pct) {
                let off = Condition { active: false, ..w.conditions[k] };
                lemma_index(w.conditions, k);
                lemma_update(w.conditions, k, off);
                assert(v.conditions == w.conditions.update(k, off));
                assert forall|i: int, j: int|
                    #![trigger v.conditions[i], v.conditions[j]]
                    0 <= i < j < v.conditions.len() implies !(is_under(v.conditions[i], id, name) && is_under(
                    v.conditions[j],
                    id,
                    name,
                )) by {
                    assert(w.conditions[i] == w.conditions[i] && w.conditions[j] == w.conditions[j]);
                }
                if newest(v, id, name) is Some {
                    let j = newest(v, id, name)->0;
                    if j != k {
                        assert(v.conditions[j] == w.conditions[j]);
                        assert(w.conditions[j] == w.conditions[j] && w.conditions[k] == w.conditions[k]);
                    }
                }
            }
        },
        None => {
            if in_band(content, pct) {
                let n = w.conditions.len() as int;
                lemma_push(w.conditions, v.conditions[n]);
                assert(v.conditions == w.conditions.push(v.conditions[n]));
                assert(is_under(v.conditions[n], id, name));
                assert forall|i: int, j: int|
                    #![trigger v.conditions[i], v.conditions[j]]
                    0 <= i < j < v.conditions.len() implies !(is_under(v.conditions[i], id, name) && is_under(
                    v.conditions[j],
                    id,
                    name,
                )) by {
                    assert(v.conditions[i] == w.conditions[i]);
                }
            }
        },
    }
}

/// Weighing a character leaves it encumbered just where its load is in the band, provided it
/// was under at most one such condition.
pub proof fn law_weighing_settles_encumbrance(w: World, content: Content, id: i64, pct: i32, now: i64)
    requires
        w.wf(),
        w.room(),
        burdened_once(w.conditions, id),
    ensures
        encumbrance_fits(weighed(w, content, id, pct, now), content, id, pct),
        burdened_once(weighed(w, content, id, pct, now).conditions, id),
{
    lemma_tables(w);
    lemma_weighed(w, content, id, pct, now);
}

/// A pickup that would overload the character changes nothing.
pub proof fn law_refused_pickup_changes_nothing(
    w: World,
    content: Content,
    p: PickupParams,
    after: World,
    r: Result<PickupResult, PickupRefused>,
)
    requires
        pickup_refusal(w, p) is None,
        pickup_ok(w, content, p, after, r),
        r is Err,
    ensures
        after == w,
        overloads(content, would_carry(w, content, p), capacity(content, row(w.characters, p.character_id))),
{
}

/// What the item adds to what the character carries.
pub open spec fn burden_of(content: Content, it: Item<Seq<char>>, id: i64) -> int {
    if it.place == Place::Holder(id) {
        item_weight(content, it)
    } else {
        0
    }
}

proof fn lemma_carried_update(content: Content, items: Seq<Item<Seq<char>>>, i: int, x: Item<Seq<char>>, id: i64)
    requires
        0 <= i < items.len(),
    ensures
        carried(content, items.update(i, x), id) == carried(content, items, id) - burden_of(
            content,
            items[i],
            id,
        ) + burden_of(content, x, id),
    decreases items.len(),
{
    if i == items.len() - 1 {
        assert(items.update(i, x).drop_last() =~= items.drop_last());
    } else {
        lemma_carried_update(content, items.drop_last(), i, x, id);
        assert(items.update(i, x).drop_last() =~= items.drop_last().update(i, x));
    }
}

/// Picking up an item gives its weight to whoever picks it up, and changes what nobody else
/// carries.
pub proof fn law_pickup_adds_the_weight(w: World, content: Content, p: PickupParams, id: i64)
    requires
        w.wf(),
        pickup_refusal(w, p) is None,
    ensures
        carried(content, picked_up(w, content, p).items, id) == (if id == p.character_id {
            would_carry(w, content, p)
        } else {
            carried(content, w.items, id)
        }),
{
    lemma_tables(w);
    lemma_item(w, p.item_id);
    let i = index_of(w.items, p.item_id);
    let x = Item {
        place: Place::Holder(p.character_id),
        updated_at: campaign_hour(w),
        ..row(w.items, p.item_id)
    };
    lemma_update(w.items, i, x);
    assert(picked_up(w, content, p).items == w.items.update(i, x));
    lemma_carried_update(content, w.items, i, x, id);
}

/// Dropping an item takes its weight from whoever held it, and changes what nobody else
/// carries.
pub proof fn law_drop_takes_the_weight(w: World, content: Content, p: DropParams, id: i64)
    requires
        w.wf(),
        drop_refusal(w, p) is None,
    ensures
        carried(content, dropped(w, content, p).items, id) == carried(content, w.items, id) - (if id
            == p.character_id {
            item_weight(content, row(w.items, p.item_id))
        } else {
            0
        }),
{
    lemma_tables(w);
    lemma_item(w, p.item_id);
    let i = index_of(w.items, p.item_id);
    let x = Item {
        place: Place::Zone(row(w.characters, p.character_id).current_zone_id->0),
        equipped_slot: None,
        updated_at: campaign_hour(w),
        ..row(w.items, p.item_id)
    };
    lemma_update(w.items, i, x);
    assert(dropped(w, content, p).items == w.items.update(i, x));
    lemma_carried_update(content, w.items, i, x, id);
}

/// An item that was picked up can be dropped. Then it lies where it lay, everyone carries what
/// they carried, and the character is encumbered just where that load is in the band, provided
/// it was under at most one such condition.
pub proof fn law_drop_undoes_pickup(w: World, content: Content, p: PickupParams, q: DropParams, id: i64)
    requires
        w.wf(),
        w.room(),
        pickup_refusal(w, p) is None,
        q.item_id == p.item_id,
        q.character_id == p.character_id,
    ensures
        ({
            let v = picked_up(w, content, p);
            let after = dropped(v, content, q);
            let pct = percent(
                carried(content, w.items, p.character_id),
                capacity(content, row(w.characters, p.character_id)),
            );
            &&& drop_refusal(v, q) is None
            &&& row(after.items, p.item_id).place == row(w.items, p.item_id).place
            &&& carried(content, after.items, id) == carried(content, w.items, id)
            &&& burdened_once(w.conditions, p.character_id) ==> encumbrance_fits(
                after,
                content,
                p.character_id,
                pct,
            )
        }),
{
    lemma_tables(w);
    lemma_item(w, p.item_id);
    let i = index_of(w.items, p.item_id);
    let x = Item {
        place: Place::Holder(p.character_id),
        updated_at: campaign_hour(w),
        ..row(w.items, p.item_id)
    };
    lemma_update(w.items, i, x);
    let v = picked_up(w, content, p);
    assert(v.items == w.items.update(i, x));
    assert(v.characters == w.characters);
    let y = Item {
        place: Place::Zone(row(v.characters, p.character_id).current_zone_id->0),
        equipped_slot: None,
        updated_at: campaign_hour(v),
        ..x
    };
    lemma_update(v.items, i, y);
    let after = dropped(v, content, q);
    assert(after.items == v.items.update(i, y));
    lemma_carried_update(content, w.items, i, x, id);
    lemma_carried_update(content, v.items, i, y, id);
    lemma_carried_update(content, w.items, i, x, p.character_id);
    lemma_carried_update(content, v.items, i, y, p.character_id);
    if burdened_once(w.conditions, p.character_id) {
        let load = percent(would_carry(w, content, p), capacity(content, row(w.characters, p.character_id)));
        let pct = percent(
            carried(content, w.items, p.character_id),
            capacity(content, row(w.characters, p.character_id)),
        );
        lemma_weighed(taken(w, content, p), content, p.character_id, load, campaign_hour(w));
        lemma_weighed(laid_down(v, q), content, p.character_id, pct, campaign_hour(v));
        assert(after.conditions == lightened(v, content, q).conditions);
    }
}

/// A transfer moves the item's weight from who held it to who holds it, and changes what
/// nobody else carries.
pub proof fn law_transfer_moves_the_weight(w: World, content: Content, p: TransferParams, id: i64)
    requires
        w.wf(),
        transfer_refusal(w, content, p) is None,
    ensures
        carried(content, transferred(w, content, p).items, id) == carried(content, w.items, id) - burden_of(
            content,
            row(w.items, p.item_id),
            id,
        ) + (if p.to_character_id == Some(id) {
            item_weight(content, row(w.items, p.item_id))
        } else {
            0
        }),
{
    lemma_tables(w);
    lemma_item(w, p.item_id);
    let i = index_of(w.items, p.item_id);
    let x = Item {
        place: place_of(p.to_character_id, p.to_zone_location_id, p.to_container_item_id),
        equipped_slot: None,
        updated_at: campaign_hour(w),
        ..row(w.items, p.item_id)
    };
    lemma_update(w.items, i, x);
    assert(transferred(w, content, p).items == w.items.update(i, x));
    lemma_carried_update(content, w.items, i, x, id);
}

/// An item that was equipped is worn in its slot, can be unequipped, and then is worn no more
/// and still held.
pub proof fn law_unequip_undoes_equip(w: World, p: EquipParams, q: UnequipParams)
    requires
        w.wf(),
        equip_refusal(w, p) is None,
        q.item_id == p.item_id,
        q.character_id == p.character_id,
    ensures
        row(equipped(w, p).items, p.item_id).equipped_slot == Some(p.slot@),
        unequip_refusal(equipped(w, p), q) is None,
        row(unequipped(equipped(w, p), q).items, p.item_id).equipped_slot is None,
        row(unequipped(equipped(w, p), q).items, p.item_id).place == Place::Holder(p.character_id),
{
    lemma_tables(w);
    lemma_item(w, p.item_id);
    let i = index_of(w.items, p.item_id);
    let x = Item { equipped_slot: Some(p.slot@), updated_at: campaign_hour(w), ..row(w.items, p.item_id) };
    lemma_update(w.items, i, x);
    let v = equipped(w, p);
    let y = Item { equipped_slot: None, updated_at: campaign_hour(v), ..x };
    lemma_update(v.items, i, y);
}

} // verus!
