//! Laws of belongings: what things weigh, who can carry them, and where they end up.

use vstd::prelude::*;
use crate::campaign::{
    index_of, lemma_index, lemma_item, lemma_push, lemma_tables, listed, next_id, ordered, row, World,
};
use crate::conditions::{is_under, lemma_newest, newest};
use crate::content::Content;
use crate::inventory::{
    burdened_once, capacity, carried, chain_refusal, create_refusal, drop_refusal, dropped, equip_refusal,
    equipped, held, inside, item_made, item_value, item_weight, law_pickup_adds_the_weight,
    law_transfer_moves_the_weight, lemma_chain, lemma_outward_from, outward, percent, pickup_ok, pickup_refusal,
    transfer_refusal, transferred, unequip_refusal, unequipped, weighed, CreateParams, DropParams, EquipParams,
    PickupParams, PickupRefused, PickupResult, TransferParams, UnequipParams,
};
use crate::laws::{lemma_put_changes, only_changes};
use crate::rows::{Character, Condition, Item, Place};
use crate::text::opt_text;

verus! {

// ── Weights ──

/// An item weighs and is worth what its kind does, as often as there are pieces of it; of a kind
/// that is unknown, nothing.
pub proof fn law_pieces_weigh_alike(content: Content, it: Item<Seq<char>>, k: int, n: i64, m: i64)
    requires
        n + m <= i64::MAX,
        n + m >= i64::MIN,
    ensures
        ({
            let a = Item { quantity: n, ..it };
            let b = Item { quantity: m, ..it };
            let both = Item { quantity: (n + m) as i64, ..it };
            &&& item_weight(content, both) == item_weight(content, a) + item_weight(content, b)
            &&& item_value(content, both) == item_value(content, a) + item_value(content, b)
        }),
        content.base(it.base_kind) == Some(k) ==> {
            let one = Item { quantity: 1, ..it };
            item_weight(content, one) == content.item_bases@[k].weight_lb && item_value(content, one)
                == content.item_bases@[k].base_value_gp
        },
        content.base(it.base_kind) is None ==> item_weight(content, it) == 0 && item_value(content, it) == 0,
{
    let u = crate::inventory::unit_weight(content, it.base_kind);
    let v = crate::inventory::unit_value(content, it.base_kind);
    assert(u * (n + m) == u * n + u * m) by (nonlinear_arith);
    assert(v * (n + m) == v * n + v * m) by (nonlinear_arith);
    assert(u == 0 ==> u * it.quantity == 0) by (nonlinear_arith);
    assert(v == 0 ==> v * it.quantity == 0) by (nonlinear_arith);
}

/// What a character carries is the weight of all that it holds and of nothing else: what lies in
/// a zone, in a container or with somebody else does not count.
pub proof fn law_burdens_add_up(
    content: Content,
    a: Seq<Item<Seq<char>>>,
    b: Seq<Item<Seq<char>>>,
    it: Item<Seq<char>>,
    id: i64,
)
    ensures
        carried(content, a + b, id) == carried(content, a, id) + carried(content, b, id),
        it.place == Place::Holder(id) ==> carried(content, seq![it], id) == item_weight(content, it),
        it.place != Place::Holder(id) ==> carried(content, seq![it], id) == 0,
        carried(content, Seq::empty(), id) == 0,
    decreases b.len(),
{
    assert(seq![it].drop_last() =~= Seq::<Item<Seq<char>>>::empty());
    assert(carried(content, seq![it].drop_last(), id) == 0);
    if b.len() == 0 {
        assert(a + b =~= a);
    } else {
        law_burdens_add_up(content, a, b.drop_last(), it, id);
        assert((a + b).drop_last() =~= a + b.drop_last());
    }
}

/// Each point of strength adds the same to what a character can carry, and nothing else does.
pub proof fn law_strength_carries(content: Content, a: Character<Seq<char>>, b: Character<Seq<char>>)
    ensures
        b.str_score == a.str_score + 1 ==> capacity(content, b) == capacity(content, a)
            + content.encumbrance.capacity_per_str * 1000,
        b.str_score == a.str_score ==> capacity(content, b) == capacity(content, a),
        a.str_score == 0 ==> capacity(content, a) == 0,
{
    let p = content.encumbrance.capacity_per_str;
    assert((a.str_score + 1) * p == a.str_score * p + p) by (nonlinear_arith);
    assert(a.str_score == 0 ==> a.str_score * p == 0) by (nonlinear_arith);
}

/// The percentage of the capacity is the whole part of it.
pub proof fn law_percentage_is_the_whole_part(weight: int, cap: int)
    requires
        cap > 0,
        i32::MIN < percent(weight, cap) < i32::MAX,
    ensures
        percent(weight, cap) * cap <= weight * 100 < (percent(weight, cap) + 1) * cap,
{
    let n = weight * 100 / cap;
    vstd::arithmetic::div_mod::lemma_fundamental_div_mod(weight * 100, cap);
    vstd::arithmetic::div_mod::lemma_mod_bound(weight * 100, cap);
    assert(percent(weight, cap) == n);
    assert(cap * n == n * cap) by (nonlinear_arith);
    assert((n + 1) * cap == n * cap + cap) by (nonlinear_arith);
}

/// Whether the character is under the condition.
pub open spec fn suffers(rows: Seq<Condition<Seq<char>>>, id: i64, name: Seq<char>) -> bool {
    exists|i: int|
        0 <= i < rows.len() && (#[trigger] rows[i]).character_id == id && rows[i].condition == name
            && rows[i].active
}

/// After weighing, a character is encumbered if it carries at least the share of its capacity
/// from which it is, and not more than it can; otherwise it is not. Nobody else's conditions
/// change, and no other condition does.
pub proof fn law_weighing_marks_the_burdened(w: World, content: Content, id: i64, pct: i32, now: i64, i: int)
    requires
        ordered(w.conditions),
    ensures
        ({
            let v = weighed(w, content, id, pct, now);
            let heavy = content.encumbrance.encumbered_threshold_pct <= pct
                && pct <= content.encumbrance.overloaded_threshold_pct;
            &&& heavy ==> suffers(v.conditions, id, "encumbered"@)
            &&& !heavy && burdened_once(w.conditions, id) ==> !suffers(v.conditions, id, "encumbered"@)
            &&& 0 <= i < w.conditions.len() && (w.conditions[i].character_id != id || w.conditions[i].condition
                != "encumbered"@) ==> v.conditions[i] == w.conditions[i]
            &&& v.characters == w.characters
            &&& v.items == w.items
        }),
{
    let v = weighed(w, content, id, pct, now);
    let name = "encumbered"@;
    lemma_newest(w.conditions, id, name, w.conditions.len());
    let heavy = content.encumbrance.encumbered_threshold_pct <= pct
        && pct <= content.encumbrance.overloaded_threshold_pct;
    match newest(w, id, name) {
        Some(k) => {
            assert(is_under(w.conditions[k], id, name));
            if !heavy {
                let r = Condition { active: false, ..w.conditions[k] };
                lemma_index(w.conditions, k);
                crate::campaign::lemma_update(w.conditions, k, r);
                assert(v.conditions =~= w.conditions.update(k, r));
                assert forall|j: int|
                    0 <= j < v.conditions.len() && burdened_once(w.conditions, id) implies !is_under(
                    #[trigger] v.conditions[j],
                    id,
                    name,
                ) by {
                    if j < k {
                        assert(!(is_under(w.conditions[j], id, name) && is_under(w.conditions[k], id, name)));
                    } else if k < j {
                        assert(!(is_under(w.conditions[k], id, name) && is_under(w.conditions[j], id, name)));
                    }
                }
            }
        },
        None => {
            if heavy {
                assert(v.conditions[w.conditions.len() as int].active);
            } else {
                assert forall|j: int| 0 <= j < v.conditions.len() implies !is_under(
                    #[trigger] v.conditions[j],
                    id,
                    name,
                ) by {}
            }
        },
    }
}

// ── Taking and leaving ──

/// Whether the item has gone to this place, and is otherwise what it was.
pub open spec fn went(a: World, b: World, id: i64, place: Place) -> bool {
    let before = row(a.items, id);
    let after = row(b.items, id);
    &&& only_changes(a.items, b.items, id)
    &&& listed(b.items, id)
    &&& after.place == place
    &&& after.id == id
    &&& after.base_kind == before.base_kind
    &&& after.name == before.name
    &&& after.material == before.material
    &&& after.material_tier == before.material_tier
    &&& after.quality == before.quality
    &&& after.quantity == before.quantity
    &&& b.characters == a.characters
    &&& b.zones == a.zones
    &&& b.effects == a.effects
    &&& b.resources == a.resources
}

/// A character can pick up what leaves it at most as heavy as it can carry, and then holds it;
/// otherwise everything stays as it is. What is told is what it carries then, with the item, and
/// what it can carry.
pub proof fn law_pickup_gives_the_item(
    w: World,
    content: Content,
    p: PickupParams,
    after: World,
    r: Result<PickupResult, PickupRefused>,
)
    requires
        w.wf(),
        pickup_refusal(w, p) is None,
        pickup_ok(w, content, p, after, r),
    ensures
        ({
            let most = capacity(content, row(w.characters, p.character_id));
            let load = carried(content, w.items, p.character_id) + item_weight(content, row(w.items, p.item_id));
            let limit = content.encumbrance.overloaded_threshold_pct;
            &&& r is Ok <==> load * 100 <= most * limit
            &&& r is Err ==> after == w && r->Err_0.would_be_weight_lb == load && r->Err_0.capacity_lb == most
            &&& r is Ok ==> {
                &&& went(w, after, p.item_id, Place::Holder(p.character_id))
                &&& row(after.items, p.item_id).equipped_slot == row(w.items, p.item_id).equipped_slot
                &&& r->Ok_0.carried_weight_lb == carried(content, after.items, p.character_id)
                &&& r->Ok_0.carried_weight_lb == load
                &&& r->Ok_0.capacity_lb == most
                &&& r->Ok_0.encumbered <==> content.encumbrance.encumbered_threshold_pct
                    <= r->Ok_0.percent_of_capacity && r->Ok_0.percent_of_capacity <= limit
                &&& r->Ok_0.encumbered ==> suffers(after.conditions, p.character_id, "encumbered"@)
            }
        }),
{
    lemma_tables(w);
    lemma_item(w, p.item_id);
    law_pickup_adds_the_weight(w, content, p, p.character_id);
    let it = Item {
        place: Place::Holder(p.character_id),
        updated_at: crate::world::campaign_hour(w),
        ..row(w.items, p.item_id)
    };
    lemma_put_changes(w.items, it);
    let v = crate::inventory::taken(w, content, p);
    law_weighing_marks_the_burdened(
        v,
        content,
        p.character_id,
        percent(
            crate::inventory::would_carry(w, content, p),
            capacity(content, row(w.characters, p.character_id)),
        ),
        crate::world::campaign_hour(w),
        0,
    );
}

/// What a character drops lies where it stands, and nobody wears it any more.
pub proof fn law_drop_leaves_the_item(w: World, content: Content, p: DropParams)
    requires
        w.wf(),
        drop_refusal(w, p) is None,
    ensures
        ({
            let after = dropped(w, content, p);
            &&& went(
                w,
                after,
                p.item_id,
                Place::Zone(row(w.characters, p.character_id).current_zone_id->0),
            )
            &&& row(after.items, p.item_id).equipped_slot is None
        }),
{
    lemma_tables(w);
    lemma_item(w, p.item_id);
    lemma_put_changes(w.items, crate::inventory::laid_down(w, p).items[index_of(w.items, p.item_id)]);
    law_weighing_marks_the_burdened(
        crate::inventory::laid_down(w, p),
        content,
        p.character_id,
        percent(
            carried(content, crate::inventory::laid_down(w, p).items, p.character_id),
            capacity(content, row(w.characters, p.character_id)),
        ),
        crate::world::campaign_hour(w),
        0,
    );
}

/// An item that is given goes where it was to go, off whoever wears it. Whoever gets it carries
/// no more with it than it can.
pub proof fn law_transfer_moves_the_item(w: World, content: Content, p: TransferParams)
    requires
        w.wf(),
        transfer_refusal(w, content, p) is None,
    ensures
        ({
            let after = transferred(w, content, p);
            let place = row(after.items, p.item_id).place;
            &&& went(w, after, p.item_id, place)
            &&& row(after.items, p.item_id).equipped_slot is None
            &&& p.to_character_id is Some ==> place == Place::Holder(p.to_character_id->0)
            &&& p.to_zone_location_id is Some ==> place == Place::Zone(p.to_zone_location_id->0)
            &&& p.to_container_item_id is Some ==> place == Place::Container(p.to_container_item_id->0)
            &&& p.to_character_id matches Some(c) ==> carried(content, after.items, c) * 100 <= capacity(
                content,
                row(w.characters, c),
            ) * content.encumbrance.overloaded_threshold_pct
        }),
{
    lemma_tables(w);
    lemma_item(w, p.item_id);
    let m = crate::inventory::moved(w, p);
    lemma_put_changes(w.items, m.items[index_of(w.items, p.item_id)]);
    if let Some(c) = p.to_character_id {
        law_transfer_moves_the_weight(w, content, p, c);
    }
}

/// Equipping and taking off change where an item is worn, and nothing else.
pub proof fn law_equipping_changes_the_slot(w: World, p: EquipParams, q: UnequipParams)
    requires
        w.wf(),
    ensures
        equip_refusal(w, p) is None ==> {
            &&& went(w, equipped(w, p), p.item_id, Place::Holder(p.character_id))
            &&& row(equipped(w, p).items, p.item_id).equipped_slot == Some(p.slot@)
        },
        unequip_refusal(w, q) is None ==> {
            &&& went(w, unequipped(w, q), q.item_id, Place::Holder(q.character_id))
            &&& row(unequipped(w, q).items, q.item_id).equipped_slot is None
        },
{
    lemma_tables(w);
    if equip_refusal(w, p) is None {
        lemma_item(w, p.item_id);
        lemma_put_changes(w.items, equipped(w, p).items[index_of(w.items, p.item_id)]);
    }
    if unequip_refusal(w, q) is None {
        lemma_item(w, q.item_id);
        lemma_put_changes(w.items, unequipped(w, q).items[index_of(w.items, q.item_id)]);
    }
}

/// A new item is what was asked for, where it was asked for, one of it unless told otherwise; it
/// is added to those that there are.
pub proof fn law_new_item_is_as_asked_for(w: World, content: Content, p: CreateParams)
    requires
        w.wf(),
        w.room(),
        create_refusal(w, content, p) is None,
    ensures
        ({
            let after = item_made(w, p);
            let it = row(after.items, next_id(w.items));
            &&& listed(after.items, next_id(w.items))
            &&& after.items == w.items.push(it)
            &&& it.base_kind == p.base_kind@
            &&& it.name == opt_text(p.name)
            &&& it.material == opt_text(p.material)
            &&& it.material_tier == p.material_tier
            &&& it.quality == opt_text(p.quality)
            &&& p.quantity is Some ==> it.quantity == p.quantity->0
            &&& p.quantity is None ==> it.quantity == 1
            &&& it.quantity >= 1
            &&& it.equipped_slot is None
            &&& p.holder_character_id is Some ==> it.place == Place::Holder(p.holder_character_id->0)
            &&& p.zone_location_id is Some ==> it.place == Place::Zone(p.zone_location_id->0)
            &&& p.container_item_id is Some ==> it.place == Place::Container(p.container_item_id->0)
            &&& content.base(p.base_kind@) is Some
            &&& it.quantity > 1 ==> content.item_bases@[content.base(p.base_kind@)->0].stackable
        }),
{
    lemma_tables(w);
    lemma_push(w.items, crate::inventory::made_item(w, p));
}

// ── Looking ──

/// A list of what a character holds has one more entry for one more item that it holds, which
/// says what the item is, and none for any other.
pub proof fn law_list_has_what_is_held(
    content: Content,
    items: Seq<Item<Seq<char>>>,
    it: Item<Seq<char>>,
    id: i64,
)
    requires
        i128::MIN <= item_weight(content, it) <= i128::MAX,
        i128::MIN <= item_value(content, it) <= i128::MAX,
    ensures
        ({
            let before = held(content, items, id);
            let after = held(content, items.push(it), id);
            &&& held(content, Seq::empty(), id).len() == 0
            &&& it.place != Place::Holder(id) ==> after == before
            &&& it.place == Place::Holder(id) ==> {
                let x = after.last();
                &&& after == before.push(x)
                &&& x.id == it.id
                &&& x.base_kind == it.base_kind
                &&& x.name == it.name
                &&& x.material == it.material
                &&& x.material_tier == it.material_tier
                &&& x.quality == it.quality
                &&& x.quantity == it.quantity
                &&& x.equipped_slot == it.equipped_slot
                &&& x.effective_weight_lb == item_weight(content, it)
                &&& x.effective_value_gp == item_value(content, it)
            }
        }),
{
    assert(items.push(it).drop_last() =~= items);
}

// ── Containers ──

proof fn lemma_walk(w: World, start: i64, item: i64, at: i64, steps: nat, m: nat)
    requires
        steps + m <= 32,
        outward(w, at, m) is None,
        forall|j: nat| j < m ==> #[trigger] outward(w, at, j) != Some(item),
    ensures
        chain_refusal(w, start, item, Some(at), steps) is None,
    decreases m,
{
    assert(outward(w, at, 0) == Some(at));
    assert(m > 0);
    lemma_outward_from(w, at, m);
    if let Some(x) = inside(w, at) {
        assert forall|j: nat| j < m - 1 implies #[trigger] outward(w, x, j) != Some(item) by {
            lemma_outward_from(w, at, j + 1);
            assert(outward(w, at, j + 1) != Some(item));
        }
        lemma_walk(w, start, item, x, steps + 1, (m - 1) as nat);
    }
}

proof fn lemma_long_walk(w: World, start: i64, item: i64, at: i64, steps: nat, m: nat)
    requires
        steps + m >= 32,
        outward(w, at, m) is Some,
    ensures
        chain_refusal(w, start, item, Some(at), steps) is Some,
    decreases m,
{
    if m > 0 && at != item && steps + 1 <= 32 {
        lemma_outward_from(w, at, m);
        lemma_long_walk(w, start, item, inside(w, at)->0, steps + 1, (m - 1) as nat);
    }
}

/// An item can be laid in any container that lies in fewer than 32 others, unless the container
/// lies in the item, however deep; and in no other.
pub proof fn law_containers_nest(w: World, content: Content, p: TransferParams, c: i64, m: nat)
    requires
        p.to_container_item_id == Some(c),
        p.to_character_id is None,
        p.to_zone_location_id is None,
        c != p.item_id,
        listed(w.items, p.item_id),
        listed(w.items, c),
    ensures
        m <= 32 && outward(w, c, m) is None && (forall|j: nat|
            j < m ==> #[trigger] outward(w, c, j) != Some(p.item_id)) ==> transfer_refusal(w, content, p) is None,
        m >= 32 && outward(w, c, m) is Some ==> transfer_refusal(w, content, p) is Some,
        outward(w, c, m) == Some(p.item_id) ==> transfer_refusal(w, content, p) is Some,
{
    if m <= 32 && outward(w, c, m) is None && (forall|j: nat|
        j < m ==> #[trigger] outward(w, c, j) != Some(p.item_id)) {
        lemma_walk(w, c, p.item_id, c, 0, m);
    }
    if m >= 32 && outward(w, c, m) is Some {
        lemma_long_walk(w, c, p.item_id, c, 0, m);
    }
    if outward(w, c, m) == Some(p.item_id) && transfer_refusal(w, content, p) is None {
        lemma_chain(w, w, c, p.item_id, c, 0, m);
    }
}

} // verus!
