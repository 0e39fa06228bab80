//! Laws of barter: what things are worth, and what is a good offer.

use vstd::prelude::*;
use crate::barter::{
    accepted, bargained, deal, derived_dc, exchange_ok, exchange_refusal, persuasion, side_value, Deal,
    ExchangeParams, ExchangeResult,
};
use crate::campaign::{row, World};
use crate::checks::{basis, check_ok, total_of, CheckQuery, CheckResult, CheckRolls};
use crate::content::Content;
use crate::inventory::item_value;

verus! {

/// What a side is worth adds up: some items and some more are worth what the ones and the others
/// are worth; nothing is worth nothing.
pub proof fn law_values_add_up(w: World, content: Content, a: Seq<i64>, b: Seq<i64>)
    ensures
        side_value(w, content, a + b) == side_value(w, content, a) + side_value(w, content, b),
        side_value(w, content, Seq::empty()) == 0,
    decreases b.len(),
{
    if b.len() == 0 {
        assert(a + b =~= a);
    } else {
        law_values_add_up(w, content, a, b.drop_last());
        assert((a + b).drop_last() =~= a + b.drop_last());
    }
}

/// An item alone is worth the value of its kind as often as there are pieces of it.
pub proof fn law_value_of_one_item(w: World, content: Content, id: i64, k: int)
    requires
        content.base(row(w.items, id).base_kind) == Some(k),
    ensures
        side_value(w, content, seq![id]) == content.item_bases@[k].base_value_gp * row(w.items, id).quantity,
{
    assert(seq![id].drop_last() =~= Seq::<i64>::empty());
    assert(side_value(w, content, seq![id].drop_last()) == 0);
}

/// What is told of an exchange as offered and as asked for is what the items are worth, so that
/// one item more in the offer makes it larger by the value of that item.
pub proof fn law_told_values_are_true(
    w: World,
    content: Content,
    p: ExchangeParams,
    q: ExchangeParams,
    id: i64,
    a: CheckRolls,
    b: CheckRolls,
    r: ExchangeResult,
    s: ExchangeResult,
    after: World,
    later: World,
)
    requires
        exchange_ok(w, content, p, a, after, r),
        exchange_ok(w, content, q, b, later, s),
        q.offered_item_ids@ == p.offered_item_ids@.push(id),
        q.requested_item_ids@ == p.requested_item_ids@.push(id),
    ensures
        s.offered_value_gp - r.offered_value_gp == item_value(content, row(w.items, id)),
        s.requested_value_gp - r.requested_value_gp == item_value(content, row(w.items, id)),
{
    assert(p.offered_item_ids@.push(id).drop_last() =~= p.offered_item_ids@);
    assert(p.requested_item_ids@.push(id).drop_last() =~= p.requested_item_ids@);
}

/// Whether an offer is good depends only on how it compares to what is asked for: so many times
/// both is as good. An offer of the same worth, or of nine tenths, is always fair, and so is any
/// where what is asked for is worth nothing; anything below half is refused; anything between is
/// to be argued about, and so is any offer for which the difficulty is given.
pub proof fn law_what_is_a_good_offer(offered: int, requested: int, k: int, dc: i32)
    requires
        k > 0,
    ensures
        deal(k * offered, k * requested, None) == deal(offered, requested, None),
        requested > 0 && offered >= requested ==> deal(offered, requested, None) == Deal::Fair,
        requested <= 0 ==> deal(offered, requested, None) == Deal::Fair,
        requested > 0 && 10 * offered == 9 * requested ==> deal(offered, requested, None) == Deal::Fair,
        requested > 0 && 10 * offered < 9 * requested && 2 * offered >= requested ==> deal(offered, requested, None)
            == Deal::Open,
        requested > 0 && 2 * offered < requested ==> deal(offered, requested, None) == Deal::Refused,
        deal(offered, requested, Some(dc)) == Deal::Open,
{
    let (a, b) = (k * offered, k * requested);
    assert((b > 0) == (requested > 0)) by (nonlinear_arith)
        requires
            k > 0,
            b == k * requested,
    ;
    assert((2 * a < b) == (2 * offered < requested)) by (nonlinear_arith)
        requires
            k > 0,
            a == k * offered,
            b == k * requested,
    ;
    assert((10 * a >= 9 * b) == (10 * offered >= 9 * requested)) by (nonlinear_arith)
        requires
            k > 0,
            a == k * offered,
            b == k * requested,
    ;
}

/// At nine tenths persuading would take 10, and each tenth of what is asked for that is missing
/// makes it harder by 2; a part of a tenth counts as a whole one.
pub proof fn law_each_tenth_makes_it_harder(offered: int, tenth: int, part: int)
    requires
        tenth > 0,
        0 <= part < tenth,
    ensures
        derived_dc(9 * tenth, 10 * tenth) == 10,
        derived_dc(offered - tenth, 10 * tenth) == derived_dc(offered, 10 * tenth) + 2,
        derived_dc(8 * tenth + part, 10 * tenth) == 12,
{
    let r = 10 * tenth;
    assert(9 * r - 10 * (9 * tenth) + r - 1 == 0 * r + (r - 1));
    vstd::arithmetic::div_mod::lemma_fundamental_div_mod_converse(r - 1, r, 0, r - 1);
    let x = 9 * r - 10 * offered + r - 1;
    assert(9 * r - 10 * (offered - tenth) + r - 1 == x + r);
    vstd::arithmetic::div_mod::lemma_div_plus_one(x, r);
    assert((x + r) / r == x / r + 1) by {
        assert(x + r == r + x);
    }
    let y = 9 * r - 10 * (8 * tenth + part) + r - 1;
    assert(y == 1 * r + (r - 10 * part - 1));
    vstd::arithmetic::div_mod::lemma_fundamental_div_mod_converse(y, r, 1, r - 10 * part - 1);
}

/// A fair offer is accepted without a roll and a bad one refused without one. One that is argued
/// about is accepted if the check of persuasion reaches the difficulty, which is the one that
/// was given, if one was. What is told is what happened.
pub proof fn law_offers_are_settled(
    w: World,
    content: Content,
    p: ExchangeParams,
    rolls: CheckRolls,
    after: World,
    r: ExchangeResult,
)
    requires
        exchange_refusal(w, content, p) is None,
        exchange_ok(w, content, p, rolls, after, r),
        i64::MIN <= total_of(basis(w, content, persuasion(p, r.check_dc)), rolls) <= i64::MAX,
    ensures
        r.resolution@ == "auto_accept"@ ==> r.outcome@ == "accepted"@ && r.check_dc is None && r.check_roll_total
            is None,
        r.resolution@ == "refused"@ ==> r.outcome@ == "declined"@ && r.check_dc is None && after.items == w.items,
        r.resolution@ == "persuasion_check"@ ==> {
            &&& r.check_dc is Some && r.check_roll_total is Some
            &&& p.dc_override is Some ==> r.check_dc == p.dc_override
            &&& !basis(w, content, persuasion(p, r.check_dc)).auto_fail ==> (r.outcome@ == "accepted"@
                <==> r.check_roll_total->0 >= r.check_dc->0)
            &&& basis(w, content, persuasion(p, r.check_dc)).auto_fail ==> r.outcome@ == "declined"@
        },
        r.resolution@ == "persuasion_check"@ || r.resolution@ == "auto_accept"@ || r.resolution@ == "refused"@,
        r.outcome@ == "declined"@ ==> after.items == w.items,
        after.characters == w.characters,
{
    reveal_strlit("auto_accept");
    reveal_strlit("refused");
    reveal_strlit("persuasion_check");
    reveal_strlit("accepted");
    reveal_strlit("declined");
    assert("accepted"@[0] == 'a' && "declined"@[0] == 'd');
}

/// Trading changes who holds an item, and takes it off whoever wears it; it neither makes items
/// nor loses them, and an item stays what it is.
pub proof fn law_trade_keeps_the_items(w: World, content: Content, p: ExchangeParams, rolls: CheckRolls, i: int)
    requires
        0 <= i < w.items.len(),
    ensures
        ({
            let v = bargained(w, content, p, rolls);
            let before = w.items[i];
            let after = v.items[i];
            &&& v.items.len() == w.items.len()
            &&& after.id == before.id && after.quantity == before.quantity && after.base_kind == before.base_kind
            &&& after.name == before.name
            &&& after.place == before.place ==> after.equipped_slot == before.equipped_slot
                || after.equipped_slot is None
            &&& accepted(w, content, p, rolls) && (p.offered_item_ids@.contains(before.id)
                || p.requested_item_ids@.contains(before.id)) ==> after.equipped_slot is None
        }),
{
}

/// What is argued about is settled by a plain check of persuasion, by the one who offers against
/// the one who is asked: the total is that of such a check, and the offer is accepted if the
/// check succeeds.
pub proof fn law_arguing_is_a_check_of_persuasion(
    w: World,
    content: Content,
    p: ExchangeParams,
    q: CheckQuery,
    rolls: CheckRolls,
    after: World,
    later: World,
    r: ExchangeResult,
    s: CheckResult,
)
    requires
        exchange_ok(w, content, p, rolls, after, r),
        r.check_dc is Some,
        q.character_id == p.character_id,
        q.kind == "skill_check"@,
        q.target_key == "persuasion"@,
        q.ability is None,
        q.target_character_id == Some(p.merchant_character_id),
        q.dc == r.check_dc,
        q.modifiers.len() == 0,
        q.advantage is None,
        q.disadvantage is None,
        check_ok(w, content, q, rolls, later, s),
    ensures
        r.check_roll_total == Some(s.total),
        r.outcome@ == "accepted"@ <==> s.success == Some(true),
        after.events.len() == w.events.len() + 2,
        after.events[w.events.len() as int] == later.events.last(),
{
    reveal_strlit("accepted");
    reveal_strlit("declined");
    assert("accepted"@[0] == 'a' && "declined"@[0] == 'd');
    assert(q.modifiers =~= Seq::empty());
    assert(q == persuasion(p, r.check_dc));
}

} // verus!
