//! Barter: items for items, at a price that can be argued about.
//!
//! An offer of at least nine tenths of what is asked for is taken as it is. One of less than
//! half is turned down. In between the character has to persuade the merchant, and the more
//! is missing, the harder that is. Items change hands only where the offer is accepted.

use vstd::prelude::*;
use crate::campaign::{
    find, lemma_index, lemma_item, lemma_tables, listed, next_id, row, Campaign, World,
};
use crate::checks::{
    basis, check_entry, check_refusal, check_rolls_ok, check_sums_fit, draw_rolls, resolve_with, success_of,
    sums_fit, total_of, try_check, CheckQuery, CheckRolls, ResolveCheckParams,
};
use crate::combat::is_among;
use crate::content::Content;
use crate::error::{Error, Fault};
use crate::events::{
    both, copy_ints, entry, entry_view, field, field_view, fields8, opt_int, opt_int32, opt_int32_field,
    opt_int_field, pair, text_field,
};
use crate::inventory::{effective_value_for_item, holder, holder_of, item_value};
use crate::rows::{views, Event, EventItem, EventRole, EventView, Item, Place, Value, ValueView};
use crate::text::{decimal, int_text, say_tenths, tenths_text, Thousandths};
use crate::world::{campaign_hour, current_campaign_hour};

verus! {

#[derive(Debug, Clone, PartialEq, Eq)]
pub struct ExchangeParams {
    /// The character that offers.
    pub character_id: i64,
    /// Whom it bargains with.
    pub merchant_character_id: i64,
    /// What is offered. The character holds all of it.
    pub offered_item_ids: Vec<i64>,
    /// What is asked for. The merchant holds all of it.
    pub requested_item_ids: Vec<i64>,
    /// The difficulty of persuading the merchant, in place of the one that the values give.
    pub dc_override: Option<i32>,
}

#[derive(Debug, Clone, PartialEq, Eq)]
pub struct ExchangeResult {
    /// `accepted` or `declined`.
    pub outcome: String,
    pub offered_value_gp: Thousandths,
    pub requested_value_gp: Thousandths,
    /// `auto_accept`, `persuasion_check` or `refused`.
    pub resolution: String,
    pub check_dc: Option<i32>,
    pub check_roll_total: Option<i64>,
    pub event_id: i64,
}

/// What the merchant makes of an offer.
#[derive(Debug, Clone, Copy, PartialEq, Eq, Structural)]
pub enum Deal {
    /// Not worth talking about.
    Refused,
    /// Good as it is.
    Fair,
    /// To be argued about.
    Open,
}

// ── The two sides ──

/// What is wrong with an item that the holder puts up.
pub open spec fn item_refusal(w: World, content: Content, holder: i64, id: i64) -> Option<Error<Seq<char>>> {
    if !listed(w.items, id) {
        Some(Error::ItemNotFound { id })
    } else if row(w.items, id).place != Place::Holder(holder) {
        Some(Error::NotHeld { item: id, character: holder, holder: holder_of(row(w.items, id).place) })
    } else if content.base(row(w.items, id).base_kind) is None {
        Some(Error::ItemKindUnknown { item: id, kind: row(w.items, id).base_kind })
    } else {
        None
    }
}

/// What is wrong with the first of the items with which something is wrong.
pub open spec fn side_refusal(w: World, content: Content, holder: i64, ids: Seq<i64>) -> Option<
    Error<Seq<char>>,
>
    decreases ids.len(),
{
    if ids.len() == 0 {
        None
    } else {
        match side_refusal(w, content, holder, ids.drop_last()) {
            Some(e) => Some(e),
            None => item_refusal(w, content, holder, ids.last()),
        }
    }
}

/// What the items are worth together.
pub open spec fn side_value(w: World, content: Content, ids: Seq<i64>) -> int
    decreases ids.len(),
{
    if ids.len() == 0 {
        0
    } else {
        side_value(w, content, ids.drop_last()) + item_value(content, row(w.items, ids.last()))
    }
}

/// The first item that is named a second time.
pub open spec fn named_twice(ids: Seq<i64>) -> Option<i64>
    decreases ids.len(),
{
    if ids.len() == 0 {
        None
    } else {
        match named_twice(ids.drop_last()) {
            Some(id) => Some(id),
            None => if ids.drop_last().contains(ids.last()) {
                Some(ids.last())
            } else {
                None
            },
        }
    }
}

// ── The deal ──

/// Whether the offer is worth at least nine tenths of what is asked for.
pub open spec fn fair(offered: int, requested: int) -> bool {
    requested <= 0 || 10 * offered >= 9 * requested
}

/// What the merchant makes of the offer. Where the difficulty is given there is always an
/// argument.
pub open spec fn deal(offered: int, requested: int, dc_override: Option<i32>) -> Deal {
    if dc_override is Some {
        Deal::Open
    } else if requested > 0 && 2 * offered < requested {
        Deal::Refused
    } else if fair(offered, requested) {
        Deal::Fair
    } else {
        Deal::Open
    }
}

/// How hard the merchant is to persuade: 10, and 2 more for each tenth, or part of one, that
/// the offer falls short of the fair one.
pub open spec fn derived_dc(offered: int, requested: int) -> int {
    10 + 2 * ((9 * requested - 10 * offered + requested - 1) / requested)
}

pub open spec fn offered_value(w: World, content: Content, p: ExchangeParams) -> int {
    side_value(w, content, p.offered_item_ids@)
}

pub open spec fn requested_value(w: World, content: Content, p: ExchangeParams) -> int {
    side_value(w, content, p.requested_item_ids@)
}

pub open spec fn deal_of(w: World, content: Content, p: ExchangeParams) -> Deal {
    deal(offered_value(w, content, p), requested_value(w, content, p), p.dc_override)
}

/// The difficulty of persuading the merchant.
pub open spec fn dc_of(w: World, content: Content, p: ExchangeParams) -> i32 {
    match p.dc_override {
        Some(n) => n,
        None => derived_dc(offered_value(w, content, p), requested_value(w, content, p)) as i32,
    }
}

/// The check by which the character persuades the merchant.
pub open spec fn persuasion(p: ExchangeParams, dc: Option<i32>) -> CheckQuery {
    CheckQuery {
        character_id: p.character_id,
        kind: "skill_check"@,
        target_key: "persuasion"@,
        ability: None,
        target_character_id: Some(p.merchant_character_id),
        dc,
        modifiers: Seq::empty(),
        advantage: None,
        disadvantage: None,
    }
}

/// What is wrong with naming an item twice: the entry of the log, which has the given id,
/// cannot name it twice in one role.
pub open spec fn repeat_refusal(p: ExchangeParams, event_id: i64) -> Option<Error<Seq<char>>> {
    match named_twice(p.offered_item_ids@) {
        Some(item_id) => Some(
            Error::EventItemRow { event_id, item_id, role: "offered"@, fault: Fault::Unique },
        ),
        None => match named_twice(p.requested_item_ids@) {
            Some(item_id) => Some(
                Error::EventItemRow { event_id, item_id, role: "requested"@, fault: Fault::Unique },
            ),
            None => None,
        },
    }
}

/// What is wrong with an offer. The first step that cannot be made is named: the two sides are
/// valued, then the trade or the check is made, then the bargain goes into the log. The entry
/// of a check stands in the log before that of the bargain.
pub open spec fn exchange_refusal(w: World, content: Content, p: ExchangeParams) -> Option<Error<Seq<char>>> {
    let offered = p.offered_item_ids@;
    let requested = p.requested_item_ids@;
    if offered.len() == 0 && requested.len() == 0 {
        Some(Error::BarterEmpty)
    } else if p.character_id == p.merchant_character_id {
        Some(Error::BarterSelf)
    } else if side_refusal(w, content, p.character_id, offered) is Some {
        side_refusal(w, content, p.character_id, offered)
    } else if side_refusal(w, content, p.merchant_character_id, requested) is Some {
        side_refusal(w, content, p.merchant_character_id, requested)
    } else {
        match deal_of(w, content, p) {
            Deal::Refused => if !listed(w.characters, p.character_id) {
                Some(
                    Error::EventParticipantRow {
                        event_id: next_id(w.events),
                        character_id: p.character_id,
                        role: "actor"@,
                        fault: Fault::ForeignKey,
                    },
                )
            } else {
                repeat_refusal(p, next_id(w.events))
            },
            Deal::Fair => if !listed(w.characters, p.merchant_character_id) {
                Some(Error::BarterOffered { item: offered[0] })
            } else if !listed(w.characters, p.character_id) {
                Some(Error::BarterRequested { item: requested[0] })
            } else {
                repeat_refusal(p, next_id(w.events))
            },
            Deal::Open => match check_refusal(w, content, persuasion(p, Some(dc_of(w, content, p)))) {
                Some(e) => Some(Error::BarterCheck { cause: e.text() }),
                None => repeat_refusal(p, (next_id(w.events) + 1) as i64),
            },
        }
    }
}

// ── What comes of it ──

/// An item after the trade.
pub open spec fn swapped(p: ExchangeParams, now: i64, r: Item<Seq<char>>) -> Item<Seq<char>> {
    if p.offered_item_ids@.contains(r.id) {
        Item { place: Place::Holder(p.merchant_character_id), equipped_slot: None, updated_at: now, ..r }
    } else if p.requested_item_ids@.contains(r.id) {
        Item { place: Place::Holder(p.character_id), equipped_slot: None, updated_at: now, ..r }
    } else {
        r
    }
}

/// The campaign after the trade.
pub open spec fn traded(w: World, p: ExchangeParams, now: i64) -> World {
    World { items: Seq::new(w.items.len(), |i: int| swapped(p, now, w.items[i])), ..w }
}

pub open spec fn refs(ids: Seq<i64>, role: Seq<char>) -> Seq<EventItem<Seq<char>>> {
    Seq::new(ids.len(), |k: int| EventItem { item_id: ids[k], role })
}

pub open spec fn bargain_entry(
    w: World,
    content: Content,
    p: ExchangeParams,
    outcome: Seq<char>,
    resolution: Seq<char>,
    dc: Option<i32>,
    total: Option<i64>,
) -> EventView {
    let offered = offered_value(w, content, p);
    let requested = requested_value(w, content, p);
    EventView {
        items: refs(p.offered_item_ids@, "offered"@) + refs(p.requested_item_ids@, "requested"@),
        ..entry_view(
            "social.bargain"@,
            campaign_hour(w),
            "Barter between character id="@ + int_text(p.character_id as int) + " and merchant id="@
                + int_text(p.merchant_character_id as int) + ": "@ + outcome + " via "@ + resolution
                + " (offered "@ + tenths_text(offered) + " gp vs requested "@ + tenths_text(requested)
                + " gp)"@,
            seq![
                field_view("offered_value_gp"@, ValueView::Thousandths(offered)),
                field_view("requested_value_gp"@, ValueView::Thousandths(requested)),
                field_view("outcome"@, ValueView::Text(outcome)),
                field_view("resolution"@, ValueView::Text(resolution)),
                field_view("check_dc"@, opt_int32(dc)),
                field_view("check_roll_total"@, opt_int(total)),
                field_view("offered_item_ids"@, ValueView::Ints(p.offered_item_ids@)),
                field_view("requested_item_ids"@, ValueView::Ints(p.requested_item_ids@)),
            ],
            pair(p.character_id, EventRole::Actor, p.merchant_character_id, EventRole::Target),
        )
    }
}

/// The total of the check by which the character tries to persuade the merchant.
pub open spec fn argued(w: World, content: Content, p: ExchangeParams, rolls: CheckRolls) -> int {
    total_of(basis(w, content, persuasion(p, Some(dc_of(w, content, p)))), rolls)
}

/// Whether the offer is accepted.
pub open spec fn accepted(w: World, content: Content, p: ExchangeParams, rolls: CheckRolls) -> bool {
    match deal_of(w, content, p) {
        Deal::Refused => false,
        Deal::Fair => true,
        Deal::Open => success_of(
            basis(w, content, persuasion(p, Some(dc_of(w, content, p)))),
            Some(dc_of(w, content, p)),
            argued(w, content, p, rolls),
        ) == Some(true),
    }
}

/// How the offer was settled.
pub open spec fn resolution(d: Deal) -> Seq<char> {
    match d {
        Deal::Refused => "refused"@,
        Deal::Fair => "auto_accept"@,
        Deal::Open => "persuasion_check"@,
    }
}

pub open spec fn outcome(yes: bool) -> Seq<char> {
    if yes {
        "accepted"@
    } else {
        "declined"@
    }
}

pub open spec fn shown_dc(w: World, content: Content, p: ExchangeParams) -> Option<i32> {
    if deal_of(w, content, p) == Deal::Open {
        Some(dc_of(w, content, p))
    } else {
        None
    }
}

pub open spec fn shown_total(w: World, content: Content, p: ExchangeParams, rolls: CheckRolls) -> Option<i64> {
    if deal_of(w, content, p) == Deal::Open {
        Some(argued(w, content, p, rolls) as i64)
    } else {
        None
    }
}

/// The campaign after the persuading, if there is any.
pub open spec fn after_talk(w: World, content: Content, p: ExchangeParams, rolls: CheckRolls) -> World {
    if deal_of(w, content, p) == Deal::Open {
        let q = persuasion(p, Some(dc_of(w, content, p)));
        w.with_event(check_entry(basis(w, content, q), q, rolls))
    } else {
        w
    }
}

/// The campaign after the bargain.
pub open spec fn bargained(w: World, content: Content, p: ExchangeParams, rolls: CheckRolls) -> World {
    let talked = after_talk(w, content, p, rolls);
    let settled = if accepted(w, content, p, rolls) {
        traded(talked, p, campaign_hour(w))
    } else {
        talked
    };
    settled.with_event(
        bargain_entry(
            w,
            content,
            p,
            outcome(accepted(w, content, p, rolls)),
            resolution(deal_of(w, content, p)),
            shown_dc(w, content, p),
            shown_total(w, content, p, rolls),
        ),
    )
}

/// What comes of an exchange.
pub open spec fn exchange_ok(
    w: World,
    content: Content,
    p: ExchangeParams,
    rolls: CheckRolls,
    after: World,
    r: ExchangeResult,
) -> bool {
    &&& r.outcome@ == outcome(accepted(w, content, p, rolls))
    &&& r.offered_value_gp == offered_value(w, content, p)
    &&& r.requested_value_gp == requested_value(w, content, p)
    &&& r.resolution@ == resolution(deal_of(w, content, p))
    &&& r.check_dc == shown_dc(w, content, p)
    &&& r.check_roll_total == shown_total(w, content, p, rolls)
    &&& r.event_id == next_id(after_talk(w, content, p, rolls).events)
    &&& after == bargained(w, content, p, rolls)
}

// ── Execution ──

proof fn lemma_side_refusal(w: World, content: Content, holder: i64, ids: Seq<i64>, n: int)
    requires
        0 <= n <= ids.len(),
        side_refusal(w, content, holder, ids.take(n)) is Some,
    ensures
        side_refusal(w, content, holder, ids) == side_refusal(w, content, holder, ids.take(n)),
    decreases ids.len() - n,
{
    if n < ids.len() {
        assert(ids.take(n + 1).drop_last() =~= ids.take(n));
        lemma_side_refusal(w, content, holder, ids, n + 1);
    } else {
        assert(ids.take(n) =~= ids);
    }
}

proof fn lemma_named_twice(ids: Seq<i64>, n: int)
    requires
        0 <= n <= ids.len(),
        named_twice(ids.take(n)) is Some,
    ensures
        named_twice(ids) == named_twice(ids.take(n)),
    decreases ids.len() - n,
{
    if n < ids.len() {
        assert(ids.take(n + 1).drop_last() =~= ids.take(n));
        lemma_named_twice(ids, n + 1);
    } else {
        assert(ids.take(n) =~= ids);
    }
}

/// Whether each item of a side can be put up.
fn check_side(c: &Campaign, content: &Content, who: i64, ids: &Vec<i64>) -> (r: Result<(), Error>)
    requires
        c@.wf(),
    ensures
        match r {
            Ok(_) => {
                &&& side_refusal(c@, *content, who, ids@) is None
                &&& forall|k: int|
                    0 <= k < ids@.len() ==> {
                        &&& listed(c@.items, #[trigger] ids@[k])
                        &&& row(c@.items, ids@[k]).place == Place::Holder(who)
                    }
            },
            Err(e) => side_refusal(c@, *content, who, ids@) == Some(e@),
        },
{
    let mut i: usize = 0;
    while i < ids.len()
        invariant
            c@.wf(),
            i <= ids.len(),
            side_refusal(c@, *content, who, ids@.take(i as int)) is None,
            forall|k: int|
                0 <= k < i ==> {
                    &&& listed(c@.items, #[trigger] ids@[k])
                    &&& row(c@.items, ids@[k]).place == Place::Holder(who)
                },
        decreases ids.len() - i,
    {
        let id: i64 = ids[i];
        let ghost before = ids@.take(i as int);
        proof {
            lemma_tables(c@);
            assert(ids@.take(i + 1).drop_last() =~= before);
            if item_refusal(c@, *content, who, id) is Some {
                lemma_side_refusal(c@, *content, who, ids@, i + 1);
            }
        }
        let k: usize = match find(&c.items, id) {
            Some(k) => k,
            None => {
                return Err(Error::ItemNotFound { id });
            },
        };
        let it = &c.items[k];
        proof {
            assert(row(c@.items, id) == it@);
        }
        let held = match it.place {
            Place::Holder(h) => h == who,
            _ => false,
        };
        if !held {
            return Err(Error::NotHeld { item: id, character: who, holder: holder(it.place) });
        }
        if content.find_base(it.base_kind.as_str()).is_none() {
            return Err(Error::ItemKindUnknown { item: id, kind: it.base_kind.clone() });
        }
        i = i + 1;
    }
    assert(ids@.take(i as int) =~= ids@);
    Ok(())
}

/// The first item that is named a second time.
fn find_twice(ids: &Vec<i64>) -> (r: Option<i64>)
    ensures
        r == named_twice(ids@),
        r is None ==> ids@.no_duplicates(),
{
    let mut i: usize = 0;
    while i < ids.len()
        invariant
            i <= ids.len(),
            named_twice(ids@.take(i as int)) is None,
            forall|a: int, b: int| #![trigger ids@[a], ids@[b]] 0 <= a < b < i ==> ids@[a] != ids@[b],
        decreases ids.len() - i,
    {
        let ghost before = ids@.take(i as int);
        assert(ids@.take(i + 1).drop_last() =~= before);
        let mut j: usize = 0;
        let mut twice = false;
        while j < i
            invariant
                j <= i < ids.len(),
                before == ids@.take(i as int),
                twice ==> before.contains(ids@[i as int]),
                !twice ==> forall|k: int| 0 <= k < j ==> #[trigger] ids@[k] != ids@[i as int],
            decreases i - j,
        {
            if ids[j] == ids[i] {
                twice = true;
                assert(before[j as int] == ids@[i as int]);
            }
            j = j + 1;
        }
        if twice {
            proof {
                lemma_named_twice(ids@, i + 1);
            }
            return Some(ids[i]);
        }
        proof {
            assert(!before.contains(ids@[i as int])) by {
                if before.contains(ids@[i as int]) {
                    let k = choose|k: int| 0 <= k < before.len() && before[k] == ids@[i as int];
                    assert(ids@[k] == ids@[i as int]);
                }
            }
        }
        i = i + 1;
    }
    assert(ids@.take(i as int) =~= ids@);
    None
}

/// Whether no item is named twice on one side.
fn check_repeats(p: &ExchangeParams, event_id: i64) -> (r: Result<(), Error>)
    ensures
        match r {
            Ok(_) => {
                &&& repeat_refusal(*p, event_id) is None
                &&& p.offered_item_ids@.no_duplicates()
                &&& p.requested_item_ids@.no_duplicates()
            },
            Err(e) => repeat_refusal(*p, event_id) == Some(e@),
        },
{
    if let Some(item_id) = find_twice(&p.offered_item_ids) {
        return Err(
            Error::EventItemRow { event_id, item_id, role: "offered".to_owned(), fault: Fault::Unique },
        );
    }
    if let Some(item_id) = find_twice(&p.requested_item_ids) {
        return Err(
            Error::EventItemRow { event_id, item_id, role: "requested".to_owned(), fault: Fault::Unique },
        );
    }
    Ok(())
}

/// The most items that a side can name, so that what they are worth together is a machine
/// number.
pub const MAX_NAMED: usize = 0x7fff_ffff;

/// Whether neither side names more items than can be added up.
pub open spec fn names_fit(p: ExchangeParams) -> bool {
    p.offered_item_ids@.len() <= MAX_NAMED && p.requested_item_ids@.len() <= MAX_NAMED
}

/// The most that the items of a side can be worth together.
pub const MAX_SIDE: i128 = 0x4000_0000_0000_0000_0000_0000_0000_0000;

/// What the items of a side are worth.
fn sum_side_value(c: &Campaign, content: &Content, ids: &Vec<i64>) -> (r: Thousandths)
    requires
        c@.wf(),
        c@.room(),
        content.measures_ok(),
        ids@.len() <= MAX_NAMED,
        forall|k: int| 0 <= k < ids@.len() ==> listed(c@.items, #[trigger] ids@[k]),
    ensures
        r == side_value(c@, *content, ids@),
        -MAX_SIDE < r < MAX_SIDE,
{
    let mut total: Thousandths = 0;
    let mut i: usize = 0;
    while i < ids.len()
        invariant
            c@.wf(),
            content.measures_ok(),
            forall|k: int| 0 <= k < ids@.len() ==> listed(c@.items, #[trigger] ids@[k]),
            ids@.len() <= MAX_NAMED,
            i <= ids.len(),
            total == side_value(c@, *content, ids@.take(i as int)),
            -(i * 0x8000_0000_0000_0000_0000_0000) <= total <= i * 0x8000_0000_0000_0000_0000_0000,
        decreases ids.len() - i,
    {
        let id: i64 = ids[i];
        proof {
            lemma_tables(c@);
            assert(listed(c@.items, ids@[i as int]));
            assert(ids@.take(i + 1).drop_last() =~= ids@.take(i as int));
            lemma_item(c@, id);
        }
        if let Some(k) = find(&c.items, id) {
            let it = &c.items[k];
            assert(row(c@.items, id) == it@);
            total = total + effective_value_for_item(it, content);
        }
        i = i + 1;
    }
    assert(ids@.take(i as int) =~= ids@);
    total
}

/// Whether the offer is worth so many tenths of what is asked for.
fn covers(offered: Thousandths, requested: Thousandths, tenths: i128) -> (r: bool)
    requires
        -MAX_SIDE < offered < MAX_SIDE,
        0 <= requested < MAX_SIDE,
        0 <= tenths <= 9,
    ensures
        r == (10 * offered >= tenths * requested),
{
    let a: i128 = requested / 10;
    let b: i128 = requested % 10;
    let ghost t = tenths as int;
    assert(requested == 10 * a + b);
    assert(0 <= t * a <= 9 * a && 0 <= t * b <= 81) by (nonlinear_arith)
        requires
            0 <= t <= 9,
            0 <= a,
            0 <= b <= 9,
    ;
    assert(t * requested == 10 * (t * a) + t * b) by (nonlinear_arith)
        requires
            requested == 10 * a + b,
    ;
    let d: i128 = offered - tenths * a;
    d >= 0 && (d >= 9 || 10 * d >= tenths * b)
}

/// How hard the merchant is to persuade.
fn derive_dc(offered: Thousandths, requested: Thousandths) -> (r: i32)
    requires
        -MAX_SIDE < offered < MAX_SIDE,
        0 < requested < MAX_SIDE,
        requested <= 2 * offered,
        10 * offered < 9 * requested,
    ensures
        r == derived_dc(offered as int, requested as int),
        12 <= r <= 18,
{
    let ghost gap = 9 * requested - 10 * offered;
    if covers(offered, requested, 8) {
        proof {
            lemma_steps(gap, requested as int, 1);
        }
        12
    } else if covers(offered, requested, 7) {
        proof {
            lemma_steps(gap, requested as int, 2);
        }
        14
    } else if covers(offered, requested, 6) {
        proof {
            lemma_steps(gap, requested as int, 3);
        }
        16
    } else {
        proof {
            lemma_steps(gap, requested as int, 4);
        }
        18
    }
}

/// A gap of more than `k - 1` and at most `k` times the step takes `k` steps.
proof fn lemma_steps(gap: int, step: int, k: int)
    requires
        step > 0,
        (k - 1) * step < gap <= k * step,
    ensures
        (gap + step - 1) / step == k,
{
    let r = gap + step - 1 - k * step;
    assert(0 <= r < step && gap + step - 1 == k * step + r) by (nonlinear_arith)
        requires
            r == gap + step - 1 - k * step,
            (k - 1) * step < gap <= k * step,
    ;
    vstd::arithmetic::div_mod::lemma_fundamental_div_mod_converse(gap + step - 1, step, k, r);
}

fn make_check(p: &ExchangeParams, dc: Option<i32>) -> (r: ResolveCheckParams)
    ensures
        r@ == persuasion(*p, dc),
{
    let r = ResolveCheckParams {
        character_id: p.character_id,
        kind: "skill_check".to_owned(),
        target_key: "persuasion".to_owned(),
        ability: None,
        target_character_id: Some(p.merchant_character_id),
        dc,
        modifiers: Vec::new(),
        advantage: None,
        disadvantage: None,
    };
    assert(r@.modifiers =~= Seq::empty());
    r
}

/// Whether the numbers of the check by which the character would persuade the merchant are
/// numbers that a check can hold.
pub fn check_exchange_fits(c: &Campaign, content: &Content, p: &ExchangeParams) -> (r: bool)
    requires
        c@.wf(),
        c@.room(),
    ensures
        r == (names_fit(*p) && sums_fit(c@, *content, persuasion(*p, None))),
{
    p.offered_item_ids.len() <= MAX_NAMED && p.requested_item_ids.len() <= MAX_NAMED && check_sums_fit(
        c,
        content,
        &make_check(p, None),
    )
}

/// Moves what is offered to the merchant and what is asked for to the character.
fn execute_trade(c: &mut Campaign, p: &ExchangeParams, now: i64)
    requires
        old(c)@.wf(),
        listed(old(c)@.characters, p.character_id),
        listed(old(c)@.characters, p.merchant_character_id),
    ensures
        final(c)@.wf(),
        final(c)@ == traded(old(c)@, *p, now),
        forall|id: i64| #[trigger] listed(final(c)@.items, id) == listed(old(c)@.items, id),
{
    let ghost w = c@;
    let n: usize = c.items.len();
    let mut i: usize = 0;
    while i < n
        invariant
            i <= n,
            n == c.items.len(),
            n == w.items.len(),
            c@.wf(),
            c@ == (World { items: c@.items, ..w }),
            listed(w.characters, p.character_id),
            listed(w.characters, p.merchant_character_id),
            forall|id: i64| #[trigger] listed(c@.items, id) == listed(w.items, id),
            forall|j: int| 0 <= j < i ==> #[trigger] c@.items[j] == swapped(*p, now, w.items[j]),
            forall|j: int| i <= j < n ==> #[trigger] c@.items[j] == w.items[j],
        decreases n - i,
    {
        let mut it = c.items[i].copy();
        proof {
            assert(c@.items[i as int] == it@);
            assert(c@.item_ok(it@)) by {
                reveal(World::wf);
            }
        }
        if is_among(&p.offered_item_ids, it.id) {
            it.place = Place::Holder(p.merchant_character_id);
            it.equipped_slot = None;
            it.updated_at = now;
            c.set_item(i, it);
            assert(c@.items.len() == n);
        } else if is_among(&p.requested_item_ids, it.id) {
            it.place = Place::Holder(p.character_id);
            it.equipped_slot = None;
            it.updated_at = now;
            c.set_item(i, it);
            assert(c@.items.len() == n);
        }
        i = i + 1;
    }
    assert(c@.items =~= traded(w, *p, now).items);
}

fn list_refs(out: &mut Vec<EventItem>, ids: &Vec<i64>, role: &str)
    ensures
        views(final(out)@) == views(old(out)@) + refs(ids@, role@),
{
    let ghost before = views(out@);
    let ghost all = refs(ids@, role@);
    let mut i: usize = 0;
    assert(before + all.take(0) =~= before);
    while i < ids.len()
        invariant
            i <= ids.len(),
            all == refs(ids@, role@),
            views(out@) == before + all.take(i as int),
        decreases ids.len() - i,
    {
        let ghost b4 = out@;
        let x = EventItem { item_id: ids[i], role: role.to_owned() };
        let ghost v = x@;
        out.push(x);
        assert(views(out@) =~= views(b4).push(v));
        assert(all.take(i + 1) =~= all.take(i as int).push(v));
        assert(views(out@) =~= before + all.take(i + 1));
        i = i + 1;
    }
    assert(all.take(i as int) =~= all);
}

/// What one side and the other are worth, and how the bargain went.
struct Settlement {
    offered: Thousandths,
    requested: Thousandths,
    deal: Deal,
    yes: bool,
    dc: Option<i32>,
    total: Option<i64>,
}

fn emit_bargain_event(
    c: &mut Campaign,
    content: &Content,
    p: &ExchangeParams,
    s: &Settlement,
    now: i64,
    Ghost(w): Ghost<World>,
) -> (id: i64)
    requires
        old(c)@.wf(),
        crate::campaign::top(old(c)@.events) < i64::MAX,
        listed(old(c)@.characters, p.character_id),
        listed(old(c)@.characters, p.merchant_character_id),
        forall|k: int| 0 <= k < p.offered_item_ids@.len() ==>
            listed(old(c)@.items, #[trigger] p.offered_item_ids@[k]),
        forall|k: int|
            0 <= k < p.requested_item_ids@.len() ==> listed(old(c)@.items, #[trigger] p.requested_item_ids@[k]),
        now == campaign_hour(w),
        s.offered == offered_value(w, *content, *p),
        s.requested == requested_value(w, *content, *p),
    ensures
        final(c)@.wf(),
        id == next_id(old(c)@.events),
        final(c)@ == old(c)@.with_event(
            bargain_entry(w, *content, *p, outcome(s.yes), resolution(s.deal), s.dc, s.total),
        ),
{
    let how = say_resolution(s.deal);
    let what = say_outcome(s.yes);
    let mut t = "Barter between character id=".to_owned();
    t.append(decimal(p.character_id).as_str());
    t.append(" and merchant id=");
    t.append(decimal(p.merchant_character_id).as_str());
    t.append(": ");
    t.append(what);
    t.append(" via ");
    t.append(how);
    t.append(" (offered ");
    t.append(say_tenths(s.offered).as_str());
    t.append(" gp vs requested ");
    t.append(say_tenths(s.requested).as_str());
    t.append(" gp)");
    let mut items: Vec<EventItem> = Vec::new();
    assert(views(items@) =~= Seq::empty());
    list_refs(&mut items, &p.offered_item_ids, "offered");
    list_refs(&mut items, &p.requested_item_ids, "requested");
    assert(views(items@) =~= refs(p.offered_item_ids@, "offered"@) + refs(p.requested_item_ids@, "requested"@));
    let base = entry(
        "social.bargain",
        now,
        t,
        fields8(
            field("offered_value_gp", Value::Thousandths(s.offered)),
            field("requested_value_gp", Value::Thousandths(s.requested)),
            text_field("outcome", what),
            text_field("resolution", how),
            opt_int32_field("check_dc", s.dc),
            opt_int_field("check_roll_total", s.total),
            field("offered_item_ids", Value::Ints(copy_ints(&p.offered_item_ids))),
            field("requested_item_ids", Value::Ints(copy_ints(&p.requested_item_ids))),
        ),
        both(p.character_id, EventRole::Actor, p.merchant_character_id, EventRole::Target),
    );
    let e = Event { items, ..base };
    assert(e@ == bargain_entry(w, *content, *p, outcome(s.yes), resolution(s.deal), s.dc, s.total));
    proof {
        let a = p.offered_item_ids@;
        let b = p.requested_item_ids@;
        assert forall|i: int| 0 <= i < e@.items.len() implies listed(c@.items, (#[trigger] e@.items[i]).item_id) by {
            if i < a.len() {
                assert(listed(c@.items, a[i]));
            } else {
                assert(listed(c@.items, b[i - a.len()]));
            }
        }
    }
    c.add_event(e)
}

fn say_outcome(yes: bool) -> (r: &'static str)
    ensures
        r@ == outcome(yes),
{
    if yes {
        "accepted"
    } else {
        "declined"
    }
}

fn say_resolution(d: Deal) -> (r: &'static str)
    ensures
        r@ == resolution(d),
{
    match d {
        Deal::Refused => "refused",
        Deal::Fair => "auto_accept",
        Deal::Open => "persuasion_check",
    }
}

/// What the two sides are worth and what the merchant makes of the offer.
fn appraise(c: &Campaign, content: &Content, p: &ExchangeParams) -> (r: Result<Settlement, Error>)
    requires
        c@.wf(),
        c@.room(),
        content.measures_ok(),
        names_fit(*p),
    ensures
        match r {
            Ok(s) => {
                &&& s.offered == offered_value(c@, *content, *p)
                &&& s.requested == requested_value(c@, *content, *p)
                &&& s.deal == deal_of(c@, *content, *p)
                &&& !s.yes
                &&& s.total is None
                &&& s.dc == shown_dc(c@, *content, *p)
                &&& exchange_refusal(c@, *content, *p) is None
                &&& s.deal == Deal::Open ==> check_refusal(c@, *content, persuasion(*p, s.dc)) is None
                &&& s.deal != Deal::Open ==> listed(c@.characters, p.character_id) && listed(
                    c@.characters,
                    p.merchant_character_id,
                )
                &&& forall|k: int|
                    0 <= k < p.offered_item_ids@.len() ==> listed(c@.items, #[trigger] p.offered_item_ids@[k])
                &&& forall|k: int|
                    0 <= k < p.requested_item_ids@.len() ==> listed(
                        c@.items,
                        #[trigger] p.requested_item_ids@[k],
                    )
            },
            Err(e) => exchange_refusal(c@, *content, *p) == Some(e@),
        },
{
    let ghost w = c@;
    if p.offered_item_ids.len() == 0 && p.requested_item_ids.len() == 0 {
        return Err(Error::BarterEmpty);
    }
    if p.character_id == p.merchant_character_id {
        return Err(Error::BarterSelf);
    }
    if let Err(e) = check_side(c, content, p.character_id, &p.offered_item_ids) {
        return Err(e);
    }
    if let Err(e) = check_side(c, content, p.merchant_character_id, &p.requested_item_ids) {
        return Err(e);
    }
    proof {
        lemma_tables(w);
    }
    let event_id: i64 = crate::campaign::fresh_id(&c.events);
    let offered: Thousandths = sum_side_value(c, content, &p.offered_item_ids);
    let requested: Thousandths = sum_side_value(c, content, &p.requested_item_ids);
    let mut deal = Deal::Open;
    let mut dc: Option<i32> = p.dc_override;
    if dc.is_none() {
        if requested > 0 && 2 * offered < requested {
            deal = Deal::Refused;
        } else if requested <= 0 || covers(offered, requested, 9) {
            deal = Deal::Fair;
        } else {
            dc = Some(derive_dc(offered, requested));
        }
    }
    assert(deal == deal_of(w, *content, *p));
    let buyer = find(&c.characters, p.character_id).is_some();
    let seller = find(&c.characters, p.merchant_character_id).is_some();
    proof {
        if p.offered_item_ids@.len() > 0 {
            assert(listed(w.items, p.offered_item_ids@[0]));
            lemma_item(w, p.offered_item_ids@[0]);
        }
        if p.requested_item_ids@.len() > 0 {
            assert(listed(w.items, p.requested_item_ids@[0]));
            lemma_item(w, p.requested_item_ids@[0]);
        }
    }
    if deal == Deal::Refused && !buyer {
        return Err(
            Error::EventParticipantRow {
                event_id,
                character_id: p.character_id,
                role: "actor".to_owned(),
                fault: Fault::ForeignKey,
            },
        );
    }
    if deal == Deal::Fair && !seller {
        return Err(Error::BarterOffered { item: p.offered_item_ids[0] });
    }
    if deal == Deal::Fair && !buyer {
        return Err(Error::BarterRequested { item: p.requested_item_ids[0] });
    }
    let mut log_id: i64 = event_id;
    if deal == Deal::Open {
        if let Err(e) = try_check(c, content, &make_check(p, dc)) {
            return Err(Error::BarterCheck { cause: e.message() });
        }
        log_id = event_id + 1;
    }
    if let Err(e) = check_repeats(p, log_id) {
        return Err(e);
    }
    Ok(Settlement { offered, requested, deal, yes: false, dc, total: None })
}

/// Makes the check by which the character persuades the merchant: whether it does, and the
/// total.
fn persuade(
    c: &mut Campaign,
    content: &Content,
    p: &ExchangeParams,
    dc: i32,
    rolls: &CheckRolls,
) -> (r: (bool, i64))
    requires
        old(c)@.wf(),
        old(c)@.room(),
        sums_fit(old(c)@, *content, persuasion(*p, None)),
        check_refusal(old(c)@, *content, persuasion(*p, Some(dc))) is None,
        check_rolls_ok(basis(old(c)@, *content, persuasion(*p, None)), *rolls),
    ensures
        final(c)@.wf(),
        crate::campaign::top(final(c)@.events) < i64::MAX,
        ({
            let q = persuasion(*p, Some(dc));
            let b = basis(old(c)@, *content, q);
            &&& r.0 == (success_of(b, Some(dc), total_of(b, *rolls)) == Some(true))
            &&& r.1 == total_of(b, *rolls) as i64
            &&& final(c)@ == old(c)@.with_event(check_entry(b, q, *rolls))
            &&& listed(old(c)@.characters, p.character_id)
            &&& listed(old(c)@.characters, p.merchant_character_id)
        }),
{
    let ghost w = c@;
    let q = make_check(p, Some(dc));
    let ghost query = persuasion(*p, Some(dc));
    proof {
        lemma_tables(w);
        lemma_same_basis(w, *content, *p, Some(dc));
    }
    match resolve_with(c, content, &q, rolls) {
        Ok(check) => {
            proof {
                let e = check_entry(basis(w, *content, query), query, *rolls);
                crate::campaign::lemma_push(
                    w.events,
                    EventView { id: next_id(w.events), summary: crate::campaign::capped(e.summary), ..e },
                );
            }
            let yes = match check.success {
                Some(b) => b,
                None => false,
            };
            (yes, check.total)
        },
        Err(_) => (false, 0),
    }
}

/// Offers items for items, with given rolls for the check, and writes `social.bargain`.
pub fn exchange_with(
    c: &mut Campaign,
    content: &Content,
    p: &ExchangeParams,
    rolls: &CheckRolls,
) -> (r: Result<ExchangeResult, Error>)
    requires
        old(c)@.wf(),
        old(c)@.room(),
        content.measures_ok(),
        names_fit(*p),
        deal_of(old(c)@, *content, *p) == Deal::Open ==> sums_fit(old(c)@, *content, persuasion(*p, None)),
        exchange_refusal(old(c)@, *content, *p) is None && deal_of(old(c)@, *content, *p) == Deal::Open
            ==> check_rolls_ok(basis(old(c)@, *content, persuasion(*p, None)), *rolls),
    ensures
        final(c)@.wf(),
        exchange_refusal(old(c)@, *content, *p) matches Some(e) ==> r is Err && r->Err_0@ == e && final(c)@
            == old(c)@,
        exchange_refusal(old(c)@, *content, *p) is None ==> r is Ok && exchange_ok(
            old(c)@,
            *content,
            *p,
            *rolls,
            final(c)@,
            r->Ok_0,
        ),
{
    let ghost w = c@;
    let mut s = match appraise(c, content, p) {
        Ok(s) => s,
        Err(e) => {
            return Err(e);
        },
    };
    let now: i64 = current_campaign_hour(c);
    proof {
        lemma_tables(w);
        lemma_same_basis(w, *content, *p, s.dc);
    }
    if let (Deal::Open, Some(dc)) = (s.deal, s.dc) {
        let (yes, total): (bool, i64) = persuade(c, content, p, dc, rolls);
        s.yes = yes;
        s.total = Some(total);
    } else if s.deal == Deal::Fair {
        s.yes = true;
    }
    assert(c@ == after_talk(w, *content, *p, *rolls));
    assert(s.yes == accepted(w, *content, *p, *rolls));
    assert(crate::campaign::top(c@.events) < i64::MAX);
    if s.yes {
        execute_trade(c, p, now);
    }
    let event_id: i64 = emit_bargain_event(c, content, p, &s, now, Ghost(w));
    assert(c@ == bargained(w, *content, *p, *rolls));
    Ok(
        ExchangeResult {
            outcome: say_outcome(s.yes).to_owned(),
            offered_value_gp: s.offered,
            requested_value_gp: s.requested,
            resolution: say_resolution(s.deal).to_owned(),
            check_dc: s.dc,
            check_roll_total: s.total,
            event_id,
        },
    )
}

/// The difficulty changes nothing of what a check is made of.
proof fn lemma_same_basis(w: World, content: Content, p: ExchangeParams, dc: Option<i32>)
    ensures
        basis(w, content, persuasion(p, dc)) == basis(w, content, persuasion(p, None)),
        check_refusal(w, content, persuasion(p, dc)) == check_refusal(w, content, persuasion(p, None)),
        sums_fit(w, content, persuasion(p, dc)) == sums_fit(w, content, persuasion(p, None)),
{
}

/// Offers items for items and writes `social.bargain`. Where the merchant has to be
/// persuaded the dice are rolled: what comes out is what one of the possible rolls gives.
pub fn exchange(c: &mut Campaign, content: &Content, p: ExchangeParams) -> (r: Result<ExchangeResult, Error>)
    requires
        old(c)@.wf(),
        old(c)@.room(),
        content.measures_ok(),
        names_fit(p),
        deal_of(old(c)@, *content, p) == Deal::Open ==> sums_fit(old(c)@, *content, persuasion(p, None)),
    ensures
        final(c)@.wf(),
        exchange_refusal(old(c)@, *content, p) matches Some(e) ==> r is Err && r->Err_0@ == e && final(c)@
            == old(c)@,
        exchange_refusal(old(c)@, *content, p) is None ==> r is Ok && exists|rolls: CheckRolls|
            #![trigger exchange_ok(old(c)@, *content, p, rolls, final(c)@, r->Ok_0)]
            {
                &&& deal_of(old(c)@, *content, p) == Deal::Open ==> check_rolls_ok(
                    basis(old(c)@, *content, persuasion(p, None)),
                    rolls,
                )
                &&& exchange_ok(old(c)@, *content, p, rolls, final(c)@, r->Ok_0)
            },
{
    let ghost w = c@;
    let q = make_check(&p, None);
    let rolls = draw_rolls(c, content, &q);
    proof {
        lemma_same_basis(w, *content, p, Some(dc_of(w, *content, p)));
    }
    let r = exchange_with(c, content, &p, &rolls);
    r
}

// ── Laws ──

/// Items change hands only where the offer is accepted, and nothing but what was put up does.
pub proof fn law_declined_offer_moves_nothing(
    w: World,
    content: Content,
    p: ExchangeParams,
    rolls: CheckRolls,
    i: int,
)
    requires
        0 <= i < w.items.len(),
    ensures
        bargained(w, content, p, rolls).items.len() == w.items.len(),
        !accepted(w, content, p, rolls) ==> bargained(w, content, p, rolls).items == w.items,
        !p.offered_item_ids@.contains(w.items[i].id) && !p.requested_item_ids@.contains(w.items[i].id)
            ==> bargained(w, content, p, rolls).items[i] == w.items[i],
{
}

/// Where the offer is accepted all that was offered is the merchant's, and all that was asked
/// for is the character's.
pub proof fn law_accepted_offer_swaps_all(
    w: World,
    content: Content,
    p: ExchangeParams,
    rolls: CheckRolls,
    i: int,
)
    requires
        w.wf(),
        exchange_refusal(w, content, p) is None,
        accepted(w, content, p, rolls),
        0 <= i < w.items.len(),
    ensures
        p.offered_item_ids@.contains(w.items[i].id) ==> bargained(w, content, p, rolls).items[i].place
            == Place::Holder(p.merchant_character_id),
        p.requested_item_ids@.contains(w.items[i].id) ==> bargained(w, content, p, rolls).items[i].place
            == Place::Holder(p.character_id),
{
    lemma_tables(w);
    lemma_index(w.items, i);
    let id = w.items[i].id;
    if p.offered_item_ids@.contains(id) {
        lemma_held(w, content, p.character_id, p.offered_item_ids@, id);
    }
    if p.requested_item_ids@.contains(id) {
        lemma_held(w, content, p.merchant_character_id, p.requested_item_ids@, id);
    }
}

proof fn lemma_held(w: World, content: Content, who: i64, ids: Seq<i64>, id: i64)
    requires
        side_refusal(w, content, who, ids) is None,
        ids.contains(id),
    ensures
        row(w.items, id).place == Place::Holder(who),
    decreases ids.len(),
{
    if ids.last() != id {
        let k = choose|k: int| 0 <= k < ids.len() && ids[k] == id;
        assert(ids.drop_last()[k] == id);
        lemma_held(w, content, who, ids.drop_last(), id);
    }
}

/// A better offer is never treated worse: where one is fair so is a higher one, and the
/// merchant is no harder to persuade by it.
pub proof fn law_better_offer_is_no_worse(low: int, high: int, requested: int)
    requires
        low <= high,
        requested > 0,
    ensures
        deal(low, requested, None) == Deal::Fair ==> deal(high, requested, None) == Deal::Fair,
        deal(high, requested, None) == Deal::Refused ==> deal(low, requested, None) == Deal::Refused,
        derived_dc(high, requested) <= derived_dc(low, requested),
{
    let a = 9 * requested - 10 * high + requested - 1;
    let b = 9 * requested - 10 * low + requested - 1;
    vstd::arithmetic::div_mod::lemma_div_is_ordered(a, b, requested);
}

} // verus!
