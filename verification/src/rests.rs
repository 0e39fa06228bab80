//! Rests: what a short or a long rest refills.

use vstd::prelude::*;
use crate::campaign::{find, lemma_character, lemma_tables, listed, next_id, put, row, Campaign, World};
use crate::error::Error;
use crate::events::{
    bool_field, cells3, entry, entry_view, field, field_view, fields3, int_cell, make_int_cell,
    make_text_cell, one, only, opt_int32, opt_int32_field, text_cell,
};
use crate::rows::{views, Cell, Character, EventRole, EventView, Recharge, Resource, Status, Value, ValueView};
use crate::text::{decimal, int_text};
use crate::world::{campaign_hour, current_campaign_hour};

verus! {

#[derive(Debug, Clone, PartialEq, Eq)]
pub struct ShortRestParams {
    pub character_id: i64,
}

#[derive(Debug, Clone, PartialEq, Eq)]
pub struct LongRestParams {
    pub character_id: i64,
}

/// What a rest refilled, and from what to what.
#[derive(Debug, Clone, PartialEq, Eq)]
pub struct RefilledResource<S = String> {
    pub name: S,
    pub from: i32,
    pub to: i32,
}

#[derive(Debug, Clone, PartialEq, Eq)]
pub struct RestResult {
    pub character_id: i64,
    pub refilled_resources: Vec<RefilledResource>,
    pub hp_restored: Option<i32>,
    pub status_after: String,
    pub event_id: i64,
}

impl View for RefilledResource {
    type V = RefilledResource<Seq<char>>;

    open spec fn view(&self) -> RefilledResource<Seq<char>> {
        RefilledResource { name: self.name@, from: self.from, to: self.to }
    }
}

/// Whether the rest refills what recharges so: a short rest what a short rest recharges, a
/// long rest also what a long rest or the dawn does.
pub open spec fn recharges(long: bool, recharge: Recharge) -> bool {
    recharge == Recharge::ShortRest || (long && (recharge == Recharge::LongRest || recharge
        == Recharge::Dawn))
}

/// Whether the rest of the character refills this resource.
pub open spec fn refills(r: Resource<Seq<char>>, character_id: i64, long: bool) -> bool {
    r.character_id == character_id && recharges(long, r.recharge) && r.current < r.max
}

/// The resources after the rest.
pub open spec fn refilled_rows(
    rows: Seq<Resource<Seq<char>>>,
    character_id: i64,
    long: bool,
) -> Seq<Resource<Seq<char>>> {
    Seq::new(
        rows.len(),
        |i: int|
            if refills(rows[i], character_id, long) {
                Resource { current: rows[i].max, ..rows[i] }
            } else {
                rows[i]
            },
    )
}

/// What the rest refills.
pub open spec fn refilled(
    rows: Seq<Resource<Seq<char>>>,
    character_id: i64,
    long: bool,
) -> Seq<RefilledResource<Seq<char>>>
    decreases rows.len(),
{
    if rows.len() == 0 {
        Seq::empty()
    } else {
        let rest = refilled(rows.drop_last(), character_id, long);
        let r = rows.last();
        if refills(r, character_id, long) {
            rest.push(RefilledResource { name: r.name, from: r.current, to: r.max })
        } else {
            rest
        }
    }
}

pub open spec fn refilled_records(rows: Seq<RefilledResource<Seq<char>>>) -> Seq<Seq<Cell<Seq<char>>>> {
    Seq::new(
        rows.len(),
        |k: int|
            seq![
                text_cell("name"@, rows[k].name),
                int_cell("from"@, rows[k].from as int),
                int_cell("to"@, rows[k].to as int),
            ],
    )
}

/// The hit points that a rest gives back: all that are missing after a long one.
pub open spec fn restored(ch: Character<Seq<char>>, long: bool) -> Option<i32> {
    if long && ch.hp_current < ch.hp_max {
        Some((ch.hp_max - ch.hp_current) as i32)
    } else {
        None
    }
}

pub open spec fn rest_refusal(w: World, id: i64) -> Option<Error<Seq<char>>> {
    if !listed(w.characters, id) {
        Some(Error::CharacterNotFound { id })
    } else if row(w.characters, id).status == Status::Dead {
        Some(Error::DeadCannotRest { id })
    } else {
        None
    }
}

pub open spec fn rest_entry(w: World, id: i64, long: bool) -> EventView {
    let list = refilled(w.resources, id, long);
    let hp = restored(row(w.characters, id), long);
    entry_view(
        if long {
            "rest.long"@
        } else {
            "rest.short"@
        },
        campaign_hour(w),
        "Character id="@ + int_text(id as int) + " took a "@ + (if long {
            "long rest"@
        } else {
            "short rest"@
        }) + " — "@ + int_text(list.len() as int) + " resource(s) refilled"@ + (match hp {
            Some(n) => ", +"@ + int_text(n as int) + " HP"@,
            None => ""@,
        }),
        seq![
            field_view("refilled"@, ValueView::Records(refilled_records(list))),
            field_view("hp_restored"@, opt_int32(hp)),
            field_view("restore_hp"@, ValueView::Bool(long)),
        ],
        one(id, EventRole::Actor),
    )
}

/// A character after a long rest: all hit points are back, and the death saves are cleared
/// where it is alive. Those of an unconscious character stand.
pub open spec fn refreshed(ch: Character<Seq<char>>, now: i64) -> Character<Seq<char>> {
    Character {
        hp_current: ch.hp_max,
        death_save_successes: if ch.status == Status::Alive {
            0
        } else {
            ch.death_save_successes
        },
        death_save_failures: if ch.status == Status::Alive {
            0
        } else {
            ch.death_save_failures
        },
        updated_at: now,
        ..ch
    }
}

/// The campaign after the rest. A long rest also refreshes the character.
pub open spec fn rested(w: World, id: i64, long: bool) -> World {
    let ch = row(w.characters, id);
    let fed = World { resources: refilled_rows(w.resources, id, long), ..w };
    let healed = if long {
        World {
            characters: put(w.characters, refreshed(ch, campaign_hour(w))),
            ..fed
        }
    } else {
        fed
    };
    healed.with_event(rest_entry(w, id, long))
}

/// What a rest does to the campaign and returns.
pub open spec fn rest_ok(w: World, id: i64, long: bool, after: World, r: RestResult) -> bool {
    &&& r.character_id == id
    &&& views(r.refilled_resources@) == refilled(w.resources, id, long)
    &&& r.hp_restored == restored(row(w.characters, id), long)
    &&& r.status_after@ == row(w.characters, id).status.text()
    &&& r.event_id == next_id(w.events)
    &&& after == rested(w, id, long)
}

fn refill(c: &mut Campaign, id: i64, long: bool) -> (list: Vec<RefilledResource>)
    requires
        old(c)@.wf(),
    ensures
        final(c)@.wf(),
        final(c)@ == (World { resources: refilled_rows(old(c)@.resources, id, long), ..old(c)@ }),
        final(c)@.room() == old(c)@.room(),
        views(list@) == refilled(old(c)@.resources, id, long),
        list.len() <= old(c).resources.len(),
{
    let ghost w = c@;
    let mut list: Vec<RefilledResource> = Vec::new();
    let mut i: usize = 0;
    let n: usize = c.resources.len();
    proof {
        assert(views(list@) =~= refilled(w.resources.take(0), id, long));
        assert(w.resources =~= refilled_rows(w.resources, id, long).take(0) + w.resources.skip(0));
    }
    while i < n
        invariant
            i <= n,
            n == c.resources.len(),
            n == w.resources.len(),
            c@.wf(),
            c@ == (World { resources: c@.resources, ..w }),
            c@.room() == w.room(),
            list.len() <= i,
            forall|j: int| 0 <= j < i ==> #[trigger] c@.resources[j] == refilled_rows(w.resources, id, long)[j],
            forall|j: int| i <= j < n ==> #[trigger] c@.resources[j] == w.resources[j],
            views(list@) == refilled(w.resources.take(i as int), id, long),
        decreases n - i,
    {
        let mut r = c.resources[i].copy();
        let ghost r0 = r@;
        proof {
            assert(c@.resources[i as int] == r0);
            assert(w.resources.take(i + 1).drop_last() =~= w.resources.take(i as int));
            assert(0 <= r.current <= r.max) by {
                reveal(World::wf);
            }
        }
        let kind = r.recharge;
        if r.character_id == id && (kind == Recharge::ShortRest || (long && (kind == Recharge::LongRest
            || kind == Recharge::Dawn))) && r.current < r.max {
            let x = RefilledResource { name: r.name.clone(), from: r.current, to: r.max };
            r.current = r.max;
            c.set_resource(i, r);
            assert(c@.resources.len() == n);
            let ghost before = list@;
            list.push(x);
            assert(views(list@) =~= views(before).push(x@));
        }
        i = i + 1;
    }
    proof {
        assert(w.resources.take(n as int) =~= w.resources);
        assert(c@.resources =~= refilled_rows(w.resources, id, long));
    }
    list
}

fn do_rest(c: &mut Campaign, id: i64, long: bool) -> (r: Result<RestResult, Error>)
    requires
        old(c)@.wf(),
        old(c)@.room(),
    ensures
        final(c)@.wf(),
        rest_refusal(old(c)@, id) matches Some(e) ==> r is Err && r->Err_0@ == e && final(c)@ == old(c)@,
        rest_refusal(old(c)@, id) is None ==> r is Ok && rest_ok(old(c)@, id, long, final(c)@, r->Ok_0),
{
    let ghost w = c@;
    proof {
        lemma_tables(w);
    }
    let i: usize = match find(&c.characters, id) {
        Some(i) => i,
        None => {
            return Err(Error::CharacterNotFound { id });
        },
    };
    let mut ch = c.characters[i].copy();
    if ch.status == Status::Dead {
        return Err(Error::DeadCannotRest { id });
    }
    proof {
        lemma_character(w, id);
    }
    let now: i64 = current_campaign_hour(c);
    let status = ch.status;
    let hp: Option<i32> = if long && ch.hp_current < ch.hp_max {
        Some(ch.hp_max - ch.hp_current)
    } else {
        None
    };
    let list = refill(c, id, long);
    if long {
        ch.hp_current = ch.hp_max;
        if status == Status::Alive {
            ch.death_save_successes = 0;
            ch.death_save_failures = 0;
        }
        ch.updated_at = now;
        c.set_character(i, ch);
    }
    let mut records: Vec<Vec<Cell>> = Vec::new();
    let mut k: usize = 0;
    while k < list.len()
        invariant
            k <= list.len(),
            records.len() == k,
            forall|j: int|
                0 <= j < k ==> views((#[trigger] records@[j])@) == refilled_records(views(list@))[j],
        decreases list.len() - k,
    {
        let cells = cells3(
            make_text_cell("name", list[k].name.as_str()),
            make_int_cell("from", list[k].from as i64),
            make_int_cell("to", list[k].to as i64),
        );
        assert(views(cells@) =~= refilled_records(views(list@))[k as int]);
        records.push(cells);
        k = k + 1;
    }
    assert(Value::Records(records)@->Records_0 =~= refilled_records(views(list@)));
    let mut s = "Character id=".to_owned();
    s.append(decimal(id).as_str());
    s.append(" took a ");
    s.append(
        if long {
            "long rest"
        } else {
            "short rest"
        },
    );
    s.append(" — ");
    s.append(count_text(list.len()).as_str());
    s.append(" resource(s) refilled");
    let tail = match hp {
        Some(n) => {
            let mut t = ", +".to_owned();
            t.append(decimal(n as i64).as_str());
            t.append(" HP");
            t
        },
        None => "".to_owned(),
    };
    s.append(tail.as_str());
    let kind = if long {
        "rest.long"
    } else {
        "rest.short"
    };
    let e = entry(
        kind,
        now,
        s,
        fields3(
            field("refilled", Value::Records(records)),
            opt_int32_field("hp_restored", hp),
            bool_field("restore_hp", long),
        ),
        only(id, EventRole::Actor),
    );
    assert(e@ == rest_entry(w, id, long));
    let event_id: i64 = c.add_event(e);
    assert(c@ == rested(w, id, long));
    Ok(
        RestResult {
            character_id: id,
            refilled_resources: list,
            hp_restored: hp,
            status_after: status.as_str().to_owned(),
            event_id,
        },
    )
}

/// A number of things in decimal.
fn count_text(n: usize) -> (r: String)
    ensures
        r@ == int_text(n as int),
{
    crate::text::natural(n as u128)
}

/// A short rest: refills what a short rest recharges.
pub fn short_rest(c: &mut Campaign, p: ShortRestParams) -> (r: Result<RestResult, Error>)
    requires
        old(c)@.wf(),
        old(c)@.room(),
    ensures
        final(c)@.wf(),
        rest_refusal(old(c)@, p.character_id) matches Some(e) ==> r is Err && r->Err_0@ == e && final(c)@
            == old(c)@,
        rest_refusal(old(c)@, p.character_id) is None ==> r is Ok && rest_ok(
            old(c)@,
            p.character_id,
            false,
            final(c)@,
            r->Ok_0,
        ),
{
    do_rest(c, p.character_id, false)
}

/// A long rest: refills what a short rest, a long rest or the dawn recharges, gives back all
/// hit points, and clears the death saves of a character that is alive.
pub fn long_rest(c: &mut Campaign, p: LongRestParams) -> (r: Result<RestResult, Error>)
    requires
        old(c)@.wf(),
        old(c)@.room(),
    ensures
        final(c)@.wf(),
        rest_refusal(old(c)@, p.character_id) matches Some(e) ==> r is Err && r->Err_0@ == e && final(c)@
            == old(c)@,
        rest_refusal(old(c)@, p.character_id) is None ==> r is Ok && rest_ok(
            old(c)@,
            p.character_id,
            true,
            final(c)@,
            r->Ok_0,
        ),
{
    do_rest(c, p.character_id, true)
}

/// After a long rest nothing that rests or the dawn recharge is short of its maximum, nor are
/// hit points, and resources of others are as they were.
pub proof fn law_long_rest_restores(w: World, id: i64, i: int)
    requires
        w.wf(),
        rest_refusal(w, id) is None,
        0 <= i < w.resources.len(),
    ensures
        w.resources[i].character_id == id && recharges(true, w.resources[i].recharge)
            ==> rested(w, id, true).resources[i].current == w.resources[i].max,
        w.resources[i].character_id != id ==> rested(w, id, true).resources[i] == w.resources[i],
        row(rested(w, id, true).characters, id) == refreshed(row(w.characters, id), campaign_hour(w)),
        refilled(rested(w, id, true).resources, id, true).len() == 0,
{
    lemma_tables(w);
    lemma_character(w, id);
    reveal(World::wf);
    assert(0 <= w.resources[i].current <= w.resources[i].max);
    let ch = row(w.characters, id);
    crate::campaign::lemma_update(
        w.characters,
        crate::campaign::index_of(w.characters, id),
        refreshed(ch, campaign_hour(w)),
    );
    lemma_nothing_left(refilled_rows(w.resources, id, true), id);
}

proof fn lemma_nothing_left(rows: Seq<Resource<Seq<char>>>, id: i64)
    requires
        forall|i: int| 0 <= i < rows.len() ==> !refills(#[trigger] rows[i], id, true),
    ensures
        refilled(rows, id, true).len() == 0,
    decreases rows.len(),
{
    if rows.len() > 0 {
        let rest = rows.drop_last();
        assert forall|i: int| 0 <= i < rest.len() implies !refills(#[trigger] rest[i], id, true) by {
            assert(rest[i] == rows[i]);
        }
        lemma_nothing_left(rest, id);
        assert(!refills(rows[rows.len() - 1], id, true));
    }
}

/// A short rest touches nothing but what a short rest recharges, and no hit points.
pub proof fn law_short_rest_leaves_the_rest(w: World, id: i64, i: int)
    requires
        0 <= i < w.resources.len(),
        w.resources[i].recharge != Recharge::ShortRest,
    ensures
        rested(w, id, false).resources[i] == w.resources[i],
        rested(w, id, false).characters == w.characters,
{
}

} // verus!
