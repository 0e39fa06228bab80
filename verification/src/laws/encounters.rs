//! Laws of encounters: who earns what by them, how long they take, and how they are set up.

use vstd::prelude::*;
use crate::campaign::{lemma_encounter, lemma_push, lemma_tables, listed, next_id, row, World};
use crate::doubles::{Double, TWO};
use crate::encounters::{
    awards, complete_refusal, completed, create_refusal, created, end_hour, finish_refusal, finished, modifier_of,
    players_of, scaled, share_of, sideless, CompleteParams, CreateParams,
};
use crate::laws::numbers::law_twice_half_and_none;
use crate::laws::{lemma_put_changes, only_changes};
use crate::rows::{views, Encounter, EncounterParticipant, EncounterStatus, Side};
use crate::world::{campaign_hour, law_clock_never_goes_back};

verus! {

/// Whether the character is on the side of the players in the encounter.
pub open spec fn with_players(w: World, id: i64, character_id: i64) -> bool {
    exists|m: int|
        0 <= m < w.encounter_participants.len() && (#[trigger] w.encounter_participants[m]).encounter_id == id
            && w.encounter_participants[m].side == Side::PlayerSide && w.encounter_participants[m].character_id
            == character_id
}

proof fn lemma_players_of(rows: Seq<EncounterParticipant>, id: i64, x: i64)
    ensures
        players_of(rows, id).contains(x) <==> exists|m: int|
            0 <= m < rows.len() && (#[trigger] rows[m]).encounter_id == id && rows[m].side == Side::PlayerSide
                && rows[m].character_id == x,
    decreases rows.len(),
{
    if rows.len() > 0 {
        let rest = rows.drop_last();
        lemma_players_of(rest, id, x);
        let all = players_of(rows, id);
        let before = players_of(rest, id);
        let last = rows[rows.len() - 1];
        if all.contains(x) {
            let k = choose|k: int| 0 <= k < all.len() && all[k] == x;
            if k < before.len() {
                assert(before[k] == x);
                let m = choose|m: int|
                    0 <= m < rest.len() && (#[trigger] rest[m]).encounter_id == id && rest[m].side
                        == Side::PlayerSide && rest[m].character_id == x;
                assert(rows[m] == rest[m]);
            } else {
                assert(last.encounter_id == id);
            }
        }
        if exists|m: int|
            0 <= m < rows.len() && (#[trigger] rows[m]).encounter_id == id && rows[m].side == Side::PlayerSide
                && rows[m].character_id == x {
            let m = choose|m: int|
                0 <= m < rows.len() && (#[trigger] rows[m]).encounter_id == id && rows[m].side == Side::PlayerSide
                    && rows[m].character_id == x;
            if m < rest.len() {
                assert(rest[m] == rows[m]);
                let k = choose|k: int| 0 <= k < before.len() && before[k] == x;
                assert(all[k] == x);
            } else {
                assert(all[before.len() as int] == x);
            }
        }
    }
}

/// Completing an encounter adds the same share to what each character on the side of the
/// players has earned before, so that experience never goes down. It changes nothing else of
/// them, and nothing at all of anybody else.
pub proof fn law_experience_is_added(w: World, p: CompleteParams, i: int)
    requires
        w.wf(),
        w.room(),
        complete_refusal(w, p) is None,
        0 <= i < w.characters.len(),
    ensures
        ({
            let before = w.characters[i];
            let after = completed(w, p).characters[i];
            &&& completed(w, p).characters.len() == w.characters.len()
            &&& share_of(w, p) >= 0
            &&& with_players(w, p.encounter_id, before.id) ==> {
                &&& after.xp_total - before.xp_total == share_of(w, p)
                &&& after.id == before.id && after.hp_current == before.hp_current && after.hp_max == before.hp_max
                &&& after.status == before.status && after.level == before.level
                &&& after.current_zone_id == before.current_zone_id
            }
            &&& !with_players(w, p.encounter_id, before.id) ==> after == before
        }),
{
    lemma_tables(w);
    lemma_encounter(w, p.encounter_id);
    let id = p.encounter_id;
    let players = players_of(w.encounter_participants, id);
    lemma_players_of(w.encounter_participants, id, w.characters[i].id);
    assert(w.characters[i].xp_total <= crate::campaign::HOUR_LIMIT);
    let pot = scaled(row(w.encounters, id).xp_budget, modifier_of(p));
    if players.len() > 0 {
        assert(0 <= pot as int / players.len() as int <= pot) by (nonlinear_arith)
            requires
                pot >= 0,
                players.len() > 0,
        ;
    }
}

proof fn lemma_players_once(w: World, rows: Seq<EncounterParticipant>, id: i64)
    requires
        forall|i: int, j: int|
            #![trigger rows[i], rows[j]]
            0 <= i < j < rows.len() ==> rows[i].encounter_id != rows[j].encounter_id || rows[i].character_id
                != rows[j].character_id,
    ensures
        players_of(rows, id).no_duplicates(),
    decreases rows.len(),
{
    if rows.len() > 0 {
        let rest = rows.drop_last();
        assert forall|i: int, j: int|
            #![trigger rest[i], rest[j]]
            0 <= i < j < rest.len() implies rest[i].encounter_id != rest[j].encounter_id || rest[i].character_id
            != rest[j].character_id by {
            assert(rows[i] == rest[i] && rows[j] == rest[j]);
        }
        lemma_players_once(w, rest, id);
        let last = rows[rows.len() - 1];
        lemma_players_of(rest, id, last.character_id);
        if players_of(rest, id).contains(last.character_id) {
            let m = choose|m: int|
                0 <= m < rest.len() && (#[trigger] rest[m]).encounter_id == id && rest[m].side == Side::PlayerSide
                    && rest[m].character_id == last.character_id;
            assert(rows[m] == rest[m]);
            assert(rows[m].encounter_id != last.encounter_id);
        }
    }
}

/// What is told as awarded names each character on the side of the players once, and nobody
/// else, with the share that was added to it. All shares together are not more than what the
/// encounter gives, and one point more for each would be.
pub proof fn law_awards_name_the_players(w: World, p: CompleteParams, character_id: i64)
    requires
        w.wf(),
        complete_refusal(w, p) is None,
    ensures
        ({
            let players = players_of(w.encounter_participants, p.encounter_id);
            let list = awards(players, share_of(w, p));
            let pot = scaled(row(w.encounters, p.encounter_id).xp_budget, modifier_of(p));
            &&& players.no_duplicates()
            &&& players.contains(character_id) <==> with_players(w, p.encounter_id, character_id)
            &&& list.len() == players.len()
            &&& forall|k: int|
                0 <= k < list.len() ==> (#[trigger] list[k]).character_id == players[k] && list[k].xp
                    == share_of(w, p)
            &&& players.len() > 0 ==> share_of(w, p) * players.len() <= pot < (share_of(w, p) + 1) * players.len()
            &&& p.xp_modifier is None ==> pot == row(w.encounters, p.encounter_id).xp_budget
        }),
{
    lemma_tables(w);
    lemma_encounter(w, p.encounter_id);
    let rows = w.encounter_participants;
    lemma_players_of(rows, p.encounter_id, character_id);
    assert(forall|i: int, j: int|
        #![trigger rows[i], rows[j]]
        0 <= i < j < rows.len() ==> rows[i].encounter_id != rows[j].encounter_id || rows[i].character_id
            != rows[j].character_id) by {
        reveal(World::wf);
    }
    lemma_players_once(w, rows, p.encounter_id);
    let n = players_of(rows, p.encounter_id).len() as int;
    let pot = scaled(row(w.encounters, p.encounter_id).xp_budget, modifier_of(p));
    if n > 0 {
        vstd::arithmetic::div_mod::lemma_fundamental_div_mod(pot as int, n);
        vstd::arithmetic::div_mod::lemma_mod_bound(pot as int, n);
        let q = pot as int / n;
        assert(0 <= q <= pot) by (nonlinear_arith)
            requires
                pot >= 0,
                n > 0,
                q == pot as int / n,
        ;
        assert(q * n == n * q && (q + 1) * n == n * q + n) by (nonlinear_arith);
    }
    if p.xp_modifier is None {
        crate::encounters::law_goal_earns_the_whole_budget(w, p);
    }
}

/// What the experience is multiplied by counts from 0 to 2: what is below 0 gives nothing, as 0
/// does, and what is above 2 as much as 2.
pub proof fn law_modifier_is_bounded(budget: i32, p: CompleteParams, q: CompleteParams)
    requires
        p.xp_modifier is Some,
        p.xp_modifier->0.below_zero() && q.xp_modifier == Some(Double { bits: 0 }) || p.xp_modifier->0.above_two()
            && q.xp_modifier == Some(Double { bits: TWO }),
    ensures
        scaled(budget, modifier_of(p)) == scaled(budget, modifier_of(q)),
{
}

/// A completed encounter is completed, over at the hour that is told, and its hours have passed:
/// as many as are given, or as were estimated, and none where that is below 0. Other encounters
/// stay as they are.
pub proof fn law_encounter_takes_its_time(w: World, p: CompleteParams)
    requires
        w.wf(),
        w.room(),
        complete_refusal(w, p) is None,
    ensures
        ({
            let v = completed(w, p);
            let before = row(w.encounters, p.encounter_id);
            let after = row(v.encounters, p.encounter_id);
            let passed = campaign_hour(v) - campaign_hour(w);
            &&& after.status == EncounterStatus::GoalCompleted
            &&& after.ended_at_hour == Some(campaign_hour(v))
            &&& after.xp_budget == before.xp_budget && after.goal == before.goal && after.name == before.name
            &&& p.hours_elapsed is Some && p.hours_elapsed->0 >= 0 ==> passed == p.hours_elapsed->0
            &&& p.hours_elapsed is Some && p.hours_elapsed->0 < 0 ==> passed == 0
            &&& p.hours_elapsed is None && before.estimated_duration_hours >= 0 ==> passed
                == before.estimated_duration_hours
            &&& p.hours_elapsed is None && before.estimated_duration_hours < 0 ==> passed == 0
            &&& only_changes(w.encounters, v.encounters, p.encounter_id)
            &&& v.encounter_participants == w.encounter_participants
        }),
{
    lemma_tables(w);
    lemma_encounter(w, p.encounter_id);
    lemma_put_changes(
        w.encounters,
        Encounter {
            status: EncounterStatus::GoalCompleted,
            ended_at_hour: Some(end_hour(w, p)),
            ..row(w.encounters, p.encounter_id)
        },
    );
    crate::world::lemma_latest_hour(w.events, crate::campaign::HOUR_LIMIT as int);
    let v = World {
        encounters: completed(w, p).encounters,
        characters: completed(w, p).characters,
        ..w
    };
    law_clock_never_goes_back(v, crate::encounters::completed_entry(w, p));
}

/// An encounter that is given up or lost is over at this hour and earns nobody anything.
pub proof fn law_no_goal_no_experience(
    w: World,
    id: i64,
    status: EncounterStatus,
    kind: Seq<char>,
    reason: Seq<char>,
)
    requires
        w.wf(),
        finish_refusal(w, id) is None,
    ensures
        ({
            let v = finished(w, id, status, kind, reason);
            &&& v.characters == w.characters
            &&& v.encounter_participants == w.encounter_participants
            &&& row(v.encounters, id).status == status
            &&& row(v.encounters, id).ended_at_hour == Some(campaign_hour(w))
            &&& row(v.encounters, id).xp_budget == row(w.encounters, id).xp_budget
            &&& only_changes(w.encounters, v.encounters, id)
            &&& campaign_hour(v) == campaign_hour(w)
        }),
{
    lemma_tables(w);
    lemma_encounter(w, id);
    lemma_put_changes(
        w.encounters,
        Encounter { status, ended_at_hour: Some(campaign_hour(w)), ..row(w.encounters, id) },
    );
    let v = World { encounters: finished(w, id, status, kind, reason).encounters, ..w };
    law_clock_never_goes_back(v, crate::encounters::finished_entry(w, id, status, kind, reason));
}

proof fn lemma_sides(ps: Seq<crate::encounters::CreateParticipant<Seq<char>>>, n: nat, k: int)
    requires
        sideless(ps, n) is None,
        0 <= k < n <= ps.len(),
    ensures
        Side::of_text(ps[k].side) is Some,
    decreases n,
{
    if k < n - 1 {
        lemma_sides(ps, (n - 1) as nat, k);
    }
}

/// A new encounter is active, not in combat, begins now, and is about what it was set up for.
/// Each of those named joins it on the side that was named, and nobody else does; what was
/// there before stays.
pub proof fn law_new_encounter_is_as_set_up(w: World, p: CreateParams, k: int)
    requires
        w.wf(),
        w.room(),
        create_refusal(w, p) is None,
        0 <= k < p.participants@.len(),
    ensures
        ({
            let v = created(w, p);
            let r = row(v.encounters, next_id(w.encounters));
            let n = w.encounter_participants.len();
            let x = v.encounter_participants[n + k];
            &&& !listed(w.encounters, next_id(w.encounters))
            &&& v.encounters.len() == w.encounters.len() + 1
            &&& v.encounters.take(w.encounters.len() as int) == w.encounters
            &&& r.status == EncounterStatus::Active
            &&& !r.in_combat
            &&& r.xp_budget == p.xp_budget
            &&& r.zone_id == p.zone_id
            &&& r.goal == Some(p.goal@)
            &&& r.started_at_hour == campaign_hour(w)
            &&& r.ended_at_hour is None
            &&& p.estimated_duration_hours matches Some(h) ==> r.estimated_duration_hours == h
            &&& p.estimated_duration_hours is None ==> r.estimated_duration_hours == 0
            &&& v.encounter_participants.len() == n + p.participants@.len()
            &&& v.encounter_participants.take(n as int) == w.encounter_participants
            &&& x.encounter_id == next_id(w.encounters)
            &&& x.character_id == p.participants@[k].character_id
            &&& x.side.text() == p.participants@[k].side@
            &&& x.initiative is None && !x.has_acted_this_round
            &&& v.characters == w.characters
        }),
{
    lemma_tables(w);
    let ps = views(p.participants@);
    lemma_push(w.encounters, crate::encounters::created_row(w, p));
    lemma_sides(ps, ps.len(), k);
    let v = created(w, p);
    assert(v.encounters.take(w.encounters.len() as int) =~= w.encounters);
    assert(v.encounter_participants.take(w.encounter_participants.len() as int) =~= w.encounter_participants);
}

/// A multiplier that is no number earns nothing. Twice earns twice as much, as far as that can be
/// told, and half earns half as much.
pub proof fn law_multiplier_multiplies(budget: i32, p: CompleteParams)
    requires
        budget >= 0,
        p.xp_modifier is Some,
    ensures
        p.xp_modifier->0.is_nan() ==> scaled(budget, modifier_of(p)) == 0,
        p.xp_modifier->0.bits == 0x4000_0000_0000_0000 && 2 * budget <= i32::MAX ==> scaled(budget, modifier_of(p))
            == 2 * budget,
        p.xp_modifier->0.bits == 0x4000_0000_0000_0000 && 2 * budget > i32::MAX ==> scaled(budget, modifier_of(p))
            == i32::MAX,
        p.xp_modifier->0.bits == 0x3fe0_0000_0000_0000 ==> scaled(budget, modifier_of(p)) == (budget + 1) / 2,
        p.xp_modifier->0.bits == 0 ==> scaled(budget, modifier_of(p)) == 0,
{
    law_twice_half_and_none(budget as u32);
}

} // verus!
