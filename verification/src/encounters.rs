//! Encounters: what they are about, how they end, and what experience they give.
//!
//! Experience is given for reaching the goal, whatever the way: who goes round a fight earns
//! as much as who wins it.

use vstd::prelude::*;
use crate::campaign::{
    find, lemma_encounter, lemma_push, lemma_tables, listed, next_id, put, row, Campaign, World,
};
use crate::combat::is_among;
use crate::doubles::{law_once_is_the_same, multiply, product, Double, ONE};
use crate::error::{Error, Fault};
use crate::events::{
    cells2, entry, entry_view, field, field_view, fields2, fields4, fields7, int_cell, int_field,
    make_int_cell, make_text_cell, nobody, opt_int32, opt_int32_field, text_cell, text_field,
};
use crate::rows::{
    views, Cell, Character, Encounter, EncounterParticipant, EncounterStatus, Event, EventParticipant,
    EventRole, EventView, Side, Value, ValueView,
};
use crate::text::{copy_opt, debug_text, decimal, int_text, opt_text, quoted};
use crate::world::{campaign_hour, current_campaign_hour};

verus! {

#[derive(Debug, Clone, PartialEq, Eq)]
pub struct CreateParticipant<S = String> {
    pub character_id: i64,
    pub side: S,
}

impl View for CreateParticipant {
    type V = CreateParticipant<Seq<char>>;

    open spec fn view(&self) -> CreateParticipant<Seq<char>> {
        CreateParticipant { character_id: self.character_id, side: self.side@ }
    }
}

#[derive(Debug, Clone, PartialEq, Eq)]
pub struct CreateParams {
    pub zone_id: Option<i64>,
    pub name: Option<String>,
    pub goal: String,
    pub estimated_duration_hours: Option<i32>,
    pub xp_budget: i32,
    pub participants: Vec<CreateParticipant>,
}

#[derive(Debug, Clone, Copy, PartialEq, Eq)]
pub struct CreateResult {
    pub encounter_id: i64,
    pub event_id: i64,
}

#[derive(Debug, Clone, PartialEq, Eq)]
pub struct CompleteParams {
    pub encounter_id: i64,
    pub path: String,
    /// What the experience is multiplied by; 1 where it is not given.
    pub xp_modifier: Option<Double>,
    pub hours_elapsed: Option<i32>,
}

#[derive(Debug, Clone, PartialEq, Eq)]
pub struct CompleteResult {
    pub encounter_id: i64,
    pub status: String,
    pub xp_awarded_total: i32,
    pub per_player_xp: Vec<PlayerXpAward>,
    pub event_id: i64,
}

#[derive(Debug, Clone, Copy, PartialEq, Eq)]
pub struct PlayerXpAward {
    pub character_id: i64,
    pub xp: i32,
}

#[derive(Debug, Clone, PartialEq, Eq)]
pub struct AbandonParams {
    pub encounter_id: i64,
    pub reason: String,
}

#[derive(Debug, Clone, PartialEq, Eq)]
pub struct FailParams {
    pub encounter_id: i64,
    pub reason: String,
}

#[derive(Debug, Clone, PartialEq, Eq)]
pub struct OutcomeResult {
    pub encounter_id: i64,
    pub status: String,
    pub event_id: i64,
}

// ── encounter.created ──

/// The first of the first `n` participants whose side is none.
pub open spec fn sideless(ps: Seq<CreateParticipant<Seq<char>>>, n: nat) -> Option<int>
    decreases n,
{
    if n == 0 {
        None
    } else {
        match sideless(ps, (n - 1) as nat) {
            Some(k) => Some(k),
            None => if Side::of_text(ps[n - 1].side) is None {
                Some(n - 1)
            } else {
                None
            },
        }
    }
}

/// What is wrong with participant `i`, given those before it.
pub open spec fn member_fault(w: World, ps: Seq<CreateParticipant<Seq<char>>>, i: int) -> Option<Fault> {
    if exists|j: int| 0 <= j < i && (#[trigger] ps[j]).character_id == ps[i].character_id {
        Some(Fault::Unique)
    } else if !listed(w.characters, ps[i].character_id) {
        Some(Fault::ForeignKey)
    } else {
        None
    }
}

/// The first refusal among the first `n` participants.
pub open spec fn members_refusal(w: World, ps: Seq<CreateParticipant<Seq<char>>>, n: nat) -> Option<
    Error<Seq<char>>,
>
    decreases n,
{
    if n == 0 {
        None
    } else {
        match members_refusal(w, ps, (n - 1) as nat) {
            Some(e) => Some(e),
            None => match member_fault(w, ps, n - 1) {
                Some(fault) => Some(
                    Error::EncounterParticipantRow {
                        encounter_id: next_id(w.encounters),
                        character_id: ps[n - 1].character_id,
                        side: ps[n - 1].side,
                        fault,
                    },
                ),
                None => None,
            },
        }
    }
}

pub open spec fn create_refusal(w: World, p: CreateParams) -> Option<Error<Seq<char>>> {
    let ps = views(p.participants@);
    if p.xp_budget < 0 {
        Some(Error::XpBudget { value: p.xp_budget })
    } else {
        match sideless(ps, ps.len()) {
            Some(k) => Some(Error::UnknownSide { id: ps[k].character_id, side: ps[k].side }),
            None => if !w.zone_ref(p.zone_id) {
                Some(Error::EncounterRow)
            } else {
                members_refusal(w, ps, ps.len())
            },
        }
    }
}

/// The encounter that is created.
pub open spec fn created_row(w: World, p: CreateParams) -> Encounter<Seq<char>> {
    Encounter {
        id: next_id(w.encounters),
        zone_id: p.zone_id,
        name: opt_text(p.name),
        goal: Some(p.goal@),
        estimated_duration_hours: match p.estimated_duration_hours {
            Some(n) => n,
            None => 0,
        },
        xp_budget: p.xp_budget,
        status: EncounterStatus::Active,
        in_combat: false,
        current_round: None,
        turn_index: None,
        started_at_hour: campaign_hour(w),
        ended_at_hour: None,
    }
}

/// The participants that join.
pub open spec fn joining(id: i64, ps: Seq<CreateParticipant<Seq<char>>>) -> Seq<EncounterParticipant> {
    Seq::new(
        ps.len(),
        |k: int|
            EncounterParticipant {
                encounter_id: id,
                character_id: ps[k].character_id,
                side: Side::of_text(ps[k].side)->0,
                initiative: None,
                has_acted_this_round: false,
            },
    )
}

/// Who acts in the encounter: the players act, the others are acted on.
pub open spec fn cast(ps: Seq<CreateParticipant<Seq<char>>>) -> Seq<EventParticipant> {
    Seq::new(
        ps.len(),
        |k: int|
            EventParticipant {
                character_id: ps[k].character_id,
                role: if ps[k].side == "player_side"@ {
                    EventRole::Actor
                } else {
                    EventRole::Target
                },
            },
    )
}

pub open spec fn member_records(ps: Seq<CreateParticipant<Seq<char>>>) -> Seq<Seq<Cell<Seq<char>>>> {
    Seq::new(
        ps.len(),
        |k: int|
            seq![
                int_cell("character_id"@, ps[k].character_id as int),
                text_cell("side"@, ps[k].side),
            ],
    )
}

pub open spec fn created_entry(w: World, p: CreateParams) -> EventView {
    let id = next_id(w.encounters);
    let ps = views(p.participants@);
    EventView {
        zone_id: p.zone_id,
        encounter_id: Some(id),
        ..entry_view(
            "encounter.created"@,
            campaign_hour(w),
            "Encounter "@ + debug_text(
                match p.name {
                    Some(t) => t@,
                    None => p.goal@,
                },
            ) + " created (id="@ + int_text(id as int) + ", xp_budget="@ + int_text(p.xp_budget as int)
                + ")"@,
            seq![
                field_view("goal"@, ValueView::Text(p.goal@)),
                field_view("xp_budget"@, ValueView::Int(p.xp_budget as int)),
                field_view("estimated_duration_hours"@, opt_int32(p.estimated_duration_hours)),
                field_view("participants"@, ValueView::Records(member_records(ps))),
            ],
            cast(ps),
        )
    }
}

/// The campaign with the encounter and its participants.
pub open spec fn created(w: World, p: CreateParams) -> World {
    World {
        encounters: w.encounters.push(created_row(w, p)),
        encounter_participants: w.encounter_participants + joining(
            next_id(w.encounters),
            views(p.participants@),
        ),
        ..w
    }.with_event(created_entry(w, p))
}

proof fn lemma_sideless(ps: Seq<CreateParticipant<Seq<char>>>, m: nat, n: nat)
    requires
        m <= n,
        sideless(ps, m) is Some,
    ensures
        sideless(ps, n) == sideless(ps, m),
    decreases n,
{
    if m < n {
        lemma_sideless(ps, m, (n - 1) as nat);
    }
}

proof fn lemma_members(w: World, ps: Seq<CreateParticipant<Seq<char>>>, m: nat, n: nat)
    requires
        m <= n,
        members_refusal(w, ps, m) is Some,
    ensures
        members_refusal(w, ps, n) == members_refusal(w, ps, m),
    decreases n,
{
    if m < n {
        lemma_members(w, ps, m, (n - 1) as nat);
    }
}

fn check_sides(ps: &Vec<CreateParticipant>) -> (r: Result<Vec<Side>, Error>)
    ensures
        match r {
            Ok(sides) => {
                &&& sideless(views(ps@), ps@.len()) is None
                &&& sides.len() == ps.len()
                &&& forall|k: int|
                    0 <= k < ps@.len() ==> Side::of_text((#[trigger] ps@[k]).side@) == Some(sides@[k])
            },
            Err(e) => {
                &&& sideless(views(ps@), ps@.len()) matches Some(k)
                &&& e@ == (Error::UnknownSide {
                    id: views(ps@)[k].character_id,
                    side: views(ps@)[k].side,
                })
            },
        },
{
    let mut sides: Vec<Side> = Vec::new();
    let mut i: usize = 0;
    while i < ps.len()
        invariant
            i <= ps.len(),
            sides.len() == i,
            sideless(views(ps@), i as nat) is None,
            forall|k: int| 0 <= k < i ==> Side::of_text((#[trigger] ps@[k]).side@) == Some(sides@[k]),
        decreases ps.len() - i,
    {
        assert(views(ps@)[i as int] == ps@[i as int]@);
        match Side::parse(ps[i].side.as_str()) {
            Some(s) => {
                sides.push(s);
            },
            None => {
                proof {
                    lemma_sideless(views(ps@), (i + 1) as nat, ps@.len());
                }
                return Err(
                    Error::UnknownSide { id: ps[i].character_id, side: ps[i].side.clone() },
                );
            },
        }
        i = i + 1;
    }
    Ok(sides)
}

fn check_members(c: &Campaign, ps: &Vec<CreateParticipant>) -> (r: Result<(), Error>)
    requires
        c@.wf(),
        c@.room(),
    ensures
        match r {
            Ok(_) => {
                &&& members_refusal(c@, views(ps@), ps@.len()) is None
                &&& forall|k: int|
                    0 <= k < ps@.len() ==> listed(c@.characters, (#[trigger] ps@[k]).character_id)
                &&& forall|j: int, k: int|
                    #![trigger ps@[j], ps@[k]]
                    0 <= j < k < ps@.len() ==> ps@[j].character_id != ps@[k].character_id
            },
            Err(e) => members_refusal(c@, views(ps@), ps@.len()) == Some(e@),
        },
{
    proof {
        lemma_tables(c@);
    }
    let encounter_id: i64 = crate::campaign::fresh_id(&c.encounters);
    let mut i: usize = 0;
    while i < ps.len()
        invariant
            c@.wf(),
            crate::campaign::ordered(c@.characters),
            encounter_id == next_id(c@.encounters),
            i <= ps.len(),
            members_refusal(c@, views(ps@), i as nat) is None,
            forall|k: int| 0 <= k < i ==> listed(c@.characters, (#[trigger] ps@[k]).character_id),
            forall|j: int, k: int|
                #![trigger ps@[j], ps@[k]]
                0 <= j < k < i ==> ps@[j].character_id != ps@[k].character_id,
        decreases ps.len() - i,
    {
        let id: i64 = ps[i].character_id;
        let mut j: usize = 0;
        let mut twice = false;
        while j < i
            invariant
                j <= i < ps.len(),
                id == ps@[i as int].character_id,
                twice == exists|k: int| 0 <= k < j && (#[trigger] ps@[k]).character_id == id,
            decreases i - j,
        {
            if ps[j].character_id == id {
                twice = true;
            }
            j = j + 1;
        }
        let mut fault: Option<Fault> = None;
        if twice {
            fault = Some(Fault::Unique);
        } else if find(&c.characters, id).is_none() {
            fault = Some(Fault::ForeignKey);
        }
        proof {
            let v = views(ps@);
            assert(v[i as int] == ps@[i as int]@);
            assert(twice == exists|k: int| 0 <= k < i && (#[trigger] v[k]).character_id == id) by {
                if twice {
                    let k = choose|k: int| 0 <= k < i && (#[trigger] ps@[k]).character_id == id;
                    assert(v[k].character_id == id);
                }
                if exists|k: int| 0 <= k < i && (#[trigger] v[k]).character_id == id {
                    let k = choose|k: int| 0 <= k < i && (#[trigger] v[k]).character_id == id;
                    assert(ps@[k].character_id == id);
                }
            }
            assert(fault == member_fault(c@, v, i as int));
        }
        if let Some(f) = fault {
            proof {
                lemma_members(c@, views(ps@), (i + 1) as nat, ps@.len());
            }
            return Err(
                Error::EncounterParticipantRow {
                    encounter_id,
                    character_id: id,
                    side: ps[i].side.clone(),
                    fault: f,
                },
            );
        }
        i = i + 1;
    }
    Ok(())
}

fn join_members(c: &mut Campaign, id: i64, ps: &Vec<CreateParticipant>, sides: &Vec<Side>)
    requires
        old(c)@.wf(),
        listed(old(c)@.encounters, id),
        forall|i: int|
            0 <= i < old(c)@.encounter_participants.len() ==> (#[trigger] old(
                c,
            )@.encounter_participants[i]).encounter_id != id,
        sides.len() == ps.len(),
        forall|k: int| 0 <= k < ps@.len() ==> Side::of_text((#[trigger] ps@[k]).side@) == Some(sides@[k]),
        forall|k: int| 0 <= k < ps@.len() ==> listed(old(c)@.characters, (#[trigger] ps@[k]).character_id),
        forall|j: int, k: int|
            #![trigger ps@[j], ps@[k]]
            0 <= j < k < ps@.len() ==> ps@[j].character_id != ps@[k].character_id,
    ensures
        final(c)@.wf(),
        final(c)@ == (World {
            encounter_participants: old(c)@.encounter_participants + joining(id, views(ps@)),
            ..old(c)@
        }),
{
    let ghost w = c@;
    let ghost rows = w.encounter_participants;
    let ghost all = joining(id, views(ps@));
    let mut k: usize = 0;
    assert(rows + all.take(0) =~= rows);
    while k < ps.len()
        invariant
            k <= ps.len(),
            c@.wf(),
            rows == w.encounter_participants,
            all == joining(id, views(ps@)),
            c@ == (World { encounter_participants: rows + all.take(k as int), ..w }),
            listed(w.encounters, id),
            forall|i: int| 0 <= i < rows.len() ==> (#[trigger] rows[i]).encounter_id != id,
            sides.len() == ps.len(),
            forall|k: int|
                0 <= k < ps@.len() ==> Side::of_text((#[trigger] ps@[k]).side@) == Some(sides@[k]),
            forall|k: int| 0 <= k < ps@.len() ==> listed(w.characters, (#[trigger] ps@[k]).character_id),
            forall|j: int, k: int|
                #![trigger ps@[j], ps@[k]]
                0 <= j < k < ps@.len() ==> ps@[j].character_id != ps@[k].character_id,
        decreases ps.len() - k,
    {
        let x = EncounterParticipant {
            encounter_id: id,
            character_id: ps[k].character_id,
            side: sides[k],
            initiative: None,
            has_acted_this_round: false,
        };
        proof {
            assert(Side::of_text(ps@[k as int].side@) == Some(sides@[k as int]));
            assert(views(ps@)[k as int] == ps@[k as int]@);
            assert(x == all[k as int]);
            let now = c@.encounter_participants;
            assert forall|i: int| 0 <= i < now.len() implies !((#[trigger] now[i]).encounter_id
                == x.encounter_id && now[i].character_id == x.character_id) by {
                if i < rows.len() {
                    assert(now[i] == rows[i]);
                } else {
                    let j = i - rows.len();
                    assert(now[i] == all[j]);
                    assert(all[j].character_id == ps@[j].character_id);
                }
            }
        }
        c.push_encounter_participant(x);
        assert(c@.encounter_participants =~= rows + all.take(k + 1));
        k = k + 1;
    }
    assert(all.take(k as int) =~= all);
}

/// Creates an encounter and writes `encounter.created`.
pub fn create(c: &mut Campaign, p: CreateParams) -> (r: Result<CreateResult, Error>)
    requires
        old(c)@.wf(),
        old(c)@.room(),
    ensures
        final(c)@.wf(),
        create_refusal(old(c)@, p) matches Some(e) ==> r is Err && r->Err_0@ == e && final(c)@ == old(
            c,
        )@,
        create_refusal(old(c)@, p) is None ==> {
            &&& r is Ok
            &&& r->Ok_0.encounter_id == next_id(old(c)@.encounters)
            &&& r->Ok_0.event_id == next_id(old(c)@.events)
            &&& final(c)@ == created(old(c)@, p)
        },
{
    let ghost w = c@;
    if p.xp_budget < 0 {
        return Err(Error::XpBudget { value: p.xp_budget });
    }
    let sides = match check_sides(&p.participants) {
        Ok(v) => v,
        Err(e) => {
            return Err(e);
        },
    };
    proof {
        lemma_tables(w);
    }
    if let Some(z) = p.zone_id {
        if find(&c.zones, z).is_none() {
            return Err(Error::EncounterRow);
        }
    }
    match check_members(c, &p.participants) {
        Ok(_) => {},
        Err(e) => {
            return Err(e);
        },
    }
    let now: i64 = current_campaign_hour(c);
    let hours: i32 = match p.estimated_duration_hours {
        Some(n) => n,
        None => 0,
    };
    let x = Encounter {
        id: 0,
        zone_id: p.zone_id,
        name: copy_opt(&p.name),
        goal: Some(p.goal.clone()),
        estimated_duration_hours: hours,
        xp_budget: p.xp_budget,
        status: EncounterStatus::Active,
        in_combat: false,
        current_round: None,
        turn_index: None,
        started_at_hour: now,
        ended_at_hour: None,
    };
    assert(Encounter { id: next_id(w.encounters), ..x@ } == created_row(w, p));
    let encounter_id: i64 = c.add_encounter(x);
    proof {
        lemma_push(w.encounters, created_row(w, p));
        reveal(World::wf);
        assert forall|i: int| 0 <= i < w.encounter_participants.len() implies (
        #[trigger] w.encounter_participants[i]).encounter_id != encounter_id by {
            assert(listed(w.encounters, w.encounter_participants[i].encounter_id));
        }
    }
    join_members(c, encounter_id, &p.participants, &sides);
    let ps = &p.participants;
    let ghost v = views(ps@);
    let mut who: Vec<EventParticipant> = Vec::new();
    let mut records: Vec<Vec<Cell>> = Vec::new();
    let mut k: usize = 0;
    while k < ps.len()
        invariant
            k <= ps.len(),
            v == views(ps@),
            who@ == cast(v).take(k as int),
            records.len() == k,
            forall|j: int| 0 <= j < k ==> views((#[trigger] records@[j])@) == member_records(v)[j],
        decreases ps.len() - k,
    {
        assert(v[k as int] == ps@[k as int]@);
        let role = if crate::text::same(ps[k].side.as_str(), "player_side") {
            EventRole::Actor
        } else {
            EventRole::Target
        };
        who.push(EventParticipant { character_id: ps[k].character_id, role });
        assert(who@ =~= cast(v).take(k + 1));
        let cells = cells2(
            make_int_cell("character_id", ps[k].character_id),
            make_text_cell("side", ps[k].side.as_str()),
        );
        assert(views(cells@) =~= member_records(v)[k as int]);
        records.push(cells);
        k = k + 1;
    }
    assert(who@ =~= cast(v));
    assert(Value::Records(records)@->Records_0 =~= member_records(v));
    let shown = match &p.name {
        Some(t) => t.clone(),
        None => p.goal.clone(),
    };
    let mut s = "Encounter ".to_owned();
    s.append(quoted(shown.as_str()).as_str());
    s.append(" created (id=");
    s.append(decimal(encounter_id).as_str());
    s.append(", xp_budget=");
    s.append(decimal(p.xp_budget as i64).as_str());
    s.append(")");
    let base = entry(
        "encounter.created",
        now,
        s,
        fields4(
            text_field("goal", p.goal.as_str()),
            int_field("xp_budget", p.xp_budget as i64),
            opt_int32_field("estimated_duration_hours", p.estimated_duration_hours),
            field("participants", Value::Records(records)),
        ),
        who,
    );
    let e = Event { zone_id: p.zone_id, encounter_id: Some(encounter_id), ..base };
    assert(e@ == created_entry(w, p));
    proof {
        assert forall|j: int| 0 <= j < e@.participants.len() implies listed(
            c@.characters,
            (#[trigger] e@.participants[j]).character_id,
        ) by {
            assert(listed(w.characters, p.participants@[j].character_id));
        }
    }
    let event_id: i64 = c.add_event(e);
    assert(c@ == created(w, p));
    Ok(CreateResult { encounter_id, event_id })
}

// ── encounter.goal_completed ──

/// The players of an encounter, in the order in which they joined.
pub open spec fn players_of(rows: Seq<EncounterParticipant>, id: i64) -> Seq<i64>
    decreases rows.len(),
{
    if rows.len() == 0 {
        Seq::empty()
    } else {
        let rest = players_of(rows.drop_last(), id);
        if rows.last().encounter_id == id && rows.last().side == Side::PlayerSide {
            rest.push(rows.last().character_id)
        } else {
            rest
        }
    }
}

/// What the experience is multiplied by: at least 0, at most 2.
pub open spec fn modifier_of(p: CompleteParams) -> Double {
    match p.xp_modifier {
        Some(x) => x.within_two(),
        None => Double { bits: ONE },
    }
}

/// The experience that the encounter gives, rounded to the nearest whole number. What is no
/// number gives none.
pub open spec fn scaled(budget: i32, modifier: Double) -> i32 {
    if modifier.is_nan() {
        0
    } else if product(budget as nat, modifier) > i32::MAX {
        i32::MAX
    } else {
        product(budget as nat, modifier) as i32
    }
}

/// What each of `n` players gets.
pub open spec fn share(budget: i32, modifier: Double, n: nat) -> i32 {
    if n == 0 {
        0
    } else {
        (scaled(budget, modifier) as int / n as int) as i32
    }
}

/// The characters after each of the players has got its share.
pub open spec fn awarded(
    rows: Seq<Character<Seq<char>>>,
    players: Seq<i64>,
    xp: i32,
    now: i64,
) -> Seq<Character<Seq<char>>> {
    Seq::new(
        rows.len(),
        |i: int|
            if players.contains(rows[i].id) {
                Character { xp_total: (rows[i].xp_total + xp) as i64, updated_at: now, ..rows[i] }
            } else {
                rows[i]
            },
    )
}

/// The hours that the encounter took.
pub open spec fn hours_of(w: World, p: CompleteParams) -> i32 {
    match p.hours_elapsed {
        Some(n) => n,
        None => row(w.encounters, p.encounter_id).estimated_duration_hours,
    }
}

/// The hour at which the encounter ends.
pub open spec fn end_hour(w: World, p: CompleteParams) -> i64 {
    (campaign_hour(w) + (if hours_of(w, p) > 0 {
        hours_of(w, p) as int
    } else {
        0
    })) as i64
}

pub open spec fn complete_refusal(w: World, p: CompleteParams) -> Option<Error<Seq<char>>> {
    if !listed(w.encounters, p.encounter_id) {
        Some(Error::EncounterNotFound { id: p.encounter_id })
    } else if row(w.encounters, p.encounter_id).status != EncounterStatus::Active {
        Some(
            Error::CannotComplete {
                id: p.encounter_id,
                status: row(w.encounters, p.encounter_id).status,
            },
        )
    } else {
        None
    }
}

pub open spec fn awards(players: Seq<i64>, xp: i32) -> Seq<PlayerXpAward> {
    Seq::new(players.len(), |k: int| PlayerXpAward { character_id: players[k], xp })
}

pub open spec fn award_records(players: Seq<i64>, xp: i32) -> Seq<Seq<Cell<Seq<char>>>> {
    Seq::new(
        players.len(),
        |k: int| seq![int_cell("character_id"@, players[k] as int), int_cell("xp"@, xp as int)],
    )
}

pub open spec fn beneficiaries(players: Seq<i64>) -> Seq<EventParticipant> {
    Seq::new(
        players.len(),
        |k: int| EventParticipant { character_id: players[k], role: EventRole::Beneficiary },
    )
}

/// What each player gets for the encounter.
pub open spec fn share_of(w: World, p: CompleteParams) -> i32 {
    share(
        row(w.encounters, p.encounter_id).xp_budget,
        modifier_of(p),
        players_of(w.encounter_participants, p.encounter_id).len(),
    )
}

/// What the players get together.
pub open spec fn total_of(w: World, p: CompleteParams) -> int {
    share_of(w, p) * players_of(w.encounter_participants, p.encounter_id).len()
}

pub open spec fn completed_entry(w: World, p: CompleteParams) -> EventView {
    let r = row(w.encounters, p.encounter_id);
    let players = players_of(w.encounter_participants, p.encounter_id);
    EventView {
        zone_id: r.zone_id,
        encounter_id: Some(p.encounter_id),
        ..entry_view(
            "encounter.goal_completed"@,
            end_hour(w, p),
            "Encounter id="@ + int_text(p.encounter_id as int) + " goal completed via path "@ + debug_text(
                p.path@,
            ) + " — awarded "@ + int_text(total_of(w, p)) + " XP across "@ + int_text(players.len() as int)
                + " player(s)"@,
            seq![
                field_view("path"@, ValueView::Text(p.path@)),
                field_view("xp_modifier"@, ValueView::Number(modifier_of(p))),
                field_view("xp_budget"@, ValueView::Int(r.xp_budget as int)),
                field_view("xp_budget_scaled"@, ValueView::Int(scaled(r.xp_budget, modifier_of(p)) as int)),
                field_view("xp_total"@, ValueView::Int(total_of(w, p))),
                field_view("per_player_xp"@, ValueView::Records(award_records(players, share_of(w, p)))),
                field_view("hours_elapsed"@, ValueView::Int(hours_of(w, p) as int)),
            ],
            beneficiaries(players),
        )
    }
}

/// The campaign with the encounter completed and its players rewarded.
pub open spec fn completed(w: World, p: CompleteParams) -> World {
    World {
        encounters: put(
            w.encounters,
            Encounter {
                status: EncounterStatus::GoalCompleted,
                ended_at_hour: Some(end_hour(w, p)),
                ..row(w.encounters, p.encounter_id)
            },
        ),
        characters: awarded(
            w.characters,
            players_of(w.encounter_participants, p.encounter_id),
            share_of(w, p),
            end_hour(w, p),
        ),
        ..w
    }.with_event(completed_entry(w, p))
}

fn list_players(c: &Campaign, id: i64) -> (r: Vec<i64>)
    ensures
        r@ == players_of(c@.encounter_participants, id),
        r.len() <= c.encounter_participants.len(),
{
    let mut out: Vec<i64> = Vec::new();
    let rows = &c.encounter_participants;
    let mut i: usize = 0;
    while i < rows.len()
        invariant
            i <= rows.len(),
            out.len() <= i,
            out@ == players_of(rows@.take(i as int), id),
        decreases rows.len() - i,
    {
        assert(rows@.take(i + 1).drop_last() =~= rows@.take(i as int));
        if rows[i].encounter_id == id && rows[i].side == Side::PlayerSide {
            out.push(rows[i].character_id);
        }
        i = i + 1;
    }
    assert(rows@.take(i as int) =~= rows@);
    assert(c@.encounter_participants =~= rows@);
    out
}

proof fn lemma_players(w: World, rows: Seq<EncounterParticipant>, id: i64)
    requires
        forall|i: int| 0 <= i < rows.len() ==> listed(w.characters, (#[trigger] rows[i]).character_id),
    ensures
        forall|k: int|
            0 <= k < players_of(rows, id).len() ==> listed(
                w.characters,
                #[trigger] players_of(rows, id)[k],
            ),
    decreases rows.len(),
{
    if rows.len() > 0 {
        let rest = rows.drop_last();
        assert forall|i: int| 0 <= i < rest.len() implies listed(
            w.characters,
            (#[trigger] rest[i]).character_id,
        ) by {
            assert(rest[i] == rows[i]);
        }
        lemma_players(w, rest, id);
        let last = rows[rows.len() - 1];
        assert(listed(w.characters, last.character_id));
        let players = players_of(rows, id);
        let before = players_of(rest, id);
        assert forall|k: int| 0 <= k < players.len() implies listed(w.characters, #[trigger] players[k]) by {
            if k < before.len() {
                assert(players[k] == before[k]);
            }
        }
    }
}

/// Gives each of the players its share.
fn award(c: &mut Campaign, players: &Vec<i64>, xp: i32, now: i64)
    requires
        xp >= 0,
        old(c)@.wf(),
        old(c)@.room(),
    ensures
        final(c)@.wf(),
        final(c)@ == (World { characters: awarded(old(c)@.characters, players@, xp, now), ..old(c)@ }),
        forall|id: i64| #[trigger] listed(final(c)@.characters, id) == listed(old(c)@.characters, id),
{
    let ghost w = c@;
    let n: usize = c.characters.len();
    let mut i: usize = 0;
    while i < n
        invariant
            i <= n,
            xp >= 0,
            n == c.characters.len(),
            n == w.characters.len(),
            w.room(),
            c@.wf(),
            c@ == (World { characters: c@.characters, ..w }),
            forall|id: i64| #[trigger] listed(c@.characters, id) == listed(w.characters, id),
            forall|j: int|
                0 <= j < i ==> #[trigger] c@.characters[j] == awarded(w.characters, players@, xp, now)[j],
            forall|j: int| i <= j < n ==> #[trigger] c@.characters[j] == w.characters[j],
        decreases n - i,
    {
        let mut ch = c.characters[i].copy();
        let ghost ch0 = ch@;
        proof {
            assert(c@.characters[i as int] == ch0);
            assert(w.characters[i as int].xp_total <= crate::campaign::HOUR_LIMIT);
            assert(c@.character_ok(ch0)) by {
                reveal(World::wf);
            }
        }
        if is_among(players, ch.id) {
            ch.xp_total = ch.xp_total + xp as i64;
            ch.updated_at = now;
            c.set_character(i, ch);
            assert(c@.characters.len() == n);
        }
        i = i + 1;
    }
    assert(c@.characters =~= awarded(w.characters, players@, xp, now));
}

/// The experience that the encounter gives.
fn scale(budget: i32, modifier: Double) -> (r: i32)
    requires
        budget >= 0,
        modifier.within_two() == modifier,
    ensures
        r == scaled(budget, modifier),
        r >= 0,
{
    if modifier.check_nan() {
        return 0;
    }
    let whole: u128 = multiply(budget as u32, modifier);
    if whole > 0x7fff_ffff {
        0x7fff_ffff
    } else {
        whole as i32
    }
}

/// Completes an encounter, gives each of its players an equal share of its experience, and
/// writes `encounter.goal_completed`.
pub fn complete(c: &mut Campaign, p: CompleteParams) -> (r: Result<CompleteResult, Error>)
    requires
        old(c)@.wf(),
        old(c)@.room(),
    ensures
        final(c)@.wf(),
        complete_refusal(old(c)@, p) matches Some(e) ==> r is Err && r->Err_0@ == e && final(c)@ == old(
            c,
        )@,
        complete_refusal(old(c)@, p) is None ==> {
            &&& r is Ok
            &&& r->Ok_0.encounter_id == p.encounter_id
            &&& r->Ok_0.status@ == "goal_completed"@
            &&& r->Ok_0.xp_awarded_total == total_of(old(c)@, p)
            &&& r->Ok_0.per_player_xp@ == awards(
                players_of(old(c)@.encounter_participants, p.encounter_id),
                share_of(old(c)@, p),
            )
            &&& r->Ok_0.event_id == next_id(old(c)@.events)
            &&& final(c)@ == completed(old(c)@, p)
        },
{
    let ghost w = c@;
    let id: i64 = p.encounter_id;
    proof {
        lemma_tables(w);
    }
    let i: usize = match find(&c.encounters, id) {
        Some(i) => i,
        None => {
            return Err(Error::EncounterNotFound { id });
        },
    };
    let mut r = c.encounters[i].copy();
    let ghost r0 = r@;
    if r.status != EncounterStatus::Active {
        return Err(Error::CannotComplete { id, status: r.status });
    }
    proof {
        lemma_encounter(w, id);
        assert(w.encounters[i as int].current_round != Some(i32::MAX));
    }
    let m: Double = match p.xp_modifier {
        Some(x) => x.clamp_to_two(),
        None => Double { bits: ONE },
    };
    let budget: i32 = r.xp_budget;
    let pot: i32 = scale(budget, m);
    let players = list_players(c, id);
    let n: usize = players.len();
    let xp: i32 = if n == 0 {
        0
    } else {
        pot / (n as i32)
    };
    assert(xp == share_of(w, p));
    assert(0 <= xp * (n as int) <= pot) by (nonlinear_arith)
        requires
            pot >= 0,
            n >= 0,
            n == 0 ==> xp == 0,
            n > 0 ==> xp == pot as int / n as int,
    ;
    let total: i32 = xp * (n as i32);
    let hours: i32 = match p.hours_elapsed {
        Some(k) => k,
        None => r.estimated_duration_hours,
    };
    let now: i64 = current_campaign_hour(c) + (if hours > 0 {
        hours as i64
    } else {
        0
    });
    assert(now == end_hour(w, p));
    let zone = r.zone_id;
    r.status = EncounterStatus::GoalCompleted;
    r.ended_at_hour = Some(now);
    assert(r@ == Encounter {
        status: EncounterStatus::GoalCompleted,
        ended_at_hour: Some(now),
        ..r0
    });
    c.set_encounter(i, r);
    award(c, &players, xp, now);
    let mut list: Vec<PlayerXpAward> = Vec::new();
    let mut records: Vec<Vec<Cell>> = Vec::new();
    let mut who: Vec<EventParticipant> = Vec::new();
    let mut k: usize = 0;
    while k < players.len()
        invariant
            k <= players.len(),
            list@ == awards(players@, xp).take(k as int),
            records.len() == k,
            forall|j: int| 0 <= j < k ==> views((#[trigger] records@[j])@) == award_records(players@, xp)[j],
            who@ == beneficiaries(players@).take(k as int),
        decreases players.len() - k,
    {
        list.push(PlayerXpAward { character_id: players[k], xp });
        assert(list@ =~= awards(players@, xp).take(k + 1));
        let cells = cells2(make_int_cell("character_id", players[k]), make_int_cell("xp", xp as i64));
        assert(views(cells@) =~= award_records(players@, xp)[k as int]);
        records.push(cells);
        who.push(EventParticipant { character_id: players[k], role: EventRole::Beneficiary });
        assert(who@ =~= beneficiaries(players@).take(k + 1));
        k = k + 1;
    }
    proof {
        assert(list@ =~= awards(players@, xp));
        assert(who@ =~= beneficiaries(players@));
        assert(Value::Records(records)@->Records_0 =~= award_records(players@, xp));
    }
    let mut s = "Encounter id=".to_owned();
    s.append(decimal(id).as_str());
    s.append(" goal completed via path ");
    s.append(quoted(p.path.as_str()).as_str());
    s.append(" — awarded ");
    s.append(decimal(total as i64).as_str());
    s.append(" XP across ");
    s.append(decimal(n as i64).as_str());
    s.append(" player(s)");
    let base = entry(
        "encounter.goal_completed",
        now,
        s,
        fields7(
            text_field("path", p.path.as_str()),
            field("xp_modifier", Value::Number(m)),
            int_field("xp_budget", budget as i64),
            int_field("xp_budget_scaled", pot as i64),
            int_field("xp_total", total as i64),
            field("per_player_xp", Value::Records(records)),
            int_field("hours_elapsed", hours as i64),
        ),
        who,
    );
    let e = Event { zone_id: zone, encounter_id: Some(id), ..base };
    assert(e@ == completed_entry(w, p));
    proof {
        assert(forall|k: int|
            0 <= k < w.encounter_participants.len() ==> listed(
                w.characters,
                (#[trigger] w.encounter_participants[k]).character_id,
            )) by {
            reveal(World::wf);
        }
        lemma_players(w, w.encounter_participants, id);
    }
    let event_id: i64 = c.add_event(e);
    assert(c@ == completed(w, p));
    Ok(
        CompleteResult {
            encounter_id: id,
            status: "goal_completed".to_owned(),
            xp_awarded_total: total,
            per_player_xp: list,
            event_id,
        },
    )
}

// ── encounter.abandoned, encounter.failed ──

pub open spec fn finish_refusal(w: World, id: i64) -> Option<Error<Seq<char>>> {
    if !listed(w.encounters, id) {
        Some(Error::EncounterNotFound { id })
    } else if row(w.encounters, id).status != EncounterStatus::Active {
        Some(Error::EncounterNotActive { id, status: row(w.encounters, id).status })
    } else {
        None
    }
}

pub open spec fn finished_entry(
    w: World,
    id: i64,
    status: EncounterStatus,
    kind: Seq<char>,
    reason: Seq<char>,
) -> EventView {
    EventView {
        zone_id: row(w.encounters, id).zone_id,
        encounter_id: Some(id),
        ..entry_view(
            kind,
            campaign_hour(w),
            "Encounter id="@ + int_text(id as int) + " "@ + status.text() + ": "@ + reason,
            seq![
                field_view("reason"@, ValueView::Text(reason)),
                field_view("status"@, ValueView::Text(status.text())),
            ],
            Seq::empty(),
        )
    }
}

/// The campaign with the encounter over without reward.
pub open spec fn finished(
    w: World,
    id: i64,
    status: EncounterStatus,
    kind: Seq<char>,
    reason: Seq<char>,
) -> World {
    World {
        encounters: put(
            w.encounters,
            Encounter { status, ended_at_hour: Some(campaign_hour(w)), ..row(w.encounters, id) },
        ),
        ..w
    }.with_event(finished_entry(w, id, status, kind, reason))
}

fn finish_without_xp(
    c: &mut Campaign,
    id: i64,
    status: EncounterStatus,
    kind: &str,
    reason: &str,
) -> (r: Result<OutcomeResult, Error>)
    requires
        old(c)@.wf(),
        old(c)@.room(),
    ensures
        final(c)@.wf(),
        finish_refusal(old(c)@, id) matches Some(e) ==> r is Err && r->Err_0@ == e && final(c)@ == old(
            c,
        )@,
        finish_refusal(old(c)@, id) is None ==> {
            &&& r is Ok
            &&& r->Ok_0.encounter_id == id
            &&& r->Ok_0.status@ == status.text()
            &&& r->Ok_0.event_id == next_id(old(c)@.events)
            &&& final(c)@ == finished(old(c)@, id, status, kind@, reason@)
        },
{
    let ghost w = c@;
    proof {
        lemma_tables(w);
    }
    let i: usize = match find(&c.encounters, id) {
        Some(i) => i,
        None => {
            return Err(Error::EncounterNotFound { id });
        },
    };
    let mut r = c.encounters[i].copy();
    let ghost r0 = r@;
    if r.status != EncounterStatus::Active {
        return Err(Error::EncounterNotActive { id, status: r.status });
    }
    proof {
        lemma_encounter(w, id);
    }
    let now: i64 = current_campaign_hour(c);
    let zone = r.zone_id;
    r.status = status;
    r.ended_at_hour = Some(now);
    assert(r@ == Encounter { status, ended_at_hour: Some(now), ..r0 });
    c.set_encounter(i, r);
    let mut s = "Encounter id=".to_owned();
    s.append(decimal(id).as_str());
    s.append(" ");
    s.append(status.as_str());
    s.append(": ");
    s.append(reason);
    let base = entry(
        kind,
        now,
        s,
        fields2(text_field("reason", reason), text_field("status", status.as_str())),
        nobody(),
    );
    let e = Event { zone_id: zone, encounter_id: Some(id), ..base };
    assert(e@ == finished_entry(w, id, status, kind@, reason@));
    let event_id: i64 = c.add_event(e);
    assert(c@ == finished(w, id, status, kind@, reason@));
    Ok(OutcomeResult { encounter_id: id, status: status.as_str().to_owned(), event_id })
}

/// Gives an encounter up.
pub fn abandon(c: &mut Campaign, p: AbandonParams) -> (r: Result<OutcomeResult, Error>)
    requires
        old(c)@.wf(),
        old(c)@.room(),
    ensures
        final(c)@.wf(),
        finish_refusal(old(c)@, p.encounter_id) matches Some(e) ==> r is Err && r->Err_0@ == e && final(c)@
            == old(c)@,
        finish_refusal(old(c)@, p.encounter_id) is None ==> {
            &&& r is Ok
            &&& r->Ok_0.encounter_id == p.encounter_id
            &&& r->Ok_0.status@ == "abandoned"@
            &&& r->Ok_0.event_id == next_id(old(c)@.events)
            &&& final(c)@ == finished(
                old(c)@,
                p.encounter_id,
                EncounterStatus::Abandoned,
                "encounter.abandoned"@,
                p.reason@,
            )
        },
{
    finish_without_xp(
        c,
        p.encounter_id,
        EncounterStatus::Abandoned,
        "encounter.abandoned",
        p.reason.as_str(),
    )
}

/// Loses an encounter.
pub fn fail(c: &mut Campaign, p: FailParams) -> (r: Result<OutcomeResult, Error>)
    requires
        old(c)@.wf(),
        old(c)@.room(),
    ensures
        final(c)@.wf(),
        finish_refusal(old(c)@, p.encounter_id) matches Some(e) ==> r is Err && r->Err_0@ == e && final(c)@
            == old(c)@,
        finish_refusal(old(c)@, p.encounter_id) is None ==> {
            &&& r is Ok
            &&& r->Ok_0.encounter_id == p.encounter_id
            &&& r->Ok_0.status@ == "failed"@
            &&& r->Ok_0.event_id == next_id(old(c)@.events)
            &&& final(c)@ == finished(
                old(c)@,
                p.encounter_id,
                EncounterStatus::Failed,
                "encounter.failed"@,
                p.reason@,
            )
        },
{
    finish_without_xp(c, p.encounter_id, EncounterStatus::Failed, "encounter.failed", p.reason.as_str())
}

// ── Laws ──

/// The sum of what the players are awarded.
pub open spec fn award_sum(list: Seq<PlayerXpAward>) -> int
    decreases list.len(),
{
    if list.len() == 0 {
        0
    } else {
        award_sum(list.drop_last()) + list.last().xp
    }
}

proof fn lemma_award_sum(players: Seq<i64>, xp: i32, n: nat)
    requires
        n <= players.len(),
    ensures
        award_sum(awards(players, xp).take(n as int)) == xp * n,
    decreases n,
{
    let list = awards(players, xp).take(n as int);
    if n > 0 {
        lemma_award_sum(players, xp, (n - 1) as nat);
        assert(list.drop_last() =~= awards(players, xp).take(n - 1));
        assert(xp * n == xp * (n - 1) + xp) by (nonlinear_arith);
    } else {
        assert(xp * n == 0) by (nonlinear_arith)
            requires
                n == 0,
        ;
    }
}

/// What is told as the experience given is the sum of what the players get, is never more
/// than what the encounter is worth, and falls short of it by less than one point a player.
pub proof fn law_awards_add_up(w: World, p: CompleteParams)
    requires
        w.wf(),
        complete_refusal(w, p) is None,
    ensures
        ({
            let players = players_of(w.encounter_participants, p.encounter_id);
            let pot = scaled(row(w.encounters, p.encounter_id).xp_budget, modifier_of(p));
            &&& total_of(w, p) == award_sum(awards(players, share_of(w, p)))
            &&& 0 <= total_of(w, p) <= pot
            &&& players.len() > 0 ==> pot - total_of(w, p) < players.len()
        }),
{
    let players = players_of(w.encounter_participants, p.encounter_id);
    let budget = row(w.encounters, p.encounter_id).xp_budget;
    let pot = scaled(budget, modifier_of(p));
    let xp = share_of(w, p);
    let n = players.len();
    lemma_encounter(w, p.encounter_id);
    lemma_award_sum(players, xp, n);
    assert(awards(players, xp).take(n as int) =~= awards(players, xp));
    if n > 0 {
        vstd::arithmetic::div_mod::lemma_fundamental_div_mod(pot as int, n as int);
        assert(0 <= pot as int / n as int <= pot) by (nonlinear_arith)
            requires
                pot >= 0,
                n > 0,
        ;
        assert(xp * n == n * (pot as int / n as int)) by (nonlinear_arith)
            requires
                xp == pot as int / n as int,
        ;
    } else {
        assert(xp * n == 0) by (nonlinear_arith)
            requires
                n == 0,
        ;
    }
}

/// Where nothing is said of it the encounter gives all that it is worth.
pub proof fn law_goal_earns_the_whole_budget(w: World, p: CompleteParams)
    requires
        w.wf(),
        complete_refusal(w, p) is None,
        p.xp_modifier is None,
    ensures
        scaled(row(w.encounters, p.encounter_id).xp_budget, modifier_of(p)) == row(
            w.encounters,
            p.encounter_id,
        ).xp_budget,
{
    lemma_encounter(w, p.encounter_id);
    law_once_is_the_same(row(w.encounters, p.encounter_id).xp_budget as u32);
}

/// The way to the goal does not matter: whichever is taken, each player gets the same.
pub proof fn law_any_path_earns_the_same(w: World, p: CompleteParams, q: CompleteParams)
    requires
        p.encounter_id == q.encounter_id,
        p.xp_modifier == q.xp_modifier,
    ensures
        share_of(w, p) == share_of(w, q),
        total_of(w, p) == total_of(w, q),
{
}

/// An encounter that is over stays as it is: it is neither completed, given up nor lost again.
pub proof fn law_encounter_ends_once(
    w: World,
    p: CompleteParams,
    id: i64,
    status: EncounterStatus,
    kind: Seq<char>,
    reason: Seq<char>,
)
    requires
        w.wf(),
        p.encounter_id == id,
        complete_refusal(w, p) is None,
        status != EncounterStatus::Active,
    ensures
        complete_refusal(completed(w, p), p) is Some,
        finish_refusal(completed(w, p), id) is Some,
        complete_refusal(finished(w, id, status, kind, reason), p) is Some,
        finish_refusal(finished(w, id, status, kind, reason), id) is Some,
{
    lemma_tables(w);
    lemma_encounter(w, id);
    let k = crate::campaign::index_of(w.encounters, id);
    crate::campaign::lemma_update(w.encounters, k, completed(w, p).encounters[k]);
    crate::campaign::lemma_update(w.encounters, k, finished(w, id, status, kind, reason).encounters[k]);
}

} // verus!
