//! Combat: initiative and turns, damage, healing, and the way from 0 hit points to death.

use vstd::prelude::*;
use crate::campaign::{
    find, index_of, lemma_character, lemma_encounter, lemma_index, lemma_len, lemma_row, lemma_tables,
    lemma_update, listed, next_id, ordered, put, row, top, Campaign, World, ID_LIMIT,
};
use crate::conditions::{condition_over, end_condition, find_newest, lemma_newest, newest};
use crate::content::{Content, DeathEvent};
use crate::error::Error;
use crate::events::{
    bool_field, cells3, copy_ints, entry, entry_view, field, field_view, fields2, fields3, fields4, fields5,
    fields6, fields7, int_cell, int_field, make_int_cell, make_text_cell, nobody, one, only, opt_int,
    opt_int_field, opt_str, opt_text_field, text_cell, text_field,
};
use crate::random::random_between;
use crate::rows::{
    views, Cell, Character, Condition, Effect, Encounter, EncounterParticipant, EncounterStatus, Event,
    EventParticipant, EventRole, EventView, Status, Value, ValueView,
};
use crate::text::{copy_list, debug_text, decimal, int_text, opt_text, quoted, texts};
use crate::world::{campaign_hour, current_campaign_hour};

verus! {

#[derive(Debug, Clone, PartialEq, Eq)]
pub struct ApplyDamageParams {
    pub character_id: i64,
    pub amount: i32,
    pub damage_type: Option<String>,
    pub source: Option<String>,
    pub encounter_id: Option<i64>,
}

#[derive(Debug, Clone, PartialEq, Eq)]
pub struct ApplyDamageResult {
    pub character_id: i64,
    pub hp_current: i32,
    pub status: String,
    pub newly_unconscious: bool,
    pub mortally_wounded_condition_id: Option<i64>,
    pub event_id: i64,
}

#[derive(Debug, Clone, PartialEq, Eq)]
pub struct ApplyHealingParams {
    pub character_id: i64,
    pub amount: i32,
    pub source: Option<String>,
}

#[derive(Debug, Clone, PartialEq, Eq)]
pub struct ApplyHealingResult {
    pub character_id: i64,
    pub hp_current: i32,
    pub status: String,
    pub cleared_mortally_wounded: bool,
    pub event_id: i64,
}

#[derive(Debug, Clone, PartialEq, Eq)]
pub struct DeathSaveParams {
    pub character_id: i64,
}

#[derive(Debug, Clone, PartialEq, Eq)]
pub struct DeathSaveResult {
    pub character_id: i64,
    pub d20: i32,
    pub outcome: String,
    pub successes: i32,
    pub failures: i32,
    pub status: String,
    pub event_id: i64,
}

/// The round that the encounter is in, where it is one and in combat.
pub open spec fn round_of(w: World, encounter_id: Option<i64>) -> Option<i32> {
    match encounter_id {
        Some(e) => if listed(w.encounters, e) {
            row(w.encounters, e).current_round
        } else {
            None
        },
        None => None,
    }
}

/// The hit points left after damage: never below 0.
pub open spec fn hp_after_damage(hp: i32, amount: i32) -> i32 {
    if hp <= amount {
        0
    } else {
        (hp - amount) as i32
    }
}

/// The hit points after healing: never above the maximum.
pub open spec fn hp_after_healing(hp: i32, hp_max: i32, amount: i32) -> i32 {
    if hp + amount <= hp_max {
        (hp + amount) as i32
    } else {
        hp_max
    }
}

/// Whether the damage takes a character that still had hit points to 0.
pub open spec fn hits_zero(ch: Character<Seq<char>>, amount: i32) -> bool {
    ch.hp_current > 0 && hp_after_damage(ch.hp_current, amount) == 0
}

/// Whether the damage makes a living character fall.
pub open spec fn falls(ch: Character<Seq<char>>, amount: i32) -> bool {
    hits_zero(ch, amount) && ch.status == Status::Alive
}

pub open spec fn damage_refusal(w: World, p: ApplyDamageParams) -> Option<Error<Seq<char>>> {
    if p.amount < 0 {
        Some(Error::NegativeDamage)
    } else if !listed(w.characters, p.character_id) {
        Some(Error::CharacterNotFound { id: p.character_id })
    } else if p.encounter_id matches Some(e) && !listed(w.encounters, e) {
        Some(Error::EventRow)
    } else {
        None
    }
}

pub open spec fn wounded_entry(w: World, p: ApplyDamageParams) -> EventView {
    EventView {
        combat_round: round_of(w, p.encounter_id),
        encounter_id: p.encounter_id,
        ..entry_view(
            "condition.applied"@,
            campaign_hour(w),
            "Character id="@ + int_text(p.character_id as int) + " mortally_wounded at 0 HP"@,
            seq![
                field_view("condition"@, ValueView::Text("mortally_wounded"@)),
                field_view("severity"@, ValueView::Int(1)),
            ],
            one(p.character_id, EventRole::Target),
        )
    }
}

pub open spec fn damage_entry(w: World, p: ApplyDamageParams) -> EventView {
    let ch = row(w.characters, p.character_id);
    let hp = hp_after_damage(ch.hp_current, p.amount);
    EventView {
        combat_round: round_of(w, p.encounter_id),
        encounter_id: p.encounter_id,
        ..entry_view(
            "combat.apply_damage"@,
            campaign_hour(w),
            "Character id="@ + int_text(p.character_id as int) + " took "@ + int_text(p.amount as int)
                + " damage ("@ + int_text(ch.hp_current as int) + "→"@ + int_text(hp as int) + " HP)"@,
            seq![
                field_view("amount"@, ValueView::Int(p.amount as int)),
                field_view("damage_type"@, opt_str(opt_text(p.damage_type))),
                field_view("source"@, opt_str(opt_text(p.source))),
                field_view("hp_before"@, ValueView::Int(ch.hp_current as int)),
                field_view("hp_after"@, ValueView::Int(hp as int)),
                field_view("newly_unconscious"@, ValueView::Bool(hits_zero(ch, p.amount))),
                field_view("hp_max"@, ValueView::Int(ch.hp_max as int)),
            ],
            one(p.character_id, EventRole::Target),
        )
    }
}

/// The campaign after the damage. A living character that it takes to 0 falls unconscious,
/// with no death saves made yet, and is mortally wounded.
pub open spec fn damaged(w: World, p: ApplyDamageParams) -> World {
    let ch = row(w.characters, p.character_id);
    let now = campaign_hour(w);
    let hurt = if falls(ch, p.amount) {
        let fallen = World {
            characters: put(
                w.characters,
                Character {
                    hp_current: 0,
                    status: Status::Unconscious,
                    death_save_successes: 0,
                    death_save_failures: 0,
                    updated_at: now,
                    ..ch
                },
            ),
            ..w
        };
        let logged = fallen.with_event(wounded_entry(w, p));
        World {
            conditions: logged.conditions.push(
                Condition {
                    id: next_id(w.conditions),
                    character_id: p.character_id,
                    condition: "mortally_wounded"@,
                    severity: 1,
                    source_event_id: Some(next_id(w.events)),
                    expires_at_hour: None,
                    expires_after_rounds: None,
                    remove_on_save: None,
                    active: true,
                },
            ),
            ..logged
        }
    } else {
        World {
            characters: put(
                w.characters,
                Character {
                    hp_current: hp_after_damage(ch.hp_current, p.amount),
                    updated_at: now,
                    ..ch
                },
            ),
            ..w
        }
    };
    hurt.with_event(damage_entry(w, p))
}

/// Takes hit points from a character.
pub fn apply_damage(c: &mut Campaign, p: ApplyDamageParams) -> (r: Result<ApplyDamageResult, Error>)
    requires
        old(c)@.wf(),
        old(c)@.room(),
    ensures
        final(c)@.wf(),
        damage_refusal(old(c)@, p) matches Some(e) ==> r is Err && r->Err_0@ == e && final(c)@ == old(
            c,
        )@,
        damage_refusal(old(c)@, p) is None ==> {
            let ch = row(old(c)@.characters, p.character_id);
            &&& r is Ok
            &&& r->Ok_0.character_id == p.character_id
            &&& r->Ok_0.hp_current == hp_after_damage(ch.hp_current, p.amount)
            &&& r->Ok_0.status@ == (if falls(ch, p.amount) {
                Status::Unconscious
            } else {
                ch.status
            }).text()
            &&& r->Ok_0.newly_unconscious == hits_zero(ch, p.amount)
            &&& r->Ok_0.mortally_wounded_condition_id == (if falls(ch, p.amount) {
                Some(next_id(old(c)@.conditions))
            } else {
                None
            })
            &&& r->Ok_0.event_id == next_id(old(c)@.events) + (if falls(ch, p.amount) {
                1int
            } else {
                0
            })
            &&& r->Ok_0.hp_current == row(final(c)@.characters, p.character_id).hp_current
            &&& r->Ok_0.status@ == row(final(c)@.characters, p.character_id).status.text()
            &&& final(c)@ == damaged(old(c)@, p)
        },
{
    if p.amount < 0 {
        return Err(Error::NegativeDamage);
    }
    let ghost w = c@;
    proof {
        lemma_tables(w);
    }
    let i: usize = match find(&c.characters, p.character_id) {
        Some(i) => i,
        None => {
            return Err(Error::CharacterNotFound { id: p.character_id });
        },
    };
    proof {
        lemma_character(w, p.character_id);
    }
    let round: Option<i32> = match p.encounter_id {
        Some(e) => match find(&c.encounters, e) {
            Some(k) => c.encounters[k].current_round,
            None => {
                return Err(Error::EventRow);
            },
        },
        None => None,
    };
    let now: i64 = current_campaign_hour(c);
    let mut ch = c.characters[i].copy();
    let ghost ch0 = ch@;
    let hp_before: i32 = ch.hp_current;
    let hp_max: i32 = ch.hp_max;
    let hp: i32 = if hp_before <= p.amount {
        0
    } else {
        hp_before - p.amount
    };
    let zero = hp_before > 0 && hp == 0;
    let mut status = ch.status;
    let mut wound: Option<i64> = None;
    ch.hp_current = hp;
    ch.updated_at = now;
    if zero && status == Status::Alive {
        status = Status::Unconscious;
        ch.status = status;
        ch.death_save_successes = 0;
        ch.death_save_failures = 0;
        c.set_character(i, ch);
        let mut s = "Character id=".to_owned();
        s.append(decimal(p.character_id).as_str());
        s.append(" mortally_wounded at 0 HP");
        let base = entry(
            "condition.applied",
            now,
            s,
            fields2(text_field("condition", "mortally_wounded"), int_field("severity", 1)),
            only(p.character_id, EventRole::Target),
        );
        let e = Event { combat_round: round, encounter_id: p.encounter_id, ..base };
        assert(e@ == wounded_entry(w, p));
        let source: i64 = c.add_event(e);
        wound = Some(
            c.add_condition(
                Condition {
                    id: 0,
                    character_id: p.character_id,
                    condition: "mortally_wounded".to_owned(),
                    severity: 1,
                    source_event_id: Some(source),
                    expires_at_hour: None,
                    expires_after_rounds: None,
                    remove_on_save: None,
                    active: true,
                },
            ),
        );
    } else {
        c.set_character(i, ch);
    }
    let mut s = "Character id=".to_owned();
    s.append(decimal(p.character_id).as_str());
    s.append(" took ");
    s.append(decimal(p.amount as i64).as_str());
    s.append(" damage (");
    s.append(decimal(hp_before as i64).as_str());
    s.append("→");
    s.append(decimal(hp as i64).as_str());
    s.append(" HP)");
    let base = entry(
        "combat.apply_damage",
        now,
        s,
        fields7(
            int_field("amount", p.amount as i64),
            opt_text_field("damage_type", &p.damage_type),
            opt_text_field("source", &p.source),
            int_field("hp_before", hp_before as i64),
            int_field("hp_after", hp as i64),
            bool_field("newly_unconscious", zero),
            int_field("hp_max", hp_max as i64),
        ),
        only(p.character_id, EventRole::Target),
    );
    let e = Event { combat_round: round, encounter_id: p.encounter_id, ..base };
    assert(e@ == damage_entry(w, p));
    let event_id: i64 = c.add_event(e);
    assert(c@ == damaged(w, p));
    proof {
        lemma_update(w.characters, i as int, c@.characters[i as int]);
    }
    Ok(
        ApplyDamageResult {
            character_id: p.character_id,
            hp_current: hp,
            status: status.as_str().to_owned(),
            newly_unconscious: zero,
            mortally_wounded_condition_id: wound,
            event_id,
        },
    )
}

/// Where the character's newest mortal wound stands.
pub open spec fn wound_of(w: World, character_id: i64) -> Option<int> {
    newest(w, character_id, "mortally_wounded"@)
}

pub open spec fn healing_refusal(w: World, p: ApplyHealingParams) -> Option<Error<Seq<char>>> {
    if p.amount < 0 {
        Some(Error::NegativeHealing)
    } else if !listed(w.characters, p.character_id) {
        Some(Error::CharacterNotFound { id: p.character_id })
    } else if row(w.characters, p.character_id).status == Status::Dead {
        Some(Error::DeadCannotHeal { id: p.character_id })
    } else {
        None
    }
}

/// Whether the healing brings an unconscious character back that was mortally wounded.
pub open spec fn revives(w: World, p: ApplyHealingParams) -> bool {
    let ch = row(w.characters, p.character_id);
    &&& hp_after_healing(ch.hp_current, ch.hp_max, p.amount) > 0
    &&& ch.status == Status::Unconscious
    &&& wound_of(w, p.character_id) is Some
}

pub open spec fn recovered_entry(w: World, p: ApplyHealingParams) -> EventView {
    entry_view(
        "condition.expired"@,
        campaign_hour(w),
        "Character id="@ + int_text(p.character_id as int)
            + " recovered: mortally_wounded cleared by healing"@,
        seq![
            field_view(
                "condition_id"@,
                ValueView::Int(w.conditions[wound_of(w, p.character_id)->0].id as int),
            ),
            field_view("condition"@, ValueView::Text("mortally_wounded"@)),
            field_view("reason"@, ValueView::Text("healed_above_zero"@)),
        ],
        one(p.character_id, EventRole::Target),
    )
}

pub open spec fn healing_entry(w: World, p: ApplyHealingParams) -> EventView {
    let ch = row(w.characters, p.character_id);
    let hp = hp_after_healing(ch.hp_current, ch.hp_max, p.amount);
    entry_view(
        "combat.apply_healing"@,
        campaign_hour(w),
        "Character id="@ + int_text(p.character_id as int) + " healed by "@ + int_text(p.amount as int)
            + " ("@ + int_text(ch.hp_current as int) + "→"@ + int_text(hp as int) + " HP)"@,
        seq![
            field_view("amount"@, ValueView::Int(p.amount as int)),
            field_view("source"@, opt_str(opt_text(p.source))),
            field_view("hp_before"@, ValueView::Int(ch.hp_current as int)),
            field_view("hp_after"@, ValueView::Int(hp as int)),
            field_view("cleared_mortally_wounded"@, ValueView::Bool(revives(w, p))),
        ],
        one(p.character_id, EventRole::Target),
    )
}

/// The campaign after the healing. A mortally wounded character that it brings above 0 lives
/// again and is no longer mortally wounded; the death saves of a living character are gone.
pub open spec fn healed(w: World, p: ApplyHealingParams) -> World {
    let ch = row(w.characters, p.character_id);
    let cleared = if revives(w, p) {
        condition_over(w, wound_of(w, p.character_id)->0).with_event(recovered_entry(w, p))
    } else {
        w
    };
    let status = if revives(w, p) {
        Status::Alive
    } else {
        ch.status
    };
    World {
        characters: put(
            cleared.characters,
            Character {
                hp_current: hp_after_healing(ch.hp_current, ch.hp_max, p.amount),
                status,
                death_save_successes: if status == Status::Alive {
                    0
                } else {
                    ch.death_save_successes
                },
                death_save_failures: if status == Status::Alive {
                    0
                } else {
                    ch.death_save_failures
                },
                updated_at: campaign_hour(w),
                ..ch
            },
        ),
        ..cleared
    }.with_event(healing_entry(w, p))
}

/// Gives a character hit points back.
pub fn apply_healing(c: &mut Campaign, p: ApplyHealingParams) -> (r: Result<ApplyHealingResult, Error>)
    requires
        old(c)@.wf(),
        old(c)@.room(),
    ensures
        final(c)@.wf(),
        healing_refusal(old(c)@, p) matches Some(e) ==> r is Err && r->Err_0@ == e && final(c)@ == old(
            c,
        )@,
        healing_refusal(old(c)@, p) is None ==> {
            let ch = row(old(c)@.characters, p.character_id);
            &&& r is Ok
            &&& r->Ok_0.character_id == p.character_id
            &&& r->Ok_0.hp_current == hp_after_healing(ch.hp_current, ch.hp_max, p.amount)
            &&& r->Ok_0.status@ == (if revives(old(c)@, p) {
                Status::Alive
            } else {
                ch.status
            }).text()
            &&& r->Ok_0.cleared_mortally_wounded == revives(old(c)@, p)
            &&& r->Ok_0.event_id == next_id(old(c)@.events) + (if revives(old(c)@, p) {
                1int
            } else {
                0
            })
            &&& r->Ok_0.hp_current == row(final(c)@.characters, p.character_id).hp_current
            &&& r->Ok_0.status@ == row(final(c)@.characters, p.character_id).status.text()
            &&& final(c)@ == healed(old(c)@, p)
        },
{
    if p.amount < 0 {
        return Err(Error::NegativeHealing);
    }
    let ghost w = c@;
    proof {
        lemma_tables(w);
    }
    let i: usize = match find(&c.characters, p.character_id) {
        Some(i) => i,
        None => {
            return Err(Error::CharacterNotFound { id: p.character_id });
        },
    };
    proof {
        lemma_character(w, p.character_id);
    }
    let mut ch = c.characters[i].copy();
    if ch.status == Status::Dead {
        return Err(Error::DeadCannotHeal { id: p.character_id });
    }
    let hp_before: i32 = ch.hp_current;
    let hp: i32 = if (hp_before as i64) + (p.amount as i64) <= ch.hp_max as i64 {
        hp_before + p.amount
    } else {
        ch.hp_max
    };
    let now: i64 = current_campaign_hour(c);
    let wound = find_newest(c, p.character_id, "mortally_wounded");
    let mut cleared = false;
    if hp > 0 && ch.status == Status::Unconscious {
        if let Some(k) = wound {
            let wound_id: i64 = c.conditions[k].id;
            end_condition(c, k);
            let mut s = "Character id=".to_owned();
            s.append(decimal(p.character_id).as_str());
            s.append(" recovered: mortally_wounded cleared by healing");
            let e = entry(
                "condition.expired",
                now,
                s,
                fields3(
                    int_field("condition_id", wound_id),
                    text_field("condition", "mortally_wounded"),
                    text_field("reason", "healed_above_zero"),
                ),
                only(p.character_id, EventRole::Target),
            );
            assert(e@ == recovered_entry(w, p));
            let _ = c.add_event(e);
            cleared = true;
            ch.status = Status::Alive;
        }
    }
    assert(cleared == revives(w, p));
    let status = ch.status;
    ch.hp_current = hp;
    if status == Status::Alive {
        ch.death_save_successes = 0;
        ch.death_save_failures = 0;
    }
    ch.updated_at = now;
    c.set_character(i, ch);
    let mut s = "Character id=".to_owned();
    s.append(decimal(p.character_id).as_str());
    s.append(" healed by ");
    s.append(decimal(p.amount as i64).as_str());
    s.append(" (");
    s.append(decimal(hp_before as i64).as_str());
    s.append("→");
    s.append(decimal(hp as i64).as_str());
    s.append(" HP)");
    let e = entry(
        "combat.apply_healing",
        now,
        s,
        fields5(
            int_field("amount", p.amount as i64),
            opt_text_field("source", &p.source),
            int_field("hp_before", hp_before as i64),
            int_field("hp_after", hp as i64),
            bool_field("cleared_mortally_wounded", cleared),
        ),
        only(p.character_id, EventRole::Target),
    );
    assert(e@ == healing_entry(w, p));
    let event_id: i64 = c.add_event(e);
    assert(c@ == healed(w, p));
    proof {
        lemma_update(w.characters, i as int, c@.characters[i as int]);
    }
    Ok(
        ApplyHealingResult {
            character_id: p.character_id,
            hp_current: hp,
            status: status.as_str().to_owned(),
            cleared_mortally_wounded: cleared,
            event_id,
        },
    )
}

/// What a death save comes to.
#[derive(Debug, Clone, Copy, PartialEq, Eq, Structural)]
pub enum SaveOutcome {
    AutoStabilise,
    CriticalFail,
    Success,
    Fail,
}

impl SaveOutcome {
    /// The word for it.
    pub open spec fn text(self) -> Seq<char> {
        match self {
            SaveOutcome::AutoStabilise => "auto_stabilise"@,
            SaveOutcome::CriticalFail => "critical_fail"@,
            SaveOutcome::Success => "success"@,
            SaveOutcome::Fail => "fail"@,
        }
    }

    /// The word for it.
    pub fn as_str(&self) -> (r: &'static str)
        ensures
            r@ == self.text(),
    {
        match self {
            SaveOutcome::AutoStabilise => "auto_stabilise",
            SaveOutcome::CriticalFail => "critical_fail",
            SaveOutcome::Success => "success",
            SaveOutcome::Fail => "fail",
        }
    }
}

/// What the roll comes to: a 20 stabilises, a 1 fails twice, 10 and more succeed.
pub open spec fn save_outcome(d20: int) -> SaveOutcome {
    if d20 == 20 {
        SaveOutcome::AutoStabilise
    } else if d20 == 1 {
        SaveOutcome::CriticalFail
    } else if d20 >= 10 {
        SaveOutcome::Success
    } else {
        SaveOutcome::Fail
    }
}

/// The count with `n` more, at most 3.
pub open spec fn up_to_three(count: i32, n: int) -> i32 {
    if count + n >= 3 {
        3
    } else {
        (count + n) as i32
    }
}

/// A character's status and death saves after a roll. Three successes or a 20 stabilise and
/// clear the counts; three failures kill.
pub open spec fn save_result(ch: Character<Seq<char>>, d20: int) -> (Status, i32, i32) {
    let outcome = save_outcome(d20);
    let successes = if outcome == SaveOutcome::Success {
        up_to_three(ch.death_save_successes, 1)
    } else {
        ch.death_save_successes
    };
    let failures = if outcome == SaveOutcome::CriticalFail {
        up_to_three(ch.death_save_failures, 2)
    } else if outcome == SaveOutcome::Fail {
        up_to_three(ch.death_save_failures, 1)
    } else {
        ch.death_save_failures
    };
    if outcome == SaveOutcome::AutoStabilise || successes >= 3 {
        (Status::Alive, 0, 0)
    } else if failures >= 3 {
        (Status::Dead, successes, failures)
    } else {
        (Status::Unconscious, successes, failures)
    }
}

pub open spec fn save_refusal(w: World, p: DeathSaveParams) -> Option<Error<Seq<char>>> {
    if !listed(w.characters, p.character_id) {
        Some(Error::CharacterNotFound { id: p.character_id })
    } else if row(w.characters, p.character_id).status != Status::Unconscious {
        Some(
            Error::NotUnconscious {
                id: p.character_id,
                status: row(w.characters, p.character_id).status,
            },
        )
    } else {
        None
    }
}

pub open spec fn stabilised_entry(w: World, p: DeathSaveParams, d20: int) -> EventView {
    entry_view(
        "condition.expired"@,
        campaign_hour(w),
        "Character id="@ + int_text(p.character_id as int) + " stabilised: mortally_wounded cleared ("@
            + save_outcome(d20).text() + ")"@,
        seq![
            field_view(
                "condition_id"@,
                ValueView::Int(w.conditions[wound_of(w, p.character_id)->0].id as int),
            ),
            field_view("condition"@, ValueView::Text("mortally_wounded"@)),
            field_view("reason"@, ValueView::Text("stabilised"@)),
            field_view("outcome"@, ValueView::Text(save_outcome(d20).text())),
        ],
        one(p.character_id, EventRole::Target),
    )
}

pub open spec fn save_entry(w: World, p: DeathSaveParams, d20: int) -> EventView {
    let ch = row(w.characters, p.character_id);
    let (status, successes, failures) = save_result(ch, d20);
    let extra = if status == Status::Alive {
        " (stabilised)"@
    } else if status == Status::Dead {
        " (died)"@
    } else {
        ""@
    };
    entry_view(
        "character.death_save"@,
        campaign_hour(w),
        "Character id="@ + int_text(p.character_id as int) + " rolled "@ + int_text(d20)
            + " on death save → "@ + save_outcome(d20).text() + extra + " ("@ + int_text(successes as int)
            + " successes / "@ + int_text(failures as int) + " failures)"@,
        seq![
            field_view("d20"@, ValueView::Int(d20)),
            field_view("outcome"@, ValueView::Text(save_outcome(d20).text())),
            field_view("successes"@, ValueView::Int(successes as int)),
            field_view("failures"@, ValueView::Int(failures as int)),
            field_view("status_before"@, ValueView::Text(ch.status.text())),
            field_view("status_after"@, ValueView::Text(status.text())),
        ],
        one(p.character_id, EventRole::Actor),
    )
}

/// Whether the roll stabilises a character that is marked as mortally wounded.
pub open spec fn clears_wound(w: World, p: DeathSaveParams, d20: int) -> bool {
    save_result(row(w.characters, p.character_id), d20).0 == Status::Alive && wound_of(
        w,
        p.character_id,
    ) is Some
}

/// The campaign after a death save. Who stabilises has at least one hit point and is no
/// longer mortally wounded.
pub open spec fn saved(w: World, p: DeathSaveParams, d20: int) -> World {
    let ch = row(w.characters, p.character_id);
    let (status, successes, failures) = save_result(ch, d20);
    let counted = World {
        characters: put(
            w.characters,
            Character {
                status,
                death_save_successes: successes,
                death_save_failures: failures,
                hp_current: if status == Status::Alive && ch.hp_current < 1 {
                    1
                } else {
                    ch.hp_current
                },
                updated_at: campaign_hour(w),
                ..ch
            },
        ),
        ..w
    };
    let cleared = if clears_wound(w, p, d20) {
        condition_over(counted, wound_of(w, p.character_id)->0).with_event(stabilised_entry(w, p, d20))
    } else {
        counted
    };
    cleared.with_event(save_entry(w, p, d20))
}

/// What a death save with the given roll does to the campaign and returns.
pub open spec fn save_outcome_ok(w: World, p: DeathSaveParams, d20: int, after: World, r: DeathSaveResult) -> bool {
    let (status, successes, failures) = save_result(row(w.characters, p.character_id), d20);
    &&& r.character_id == p.character_id
    &&& r.d20 == d20
    &&& r.outcome@ == save_outcome(d20).text()
    &&& r.successes == successes
    &&& r.failures == failures
    &&& r.status@ == status.text()
    &&& r.event_id == next_id(w.events) + (if clears_wound(w, p, d20) {
        1int
    } else {
        0
    })
    &&& after == saved(w, p, d20)
}

fn resolve_save(ch: &Character, d20: i32) -> (r: (SaveOutcome, Status, i32, i32))
    requires
        0 <= ch.death_save_successes <= 3,
        0 <= ch.death_save_failures <= 3,
        ch.status == Status::Unconscious,
    ensures
        r.0 == save_outcome(d20 as int),
        (r.1, r.2, r.3) == save_result(ch@, d20 as int),
        0 <= r.2 <= 3,
        0 <= r.3 <= 3,
{
    let mut successes: i32 = ch.death_save_successes;
    let mut failures: i32 = ch.death_save_failures;
    let outcome = if d20 == 20 {
        SaveOutcome::AutoStabilise
    } else if d20 == 1 {
        failures = if failures >= 1 {
            3
        } else {
            2
        };
        SaveOutcome::CriticalFail
    } else if d20 >= 10 {
        successes = if successes >= 2 {
            3
        } else {
            successes + 1
        };
        SaveOutcome::Success
    } else {
        failures = if failures >= 2 {
            3
        } else {
            failures + 1
        };
        SaveOutcome::Fail
    };
    if outcome == SaveOutcome::AutoStabilise || successes >= 3 {
        (outcome, Status::Alive, 0, 0)
    } else if failures >= 3 {
        (outcome, Status::Dead, successes, failures)
    } else {
        (outcome, Status::Unconscious, successes, failures)
    }
}

/// A death save with a roll that has been made.
pub fn death_save_with(c: &mut Campaign, p: &DeathSaveParams, d20: i32) -> (r: Result<DeathSaveResult, Error>)
    requires
        old(c)@.wf(),
        old(c)@.room(),
        1 <= d20 <= 20,
    ensures
        final(c)@.wf(),
        save_refusal(old(c)@, *p) matches Some(e) ==> r is Err && r->Err_0@ == e && final(c)@ == old(
            c,
        )@,
        save_refusal(old(c)@, *p) is None ==> r is Ok && save_outcome_ok(
            old(c)@,
            *p,
            d20 as int,
            final(c)@,
            r->Ok_0,
        ),
{
    let ghost w = c@;
    proof {
        lemma_tables(w);
    }
    let i: usize = match find(&c.characters, p.character_id) {
        Some(i) => i,
        None => {
            return Err(Error::CharacterNotFound { id: p.character_id });
        },
    };
    proof {
        lemma_character(w, p.character_id);
    }
    let mut ch = c.characters[i].copy();
    let status_before = ch.status;
    if status_before != Status::Unconscious {
        return Err(Error::NotUnconscious { id: p.character_id, status: status_before });
    }
    let (outcome, status, successes, failures) = resolve_save(&ch, d20);
    let extra = if status == Status::Alive {
        " (stabilised)"
    } else if status == Status::Dead {
        " (died)"
    } else {
        ""
    };
    let now: i64 = current_campaign_hour(c);
    let wound = find_newest(c, p.character_id, "mortally_wounded");
    ch.status = status;
    ch.death_save_successes = successes;
    ch.death_save_failures = failures;
    if status == Status::Alive && ch.hp_current < 1 {
        ch.hp_current = 1;
    }
    ch.updated_at = now;
    c.set_character(i, ch);
    if status == Status::Alive {
        if let Some(k) = wound {
            let wound_id: i64 = c.conditions[k].id;
            end_condition(c, k);
            let mut s = "Character id=".to_owned();
            s.append(decimal(p.character_id).as_str());
            s.append(" stabilised: mortally_wounded cleared (");
            s.append(outcome.as_str());
            s.append(")");
            let e = entry(
                "condition.expired",
                now,
                s,
                fields4(
                    int_field("condition_id", wound_id),
                    text_field("condition", "mortally_wounded"),
                    text_field("reason", "stabilised"),
                    text_field("outcome", outcome.as_str()),
                ),
                only(p.character_id, EventRole::Target),
            );
            assert(e@ == stabilised_entry(w, *p, d20 as int));
            let _ = c.add_event(e);
        }
    }
    let mut s = "Character id=".to_owned();
    s.append(decimal(p.character_id).as_str());
    s.append(" rolled ");
    s.append(decimal(d20 as i64).as_str());
    s.append(" on death save → ");
    s.append(outcome.as_str());
    s.append(extra);
    s.append(" (");
    s.append(decimal(successes as i64).as_str());
    s.append(" successes / ");
    s.append(decimal(failures as i64).as_str());
    s.append(" failures)");
    let e = entry(
        "character.death_save",
        now,
        s,
        fields6(
            int_field("d20", d20 as i64),
            text_field("outcome", outcome.as_str()),
            int_field("successes", successes as i64),
            int_field("failures", failures as i64),
            text_field("status_before", status_before.as_str()),
            text_field("status_after", status.as_str()),
        ),
        only(p.character_id, EventRole::Actor),
    );
    assert(e@ == save_entry(w, *p, d20 as int));
    let event_id: i64 = c.add_event(e);
    assert(c@ == saved(w, *p, d20 as int));
    Ok(
        DeathSaveResult {
            character_id: p.character_id,
            d20,
            outcome: outcome.as_str().to_owned(),
            successes,
            failures,
            status: status.as_str().to_owned(),
            event_id,
        },
    )
}

/// Rolls a death save for an unconscious character.
pub fn roll_death_save(c: &mut Campaign, p: DeathSaveParams) -> (r: Result<DeathSaveResult, Error>)
    requires
        old(c)@.wf(),
        old(c)@.room(),
    ensures
        final(c)@.wf(),
        save_refusal(old(c)@, p) matches Some(e) ==> r is Err && r->Err_0@ == e && final(c)@ == old(c)@,
        save_refusal(old(c)@, p) is None ==> {
            &&& r is Ok
            &&& 1 <= r->Ok_0.d20 <= 20
            &&& save_outcome_ok(old(c)@, p, r->Ok_0.d20 as int, final(c)@, r->Ok_0)
        },
{
    let d20: i64 = random_between(1, 20);
    death_save_with(c, &p, d20 as i32)
}

#[derive(Debug, Clone, PartialEq, Eq)]
pub struct StartParams {
    pub encounter_id: i64,
}

#[derive(Debug, Clone, PartialEq, Eq)]
pub struct StartResult {
    pub encounter_id: i64,
    pub current_round: i32,
    pub initiative_order: Vec<InitiativeEntry>,
    pub auto_ended_encounter_id: Option<i64>,
    pub event_id: i64,
}

#[derive(Debug, Clone, PartialEq, Eq)]
pub struct InitiativeEntry<S = String> {
    pub character_id: i64,
    pub side: S,
    pub initiative: i32,
}

impl View for InitiativeEntry {
    type V = InitiativeEntry<Seq<char>>;

    open spec fn view(&self) -> InitiativeEntry<Seq<char>> {
        InitiativeEntry { character_id: self.character_id, side: self.side@, initiative: self.initiative }
    }
}

#[derive(Debug, Clone, PartialEq, Eq)]
pub struct NextTurnParams {
    pub encounter_id: i64,
}

#[derive(Debug, Clone, PartialEq, Eq)]
pub struct NextTurnResult {
    pub encounter_id: i64,
    pub current_round: i32,
    pub current_character_id: i64,
    pub wrapped_to_new_round: bool,
    pub expired_effect_ids: Vec<i64>,
    pub expired_condition_ids: Vec<i64>,
    pub event_id: i64,
}

#[derive(Debug, Clone, PartialEq, Eq)]
pub struct EndParams {
    pub encounter_id: i64,
    pub reason: Option<String>,
}

#[derive(Debug, Clone, PartialEq, Eq)]
pub struct EndResult {
    pub encounter_id: i64,
    pub event_id: i64,
}

// ── Order of initiative ──

/// The participants of an encounter, in the order in which they joined.
pub open spec fn of_encounter(rows: Seq<EncounterParticipant>, id: i64) -> Seq<EncounterParticipant>
    decreases rows.len(),
{
    if rows.len() == 0 {
        Seq::empty()
    } else {
        let rest = of_encounter(rows.drop_last(), id);
        if rows.last().encounter_id == id {
            rest.push(rows.last())
        } else {
            rest
        }
    }
}

/// The initiative as a number; without one, less than any.
pub open spec fn score(r: EncounterParticipant) -> int {
    match r.initiative {
        Some(n) => n as int,
        None => i32::MIN - 1,
    }
}

/// Whether `a` goes before `b`: by higher initiative and then, `by_id`, by lower character id.
pub open spec fn goes_before(a: EncounterParticipant, b: EncounterParticipant, by_id: bool) -> bool {
    score(a) > score(b) || (by_id && score(a) == score(b) && a.character_id < b.character_id)
}

/// The first place from `k` on whose occupant `x` goes before.
pub open spec fn spot(s: Seq<EncounterParticipant>, x: EncounterParticipant, by_id: bool, k: int) -> int
    decreases s.len() - k,
{
    if k >= s.len() {
        s.len() as int
    } else if goes_before(x, s[k], by_id) {
        k
    } else {
        spot(s, x, by_id, k + 1)
    }
}

/// The rows in the order of initiative; those that tie stay as they were.
pub open spec fn in_order(rows: Seq<EncounterParticipant>, by_id: bool) -> Seq<EncounterParticipant>
    decreases rows.len(),
{
    if rows.len() == 0 {
        Seq::empty()
    } else {
        let rest = in_order(rows.drop_last(), by_id);
        rest.insert(spot(rest, rows.last(), by_id, 0), rows.last())
    }
}

proof fn lemma_spot(s: Seq<EncounterParticipant>, x: EncounterParticipant, by_id: bool, k: int)
    requires
        0 <= k <= s.len(),
    ensures
        k <= spot(s, x, by_id, k) <= s.len(),
        forall|i: int| k <= i < spot(s, x, by_id, k) ==> !goes_before(x, #[trigger] s[i], by_id),
        spot(s, x, by_id, k) < s.len() ==> goes_before(x, s[spot(s, x, by_id, k)], by_id),
    decreases s.len() - k,
{
    if k < s.len() && !goes_before(x, s[k], by_id) {
        lemma_spot(s, x, by_id, k + 1);
    }
}

/// The order of initiative holds the same rows, and nobody stands behind someone they go
/// before.
pub proof fn law_order_of_initiative(rows: Seq<EncounterParticipant>, by_id: bool)
    ensures
        in_order(rows, by_id).to_multiset() =~= rows.to_multiset(),
        in_order(rows, by_id).len() == rows.len(),
        forall|i: int, j: int|
            #![trigger in_order(rows, by_id)[i], in_order(rows, by_id)[j]]
            0 <= i < j < rows.len() ==> !goes_before(
                in_order(rows, by_id)[j],
                in_order(rows, by_id)[i],
                by_id,
            ),
    decreases rows.len(),
{
    broadcast use vstd::seq_lib::group_to_multiset_ensures;

    if rows.len() == 0 {
        assert(in_order(rows, by_id) =~= rows);
    } else {
        let rest = in_order(rows.drop_last(), by_id);
        let x = rows.last();
        law_order_of_initiative(rows.drop_last(), by_id);
        lemma_spot(rest, x, by_id, 0);
        let k = spot(rest, x, by_id, 0);
        let all = rest.insert(k, x);
        assert(all.len() == rows.len());
        assert(rows =~= rows.drop_last().push(x));
        vstd::seq_lib::to_multiset_insert(rest, k, x);
        assert forall|i: int, j: int|
            #![trigger all[i], all[j]]
            0 <= i < j < all.len() implies !goes_before(all[j], all[i], by_id) by {
            let a = if i < k {
                rest[i]
            } else if i == k {
                x
            } else {
                rest[i - 1]
            };
            let b = if j < k {
                rest[j]
            } else if j == k {
                x
            } else {
                rest[j - 1]
            };
            assert(all[i] == a && all[j] == b);
            if j == k {
                assert(!goes_before(x, rest[i], by_id));
            } else if i == k {
                assert(goes_before(x, rest[k], by_id));
                if j - 1 > k {
                    assert(!goes_before(rest[j - 1], rest[k], by_id));
                }
            } else if i < k && j > k {
                assert(!goes_before(rest[j - 1], rest[i], by_id));
            } else if i > k {
                assert(!goes_before(rest[j - 1], rest[i - 1], by_id));
            } else {
                assert(!goes_before(rest[j], rest[i], by_id));
            }
        }
    }
}

fn first_goes_before(a: &EncounterParticipant, b: &EncounterParticipant, by_id: bool) -> (r: bool)
    ensures
        r == goes_before(*a, *b, by_id),
{
    let x: i64 = match a.initiative {
        Some(n) => n as i64,
        None => -0x8000_0001,
    };
    let y: i64 = match b.initiative {
        Some(n) => n as i64,
        None => -0x8000_0001,
    };
    x > y || (by_id && x == y && a.character_id < b.character_id)
}

fn put_in_order(rows: &Vec<EncounterParticipant>, by_id: bool) -> (r: Vec<EncounterParticipant>)
    ensures
        r@ == in_order(rows@, by_id),
{
    let mut out: Vec<EncounterParticipant> = Vec::new();
    let mut i: usize = 0;
    while i < rows.len()
        invariant
            i <= rows.len(),
            out@ == in_order(rows@.take(i as int), by_id),
            out.len() <= i,
        decreases rows.len() - i,
    {
        let x = rows[i].copy();
        let mut k: usize = 0;
        while k < out.len() && !first_goes_before(&x, &out[k], by_id)
            invariant
                k <= out.len(),
                spot(out@, x, by_id, 0) == spot(out@, x, by_id, k as int),
            decreases out.len() - k,
        {
            k = k + 1;
        }
        assert(k == spot(out@, x, by_id, 0));
        assert(rows@.take(i + 1).drop_last() =~= rows@.take(i as int));
        out.insert(k, x);
        i = i + 1;
    }
    assert(rows@.take(i as int) =~= rows@);
    out
}

fn participants_of(c: &Campaign, id: i64) -> (r: Vec<EncounterParticipant>)
    ensures
        r@ == of_encounter(c@.encounter_participants, id),
        r.len() <= c.encounter_participants.len(),
{
    let mut out: Vec<EncounterParticipant> = Vec::new();
    let rows = &c.encounter_participants;
    let mut i: usize = 0;
    while i < rows.len()
        invariant
            i <= rows.len(),
            out@ == of_encounter(rows@.take(i as int), id),
            out.len() <= i,
        decreases rows.len() - i,
    {
        assert(rows@.take(i + 1).drop_last() =~= rows@.take(i as int));
        if rows[i].encounter_id == id {
            out.push(rows[i].copy());
        }
        i = i + 1;
    }
    assert(rows@.take(i as int) =~= rows@);
    assert(c@.encounter_participants =~= rows@);
    out
}

pub(crate) proof fn lemma_of_encounter(rows: Seq<EncounterParticipant>, id: i64)
    ensures
        of_encounter(rows, id).len() <= rows.len(),
        forall|k: int|
            0 <= k < of_encounter(rows, id).len() ==> {
                &&& (#[trigger] of_encounter(rows, id)[k]).encounter_id == id
                &&& rows.contains(of_encounter(rows, id)[k])
            },
    decreases rows.len(),
{
    if rows.len() > 0 {
        lemma_of_encounter(rows.drop_last(), id);
        let rest = of_encounter(rows.drop_last(), id);
        assert forall|k: int| 0 <= k < of_encounter(rows, id).len() implies {
            &&& (#[trigger] of_encounter(rows, id)[k]).encounter_id == id
            &&& rows.contains(of_encounter(rows, id)[k])
        } by {
            if k < rest.len() {
                assert(rest[k].encounter_id == id);
                let m = choose|m: int| 0 <= m < rows.drop_last().len() && rows.drop_last()[m] == rest[k];
                assert(rows[m] == rest[k]);
            } else {
                assert(rows[rows.len() - 1] == rows.last());
            }
        }
    }
}

pub(crate) proof fn lemma_participants_listed(w: World, id: i64)
    requires
        w.wf(),
    ensures
        forall|k: int|
            0 <= k < of_encounter(w.encounter_participants, id).len() ==> listed(
                w.characters,
                (#[trigger] of_encounter(w.encounter_participants, id)[k]).character_id,
            ),
{
    reveal(World::wf);
    let rows = w.encounter_participants;
    lemma_of_encounter(rows, id);
    assert forall|k: int| 0 <= k < of_encounter(rows, id).len() implies listed(
        w.characters,
        (#[trigger] of_encounter(rows, id)[k]).character_id,
    ) by {
        let x = of_encounter(rows, id)[k];
        assert(rows.contains(x));
        let m = choose|m: int| 0 <= m < rows.len() && rows[m] == x;
        assert(listed(w.characters, rows[m].character_id));
    }
}

// ── combat.end ──

/// The participants with what combat gave them taken from those of the encounter.
pub open spec fn out_of_combat(rows: Seq<EncounterParticipant>, id: i64) -> Seq<EncounterParticipant> {
    Seq::new(
        rows.len(),
        |i: int|
            if rows[i].encounter_id == id {
                EncounterParticipant { initiative: None, has_acted_this_round: false, ..rows[i] }
            } else {
                rows[i]
            },
    )
}

pub open spec fn ended_entry(w: World, id: i64, now: i64, reason: Seq<char>, auto: bool) -> EventView {
    let r = row(w.encounters, id);
    EventView {
        combat_round: r.current_round,
        zone_id: r.zone_id,
        encounter_id: Some(id),
        ..entry_view(
            if auto {
                "combat.auto_ended"@
            } else {
                "combat.end"@
            },
            now,
            "Combat on encounter id="@ + int_text(id as int) + " ended ("@ + reason + ")"@,
            seq![field_view("reason"@, ValueView::Text(reason)), field_view("auto"@, ValueView::Bool(auto))],
            Seq::empty(),
        )
    }
}

/// The campaign with the encounter out of combat and the log saying so.
pub open spec fn combat_ended(w: World, id: i64, now: i64, reason: Seq<char>, auto: bool) -> World {
    World {
        encounters: put(
            w.encounters,
            Encounter { in_combat: false, current_round: None, turn_index: None, ..row(w.encounters, id) },
        ),
        encounter_participants: out_of_combat(w.encounter_participants, id),
        ..w
    }.with_event(ended_entry(w, id, now, reason, auto))
}

fn end_combat(c: &mut Campaign, i: usize, now: i64, reason: &str, auto: bool) -> (event_id: i64)
    requires
        old(c)@.wf(),
        i < old(c).encounters.len(),
        top(old(c)@.events) < i64::MAX,
    ensures
        final(c)@.wf(),
        final(c)@ == combat_ended(old(c)@, old(c)@.encounters[i as int].id, now, reason@, auto),
        event_id == next_id(old(c)@.events),
        top(final(c)@.events) == top(old(c)@.events) + 1,
        forall|id: i64| #[trigger] listed(final(c)@.encounters, id) == listed(old(c)@.encounters, id),
        final(c).encounters.len() == old(c).encounters.len(),
{
    let ghost w = c@;
    let mut r = c.encounters[i].copy();
    let id: i64 = r.id;
    let round = r.current_round;
    let zone = r.zone_id;
    proof {
        lemma_tables(w);
        lemma_index(w.encounters, i as int);
        lemma_encounter(w, id);
    }
    r.in_combat = false;
    r.current_round = None;
    r.turn_index = None;
    c.set_encounter(i, r);
    let mut rows: Vec<EncounterParticipant> = Vec::new();
    let mut k: usize = 0;
    while k < c.encounter_participants.len()
        invariant
            k <= c.encounter_participants.len(),
            rows@ == out_of_combat(c@.encounter_participants, id).take(k as int),
        decreases c.encounter_participants.len() - k,
    {
        let mut x = c.encounter_participants[k].copy();
        assert(x == c@.encounter_participants[k as int]);
        if x.encounter_id == id {
            x.initiative = None;
            x.has_acted_this_round = false;
        }
        rows.push(x);
        k = k + 1;
    }
    assert(rows@ == out_of_combat(c@.encounter_participants, id));
    c.set_encounter_participants(rows);
    let mut s = "Combat on encounter id=".to_owned();
    s.append(decimal(id).as_str());
    s.append(" ended (");
    s.append(reason);
    s.append(")");
    let kind = if auto {
        "combat.auto_ended"
    } else {
        "combat.end"
    };
    let base = entry(
        kind,
        now,
        s,
        fields2(text_field("reason", reason), bool_field("auto", auto)),
        nobody(),
    );
    let e = Event { combat_round: round, zone_id: zone, encounter_id: Some(id), ..base };
    assert(e@ == ended_entry(w, id, now, reason@, auto));
    assert(c@.event_ok(e@));
    c.add_event(e)
}

pub open spec fn end_refusal(w: World, id: i64) -> Option<Error<Seq<char>>> {
    if !listed(w.encounters, id) {
        Some(Error::EncounterNotFound { id })
    } else if !row(w.encounters, id).in_combat {
        Some(Error::NotInCombat { id })
    } else {
        None
    }
}

/// Takes an encounter out of combat.
pub fn end(c: &mut Campaign, p: EndParams) -> (r: Result<EndResult, Error>)
    requires
        old(c)@.wf(),
        old(c)@.room(),
    ensures
        final(c)@.wf(),
        end_refusal(old(c)@, p.encounter_id) matches Some(e) ==> r is Err && r->Err_0@ == e
            && final(c)@ == old(c)@,
        end_refusal(old(c)@, p.encounter_id) is None ==> {
            &&& r is Ok
            &&& r->Ok_0.encounter_id == p.encounter_id
            &&& r->Ok_0.event_id == next_id(old(c)@.events)
            &&& final(c)@ == combat_ended(
                old(c)@,
                p.encounter_id,
                campaign_hour(old(c)@),
                match p.reason {
                    Some(t) => t@,
                    None => "combat_ended"@,
                },
                false,
            )
        },
{
    proof {
        lemma_tables(c@);
    }
    let i: usize = match find(&c.encounters, p.encounter_id) {
        Some(i) => i,
        None => {
            return Err(Error::EncounterNotFound { id: p.encounter_id });
        },
    };
    if !c.encounters[i].in_combat {
        return Err(Error::NotInCombat { id: p.encounter_id });
    }
    let now: i64 = current_campaign_hour(c);
    let reason = match &p.reason {
        Some(t) => t.clone(),
        None => "combat_ended".to_owned(),
    };
    let event_id: i64 = end_combat(c, i, now, reason.as_str(), false);
    Ok(EndResult { encounter_id: p.encounter_id, event_id })
}

// ── combat.start ──

/// Where the first other encounter in combat stands among the first `n`.
pub open spec fn other_combat(rows: Seq<Encounter<Seq<char>>>, id: i64, n: nat) -> Option<int>
    decreases n,
{
    if n == 0 {
        None
    } else {
        match other_combat(rows, id, (n - 1) as nat) {
            Some(k) => Some(k),
            None => if rows[n - 1].in_combat && rows[n - 1].id != id {
                Some(n - 1)
            } else {
                None
            },
        }
    }
}

/// Where the encounter stands whose combat the new one supersedes.
pub open spec fn superseded(w: World, id: i64) -> Option<int> {
    other_combat(w.encounters, id, w.encounters.len())
}

/// The participants of the encounter with the initiative that their rolls give: the roll of a
/// d20 and the character's bonus.
pub open spec fn rolled(w: World, id: i64, rolls: Seq<i32>) -> Seq<EncounterParticipant> {
    let rows = of_encounter(w.encounter_participants, id);
    Seq::new(
        rows.len(),
        |k: int|
            EncounterParticipant {
                initiative: Some(
                    (rolls[k] + row(w.characters, rows[k].character_id).initiative_bonus) as i32,
                ),
                has_acted_this_round: false,
                ..rows[k]
            },
    )
}

/// The participants with those of the encounter replaced by `fresh`, one by one.
pub open spec fn with_fresh(
    rows: Seq<EncounterParticipant>,
    id: i64,
    fresh: Seq<EncounterParticipant>,
) -> Seq<EncounterParticipant> {
    Seq::new(
        rows.len(),
        |i: int|
            if rows[i].encounter_id == id {
                fresh[of_encounter(rows.take(i), id).len() as int]
            } else {
                rows[i]
            },
    )
}

/// What the order of initiative says.
pub open spec fn order_entries(order: Seq<EncounterParticipant>) -> Seq<InitiativeEntry<Seq<char>>> {
    Seq::new(
        order.len(),
        |k: int|
            InitiativeEntry {
                character_id: order[k].character_id,
                side: order[k].side.text(),
                initiative: order[k].initiative->0,
            },
    )
}

pub open spec fn order_records(order: Seq<EncounterParticipant>) -> Seq<Seq<Cell<Seq<char>>>> {
    Seq::new(
        order.len(),
        |k: int|
            seq![
                int_cell("character_id"@, order[k].character_id as int),
                text_cell("side"@, order[k].side.text()),
                int_cell("initiative"@, order[k].initiative->0 as int),
            ],
    )
}

pub open spec fn actors(order: Seq<EncounterParticipant>) -> Seq<EventParticipant> {
    Seq::new(
        order.len(),
        |k: int| EventParticipant { character_id: order[k].character_id, role: EventRole::Actor },
    )
}

pub open spec fn started_entry(
    w: World,
    id: i64,
    order: Seq<EncounterParticipant>,
    auto_ended: Option<i64>,
) -> EventView {
    EventView {
        combat_round: Some(1),
        zone_id: row(w.encounters, id).zone_id,
        encounter_id: Some(id),
        ..entry_view(
            "combat.start"@,
            campaign_hour(w),
            "Combat started on encounter id="@ + int_text(id as int) + " with "@ + int_text(
                order.len() as int,
            ) + " participant(s)"@,
            seq![
                field_view("initiative_order"@, ValueView::Records(order_records(order))),
                field_view("auto_ended_encounter_id"@, opt_int(auto_ended)),
            ],
            actors(order),
        )
    }
}

pub open spec fn auto_ended(w: World, id: i64) -> Option<i64> {
    match superseded(w, id) {
        Some(k) => Some(w.encounters[k].id),
        None => None,
    }
}

/// The campaign with the other combat ended, where there is one.
pub open spec fn cleared_for(w: World, id: i64) -> World {
    match superseded(w, id) {
        Some(k) => combat_ended(
            w,
            w.encounters[k].id,
            campaign_hour(w),
            "superseded_by_new_combat"@,
            true,
        ),
        None => w,
    }
}

/// The campaign with the encounter in its first round of combat.
pub open spec fn started(w: World, id: i64, rolls: Seq<i32>) -> World {
    let free = cleared_for(w, id);
    World {
        encounters: put(
            free.encounters,
            Encounter {
                in_combat: true,
                current_round: Some(1),
                turn_index: Some(0),
                ..row(w.encounters, id)
            },
        ),
        encounter_participants: with_fresh(free.encounter_participants, id, rolled(w, id, rolls)),
        ..free
    }.with_event(started_entry(w, id, in_order(rolled(w, id, rolls), false), auto_ended(w, id)))
}

pub open spec fn start_refusal(w: World, id: i64) -> Option<Error<Seq<char>>> {
    if !listed(w.encounters, id) {
        Some(Error::EncounterNotFound { id })
    } else if row(w.encounters, id).status != EncounterStatus::Active {
        Some(Error::CannotStartCombat { id, status: row(w.encounters, id).status })
    } else if row(w.encounters, id).in_combat {
        Some(Error::AlreadyInCombat { id })
    } else {
        None
    }
}

/// One roll of a d20 for each participant.
pub open spec fn rolls_ok(w: World, id: i64, rolls: Seq<i32>) -> bool {
    &&& rolls.len() == of_encounter(w.encounter_participants, id).len()
    &&& forall|k: int| 0 <= k < rolls.len() ==> 1 <= #[trigger] rolls[k] <= 20
}

/// What starting combat with the given rolls does to the campaign and returns.
pub open spec fn start_ok(w: World, id: i64, rolls: Seq<i32>, after: World, r: StartResult) -> bool {
    &&& r.encounter_id == id
    &&& r.current_round == 1
    &&& views(r.initiative_order@) == order_entries(in_order(rolled(w, id, rolls), false))
    &&& r.auto_ended_encounter_id == auto_ended(w, id)
    &&& r.event_id == next_id(w.events) + (if superseded(w, id) is Some {
        1int
    } else {
        0
    })
    &&& after == started(w, id, rolls)
}

pub(crate) proof fn lemma_other_combat(rows: Seq<Encounter<Seq<char>>>, id: i64, n: nat)
    requires
        n <= rows.len(),
    ensures
        other_combat(rows, id, n) matches Some(k) ==> 0 <= k < n && rows[k].in_combat && rows[k].id != id,
        other_combat(rows, id, n) is None ==> forall|k: int|
            0 <= k < n ==> !((#[trigger] rows[k]).in_combat && rows[k].id != id),
    decreases n,
{
    if n > 0 {
        lemma_other_combat(rows, id, (n - 1) as nat);
    }
}

pub(crate) proof fn lemma_out_of_combat_keeps(rows: Seq<EncounterParticipant>, other: i64, id: i64)
    requires
        other != id,
    ensures
        of_encounter(out_of_combat(rows, other), id) == of_encounter(rows, id),
    decreases rows.len(),
{
    if rows.len() > 0 {
        lemma_out_of_combat_keeps(rows.drop_last(), other, id);
        assert(out_of_combat(rows, other).drop_last() =~= out_of_combat(rows.drop_last(), other));
    }
}

/// The rows of an encounter up to a place are the beginning of its rows.
pub(crate) proof fn lemma_of_encounter_take(rows: Seq<EncounterParticipant>, id: i64, i: int)
    requires
        0 <= i < rows.len(),
    ensures
        of_encounter(rows.take(i), id).len() <= of_encounter(rows, id).len(),
        rows[i].encounter_id == id ==> {
            &&& of_encounter(rows.take(i), id).len() < of_encounter(rows, id).len()
            &&& of_encounter(rows, id)[of_encounter(rows.take(i), id).len() as int] == rows[i]
        },
    decreases rows.len(),
{
    let rest = rows.drop_last();
    if i == rows.len() - 1 {
        assert(rows.take(i) =~= rest);
    } else {
        lemma_of_encounter_take(rest, id, i);
        assert(rest.take(i) =~= rows.take(i));
    }
}

fn find_other_combat(c: &Campaign, id: i64) -> (r: Option<usize>)
    ensures
        match r {
            Some(k) => superseded(c@, id) == Some(k as int) && k < c.encounters.len(),
            None => superseded(c@, id) is None,
        },
{
    let mut i: usize = 0;
    while i < c.encounters.len()
        invariant
            i <= c.encounters.len(),
            other_combat(c@.encounters, id, i as nat) is None,
        decreases c.encounters.len() - i,
    {
        assert(c@.encounters[i as int] == c.encounters@[i as int]@);
        if c.encounters[i].in_combat && c.encounters[i].id != id {
            proof {
                lemma_other_combat_stays(c@.encounters, id, (i + 1) as nat, c@.encounters.len());
            }
            return Some(i);
        }
        i = i + 1;
    }
    None
}

proof fn lemma_other_combat_stays(rows: Seq<Encounter<Seq<char>>>, id: i64, m: nat, n: nat)
    requires
        m <= n,
        other_combat(rows, id, m) is Some,
    ensures
        other_combat(rows, id, n) == other_combat(rows, id, m),
    decreases n,
{
    if m < n {
        lemma_other_combat_stays(rows, id, m, (n - 1) as nat);
    }
}

pub(crate) proof fn lemma_order_members(rows: Seq<EncounterParticipant>, by_id: bool)
    ensures
        in_order(rows, by_id).len() == rows.len(),
        forall|k: int|
            0 <= k < rows.len() ==> rows.contains(#[trigger] in_order(rows, by_id)[k]),
{
    broadcast use vstd::seq_lib::group_to_multiset_ensures;

    law_order_of_initiative(rows, by_id);
    let order = in_order(rows, by_id);
    assert forall|k: int| 0 <= k < rows.len() implies rows.contains(#[trigger] order[k]) by {
        assert(order.contains(order[k]));
        assert(order.to_multiset().count(order[k]) > 0);
        assert(rows.to_multiset().count(order[k]) > 0);
    }
}

fn roll_initiative(c: &Campaign, id: i64, rolls: &Vec<i32>) -> (r: Vec<EncounterParticipant>)
    requires
        c@.wf(),
        rolls_ok(c@, id, rolls@),
    ensures
        r@ == rolled(c@, id, rolls@),
        forall|k: int|
            0 <= k < r@.len() ==> {
                &&& listed(c@.characters, (#[trigger] r@[k]).character_id)
                &&& r@[k].initiative is Some
                &&& r@[k].encounter_id == id
            },
{
    proof {
        lemma_tables(c@);
        lemma_participants_listed(c@, id);
        lemma_of_encounter(c@.encounter_participants, id);
    }
    let rows = participants_of(c, id);
    let mut fresh: Vec<EncounterParticipant> = Vec::new();
    let mut k: usize = 0;
    while k < rows.len()
        invariant
            k <= rows.len(),
            c@.wf(),
            crate::campaign::ordered(c@.characters),
            rolls_ok(c@, id, rolls@),
            rows@ == of_encounter(c@.encounter_participants, id),
            forall|j: int|
                0 <= j < rows@.len() ==> listed(
                    c@.characters,
                    (#[trigger] of_encounter(c@.encounter_participants, id)[j]).character_id,
                ),
            fresh@ == rolled(c@, id, rolls@).take(k as int),
        decreases rows.len() - k,
    {
        let mut x = rows[k].copy();
        proof {
            assert(x == of_encounter(c@.encounter_participants, id)[k as int]);
            lemma_character(c@, x.character_id);
            assert(1 <= rolls@[k as int] <= 20);
        }
        if let Some(i) = find(&c.characters, x.character_id) {
            x.initiative = Some(rolls[k] + c.characters[i].initiative_bonus);
        }
        x.has_acted_this_round = false;
        fresh.push(x);
        k = k + 1;
    }
    fresh
}

/// Starts combat with the rolls for initiative that have been made.
pub fn start_with(c: &mut Campaign, p: &StartParams, rolls: &Vec<i32>) -> (r: Result<StartResult, Error>)
    requires
        old(c)@.wf(),
        old(c)@.room(),
        start_refusal(old(c)@, p.encounter_id) is None ==> rolls_ok(old(c)@, p.encounter_id, rolls@),
    ensures
        final(c)@.wf(),
        start_refusal(old(c)@, p.encounter_id) matches Some(e) ==> r is Err && r->Err_0@ == e && final(c)@
            == old(c)@,
        start_refusal(old(c)@, p.encounter_id) is None ==> r is Ok && start_ok(
            old(c)@,
            p.encounter_id,
            rolls@,
            final(c)@,
            r->Ok_0,
        ),
{
    let ghost w = c@;
    let id: i64 = p.encounter_id;
    proof {
        lemma_tables(w);
    }
    let i: usize = match find(&c.encounters, id) {
        Some(i) => i,
        None => {
            return Err(Error::EncounterNotFound { id });
        },
    };
    let mut r = c.encounters[i].copy();
    if r.status != EncounterStatus::Active {
        return Err(Error::CannotStartCombat { id, status: r.status });
    }
    if r.in_combat {
        return Err(Error::AlreadyInCombat { id });
    }
    proof {
        lemma_encounter(w, id);
        lemma_other_combat(w.encounters, id, w.encounters.len());
    }
    let now: i64 = current_campaign_hour(c);
    let zone = r.zone_id;
    let fresh = roll_initiative(c, id, rolls);
    let order = put_in_order(&fresh, false);
    let mut ended: Option<i64> = None;
    if let Some(k) = find_other_combat(c, id) {
        let other: i64 = c.encounters[k].id;
        let _ = end_combat(c, k, now, "superseded_by_new_combat", true);
        ended = Some(other);
        proof {
            lemma_out_of_combat_keeps(w.encounter_participants, other, id);
            lemma_index(w.encounters, k as int);
        }
    }
    let ghost free = c@;
    assert(free == cleared_for(w, id));
    assert(ended == auto_ended(w, id));
    assert(of_encounter(free.encounter_participants, id) == of_encounter(w.encounter_participants, id));
    r.in_combat = true;
    r.current_round = Some(1);
    r.turn_index = Some(0);
    proof {
        lemma_tables(free);
        assert(free.encounters[i as int].id == id);
    }
    c.set_encounter(i, r);
    let mut rows: Vec<EncounterParticipant> = Vec::new();
    let mut k: usize = 0;
    let mut used: usize = 0;
    while k < c.encounter_participants.len()
        invariant
            k <= c.encounter_participants.len(),
            c@.encounter_participants == free.encounter_participants,
            fresh@ == rolled(w, id, rolls@),
            fresh@.len() == of_encounter(free.encounter_participants, id).len(),
            of_encounter(free.encounter_participants, id) == of_encounter(w.encounter_participants, id),
            used == of_encounter(free.encounter_participants.take(k as int), id).len(),
            used <= k,
            rows@ == with_fresh(free.encounter_participants, id, fresh@).take(k as int),
            forall|j: int|
                0 <= j < k ==> {
                    &&& (#[trigger] rows@[j]).encounter_id == free.encounter_participants[j].encounter_id
                    &&& rows@[j].character_id == free.encounter_participants[j].character_id
                },
        decreases c.encounter_participants.len() - k,
    {
        let x = c.encounter_participants[k].copy();
        proof {
            assert(x == free.encounter_participants[k as int]);
            lemma_of_encounter_take(free.encounter_participants, id, k as int);
            assert(free.encounter_participants.take(k + 1).drop_last()
                =~= free.encounter_participants.take(k as int));
            lemma_of_encounter(free.encounter_participants.take(k as int), id);
        }
        if x.encounter_id == id {
            rows.push(fresh[used].copy());
            used = used + 1;
        } else {
            rows.push(x);
        }
        k = k + 1;
    }
    c.set_encounter_participants(rows);
    assert(rows@ =~= with_fresh(free.encounter_participants, id, fresh@));
    proof {
        lemma_order_members(fresh@, false);
    }
    let mut entries: Vec<InitiativeEntry> = Vec::new();
    let mut records: Vec<Vec<Cell>> = Vec::new();
    let mut who: Vec<EventParticipant> = Vec::new();
    let mut k: usize = 0;
    while k < order.len()
        invariant
            k <= order.len(),
            forall|j: int| 0 <= j < order@.len() ==> (#[trigger] order@[j]).initiative is Some,
            views(entries@) == order_entries(order@).take(k as int),
            records.len() == k,
            forall|j: int| 0 <= j < k ==> views((#[trigger] records@[j])@) == order_records(order@)[j],
            who@ == actors(order@).take(k as int),
        decreases order.len() - k,
    {
        let x = &order[k];
        let initiative: i32 = match x.initiative {
            Some(n) => n,
            None => 0,
        };
        assert(order@[k as int].initiative is Some);
        let e = InitiativeEntry {
            character_id: x.character_id,
            side: x.side.as_str().to_owned(),
            initiative,
        };
        let ghost before = entries@;
        entries.push(e);
        proof {
            assert(e@ == order_entries(order@)[k as int]);
            assert(views(entries@) =~= views(before).push(e@));
            assert(views(entries@) =~= order_entries(order@).take(k + 1));
        }
        let cells = cells3(
            make_int_cell("character_id", x.character_id),
            make_text_cell("side", x.side.as_str()),
            make_int_cell("initiative", initiative as i64),
        );
        assert(views(cells@) =~= order_records(order@)[k as int]);
        records.push(cells);
        who.push(EventParticipant { character_id: x.character_id, role: EventRole::Actor });
        assert(who@ =~= actors(order@).take(k + 1));
        k = k + 1;
    }
    proof {
        assert(views(entries@) =~= order_entries(order@));
        assert(who@ =~= actors(order@));
        assert(Value::Records(records)@->Records_0 =~= order_records(order@));
        lemma_of_encounter(w.encounter_participants, id);
        assert(order@.len() <= w.encounter_participants.len());
    }
    let mut s = "Combat started on encounter id=".to_owned();
    s.append(decimal(id).as_str());
    s.append(" with ");
    s.append(decimal(order.len() as i64).as_str());
    s.append(" participant(s)");
    let base = entry(
        "combat.start",
        now,
        s,
        fields2(
            field("initiative_order", Value::Records(records)),
            opt_int_field("auto_ended_encounter_id", ended),
        ),
        who,
    );
    let e = Event { combat_round: Some(1), zone_id: zone, encounter_id: Some(id), ..base };
    assert(e@ == started_entry(w, id, order@, ended));
    proof {
        assert forall|j: int| 0 <= j < e@.participants.len() implies listed(
            c@.characters,
            (#[trigger] e@.participants[j]).character_id,
        ) by {
            let x = order@[j];
            assert(fresh@.contains(x));
            let m = choose|m: int| 0 <= m < fresh@.len() && fresh@[m] == x;
            assert(listed(c@.characters, fresh@[m].character_id));
        }
    }
    let event_id: i64 = c.add_event(e);
    assert(c@ == started(w, id, rolls@));
    Ok(
        StartResult {
            encounter_id: id,
            current_round: 1,
            initiative_order: entries,
            auto_ended_encounter_id: ended,
            event_id,
        },
    )
}

/// Starts combat on an active encounter: everyone rolls for initiative, and whatever other
/// encounter is in combat leaves it.
pub fn start(c: &mut Campaign, p: StartParams) -> (r: Result<StartResult, Error>)
    requires
        old(c)@.wf(),
        old(c)@.room(),
    ensures
        final(c)@.wf(),
        start_refusal(old(c)@, p.encounter_id) matches Some(e) ==> r is Err && r->Err_0@ == e && final(c)@
            == old(c)@,
        start_refusal(old(c)@, p.encounter_id) is None ==> {
            &&& r is Ok
            &&& exists|rolls: Seq<i32>| #[trigger]
                rolls_ok(old(c)@, p.encounter_id, rolls) && start_ok(
                    old(c)@,
                    p.encounter_id,
                    rolls,
                    final(c)@,
                    r->Ok_0,
                )
        },
{
    let n: usize = participants_of(c, p.encounter_id).len();
    let mut rolls: Vec<i32> = Vec::new();
    while rolls.len() < n
        invariant
            rolls.len() <= n,
            forall|k: int| 0 <= k < rolls@.len() ==> 1 <= #[trigger] rolls@[k] <= 20,
        decreases n - rolls.len(),
    {
        let d20: i64 = random_between(1, 20);
        rolls.push(d20 as i32);
    }
    assert(rolls_ok(c@, p.encounter_id, rolls@));
    start_with(c, &p, &rolls)
}

// ── combat.next_turn ──

/// What a new round of combat is about.
pub struct Tick {
    pub ids: Seq<i64>,
    pub now: i64,
    pub round: i32,
    pub zone_id: Option<i64>,
    pub encounter_id: i64,
}

/// Whether the effect counts down with the rounds of the combat.
pub open spec fn effect_ticks(e: Effect<Seq<char>>, t: Tick) -> bool {
    e.active && e.expires_after_rounds is Some && t.ids.contains(e.target_character_id)
}

/// Whether the condition counts down with the rounds of the combat.
pub open spec fn condition_ticks(r: Condition<Seq<char>>, t: Tick) -> bool {
    r.active && r.expires_after_rounds is Some && t.ids.contains(r.character_id)
}

pub open spec fn effect_expired_entry(e: Effect<Seq<char>>, t: Tick) -> EventView {
    EventView {
        combat_round: Some(t.round),
        zone_id: t.zone_id,
        encounter_id: Some(t.encounter_id),
        ..entry_view(
            "effect.expired"@,
            t.now,
            "Effect "@ + e.source + " on character id="@ + int_text(e.target_character_id as int)
                + " expired at combat round "@ + int_text(t.round as int) + " ("@ + e.target_kind.text()
                + ":"@ + e.target_key + ")"@,
            seq![
                field_view("effect_id"@, ValueView::Int(e.id as int)),
                field_view("source"@, ValueView::Text(e.source)),
                field_view("target_kind"@, ValueView::Text(e.target_kind.text())),
                field_view("target_key"@, ValueView::Text(e.target_key)),
                field_view("reason"@, ValueView::Text("rounds_elapsed"@)),
                field_view("expiry_reason"@, ValueView::Text("rounds_elapsed"@)),
            ],
            one(e.target_character_id, EventRole::Target),
        )
    }
}

pub open spec fn condition_expired_entry(r: Condition<Seq<char>>, t: Tick) -> EventView {
    EventView {
        combat_round: Some(t.round),
        zone_id: t.zone_id,
        encounter_id: Some(t.encounter_id),
        ..entry_view(
            "condition.expired"@,
            t.now,
            "Condition "@ + debug_text(r.condition) + " on character id="@ + int_text(r.character_id as int)
                + " expired at combat round "@ + int_text(t.round as int),
            seq![
                field_view("condition_id"@, ValueView::Int(r.id as int)),
                field_view("condition"@, ValueView::Text(r.condition)),
                field_view("severity"@, ValueView::Int(r.severity as int)),
                field_view("reason"@, ValueView::Text("rounds_elapsed"@)),
            ],
            one(r.character_id, EventRole::Target),
        )
    }
}

/// The campaign after effect `i` has counted down: one round less, or over and logged.
pub open spec fn tick_effect(w: World, t: Tick, i: int) -> World {
    let e = w.effects[i];
    if !effect_ticks(e, t) {
        w
    } else if e.expires_after_rounds->0 <= 1 {
        World { effects: w.effects.update(i, Effect { active: false, ..e }), ..w }.with_event(
            effect_expired_entry(e, t),
        )
    } else {
        World {
            effects: w.effects.update(
                i,
                Effect { expires_after_rounds: Some((e.expires_after_rounds->0 - 1) as i32), ..e },
            ),
            ..w
        }
    }
}

/// The campaign after the first `n` effects have counted down.
pub open spec fn tick_effects(w: World, t: Tick, n: nat) -> World
    decreases n,
{
    if n == 0 {
        w
    } else {
        tick_effect(tick_effects(w, t, (n - 1) as nat), t, n - 1)
    }
}

/// The campaign after condition `i` has counted down: one round less, or over and logged.
pub open spec fn tick_condition(w: World, t: Tick, i: int) -> World {
    let r = w.conditions[i];
    if !condition_ticks(r, t) {
        w
    } else if r.expires_after_rounds->0 <= 1 {
        World { conditions: w.conditions.update(i, Condition { active: false, ..r }), ..w }.with_event(
            condition_expired_entry(r, t),
        )
    } else {
        World {
            conditions: w.conditions.update(
                i,
                Condition { expires_after_rounds: Some((r.expires_after_rounds->0 - 1) as i32), ..r },
            ),
            ..w
        }
    }
}

/// The campaign after the first `n` conditions have counted down.
pub open spec fn tick_conditions(w: World, t: Tick, n: nat) -> World
    decreases n,
{
    if n == 0 {
        w
    } else {
        tick_condition(tick_conditions(w, t, (n - 1) as nat), t, n - 1)
    }
}

/// The ids of those of the first `n` effects that expire.
pub open spec fn expiring_effects(rows: Seq<Effect<Seq<char>>>, t: Tick, n: nat) -> Seq<i64>
    decreases n,
{
    if n == 0 {
        Seq::empty()
    } else {
        let rest = expiring_effects(rows, t, (n - 1) as nat);
        if effect_ticks(rows[n - 1], t) && rows[n - 1].expires_after_rounds->0 <= 1 {
            rest.push(rows[n - 1].id)
        } else {
            rest
        }
    }
}

/// The ids of those of the first `n` conditions that expire.
pub open spec fn expiring_conditions(rows: Seq<Condition<Seq<char>>>, t: Tick, n: nat) -> Seq<i64>
    decreases n,
{
    if n == 0 {
        Seq::empty()
    } else {
        let rest = expiring_conditions(rows, t, (n - 1) as nat);
        if condition_ticks(rows[n - 1], t) && rows[n - 1].expires_after_rounds->0 <= 1 {
            rest.push(rows[n - 1].id)
        } else {
            rest
        }
    }
}

pub(crate) fn is_among(ids: &Vec<i64>, id: i64) -> (r: bool)
    ensures
        r == ids@.contains(id),
{
    let mut i: usize = 0;
    while i < ids.len()
        invariant
            i <= ids.len(),
            forall|j: int| 0 <= j < i ==> ids@[j] != id,
        decreases ids.len() - i,
    {
        if ids[i] == id {
            return true;
        }
        i = i + 1;
    }
    false
}

fn run_effects(
    c: &mut Campaign,
    ids: &Vec<i64>,
    now: i64,
    round: i32,
    zone_id: Option<i64>,
    encounter_id: i64,
) -> (expired: Vec<i64>)
    requires
        old(c)@.wf(),
        top(old(c)@.events) <= 2 * ID_LIMIT,
        top(old(c)@.effects) <= ID_LIMIT,
        old(c)@.zone_ref(zone_id),
        listed(old(c)@.encounters, encounter_id),
    ensures
        final(c)@.wf(),
        final(c)@ == tick_effects(
            old(c)@,
            (Tick { ids: ids@, now, round, zone_id, encounter_id }),
            old(c)@.effects.len(),
        ),
        expired@ == expiring_effects(
            old(c)@.effects,
            (Tick { ids: ids@, now, round, zone_id, encounter_id }),
            old(c)@.effects.len(),
        ),
        final(c)@ == (World { effects: final(c)@.effects, events: final(c)@.events, ..old(c)@ }),
        top(final(c)@.events) <= top(old(c)@.events) + ID_LIMIT,
{
    let ghost w = c@;
    let ghost t = Tick { ids: ids@, now, round, zone_id, encounter_id };
    proof {
        lemma_tables(w);
        lemma_len(w.effects);
    }
    let mut expired: Vec<i64> = Vec::new();
    let mut i: usize = 0;
    let n: usize = c.effects.len();
    while i < n
        invariant
            i <= n,
            t == (Tick { ids: ids@, now, round, zone_id, encounter_id }),
            n == c.effects.len(),
            n == w.effects.len(),
            n <= ID_LIMIT,
            c@.wf(),
            c@ == tick_effects(w, t, i as nat),
            c@ == (World { effects: c@.effects, events: c@.events, ..w }),
            forall|j: int| i <= j < n ==> #[trigger] c@.effects[j] == w.effects[j],
            w.zone_ref(zone_id),
            listed(w.encounters, encounter_id),
            expired@ == expiring_effects(w.effects, t, i as nat),
            top(w.events) <= 2 * ID_LIMIT,
            top(c@.events) <= top(w.events) + i,
        decreases n - i,
    {
        let mut e = c.effects[i].copy();
        let ghost e0 = e@;
        proof {
            assert(c@.effects[i as int] == e0);
            assert(listed(c@.characters, e.target_character_id)) by {
                reveal(World::wf);
            }
        }
        if e.active && is_among(ids, e.target_character_id) {
            if let Some(rounds) = e.expires_after_rounds {
                if rounds <= 1 {
                    let mut s = "Effect ".to_owned();
                    s.append(e.source.as_str());
                    s.append(" on character id=");
                    s.append(decimal(e.target_character_id).as_str());
                    s.append(" expired at combat round ");
                    s.append(decimal(round as i64).as_str());
                    s.append(" (");
                    s.append(e.target_kind.as_str());
                    s.append(":");
                    s.append(e.target_key.as_str());
                    s.append(")");
                    let base = entry(
                        "effect.expired",
                        now,
                        s,
                        fields6(
                            int_field("effect_id", e.id),
                            text_field("source", e.source.as_str()),
                            text_field("target_kind", e.target_kind.as_str()),
                            text_field("target_key", e.target_key.as_str()),
                            text_field("reason", "rounds_elapsed"),
                            text_field("expiry_reason", "rounds_elapsed"),
                        ),
                        only(e.target_character_id, EventRole::Target),
                    );
                    let ev = Event {
                        combat_round: Some(round),
                        zone_id,
                        encounter_id: Some(encounter_id),
                        ..base
                    };
                    assert(ev@ == effect_expired_entry(e0, t));
                    let eid: i64 = e.id;
                    e.active = false;
                    c.set_effect(i, e);
                    let _ = c.add_event(ev);
                    expired.push(eid);
                } else {
                    e.expires_after_rounds = Some(rounds - 1);
                    c.set_effect(i, e);
                }
            }
        }
        i = i + 1;
    }
    expired
}

fn run_conditions(
    c: &mut Campaign,
    ids: &Vec<i64>,
    now: i64,
    round: i32,
    zone_id: Option<i64>,
    encounter_id: i64,
) -> (expired: Vec<i64>)
    requires
        old(c)@.wf(),
        top(old(c)@.events) <= 2 * ID_LIMIT,
        top(old(c)@.conditions) <= ID_LIMIT,
        old(c)@.zone_ref(zone_id),
        listed(old(c)@.encounters, encounter_id),
    ensures
        final(c)@.wf(),
        final(c)@ == tick_conditions(
            old(c)@,
            (Tick { ids: ids@, now, round, zone_id, encounter_id }),
            old(c)@.conditions.len(),
        ),
        expired@ == expiring_conditions(
            old(c)@.conditions,
            (Tick { ids: ids@, now, round, zone_id, encounter_id }),
            old(c)@.conditions.len(),
        ),
        final(c)@ == (World { conditions: final(c)@.conditions, events: final(c)@.events, ..old(c)@ }),
        top(final(c)@.events) <= top(old(c)@.events) + ID_LIMIT,
{
    let ghost w = c@;
    let ghost t = Tick { ids: ids@, now, round, zone_id, encounter_id };
    proof {
        lemma_tables(w);
        lemma_len(w.conditions);
    }
    let mut expired: Vec<i64> = Vec::new();
    let mut i: usize = 0;
    let n: usize = c.conditions.len();
    while i < n
        invariant
            i <= n,
            t == (Tick { ids: ids@, now, round, zone_id, encounter_id }),
            n == c.conditions.len(),
            n == w.conditions.len(),
            n <= ID_LIMIT,
            c@.wf(),
            c@ == tick_conditions(w, t, i as nat),
            c@ == (World { conditions: c@.conditions, events: c@.events, ..w }),
            forall|j: int| i <= j < n ==> #[trigger] c@.conditions[j] == w.conditions[j],
            w.zone_ref(zone_id),
            listed(w.encounters, encounter_id),
            expired@ == expiring_conditions(w.conditions, t, i as nat),
            top(w.events) <= 2 * ID_LIMIT,
            top(c@.events) <= top(w.events) + i,
        decreases n - i,
    {
        let mut r = c.conditions[i].copy();
        let ghost r0 = r@;
        proof {
            assert(c@.conditions[i as int] == r0);
            assert(listed(c@.characters, r.character_id)) by {
                reveal(World::wf);
            }
        }
        if r.active && is_among(ids, r.character_id) {
            if let Some(rounds) = r.expires_after_rounds {
                if rounds <= 1 {
                    let mut s = "Condition ".to_owned();
                    s.append(quoted(r.condition.as_str()).as_str());
                    s.append(" on character id=");
                    s.append(decimal(r.character_id).as_str());
                    s.append(" expired at combat round ");
                    s.append(decimal(round as i64).as_str());
                    let base = entry(
                        "condition.expired",
                        now,
                        s,
                        fields4(
                            int_field("condition_id", r.id),
                            text_field("condition", r.condition.as_str()),
                            int_field("severity", r.severity as i64),
                            text_field("reason", "rounds_elapsed"),
                        ),
                        only(r.character_id, EventRole::Target),
                    );
                    let ev = Event {
                        combat_round: Some(round),
                        zone_id,
                        encounter_id: Some(encounter_id),
                        ..base
                    };
                    assert(ev@ == condition_expired_entry(r0, t));
                    let cid: i64 = r.id;
                    r.active = false;
                    c.set_condition(i, r);
                    let _ = c.add_event(ev);
                    expired.push(cid);
                } else {
                    r.expires_after_rounds = Some(rounds - 1);
                    c.set_condition(i, r);
                }
            }
        }
        i = i + 1;
    }
    expired
}

/// The order in which the participants of an encounter take their turns.
pub open spec fn turn_order(w: World, id: i64) -> Seq<EncounterParticipant> {
    in_order(of_encounter(w.encounter_participants, id), true)
}

/// The ids of the characters in order.
pub open spec fn character_ids(order: Seq<EncounterParticipant>) -> Seq<i64> {
    Seq::new(order.len(), |k: int| order[k].character_id)
}

/// Whose turn it is: a stored index outside the order counts as its nearest end.
pub open spec fn turn_now(w: World, id: i64) -> int {
    let n = turn_order(w, id).len();
    match row(w.encounters, id).turn_index {
        Some(k) => if k < 0 {
            0
        } else if k >= n {
            n - 1
        } else {
            k as int
        },
        None => 0,
    }
}

/// Whether the next turn begins a new round.
pub open spec fn wraps(w: World, id: i64) -> bool {
    turn_now(w, id) + 1 >= turn_order(w, id).len()
}

/// Whose turn it is next.
pub open spec fn turn_next(w: World, id: i64) -> int {
    if wraps(w, id) {
        0
    } else {
        turn_now(w, id) + 1
    }
}

/// The round of the next turn.
pub open spec fn round_next(w: World, id: i64) -> int {
    let round = match row(w.encounters, id).current_round {
        Some(n) => n,
        None => 1,
    };
    if wraps(w, id) {
        round + 1
    } else {
        round as int
    }
}

/// The participants after a turn of `actor`, nobody having acted yet where a round begins.
pub open spec fn after_turn(
    rows: Seq<EncounterParticipant>,
    id: i64,
    actor: i64,
    wrapped: bool,
) -> Seq<EncounterParticipant> {
    Seq::new(
        rows.len(),
        |i: int|
            if rows[i].encounter_id == id && wrapped {
                EncounterParticipant { has_acted_this_round: false, ..rows[i] }
            } else if rows[i].encounter_id == id && rows[i].character_id == actor {
                EncounterParticipant { has_acted_this_round: true, ..rows[i] }
            } else {
                rows[i]
            },
    )
}

pub open spec fn tick_of(w: World, id: i64) -> Tick {
    Tick {
        ids: character_ids(turn_order(w, id)),
        now: campaign_hour(w),
        round: round_next(w, id) as i32,
        zone_id: row(w.encounters, id).zone_id,
        encounter_id: id,
    }
}

pub open spec fn expired_effects(w: World, id: i64) -> Seq<i64> {
    if wraps(w, id) {
        expiring_effects(w.effects, tick_of(w, id), w.effects.len())
    } else {
        Seq::empty()
    }
}

pub open spec fn expired_conditions(w: World, id: i64) -> Seq<i64> {
    if wraps(w, id) {
        expiring_conditions(w.conditions, tick_of(w, id), w.conditions.len())
    } else {
        Seq::empty()
    }
}

/// The entry for a turn that begins.
pub open spec fn turn_report(
    id: i64,
    now: i64,
    zone_id: Option<i64>,
    round: i32,
    actor: i64,
    wrapped: bool,
    effects: Seq<i64>,
    conditions: Seq<i64>,
) -> EventView {
    EventView {
        combat_round: Some(round),
        zone_id,
        encounter_id: Some(id),
        ..entry_view(
            "combat.next_turn"@,
            now,
            "Combat next turn on encounter id="@ + int_text(id as int) + " (round "@ + int_text(
                round as int,
            ) + ", actor id="@ + int_text(actor as int) + ")"@,
            seq![
                field_view("current_round"@, ValueView::Int(round as int)),
                field_view("current_character_id"@, ValueView::Int(actor as int)),
                field_view("wrapped_to_new_round"@, ValueView::Bool(wrapped)),
                field_view("expired_effect_ids"@, ValueView::Ints(effects)),
                field_view("expired_condition_ids"@, ValueView::Ints(conditions)),
            ],
            one(actor, EventRole::Actor),
        )
    }
}

pub open spec fn turn_entry(w: World, id: i64) -> EventView {
    turn_report(
        id,
        campaign_hour(w),
        row(w.encounters, id).zone_id,
        round_next(w, id) as i32,
        turn_order(w, id)[turn_next(w, id)].character_id,
        wraps(w, id),
        expired_effects(w, id),
        expired_conditions(w, id),
    )
}

/// The campaign in which whose turn it was has acted and, where a new round begins, what
/// lasts for rounds has counted down.
pub open spec fn acted(w: World, id: i64) -> World {
    let noted = World {
        encounter_participants: after_turn(
            w.encounter_participants,
            id,
            turn_order(w, id)[turn_now(w, id)].character_id,
            wraps(w, id),
        ),
        ..w
    };
    if wraps(w, id) {
        tick_conditions(
            tick_effects(noted, tick_of(w, id), w.effects.len()),
            tick_of(w, id),
            w.conditions.len(),
        )
    } else {
        noted
    }
}

/// The campaign at the next turn.
pub open spec fn turned(w: World, id: i64) -> World {
    let before = acted(w, id);
    World {
        encounters: put(
            before.encounters,
            Encounter {
                turn_index: Some(turn_next(w, id) as i32),
                current_round: Some(round_next(w, id) as i32),
                ..row(w.encounters, id)
            },
        ),
        ..before
    }.with_event(turn_entry(w, id))
}

pub open spec fn turn_refusal(w: World, id: i64) -> Option<Error<Seq<char>>> {
    if !listed(w.encounters, id) {
        Some(Error::EncounterNotFound { id })
    } else if !row(w.encounters, id).in_combat {
        Some(Error::NotInCombat { id })
    } else if of_encounter(w.encounter_participants, id).len() == 0 {
        Some(Error::NoParticipants { id })
    } else {
        None
    }
}

fn list_characters(order: &Vec<EncounterParticipant>) -> (ids: Vec<i64>)
    ensures
        ids@ == character_ids(order@),
{
    let mut ids: Vec<i64> = Vec::new();
    let mut k: usize = 0;
    while k < order.len()
        invariant
            k <= order.len(),
            ids@ == character_ids(order@).take(k as int),
        decreases order.len() - k,
    {
        ids.push(order[k].character_id);
        assert(ids@ =~= character_ids(order@).take(k + 1));
        k = k + 1;
    }
    assert(ids@ =~= character_ids(order@));
    ids
}

/// Notes that the actor has had its turn, or that nobody has where a round begins.
fn note_turn(c: &mut Campaign, id: i64, actor: i64, wrapped: bool)
    requires
        old(c)@.wf(),
    ensures
        final(c)@ == (World {
            encounter_participants: after_turn(old(c)@.encounter_participants, id, actor, wrapped),
            ..old(c)@
        }),
        final(c)@.wf(),
        final(c)@.room() == old(c)@.room(),
{
    let ghost w = c@;
    let mut table: Vec<EncounterParticipant> = Vec::new();
    let mut k: usize = 0;
    while k < c.encounter_participants.len()
        invariant
            k <= c.encounter_participants.len(),
            c@ == w,
            table@ == after_turn(w.encounter_participants, id, actor, wrapped).take(k as int),
        decreases c.encounter_participants.len() - k,
    {
        let mut x = c.encounter_participants[k].copy();
        assert(x == c@.encounter_participants[k as int]);
        if x.encounter_id == id && wrapped {
            x.has_acted_this_round = false;
        } else if x.encounter_id == id && x.character_id == actor {
            x.has_acted_this_round = true;
        }
        table.push(x);
        k = k + 1;
    }
    assert(table@ =~= after_turn(w.encounter_participants, id, actor, wrapped));
    c.set_encounter_participants(table);
}

/// The entry for a turn that begins.
fn report_turn(t: &NextTurnResult, now: i64, zone_id: Option<i64>) -> (e: Event)
    ensures
        e@ == turn_report(
            t.encounter_id,
            now,
            zone_id,
            t.current_round,
            t.current_character_id,
            t.wrapped_to_new_round,
            t.expired_effect_ids@,
            t.expired_condition_ids@,
        ),
{
    let mut s = "Combat next turn on encounter id=".to_owned();
    s.append(decimal(t.encounter_id).as_str());
    s.append(" (round ");
    s.append(decimal(t.current_round as i64).as_str());
    s.append(", actor id=");
    s.append(decimal(t.current_character_id).as_str());
    s.append(")");
    let effect_ids = copy_ints(&t.expired_effect_ids);
    let condition_ids = copy_ints(&t.expired_condition_ids);
    let base = entry(
        "combat.next_turn",
        now,
        s,
        fields5(
            int_field("current_round", t.current_round as i64),
            int_field("current_character_id", t.current_character_id),
            bool_field("wrapped_to_new_round", t.wrapped_to_new_round),
            field("expired_effect_ids", Value::Ints(effect_ids)),
            field("expired_condition_ids", Value::Ints(condition_ids)),
        ),
        only(t.current_character_id, EventRole::Actor),
    );
    Event { combat_round: Some(t.current_round), zone_id, encounter_id: Some(t.encounter_id), ..base }
}

/// Passes the turn to the next in the order of initiative. At the end of a round everyone is
/// free to act again, and effects and conditions that last for rounds come one round nearer
/// to their end.
#[verifier::spinoff_prover]
pub fn next_turn(c: &mut Campaign, p: NextTurnParams) -> (r: Result<NextTurnResult, Error>)
    requires
        old(c)@.wf(),
        old(c)@.room(),
    ensures
        final(c)@.wf(),
        turn_refusal(old(c)@, p.encounter_id) matches Some(e) ==> r is Err && r->Err_0@ == e && final(c)@
            == old(c)@,
        turn_refusal(old(c)@, p.encounter_id) is None ==> {
            let id = p.encounter_id;
            &&& r is Ok
            &&& r->Ok_0.encounter_id == id
            &&& r->Ok_0.current_round == round_next(old(c)@, id)
            &&& r->Ok_0.current_character_id == turn_order(old(c)@, id)[turn_next(old(c)@, id)].character_id
            &&& r->Ok_0.wrapped_to_new_round == wraps(old(c)@, id)
            &&& r->Ok_0.expired_effect_ids@ == expired_effects(old(c)@, id)
            &&& r->Ok_0.expired_condition_ids@ == expired_conditions(old(c)@, id)
            &&& r->Ok_0.event_id == next_id(acted(old(c)@, id).events)
            &&& final(c)@ == turned(old(c)@, id)
        },
{
    let ghost w = c@;
    let id: i64 = p.encounter_id;
    proof {
        lemma_tables(w);
    }
    let i: usize = match find(&c.encounters, id) {
        Some(i) => i,
        None => {
            return Err(Error::EncounterNotFound { id });
        },
    };
    let mut r = c.encounters[i].copy();
    if !r.in_combat {
        return Err(Error::NotInCombat { id });
    }
    let rows = participants_of(c, id);
    if rows.len() == 0 {
        return Err(Error::NoParticipants { id });
    }
    proof {
        lemma_encounter(w, id);
        lemma_participants_listed(w, id);
        lemma_order_members(rows@, true);
        assert(w.encounters[i as int].current_round != Some(i32::MAX));
    }
    let order = put_in_order(&rows, true);
    let n: usize = order.len();
    let turn: usize = match r.turn_index {
        Some(k) => if k < 0 {
            0
        } else if k as usize >= n {
            n - 1
        } else {
            k as usize
        },
        None => 0,
    };
    let wrapped = turn + 1 >= n;
    let next: usize = if wrapped {
        0
    } else {
        turn + 1
    };
    let round: i32 = match r.current_round {
        Some(k) => k,
        None => 1,
    };
    let round: i32 = if wrapped {
        round + 1
    } else {
        round
    };
    let actor: i64 = order[turn].character_id;
    let next_actor: i64 = order[next].character_id;
    let now: i64 = current_campaign_hour(c);
    let zone = r.zone_id;
    assert(turn == turn_now(w, id) && next == turn_next(w, id) && round == round_next(w, id));
    assert(listed(w.characters, next_actor)) by {
        let x = order@[next as int];
        assert(rows@.contains(x));
        let m = choose|m: int| 0 <= m < rows@.len() && rows@[m] == x;
        assert(listed(w.characters, of_encounter(w.encounter_participants, id)[m].character_id));
    }
    let ids = list_characters(&order);
    note_turn(c, id, actor, wrapped);
    let mut expired_effect_ids: Vec<i64> = Vec::new();
    let mut expired_condition_ids: Vec<i64> = Vec::new();
    if wrapped {
        expired_effect_ids = run_effects(c, &ids, now, round, zone, id);
        expired_condition_ids = run_conditions(c, &ids, now, round, zone, id);
    }
    let ghost before = c@;
    assert(before == acted(w, id));
    r.turn_index = Some(next as i32);
    r.current_round = Some(round);
    c.set_encounter(i, r);
    let mut done = NextTurnResult {
        encounter_id: id,
        current_round: round,
        current_character_id: next_actor,
        wrapped_to_new_round: wrapped,
        expired_effect_ids,
        expired_condition_ids,
        event_id: 0,
    };
    let e = report_turn(&done, now, zone);
    assert(e@ == turn_entry(w, id));
    done.event_id = c.add_event(e);
    assert(c@ == turned(w, id));
    Ok(done)
}

// ── character.death_event ──

#[derive(Debug, Clone, Copy, PartialEq, Eq)]
pub struct DeathEventParams {
    pub character_id: i64,
}

#[derive(Debug, Clone, PartialEq, Eq)]
pub struct DeathEventResult {
    pub character_id: i64,
    pub rolled: DeathEvent,
    pub event_id: i64,
}

/// How likely an event is next to the others: its weight, at least 1.
pub open spec fn weight_of(e: DeathEvent) -> int {
    if e.weight > 1 {
        e.weight as int
    } else {
        1
    }
}

/// The weights together.
pub open spec fn weight_sum(events: Seq<DeathEvent>) -> int
    decreases events.len(),
{
    if events.len() == 0 {
        0
    } else {
        weight_sum(events.drop_last()) + weight_of(events.last())
    }
}

/// The event that a roll falls on: the last one that all before it do not use the roll up for.
pub open spec fn picked(events: Seq<DeathEvent>, roll: int) -> int
    decreases events.len(),
{
    if events.len() == 0 {
        0
    } else if weight_sum(events.drop_last()) < roll {
        events.len() - 1
    } else {
        picked(events.drop_last(), roll)
    }
}

pub open spec fn death_event_refusal(w: World, content: Content, p: DeathEventParams) -> Option<Error<Seq<char>>> {
    if !listed(w.characters, p.character_id) {
        Some(Error::CharacterNotFound { id: p.character_id })
    } else if row(w.characters, p.character_id).status != Status::Dead {
        Some(Error::NotDead { id: p.character_id, status: row(w.characters, p.character_id).status })
    } else if content.death_events@.len() == 0 {
        Some(Error::NoDeathEvents)
    } else {
        None
    }
}

pub open spec fn death_event_entry(w: World, p: DeathEventParams, e: DeathEvent) -> EventView {
    entry_view(
        "character.death_event"@,
        campaign_hour(w),
        "Character id="@ + int_text(p.character_id as int) + " rolled death event "@ + debug_text(e.kind@),
        seq![
            field_view("kind"@, ValueView::Text(e.kind@)),
            field_view("description"@, ValueView::Text(e.description@)),
            field_view("outcome_hooks"@, ValueView::Texts(texts(e.outcome_hooks@))),
            field_view("requires"@, ValueView::Texts(texts(e.requires@))),
        ],
        one(p.character_id, EventRole::Actor),
    )
}

/// What comes of a roll for what happens after death.
pub open spec fn death_event_ok(
    w: World,
    content: Content,
    p: DeathEventParams,
    roll: int,
    after: World,
    r: DeathEventResult,
) -> bool {
    let e = content.death_events@[picked(content.death_events@, roll)];
    &&& r.character_id == p.character_id
    &&& r.rolled.equals(e)
    &&& r.event_id == next_id(w.events)
    &&& after == w.with_event(death_event_entry(w, p, e))
}

pub(crate) proof fn lemma_weight_sum(events: Seq<DeathEvent>, n: int)
    requires
        0 <= n <= events.len(),
    ensures
        weight_sum(events.take(n)) <= weight_sum(events) - (events.len() - n),
        weight_sum(events) >= events.len(),
        n == events.len() ==> weight_sum(events.take(n)) == weight_sum(events),
    decreases events.len(),
{
    if n == events.len() {
        assert(events.take(n) =~= events);
        if n > 0 {
            lemma_weight_sum(events.drop_last(), n - 1);
        }
    } else {
        lemma_weight_sum(events.drop_last(), n);
        assert(events.take(n) =~= events.drop_last().take(n));
    }
}

pub(crate) proof fn lemma_picked(events: Seq<DeathEvent>, roll: int, k: int)
    requires
        0 <= k < events.len(),
        weight_sum(events.take(k)) < roll <= weight_sum(events.take(k + 1)),
    ensures
        picked(events, roll) == k,
    decreases events.len(),
{
    if k == events.len() - 1 {
        assert(events.take(k) =~= events.drop_last());
    } else {
        let rest = events.drop_last();
        assert(events.take(k) =~= rest.take(k));
        assert(events.take(k + 1) =~= rest.take(k + 1));
        lemma_weight_sum(rest, k + 1);
        lemma_picked(rest, roll, k);
    }
}

/// The event that a roll falls on is one of the events, and each takes as many rolls as its
/// weight says: those above the weights before it, up to those with its own.
pub proof fn law_death_event_has_its_weight(events: Seq<DeathEvent>, roll: int)
    requires
        1 <= roll <= weight_sum(events),
    ensures
        ({
            let k = picked(events, roll);
            &&& 0 <= k < events.len()
            &&& weight_sum(events.take(k)) < roll <= weight_sum(events.take(k)) + weight_of(events[k])
        }),
    decreases events.len(),
{
    if events.len() > 0 {
        let rest = events.drop_last();
        if weight_sum(rest) < roll {
            assert(events.take(events.len() - 1) =~= rest);
        } else {
            law_death_event_has_its_weight(rest, roll);
            let k = picked(rest, roll);
            assert(events.take(k) =~= rest.take(k));
        }
    }
}

/// The weights together, where they are a number that a roll can be made up to.
pub fn sum_death_weights(content: &Content) -> (r: Option<i32>)
    ensures
        match r {
            Some(n) => n == weight_sum(content.death_events@),
            None => weight_sum(content.death_events@) > i32::MAX,
        },
{
    let events = &content.death_events;
    let mut total: i64 = 0;
    let mut i: usize = 0;
    while i < events.len()
        invariant
            i <= events.len(),
            total == weight_sum(events@.take(i as int)),
            events@ == content.death_events@,
            0 <= total <= i32::MAX,
        decreases events.len() - i,
    {
        assert(events@.take(i + 1).drop_last() =~= events@.take(i as int));
        let w: i32 = events[i].weight;
        total = total + (if w > 1 {
            w as i64
        } else {
            1
        });
        if total > 0x7fff_ffff {
            proof {
                lemma_weight_sum(events@, i + 1);
            }
            return None;
        }
        i = i + 1;
    }
    assert(events@.take(i as int) =~= events@);
    Some(total as i32)
}

/// The event that the roll falls on.
fn pick_death_event(events: &Vec<DeathEvent>, roll: i32) -> (r: usize)
    requires
        1 <= roll <= weight_sum(events@) <= i32::MAX,
    ensures
        r < events.len(),
        r == picked(events@, roll as int),
{
    let mut before: i64 = 0;
    let mut i: usize = 0;
    while i < events.len()
        invariant
            i <= events.len(),
            before == weight_sum(events@.take(i as int)),
            0 <= before < roll <= weight_sum(events@) <= i32::MAX,
        decreases events.len() - i,
    {
        assert(events@.take(i + 1).drop_last() =~= events@.take(i as int));
        let w: i32 = events[i].weight;
        let through: i64 = before + (if w > 1 {
            w as i64
        } else {
            1
        });
        if roll as i64 <= through {
            proof {
                lemma_picked(events@, roll as int, i as int);
            }
            return i;
        }
        before = through;
        i = i + 1;
    }
    assert(events@.take(i as int) =~= events@);
    assert(false);
    0
}

/// Writes down what happens to a dead character, for a roll that has been made.
pub fn death_event_with(
    c: &mut Campaign,
    content: &Content,
    p: &DeathEventParams,
    roll: i32,
) -> (r: Result<DeathEventResult, Error>)
    requires
        old(c)@.wf(),
        old(c)@.room(),
        weight_sum(content.death_events@) <= i32::MAX,
        content.death_events@.len() > 0 ==> 1 <= roll <= weight_sum(content.death_events@),
    ensures
        final(c)@.wf(),
        death_event_refusal(old(c)@, *content, *p) matches Some(e) ==> r is Err && r->Err_0@ == e && final(c)@
            == old(c)@,
        death_event_refusal(old(c)@, *content, *p) is None ==> r is Ok && death_event_ok(
            old(c)@,
            *content,
            *p,
            roll as int,
            final(c)@,
            r->Ok_0,
        ),
{
    let ghost w = c@;
    proof {
        lemma_tables(w);
    }
    let i: usize = match find(&c.characters, p.character_id) {
        Some(i) => i,
        None => {
            return Err(Error::CharacterNotFound { id: p.character_id });
        },
    };
    let status = c.characters[i].status;
    if status != Status::Dead {
        return Err(Error::NotDead { id: p.character_id, status });
    }
    if content.death_events.len() == 0 {
        return Err(Error::NoDeathEvents);
    }
    let k: usize = pick_death_event(&content.death_events, roll);
    let x = &content.death_events[k];
    let now: i64 = current_campaign_hour(c);
    let mut s = "Character id=".to_owned();
    s.append(decimal(p.character_id).as_str());
    s.append(" rolled death event ");
    s.append(quoted(x.kind.as_str()).as_str());
    let e = entry(
        "character.death_event",
        now,
        s,
        fields4(
            text_field("kind", x.kind.as_str()),
            text_field("description", x.description.as_str()),
            field("outcome_hooks", Value::Texts(copy_list(&x.outcome_hooks))),
            field("requires", Value::Texts(copy_list(&x.requires))),
        ),
        only(p.character_id, EventRole::Actor),
    );
    assert(e@ == death_event_entry(w, *p, *x));
    let event_id: i64 = c.add_event(e);
    let rolled = x.copy();
    Ok(DeathEventResult { character_id: p.character_id, rolled, event_id })
}

/// Rolls what happens to a dead character: what comes out is what one of the possible rolls
/// gives.
pub fn roll_death_event(c: &mut Campaign, content: &Content, p: DeathEventParams) -> (r: Result<
    DeathEventResult,
    Error,
>)
    requires
        old(c)@.wf(),
        old(c)@.room(),
        weight_sum(content.death_events@) <= i32::MAX,
    ensures
        final(c)@.wf(),
        death_event_refusal(old(c)@, *content, p) matches Some(e) ==> r is Err && r->Err_0@ == e && final(c)@
            == old(c)@,
        death_event_refusal(old(c)@, *content, p) is None ==> r is Ok && exists|roll: int|
            #![trigger death_event_ok(old(c)@, *content, p, roll, final(c)@, r->Ok_0)]
            1 <= roll <= weight_sum(content.death_events@) && death_event_ok(
                old(c)@,
                *content,
                p,
                roll,
                final(c)@,
                r->Ok_0,
            ),
{
    let mut roll: i32 = 1;
    proof {
        lemma_weight_sum(content.death_events@, 0);
    }
    if let Some(total) = sum_death_weights(content) {
        if total > 0 {
            roll = random_between(1, total as i64) as i32;
        }
    }
    death_event_with(c, content, &p, roll)
}

// ── Laws ──

/// A living character that damage takes to 0 lies unconscious at 0 hit points with no death
/// save made, and is marked as mortally wounded.
pub proof fn law_damage_to_zero_fells(w: World, p: ApplyDamageParams)
    requires
        w.wf(),
        damage_refusal(w, p) is None,
        row(w.characters, p.character_id).status == Status::Alive,
        0 < row(w.characters, p.character_id).hp_current <= p.amount,
    ensures
        ({
            let v = damaged(w, p);
            let ch = row(v.characters, p.character_id);
            &&& ch.hp_current == 0
            &&& ch.status == Status::Unconscious
            &&& ch.death_save_successes == 0
            &&& ch.death_save_failures == 0
            &&& wound_of(v, p.character_id) is Some
        }),
{
    lemma_tables(w);
    lemma_character(w, p.character_id);
    let ch = row(w.characters, p.character_id);
    let fallen = Character {
        hp_current: 0,
        status: Status::Unconscious,
        death_save_successes: 0,
        death_save_failures: 0,
        updated_at: campaign_hour(w),
        ..ch
    };
    lemma_update(w.characters, index_of(w.characters, p.character_id), fallen);
}

/// Hit points stay between 0 and the maximum, whatever the damage or the healing.
pub proof fn law_hit_points_stay_in_range(w: World, d: ApplyDamageParams, h: ApplyHealingParams)
    requires
        w.wf(),
        d.character_id == h.character_id,
        damage_refusal(w, d) is None,
        healing_refusal(w, h) is None,
    ensures
        ({
            let before = row(w.characters, d.character_id);
            let hurt = row(damaged(w, d).characters, d.character_id);
            let better = row(healed(w, h).characters, d.character_id);
            &&& 0 <= hurt.hp_current <= before.hp_current
            &&& before.hp_current <= better.hp_current <= before.hp_max
            &&& hurt.hp_max == before.hp_max
            &&& better.hp_max == before.hp_max
        }),
{
    lemma_tables(w);
    lemma_character(w, d.character_id);
    let k = index_of(w.characters, d.character_id);
    let hurt = damaged(w, d).characters[k];
    lemma_update(w.characters, k, hurt);
    let better = healed(w, h).characters[k];
    lemma_update(w.characters, k, better);
}

/// Healing that brings a mortally wounded character above 0 hit points makes it alive again,
/// with no death save on its count.
pub proof fn law_healing_brings_back(w: World, p: ApplyHealingParams)
    requires
        w.wf(),
        healing_refusal(w, p) is None,
        revives(w, p),
    ensures
        ({
            let ch = row(healed(w, p).characters, p.character_id);
            &&& ch.status == Status::Alive
            &&& ch.hp_current > 0
            &&& ch.death_save_successes == 0
            &&& ch.death_save_failures == 0
            &&& !healed(w, p).conditions[wound_of(w, p.character_id)->0].active
        }),
{
    lemma_tables(w);
    lemma_character(w, p.character_id);
    let k = index_of(w.characters, p.character_id);
    lemma_update(w.characters, k, healed(w, p).characters[k]);
    lemma_newest(w.conditions, p.character_id, "mortally_wounded"@, w.conditions.len());
}

/// What a death save leaves of the character.
proof fn lemma_saved(w: World, p: DeathSaveParams, d20: int)
    requires
        ordered(w.characters),
        listed(w.characters, p.character_id),
    ensures
        ({
            let v = saved(w, p, d20);
            let ch = row(w.characters, p.character_id);
            let after = row(v.characters, p.character_id);
            let (status, successes, failures) = save_result(ch, d20);
            &&& ordered(v.characters)
            &&& listed(v.characters, p.character_id)
            &&& after.status == status
            &&& after.death_save_successes == successes
            &&& after.death_save_failures == failures
            &&& status == Status::Alive ==> after.hp_current >= 1
            &&& status != Status::Alive ==> after.hp_current == ch.hp_current
        }),
{
    lemma_row(w.characters, p.character_id);
    let k = index_of(w.characters, p.character_id);
    lemma_update(w.characters, k, saved(w, p, d20).characters[k]);
}

/// Three failed death saves, and no fewer, kill a character that has made none yet.
pub proof fn law_three_failed_saves_kill(w: World, p: DeathSaveParams, a: int, b: int, c: int)
    requires
        w.wf(),
        save_refusal(w, p) is None,
        row(w.characters, p.character_id).death_save_successes == 0,
        row(w.characters, p.character_id).death_save_failures == 0,
        2 <= a < 10,
        2 <= b < 10,
        2 <= c < 10,
    ensures
        ({
            let first = saved(w, p, a);
            let second = saved(first, p, b);
            let third = saved(second, p, c);
            &&& save_refusal(first, p) is None
            &&& save_refusal(second, p) is None
            &&& row(third.characters, p.character_id).status == Status::Dead
        }),
{
    lemma_tables(w);
    lemma_saved(w, p, a);
    lemma_saved(saved(w, p, a), p, b);
    lemma_saved(saved(saved(w, p, a), p, b), p, c);
}

/// Three successful death saves, and no fewer, stabilise a character that has made none yet.
pub proof fn law_three_successful_saves_stabilise(w: World, p: DeathSaveParams, a: int, b: int, c: int)
    requires
        w.wf(),
        save_refusal(w, p) is None,
        row(w.characters, p.character_id).death_save_successes == 0,
        row(w.characters, p.character_id).death_save_failures == 0,
        10 <= a < 20,
        10 <= b < 20,
        10 <= c < 20,
    ensures
        ({
            let first = saved(w, p, a);
            let second = saved(first, p, b);
            let third = saved(second, p, c);
            &&& save_refusal(first, p) is None
            &&& save_refusal(second, p) is None
            &&& row(third.characters, p.character_id).status == Status::Alive
            &&& row(third.characters, p.character_id).hp_current >= 1
        }),
{
    lemma_tables(w);
    lemma_saved(w, p, a);
    lemma_saved(saved(w, p, a), p, b);
    lemma_saved(saved(saved(w, p, a), p, b), p, c);
}

/// Whether no two encounters are in combat.
pub open spec fn one_combat(w: World) -> bool {
    forall|i: int, j: int|
        #![trigger w.encounters[i], w.encounters[j]]
        0 <= i < j < w.encounters.len() ==> !(w.encounters[i].in_combat && w.encounters[j].in_combat)
}

/// Combat is had in one encounter at a time: where it starts in one, it ends in every other.
pub proof fn law_one_combat_at_a_time(w: World, id: i64, rolls: Seq<i32>)
    requires
        w.wf(),
        one_combat(w),
        start_refusal(w, id) is None,
    ensures
        one_combat(started(w, id, rolls)),
        row(started(w, id, rolls).encounters, id).in_combat,
{
    lemma_tables(w);
    lemma_encounter(w, id);
    let n = w.encounters.len();
    let free = cleared_for(w, id);
    let k = index_of(w.encounters, id);
    lemma_other_combat(w.encounters, id, n);
    if let Some(j) = superseded(w, id) {
        lemma_index(w.encounters, j);
        lemma_update(
            w.encounters,
            j,
            Encounter { in_combat: false, current_round: None, turn_index: None, ..w.encounters[j] },
        );
    }
    lemma_index(free.encounters, k);
    let now = Encounter {
        in_combat: true,
        current_round: Some(1),
        turn_index: Some(0),
        ..row(w.encounters, id)
    };
    lemma_update(free.encounters, k, now);
    let v = started(w, id, rolls);
    assert(v.encounters == free.encounters.update(k, now));
    assert forall|i: int| 0 <= i < n && i != k implies !(#[trigger] v.encounters[i]).in_combat by {
        lemma_index(w.encounters, i);
        if let Some(j) = superseded(w, id) {
            if i != j {
                assert(w.encounters[j].in_combat);
                assert(!w.encounters[i].in_combat);
            }
        }
    }
}

/// An effect after a round.
pub open spec fn ticked_effect(e: Effect<Seq<char>>, t: Tick) -> Effect<Seq<char>> {
    if !effect_ticks(e, t) {
        e
    } else if e.expires_after_rounds->0 <= 1 {
        Effect { active: false, ..e }
    } else {
        Effect { expires_after_rounds: Some((e.expires_after_rounds->0 - 1) as i32), ..e }
    }
}

/// A condition after a round.
pub open spec fn ticked_condition(r: Condition<Seq<char>>, t: Tick) -> Condition<Seq<char>> {
    if !condition_ticks(r, t) {
        r
    } else if r.expires_after_rounds->0 <= 1 {
        Condition { active: false, ..r }
    } else {
        Condition { expires_after_rounds: Some((r.expires_after_rounds->0 - 1) as i32), ..r }
    }
}

proof fn lemma_ticked_effects(w: World, t: Tick, n: nat)
    requires
        n <= w.effects.len(),
    ensures
        tick_effects(w, t, n).conditions == w.conditions,
        tick_effects(w, t, n).effects.len() == w.effects.len(),
        forall|i: int|
            0 <= i < w.effects.len() ==> #[trigger] tick_effects(w, t, n).effects[i] == (if i < n {
                ticked_effect(w.effects[i], t)
            } else {
                w.effects[i]
            }),
    decreases n,
{
    if n > 0 {
        lemma_ticked_effects(w, t, (n - 1) as nat);
        assert(tick_effects(w, t, (n - 1) as nat).effects[n - 1] == w.effects[n - 1]);
    }
}

proof fn lemma_ticked_conditions(w: World, t: Tick, n: nat)
    requires
        n <= w.conditions.len(),
    ensures
        tick_conditions(w, t, n).effects == w.effects,
        tick_conditions(w, t, n).conditions.len() == w.conditions.len(),
        forall|i: int|
            0 <= i < w.conditions.len() ==> #[trigger] tick_conditions(w, t, n).conditions[i] == (if i < n {
                ticked_condition(w.conditions[i], t)
            } else {
                w.conditions[i]
            }),
    decreases n,
{
    if n > 0 {
        lemma_ticked_conditions(w, t, (n - 1) as nat);
        assert(tick_conditions(w, t, (n - 1) as nat).conditions[n - 1] == w.conditions[n - 1]);
    }
}

/// Within a round nothing runs out. Where a new round begins, each effect that lasts for
/// rounds, on someone in the combat, has one round less, and is over with its last one; so
/// one that lasts for `n` rounds is over with the `n`th new round.
pub proof fn law_effects_last_their_rounds(w: World, id: i64, i: int)
    requires
        0 <= i < w.effects.len(),
    ensures
        turned(w, id).effects.len() == w.effects.len(),
        turned(w, id).effects[i] == (if wraps(w, id) {
            ticked_effect(w.effects[i], tick_of(w, id))
        } else {
            w.effects[i]
        }),
{
    let t = tick_of(w, id);
    let noted = World {
        encounter_participants: after_turn(
            w.encounter_participants,
            id,
            turn_order(w, id)[turn_now(w, id)].character_id,
            wraps(w, id),
        ),
        ..w
    };
    lemma_ticked_effects(noted, t, w.effects.len());
    lemma_ticked_conditions(tick_effects(noted, t, w.effects.len()), t, w.conditions.len());
}

/// Conditions that last for rounds run out in the same way.
pub proof fn law_conditions_last_their_rounds(w: World, id: i64, i: int)
    requires
        0 <= i < w.conditions.len(),
    ensures
        turned(w, id).conditions.len() == w.conditions.len(),
        turned(w, id).conditions[i] == (if wraps(w, id) {
            ticked_condition(w.conditions[i], tick_of(w, id))
        } else {
            w.conditions[i]
        }),
{
    let t = tick_of(w, id);
    let noted = World {
        encounter_participants: after_turn(
            w.encounter_participants,
            id,
            turn_order(w, id)[turn_now(w, id)].character_id,
            wraps(w, id),
        ),
        ..w
    };
    lemma_ticked_effects(noted, t, w.effects.len());
    lemma_ticked_conditions(tick_effects(noted, t, w.effects.len()), t, w.conditions.len());
}

/// An effect that lasts for `n` rounds is active through `n - 1` new rounds of the combat and
/// over with the next.
pub proof fn law_effect_ends_with_its_last_round(e: Effect<Seq<char>>, t: Tick, n: nat)
    requires
        effect_ticks(e, t),
        e.expires_after_rounds->0 >= 1,
    ensures
        n < e.expires_after_rounds->0 ==> rounds_on(e, t, n).active,
        n >= e.expires_after_rounds->0 ==> !rounds_on(e, t, n).active,
{
    lemma_rounds_on(e, t, n);
}

/// The effect after `n` new rounds.
pub open spec fn rounds_on(e: Effect<Seq<char>>, t: Tick, n: nat) -> Effect<Seq<char>>
    decreases n,
{
    if n == 0 {
        e
    } else {
        ticked_effect(rounds_on(e, t, (n - 1) as nat), t)
    }
}

proof fn lemma_rounds_on(e: Effect<Seq<char>>, t: Tick, n: nat)
    requires
        effect_ticks(e, t),
        e.expires_after_rounds->0 >= 1,
    ensures
        rounds_on(e, t, n).target_character_id == e.target_character_id,
        n < e.expires_after_rounds->0 ==> {
            &&& rounds_on(e, t, n).active
            &&& rounds_on(e, t, n).expires_after_rounds == Some((e.expires_after_rounds->0 - n) as i32)
        },
        n >= e.expires_after_rounds->0 ==> !rounds_on(e, t, n).active,
    decreases n,
{
    if n > 0 {
        lemma_rounds_on(e, t, (n - 1) as nat);
    }
}

/// Whether two participants take their turns in the same place.
pub open spec fn same_turn(a: EncounterParticipant, b: EncounterParticipant) -> bool {
    a.encounter_id == b.encounter_id && a.character_id == b.character_id && a.initiative == b.initiative
}

/// Whether two lists of participants take their turns alike.
pub open spec fn same_turns(a: Seq<EncounterParticipant>, b: Seq<EncounterParticipant>) -> bool {
    a.len() == b.len() && forall|i: int| 0 <= i < a.len() ==> same_turn(#[trigger] a[i], b[i])
}

proof fn lemma_of_encounter_same(a: Seq<EncounterParticipant>, b: Seq<EncounterParticipant>, id: i64)
    requires
        same_turns(a, b),
    ensures
        same_turns(of_encounter(a, id), of_encounter(b, id)),
    decreases a.len(),
{
    if a.len() > 0 {
        let (x, y) = (a.drop_last(), b.drop_last());
        assert forall|i: int| 0 <= i < x.len() implies same_turn(#[trigger] x[i], y[i]) by {
            assert(same_turn(a[i], b[i]));
        }
        lemma_of_encounter_same(x, y, id);
        assert(same_turn(a[a.len() - 1], b[b.len() - 1]));
    }
}

proof fn lemma_spot_same(
    s: Seq<EncounterParticipant>,
    t: Seq<EncounterParticipant>,
    x: EncounterParticipant,
    y: EncounterParticipant,
    by_id: bool,
    k: int,
)
    requires
        same_turns(s, t),
        same_turn(x, y),
        0 <= k <= s.len(),
    ensures
        spot(s, x, by_id, k) == spot(t, y, by_id, k),
    decreases s.len() - k,
{
    if k < s.len() {
        assert(same_turn(s[k], t[k]));
        lemma_spot_same(s, t, x, y, by_id, k + 1);
    }
}

proof fn lemma_in_order_same(a: Seq<EncounterParticipant>, b: Seq<EncounterParticipant>, by_id: bool)
    requires
        same_turns(a, b),
    ensures
        same_turns(in_order(a, by_id), in_order(b, by_id)),
    decreases a.len(),
{
    if a.len() > 0 {
        let (x, y) = (a.drop_last(), b.drop_last());
        assert forall|i: int| 0 <= i < x.len() implies same_turn(#[trigger] x[i], y[i]) by {
            assert(same_turn(a[i], b[i]));
        }
        lemma_in_order_same(x, y, by_id);
        assert(same_turn(a[a.len() - 1], b[b.len() - 1]));
        let (s, t) = (in_order(x, by_id), in_order(y, by_id));
        lemma_spot_same(s, t, a.last(), b.last(), by_id, 0);
        lemma_spot(s, a.last(), by_id, 0);
        let k = spot(s, a.last(), by_id, 0);
        let (p, q) = (s.insert(k, a.last()), t.insert(k, b.last()));
        assert forall|i: int| 0 <= i < p.len() implies same_turn(#[trigger] p[i], q[i]) by {
            if i < k {
                assert(same_turn(s[i], t[i]));
            } else if i > k {
                assert(same_turn(s[i - 1], t[i - 1]));
            }
        }
    }
}

/// Whether no two have the same initiative.
pub open spec fn no_ties(rows: Seq<EncounterParticipant>) -> bool {
    forall|i: int, j: int|
        #![trigger rows[i], rows[j]]
        0 <= i < j < rows.len() ==> score(rows[i]) != score(rows[j])
}

proof fn lemma_spot_by_id(s: Seq<EncounterParticipant>, x: EncounterParticipant, k: int)
    requires
        forall|i: int| 0 <= i < s.len() ==> score(#[trigger] s[i]) != score(x),
        0 <= k <= s.len(),
    ensures
        spot(s, x, true, k) == spot(s, x, false, k),
    decreases s.len() - k,
{
    if k < s.len() {
        assert(score(s[k]) != score(x));
        lemma_spot_by_id(s, x, k + 1);
    }
}

/// Where there are no ties it does not matter how they would be broken.
proof fn lemma_no_ties(rows: Seq<EncounterParticipant>)
    requires
        no_ties(rows),
    ensures
        in_order(rows, true) == in_order(rows, false),
    decreases rows.len(),
{
    if rows.len() > 0 {
        let rest = rows.drop_last();
        let n = rest.len() as int;
        assert forall|i: int, j: int|
            #![trigger rest[i], rest[j]]
            0 <= i < j < rest.len() implies score(rest[i]) != score(rest[j]) by {
            assert(rows[i] == rest[i] && rows[j] == rest[j]);
        }
        lemma_no_ties(rest);
        lemma_order_members(rest, true);
        let s = in_order(rest, true);
        assert forall|i: int| 0 <= i < s.len() implies score(#[trigger] s[i]) != score(rows.last()) by {
            assert(rest.contains(s[i]));
            let j = choose|j: int| 0 <= j < rest.len() && rest[j] == s[i];
            assert(rows[j] == s[i] && rows[n] == rows.last());
        }
        lemma_spot_by_id(s, rows.last(), 0);
    }
}

proof fn lemma_with_fresh(
    rows: Seq<EncounterParticipant>,
    id: i64,
    fresh: Seq<EncounterParticipant>,
    i: int,
)
    requires
        0 <= i <= rows.len(),
        fresh.len() == of_encounter(rows, id).len(),
        forall|k: int| 0 <= k < fresh.len() ==> (#[trigger] fresh[k]).encounter_id == id,
    ensures
        of_encounter(rows.take(i), id).len() <= fresh.len(),
        of_encounter(with_fresh(rows, id, fresh).take(i), id) == fresh.take(
            of_encounter(rows.take(i), id).len() as int,
        ),
    decreases i,
{
    let all = with_fresh(rows, id, fresh);
    if i == 0 {
        assert(fresh.take(0) =~= Seq::empty());
    } else {
        lemma_with_fresh(rows, id, fresh, i - 1);
        lemma_of_encounter_take(rows, id, i - 1);
        assert(rows.take(i).drop_last() =~= rows.take(i - 1));
        assert(all.take(i).drop_last() =~= all.take(i - 1));
        assert(all.take(i).last() == all[i - 1]);
        assert(rows.take(i).last() == rows[i - 1]);
        let m = of_encounter(rows.take(i - 1), id).len() as int;
        if rows[i - 1].encounter_id == id {
            assert(all[i - 1] == fresh[m]);
            assert(fresh.take(m).push(fresh[m]) =~= fresh.take(m + 1));
        }
    }
}

pub(crate) proof fn lemma_ticks_keep_turns(w: World, t: Tick, n: nat, m: nat)
    ensures
        tick_effects(w, t, n).encounters == w.encounters,
        tick_effects(w, t, n).encounter_participants == w.encounter_participants,
        tick_conditions(w, t, m).encounters == w.encounters,
        tick_conditions(w, t, m).encounter_participants == w.encounter_participants,
    decreases n + m,
{
    if n > 0 {
        lemma_ticks_keep_turns(w, t, (n - 1) as nat, m);
    }
    if m > 0 {
        lemma_ticks_keep_turns(w, t, n, (m - 1) as nat);
    }
}

/// Whether `k` turns have been taken in a combat with this order: the turn stands at the place
/// `k` of the order, counted round and round, and each time round is one round more.
pub open spec fn turn_stands(w: World, id: i64, order: Seq<EncounterParticipant>, k: nat) -> bool {
    let n = order.len();
    &&& ordered(w.encounters)
    &&& listed(w.encounters, id)
    &&& row(w.encounters, id).in_combat
    &&& row(w.encounters, id).turn_index == Some((k % n) as i32)
    &&& row(w.encounters, id).current_round == Some((1 + k / n) as i32)
    &&& same_turns(turn_order(w, id), order)
}

/// Combat starts with the first in the order of initiative, in the first round.
pub proof fn law_combat_starts_with_the_first(w: World, id: i64, rolls: Seq<i32>)
    requires
        w.wf(),
        start_refusal(w, id) is None,
        rolls_ok(w, id, rolls),
        rolls.len() > 0,
        no_ties(rolled(w, id, rolls)),
    ensures
        turn_stands(started(w, id, rolls), id, in_order(rolled(w, id, rolls), false), 0),
{
    lemma_tables(w);
    lemma_encounter(w, id);
    let fresh = rolled(w, id, rolls);
    let order = in_order(fresh, false);
    let free = cleared_for(w, id);
    let k = index_of(w.encounters, id);
    lemma_other_combat(w.encounters, id, w.encounters.len());
    if let Some(j) = superseded(w, id) {
        lemma_index(w.encounters, j);
        lemma_update(
            w.encounters,
            j,
            Encounter { in_combat: false, current_round: None, turn_index: None, ..w.encounters[j] },
        );
        lemma_out_of_combat_keeps(w.encounter_participants, w.encounters[j].id, id);
    }
    lemma_index(free.encounters, k);
    let now = Encounter {
        in_combat: true,
        current_round: Some(1),
        turn_index: Some(0),
        ..row(w.encounters, id)
    };
    lemma_update(free.encounters, k, now);
    let v = started(w, id, rolls);
    assert(v.encounters == free.encounters.update(k, now));
    let rows = free.encounter_participants;
    assert(of_encounter(rows, id) == of_encounter(w.encounter_participants, id));
    lemma_of_encounter(w.encounter_participants, id);
    lemma_with_fresh(rows, id, fresh, rows.len() as int);
    let all = with_fresh(rows, id, fresh);
    assert(rows.take(rows.len() as int) =~= rows);
    assert(all.take(rows.len() as int) =~= all);
    assert(fresh.take(fresh.len() as int) =~= fresh);
    assert(of_encounter(v.encounter_participants, id) == fresh);
    lemma_no_ties(fresh);
    lemma_order_members(fresh, false);
    assert(turn_order(v, id) == order);
    let n = order.len() as int;
    assert(0int % n == 0 && 0int / n == 0) by {
        vstd::arithmetic::div_mod::lemma_small_mod(0, n as nat);
        vstd::arithmetic::div_mod::lemma_basic_div(0, n);
    }
}

/// A turn passes on to the next in the order, with a new round where the order begins again:
/// it is not refused, and what it returns says where the turn stands now.
pub proof fn law_turn_passes_on(w: World, id: i64, order: Seq<EncounterParticipant>, k: nat)
    requires
        turn_stands(w, id, order, k),
        order.len() > 0,
        order.len() <= i32::MAX,
        1 + (k + 1) / order.len() <= i32::MAX,
    ensures
        turn_refusal(w, id) is None,
        turn_order(w, id)[turn_next(w, id)].character_id == order[((k + 1) % order.len()) as int].character_id,
        round_next(w, id) == 1 + (k + 1) / order.len(),
        wraps(w, id) <==> (k + 1) % order.len() == 0,
        turn_stands(turned(w, id), id, order, k + 1),
{
    let n = order.len() as int;
    let (r, q) = (k as int % n, k as int / n);
    lemma_row(w.encounters, id);
    law_order_of_initiative(of_encounter(w.encounter_participants, id), true);
    vstd::arithmetic::div_mod::lemma_fundamental_div_mod(k as int, n);
    vstd::arithmetic::div_mod::lemma_mod_bound(k as int, n);
    vstd::arithmetic::div_mod::lemma_div_is_ordered(k as int, (k + 1) as int, n);
    if r + 1 < n {
        assert(k + 1 == q * n + (r + 1)) by (nonlinear_arith)
            requires
                k == n * q + r,
        ;
        vstd::arithmetic::div_mod::lemma_fundamental_div_mod_converse((k + 1) as int, n, q, r + 1);
    } else {
        assert(k + 1 == (q + 1) * n + 0) by (nonlinear_arith)
            requires
                k == n * q + r,
                r + 1 == n,
        ;
        vstd::arithmetic::div_mod::lemma_fundamental_div_mod_converse((k + 1) as int, n, q + 1, 0);
    }
    vstd::arithmetic::div_mod::lemma_div_pos_is_pos(k as int, n);
    assert(turn_now(w, id) == r);
    assert(same_turn(turn_order(w, id)[turn_next(w, id)], order[turn_next(w, id)]));
    let actor = turn_order(w, id)[turn_now(w, id)].character_id;
    let rows = after_turn(w.encounter_participants, id, actor, wraps(w, id));
    let noted = World { encounter_participants: rows, ..w };
    let t = tick_of(w, id);
    lemma_ticks_keep_turns(noted, t, w.effects.len(), 0);
    lemma_ticks_keep_turns(tick_effects(noted, t, w.effects.len()), t, 0, w.conditions.len());
    let before = acted(w, id);
    assert(before.encounters == w.encounters);
    assert(before.encounter_participants == rows);
    let now = Encounter {
        turn_index: Some(turn_next(w, id) as i32),
        current_round: Some(round_next(w, id) as i32),
        ..row(w.encounters, id)
    };
    lemma_update(w.encounters, index_of(w.encounters, id), now);
    let v = turned(w, id);
    assert(v.encounter_participants == rows);
    assert(same_turns(rows, w.encounter_participants));
    lemma_of_encounter_same(rows, w.encounter_participants, id);
    lemma_in_order_same(of_encounter(rows, id), of_encounter(w.encounter_participants, id), true);
    assert forall|i: int| 0 <= i < turn_order(v, id).len() implies same_turn(
        #[trigger] turn_order(v, id)[i],
        order[i],
    ) by {
        assert(same_turn(turn_order(v, id)[i], turn_order(w, id)[i]));
        assert(same_turn(turn_order(w, id)[i], order[i]));
    }
}

/// The campaign after `k` turns.
pub open spec fn turns(w: World, id: i64, k: nat) -> World
    decreases k,
{
    if k == 0 {
        w
    } else {
        turned(turns(w, id, (k - 1) as nat), id)
    }
}

/// Turns go round in the order of initiative: after a start and `k` turns the turn is with the
/// one at place `k` of the order, counted round and round, a new round beginning each time
/// round.
pub proof fn law_turns_go_round(w: World, id: i64, rolls: Seq<i32>, k: nat)
    requires
        w.wf(),
        w.room(),
        start_refusal(w, id) is None,
        rolls_ok(w, id, rolls),
        rolls.len() > 0,
        no_ties(rolled(w, id, rolls)),
        1 + k / rolls.len() <= i32::MAX,
    ensures
        turn_stands(turns(started(w, id, rolls), id, k), id, in_order(rolled(w, id, rolls), false), k),
        k > 0 ==> {
            let before = turns(started(w, id, rolls), id, (k - 1) as nat);
            let order = in_order(rolled(w, id, rolls), false);
            &&& turn_refusal(before, id) is None
            &&& turn_order(before, id)[turn_next(before, id)].character_id
                == order[(k % order.len()) as int].character_id
            &&& round_next(before, id) == 1 + k / order.len()
            &&& wraps(before, id) <==> k % order.len() == 0
        },
    decreases k,
{
    let order = in_order(rolled(w, id, rolls), false);
    lemma_order_members(rolled(w, id, rolls), false);
    lemma_of_encounter(w.encounter_participants, id);
    if k == 0 {
        law_combat_starts_with_the_first(w, id, rolls);
    } else {
        vstd::arithmetic::div_mod::lemma_div_is_ordered(k - 1, k as int, rolls.len() as int);
        law_turns_go_round(w, id, rolls, (k - 1) as nat);
        law_turn_passes_on(turns(started(w, id, rolls), id, (k - 1) as nat), id, order, (k - 1) as nat);
    }
}

} // verus!
