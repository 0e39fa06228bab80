//! Conditions: what a character is under, from blinded to mortally wounded.

use vstd::prelude::*;
use crate::campaign::{
    find, index_of, lemma_index, lemma_push, lemma_row, lemma_tables, lemma_update, listed, next_id, put,
    row, Campaign, World,
};
use crate::error::{Error, Fault};
use crate::events::{
    entry, entry_view, field_view, fields4, fields5, int_field, one, only, opt_int, opt_int32,
    opt_int32_field, opt_int_field, opt_str, opt_text_field, text_field,
};
use crate::rows::{Condition, Event, EventRole, EventView, ValueView};
use crate::text::{copy_opt, debug_text, decimal, int_text, opt_text, quoted, same};

verus! {

#[derive(Debug, Clone, PartialEq, Eq)]
pub struct ApplyConditionParams {
    pub character_id: i64,
    pub condition: String,
    pub severity: i32,
    pub source_event_id: Option<i64>,
    pub expires_at_hour: Option<i64>,
    pub expires_after_rounds: Option<i32>,
    pub remove_on_save: Option<String>,
}

#[derive(Debug, Clone, Copy, PartialEq, Eq)]
pub struct ApplyConditionResult {
    pub condition_id: i64,
    pub event_id: i64,
}

#[derive(Debug, Clone, PartialEq, Eq)]
pub struct RemoveConditionParams {
    pub condition_id: i64,
    pub reason: Option<String>,
}

#[derive(Debug, Clone, Copy, PartialEq, Eq)]
pub struct RemoveConditionResult {
    pub condition_id: i64,
    pub event_id: i64,
}

/// The severity of a condition where none is given.
pub fn default_severity() -> (r: i32)
    ensures
        r == 1,
{
    1
}

/// Why the condition cannot be applied, where it cannot.
pub open spec fn apply_refusal(w: World, p: ApplyConditionParams) -> Option<Error<Seq<char>>> {
    if p.condition@.len() == 0 {
        Some(Error::ConditionEmpty)
    } else if p.severity < 1 {
        Some(Error::ConditionSeverity { severity: p.severity })
    } else if p.source_event_id matches Some(e) && !listed(w.events, e) {
        Some(Error::EventRow)
    } else if !listed(w.characters, p.character_id) {
        Some(
            Error::EventParticipantRow {
                event_id: next_id(w.events),
                character_id: p.character_id,
                role: "target"@,
                fault: Fault::ForeignKey,
            },
        )
    } else {
        None
    }
}

pub open spec fn applied_entry(p: ApplyConditionParams) -> EventView {
    EventView {
        parent_id: p.source_event_id,
        ..entry_view(
            "condition.applied"@,
            0,
            "Applied condition "@ + debug_text(p.condition@) + " to character id="@ + int_text(
                p.character_id as int,
            ) + " (severity="@ + int_text(p.severity as int) + ")"@,
            seq![
                field_view("condition"@, ValueView::Text(p.condition@)),
                field_view("severity"@, ValueView::Int(p.severity as int)),
                field_view("expires_at_hour"@, opt_int(p.expires_at_hour)),
                field_view("expires_after_rounds"@, opt_int32(p.expires_after_rounds)),
                field_view("remove_on_save"@, opt_str(opt_text(p.remove_on_save))),
            ],
            one(p.character_id, EventRole::Target),
        )
    }
}

/// The event that a condition comes from: what caused it, where that is given, else the entry
/// that says that it was applied.
pub open spec fn source_of(w: World, p: ApplyConditionParams) -> i64 {
    match p.source_event_id {
        Some(e) => e,
        None => next_id(w.events),
    }
}

/// The campaign with the condition recorded and the log saying so.
pub open spec fn applied(w: World, p: ApplyConditionParams) -> World {
    let logged = w.with_event(applied_entry(p));
    World {
        conditions: logged.conditions.push(
            Condition {
                id: next_id(w.conditions),
                character_id: p.character_id,
                condition: p.condition@,
                severity: p.severity,
                source_event_id: Some(source_of(w, p)),
                expires_at_hour: p.expires_at_hour,
                expires_after_rounds: p.expires_after_rounds,
                remove_on_save: opt_text(p.remove_on_save),
                active: true,
            },
        ),
        ..logged
    }
}

/// Records a condition on a character and writes `condition.applied`.
pub fn apply(c: &mut Campaign, p: ApplyConditionParams) -> (r: Result<ApplyConditionResult, Error>)
    requires
        old(c)@.wf(),
        old(c)@.room(),
    ensures
        final(c)@.wf(),
        apply_refusal(old(c)@, p) matches Some(e) ==> r is Err && r->Err_0@ == e && final(c)@ == old(c)@,
        apply_refusal(old(c)@, p) is None ==> {
            &&& r is Ok
            &&& r->Ok_0.condition_id == next_id(old(c)@.conditions)
            &&& r->Ok_0.event_id == next_id(old(c)@.events)
            &&& final(c)@ == applied(old(c)@, p)
        },
{
    if p.condition.as_str().is_empty() {
        return Err(Error::ConditionEmpty);
    }
    if p.severity < 1 {
        return Err(Error::ConditionSeverity { severity: p.severity });
    }
    proof {
        lemma_tables(c@);
    }
    if let Some(e) = p.source_event_id {
        if find(&c.events, e).is_none() {
            return Err(Error::EventRow);
        }
    }
    if find(&c.characters, p.character_id).is_none() {
        return Err(
            Error::EventParticipantRow {
                event_id: crate::campaign::fresh_id(&c.events),
                character_id: p.character_id,
                role: "target".to_owned(),
                fault: Fault::ForeignKey,
            },
        );
    }
    let mut s = "Applied condition ".to_owned();
    s.append(quoted(p.condition.as_str()).as_str());
    s.append(" to character id=");
    s.append(decimal(p.character_id).as_str());
    s.append(" (severity=");
    s.append(decimal(p.severity as i64).as_str());
    s.append(")");
    let base = entry(
        "condition.applied",
        0,
        s,
        fields5(
            text_field("condition", p.condition.as_str()),
            int_field("severity", p.severity as i64),
            opt_int_field("expires_at_hour", p.expires_at_hour),
            opt_int32_field("expires_after_rounds", p.expires_after_rounds),
            opt_text_field("remove_on_save", &p.remove_on_save),
        ),
        only(p.character_id, EventRole::Target),
    );
    let e = Event { parent_id: p.source_event_id, ..base };
    assert(e@ =~= applied_entry(p));
    let event_id: i64 = c.add_event(e);
    let source: i64 = match p.source_event_id {
        Some(e) => e,
        None => event_id,
    };
    let condition_id: i64 = c.add_condition(
        Condition {
            id: 0,
            character_id: p.character_id,
            condition: p.condition.clone(),
            severity: p.severity,
            source_event_id: Some(source),
            expires_at_hour: p.expires_at_hour,
            expires_after_rounds: p.expires_after_rounds,
            remove_on_save: copy_opt(&p.remove_on_save),
            active: true,
        },
    );
    Ok(ApplyConditionResult { condition_id, event_id })
}

/// Why the condition cannot be removed, where it cannot.
pub open spec fn remove_refusal(w: World, p: RemoveConditionParams) -> Option<Error<Seq<char>>> {
    if !listed(w.conditions, p.condition_id) {
        Some(Error::ConditionNotFound { id: p.condition_id })
    } else if !row(w.conditions, p.condition_id).active {
        Some(Error::ConditionInactive { id: p.condition_id })
    } else {
        None
    }
}

pub open spec fn removed_entry(r: Condition<Seq<char>>, p: RemoveConditionParams) -> EventView {
    entry_view(
        "condition.expired"@,
        0,
        "Removed condition "@ + debug_text(r.condition) + " from character id="@ + int_text(
            r.character_id as int,
        ) + " (severity="@ + int_text(r.severity as int) + ")"@,
        seq![
            field_view("condition_id"@, ValueView::Int(p.condition_id as int)),
            field_view("condition"@, ValueView::Text(r.condition)),
            field_view("severity"@, ValueView::Int(r.severity as int)),
            field_view(
                "reason"@,
                ValueView::Text(
                    match p.reason {
                        Some(t) => t@,
                        None => "removed"@,
                    },
                ),
            ),
        ],
        one(r.character_id, EventRole::Target),
    )
}

/// The campaign with the condition over and the log saying so.
pub open spec fn removed(w: World, p: RemoveConditionParams) -> World {
    let r = row(w.conditions, p.condition_id);
    let logged = w.with_event(removed_entry(r, p));
    World { conditions: put(logged.conditions, Condition { active: false, ..r }), ..logged }
}

/// Ends a condition and writes `condition.expired`. One that is over already is refused.
pub fn remove(c: &mut Campaign, p: RemoveConditionParams) -> (r: Result<RemoveConditionResult, Error>)
    requires
        old(c)@.wf(),
        old(c)@.room(),
    ensures
        final(c)@.wf(),
        remove_refusal(old(c)@, p) matches Some(e) ==> r is Err && r->Err_0@ == e && final(c)@ == old(
            c,
        )@,
        remove_refusal(old(c)@, p) is None ==> {
            &&& r is Ok
            &&& r->Ok_0.condition_id == p.condition_id
            &&& r->Ok_0.event_id == next_id(old(c)@.events)
            &&& final(c)@ == removed(old(c)@, p)
        },
{
    proof {
        lemma_tables(c@);
    }
    let i: usize = match find(&c.conditions, p.condition_id) {
        Some(i) => i,
        None => {
            return Err(Error::ConditionNotFound { id: p.condition_id });
        },
    };
    let mut r = c.conditions[i].copy();
    if !r.active {
        return Err(Error::ConditionInactive { id: p.condition_id });
    }
    proof {
        lemma_row(c@.conditions, p.condition_id);
        reveal(World::wf);
    }
    let reason = match &p.reason {
        Some(t) => t.clone(),
        None => "removed".to_owned(),
    };
    let mut s = "Removed condition ".to_owned();
    s.append(quoted(r.condition.as_str()).as_str());
    s.append(" from character id=");
    s.append(decimal(r.character_id).as_str());
    s.append(" (severity=");
    s.append(decimal(r.severity as i64).as_str());
    s.append(")");
    let e = entry(
        "condition.expired",
        0,
        s,
        fields4(
            int_field("condition_id", p.condition_id),
            text_field("condition", r.condition.as_str()),
            int_field("severity", r.severity as i64),
            text_field("reason", reason.as_str()),
        ),
        only(r.character_id, EventRole::Target),
    );
    let ghost before = r@;
    assert(e@ == removed_entry(before, p));
    let event_id: i64 = c.add_event(e);
    r.active = false;
    assert(r@ == Condition { active: false, ..before });
    c.set_condition(i, r);
    Ok(RemoveConditionResult { condition_id: p.condition_id, event_id })
}

/// Whether the condition is one of this name that the character is under now.
pub open spec fn is_under(r: Condition<Seq<char>>, character_id: i64, name: Seq<char>) -> bool {
    r.character_id == character_id && r.condition == name && r.active
}

/// Where the newest condition of this name that the character is under stands among the
/// first `n`.
pub open spec fn newest_among(
    rows: Seq<Condition<Seq<char>>>,
    character_id: i64,
    name: Seq<char>,
    n: nat,
) -> Option<int>
    decreases n,
{
    if n == 0 {
        None
    } else if is_under(rows[n - 1], character_id, name) {
        Some(n - 1)
    } else {
        newest_among(rows, character_id, name, (n - 1) as nat)
    }
}

/// Where the newest condition of this name that the character is under stands.
pub open spec fn newest(w: World, character_id: i64, name: Seq<char>) -> Option<int> {
    newest_among(w.conditions, character_id, name, w.conditions.len())
}

/// What is found is a condition of this name that the character is under.
pub proof fn lemma_newest(rows: Seq<Condition<Seq<char>>>, character_id: i64, name: Seq<char>, n: nat)
    requires
        n <= rows.len(),
    ensures
        match newest_among(rows, character_id, name, n) {
            Some(k) => 0 <= k < n && is_under(rows[k], character_id, name) && forall|j: int|
                k < j < n ==> !is_under(#[trigger] rows[j], character_id, name),
            None => forall|j: int| 0 <= j < n ==> !is_under(#[trigger] rows[j], character_id, name),
        },
    decreases n,
{
    if n > 0 {
        lemma_newest(rows, character_id, name, (n - 1) as nat);
    }
}

/// Where the newest condition of this name that the character is under stands.
pub(crate) fn find_newest(c: &Campaign, character_id: i64, name: &str) -> (r: Option<usize>)
    ensures
        match r {
            Some(k) => newest(c@, character_id, name@) == Some(k as int) && k < c.conditions.len()
                && is_under(c@.conditions[k as int], character_id, name@),
            None => newest(c@, character_id, name@) is None,
        },
{
    let mut n: usize = c.conditions.len();
    while n > 0
        invariant
            n <= c.conditions.len(),
            newest(c@, character_id, name@) == newest_among(c@.conditions, character_id, name@, n as nat),
        decreases n,
    {
        let r = &c.conditions[n - 1];
        assert(c@.conditions[n - 1] == r@);
        if r.character_id == character_id && r.active && same(r.condition.as_str(), name) {
            return Some(n - 1);
        }
        n = n - 1;
    }
    None
}

/// The condition at `k` is over.
pub open spec fn condition_over(w: World, k: int) -> World {
    World { conditions: put(w.conditions, Condition { active: false, ..w.conditions[k] }), ..w }
}

/// Marks the condition at `k` as over.
pub(crate) fn end_condition(c: &mut Campaign, k: usize)
    requires
        old(c)@.wf(),
        k < old(c).conditions.len(),
    ensures
        final(c)@.wf(),
        final(c)@ == condition_over(old(c)@, k as int),
        final(c)@.room() == old(c)@.room(),
        final(c)@.conditions == old(c)@.conditions.update(
            k as int,
            Condition { active: false, ..old(c)@.conditions[k as int] },
        ),
{
    let mut r = c.conditions[k].copy();
    r.active = false;
    proof {
        reveal(World::wf);
        lemma_index(c@.conditions, k as int);
        assert(r@ == Condition { active: false, ..c@.conditions[k as int] });
    }
    c.set_condition(k, r);
}

/// A condition that was applied can be removed, and then it is over.
pub proof fn law_condition_can_be_removed(w: World, a: ApplyConditionParams, p: RemoveConditionParams)
    requires
        w.wf(),
        w.room(),
        apply_refusal(w, a) is None,
        p.condition_id == next_id(w.conditions),
    ensures
        remove_refusal(applied(w, a), p) is None,
        row(applied(w, a).conditions, p.condition_id).condition == a.condition@,
        row(applied(w, a).conditions, p.condition_id).character_id == a.character_id,
        !row(removed(applied(w, a), p).conditions, p.condition_id).active,
{
    lemma_tables(w);
    let v = applied(w, a);
    let x = v.conditions.last();
    lemma_push(w.conditions, x);
    assert(v.conditions == w.conditions.push(x));
    lemma_update(v.conditions, w.conditions.len() as int, Condition { active: false, ..x });
}

/// A condition is removed once: whoever tries again is told that it is over.
pub proof fn law_condition_is_removed_once(w: World, p: RemoveConditionParams, q: RemoveConditionParams)
    requires
        w.wf(),
        remove_refusal(w, p) is None,
        q.condition_id == p.condition_id,
    ensures
        remove_refusal(removed(w, p), q) == Some(Error::<Seq<char>>::ConditionInactive { id: p.condition_id }),
{
    lemma_tables(w);
    lemma_row(w.conditions, p.condition_id);
    let r = row(w.conditions, p.condition_id);
    lemma_update(w.conditions, index_of(w.conditions, p.condition_id), Condition { active: false, ..r });
}

/// Removing a condition leaves every other as it is.
pub proof fn law_removal_leaves_the_others(w: World, p: RemoveConditionParams, id: i64)
    requires
        w.wf(),
        remove_refusal(w, p) is None,
        listed(w.conditions, id),
        id != p.condition_id,
    ensures
        listed(removed(w, p).conditions, id),
        row(removed(w, p).conditions, id) == row(w.conditions, id),
{
    lemma_tables(w);
    lemma_row(w.conditions, p.condition_id);
    lemma_row(w.conditions, id);
    let r = row(w.conditions, p.condition_id);
    let k = index_of(w.conditions, p.condition_id);
    let off = Condition { active: false, ..r };
    lemma_update(w.conditions, k, off);
    lemma_index(w.conditions.update(k, off), index_of(w.conditions, id));
}

} // verus!
