//! Effects: modifiers that act on a character until they expire or are dispelled.

use vstd::prelude::*;
use crate::campaign::{
    find, index_of, lemma_push, lemma_row, lemma_tables, lemma_update, listed, next_id, put, row, Campaign,
    World,
};
use crate::characters::effects_of;
use crate::checks::{effects_on, modifiers};
use crate::error::{Error, Fault};
use crate::events::{
    bool_field, entry, entry_view, field_view, fields7, fields8, int_field, one, only, opt_int, opt_int32,
    opt_int32_field, opt_int_field, opt_str, opt_text_field, text_field,
};
use crate::rows::{Effect, EventRole, EventView, TargetKind, ValueView};
use crate::text::{copy_opt, decimal, int_text, opt_text};

verus! {

#[derive(Debug, Clone, PartialEq, Eq)]
pub struct ApplyParams {
    pub target_character_id: i64,
    pub source: String,
    pub target_kind: String,
    pub target_key: String,
    pub modifier: i32,
    pub dice_expr: Option<String>,
    pub expires_at_hour: Option<i64>,
    pub expires_after_rounds: Option<i32>,
    pub expires_on_dispel: Option<bool>,
}

#[derive(Debug, Clone, Copy, PartialEq, Eq)]
pub struct ApplyResult {
    pub effect_id: i64,
    pub event_id: i64,
}

#[derive(Debug, Clone, PartialEq, Eq)]
pub struct DispelParams {
    pub effect_id: i64,
    pub reason: Option<String>,
}

#[derive(Debug, Clone, Copy, PartialEq, Eq)]
pub struct DispelResult {
    pub effect_id: i64,
    pub event_id: i64,
}

pub open spec fn apply_refusal(w: World, p: ApplyParams) -> Option<Error<Seq<char>>> {
    if TargetKind::of_text(p.target_kind@) is None {
        Some(Error::UnknownTargetKind { kind: p.target_kind@ })
    } else if !listed(w.characters, p.target_character_id) {
        Some(
            Error::EventParticipantRow {
                event_id: next_id(w.events),
                character_id: p.target_character_id,
                role: "target"@,
                fault: Fault::ForeignKey,
            },
        )
    } else {
        None
    }
}

pub open spec fn applied_entry(p: ApplyParams) -> EventView {
    entry_view(
        "effect.applied"@,
        0,
        "Applied "@ + p.source@ + " to character id="@ + int_text(p.target_character_id as int) + " ("@
            + p.target_kind@ + ":"@ + p.target_key@ + " "@ + (if p.modifier >= 0 {
            "+"@
        } else {
            ""@
        }) + int_text(p.modifier as int) + ")"@,
        seq![
            field_view("source"@, ValueView::Text(p.source@)),
            field_view("target_kind"@, ValueView::Text(p.target_kind@)),
            field_view("target_key"@, ValueView::Text(p.target_key@)),
            field_view("modifier"@, ValueView::Int(p.modifier as int)),
            field_view("dice_expr"@, opt_str(opt_text(p.dice_expr))),
            field_view("expires_at_hour"@, opt_int(p.expires_at_hour)),
            field_view("expires_after_rounds"@, opt_int32(p.expires_after_rounds)),
            field_view("expires_on_dispel"@, ValueView::Bool(p.expires_on_dispel == Some(true))),
        ],
        one(p.target_character_id, EventRole::Target),
    )
}

/// The effect that is recorded.
pub open spec fn applied_effect(w: World, p: ApplyParams) -> Effect<Seq<char>> {
    Effect {
        id: next_id(w.effects),
        target_character_id: p.target_character_id,
        source: p.source@,
        target_kind: TargetKind::of_text(p.target_kind@)->0,
        target_key: p.target_key@,
        modifier: p.modifier,
        dice_expr: opt_text(p.dice_expr),
        start_event_id: next_id(w.events),
        expires_at_hour: p.expires_at_hour,
        expires_after_rounds: p.expires_after_rounds,
        expires_on_dispel: p.expires_on_dispel == Some(true),
        active: true,
    }
}

/// The campaign with the effect recorded and the log saying so.
pub open spec fn applied(w: World, p: ApplyParams) -> World {
    let logged = w.with_event(applied_entry(p));
    World { effects: logged.effects.push(applied_effect(w, p)), ..logged }
}

/// Lets an effect act on a character and writes `effect.applied`.
pub fn apply(c: &mut Campaign, p: ApplyParams) -> (r: Result<ApplyResult, Error>)
    requires
        old(c)@.wf(),
        old(c)@.room(),
    ensures
        final(c)@.wf(),
        apply_refusal(old(c)@, p) matches Some(e) ==> r is Err && r->Err_0@ == e && final(c)@ == old(c)@,
        apply_refusal(old(c)@, p) is None ==> {
            &&& r is Ok
            &&& r->Ok_0.effect_id == next_id(old(c)@.effects)
            &&& r->Ok_0.event_id == next_id(old(c)@.events)
            &&& final(c)@ == applied(old(c)@, p)
        },
{
    let kind = match TargetKind::parse(p.target_kind.as_str()) {
        Some(k) => k,
        None => {
            return Err(Error::UnknownTargetKind { kind: p.target_kind });
        },
    };
    proof {
        lemma_tables(c@);
    }
    if find(&c.characters, p.target_character_id).is_none() {
        return Err(
            Error::EventParticipantRow {
                event_id: crate::campaign::fresh_id(&c.events),
                character_id: p.target_character_id,
                role: "target".to_owned(),
                fault: Fault::ForeignKey,
            },
        );
    }
    let ghost w = c@;
    let on_dispel = match p.expires_on_dispel {
        Some(b) => b,
        None => false,
    };
    let mut s = "Applied ".to_owned();
    s.append(p.source.as_str());
    s.append(" to character id=");
    s.append(decimal(p.target_character_id).as_str());
    s.append(" (");
    s.append(p.target_kind.as_str());
    s.append(":");
    s.append(p.target_key.as_str());
    s.append(" ");
    s.append(
        if p.modifier >= 0 {
            "+"
        } else {
            ""
        },
    );
    s.append(decimal(p.modifier as i64).as_str());
    s.append(")");
    let e = entry(
        "effect.applied",
        0,
        s,
        fields8(
            text_field("source", p.source.as_str()),
            text_field("target_kind", p.target_kind.as_str()),
            text_field("target_key", p.target_key.as_str()),
            int_field("modifier", p.modifier as i64),
            opt_text_field("dice_expr", &p.dice_expr),
            opt_int_field("expires_at_hour", p.expires_at_hour),
            opt_int32_field("expires_after_rounds", p.expires_after_rounds),
            bool_field("expires_on_dispel", on_dispel),
        ),
        only(p.target_character_id, EventRole::Target),
    );
    assert(e@ == applied_entry(p));
    let event_id: i64 = c.add_event(e);
    let r = Effect {
        id: 0,
        target_character_id: p.target_character_id,
        source: p.source.clone(),
        target_kind: kind,
        target_key: p.target_key.clone(),
        modifier: p.modifier,
        dice_expr: copy_opt(&p.dice_expr),
        start_event_id: event_id,
        expires_at_hour: p.expires_at_hour,
        expires_after_rounds: p.expires_after_rounds,
        expires_on_dispel: on_dispel,
        active: true,
    };
    let effect_id: i64 = c.add_effect(r);
    assert(c@ == applied(w, p));
    Ok(ApplyResult { effect_id, event_id })
}

pub open spec fn dispel_refusal(w: World, p: DispelParams) -> Option<Error<Seq<char>>> {
    if !listed(w.effects, p.effect_id) {
        Some(Error::EffectNotFound { id: p.effect_id })
    } else if !row(w.effects, p.effect_id).active {
        Some(Error::EffectInactive { id: p.effect_id })
    } else {
        None
    }
}

pub open spec fn dispelled_entry(r: Effect<Seq<char>>, p: DispelParams) -> EventView {
    entry_view(
        "effect.expired"@,
        0,
        "Dispelled "@ + r.source + " on character id="@ + int_text(r.target_character_id as int) + " ("@
            + r.target_kind.text() + ":"@ + r.target_key + ")"@,
        seq![
            field_view("effect_id"@, ValueView::Int(p.effect_id as int)),
            field_view("source"@, ValueView::Text(r.source)),
            field_view("target_kind"@, ValueView::Text(r.target_kind.text())),
            field_view("target_key"@, ValueView::Text(r.target_key)),
            field_view("modifier"@, ValueView::Int(r.modifier as int)),
            field_view(
                "reason"@,
                ValueView::Text(
                    match p.reason {
                        Some(t) => t@,
                        None => "dispelled"@,
                    },
                ),
            ),
            field_view("expiry_reason"@, ValueView::Text("dispelled"@)),
        ],
        one(r.target_character_id, EventRole::Target),
    )
}

/// The campaign with the effect over and the log saying so.
pub open spec fn dispelled(w: World, p: DispelParams) -> World {
    let r = row(w.effects, p.effect_id);
    let logged = w.with_event(dispelled_entry(r, p));
    World { effects: put(logged.effects, Effect { active: false, ..r }), ..logged }
}

/// Ends an effect and writes `effect.expired`. One that is over already is refused.
pub fn dispel(c: &mut Campaign, p: DispelParams) -> (r: Result<DispelResult, Error>)
    requires
        old(c)@.wf(),
        old(c)@.room(),
    ensures
        final(c)@.wf(),
        dispel_refusal(old(c)@, p) matches Some(e) ==> r is Err && r->Err_0@ == e && final(c)@ == old(
            c,
        )@,
        dispel_refusal(old(c)@, p) is None ==> {
            &&& r is Ok
            &&& r->Ok_0.effect_id == p.effect_id
            &&& r->Ok_0.event_id == next_id(old(c)@.events)
            &&& final(c)@ == dispelled(old(c)@, p)
        },
{
    proof {
        lemma_tables(c@);
    }
    let i: usize = match find(&c.effects, p.effect_id) {
        Some(i) => i,
        None => {
            return Err(Error::EffectNotFound { id: p.effect_id });
        },
    };
    let mut r = c.effects[i].copy();
    if !r.active {
        return Err(Error::EffectInactive { id: p.effect_id });
    }
    let ghost w = c@;
    let ghost before = r@;
    proof {
        lemma_row(c@.effects, p.effect_id);
        assert(listed(c@.characters, r.target_character_id)) by {
            reveal(World::wf);
        }
    }
    let reason = match &p.reason {
        Some(t) => t.clone(),
        None => "dispelled".to_owned(),
    };
    let mut s = "Dispelled ".to_owned();
    s.append(r.source.as_str());
    s.append(" on character id=");
    s.append(decimal(r.target_character_id).as_str());
    s.append(" (");
    s.append(r.target_kind.as_str());
    s.append(":");
    s.append(r.target_key.as_str());
    s.append(")");
    let e = entry(
        "effect.expired",
        0,
        s,
        fields7(
            int_field("effect_id", p.effect_id),
            text_field("source", r.source.as_str()),
            text_field("target_kind", r.target_kind.as_str()),
            text_field("target_key", r.target_key.as_str()),
            int_field("modifier", r.modifier as i64),
            text_field("reason", reason.as_str()),
            text_field("expiry_reason", "dispelled"),
        ),
        only(r.target_character_id, EventRole::Target),
    );
    assert(e@ == dispelled_entry(before, p));
    let event_id: i64 = c.add_event(e);
    r.active = false;
    assert(r@ == Effect { active: false, ..before });
    c.set_effect(i, r);
    assert(c@ == dispelled(w, p));
    Ok(DispelResult { effect_id: p.effect_id, event_id })
}

proof fn lemma_off(rows: Seq<Effect<Seq<char>>>, i: int, character_id: i64, key: Seq<char>)
    requires
        0 <= i < rows.len(),
    ensures
        modifiers(effects_on(rows.update(i, Effect { active: false, ..rows[i] }), character_id, key))
            == modifiers(effects_on(rows, character_id, key)) - (if rows[i].active
            && rows[i].target_character_id == character_id && rows[i].target_key == key {
            rows[i].modifier as int
        } else {
            0
        }),
    decreases rows.len(),
{
    let off = rows.update(i, Effect { active: false, ..rows[i] });
    let rest = effects_on(rows.drop_last(), character_id, key);
    if i == rows.len() - 1 {
        assert(off.drop_last() =~= rows.drop_last());
        assert(rest.push(rows.last()).drop_last() =~= rest);
    } else {
        lemma_off(rows.drop_last(), i, character_id, key);
        let off_rest = effects_on(off.drop_last(), character_id, key);
        assert(off.drop_last() =~= rows.drop_last().update(i, Effect { active: false, ..rows[i] }));
        assert(rest.push(rows.last()).drop_last() =~= rest);
        assert(off_rest.push(rows.last()).drop_last() =~= off_rest);
    }
}

/// An effect adds its modifier to what it is keyed to and to nothing else.
pub proof fn law_effect_adds_its_modifier(w: World, p: ApplyParams, character_id: i64, key: Seq<char>)
    ensures
        modifiers(effects_on(applied(w, p).effects, character_id, key)) == modifiers(
            effects_on(w.effects, character_id, key),
        ) + (if p.target_character_id == character_id && p.target_key@ == key {
            p.modifier as int
        } else {
            0
        }),
{
    let rows = applied(w, p).effects;
    assert(rows.drop_last() =~= w.effects);
    let rest = effects_on(w.effects, character_id, key);
    assert(rest.push(rows.last()).drop_last() =~= rest);
}

/// Dispelling an effect takes its modifier from what it is keyed to and from nothing else.
pub proof fn law_dispel_takes_its_modifier(w: World, p: DispelParams, character_id: i64, key: Seq<char>)
    requires
        w.wf(),
        dispel_refusal(w, p) is None,
    ensures
        ({
            let e = row(w.effects, p.effect_id);
            modifiers(effects_on(dispelled(w, p).effects, character_id, key)) == modifiers(
                effects_on(w.effects, character_id, key),
            ) - (if e.target_character_id == character_id && e.target_key == key {
                e.modifier as int
            } else {
                0
            })
        }),
{
    lemma_row(w.effects, p.effect_id);
    lemma_off(w.effects, index_of(w.effects, p.effect_id), character_id, key);
}

/// Applying an effect and dispelling it leaves every list of active effects as it was, and so
/// every sum of modifiers.
pub proof fn law_dispel_undoes_apply(w: World, a: ApplyParams, d: DispelParams, character_id: i64, key: Seq<char>)
    requires
        w.wf(),
        w.room(),
        apply_refusal(w, a) is None,
        d.effect_id == next_id(w.effects),
    ensures
        dispel_refusal(applied(w, a), d) is None,
        effects_of(dispelled(applied(w, a), d).effects, character_id) == effects_of(w.effects, character_id),
        effects_on(dispelled(applied(w, a), d).effects, character_id, key) == effects_on(
            w.effects,
            character_id,
            key,
        ),
        modifiers(effects_on(dispelled(applied(w, a), d).effects, character_id, key)) == modifiers(
            effects_on(w.effects, character_id, key),
        ),
{
    lemma_tables(w);
    let x = applied_effect(w, a);
    lemma_push(w.effects, x);
    let v = applied(w, a);
    assert(v.effects == w.effects.push(x));
    assert(row(v.effects, d.effect_id) == x);
    let off = Effect { active: false, ..x };
    lemma_update(v.effects, w.effects.len() as int, off);
    let after = dispelled(v, d).effects;
    assert(after == v.effects.update(w.effects.len() as int, off));
    assert(after.drop_last() =~= w.effects);
}

/// Effects never touch the characters themselves: their own scores stay as they are.
pub proof fn law_effects_leave_base_scores(w: World, a: ApplyParams, d: DispelParams)
    ensures
        applied(w, a).characters == w.characters,
        dispelled(w, d).characters == w.characters,
{
}

/// An effect is dispelled once: whoever tries again is told that it is over.
pub proof fn law_effect_is_dispelled_once(w: World, p: DispelParams, q: DispelParams)
    requires
        w.wf(),
        dispel_refusal(w, p) is None,
        q.effect_id == p.effect_id,
    ensures
        dispel_refusal(dispelled(w, p), q) == Some(Error::<Seq<char>>::EffectInactive { id: p.effect_id }),
{
    lemma_tables(w);
    lemma_row(w.effects, p.effect_id);
    let r = row(w.effects, p.effect_id);
    lemma_update(w.effects, index_of(w.effects, p.effect_id), Effect { active: false, ..r });
}

} // verus!
