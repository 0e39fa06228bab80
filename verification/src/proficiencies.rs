//! What characters are trained in, and the resources they spend.

use vstd::prelude::*;
use crate::campaign::{find, lemma_tables, listed, next_id, Campaign, World};
use crate::checks::{find_training, training_of};
use crate::error::{Error, Fault};
use crate::events::{
    bool_field, entry, entry_view, field_view, fields1, fields4, fields6, int_field, one, only, opt_str,
    opt_text_field, text_field,
};
use crate::rows::{EventRole, EventView, Proficiency, Recharge, Resource, ValueView};
use crate::text::{debug_text, decimal, int_text, opt_text, quoted, same};

verus! {

#[derive(Debug, Clone, PartialEq, Eq)]
pub struct SetProficiencyParams {
    pub character_id: i64,
    pub name: String,
    pub proficient: Option<bool>,
    pub expertise: Option<bool>,
    pub ranks: Option<i32>,
}

#[derive(Debug, Clone, PartialEq, Eq)]
pub struct RemoveProficiencyParams {
    pub character_id: i64,
    pub name: String,
}

#[derive(Debug, Clone, PartialEq, Eq)]
pub struct ProficiencyResult {
    pub character_id: i64,
    pub name: String,
    pub event_id: i64,
}

#[derive(Debug, Clone, PartialEq, Eq)]
pub struct SetResourceParams {
    pub character_id: i64,
    pub name: String,
    pub current: i32,
    pub max: i32,
    pub recharge: String,
}

#[derive(Debug, Clone, PartialEq, Eq)]
pub struct AdjustResourceParams {
    pub character_id: i64,
    pub name: String,
    pub delta: i32,
    pub reason: Option<String>,
}

#[derive(Debug, Clone, PartialEq, Eq)]
pub struct RemoveResourceParams {
    pub character_id: i64,
    pub name: String,
}

#[derive(Debug, Clone, PartialEq, Eq)]
pub struct ResourceResult {
    pub character_id: i64,
    pub name: String,
    pub current: i32,
    pub max: i32,
    pub event_id: i64,
}

/// The word for a truth value.
pub open spec fn bool_text(b: bool) -> Seq<char> {
    if b {
        "true"@
    } else {
        "false"@
    }
}

fn say_bool(b: bool) -> (r: &'static str)
    ensures
        r@ == bool_text(b),
{
    if b {
        "true"
    } else {
        "false"
    }
}

// ── Training ──

/// The training that is recorded.
pub open spec fn training_row(p: SetProficiencyParams) -> Proficiency<Seq<char>> {
    Proficiency {
        character_id: p.character_id,
        name: p.name@,
        proficient: p.proficient == Some(true),
        expertise: p.expertise == Some(true),
        ranks: match p.ranks {
            Some(n) => n,
            None => 0,
        },
    }
}

pub open spec fn set_refusal(w: World, p: SetProficiencyParams) -> Option<Error<Seq<char>>> {
    if p.name@.len() == 0 {
        Some(Error::ProficiencyEmpty)
    } else if !listed(w.characters, p.character_id) {
        Some(Error::ProficiencyRow)
    } else {
        None
    }
}

pub open spec fn set_entry(p: SetProficiencyParams) -> EventView {
    let t = training_row(p);
    entry_view(
        "proficiency.set"@,
        0,
        "Proficiency "@ + debug_text(p.name@) + " set on character id="@ + int_text(p.character_id as int)
            + " (proficient="@ + bool_text(t.proficient) + ", expertise="@ + bool_text(t.expertise)
            + ", ranks="@ + int_text(t.ranks as int) + ")"@,
        seq![
            field_view("name"@, ValueView::Text(p.name@)),
            field_view("proficient"@, ValueView::Bool(t.proficient)),
            field_view("expertise"@, ValueView::Bool(t.expertise)),
            field_view("ranks"@, ValueView::Int(t.ranks as int)),
        ],
        one(p.character_id, EventRole::Target),
    )
}

/// The campaign with the training recorded, in place of what was recorded under its name.
pub open spec fn trained(w: World, p: SetProficiencyParams) -> World {
    World {
        proficiencies: match training_of(w, p.character_id, p.name@) {
            Some(k) => w.proficiencies.update(k, training_row(p)),
            None => w.proficiencies.push(training_row(p)),
        },
        ..w
    }.with_event(set_entry(p))
}

/// Records what a character is trained in.
pub fn set_proficiency(c: &mut Campaign, p: SetProficiencyParams) -> (r: Result<ProficiencyResult, Error>)
    requires
        old(c)@.wf(),
        old(c)@.room(),
    ensures
        final(c)@.wf(),
        set_refusal(old(c)@, p) matches Some(e) ==> r is Err && r->Err_0@ == e && final(c)@ == old(c)@,
        set_refusal(old(c)@, p) is None ==> {
            &&& r is Ok
            &&& r->Ok_0.character_id == p.character_id
            &&& r->Ok_0.name@ == p.name@
            &&& r->Ok_0.event_id == next_id(old(c)@.events)
            &&& final(c)@ == trained(old(c)@, p)
        },
{
    if p.name.as_str().is_empty() {
        return Err(Error::ProficiencyEmpty);
    }
    let ghost w = c@;
    proof {
        lemma_tables(w);
    }
    if find(&c.characters, p.character_id).is_none() {
        return Err(Error::ProficiencyRow);
    }
    let proficient = match p.proficient {
        Some(b) => b,
        None => false,
    };
    let expertise = match p.expertise {
        Some(b) => b,
        None => false,
    };
    let ranks: i32 = match p.ranks {
        Some(n) => n,
        None => 0,
    };
    let t = Proficiency {
        character_id: p.character_id,
        name: p.name.clone(),
        proficient,
        expertise,
        ranks,
    };
    assert(t@ == training_row(p));
    match find_training(c, p.character_id, p.name.as_str()) {
        Some(k) => {
            c.set_proficiency(k, t);
        },
        None => {
            c.push_proficiency(t);
        },
    }
    let mut s = "Proficiency ".to_owned();
    s.append(quoted(p.name.as_str()).as_str());
    s.append(" set on character id=");
    s.append(decimal(p.character_id).as_str());
    s.append(" (proficient=");
    s.append(say_bool(proficient));
    s.append(", expertise=");
    s.append(say_bool(expertise));
    s.append(", ranks=");
    s.append(decimal(ranks as i64).as_str());
    s.append(")");
    let e = entry(
        "proficiency.set",
        0,
        s,
        fields4(
            text_field("name", p.name.as_str()),
            bool_field("proficient", proficient),
            bool_field("expertise", expertise),
            int_field("ranks", ranks as i64),
        ),
        only(p.character_id, EventRole::Target),
    );
    assert(e@ == set_entry(p));
    let event_id: i64 = c.add_event(e);
    assert(c@ == trained(w, p));
    Ok(ProficiencyResult { character_id: p.character_id, name: p.name, event_id })
}

/// That whom the entry is about exists.
pub open spec fn target_refusal(w: World, id: i64) -> Option<Error<Seq<char>>> {
    if listed(w.characters, id) {
        None
    } else {
        Some(
            Error::EventParticipantRow {
                event_id: next_id(w.events),
                character_id: id,
                role: "target"@,
                fault: Fault::ForeignKey,
            },
        )
    }
}

fn check_target(c: &Campaign, id: i64) -> (r: Result<(), Error>)
    requires
        c@.wf(),
        c@.room(),
    ensures
        match r {
            Ok(_) => target_refusal(c@, id) is None,
            Err(e) => target_refusal(c@, id) == Some(e@),
        },
{
    proof {
        lemma_tables(c@);
    }
    if find(&c.characters, id).is_none() {
        Err(
            Error::EventParticipantRow {
                event_id: crate::campaign::fresh_id(&c.events),
                character_id: id,
                role: "target".to_owned(),
                fault: Fault::ForeignKey,
            },
        )
    } else {
        Ok(())
    }
}

pub open spec fn forgotten_entry(p: RemoveProficiencyParams) -> EventView {
    entry_view(
        "proficiency.removed"@,
        0,
        "Proficiency "@ + debug_text(p.name@) + " removed from character id="@ + int_text(
            p.character_id as int,
        ),
        seq![field_view("name"@, ValueView::Text(p.name@))],
        one(p.character_id, EventRole::Target),
    )
}

/// The campaign without the training, where there was any.
pub open spec fn forgotten(w: World, p: RemoveProficiencyParams) -> World {
    World {
        proficiencies: match training_of(w, p.character_id, p.name@) {
            Some(k) => w.proficiencies.remove(k),
            None => w.proficiencies,
        },
        ..w
    }.with_event(forgotten_entry(p))
}

/// Takes back what a character is trained in.
pub fn remove_proficiency(c: &mut Campaign, p: RemoveProficiencyParams) -> (r: Result<
    ProficiencyResult,
    Error,
>)
    requires
        old(c)@.wf(),
        old(c)@.room(),
    ensures
        final(c)@.wf(),
        target_refusal(old(c)@, p.character_id) matches Some(e) ==> r is Err && r->Err_0@ == e && final(c)@
            == old(c)@,
        target_refusal(old(c)@, p.character_id) is None ==> {
            &&& r is Ok
            &&& r->Ok_0.character_id == p.character_id
            &&& r->Ok_0.name@ == p.name@
            &&& r->Ok_0.event_id == next_id(old(c)@.events)
            &&& final(c)@ == forgotten(old(c)@, p)
        },
{
    let ghost w = c@;
    match check_target(c, p.character_id) {
        Ok(_) => {},
        Err(e) => {
            return Err(e);
        },
    }
    if let Some(k) = find_training(c, p.character_id, p.name.as_str()) {
        c.remove_proficiency(k);
    }
    let mut s = "Proficiency ".to_owned();
    s.append(quoted(p.name.as_str()).as_str());
    s.append(" removed from character id=");
    s.append(decimal(p.character_id).as_str());
    let e = entry(
        "proficiency.removed",
        0,
        s,
        fields1(text_field("name", p.name.as_str())),
        only(p.character_id, EventRole::Target),
    );
    assert(e@ == forgotten_entry(p));
    let event_id: i64 = c.add_event(e);
    assert(c@ == forgotten(w, p));
    Ok(ProficiencyResult { character_id: p.character_id, name: p.name, event_id })
}

// ── Resources ──

/// Where the character's resource with this name stands among the first `n`.
pub open spec fn resource_at(
    rows: Seq<Resource<Seq<char>>>,
    character_id: i64,
    name: Seq<char>,
    n: nat,
) -> Option<int>
    decreases n,
{
    if n == 0 {
        None
    } else if rows[n - 1].character_id == character_id && rows[n - 1].name == name {
        Some(n - 1)
    } else {
        resource_at(rows, character_id, name, (n - 1) as nat)
    }
}

/// Where the character's resource with this name stands.
pub open spec fn resource_of(w: World, character_id: i64, name: Seq<char>) -> Option<int> {
    resource_at(w.resources, character_id, name, w.resources.len())
}

fn find_resource(c: &Campaign, character_id: i64, name: &str) -> (r: Option<usize>)
    ensures
        match r {
            Some(k) => {
                &&& resource_of(c@, character_id, name@) == Some(k as int)
                &&& k < c.resources.len()
                &&& c@.resources[k as int].character_id == character_id
                &&& c@.resources[k as int].name == name@
            },
            None => {
                &&& resource_of(c@, character_id, name@) is None
                &&& forall|j: int|
                    0 <= j < c@.resources.len() ==> !((#[trigger] c@.resources[j]).character_id
                        == character_id && c@.resources[j].name == name@)
            },
        },
{
    let mut n: usize = c.resources.len();
    while n > 0
        invariant
            n <= c.resources.len(),
            resource_of(c@, character_id, name@) == resource_at(c@.resources, character_id, name@, n as nat),
            forall|j: int|
                n <= j < c@.resources.len() ==> !((#[trigger] c@.resources[j]).character_id == character_id
                    && c@.resources[j].name == name@),
        decreases n,
    {
        let r = &c.resources[n - 1];
        assert(c@.resources[n - 1] == r@);
        if r.character_id == character_id && same(r.name.as_str(), name) {
            return Some(n - 1);
        }
        n = n - 1;
    }
    None
}

/// The resource that is recorded.
pub open spec fn resource_row(p: SetResourceParams) -> Resource<Seq<char>> {
    Resource {
        character_id: p.character_id,
        name: p.name@,
        current: p.current,
        max: p.max,
        recharge: Recharge::of_text(p.recharge@)->0,
    }
}

pub open spec fn set_resource_refusal(w: World, p: SetResourceParams) -> Option<Error<Seq<char>>> {
    if p.name@.len() == 0 {
        Some(Error::ResourceEmpty)
    } else if p.max < 0 {
        Some(Error::ResourceMax)
    } else if p.current < 0 || p.current > p.max {
        Some(Error::ResourceCurrent { current: p.current, max: p.max })
    } else if Recharge::of_text(p.recharge@) is None {
        Some(Error::UnknownRecharge { recharge: p.recharge@ })
    } else if !listed(w.characters, p.character_id) {
        Some(Error::ResourceRow)
    } else {
        None
    }
}

pub open spec fn set_resource_entry(p: SetResourceParams) -> EventView {
    entry_view(
        "resource.set"@,
        0,
        "Resource "@ + debug_text(p.name@) + " set on character id="@ + int_text(p.character_id as int)
            + " ("@ + int_text(p.current as int) + "/"@ + int_text(p.max as int) + ", "@ + p.recharge@ + ")"@,
        seq![
            field_view("name"@, ValueView::Text(p.name@)),
            field_view("current"@, ValueView::Int(p.current as int)),
            field_view("max"@, ValueView::Int(p.max as int)),
            field_view("recharge"@, ValueView::Text(p.recharge@)),
        ],
        one(p.character_id, EventRole::Target),
    )
}

/// The campaign with the resource recorded, in place of what was recorded under its name.
pub open spec fn supplied(w: World, p: SetResourceParams) -> World {
    World {
        resources: match resource_of(w, p.character_id, p.name@) {
            Some(k) => w.resources.update(k, resource_row(p)),
            None => w.resources.push(resource_row(p)),
        },
        ..w
    }.with_event(set_resource_entry(p))
}

/// Records a resource of a character.
pub fn set_resource(c: &mut Campaign, p: SetResourceParams) -> (r: Result<ResourceResult, Error>)
    requires
        old(c)@.wf(),
        old(c)@.room(),
    ensures
        final(c)@.wf(),
        set_resource_refusal(old(c)@, p) matches Some(e) ==> r is Err && r->Err_0@ == e && final(c)@
            == old(c)@,
        set_resource_refusal(old(c)@, p) is None ==> {
            &&& r is Ok
            &&& r->Ok_0.character_id == p.character_id
            &&& r->Ok_0.name@ == p.name@
            &&& r->Ok_0.current == p.current
            &&& r->Ok_0.max == p.max
            &&& r->Ok_0.event_id == next_id(old(c)@.events)
            &&& final(c)@ == supplied(old(c)@, p)
        },
{
    if p.name.as_str().is_empty() {
        return Err(Error::ResourceEmpty);
    }
    if p.max < 0 {
        return Err(Error::ResourceMax);
    }
    if p.current < 0 || p.current > p.max {
        return Err(Error::ResourceCurrent { current: p.current, max: p.max });
    }
    let recharge = match Recharge::parse(p.recharge.as_str()) {
        Some(k) => k,
        None => {
            return Err(Error::UnknownRecharge { recharge: p.recharge });
        },
    };
    let ghost w = c@;
    proof {
        lemma_tables(w);
    }
    if find(&c.characters, p.character_id).is_none() {
        return Err(Error::ResourceRow);
    }
    let t = Resource {
        character_id: p.character_id,
        name: p.name.clone(),
        current: p.current,
        max: p.max,
        recharge,
    };
    assert(t@ == resource_row(p));
    match find_resource(c, p.character_id, p.name.as_str()) {
        Some(k) => {
            c.set_resource(k, t);
        },
        None => {
            c.push_resource(t);
        },
    }
    let mut s = "Resource ".to_owned();
    s.append(quoted(p.name.as_str()).as_str());
    s.append(" set on character id=");
    s.append(decimal(p.character_id).as_str());
    s.append(" (");
    s.append(decimal(p.current as i64).as_str());
    s.append("/");
    s.append(decimal(p.max as i64).as_str());
    s.append(", ");
    s.append(p.recharge.as_str());
    s.append(")");
    let e = entry(
        "resource.set",
        0,
        s,
        fields4(
            text_field("name", p.name.as_str()),
            int_field("current", p.current as i64),
            int_field("max", p.max as i64),
            text_field("recharge", p.recharge.as_str()),
        ),
        only(p.character_id, EventRole::Target),
    );
    assert(e@ == set_resource_entry(p));
    let event_id: i64 = c.add_event(e);
    assert(c@ == supplied(w, p));
    Ok(
        ResourceResult {
            character_id: p.character_id,
            name: p.name,
            current: p.current,
            max: p.max,
            event_id,
        },
    )
}

/// What is left after a change: never below nothing, never above the maximum.
pub open spec fn adjusted_to(r: Resource<Seq<char>>, delta: i32) -> i32 {
    if r.current + delta < 0 {
        0
    } else if r.current + delta > r.max {
        r.max
    } else {
        (r.current + delta) as i32
    }
}

pub open spec fn adjust_refusal(w: World, p: AdjustResourceParams) -> Option<Error<Seq<char>>> {
    if resource_of(w, p.character_id, p.name@) is None {
        Some(Error::ResourceNotFound { name: p.name@, id: p.character_id })
    } else {
        None
    }
}

pub open spec fn adjust_entry(r: Resource<Seq<char>>, p: AdjustResourceParams) -> EventView {
    entry_view(
        "resource.adjusted"@,
        0,
        "Resource "@ + debug_text(p.name@) + " adjusted on character id="@ + int_text(p.character_id as int)
            + ": "@ + int_text(r.current as int) + " → "@ + int_text(adjusted_to(r, p.delta) as int)
            + " (delta "@ + (if p.delta >= 0 {
            "+"@
        } else {
            ""@
        }) + int_text(p.delta as int) + ")"@,
        seq![
            field_view("name"@, ValueView::Text(p.name@)),
            field_view("old_current"@, ValueView::Int(r.current as int)),
            field_view("new_current"@, ValueView::Int(adjusted_to(r, p.delta) as int)),
            field_view("delta_requested"@, ValueView::Int(p.delta as int)),
            field_view("max"@, ValueView::Int(r.max as int)),
            field_view("reason"@, opt_str(opt_text(p.reason))),
        ],
        one(p.character_id, EventRole::Target),
    )
}

/// The campaign with the resource changed.
pub open spec fn adjusted(w: World, p: AdjustResourceParams) -> World {
    let k = resource_of(w, p.character_id, p.name@)->0;
    let r = w.resources[k];
    World {
        resources: w.resources.update(k, Resource { current: adjusted_to(r, p.delta), ..r }),
        ..w
    }.with_event(adjust_entry(r, p))
}

/// Spends or regains some of a resource.
pub fn adjust_resource(c: &mut Campaign, p: AdjustResourceParams) -> (r: Result<ResourceResult, Error>)
    requires
        old(c)@.wf(),
        old(c)@.room(),
    ensures
        final(c)@.wf(),
        adjust_refusal(old(c)@, p) matches Some(e) ==> r is Err && r->Err_0@ == e && final(c)@ == old(
            c,
        )@,
        adjust_refusal(old(c)@, p) is None ==> {
            let k = resource_of(old(c)@, p.character_id, p.name@)->0;
            &&& r is Ok
            &&& r->Ok_0.character_id == p.character_id
            &&& r->Ok_0.name@ == p.name@
            &&& r->Ok_0.current == adjusted_to(old(c)@.resources[k], p.delta)
            &&& r->Ok_0.current == final(c)@.resources[k].current
            &&& r->Ok_0.max == old(c)@.resources[k].max
            &&& r->Ok_0.event_id == next_id(old(c)@.events)
            &&& final(c)@ == adjusted(old(c)@, p)
        },
{
    let ghost w = c@;
    let k: usize = match find_resource(c, p.character_id, p.name.as_str()) {
        Some(k) => k,
        None => {
            return Err(Error::ResourceNotFound { name: p.name, id: p.character_id });
        },
    };
    let mut t = c.resources[k].copy();
    let ghost before = t@;
    proof {
        assert(w.resources[k as int] == before);
        assert(listed(w.characters, p.character_id) && 0 <= t.current <= t.max) by {
            reveal(World::wf);
        }
    }
    let was: i32 = t.current;
    let max: i32 = t.max;
    let sum: i64 = was as i64 + p.delta as i64;
    let now: i32 = if sum < 0 {
        0
    } else if sum > max as i64 {
        max
    } else {
        sum as i32
    };
    t.current = now;
    assert(t@ == Resource { current: adjusted_to(before, p.delta), ..before });
    c.set_resource(k, t);
    let mut s = "Resource ".to_owned();
    s.append(quoted(p.name.as_str()).as_str());
    s.append(" adjusted on character id=");
    s.append(decimal(p.character_id).as_str());
    s.append(": ");
    s.append(decimal(was as i64).as_str());
    s.append(" → ");
    s.append(decimal(now as i64).as_str());
    s.append(" (delta ");
    s.append(
        if p.delta >= 0 {
            "+"
        } else {
            ""
        },
    );
    s.append(decimal(p.delta as i64).as_str());
    s.append(")");
    let e = entry(
        "resource.adjusted",
        0,
        s,
        fields6(
            text_field("name", p.name.as_str()),
            int_field("old_current", was as i64),
            int_field("new_current", now as i64),
            int_field("delta_requested", p.delta as i64),
            int_field("max", max as i64),
            opt_text_field("reason", &p.reason),
        ),
        only(p.character_id, EventRole::Target),
    );
    assert(e@ == adjust_entry(before, p));
    let event_id: i64 = c.add_event(e);
    assert(c@ == adjusted(w, p));
    Ok(ResourceResult { character_id: p.character_id, name: p.name, current: now, max, event_id })
}

pub open spec fn used_up_entry(p: RemoveResourceParams) -> EventView {
    entry_view(
        "resource.removed"@,
        0,
        "Resource "@ + debug_text(p.name@) + " removed from character id="@ + int_text(p.character_id as int),
        seq![field_view("name"@, ValueView::Text(p.name@))],
        one(p.character_id, EventRole::Target),
    )
}

/// The campaign without the resource, where there was one.
pub open spec fn used_up(w: World, p: RemoveResourceParams) -> World {
    World {
        resources: match resource_of(w, p.character_id, p.name@) {
            Some(k) => w.resources.remove(k),
            None => w.resources,
        },
        ..w
    }.with_event(used_up_entry(p))
}

/// Takes a resource from a character.
pub fn remove_resource(c: &mut Campaign, p: RemoveResourceParams) -> (r: Result<ProficiencyResult, Error>)
    requires
        old(c)@.wf(),
        old(c)@.room(),
    ensures
        final(c)@.wf(),
        target_refusal(old(c)@, p.character_id) matches Some(e) ==> r is Err && r->Err_0@ == e && final(c)@
            == old(c)@,
        target_refusal(old(c)@, p.character_id) is None ==> {
            &&& r is Ok
            &&& r->Ok_0.character_id == p.character_id
            &&& r->Ok_0.name@ == p.name@
            &&& r->Ok_0.event_id == next_id(old(c)@.events)
            &&& final(c)@ == used_up(old(c)@, p)
        },
{
    let ghost w = c@;
    match check_target(c, p.character_id) {
        Ok(_) => {},
        Err(e) => {
            return Err(e);
        },
    }
    if let Some(k) = find_resource(c, p.character_id, p.name.as_str()) {
        c.remove_resource(k);
    }
    let mut s = "Resource ".to_owned();
    s.append(quoted(p.name.as_str()).as_str());
    s.append(" removed from character id=");
    s.append(decimal(p.character_id).as_str());
    let e = entry(
        "resource.removed",
        0,
        s,
        fields1(text_field("name", p.name.as_str())),
        only(p.character_id, EventRole::Target),
    );
    assert(e@ == used_up_entry(p));
    let event_id: i64 = c.add_event(e);
    assert(c@ == used_up(w, p));
    Ok(ProficiencyResult { character_id: p.character_id, name: p.name, event_id })
}

pub(crate) proof fn lemma_training_at(rows: Seq<Proficiency<Seq<char>>>, character_id: i64, name: Seq<char>, n: nat)
    requires
        n <= rows.len(),
    ensures
        crate::checks::training_at(rows, character_id, name, n) matches Some(k) ==> {
            &&& 0 <= k < n
            &&& rows[k].character_id == character_id
            &&& rows[k].name == name
        },
        crate::checks::training_at(rows, character_id, name, n) is None ==> forall|k: int|
            0 <= k < n ==> !((#[trigger] rows[k]).character_id == character_id && rows[k].name == name),
    decreases n,
{
    if n > 0 {
        lemma_training_at(rows, character_id, name, (n - 1) as nat);
    }
}

/// What has been recorded is what is found under the name, and once removed it is gone.
pub proof fn law_training_is_found_until_removed(
    w: World,
    p: SetProficiencyParams,
    q: RemoveProficiencyParams,
)
    requires
        w.wf(),
        set_refusal(w, p) is None,
        q.character_id == p.character_id,
        q.name@ == p.name@,
    ensures
        training_of(trained(w, p), p.character_id, p.name@) matches Some(k) && trained(
            w,
            p,
        ).proficiencies[k] == training_row(p),
        training_of(forgotten(w, q), p.character_id, p.name@) is None,
{
    reveal(World::wf);
    let id = p.character_id;
    let name = p.name@;
    let rows = w.proficiencies;
    lemma_training_at(rows, id, name, rows.len());
    let set = trained(w, p).proficiencies;
    lemma_training_at(set, id, name, set.len());
    match training_of(w, id, name) {
        Some(k) => {
            assert(set[k] == training_row(p));
            let j = training_of(trained(w, p), id, name)->0;
            if j != k {
                assert(set[j] == rows[j]);
            }
            let gone = forgotten(w, q).proficiencies;
            lemma_training_at(gone, id, name, gone.len());
            if training_of(forgotten(w, q), id, name) is Some {
                let j = training_of(forgotten(w, q), id, name)->0;
                if j < k {
                    assert(gone[j] == rows[j]);
                } else {
                    assert(gone[j] == rows[j + 1]);
                }
            }
        },
        None => {
            assert(set[rows.len() as int] == training_row(p));
        },
    }
}

pub(crate) proof fn lemma_resource_at(rows: Seq<Resource<Seq<char>>>, character_id: i64, name: Seq<char>, n: nat)
    requires
        n <= rows.len(),
    ensures
        resource_at(rows, character_id, name, n) matches Some(k) ==> {
            &&& 0 <= k < n
            &&& rows[k].character_id == character_id
            &&& rows[k].name == name
        },
        resource_at(rows, character_id, name, n) is None ==> forall|k: int|
            0 <= k < n ==> !((#[trigger] rows[k]).character_id == character_id && rows[k].name == name),
    decreases n,
{
    if n > 0 {
        lemma_resource_at(rows, character_id, name, (n - 1) as nat);
    }
}

/// A resource that has been recorded is what is found under its name, and once removed it is
/// gone.
pub proof fn law_resource_is_found_until_removed(w: World, p: SetResourceParams, q: RemoveResourceParams)
    requires
        w.wf(),
        set_resource_refusal(w, p) is None,
        q.character_id == p.character_id,
        q.name@ == p.name@,
    ensures
        resource_of(supplied(w, p), p.character_id, p.name@) matches Some(k) && supplied(w, p).resources[k]
            == resource_row(p),
        resource_of(used_up(w, q), p.character_id, p.name@) is None,
{
    reveal(World::wf);
    let id = p.character_id;
    let name = p.name@;
    let rows = w.resources;
    lemma_resource_at(rows, id, name, rows.len());
    let set = supplied(w, p).resources;
    lemma_resource_at(set, id, name, set.len());
    match resource_of(w, id, name) {
        Some(k) => {
            assert(set[k] == resource_row(p));
            let j = resource_of(supplied(w, p), id, name)->0;
            if j != k {
                assert(set[j] == rows[j]);
            }
            let gone = used_up(w, q).resources;
            lemma_resource_at(gone, id, name, gone.len());
            if resource_of(used_up(w, q), id, name) is Some {
                let j = resource_of(used_up(w, q), id, name)->0;
                if j < k {
                    assert(gone[j] == rows[j]);
                } else {
                    assert(gone[j] == rows[j + 1]);
                }
            }
        },
        None => {
            assert(set[rows.len() as int] == resource_row(p));
        },
    }
}

/// However much of a resource is spent or regained, what is left is never below nothing and
/// never above its maximum, and nothing else of it changes.
pub proof fn law_adjusted_resource_stays_in_range(w: World, p: AdjustResourceParams)
    requires
        w.wf(),
        adjust_refusal(w, p) is None,
    ensures
        ({
            let k = resource_of(w, p.character_id, p.name@)->0;
            let before = w.resources[k];
            let after = adjusted(w, p).resources[k];
            &&& resource_of(adjusted(w, p), p.character_id, p.name@) == Some(k)
            &&& 0 <= after.current <= after.max
            &&& after == (Resource { current: after.current, ..before })
            &&& 0 <= before.current + p.delta <= before.max ==> after.current == before.current + p.delta
        }),
{
    let id = p.character_id;
    let name = p.name@;
    let rows = w.resources;
    let set = adjusted(w, p).resources;
    lemma_resource_at(rows, id, name, rows.len());
    lemma_resource_at(set, id, name, set.len());
    reveal(World::wf);
    let k = resource_of(w, id, name)->0;
    assert(set[k].name == name);
    let j = resource_of(adjusted(w, p), id, name)->0;
    if j != k {
        assert(set[j] == rows[j]);
    }
}

} // verus!
