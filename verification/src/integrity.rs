//! Integrity: a fresh campaign, and whether one that comes from elsewhere is in order.

use vstd::prelude::*;
use crate::campaign::{listed, ordered, top, Campaign, World, HOUR_LIMIT, ID_LIMIT};
use crate::rows::{views, CampaignState, Event, EventView, Phase, Place, Row, Stored};
use crate::text::same;

verus! {

impl World {
    /// A campaign in which nothing is yet.
    pub open spec fn fresh() -> World {
        World {
            parties: Seq::empty(),
            characters: Seq::empty(),
            proficiencies: Seq::empty(),
            resources: Seq::empty(),
            conditions: Seq::empty(),
            effects: Seq::empty(),
            items: Seq::empty(),
            zones: Seq::empty(),
            connections: Seq::empty(),
            landmarks: Seq::empty(),
            zone_knowledge: Seq::empty(),
            landmark_knowledge: Seq::empty(),
            encounters: Seq::empty(),
            encounter_participants: Seq::empty(),
            events: Seq::empty(),
            answers: Seq::empty(),
            state: CampaignState { phase: Phase::Setup, started_at: None, player_character_id: None },
        }
    }
}

/// Whether ids are positive and increase.
fn check_ordered<T: Stored>(rows: &Vec<T>) -> (r: bool) where T::V: Row
    ensures
        r == ordered(views(rows@)),
{
    let ghost seen = views(rows@);
    let mut i: usize = 0;
    let mut last: i64 = 0;
    while i < rows.len()
        invariant
            i <= rows.len(),
            seen == views(rows@),
            last >= 0,
            i == 0 ==> last == 0,
            i > 0 ==> last == seen[i - 1].key(),
            forall|j: int| 0 <= j < i ==> 1 <= (#[trigger] seen[j]).key() <= last,
            forall|j: int, k: int|
                0 <= j < k < i ==> (#[trigger] seen[j]).key() < (#[trigger] seen[k]).key(),
        decreases rows.len() - i,
    {
        let id: i64 = rows[i].row_id();
        proof {
            rows@[i as int].lemma_key();
            assert(seen[i as int] == rows@[i as int]@);
        }
        if id <= last {
            proof {
                if i > 0 {
                    assert(!(seen[i - 1].key() < seen[i as int].key()));
                } else {
                    assert(seen[0].key() < 1);
                }
            }
            return false;
        }
        last = id;
        i = i + 1;
    }
    true
}

/// Whether a row has this id.
fn has_id<T: Stored>(rows: &Vec<T>, id: i64) -> (r: bool) where T::V: Row
    ensures
        r == listed(views(rows@), id),
{
    let ghost seen = views(rows@);
    let mut i: usize = 0;
    while i < rows.len()
        invariant
            i <= rows.len(),
            seen == views(rows@),
            forall|j: int| 0 <= j < i ==> (#[trigger] seen[j]).key() != id,
        decreases rows.len() - i,
    {
        proof {
            rows@[i as int].lemma_key();
            assert(seen[i as int] == rows@[i as int]@);
        }
        if rows[i].row_id() == id {
            return true;
        }
        i = i + 1;
    }
    false
}

fn has_opt<T: Stored>(rows: &Vec<T>, id: Option<i64>) -> (r: bool) where T::V: Row
    ensures
        r == (id matches Some(n) ==> listed(views(rows@), n)),
{
    match id {
        Some(n) => has_id(rows, n),
        None => true,
    }
}

/// The largest id in use.
fn last_id<T: Stored>(rows: &Vec<T>) -> (r: i64) where T::V: Row
    ensures
        r == top(views(rows@)),
{
    let n: usize = rows.len();
    if n == 0 {
        return 0;
    }
    proof {
        rows@[n - 1].lemma_key();
        assert(views(rows@)[n - 1] == rows@[n - 1]@);
        assert(views(rows@).last() == views(rows@)[n - 1]);
    }
    rows[n - 1].row_id()
}

impl Campaign {
    /// A campaign in which nothing is yet.
    pub fn new() -> (r: Campaign)
        ensures
            r@ == World::fresh(),
            r@.wf(),
            r@.room(),
    {
        let r = Campaign {
            parties: Vec::new(),
            characters: Vec::new(),
            proficiencies: Vec::new(),
            resources: Vec::new(),
            conditions: Vec::new(),
            effects: Vec::new(),
            items: Vec::new(),
            zones: Vec::new(),
            connections: Vec::new(),
            landmarks: Vec::new(),
            zone_knowledge: Vec::new(),
            landmark_knowledge: Vec::new(),
            encounters: Vec::new(),
            encounter_participants: Vec::new(),
            events: Vec::new(),
            answers: Vec::new(),
            state: CampaignState { phase: Phase::Setup, started_at: None, player_character_id: None },
        };
        proof {
            assert(r@ =~= World::fresh());
            reveal(World::wf);
        }
        r
    }

    fn check_each_characters(&self) -> (r: bool)
        ensures
            r == (forall|i: int|
                0 <= i < self@.characters.len() ==> self@.character_ok(#[trigger] self@.characters[i])),
    {
        let ghost w = self@;
        let rows = &self.characters;
        let mut i: usize = 0;
        while i < rows.len()
            invariant
                i <= rows.len(),
                w == self@,
                rows@ == self.characters@,
                w.characters.len() == rows.len(),
                forall|j: int|
                    0 <= j < i ==> w.character_ok(#[trigger] w.characters[j]),
            decreases rows.len() - i,
        {
            let r = &rows[i];
            assert(w.characters[i as int] == r@);
            let ok = 0 <= r.loyalty && r.loyalty <= 100 && 0 <= r.death_save_successes
                && r.death_save_successes <= 3 && 0 <= r.death_save_failures && r.death_save_failures <= 3
                && 0 <= r.hp_current && r.hp_current <= r.hp_max && 1 <= r.hp_max
                && -20 <= r.initiative_bonus && r.initiative_bonus <= 20
                && has_opt(&self.zones, r.current_zone_id) && has_opt(&self.parties, r.party_id);
            if !ok {
                assert(!w.character_ok(w.characters[i as int]));
                return false;
            }
            i = i + 1;
        }
        true
    }

    fn check_each_proficiencies(&self) -> (r: bool)
        ensures
            r == (forall|i: int|
                0 <= i < self@.proficiencies.len() ==>
                    listed(self@.characters, (#[trigger] self@.proficiencies[i]).character_id)),
    {
        let ghost w = self@;
        let rows = &self.proficiencies;
        let mut i: usize = 0;
        while i < rows.len()
            invariant
                i <= rows.len(),
                w == self@,
                rows@ == self.proficiencies@,
                w.proficiencies.len() == rows.len(),
                forall|j: int|
                    0 <= j < i ==> listed(w.characters, (#[trigger] w.proficiencies[j]).character_id),
            decreases rows.len() - i,
        {
            let r = &rows[i];
            assert(w.proficiencies[i as int] == r@);
            let ok = has_id(&self.characters, r.character_id);
            if !ok {
                assert(!listed(w.characters, w.proficiencies[i as int].character_id));
                return false;
            }
            i = i + 1;
        }
        true
    }

    fn check_each_resources(&self) -> (r: bool)
        ensures
            r == (forall|i: int|
                0 <= i < self@.resources.len() ==>
                    (listed(self@.characters, (#[trigger] self@.resources[i]).character_id)
                    && 0 <= self@.resources[i].current <= self@.resources[i].max)),
    {
        let ghost w = self@;
        let rows = &self.resources;
        let mut i: usize = 0;
        while i < rows.len()
            invariant
                i <= rows.len(),
                w == self@,
                rows@ == self.resources@,
                w.resources.len() == rows.len(),
                forall|j: int|
                    0 <= j < i ==> (listed(w.characters, (#[trigger] w.resources[j]).character_id)
                        && 0 <= w.resources[j].current <= w.resources[j].max),
            decreases rows.len() - i,
        {
            let r = &rows[i];
            assert(w.resources[i as int] == r@);
            let ok = has_id(&self.characters, r.character_id) && 0 <= r.current && r.current <= r.max;
            if !ok {
                assert(!(listed(w.characters, w.resources[i as int].character_id)
                    && 0 <= w.resources[i as int].current <= w.resources[i as int].max));
                return false;
            }
            i = i + 1;
        }
        true
    }

    fn check_each_conditions(&self) -> (r: bool)
        ensures
            r == (forall|i: int|
                0 <= i < self@.conditions.len() ==>
                    listed(self@.characters, (#[trigger] self@.conditions[i]).character_id)),
    {
        let ghost w = self@;
        let rows = &self.conditions;
        let mut i: usize = 0;
        while i < rows.len()
            invariant
                i <= rows.len(),
                w == self@,
                rows@ == self.conditions@,
                w.conditions.len() == rows.len(),
                forall|j: int|
                    0 <= j < i ==> listed(w.characters, (#[trigger] w.conditions[j]).character_id),
            decreases rows.len() - i,
        {
            let r = &rows[i];
            assert(w.conditions[i as int] == r@);
            let ok = has_id(&self.characters, r.character_id);
            if !ok {
                assert(!listed(w.characters, w.conditions[i as int].character_id));
                return false;
            }
            i = i + 1;
        }
        true
    }

    fn check_each_effects(&self) -> (r: bool)
        ensures
            r == (forall|i: int|
                0 <= i < self@.effects.len() ==>
                    listed(self@.characters, (#[trigger] self@.effects[i]).target_character_id)),
    {
        let ghost w = self@;
        let rows = &self.effects;
        let mut i: usize = 0;
        while i < rows.len()
            invariant
                i <= rows.len(),
                w == self@,
                rows@ == self.effects@,
                w.effects.len() == rows.len(),
                forall|j: int|
                    0 <= j < i ==> listed(w.characters, (#[trigger] w.effects[j]).target_character_id),
            decreases rows.len() - i,
        {
            let r = &rows[i];
            assert(w.effects[i as int] == r@);
            let ok = has_id(&self.characters, r.target_character_id);
            if !ok {
                assert(!listed(w.characters, w.effects[i as int].target_character_id));
                return false;
            }
            i = i + 1;
        }
        true
    }

    fn check_each_items(&self) -> (r: bool)
        ensures
            r == (forall|i: int|
                0 <= i < self@.items.len() ==> self@.item_ok(#[trigger] self@.items[i])),
    {
        let ghost w = self@;
        let rows = &self.items;
        let mut i: usize = 0;
        while i < rows.len()
            invariant
                i <= rows.len(),
                w == self@,
                rows@ == self.items@,
                w.items.len() == rows.len(),
                forall|j: int|
                    0 <= j < i ==> w.item_ok(#[trigger] w.items[j]),
            decreases rows.len() - i,
        {
            let r = &rows[i];
            assert(w.items[i as int] == r@);
            let ok = r.quantity >= 1 && match r.place {
                Place::Holder(id) => has_id(&self.characters, id),
                Place::Container(id) => has_id(&self.items, id),
                Place::Zone(id) => has_id(&self.zones, id),
            };
            if !ok {
                assert(!w.item_ok(w.items[i as int]));
                return false;
            }
            i = i + 1;
        }
        true
    }

    fn check_each_connections(&self) -> (r: bool)
        ensures
            r == (forall|i: int|
                0 <= i < self@.connections.len() ==> self@.connection_ok(#[trigger] self@.connections[i])),
    {
        let ghost w = self@;
        let rows = &self.connections;
        let mut i: usize = 0;
        while i < rows.len()
            invariant
                i <= rows.len(),
                w == self@,
                rows@ == self.connections@,
                w.connections.len() == rows.len(),
                forall|j: int|
                    0 <= j < i ==> w.connection_ok(#[trigger] w.connections[j]),
            decreases rows.len() - i,
        {
            let r = &rows[i];
            assert(w.connections[i as int] == r@);
            let ok = r.travel_time_hours >= 0 && has_id(&self.zones, r.from_zone_id)
                && has_id(&self.zones, r.to_zone_id);
            if !ok {
                assert(!w.connection_ok(w.connections[i as int]));
                return false;
            }
            i = i + 1;
        }
        true
    }

    fn check_each_landmarks(&self) -> (r: bool)
        ensures
            r == (forall|i: int|
                0 <= i < self@.landmarks.len() ==>
                    listed(self@.zones, (#[trigger] self@.landmarks[i]).zone_id)),
    {
        let ghost w = self@;
        let rows = &self.landmarks;
        let mut i: usize = 0;
        while i < rows.len()
            invariant
                i <= rows.len(),
                w == self@,
                rows@ == self.landmarks@,
                w.landmarks.len() == rows.len(),
                forall|j: int|
                    0 <= j < i ==> listed(w.zones, (#[trigger] w.landmarks[j]).zone_id),
            decreases rows.len() - i,
        {
            let r = &rows[i];
            assert(w.landmarks[i as int] == r@);
            let ok = has_id(&self.zones, r.zone_id);
            if !ok {
                assert(!listed(w.zones, w.landmarks[i as int].zone_id));
                return false;
            }
            i = i + 1;
        }
        true
    }

    fn check_each_zone_knowledge(&self) -> (r: bool)
        ensures
            r == (forall|i: int|
                0 <= i < self@.zone_knowledge.len() ==>
                    (listed(self@.characters, (#[trigger] self@.zone_knowledge[i]).character_id)
                    && listed(self@.zones, self@.zone_knowledge[i].zone_id))),
    {
        let ghost w = self@;
        let rows = &self.zone_knowledge;
        let mut i: usize = 0;
        while i < rows.len()
            invariant
                i <= rows.len(),
                w == self@,
                rows@ == self.zone_knowledge@,
                w.zone_knowledge.len() == rows.len(),
                forall|j: int|
                    0 <= j < i ==> (listed(w.characters, (#[trigger] w.zone_knowledge[j]).character_id)
                        && listed(w.zones, w.zone_knowledge[j].zone_id)),
            decreases rows.len() - i,
        {
            let r = &rows[i];
            assert(w.zone_knowledge[i as int] == r@);
            let ok = has_id(&self.characters, r.character_id) && has_id(&self.zones, r.zone_id);
            if !ok {
                assert(!(listed(w.characters, w.zone_knowledge[i as int].character_id)
                    && listed(w.zones, w.zone_knowledge[i as int].zone_id)));
                return false;
            }
            i = i + 1;
        }
        true
    }

    fn check_each_landmark_knowledge(&self) -> (r: bool)
        ensures
            r == (forall|i: int|
                0 <= i < self@.landmark_knowledge.len() ==>
                    (listed(self@.characters, (#[trigger] self@.landmark_knowledge[i]).character_id)
                    && listed(self@.landmarks, self@.landmark_knowledge[i].landmark_id))),
    {
        let ghost w = self@;
        let rows = &self.landmark_knowledge;
        let mut i: usize = 0;
        while i < rows.len()
            invariant
                i <= rows.len(),
                w == self@,
                rows@ == self.landmark_knowledge@,
                w.landmark_knowledge.len() == rows.len(),
                forall|j: int|
                    0 <= j < i ==> (listed(w.characters, (#[trigger] w.landmark_knowledge[j]).character_id)
                        && listed(w.landmarks, w.landmark_knowledge[j].landmark_id)),
            decreases rows.len() - i,
        {
            let r = &rows[i];
            assert(w.landmark_knowledge[i as int] == r@);
            let ok = has_id(&self.characters, r.character_id) && has_id(&self.landmarks, r.landmark_id);
            if !ok {
                assert(!(listed(w.characters, w.landmark_knowledge[i as int].character_id)
                    && listed(w.landmarks, w.landmark_knowledge[i as int].landmark_id)));
                return false;
            }
            i = i + 1;
        }
        true
    }

    fn check_each_encounters(&self) -> (r: bool)
        ensures
            r == (forall|i: int|
                0 <= i < self@.encounters.len() ==> self@.encounter_ok(#[trigger] self@.encounters[i])),
    {
        let ghost w = self@;
        let rows = &self.encounters;
        let mut i: usize = 0;
        while i < rows.len()
            invariant
                i <= rows.len(),
                w == self@,
                rows@ == self.encounters@,
                w.encounters.len() == rows.len(),
                forall|j: int|
                    0 <= j < i ==> w.encounter_ok(#[trigger] w.encounters[j]),
            decreases rows.len() - i,
        {
            let r = &rows[i];
            assert(w.encounters[i as int] == r@);
            let ok = r.xp_budget >= 0 && has_opt(&self.zones, r.zone_id);
            if !ok {
                assert(!w.encounter_ok(w.encounters[i as int]));
                return false;
            }
            i = i + 1;
        }
        true
    }

    fn check_each_encounter_participants(&self) -> (r: bool)
        ensures
            r == (forall|i: int|
                0 <= i < self@.encounter_participants.len() ==>
                    (listed(self@.encounters, (#[trigger] self@.encounter_participants[i]).encounter_id)
                    && listed(self@.characters, self@.encounter_participants[i].character_id))),
    {
        let ghost w = self@;
        let rows = &self.encounter_participants;
        let mut i: usize = 0;
        while i < rows.len()
            invariant
                i <= rows.len(),
                w == self@,
                rows@ == self.encounter_participants@,
                w.encounter_participants.len() == rows.len(),
                forall|j: int|
                    0 <= j < i ==>
                        (listed(w.encounters, (#[trigger] w.encounter_participants[j]).encounter_id)
                        && listed(w.characters, w.encounter_participants[j].character_id)),
            decreases rows.len() - i,
        {
            let r = &rows[i];
            assert(w.encounter_participants[i as int] == r@);
            let ok = has_id(&self.encounters, r.encounter_id) && has_id(&self.characters, r.character_id);
            if !ok {
                assert(!(listed(w.encounters, w.encounter_participants[i as int].encounter_id)
                    && listed(w.characters, w.encounter_participants[i as int].character_id)));
                return false;
            }
            i = i + 1;
        }
        true
    }

    fn check_keys_proficiencies(&self) -> (r: bool)
        ensures
            r == (forall|i: int, j: int|
                #![trigger self@.proficiencies[i], self@.proficiencies[j]]
                0 <= i < j < self@.proficiencies.len() ==>
                    self@.proficiencies[i].character_id != self@.proficiencies[j].character_id
                    || self@.proficiencies[i].name != self@.proficiencies[j].name),
    {
        let ghost w = self@;
        let rows = &self.proficiencies;
        let mut j: usize = 0;
        while j < rows.len()
            invariant
                j <= rows.len(),
                w == self@,
                rows@ == self.proficiencies@,
                w.proficiencies.len() == rows.len(),
                forall|a: int, b: int|
                    #![trigger w.proficiencies[a], w.proficiencies[b]]
                    0 <= a < b < j ==> w.proficiencies[a].character_id != w.proficiencies[b].character_id
                        || w.proficiencies[a].name != w.proficiencies[b].name,
            decreases rows.len() - j,
        {
            assert(w.proficiencies[j as int] == rows@[j as int]@);
            let mut i: usize = 0;
            while i < j
                invariant
                    i <= j < rows.len(),
                    w == self@,
                    rows@ == self.proficiencies@,
                    w.proficiencies.len() == rows.len(),
                    w.proficiencies[j as int] == rows@[j as int]@,
                    forall|a: int|
                        0 <= a < i ==>
                            (#[trigger] w.proficiencies[a]).character_id != w.proficiencies[j as int].character_id
                                || w.proficiencies[a].name != w.proficiencies[j as int].name,
                decreases j - i,
            {
                assert(w.proficiencies[i as int] == rows@[i as int]@);
                let twice = rows[i].character_id == rows[j].character_id
                    && same(rows[i].name.as_str(), rows[j].name.as_str());
                if twice {
                    assert(!(w.proficiencies[i as int].character_id != w.proficiencies[j as int].character_id
                        || w.proficiencies[i as int].name != w.proficiencies[j as int].name));
                    return false;
                }
                i = i + 1;
            }
            j = j + 1;
        }
        true
    }

    fn check_keys_resources(&self) -> (r: bool)
        ensures
            r == (forall|i: int, j: int|
                #![trigger self@.resources[i], self@.resources[j]]
                0 <= i < j < self@.resources.len() ==>
                    self@.resources[i].character_id != self@.resources[j].character_id
                    || self@.resources[i].name != self@.resources[j].name),
    {
        let ghost w = self@;
        let rows = &self.resources;
        let mut j: usize = 0;
        while j < rows.len()
            invariant
                j <= rows.len(),
                w == self@,
                rows@ == self.resources@,
                w.resources.len() == rows.len(),
                forall|a: int, b: int|
                    #![trigger w.resources[a], w.resources[b]]
                    0 <= a < b < j ==> w.resources[a].character_id != w.resources[b].character_id
                        || w.resources[a].name != w.resources[b].name,
            decreases rows.len() - j,
        {
            assert(w.resources[j as int] == rows@[j as int]@);
            let mut i: usize = 0;
            while i < j
                invariant
                    i <= j < rows.len(),
                    w == self@,
                    rows@ == self.resources@,
                    w.resources.len() == rows.len(),
                    w.resources[j as int] == rows@[j as int]@,
                    forall|a: int|
                        0 <= a < i ==>
                            (#[trigger] w.resources[a]).character_id != w.resources[j as int].character_id
                            || w.resources[a].name != w.resources[j as int].name,
                decreases j - i,
            {
                assert(w.resources[i as int] == rows@[i as int]@);
                let twice = rows[i].character_id == rows[j].character_id
                    && same(rows[i].name.as_str(), rows[j].name.as_str());
                if twice {
                    assert(!(w.resources[i as int].character_id != w.resources[j as int].character_id
                        || w.resources[i as int].name != w.resources[j as int].name));
                    return false;
                }
                i = i + 1;
            }
            j = j + 1;
        }
        true
    }

    fn check_keys_connections(&self) -> (r: bool)
        ensures
            r == (forall|i: int, j: int|
                #![trigger self@.connections[i], self@.connections[j]]
                0 <= i < j < self@.connections.len() ==>
                    self@.connections[i].from_zone_id != self@.connections[j].from_zone_id
                    || self@.connections[i].to_zone_id != self@.connections[j].to_zone_id),
    {
        let ghost w = self@;
        let rows = &self.connections;
        let mut j: usize = 0;
        while j < rows.len()
            invariant
                j <= rows.len(),
                w == self@,
                rows@ == self.connections@,
                w.connections.len() == rows.len(),
                forall|a: int, b: int|
                    #![trigger w.connections[a], w.connections[b]]
                    0 <= a < b < j ==> w.connections[a].from_zone_id != w.connections[b].from_zone_id
                        || w.connections[a].to_zone_id != w.connections[b].to_zone_id,
            decreases rows.len() - j,
        {
            assert(w.connections[j as int] == rows@[j as int]@);
            let mut i: usize = 0;
            while i < j
                invariant
                    i <= j < rows.len(),
                    w == self@,
                    rows@ == self.connections@,
                    w.connections.len() == rows.len(),
                    w.connections[j as int] == rows@[j as int]@,
                    forall|a: int|
                        0 <= a < i ==>
                            (#[trigger] w.connections[a]).from_zone_id != w.connections[j as int].from_zone_id
                                || w.connections[a].to_zone_id != w.connections[j as int].to_zone_id,
                decreases j - i,
            {
                assert(w.connections[i as int] == rows@[i as int]@);
                let twice = rows[i].from_zone_id == rows[j].from_zone_id
                    && rows[i].to_zone_id == rows[j].to_zone_id;
                if twice {
                    assert(!(w.connections[i as int].from_zone_id != w.connections[j as int].from_zone_id
                        || w.connections[i as int].to_zone_id != w.connections[j as int].to_zone_id));
                    return false;
                }
                i = i + 1;
            }
            j = j + 1;
        }
        true
    }

    fn check_keys_zone_knowledge(&self) -> (r: bool)
        ensures
            r == (forall|i: int, j: int|
                #![trigger self@.zone_knowledge[i], self@.zone_knowledge[j]]
                0 <= i < j < self@.zone_knowledge.len() ==>
                    self@.zone_knowledge[i].character_id != self@.zone_knowledge[j].character_id
                    || self@.zone_knowledge[i].zone_id != self@.zone_knowledge[j].zone_id),
    {
        let ghost w = self@;
        let rows = &self.zone_knowledge;
        let mut j: usize = 0;
        while j < rows.len()
            invariant
                j <= rows.len(),
                w == self@,
                rows@ == self.zone_knowledge@,
                w.zone_knowledge.len() == rows.len(),
                forall|a: int, b: int|
                    #![trigger w.zone_knowledge[a], w.zone_knowledge[b]]
                    0 <= a < b < j ==> w.zone_knowledge[a].character_id != w.zone_knowledge[b].character_id
                        || w.zone_knowledge[a].zone_id != w.zone_knowledge[b].zone_id,
            decreases rows.len() - j,
        {
            assert(w.zone_knowledge[j as int] == rows@[j as int]@);
            let mut i: usize = 0;
            while i < j
                invariant
                    i <= j < rows.len(),
                    w == self@,
                    rows@ == self.zone_knowledge@,
                    w.zone_knowledge.len() == rows.len(),
                    w.zone_knowledge[j as int] == rows@[j as int]@,
                    forall|a: int|
                        0 <= a < i ==>
                            (#[trigger] w.zone_knowledge[a]).character_id != w.zone_knowledge[j as int].character_id
                                || w.zone_knowledge[a].zone_id != w.zone_knowledge[j as int].zone_id,
                decreases j - i,
            {
                assert(w.zone_knowledge[i as int] == rows@[i as int]@);
                let twice = rows[i].character_id == rows[j].character_id && rows[i].zone_id == rows[j].zone_id;
                if twice {
                    assert(!(w.zone_knowledge[i as int].character_id != w.zone_knowledge[j as int].character_id
                        || w.zone_knowledge[i as int].zone_id != w.zone_knowledge[j as int].zone_id));
                    return false;
                }
                i = i + 1;
            }
            j = j + 1;
        }
        true
    }

    fn check_keys_landmark_knowledge(&self) -> (r: bool)
        ensures
            r == (forall|i: int, j: int|
                #![trigger self@.landmark_knowledge[i], self@.landmark_knowledge[j]]
                0 <= i < j < self@.landmark_knowledge.len() ==>
                    self@.landmark_knowledge[i].character_id != self@.landmark_knowledge[j].character_id
                    || self@.landmark_knowledge[i].landmark_id != self@.landmark_knowledge[j].landmark_id),
    {
        let ghost w = self@;
        let rows = &self.landmark_knowledge;
        let mut j: usize = 0;
        while j < rows.len()
            invariant
                j <= rows.len(),
                w == self@,
                rows@ == self.landmark_knowledge@,
                w.landmark_knowledge.len() == rows.len(),
                forall|a: int, b: int|
                    #![trigger w.landmark_knowledge[a], w.landmark_knowledge[b]]
                    0 <= a < b < j ==>
                        w.landmark_knowledge[a].character_id != w.landmark_knowledge[b].character_id
                        || w.landmark_knowledge[a].landmark_id != w.landmark_knowledge[b].landmark_id,
            decreases rows.len() - j,
        {
            assert(w.landmark_knowledge[j as int] == rows@[j as int]@);
            let mut i: usize = 0;
            while i < j
                invariant
                    i <= j < rows.len(),
                    w == self@,
                    rows@ == self.landmark_knowledge@,
                    w.landmark_knowledge.len() == rows.len(),
                    w.landmark_knowledge[j as int] == rows@[j as int]@,
                    forall|a: int|
                        0 <= a < i ==>
                            (#[trigger] w.landmark_knowledge[a]).character_id != w.landmark_knowledge[j as int].character_id
                                || w.landmark_knowledge[a].landmark_id != w.landmark_knowledge[j as int].landmark_id,
                decreases j - i,
            {
                assert(w.landmark_knowledge[i as int] == rows@[i as int]@);
                let twice = rows[i].character_id == rows[j].character_id
                    && rows[i].landmark_id == rows[j].landmark_id;
                if twice {
                    assert(!(w.landmark_knowledge[i as int].character_id != w.landmark_knowledge[j as int].character_id
                        || w.landmark_knowledge[i as int].landmark_id != w.landmark_knowledge[j as int].landmark_id));
                    return false;
                }
                i = i + 1;
            }
            j = j + 1;
        }
        true
    }

    fn check_keys_encounter_participants(&self) -> (r: bool)
        ensures
            r == (forall|i: int, j: int|
                #![trigger self@.encounter_participants[i], self@.encounter_participants[j]]
                0 <= i < j < self@.encounter_participants.len() ==>
                    self@.encounter_participants[i].encounter_id != self@.encounter_participants[j].encounter_id
                        || self@.encounter_participants[i].character_id != self@.encounter_participants[j].character_id),
    {
        let ghost w = self@;
        let rows = &self.encounter_participants;
        let mut j: usize = 0;
        while j < rows.len()
            invariant
                j <= rows.len(),
                w == self@,
                rows@ == self.encounter_participants@,
                w.encounter_participants.len() == rows.len(),
                forall|a: int, b: int|
                    #![trigger w.encounter_participants[a], w.encounter_participants[b]]
                    0 <= a < b < j ==>
                        w.encounter_participants[a].encounter_id != w.encounter_participants[b].encounter_id
                        || w.encounter_participants[a].character_id != w.encounter_participants[b].character_id,
            decreases rows.len() - j,
        {
            assert(w.encounter_participants[j as int] == rows@[j as int]@);
            let mut i: usize = 0;
            while i < j
                invariant
                    i <= j < rows.len(),
                    w == self@,
                    rows@ == self.encounter_participants@,
                    w.encounter_participants.len() == rows.len(),
                    w.encounter_participants[j as int] == rows@[j as int]@,
                    forall|a: int|
                        0 <= a < i ==>
                            (#[trigger] w.encounter_participants[a]).encounter_id != w.encounter_participants[j as int].encounter_id
                                || w.encounter_participants[a].character_id != w.encounter_participants[j as int].character_id,
                decreases j - i,
            {
                assert(w.encounter_participants[i as int] == rows@[i as int]@);
                let twice = rows[i].encounter_id == rows[j].encounter_id
                    && rows[i].character_id == rows[j].character_id;
                if twice {
                    assert(!(w.encounter_participants[i as int].encounter_id != w.encounter_participants[j as int].encounter_id
                        || w.encounter_participants[i as int].character_id != w.encounter_participants[j as int].character_id));
                    return false;
                }
                i = i + 1;
            }
            j = j + 1;
        }
        true
    }

    fn check_event(&self, e: &Event) -> (r: bool)
        ensures
            r == self@.event_ok(e@),
    {
        let ghost v: EventView = e@;
        if !has_opt(&self.zones, e.zone_id) || !has_opt(&self.encounters, e.encounter_id) || !has_opt(
            &self.events,
            e.parent_id,
        ) {
            return false;
        }
        let mut i: usize = 0;
        while i < e.participants.len()
            invariant
                i <= e.participants.len(),
                v == e@,
                v.participants == e.participants@,
                forall|j: int|
                    0 <= j < i ==> listed(self@.characters, (#[trigger] v.participants[j]).character_id),
            decreases e.participants.len() - i,
        {
            if !has_id(&self.characters, e.participants[i].character_id) {
                assert(!listed(self@.characters, v.participants[i as int].character_id));
                return false;
            }
            i = i + 1;
        }
        let mut k: usize = 0;
        while k < e.items.len()
            invariant
                k <= e.items.len(),
                v == e@,
                v.items == views(e.items@),
                forall|j: int| 0 <= j < k ==> listed(self@.items, (#[trigger] v.items[j]).item_id),
            decreases e.items.len() - k,
        {
            assert(v.items[k as int] == e.items@[k as int]@);
            if !has_id(&self.items, e.items[k].item_id) {
                assert(!listed(self@.items, v.items[k as int].item_id));
                return false;
            }
            k = k + 1;
        }
        true
    }

    fn check_each_events(&self) -> (r: bool)
        ensures
            r == (forall|i: int|
                0 <= i < self@.events.len() ==> self@.event_ok(#[trigger] self@.events[i])),
    {
        let ghost w = self@;
        let rows = &self.events;
        let mut i: usize = 0;
        while i < rows.len()
            invariant
                i <= rows.len(),
                w == self@,
                rows@ == self.events@,
                w.events.len() == rows.len(),
                forall|j: int|
                    0 <= j < i ==> w.event_ok(#[trigger] w.events[j]),
            decreases rows.len() - i,
        {
            let r = &rows[i];
            assert(w.events[i as int] == r@);
            let ok = self.check_event(r);
            if !ok {
                assert(!w.event_ok(w.events[i as int]));
                return false;
            }
            i = i + 1;
        }
        true
    }

    /// Whether the campaign is in order.
    pub fn check(&self) -> (r: bool)
        ensures
            r == self@.wf(),
    {
        reveal(World::wf);
        check_ordered(&self.parties) && check_ordered(&self.characters) && self.check_each_characters()
            && self.check_each_proficiencies() && self.check_keys_proficiencies()
            && self.check_each_resources() && self.check_keys_resources() && check_ordered(&self.conditions)
            && self.check_each_conditions() && check_ordered(&self.effects) && self.check_each_effects()
            && check_ordered(&self.items) && self.check_each_items() && check_ordered(&self.zones)
            && self.check_each_connections() && self.check_keys_connections() && check_ordered(
            &self.landmarks,
        ) && self.check_each_landmarks() && self.check_each_zone_knowledge()
            && self.check_keys_zone_knowledge() && self.check_each_landmark_knowledge()
            && self.check_keys_landmark_knowledge() && check_ordered(&self.encounters)
            && self.check_each_encounters() && self.check_each_encounter_participants()
            && self.check_keys_encounter_participants() && check_ordered(&self.events)
            && self.check_each_events() && has_opt(&self.characters, self.state.player_character_id)
    }

    fn check_hours(&self) -> (r: bool)
        ensures
            r == (forall|i: int|
                0 <= i < self@.events.len() ==> (#[trigger] self@.events[i]).campaign_hour <= HOUR_LIMIT),
    {
        let ghost w = self@;
        let mut i: usize = 0;
        while i < self.events.len()
            invariant
                i <= self.events.len(),
                w == self@,
                forall|j: int| 0 <= j < i ==> (#[trigger] w.events[j]).campaign_hour <= HOUR_LIMIT,
            decreases self.events.len() - i,
        {
            assert(w.events[i as int] == self.events@[i as int]@);
            if self.events[i].campaign_hour > HOUR_LIMIT {
                assert(w.events[i as int].campaign_hour > HOUR_LIMIT);
                return false;
            }
            i = i + 1;
        }
        true
    }

    fn check_rounds(&self) -> (r: bool)
        ensures
            r == (forall|i: int|
                0 <= i < self@.encounters.len() ==> (#[trigger] self@.encounters[i]).current_round != Some(
                    i32::MAX,
                )),
    {
        let ghost w = self@;
        let mut i: usize = 0;
        while i < self.encounters.len()
            invariant
                i <= self.encounters.len(),
                w == self@,
                forall|j: int| 0 <= j < i ==> (#[trigger] w.encounters[j]).current_round != Some(i32::MAX),
            decreases self.encounters.len() - i,
        {
            assert(w.encounters[i as int] == self.encounters@[i as int]@);
            let last = match self.encounters[i].current_round {
                Some(n) => n == 0x7fff_ffff,
                None => false,
            };
            if last {
                assert(w.encounters[i as int].current_round == Some(i32::MAX));
                return false;
            }
            i = i + 1;
        }
        true
    }

    fn check_experience(&self) -> (r: bool)
        ensures
            r == (forall|i: int|
                0 <= i < self@.characters.len() ==> (#[trigger] self@.characters[i]).xp_total <= HOUR_LIMIT),
    {
        let ghost w = self@;
        let mut i: usize = 0;
        while i < self.characters.len()
            invariant
                i <= self.characters.len(),
                w == self@,
                forall|j: int| 0 <= j < i ==> (#[trigger] w.characters[j]).xp_total <= HOUR_LIMIT,
            decreases self.characters.len() - i,
        {
            assert(w.characters[i as int] == self.characters@[i as int]@);
            if self.characters[i].xp_total > HOUR_LIMIT {
                assert(w.characters[i as int].xp_total > HOUR_LIMIT);
                return false;
            }
            i = i + 1;
        }
        true
    }

    /// Whether there are ids and hours left for what an operation adds.
    pub fn check_room(&self) -> (r: bool)
        ensures
            r == self@.room(),
    {
        last_id(&self.characters) <= ID_LIMIT && last_id(&self.conditions) <= ID_LIMIT && last_id(&self.effects)
            <= ID_LIMIT && last_id(&self.items) <= ID_LIMIT && last_id(&self.zones) <= ID_LIMIT && last_id(
            &self.landmarks,
        ) <= ID_LIMIT && last_id(&self.encounters) <= ID_LIMIT && last_id(&self.events) <= ID_LIMIT
            && self.check_hours() && self.check_rounds() && self.check_experience()
            && self.encounter_participants.len() < 0x7fff_ffff && self.zones.len() < 0x7fff_ffff
            && self.effects.len() < 0x7fff_ffff && self.items.len() < 0x7fff_ffff
    }
}

} // verus!
