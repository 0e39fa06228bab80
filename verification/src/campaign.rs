//! The campaign: its tables, what always holds of them, and the ways they change.

use vstd::prelude::*;
use crate::rows::{
    views, CampaignState, Character, Condition, Connection, Effect, Encounter, EncounterParticipant, Event,
    EventView, Item, Landmark, LandmarkKnowledge, Party, Place, Proficiency, Resource, Row, SetupAnswer,
    Stored, Zone, ZoneKnowledge,
};

verus! {

/// The campaign database in memory. Rows that have an id stand in the order of their ids.
#[derive(Debug, Clone, PartialEq, Eq)]
pub struct Campaign {
    /// Parties, by id.
    pub parties: Vec<Party>,
    /// Characters, by id.
    pub characters: Vec<Character>,
    /// What characters are trained in.
    pub proficiencies: Vec<Proficiency>,
    /// What characters spend and refill.
    pub resources: Vec<Resource>,
    /// Conditions, past ones too, by id.
    pub conditions: Vec<Condition>,
    /// Effects, past ones too, by id.
    pub effects: Vec<Effect>,
    /// Items, by id.
    pub items: Vec<Item>,
    /// Zones, by id.
    pub zones: Vec<Zone>,
    /// The ways between zones.
    pub connections: Vec<Connection>,
    /// Landmarks, by id.
    pub landmarks: Vec<Landmark>,
    /// What characters know of zones.
    pub zone_knowledge: Vec<ZoneKnowledge>,
    /// What characters know of landmarks.
    pub landmark_knowledge: Vec<LandmarkKnowledge>,
    /// Encounters, by id.
    pub encounters: Vec<Encounter>,
    /// Who takes part in which encounter.
    pub encounter_participants: Vec<EncounterParticipant>,
    /// The event log, by id.
    pub events: Vec<Event>,
    /// Answers to setup questions.
    pub answers: Vec<SetupAnswer>,
    pub state: CampaignState,
}

/// What a campaign holds.
#[verifier::ext_equal]
pub struct World {
    pub parties: Seq<Party>,
    pub characters: Seq<Character<Seq<char>>>,
    pub proficiencies: Seq<Proficiency<Seq<char>>>,
    pub resources: Seq<Resource<Seq<char>>>,
    pub conditions: Seq<Condition<Seq<char>>>,
    pub effects: Seq<Effect<Seq<char>>>,
    pub items: Seq<Item<Seq<char>>>,
    pub zones: Seq<Zone<Seq<char>>>,
    pub connections: Seq<Connection>,
    pub landmarks: Seq<Landmark<Seq<char>>>,
    pub zone_knowledge: Seq<ZoneKnowledge>,
    pub landmark_knowledge: Seq<LandmarkKnowledge>,
    pub encounters: Seq<Encounter<Seq<char>>>,
    pub encounter_participants: Seq<EncounterParticipant>,
    pub events: Seq<EventView>,
    pub answers: Seq<SetupAnswer<Seq<char>>>,
    pub state: CampaignState,
}

impl View for Campaign {
    type V = World;

    open spec fn view(&self) -> World {
        World {
            parties: views(self.parties@),
            characters: views(self.characters@),
            proficiencies: views(self.proficiencies@),
            resources: views(self.resources@),
            conditions: views(self.conditions@),
            effects: views(self.effects@),
            items: views(self.items@),
            zones: views(self.zones@),
            connections: views(self.connections@),
            landmarks: views(self.landmarks@),
            zone_knowledge: views(self.zone_knowledge@),
            landmark_knowledge: views(self.landmark_knowledge@),
            encounters: views(self.encounters@),
            encounter_participants: views(self.encounter_participants@),
            events: views(self.events@),
            answers: views(self.answers@),
            state: self.state,
        }
    }
}

/// Whether a row has this id.
pub open spec fn listed<R: Row>(rows: Seq<R>, id: i64) -> bool {
    exists|i: int| 0 <= i < rows.len() && (#[trigger] rows[i]).key() == id
}

/// Where the row with this id stands.
pub open spec fn index_of<R: Row>(rows: Seq<R>, id: i64) -> int {
    choose|i: int| 0 <= i < rows.len() && (#[trigger] rows[i]).key() == id
}

/// The row with this id.
pub open spec fn row<R: Row>(rows: Seq<R>, id: i64) -> R {
    rows[index_of(rows, id)]
}

/// The rows with `r` in place of the row that has its id.
pub open spec fn put<R: Row>(rows: Seq<R>, r: R) -> Seq<R> {
    rows.update(index_of(rows, r.key()), r)
}

/// The largest id in use, 0 where there is none.
pub open spec fn top<R: Row>(rows: Seq<R>) -> int {
    if rows.len() == 0 {
        0
    } else {
        rows.last().key() as int
    }
}

/// The id that the next row gets.
pub open spec fn next_id<R: Row>(rows: Seq<R>) -> i64 {
    (top(rows) + 1) as i64
}

/// Ids are positive and increase.
pub open spec fn ordered<R: Row>(rows: Seq<R>) -> bool {
    &&& forall|i: int| 0 <= i < rows.len() ==> (#[trigger] rows[i]).key() >= 1
    &&& forall|i: int, j: int|
        0 <= i < j < rows.len() ==> (#[trigger] rows[i]).key() < (#[trigger] rows[j]).key()
}

/// The largest id up to which rows are added.
pub const ID_LIMIT: i64 = 0x2000_0000_0000_0000;

/// The latest hour up to which the campaign goes on.
pub const HOUR_LIMIT: i64 = 0x2000_0000_0000_0000;

pub proof fn lemma_index<R: Row>(rows: Seq<R>, i: int)
    requires
        ordered(rows),
        0 <= i < rows.len(),
    ensures
        listed(rows, rows[i].key()),
        index_of(rows, rows[i].key()) == i,
{
    let id = rows[i].key();
    let k = index_of(rows, id);
    assert(0 <= k < rows.len() && rows[k].key() == id);
}

pub proof fn lemma_row<R: Row>(rows: Seq<R>, id: i64)
    requires
        listed(rows, id),
    ensures
        0 <= index_of(rows, id) < rows.len(),
        row(rows, id).key() == id,
        rows[index_of(rows, id)] == row(rows, id),
{
}

/// Distinct ids of rows are not more than the rows.
pub proof fn lemma_distinct<R: Row>(rows: Seq<R>, ids: Seq<i64>)
    requires
        ids.no_duplicates(),
        forall|k: int| 0 <= k < ids.len() ==> listed(rows, #[trigger] ids[k]),
    ensures
        ids.len() <= rows.len(),
{
    let all = Seq::new(rows.len(), |i: int| rows[i].key());
    assert forall|x: i64| ids.to_set().contains(x) implies all.to_set().contains(x) by {
        let k = choose|k: int| 0 <= k < ids.len() && ids[k] == x;
        assert(listed(rows, ids[k]));
        lemma_row(rows, x);
        assert(all[index_of(rows, x)] == x);
    }
    ids.unique_seq_to_set();
    all.lemma_cardinality_of_set();
    vstd::set_lib::lemma_len_subset(ids.to_set(), all.to_set());
}

/// Replacing a row by one with the same id keeps ids and order.
pub proof fn lemma_update<R: Row>(rows: Seq<R>, i: int, r: R)
    requires
        ordered(rows),
        0 <= i < rows.len(),
        r.key() == rows[i].key(),
    ensures
        ordered(rows.update(i, r)),
        put(rows, r) == rows.update(i, r),
        forall|id: i64| #[trigger] listed(rows.update(i, r), id) == listed(rows, id),
        index_of(rows.update(i, r), r.key()) == i,
        row(rows.update(i, r), r.key()) == r,
        top(rows.update(i, r)) == top(rows),
{
    lemma_index(rows, i);
    let s = rows.update(i, r);
    assert(ordered(s));
    lemma_index(s, i);
    assert forall|id: i64| #[trigger] listed(s, id) == listed(rows, id) by {
        if listed(s, id) {
            let k = index_of(s, id);
            assert(rows[k].key() == id);
        }
        if listed(rows, id) {
            let k = index_of(rows, id);
            assert(s[k].key() == id);
        }
    }
}

/// A new row with the next id comes last.
pub proof fn lemma_push<R: Row>(rows: Seq<R>, r: R)
    requires
        ordered(rows),
        top(rows) < i64::MAX,
        r.key() == next_id(rows),
    ensures
        ordered(rows.push(r)),
        top(rows.push(r)) == top(rows) + 1,
        next_id(rows) == top(rows) + 1,
        next_id(rows) >= 1,
        !listed(rows, r.key()),
        forall|id: i64| #[trigger] listed(rows.push(r), id) == (listed(rows, id) || id == r.key()),
        forall|id: i64| #[trigger] listed(rows, id) ==> index_of(rows.push(r), id) == index_of(rows, id),
        index_of(rows.push(r), r.key()) == rows.len(),
{
    let s = rows.push(r);
    assert(ordered(s));
    lemma_index(s, rows.len() as int);
    assert forall|id: i64| #[trigger] listed(s, id) == (listed(rows, id) || id == r.key()) by {
        if listed(s, id) {
            let k = index_of(s, id);
            if k < rows.len() {
                assert(rows[k].key() == id);
            }
        }
        if listed(rows, id) {
            let k = index_of(rows, id);
            assert(s[k].key() == id);
        }
    }
    assert forall|id: i64| #[trigger] listed(rows, id) implies index_of(s, id) == index_of(rows, id) by {
        let k = index_of(rows, id);
        assert(s[k].key() == id);
        lemma_index(s, k);
    }
}

/// There are no more rows than the last id says.
pub proof fn lemma_len<R: Row>(rows: Seq<R>)
    requires
        ordered(rows),
    ensures
        rows.len() <= top(rows),
    decreases rows.len(),
{
    if rows.len() > 1 {
        let s = rows.drop_last();
        assert(ordered(s)) by {
            assert forall|i: int| 0 <= i < s.len() implies (#[trigger] s[i]).key() >= 1 by {
                assert(s[i] == rows[i]);
            }
            assert forall|i: int, j: int|
                0 <= i < j < s.len() implies (#[trigger] s[i]).key() < (#[trigger] s[j]).key() by {
                assert(s[i] == rows[i] && s[j] == rows[j]);
            }
        }
        lemma_len(s);
        assert(rows[rows.len() - 2].key() < rows[rows.len() - 1].key());
    }
}

/// Where the row with this id stands.
pub fn find<T: Stored>(rows: &Vec<T>, id: i64) -> (r: Option<usize>) where T::V: Row
    requires
        ordered(views(rows@)),
    ensures
        r is Some == listed(views(rows@), id),
        r matches Some(i) ==> {
            &&& i < rows.len()
            &&& index_of(views(rows@), id) == i
            &&& row(views(rows@), id) == rows@[i as int]@
            &&& rows@[i as int]@.key() == id
        },
{
    let mut i: usize = 0;
    while i < rows.len()
        invariant
            i <= rows.len(),
            ordered(views(rows@)),
            forall|j: int| 0 <= j < i ==> (#[trigger] views(rows@)[j]).key() != id,
        decreases rows.len() - i,
    {
        proof {
            rows@[i as int].lemma_key();
            assert(views(rows@)[i as int] == rows@[i as int]@);
        }
        if rows[i].row_id() == id {
            proof {
                lemma_index(views(rows@), i as int);
            }
            return Some(i);
        }
        i = i + 1;
    }
    None
}

/// The id that the next row gets.
pub fn fresh_id<T: Stored>(rows: &Vec<T>) -> (r: i64) where T::V: Row
    requires
        top(views(rows@)) < i64::MAX,
    ensures
        r == next_id(views(rows@)),
{
    let n: usize = rows.len();
    if n == 0 {
        1
    } else {
        proof {
            rows@[n - 1].lemma_key();
            assert(views(rows@).last() == rows@[n - 1]@);
        }
        rows[n - 1].row_id() + 1
    }
}

fn replace<T: View>(rows: &mut Vec<T>, i: usize, r: T)
    requires
        i < old(rows).len(),
    ensures
        views(final(rows)@) == views(old(rows)@).update(i as int, r@),
        final(rows)@ == old(rows)@.update(i as int, r),
{
    let ghost before = rows@;
    rows.set(i, r);
    assert(views(rows@) =~= views(before).update(i as int, r@));
}

fn append<T: View>(rows: &mut Vec<T>, r: T)
    ensures
        views(final(rows)@) == views(old(rows)@).push(r@),
        final(rows)@ == old(rows)@.push(r),
{
    let ghost before = rows@;
    rows.push(r);
    assert(views(rows@) =~= views(before).push(r@));
}

/// The longest text, in bytes, that an entry of the log keeps as its summary.
pub const MAX_SUMMARY_BYTES: usize = 1024;

/// How many bytes a character takes in UTF-8.
pub open spec fn char_bytes(c: char) -> nat {
    if (c as u32) < 0x80 {
        1
    } else if (c as u32) < 0x800 {
        2
    } else if (c as u32) < 0x10000 {
        3
    } else {
        4
    }
}

/// How many bytes a text takes in UTF-8.
pub open spec fn byte_len(s: Seq<char>) -> nat
    decreases s.len(),
{
    if s.len() == 0 {
        0
    } else {
        char_bytes(s[0]) + byte_len(s.skip(1))
    }
}

/// How many characters of the text fit into `n` bytes.
pub open spec fn fitting(s: Seq<char>, n: int) -> nat
    decreases s.len(),
{
    if s.len() == 0 || char_bytes(s[0]) > n {
        0
    } else {
        1 + fitting(s.skip(1), n - char_bytes(s[0]))
    }
}

/// The text itself where it is short enough, else its beginning and an ellipsis.
pub open spec fn capped(s: Seq<char>) -> Seq<char> {
    if byte_len(s) <= MAX_SUMMARY_BYTES {
        s
    } else {
        s.take(fitting(s, MAX_SUMMARY_BYTES - 3) as int) + "…"@
    }
}

impl World {
    pub open spec fn zone_ref(self, id: Option<i64>) -> bool {
        id matches Some(z) ==> listed(self.zones, z)
    }

    /// The bounds on a character's own numbers, and that its party and zone exist.
    pub open spec fn character_ok(self, r: Character<Seq<char>>) -> bool {
        &&& 0 <= r.loyalty <= 100
        &&& 0 <= r.death_save_successes <= 3
        &&& 0 <= r.death_save_failures <= 3
        &&& 0 <= r.hp_current <= r.hp_max
        &&& 1 <= r.hp_max
        &&& -20 <= r.initiative_bonus <= 20
        &&& self.zone_ref(r.current_zone_id)
        &&& (r.party_id matches Some(p) ==> listed(self.parties, p))
    }

    /// An item exists at least once, and where it is exists.
    pub open spec fn item_ok(self, r: Item<Seq<char>>) -> bool {
        &&& r.quantity >= 1
        &&& match r.place {
            Place::Holder(c) => listed(self.characters, c),
            Place::Container(i) => listed(self.items, i),
            Place::Zone(z) => listed(self.zones, z),
        }
    }

    /// What an event refers to exists.
    pub open spec fn event_ok(self, e: EventView) -> bool {
        &&& self.zone_ref(e.zone_id)
        &&& (e.encounter_id matches Some(n) ==> listed(self.encounters, n))
        &&& (e.parent_id matches Some(n) ==> listed(self.events, n))
        &&& forall|i: int|
            0 <= i < e.participants.len() ==> listed(
                self.characters,
                (#[trigger] e.participants[i]).character_id,
            )
        &&& forall|i: int| 0 <= i < e.items.len() ==> listed(self.items, (#[trigger] e.items[i]).item_id)
    }

    /// An encounter costs nobody experience, and its zone exists.
    pub open spec fn encounter_ok(self, r: Encounter<Seq<char>>) -> bool {
        r.xp_budget >= 0 && self.zone_ref(r.zone_id)
    }

    pub open spec fn connection_ok(self, r: Connection) -> bool {
        &&& r.travel_time_hours >= 0
        &&& listed(self.zones, r.from_zone_id)
        &&& listed(self.zones, r.to_zone_id)
    }

    pub open spec fn parties_ok(self) -> bool {
        ordered(self.parties)
    }

    pub open spec fn characters_ok(self) -> bool {
        &&& ordered(self.characters)
        &&& forall|i: int| 0 <= i < self.characters.len() ==> self.character_ok(#[trigger] self.characters[i])
    }

    pub open spec fn proficiencies_ok(self) -> bool {
        &&& forall|i: int|
            0 <= i < self.proficiencies.len() ==> listed(
                self.characters,
                (#[trigger] self.proficiencies[i]).character_id,
            )
        &&& forall|i: int, j: int|
            #![trigger self.proficiencies[i], self.proficiencies[j]]
            0 <= i < j < self.proficiencies.len() ==> self.proficiencies[i].character_id
                != self.proficiencies[j].character_id || self.proficiencies[i].name
                != self.proficiencies[j].name
    }

    pub open spec fn resources_ok(self) -> bool {
        &&& forall|i: int|
            0 <= i < self.resources.len() ==> {
                &&& listed(self.characters, (#[trigger] self.resources[i]).character_id)
                &&& 0 <= self.resources[i].current <= self.resources[i].max
            }
        &&& forall|i: int, j: int|
            #![trigger self.resources[i], self.resources[j]]
            0 <= i < j < self.resources.len() ==> self.resources[i].character_id
                != self.resources[j].character_id || self.resources[i].name != self.resources[j].name
    }

    pub open spec fn conditions_ok(self) -> bool {
        &&& ordered(self.conditions)
        &&& forall|i: int|
            0 <= i < self.conditions.len() ==> listed(
                self.characters,
                (#[trigger] self.conditions[i]).character_id,
            )
    }

    pub open spec fn effects_ok(self) -> bool {
        &&& ordered(self.effects)
        &&& forall|i: int|
            0 <= i < self.effects.len() ==> listed(
                self.characters,
                (#[trigger] self.effects[i]).target_character_id,
            )
    }

    pub open spec fn items_ok(self) -> bool {
        &&& ordered(self.items)
        &&& forall|i: int| 0 <= i < self.items.len() ==> self.item_ok(#[trigger] self.items[i])
    }

    pub open spec fn zones_ok(self) -> bool {
        ordered(self.zones)
    }

    pub open spec fn connections_ok(self) -> bool {
        &&& forall|i: int| 0 <= i < self.connections.len() ==>
            self.connection_ok(#[trigger] self.connections[i])
        &&& forall|i: int, j: int|
            #![trigger self.connections[i], self.connections[j]]
            0 <= i < j < self.connections.len() ==> self.connections[i].from_zone_id
                != self.connections[j].from_zone_id || self.connections[i].to_zone_id
                != self.connections[j].to_zone_id
    }

    pub open spec fn landmarks_ok(self) -> bool {
        &&& ordered(self.landmarks)
        &&& forall|i: int|
            0 <= i < self.landmarks.len() ==> listed(self.zones, (#[trigger] self.landmarks[i]).zone_id)
    }

    pub open spec fn zone_knowledge_ok(self) -> bool {
        &&& forall|i: int|
            0 <= i < self.zone_knowledge.len() ==> {
                &&& listed(self.characters, (#[trigger] self.zone_knowledge[i]).character_id)
                &&& listed(self.zones, self.zone_knowledge[i].zone_id)
            }
        &&& forall|i: int, j: int|
            #![trigger self.zone_knowledge[i], self.zone_knowledge[j]]
            0 <= i < j < self.zone_knowledge.len() ==> self.zone_knowledge[i].character_id
                != self.zone_knowledge[j].character_id || self.zone_knowledge[i].zone_id
                != self.zone_knowledge[j].zone_id
    }

    pub open spec fn landmark_knowledge_ok(self) -> bool {
        &&& forall|i: int|
            0 <= i < self.landmark_knowledge.len() ==> {
                &&& listed(self.characters, (#[trigger] self.landmark_knowledge[i]).character_id)
                &&& listed(self.landmarks, self.landmark_knowledge[i].landmark_id)
            }
        &&& forall|i: int, j: int|
            #![trigger self.landmark_knowledge[i], self.landmark_knowledge[j]]
            0 <= i < j < self.landmark_knowledge.len() ==> self.landmark_knowledge[i].character_id
                != self.landmark_knowledge[j].character_id || self.landmark_knowledge[i].landmark_id
                != self.landmark_knowledge[j].landmark_id
    }

    pub open spec fn encounters_ok(self) -> bool {
        &&& ordered(self.encounters)
        &&& forall|i: int| 0 <= i < self.encounters.len() ==> self.encounter_ok(#[trigger] self.encounters[i])
    }

    pub open spec fn encounter_participants_ok(self) -> bool {
        &&& forall|i: int|
            0 <= i < self.encounter_participants.len() ==> {
                &&& listed(self.encounters, (#[trigger] self.encounter_participants[i]).encounter_id)
                &&& listed(self.characters, self.encounter_participants[i].character_id)
            }
        &&& forall|i: int, j: int|
            #![trigger self.encounter_participants[i], self.encounter_participants[j]]
            0 <= i < j < self.encounter_participants.len() ==> self.encounter_participants[i].encounter_id
                != self.encounter_participants[j].encounter_id
                || self.encounter_participants[i].character_id
                != self.encounter_participants[j].character_id
    }

    pub open spec fn events_ok(self) -> bool {
        &&& ordered(self.events)
        &&& forall|i: int| 0 <= i < self.events.len() ==> self.event_ok(#[trigger] self.events[i])
    }

    pub open spec fn state_ok(self) -> bool {
        self.state.player_character_id matches Some(p) ==> listed(self.characters, p)
    }

    /// What always holds of a campaign: ids are in order, keys are unique, numbers are
    /// within their bounds, and whatever a row refers to exists.
    #[verifier::opaque]
    pub open spec fn wf(self) -> bool {
        &&& self.parties_ok()
        &&& self.characters_ok()
        &&& self.proficiencies_ok()
        &&& self.resources_ok()
        &&& self.conditions_ok()
        &&& self.effects_ok()
        &&& self.items_ok()
        &&& self.zones_ok()
        &&& self.connections_ok()
        &&& self.landmarks_ok()
        &&& self.zone_knowledge_ok()
        &&& self.landmark_knowledge_ok()
        &&& self.encounters_ok()
        &&& self.encounter_participants_ok()
        &&& self.events_ok()
        &&& self.state_ok()
    }

    /// There are ids and hours left for what an operation adds.
    pub open spec fn room(self) -> bool {
        &&& top(self.characters) <= ID_LIMIT
        &&& top(self.conditions) <= ID_LIMIT
        &&& top(self.effects) <= ID_LIMIT
        &&& top(self.items) <= ID_LIMIT
        &&& top(self.zones) <= ID_LIMIT
        &&& top(self.landmarks) <= ID_LIMIT
        &&& top(self.encounters) <= ID_LIMIT
        &&& top(self.events) <= ID_LIMIT
        &&& forall|i: int|
            0 <= i < self.events.len() ==> (#[trigger] self.events[i]).campaign_hour <= HOUR_LIMIT
        &&& forall|i: int|
            0 <= i < self.encounters.len() ==> (#[trigger] self.encounters[i]).current_round != Some(i32::MAX)
        &&& forall|i: int|
            0 <= i < self.characters.len() ==> (#[trigger] self.characters[i]).xp_total <= HOUR_LIMIT
        &&& self.encounter_participants.len() < i32::MAX
        &&& self.zones.len() < i32::MAX
        &&& self.effects.len() < i32::MAX
        &&& self.items.len() < i32::MAX
    }

    /// The log with one more entry, whose id is the next one and whose summary is capped.
    pub open spec fn with_event(self, e: EventView) -> World {
        World {
            events: self.events.push(
                EventView { id: next_id(self.events), summary: capped(e.summary), ..e },
            ),
            ..self
        }
    }
}

/// Every id of `a` is an id of `b`.
pub open spec fn grows(a: World, b: World) -> bool {
    &&& forall|id: i64| listed(a.parties, id) ==> #[trigger] listed(b.parties, id)
    &&& forall|id: i64| listed(a.characters, id) ==> #[trigger] listed(b.characters, id)
    &&& forall|id: i64| listed(a.conditions, id) ==> #[trigger] listed(b.conditions, id)
    &&& forall|id: i64| listed(a.effects, id) ==> #[trigger] listed(b.effects, id)
    &&& forall|id: i64| listed(a.items, id) ==> #[trigger] listed(b.items, id)
    &&& forall|id: i64| listed(a.zones, id) ==> #[trigger] listed(b.zones, id)
    &&& forall|id: i64| listed(a.landmarks, id) ==> #[trigger] listed(b.landmarks, id)
    &&& forall|id: i64| listed(a.encounters, id) ==> #[trigger] listed(b.encounters, id)
    &&& forall|id: i64| listed(a.events, id) ==> #[trigger] listed(b.events, id)
}

/// Where ids only come in addition, the tables that stay as they are stay in order.
pub proof fn lemma_wf(a: World, b: World)
    requires
        a.wf(),
        grows(a, b),
        b.parties == a.parties || b.parties_ok(),
        b.characters == a.characters || b.characters_ok(),
        b.proficiencies == a.proficiencies || b.proficiencies_ok(),
        b.resources == a.resources || b.resources_ok(),
        b.conditions == a.conditions || b.conditions_ok(),
        b.effects == a.effects || b.effects_ok(),
        b.items == a.items || b.items_ok(),
        b.zones == a.zones || b.zones_ok(),
        b.connections == a.connections || b.connections_ok(),
        b.landmarks == a.landmarks || b.landmarks_ok(),
        b.zone_knowledge == a.zone_knowledge || b.zone_knowledge_ok(),
        b.landmark_knowledge == a.landmark_knowledge || b.landmark_knowledge_ok(),
        b.encounters == a.encounters || b.encounters_ok(),
        b.encounter_participants == a.encounter_participants || b.encounter_participants_ok(),
        b.events == a.events || b.events_ok(),
        b.state == a.state || b.state_ok(),
    ensures
        b.wf(),
{
    reveal(World::wf);
    if b.events == a.events {
        assert forall|i: int| 0 <= i < b.events.len() implies b.event_ok(#[trigger] b.events[i]) by {
            assert(a.event_ok(a.events[i]));
        }
    }
    if b.characters == a.characters {
        assert forall|i: int| 0 <= i < b.characters.len() implies b.character_ok(#[trigger] b.characters[i]) by {
            assert(a.character_ok(a.characters[i]));
        }
    }
    if b.items == a.items {
        assert forall|i: int| 0 <= i < b.items.len() implies b.item_ok(#[trigger] b.items[i]) by {
            assert(a.item_ok(a.items[i]));
        }
    }
    if b.encounters == a.encounters {
        assert forall|i: int| 0 <= i < b.encounters.len() implies b.encounter_ok(#[trigger] b.encounters[i]) by {
            assert(a.encounter_ok(a.encounters[i]));
        }
    }
    if b.connections == a.connections {
        assert forall|i: int| 0 <= i < b.connections.len() implies b.connection_ok(
            #[trigger] b.connections[i],
        ) by {
            assert(a.connection_ok(a.connections[i]));
        }
    }
}

/// What the truth of `wf` says of single tables and rows.
pub proof fn lemma_tables(w: World)
    requires
        w.wf(),
    ensures
        ordered(w.parties),
        ordered(w.characters),
        ordered(w.conditions),
        ordered(w.effects),
        ordered(w.items),
        ordered(w.zones),
        ordered(w.landmarks),
        ordered(w.encounters),
        ordered(w.events),
{
    reveal(World::wf);
}

pub proof fn lemma_character(w: World, id: i64)
    requires
        w.wf(),
        listed(w.characters, id),
    ensures
        w.character_ok(row(w.characters, id)),
        row(w.characters, id).id == id,
        0 <= index_of(w.characters, id) < w.characters.len(),
{
    reveal(World::wf);
    lemma_row(w.characters, id);
}

pub proof fn lemma_item(w: World, id: i64)
    requires
        w.wf(),
        listed(w.items, id),
    ensures
        w.item_ok(row(w.items, id)),
        row(w.items, id).id == id,
        0 <= index_of(w.items, id) < w.items.len(),
{
    reveal(World::wf);
    lemma_row(w.items, id);
}

pub proof fn lemma_encounter(w: World, id: i64)
    requires
        w.wf(),
        listed(w.encounters, id),
    ensures
        w.encounter_ok(row(w.encounters, id)),
        row(w.encounters, id).id == id,
        0 <= index_of(w.encounters, id) < w.encounters.len(),
{
    reveal(World::wf);
    lemma_row(w.encounters, id);
}

impl Campaign {
    /// Adds a character under the next id.
    pub(crate) fn add_character(&mut self, r: Character) -> (id: i64)
        requires
            old(self)@.wf(),
            top(old(self)@.characters) < i64::MAX,
            old(self)@.character_ok(r@),
        ensures
            id == next_id(old(self)@.characters),
            final(self)@ == (World {
                characters: old(self)@.characters.push(Character { id, ..r@ }),
                ..old(self)@
            }),
            final(self)@.wf(),
            top(final(self)@.characters) == top(old(self)@.characters) + 1,
            listed(final(self)@.characters, id),
    {
        let ghost a = self@;
        let id: i64 = fresh_id(&self.characters);
        let fresh = Character { id, ..r };
        append(&mut self.characters, fresh);
        proof {
            reveal(World::wf);
            lemma_push(a.characters, fresh@);
            assert(self@ =~= World { characters: a.characters.push(fresh@), ..a });
            lemma_wf(a, self@);
        }
        id
    }

    /// Puts a character in the place of the one with the same id.
    pub(crate) fn set_character(&mut self, i: usize, r: Character)
        requires
            old(self)@.wf(),
            i < old(self).characters.len(),
            r@.id == old(self)@.characters[i as int].id,
            old(self)@.character_ok(r@),
        ensures
            final(self)@ == (World { characters: put(old(self)@.characters, r@), ..old(self)@ }),
            final(self)@.wf(),
            index_of(old(self)@.characters, r@.id) == i,
            final(self)@.characters == old(self)@.characters.update(i as int, r@),
            forall|id: i64| #[trigger] listed(final(self)@.characters, id) == listed(old(self)@.characters, id),
            row(final(self)@.characters, r@.id) == r@,
            r@.xp_total <= HOUR_LIMIT && old(self)@.room() ==> final(self)@.room(),
    {
        let ghost a = self@;
        let ghost v = r@;
        replace(&mut self.characters, i, r);
        proof {
            reveal(World::wf);
            lemma_update(a.characters, i as int, v);
            lemma_index(a.characters, i as int);
            assert(self@ =~= World { characters: a.characters.update(i as int, v), ..a });
            lemma_wf(a, self@);
        }
    }

    /// Adds a condition under the next id.
    pub(crate) fn add_condition(&mut self, r: Condition) -> (id: i64)
        requires
            old(self)@.wf(),
            top(old(self)@.conditions) < i64::MAX,
            listed(old(self)@.characters, r@.character_id),
        ensures
            id == next_id(old(self)@.conditions),
            final(self)@ == (World {
                conditions: old(self)@.conditions.push(Condition { id, ..r@ }),
                ..old(self)@
            }),
            final(self)@.wf(),
            top(final(self)@.conditions) == top(old(self)@.conditions) + 1,
            listed(final(self)@.conditions, id),
    {
        let ghost a = self@;
        let id: i64 = fresh_id(&self.conditions);
        let fresh = Condition { id, ..r };
        append(&mut self.conditions, fresh);
        proof {
            reveal(World::wf);
            lemma_push(a.conditions, fresh@);
            assert(self@ =~= World { conditions: a.conditions.push(fresh@), ..a });
            lemma_wf(a, self@);
        }
        id
    }

    /// Puts a condition in the place of the one with the same id.
    pub(crate) fn set_condition(&mut self, i: usize, r: Condition)
        requires
            old(self)@.wf(),
            i < old(self).conditions.len(),
            r@.id == old(self)@.conditions[i as int].id,
            listed(old(self)@.characters, r@.character_id),
        ensures
            final(self)@ == (World { conditions: put(old(self)@.conditions, r@), ..old(self)@ }),
            final(self)@.wf(),
            index_of(old(self)@.conditions, r@.id) == i,
            final(self)@.conditions == old(self)@.conditions.update(i as int, r@),
            forall|id: i64| #[trigger] listed(final(self)@.conditions, id) == listed(old(self)@.conditions, id),
            row(final(self)@.conditions, r@.id) == r@,
            final(self)@.room() == old(self)@.room(),
    {
        let ghost a = self@;
        let ghost v = r@;
        replace(&mut self.conditions, i, r);
        proof {
            reveal(World::wf);
            lemma_update(a.conditions, i as int, v);
            lemma_index(a.conditions, i as int);
            assert(self@ =~= World { conditions: a.conditions.update(i as int, v), ..a });
            lemma_wf(a, self@);
        }
    }

    /// Adds an effect under the next id.
    pub(crate) fn add_effect(&mut self, r: Effect) -> (id: i64)
        requires
            old(self)@.wf(),
            top(old(self)@.effects) < i64::MAX,
            listed(old(self)@.characters, r@.target_character_id),
        ensures
            id == next_id(old(self)@.effects),
            final(self)@ == (World {
                effects: old(self)@.effects.push(Effect { id, ..r@ }),
                ..old(self)@
            }),
            final(self)@.wf(),
            top(final(self)@.effects) == top(old(self)@.effects) + 1,
            listed(final(self)@.effects, id),
    {
        let ghost a = self@;
        let id: i64 = fresh_id(&self.effects);
        let fresh = Effect { id, ..r };
        append(&mut self.effects, fresh);
        proof {
            reveal(World::wf);
            lemma_push(a.effects, fresh@);
            assert(self@ =~= World { effects: a.effects.push(fresh@), ..a });
            lemma_wf(a, self@);
        }
        id
    }

    /// Puts an effect in the place of the one with the same id.
    pub(crate) fn set_effect(&mut self, i: usize, r: Effect)
        requires
            old(self)@.wf(),
            i < old(self).effects.len(),
            r@.id == old(self)@.effects[i as int].id,
            listed(old(self)@.characters, r@.target_character_id),
        ensures
            final(self)@ == (World { effects: put(old(self)@.effects, r@), ..old(self)@ }),
            final(self)@.wf(),
            index_of(old(self)@.effects, r@.id) == i,
            final(self)@.effects == old(self)@.effects.update(i as int, r@),
            forall|id: i64| #[trigger] listed(final(self)@.effects, id) == listed(old(self)@.effects, id),
            row(final(self)@.effects, r@.id) == r@,
            final(self)@.room() == old(self)@.room(),
    {
        let ghost a = self@;
        let ghost v = r@;
        replace(&mut self.effects, i, r);
        proof {
            reveal(World::wf);
            lemma_update(a.effects, i as int, v);
            lemma_index(a.effects, i as int);
            assert(self@ =~= World { effects: a.effects.update(i as int, v), ..a });
            lemma_wf(a, self@);
        }
    }

    /// Adds an item under the next id.
    pub(crate) fn add_item(&mut self, r: Item) -> (id: i64)
        requires
            old(self)@.wf(),
            top(old(self)@.items) < i64::MAX,
            old(self)@.item_ok(r@),
        ensures
            id == next_id(old(self)@.items),
            final(self)@ == (World {
                items: old(self)@.items.push(Item { id, ..r@ }),
                ..old(self)@
            }),
            final(self)@.wf(),
            top(final(self)@.items) == top(old(self)@.items) + 1,
            listed(final(self)@.items, id),
    {
        let ghost a = self@;
        let id: i64 = fresh_id(&self.items);
        let fresh = Item { id, ..r };
        append(&mut self.items, fresh);
        proof {
            reveal(World::wf);
            lemma_push(a.items, fresh@);
            assert(self@ =~= World { items: a.items.push(fresh@), ..a });
            lemma_wf(a, self@);
        }
        id
    }

    /// Puts an item in the place of the one with the same id.
    pub(crate) fn set_item(&mut self, i: usize, r: Item)
        requires
            old(self)@.wf(),
            i < old(self).items.len(),
            r@.id == old(self)@.items[i as int].id,
            old(self)@.item_ok(r@),
        ensures
            final(self)@ == (World { items: put(old(self)@.items, r@), ..old(self)@ }),
            final(self)@.wf(),
            index_of(old(self)@.items, r@.id) == i,
            final(self)@.items == old(self)@.items.update(i as int, r@),
            forall|id: i64| #[trigger] listed(final(self)@.items, id) == listed(old(self)@.items, id),
            row(final(self)@.items, r@.id) == r@,
            final(self)@.room() == old(self)@.room(),
    {
        let ghost a = self@;
        let ghost v = r@;
        replace(&mut self.items, i, r);
        proof {
            reveal(World::wf);
            lemma_update(a.items, i as int, v);
            lemma_index(a.items, i as int);
            assert(self@ =~= World { items: a.items.update(i as int, v), ..a });
            lemma_wf(a, self@);
        }
    }

    /// Adds a zone under the next id.
    pub(crate) fn add_zone(&mut self, r: Zone) -> (id: i64)
        requires
            old(self)@.wf(),
            top(old(self)@.zones) < i64::MAX,
        ensures
            id == next_id(old(self)@.zones),
            final(self)@ == (World {
                zones: old(self)@.zones.push(Zone { id, ..r@ }),
                ..old(self)@
            }),
            final(self)@.wf(),
            top(final(self)@.zones) == top(old(self)@.zones) + 1,
            listed(final(self)@.zones, id),
    {
        let ghost a = self@;
        let id: i64 = fresh_id(&self.zones);
        let fresh = Zone { id, ..r };
        append(&mut self.zones, fresh);
        proof {
            reveal(World::wf);
            lemma_push(a.zones, fresh@);
            assert(self@ =~= World { zones: a.zones.push(fresh@), ..a });
            lemma_wf(a, self@);
        }
        id
    }

    /// Adds a landmark under the next id.
    pub(crate) fn add_landmark(&mut self, r: Landmark) -> (id: i64)
        requires
            old(self)@.wf(),
            top(old(self)@.landmarks) < i64::MAX,
            listed(old(self)@.zones, r@.zone_id),
        ensures
            id == next_id(old(self)@.landmarks),
            final(self)@ == (World {
                landmarks: old(self)@.landmarks.push(Landmark { id, ..r@ }),
                ..old(self)@
            }),
            final(self)@.wf(),
            top(final(self)@.landmarks) == top(old(self)@.landmarks) + 1,
            listed(final(self)@.landmarks, id),
    {
        let ghost a = self@;
        let id: i64 = fresh_id(&self.landmarks);
        let fresh = Landmark { id, ..r };
        append(&mut self.landmarks, fresh);
        proof {
            reveal(World::wf);
            lemma_push(a.landmarks, fresh@);
            assert(self@ =~= World { landmarks: a.landmarks.push(fresh@), ..a });
            lemma_wf(a, self@);
        }
        id
    }

    /// Adds an encounter under the next id.
    pub(crate) fn add_encounter(&mut self, r: Encounter) -> (id: i64)
        requires
            old(self)@.wf(),
            top(old(self)@.encounters) < i64::MAX,
            old(self)@.encounter_ok(r@),
        ensures
            id == next_id(old(self)@.encounters),
            final(self)@ == (World {
                encounters: old(self)@.encounters.push(Encounter { id, ..r@ }),
                ..old(self)@
            }),
            final(self)@.wf(),
            top(final(self)@.encounters) == top(old(self)@.encounters) + 1,
            listed(final(self)@.encounters, id),
    {
        let ghost a = self@;
        let id: i64 = fresh_id(&self.encounters);
        let fresh = Encounter { id, ..r };
        append(&mut self.encounters, fresh);
        proof {
            reveal(World::wf);
            lemma_push(a.encounters, fresh@);
            assert(self@ =~= World { encounters: a.encounters.push(fresh@), ..a });
            lemma_wf(a, self@);
        }
        id
    }

    /// Puts an encounter in the place of the one with the same id.
    pub(crate) fn set_encounter(&mut self, i: usize, r: Encounter)
        requires
            old(self)@.wf(),
            i < old(self).encounters.len(),
            r@.id == old(self)@.encounters[i as int].id,
            old(self)@.encounter_ok(r@),
        ensures
            final(self)@ == (World { encounters: put(old(self)@.encounters, r@), ..old(self)@ }),
            final(self)@.wf(),
            index_of(old(self)@.encounters, r@.id) == i,
            final(self)@.encounters == old(self)@.encounters.update(i as int, r@),
            forall|id: i64| #[trigger] listed(final(self)@.encounters, id) == listed(old(self)@.encounters, id),
            row(final(self)@.encounters, r@.id) == r@,
            r@.current_round != Some(i32::MAX) && old(self)@.room() ==> final(self)@.room(),
    {
        let ghost a = self@;
        let ghost v = r@;
        replace(&mut self.encounters, i, r);
        proof {
            reveal(World::wf);
            lemma_update(a.encounters, i as int, v);
            lemma_index(a.encounters, i as int);
            assert(self@ =~= World { encounters: a.encounters.update(i as int, v), ..a });
            lemma_wf(a, self@);
        }
    }

    /// Adds what a character is trained in.
    pub(crate) fn push_proficiency(&mut self, r: Proficiency)
        requires
            old(self)@.wf(),
            listed(old(self)@.characters, r@.character_id),
            forall|k: int|
                0 <= k < old(self)@.proficiencies.len() ==>
                    !((#[trigger] old(self)@.proficiencies[k]).character_id == r@.character_id
                    && old(self)@.proficiencies[k].name == r@.name),
        ensures
            final(self)@ == (World { proficiencies: old(self)@.proficiencies.push(r@), ..old(self)@ }),
            final(self)@.wf(),
            final(self)@.room() == old(self)@.room(),
    {
        let ghost a = self@;
        let ghost v = r@;
        append(&mut self.proficiencies, r);
        proof {
            reveal(World::wf);
            assert(self@ =~= World { proficiencies: a.proficiencies.push(v), ..a });
            lemma_wf(a, self@);
        }
    }

    /// Puts what a character is trained in in the place of the one with the same key.
    pub(crate) fn set_proficiency(&mut self, i: usize, r: Proficiency)
        requires
            old(self)@.wf(),
            i < old(self).proficiencies.len(),
            r@.character_id == old(self)@.proficiencies[i as int].character_id,
            r@.name == old(self)@.proficiencies[i as int].name,
        ensures
            final(self)@ == (World { proficiencies: old(self)@.proficiencies.update(i as int, r@), ..old(self)@ }),
            final(self)@.wf(),
            final(self)@.room() == old(self)@.room(),
    {
        let ghost a = self@;
        let ghost v = r@;
        replace(&mut self.proficiencies, i, r);
        proof {
            reveal(World::wf);
            assert(self@ =~= World { proficiencies: a.proficiencies.update(i as int, v), ..a });
            assert(self@.proficiencies_ok()) by {
                assert(a.proficiencies[i as int] == a.proficiencies[i as int]);
            }
            lemma_wf(a, self@);
        }
    }

    /// Takes what a character is trained in out.
    pub(crate) fn remove_proficiency(&mut self, i: usize)
        requires
            old(self)@.wf(),
            i < old(self).proficiencies.len(),
        ensures
            final(self)@ == (World { proficiencies: old(self)@.proficiencies.remove(i as int), ..old(self)@ }),
            final(self)@.wf(),
            final(self)@.room() == old(self)@.room(),
    {
        let ghost a = self@;
        let ghost rows = self.proficiencies@;
        let _ = self.proficiencies.remove(i);
        proof {
            reveal(World::wf);
            assert(views(self.proficiencies@) =~= views(rows).remove(i as int));
            assert(self@ =~= World { proficiencies: a.proficiencies.remove(i as int), ..a });
            lemma_wf(a, self@);
        }
    }

    /// Adds a resource.
    pub(crate) fn push_resource(&mut self, r: Resource)
        requires
            old(self)@.wf(),
            listed(old(self)@.characters, r@.character_id),
            forall|k: int|
                0 <= k < old(self)@.resources.len() ==>
                    !((#[trigger] old(self)@.resources[k]).character_id == r@.character_id
                    && old(self)@.resources[k].name == r@.name),
            0 <= r@.current <= r@.max,
        ensures
            final(self)@ == (World { resources: old(self)@.resources.push(r@), ..old(self)@ }),
            final(self)@.wf(),
            final(self)@.room() == old(self)@.room(),
    {
        let ghost a = self@;
        let ghost v = r@;
        append(&mut self.resources, r);
        proof {
            reveal(World::wf);
            assert(self@ =~= World { resources: a.resources.push(v), ..a });
            lemma_wf(a, self@);
        }
    }

    /// Puts a resource in the place of the one with the same key.
    pub(crate) fn set_resource(&mut self, i: usize, r: Resource)
        requires
            old(self)@.wf(),
            i < old(self).resources.len(),
            r@.character_id == old(self)@.resources[i as int].character_id,
            r@.name == old(self)@.resources[i as int].name,
            0 <= r@.current <= r@.max,
        ensures
            final(self)@ == (World { resources: old(self)@.resources.update(i as int, r@), ..old(self)@ }),
            final(self)@.wf(),
            final(self)@.room() == old(self)@.room(),
    {
        let ghost a = self@;
        let ghost v = r@;
        replace(&mut self.resources, i, r);
        proof {
            reveal(World::wf);
            assert(self@ =~= World { resources: a.resources.update(i as int, v), ..a });
            assert(self@.resources_ok()) by {
                assert(a.resources[i as int] == a.resources[i as int]);
            }
            lemma_wf(a, self@);
        }
    }

    /// Takes a resource out.
    pub(crate) fn remove_resource(&mut self, i: usize)
        requires
            old(self)@.wf(),
            i < old(self).resources.len(),
        ensures
            final(self)@ == (World { resources: old(self)@.resources.remove(i as int), ..old(self)@ }),
            final(self)@.wf(),
            final(self)@.room() == old(self)@.room(),
    {
        let ghost a = self@;
        let ghost rows = self.resources@;
        let _ = self.resources.remove(i);
        proof {
            reveal(World::wf);
            assert(views(self.resources@) =~= views(rows).remove(i as int));
            assert(self@ =~= World { resources: a.resources.remove(i as int), ..a });
            lemma_wf(a, self@);
        }
    }

    /// Adds a way between zones.
    pub(crate) fn push_connection(&mut self, r: Connection)
        requires
            old(self)@.wf(),
            old(self)@.connection_ok(r),
            forall|k: int|
                0 <= k < old(self)@.connections.len() ==>
                    !((#[trigger] old(self)@.connections[k]).from_zone_id == r@.from_zone_id
                    && old(self)@.connections[k].to_zone_id == r@.to_zone_id),
        ensures
            final(self)@ == (World { connections: old(self)@.connections.push(r@), ..old(self)@ }),
            final(self)@.wf(),
            final(self)@.room() == old(self)@.room(),
    {
        let ghost a = self@;
        let ghost v = r@;
        append(&mut self.connections, r);
        proof {
            reveal(World::wf);
            assert(self@ =~= World { connections: a.connections.push(v), ..a });
            lemma_wf(a, self@);
        }
    }

    /// Adds what a character knows of a zone.
    pub(crate) fn push_zone_knowledge(&mut self, r: ZoneKnowledge)
        requires
            old(self)@.wf(),
            listed(old(self)@.characters, r@.character_id),
            listed(old(self)@.zones, r@.zone_id),
            forall|k: int|
                0 <= k < old(self)@.zone_knowledge.len() ==>
                    !((#[trigger] old(self)@.zone_knowledge[k]).character_id == r@.character_id
                    && old(self)@.zone_knowledge[k].zone_id == r@.zone_id),
        ensures
            final(self)@ == (World { zone_knowledge: old(self)@.zone_knowledge.push(r@), ..old(self)@ }),
            final(self)@.wf(),
            final(self)@.room() == old(self)@.room(),
    {
        let ghost a = self@;
        let ghost v = r@;
        append(&mut self.zone_knowledge, r);
        proof {
            reveal(World::wf);
            assert(self@ =~= World { zone_knowledge: a.zone_knowledge.push(v), ..a });
            lemma_wf(a, self@);
        }
    }

    /// Puts what a character knows of a zone in the place of the one with the same key.
    pub(crate) fn set_zone_knowledge(&mut self, i: usize, r: ZoneKnowledge)
        requires
            old(self)@.wf(),
            i < old(self).zone_knowledge.len(),
            r@.character_id == old(self)@.zone_knowledge[i as int].character_id,
            r@.zone_id == old(self)@.zone_knowledge[i as int].zone_id,
        ensures
            final(self)@ == (World { zone_knowledge: old(self)@.zone_knowledge.update(i as int, r@), ..old(self)@ }),
            final(self)@.wf(),
            final(self)@.room() == old(self)@.room(),
    {
        let ghost a = self@;
        let ghost v = r@;
        replace(&mut self.zone_knowledge, i, r);
        proof {
            reveal(World::wf);
            assert(self@ =~= World { zone_knowledge: a.zone_knowledge.update(i as int, v), ..a });
            assert(self@.zone_knowledge_ok()) by {
                assert(a.zone_knowledge[i as int] == a.zone_knowledge[i as int]);
            }
            lemma_wf(a, self@);
        }
    }

    /// Adds a participant of an encounter.
    pub(crate) fn push_encounter_participant(&mut self, r: EncounterParticipant)
        requires
            old(self)@.wf(),
            listed(old(self)@.encounters, r@.encounter_id),
            listed(old(self)@.characters, r@.character_id),
            forall|k: int|
                0 <= k < old(self)@.encounter_participants.len() ==>
                    !((#[trigger] old(self)@.encounter_participants[k]).encounter_id == r@.encounter_id
                    && old(self)@.encounter_participants[k].character_id == r@.character_id),
        ensures
            final(self)@ == (World {
                encounter_participants: old(self)@.encounter_participants.push(r@),
                ..old(self)@
            }),
            final(self)@.wf(),
    {
        let ghost a = self@;
        let ghost v = r@;
        append(&mut self.encounter_participants, r);
        proof {
            reveal(World::wf);
            assert(self@ =~= World { encounter_participants: a.encounter_participants.push(v), ..a });
            lemma_wf(a, self@);
        }
    }

    /// Replaces the participants of encounters, key by key.
    pub(crate) fn set_encounter_participants(&mut self, rows: Vec<EncounterParticipant>)
        requires
            old(self)@.wf(),
            rows.len() == old(self).encounter_participants.len(),
            forall|i: int|
                0 <= i < rows.len() ==> {
                    &&& (#[trigger] rows@[i]).encounter_id == old(self)@.encounter_participants[i].encounter_id
                    &&& rows@[i].character_id == old(self)@.encounter_participants[i].character_id
                },
        ensures
            final(self)@ == (World { encounter_participants: rows@, ..old(self)@ }),
            final(self)@.wf(),
            final(self)@.room() == old(self)@.room(),
    {
        let ghost a = self@;
        self.encounter_participants = rows;
        proof {
            reveal(World::wf);
            assert(views(rows@) =~= rows@);
            assert(self@ =~= World { encounter_participants: rows@, ..a });
            let b = self@;
            assert(b.encounter_participants_ok()) by {
                assert forall|i: int| 0 <= i < b.encounter_participants.len() implies {
                    &&& listed(b.encounters, (#[trigger] b.encounter_participants[i]).encounter_id)
                    &&& listed(b.characters, b.encounter_participants[i].character_id)
                } by {
                    assert(a.encounter_participants[i] == a.encounter_participants[i]);
                }
                assert forall|i: int, j: int|
                    #![trigger b.encounter_participants[i], b.encounter_participants[j]]
                    0 <= i < j < b.encounter_participants.len() implies b.encounter_participants[i].encounter_id
                    != b.encounter_participants[j].encounter_id
                    || b.encounter_participants[i].character_id
                    != b.encounter_participants[j].character_id by {
                    assert(a.encounter_participants[i] == a.encounter_participants[i]);
                    assert(a.encounter_participants[j] == a.encounter_participants[j]);
                }
            }
            lemma_wf(a, self@);
        }
    }

    /// Replaces the state of the campaign.
    pub(crate) fn set_state(&mut self, r: CampaignState)
        requires
            old(self)@.wf(),
            r.player_character_id matches Some(p) ==> listed(old(self)@.characters, p),
        ensures
            final(self)@ == (World { state: r, ..old(self)@ }),
            final(self)@.wf(),
            final(self)@.room() == old(self)@.room(),
    {
        let ghost a = self@;
        self.state = r;
        proof {
            assert(self@ =~= World { state: r, ..a });
            lemma_wf(a, self@);
        }
    }

    /// Adds the answer to a setup question.
    pub(crate) fn push_answer(&mut self, r: SetupAnswer)
        requires
            old(self)@.wf(),
        ensures
            final(self)@ == (World { answers: old(self)@.answers.push(r@), ..old(self)@ }),
            final(self)@.wf(),
            final(self)@.room() == old(self)@.room(),
    {
        let ghost a = self@;
        let ghost v = r@;
        append(&mut self.answers, r);
        proof {
            assert(self@ =~= World { answers: a.answers.push(v), ..a });
            lemma_wf(a, self@);
        }
    }

    /// Replaces the answer to a setup question.
    pub(crate) fn set_answer(&mut self, i: usize, r: SetupAnswer)
        requires
            old(self)@.wf(),
            i < old(self).answers.len(),
        ensures
            final(self)@ == (World { answers: old(self)@.answers.update(i as int, r@), ..old(self)@ }),
            final(self)@.wf(),
            final(self)@.room() == old(self)@.room(),
    {
        let ghost a = self@;
        let ghost v = r@;
        replace(&mut self.answers, i, r);
        proof {
            assert(self@ =~= World { answers: a.answers.update(i as int, v), ..a });
            lemma_wf(a, self@);
        }
    }
}

} // verus!
