//! The map and the campaign clock.

use vstd::prelude::*;
use crate::campaign::{
    find, index_of, lemma_character, lemma_tables, lemma_update, listed, next_id, put, row, top, Campaign,
    World,
};
use crate::error::Error;
use crate::events::{bool_field, entry, entry_view, field, field_view, fields8, int_field, one, only};
use crate::random::{draw_shuffle, draws_ok, random_between};
use crate::rows::{
    views, Character, Connection, Direction, Event, EventRole, EventView, KnowledgeLevel, Landmark,
    LandmarkKnowledge, Value, ValueView, Zone,
};
use crate::survey::{find_spot, law_map_shows_known_ground, sound, spot_at, survey, surveyed, Spot};
use crate::terrain::{
    add_features, add_stubs, choose_directions, directions, ends, features, find_knowledge,
    law_knowledge_only_grows, law_neighbours_lie_apart, learned, learned_all, lemma_outgoing,
    lemma_stub_ways, next_ids, outgoing, rank, read_outgoing_edges, upsert_all, upsert_knowledge,
    with_features, with_stubs, zone_level,
};
use crate::text::{copy_opt, decimal, int_text, opt_text};

verus! {

/// The latest hour that an entry of the log has, 0 where none is later than that.
pub open spec fn latest_hour(events: Seq<EventView>) -> int
    decreases events.len(),
{
    if events.len() == 0 {
        0
    } else {
        let before = latest_hour(events.drop_last());
        if events.last().campaign_hour > before {
            events.last().campaign_hour as int
        } else {
            before
        }
    }
}

/// The hour that the campaign has reached. Entries about the time before the campaign have
/// negative hours and do not count.
pub open spec fn campaign_hour(w: World) -> i64 {
    latest_hour(w.events) as i64
}

pub proof fn lemma_latest_hour(events: Seq<EventView>, limit: int)
    requires
        limit >= 0,
        forall|i: int| 0 <= i < events.len() ==> (#[trigger] events[i]).campaign_hour <= limit,
    ensures
        0 <= latest_hour(events) <= limit,
        forall|i: int| 0 <= i < events.len() ==> (#[trigger] events[i]).campaign_hour <= latest_hour(events),
    decreases events.len(),
{
    if events.len() > 0 {
        let rest = events.drop_last();
        assert forall|i: int| 0 <= i < rest.len() implies (#[trigger] rest[i]).campaign_hour <= limit by {
            assert(rest[i] == events[i]);
        }
        lemma_latest_hour(rest, limit);
        assert(events.last() == events[events.len() - 1]);
        assert forall|i: int| 0 <= i < events.len() implies (#[trigger] events[i]).campaign_hour
            <= latest_hour(events) by {
            if i < rest.len() {
                assert(rest[i] == events[i]);
            }
        }
    }
}

/// The clock shows the latest hour of the log: no entry is later, and it is 0 or the hour of
/// an entry.
pub proof fn law_clock_is_latest_hour(w: World)
    ensures
        campaign_hour(w) >= 0,
        forall|i: int| 0 <= i < w.events.len() ==> (#[trigger] w.events[i]).campaign_hour <= campaign_hour(w),
        campaign_hour(w) == 0 || exists|i: int|
            0 <= i < w.events.len() && (#[trigger] w.events[i]).campaign_hour == campaign_hour(w),
{
    lemma_latest_hour(w.events, i64::MAX as int);
    lemma_hour_is_of_entry(w.events);
}

proof fn lemma_hour_is_of_entry(events: Seq<EventView>)
    ensures
        latest_hour(events) == 0 || exists|i: int|
            0 <= i < events.len() && (#[trigger] events[i]).campaign_hour == latest_hour(events),
    decreases events.len(),
{
    if events.len() > 0 {
        let rest = events.drop_last();
        lemma_hour_is_of_entry(rest);
        if latest_hour(events) == latest_hour(rest) {
            if latest_hour(rest) != 0 {
                let i = choose|i: int|
                    0 <= i < rest.len() && (#[trigger] rest[i]).campaign_hour == latest_hour(rest);
                assert(events[i] == rest[i]);
            }
        } else {
            assert(events[events.len() - 1].campaign_hour == latest_hour(events));
        }
    }
}

/// Whatever is written to the log, the clock never goes back.
pub proof fn law_clock_never_goes_back(w: World, e: EventView)
    ensures
        campaign_hour(w.with_event(e)) >= campaign_hour(w),
        e.campaign_hour >= campaign_hour(w) ==> campaign_hour(w.with_event(e)) == e.campaign_hour,
        e.campaign_hour <= campaign_hour(w) ==> campaign_hour(w.with_event(e)) == campaign_hour(w),
{
    lemma_latest_hour(w.events, i64::MAX as int);
    lemma_latest_hour(w.with_event(e).events, i64::MAX as int);
    assert(w.with_event(e).events.drop_last() =~= w.events);
}

/// The hour that the campaign has reached.
pub fn current_campaign_hour(c: &Campaign) -> (r: i64)
    ensures
        r == campaign_hour(c@),
        r >= 0,
        c@.room() ==> r <= crate::campaign::HOUR_LIMIT,
{
    let mut max: i64 = 0;
    let mut i: usize = 0;
    while i < c.events.len()
        invariant
            i <= c.events.len(),
            max == latest_hour(c@.events.take(i as int)),
            0 <= max,
        decreases c.events.len() - i,
    {
        let h: i64 = c.events[i].campaign_hour;
        proof {
            assert(c@.events[i as int].campaign_hour == h);
            assert(c@.events.take(i + 1).drop_last() =~= c@.events.take(i as int));
        }
        if h > max {
            max = h;
        }
        i = i + 1;
    }
    proof {
        assert(c@.events.take(i as int) =~= c@.events);
        if c@.room() {
            lemma_latest_hour(c@.events, crate::campaign::HOUR_LIMIT as int);
        }
    }
    max
}

// ── location.move ──

#[derive(Debug, Clone, Copy, PartialEq, Eq)]
pub struct TravelParams {
    pub character_id: i64,
    pub to_zone_id: i64,
}

#[derive(Debug, Clone, PartialEq, Eq)]
pub struct TravelResult {
    pub character_id: i64,
    pub from_zone_id: i64,
    pub to_zone_id: i64,
    pub travel_time_hours: i32,
    pub campaign_hour_before: i64,
    pub campaign_hour_after: i64,
    pub knowledge_level: String,
    pub stubs_generated: Vec<i64>,
    pub landmarks_generated: Vec<i64>,
    pub event_id: i64,
}

/// What chance decides on a journey: how many neighbours a new zone has and where they lie,
/// and how many features it has and which.
#[derive(Debug, Clone, PartialEq, Eq)]
pub struct TravelRolls {
    pub neighbours: usize,
    pub directions: Vec<usize>,
    pub landmarks: usize,
    pub features: Vec<usize>,
}

/// Whether chance can decide so: two to four neighbours, one or two features.
pub open spec fn travel_rolls_ok(rolls: TravelRolls) -> bool {
    &&& 2 <= rolls.neighbours <= 4
    &&& draws_ok(8, rolls.directions@)
    &&& 1 <= rolls.landmarks <= 2
    &&& draws_ok(4, rolls.features@)
}

/// Where the character is, if it exists and is anywhere.
pub open spec fn whereabouts(w: World, character_id: i64) -> Option<i64> {
    if listed(w.characters, character_id) {
        row(w.characters, character_id).current_zone_id
    } else {
        None
    }
}

/// Where stands, among the first `n` ways, the one from one zone to the other.
pub open spec fn way_among(rows: Seq<Connection>, from: i64, to: i64, n: nat) -> Option<int>
    decreases n,
{
    if n == 0 {
        None
    } else if rows[n - 1].from_zone_id == from && rows[n - 1].to_zone_id == to {
        Some(n - 1)
    } else {
        way_among(rows, from, to, (n - 1) as nat)
    }
}

/// Where stands the way from one zone to the other.
pub open spec fn way(w: World, from: i64, to: i64) -> Option<int> {
    way_among(w.connections, from, to, w.connections.len())
}

pub open spec fn travel_refusal(w: World, p: TravelParams) -> Option<Error<Seq<char>>> {
    match whereabouts(w, p.character_id) {
        None => Some(Error::NoCurrentZone { id: p.character_id }),
        Some(from) => if from == p.to_zone_id {
            Some(Error::AlreadyThere { id: p.character_id, zone: p.to_zone_id })
        } else if way(w, from, p.to_zone_id) is None {
            Some(Error::NoWay { from, to: p.to_zone_id })
        } else {
            None
        },
    }
}

/// How long the journey takes.
pub open spec fn travel_time(w: World, p: TravelParams) -> i32 {
    w.connections[way(w, whereabouts(w, p.character_id)->0, p.to_zone_id)->0].travel_time_hours
}

/// When the journey ends.
pub open spec fn arrival(w: World, p: TravelParams) -> i64 {
    (campaign_hour(w) + travel_time(w, p)) as i64
}

/// Whether the character has never been there.
pub open spec fn first_visit(w: World, p: TravelParams) -> bool {
    match zone_level(w, p.character_id, p.to_zone_id) {
        Some(KnowledgeLevel::Visited) => false,
        Some(KnowledgeLevel::Mapped) => false,
        _ => true,
    }
}

/// The campaign with the character there, knowing where it is and where it was.
pub open spec fn arrived(w: World, p: TravelParams) -> World {
    let there = World {
        characters: put(
            w.characters,
            Character {
                current_zone_id: Some(p.to_zone_id),
                updated_at: arrival(w, p),
                ..row(w.characters, p.character_id)
            },
        ),
        ..w
    };
    learned(
        learned(there, p.character_id, p.to_zone_id, KnowledgeLevel::Visited, arrival(w, p)),
        p.character_id,
        whereabouts(w, p.character_id)->0,
        KnowledgeLevel::Visited,
        campaign_hour(w),
    )
}

/// Whether no more than one way leads out of the zone, so that its neighbours are still to be
/// found.
pub open spec fn frontier(w: World, zone_id: i64) -> bool {
    outgoing(w.connections, zone_id).len() <= 1
}

/// The map with the neighbours of the zone, where they were still to be found.
pub open spec fn scouted(w: World, p: TravelParams, rolls: TravelRolls) -> World {
    if frontier(w, p.to_zone_id) {
        with_stubs(
            w,
            p.to_zone_id,
            row(w.zones, p.to_zone_id).biome,
            directions(rolls.neighbours as int, rolls.directions@),
        )
    } else {
        w
    }
}

pub open spec fn found_zones(w: World, p: TravelParams, rolls: TravelRolls) -> Seq<i64> {
    if frontier(w, p.to_zone_id) {
        next_ids(top(w.zones), rolls.neighbours as nat)
    } else {
        Seq::empty()
    }
}

pub open spec fn found_landmarks(w: World, p: TravelParams, rolls: TravelRolls) -> Seq<i64> {
    if first_visit(w, p) {
        next_ids(top(w.landmarks), rolls.landmarks as nat)
    } else {
        Seq::empty()
    }
}

/// What the journey shows: the neighbours of the zone, of which the character has heard now,
/// and on a first visit its features.
pub open spec fn explored(w: World, p: TravelParams, rolls: TravelRolls) -> World {
    let map = scouted(arrived(w, p), p, rolls);
    let heard = learned_all(
        map,
        p.character_id,
        ends(outgoing(map.connections, p.to_zone_id)),
        KnowledgeLevel::Rumored,
        arrival(w, p),
    );
    if first_visit(w, p) {
        with_features(heard, p.to_zone_id, features(rolls.landmarks as int, rolls.features@))
    } else {
        heard
    }
}

pub open spec fn travel_entry(w: World, p: TravelParams, rolls: TravelRolls) -> EventView {
    let from = whereabouts(w, p.character_id)->0;
    EventView {
        zone_id: Some(p.to_zone_id),
        ..entry_view(
            "location.move"@,
            arrival(w, p),
            "Character id="@ + int_text(p.character_id as int) + " travelled from zone "@ + int_text(
                from as int,
            ) + " to zone "@ + int_text(p.to_zone_id as int) + " ("@ + int_text(travel_time(w, p) as int)
                + "h, hour now "@ + int_text(arrival(w, p) as int) + ")"@,
            seq![
                field_view("from_zone_id"@, ValueView::Int(from as int)),
                field_view("to_zone_id"@, ValueView::Int(p.to_zone_id as int)),
                field_view("travel_time_hours"@, ValueView::Int(travel_time(w, p) as int)),
                field_view("hour_before"@, ValueView::Int(campaign_hour(w) as int)),
                field_view("hour_after"@, ValueView::Int(arrival(w, p) as int)),
                field_view("first_visit"@, ValueView::Bool(first_visit(w, p))),
                field_view("stubs_generated"@, ValueView::Ints(found_zones(w, p, rolls))),
                field_view("landmarks_generated"@, ValueView::Ints(found_landmarks(w, p, rolls))),
            ],
            one(p.character_id, EventRole::Actor),
        )
    }
}

/// The campaign after the journey.
pub open spec fn travelled(w: World, p: TravelParams, rolls: TravelRolls) -> World {
    explored(w, p, rolls).with_event(travel_entry(w, p, rolls))
}

/// What a journey does to the campaign and returns.
pub open spec fn travel_ok(w: World, p: TravelParams, rolls: TravelRolls, after: World, r: TravelResult) -> bool {
    &&& r.character_id == p.character_id
    &&& Some(r.from_zone_id) == whereabouts(w, p.character_id)
    &&& r.to_zone_id == p.to_zone_id
    &&& r.travel_time_hours == travel_time(w, p)
    &&& r.campaign_hour_before == campaign_hour(w)
    &&& r.campaign_hour_after == arrival(w, p)
    &&& r.knowledge_level@ == "visited"@
    &&& r.stubs_generated@ == found_zones(w, p, rolls)
    &&& r.landmarks_generated@ == found_landmarks(w, p, rolls)
    &&& r.event_id == next_id(w.events)
    &&& after == travelled(w, p, rolls)
}

pub(crate) proof fn lemma_way(rows: Seq<Connection>, from: i64, to: i64, n: nat)
    requires
        n <= rows.len(),
    ensures
        way_among(rows, from, to, n) matches Some(k) ==> 0 <= k < n && rows[k].from_zone_id == from
            && rows[k].to_zone_id == to,
    decreases n,
{
    if n > 0 {
        lemma_way(rows, from, to, (n - 1) as nat);
    }
}

/// Where the character is.
fn read_current_zone(c: &Campaign, character_id: i64) -> (r: Option<i64>)
    requires
        c@.wf(),
    ensures
        r == whereabouts(c@, character_id),
{
    proof {
        lemma_tables(c@);
    }
    match find(&c.characters, character_id) {
        Some(i) => c.characters[i].current_zone_id,
        None => None,
    }
}

/// Where stands the way from one zone to the other.
fn find_way(c: &Campaign, from: i64, to: i64) -> (r: Option<usize>)
    ensures
        match r {
            Some(k) => way(c@, from, to) == Some(k as int) && k < c.connections.len()
                && c@.connections[k as int]
                == c.connections@[k as int] && c.connections@[k as int].to_zone_id == to,
            None => way(c@, from, to) is None,
        },
{
    let rows = &c.connections;
    let ghost seen = c@.connections;
    let mut i: usize = rows.len();
    while i > 0
        invariant
            i <= rows.len(),
            rows@ == c.connections@,
            seen == c@.connections,
            seen.len() == rows.len(),
            way_among(seen, from, to, seen.len()) == way_among(seen, from, to, i as nat),
        decreases i,
    {
        let r = &rows[i - 1];
        assert(seen[i - 1] == r@);
        if r.from_zone_id == from && r.to_zone_id == to {
            return Some(i - 1);
        }
        i = i - 1;
    }
    None
}

/// Finds the neighbours of a zone, where they were still to be found.
fn ensure_stub_neighbours(c: &mut Campaign, p: &TravelParams, rolls: &TravelRolls) -> (r: Vec<i64>)
    requires
        old(c)@.wf(),
        old(c)@.room(),
        listed(old(c)@.zones, p.to_zone_id),
        travel_rolls_ok(*rolls),
    ensures
        final(c)@.wf(),
        final(c)@ == scouted(old(c)@, *p, *rolls),
        r@ == found_zones(old(c)@, *p, *rolls),
        crate::terrain::same_but_map(old(c)@, final(c)@),
        forall|id: i64| listed(old(c)@.zones, id) ==> #[trigger] listed(final(c)@.zones, id),
{
    let edges = read_outgoing_edges(c, p.to_zone_id);
    let mut found: Vec<i64> = Vec::new();
    if edges.len() <= 1 {
        proof {
            lemma_tables(c@);
            crate::terrain::law_neighbours_lie_apart(rolls.neighbours as int, rolls.directions@);
        }
        if let Some(i) = find(&c.zones, p.to_zone_id) {
            let biome = c.zones[i].biome.clone();
            assert(row(c@.zones, p.to_zone_id) == c.zones@[i as int]@);
            let ds = choose_directions(rolls.neighbours, &rolls.directions);
            found = add_stubs(c, p.to_zone_id, biome.as_str(), &ds);
        }
    }
    assert(found@ =~= found_zones(old(c)@, *p, *rolls));
    found
}

/// Lets the character hear of the neighbours of the zone.
fn hear_of_neighbours(c: &mut Campaign, character_id: i64, zone_id: i64, hour: i64)
    requires
        old(c)@.wf(),
        listed(old(c)@.characters, character_id),
    ensures
        final(c)@.wf(),
        final(c)@ == learned_all(
            old(c)@,
            character_id,
            ends(outgoing(old(c)@.connections, zone_id)),
            KnowledgeLevel::Rumored,
            hour,
        ),
        final(c)@ == (World { zone_knowledge: final(c)@.zone_knowledge, ..old(c)@ }),
{
    let edges = read_outgoing_edges(c, zone_id);
    let ghost ways = outgoing(c@.connections, zone_id);
    let mut ids: Vec<i64> = Vec::new();
    let mut k: usize = 0;
    while k < edges.len()
        invariant
            k <= edges.len(),
            edges@ == ways,
            ids@ == ends(ways).take(k as int),
        decreases edges.len() - k,
    {
        ids.push(edges[k].to_zone_id);
        assert(ids@ =~= ends(ways).take(k + 1));
        k = k + 1;
    }
    proof {
        assert(ids@ =~= ends(ways));
        lemma_outgoing(c@.connections, zone_id);
        assert forall|j: int| 0 <= j < ids@.len() implies listed(c@.zones, #[trigger] ids@[j]) by {
            let e = ways[j];
            assert(c@.connections.contains(e));
            let i = choose|i: int| 0 <= i < c@.connections.len() && c@.connections[i] == e;
            assert(c@.connection_ok(c@.connections[i])) by {
                reveal(World::wf);
            }
        }
    }
    upsert_all(c, character_id, &ids, KnowledgeLevel::Rumored, hour);
}

/// Moves a character along a way to another zone, for what chance has decided, and writes
/// `location.move`.
pub fn travel_with(c: &mut Campaign, p: &TravelParams, rolls: &TravelRolls) -> (r: Result<TravelResult, Error>)
    requires
        old(c)@.wf(),
        old(c)@.room(),
        travel_rolls_ok(*rolls),
    ensures
        final(c)@.wf(),
        travel_refusal(old(c)@, *p) matches Some(e) ==> r is Err && r->Err_0@ == e && final(c)@ == old(c)@,
        travel_refusal(old(c)@, *p) is None ==> r is Ok && travel_ok(
            old(c)@,
            *p,
            *rolls,
            final(c)@,
            r->Ok_0,
        ),
{
    let ghost w = c@;
    proof {
        lemma_tables(w);
    }
    let from: i64 = match read_current_zone(c, p.character_id) {
        Some(z) => z,
        None => {
            return Err(Error::NoCurrentZone { id: p.character_id });
        },
    };
    if from == p.to_zone_id {
        return Err(Error::AlreadyThere { id: p.character_id, zone: p.to_zone_id });
    }
    let hours: i32 = match find_way(c, from, p.to_zone_id) {
        Some(k) => {
            assert(w.connection_ok(w.connections[k as int])) by {
                reveal(World::wf);
            }
            c.connections[k].travel_time_hours
        },
        None => {
            return Err(Error::NoWay { from, to: p.to_zone_id });
        },
    };
    let before: i64 = current_campaign_hour(c);
    let after: i64 = before + hours as i64;
    assert(after == arrival(w, *p));
    let first = match find_knowledge(c, p.character_id, p.to_zone_id) {
        Some(k) => match c.zone_knowledge[k].level {
            KnowledgeLevel::Visited => false,
            KnowledgeLevel::Mapped => false,
            _ => true,
        },
        None => true,
    };
    assert(first == first_visit(w, *p));
    proof {
        lemma_character(w, p.character_id);
    }
    if let Some(i) = find(&c.characters, p.character_id) {
        let mut ch = c.characters[i].copy();
        ch.current_zone_id = Some(p.to_zone_id);
        ch.updated_at = after;
        assert(ch@ == Character {
            current_zone_id: Some(p.to_zone_id),
            updated_at: after,
            ..row(w.characters, p.character_id)
        });
        c.set_character(i, ch);
    }
    assert(c@.room()) by {
        assert(w.characters[index_of(w.characters, p.character_id)].xp_total
            <= crate::campaign::HOUR_LIMIT);
    }
    upsert_knowledge(c, p.character_id, p.to_zone_id, KnowledgeLevel::Visited, after);
    upsert_knowledge(c, p.character_id, from, KnowledgeLevel::Visited, before);
    assert(c@ == arrived(w, *p));
    let ghost there = c@;
    let stubs = ensure_stub_neighbours(c, p, rolls);
    assert(found_zones(there, *p, *rolls) == found_zones(w, *p, *rolls));
    let ghost map = c@;
    hear_of_neighbours(c, p.character_id, p.to_zone_id, after);
    let mut landmarks: Vec<i64> = Vec::new();
    if first {
        landmarks = add_features(c, p.to_zone_id, rolls.landmarks, &rolls.features);
    }
    proof {
        assert(landmarks@ =~= found_landmarks(w, *p, *rolls));
        assert(c@ == explored(w, *p, *rolls));
    }
    let mut s = "Character id=".to_owned();
    s.append(decimal(p.character_id).as_str());
    s.append(" travelled from zone ");
    s.append(decimal(from).as_str());
    s.append(" to zone ");
    s.append(decimal(p.to_zone_id).as_str());
    s.append(" (");
    s.append(decimal(hours as i64).as_str());
    s.append("h, hour now ");
    s.append(decimal(after).as_str());
    s.append(")");
    let base = entry(
        "location.move",
        after,
        s,
        fields8(
            int_field("from_zone_id", from),
            int_field("to_zone_id", p.to_zone_id),
            int_field("travel_time_hours", hours as i64),
            int_field("hour_before", before),
            int_field("hour_after", after),
            bool_field("first_visit", first),
            field("stubs_generated", Value::Ints(crate::events::copy_ints(&stubs))),
            field("landmarks_generated", Value::Ints(crate::events::copy_ints(&landmarks))),
        ),
        only(p.character_id, EventRole::Actor),
    );
    let e = Event { zone_id: Some(p.to_zone_id), ..base };
    assert(e@ == travel_entry(w, *p, *rolls));
    let event_id: i64 = c.add_event(e);
    Ok(
        TravelResult {
            character_id: p.character_id,
            from_zone_id: from,
            to_zone_id: p.to_zone_id,
            travel_time_hours: hours,
            campaign_hour_before: before,
            campaign_hour_after: after,
            knowledge_level: "visited".to_owned(),
            stubs_generated: stubs,
            landmarks_generated: landmarks,
            event_id,
        },
    )
}

/// Moves a character along a way to another zone: what comes out is what one of the decisions
/// of chance gives.
pub fn travel(c: &mut Campaign, p: TravelParams) -> (r: Result<TravelResult, Error>)
    requires
        old(c)@.wf(),
        old(c)@.room(),
    ensures
        final(c)@.wf(),
        travel_refusal(old(c)@, p) matches Some(e) ==> r is Err && r->Err_0@ == e && final(c)@ == old(c)@,
        travel_refusal(old(c)@, p) is None ==> r is Ok && exists|rolls: TravelRolls|
            #![trigger travel_ok(old(c)@, p, rolls, final(c)@, r->Ok_0)]
            travel_rolls_ok(rolls) && travel_ok(old(c)@, p, rolls, final(c)@, r->Ok_0),
{
    let rolls = TravelRolls {
        neighbours: random_between(2, 4) as usize,
        directions: draw_shuffle(8),
        landmarks: random_between(1, 2) as usize,
        features: draw_shuffle(4),
    };
    travel_with(c, &p, &rolls)
}

// ── Maps and descriptions ──

#[derive(Debug, Clone, Copy, PartialEq, Eq)]
pub struct MapParams {
    pub character_id: i64,
}

#[derive(Debug, Clone, PartialEq, Eq)]
pub struct MapResult {
    pub origin_zone_id: i64,
    /// The zones, by id.
    pub zones: Vec<MapZone>,
    pub connections: Vec<MapConnection>,
}

#[derive(Debug, Clone, PartialEq, Eq)]
pub struct MapZone {
    pub id: i64,
    pub name: String,
    pub biome: String,
    pub kind: String,
    pub knowledge_level: String,
    /// The origin lies at (0, 0); east and north count up.
    pub x: i32,
    pub y: i32,
    pub landmarks: Vec<MapLandmark>,
}

/// What a zone on a map says.
pub struct MapZoneView {
    pub id: i64,
    pub name: Seq<char>,
    pub biome: Seq<char>,
    pub kind: Seq<char>,
    pub knowledge_level: Seq<char>,
    pub x: i32,
    pub y: i32,
    pub landmarks: Seq<MapLandmark<Seq<char>>>,
}

impl View for MapZone {
    type V = MapZoneView;

    open spec fn view(&self) -> MapZoneView {
        MapZoneView {
            id: self.id,
            name: self.name@,
            biome: self.biome@,
            kind: self.kind@,
            knowledge_level: self.knowledge_level@,
            x: self.x,
            y: self.y,
            landmarks: views(self.landmarks@),
        }
    }
}

#[derive(Debug, Clone, PartialEq, Eq)]
pub struct MapLandmark<S = String> {
    pub id: i64,
    pub name: S,
    pub kind: S,
    pub knowledge_level: S,
}

impl View for MapLandmark {
    type V = MapLandmark<Seq<char>>;

    open spec fn view(&self) -> MapLandmark<Seq<char>> {
        MapLandmark {
            id: self.id,
            name: self.name@,
            kind: self.kind@,
            knowledge_level: self.knowledge_level@,
        }
    }
}

#[derive(Debug, Clone, PartialEq, Eq)]
pub struct MapConnection<S = String> {
    pub from_zone_id: i64,
    pub to_zone_id: i64,
    pub direction_from: S,
    pub travel_time_hours: i32,
    pub one_way: bool,
}

impl View for MapConnection {
    type V = MapConnection<Seq<char>>;

    open spec fn view(&self) -> MapConnection<Seq<char>> {
        MapConnection {
            from_zone_id: self.from_zone_id,
            to_zone_id: self.to_zone_id,
            direction_from: self.direction_from@,
            travel_time_hours: self.travel_time_hours,
            one_way: self.one_way,
        }
    }
}

#[derive(Debug, Clone, Copy, PartialEq, Eq)]
pub struct DescribeZoneParams {
    pub character_id: i64,
    pub zone_id: i64,
}

#[derive(Debug, Clone, PartialEq, Eq)]
pub struct DescribeZoneResult {
    pub zone_id: i64,
    pub name: String,
    pub biome: String,
    pub kind: String,
    pub size: String,
    pub description: Option<String>,
    pub knowledge_level: String,
    pub landmarks: Vec<MapLandmark>,
    pub connections: Vec<MapConnection>,
}

/// How well the character knows a landmark, by the first `n` rows: by hearsay where none says.
pub open spec fn landmark_level(
    rows: Seq<LandmarkKnowledge>,
    character_id: i64,
    landmark_id: i64,
    n: nat,
) -> KnowledgeLevel
    decreases n,
{
    if n == 0 {
        KnowledgeLevel::Rumored
    } else if rows[n - 1].character_id == character_id && rows[n - 1].landmark_id == landmark_id {
        rows[n - 1].level
    } else {
        landmark_level(rows, character_id, landmark_id, (n - 1) as nat)
    }
}

/// What the character sees of a landmark.
pub open spec fn shown_landmark(w: World, character_id: i64, l: Landmark<Seq<char>>) -> MapLandmark<Seq<char>> {
    MapLandmark {
        id: l.id,
        name: l.name,
        kind: l.kind.text(),
        knowledge_level: landmark_level(
            w.landmark_knowledge,
            character_id,
            l.id,
            w.landmark_knowledge.len(),
        ).text(),
    }
}

/// What the character sees of those landmarks that are in the zone and not hidden.
pub open spec fn shown_landmarks(
    w: World,
    character_id: i64,
    zone_id: i64,
    rows: Seq<Landmark<Seq<char>>>,
) -> Seq<MapLandmark<Seq<char>>>
    decreases rows.len(),
{
    if rows.len() == 0 {
        Seq::empty()
    } else {
        let rest = shown_landmarks(w, character_id, zone_id, rows.drop_last());
        if rows.last().zone_id == zone_id && !rows.last().hidden {
            rest.push(shown_landmark(w, character_id, rows.last()))
        } else {
            rest
        }
    }
}

/// A way as it is shown.
pub open spec fn shown_way(e: Connection) -> MapConnection<Seq<char>> {
    MapConnection {
        from_zone_id: e.from_zone_id,
        to_zone_id: e.to_zone_id,
        direction_from: e.direction_from.text(),
        travel_time_hours: e.travel_time_hours,
        one_way: e.one_way,
    }
}

/// Ways as they are shown.
pub open spec fn shown_ways(ways: Seq<Connection>) -> Seq<MapConnection<Seq<char>>> {
    Seq::new(ways.len(), |k: int| shown_way(ways[k]))
}

fn show_way(e: &Connection) -> (r: MapConnection)
    ensures
        r@ == shown_way(*e),
{
    MapConnection {
        from_zone_id: e.from_zone_id,
        to_zone_id: e.to_zone_id,
        direction_from: e.direction_from.as_str().to_owned(),
        travel_time_hours: e.travel_time_hours,
        one_way: e.one_way,
    }
}

fn read_landmark_level(c: &Campaign, character_id: i64, landmark_id: i64) -> (r: KnowledgeLevel)
    ensures
        r == landmark_level(
            c@.landmark_knowledge,
            character_id,
            landmark_id,
            c@.landmark_knowledge.len(),
        ),
{
    let rows = &c.landmark_knowledge;
    let ghost seen = c@.landmark_knowledge;
    let mut i: usize = rows.len();
    while i > 0
        invariant
            i <= rows.len(),
            rows@ == c.landmark_knowledge@,
            seen == c@.landmark_knowledge,
            seen.len() == rows.len(),
            landmark_level(seen, character_id, landmark_id, seen.len()) == landmark_level(
                seen,
                character_id,
                landmark_id,
                i as nat,
            ),
        decreases i,
    {
        let r = &rows[i - 1];
        assert(seen[i - 1] == r@);
        if r.character_id == character_id && r.landmark_id == landmark_id {
            return r.level;
        }
        i = i - 1;
    }
    KnowledgeLevel::Rumored
}

/// The landmarks of a zone, as the character sees them.
fn read_landmarks_for_character(c: &Campaign, character_id: i64, zone_id: i64) -> (r: Vec<MapLandmark>)
    ensures
        views(r@) == shown_landmarks(c@, character_id, zone_id, c@.landmarks),
{
    let rows = &c.landmarks;
    let ghost seen = c@.landmarks;
    let mut out: Vec<MapLandmark> = Vec::new();
    let mut i: usize = 0;
    assert(views(out@) =~= shown_landmarks(c@, character_id, zone_id, seen.take(0)));
    while i < rows.len()
        invariant
            i <= rows.len(),
            rows@ == c.landmarks@,
            seen == c@.landmarks,
            seen.len() == rows.len(),
            views(out@) == shown_landmarks(c@, character_id, zone_id, seen.take(i as int)),
        decreases rows.len() - i,
    {
        let l = &rows[i];
        let ghost b4 = out@;
        proof {
            assert(seen[i as int] == l@);
            assert(seen.take(i + 1).drop_last() =~= seen.take(i as int));
        }
        if l.zone_id == zone_id && !l.hidden {
            let level = read_landmark_level(c, character_id, l.id);
            let x = MapLandmark {
                id: l.id,
                name: l.name.clone(),
                kind: l.kind.as_str().to_owned(),
                knowledge_level: level.as_str().to_owned(),
            };
            let ghost v = x@;
            out.push(x);
            assert(views(out@) =~= views(b4).push(v));
        }
        i = i + 1;
    }
    assert(seen.take(i as int) =~= seen);
    out
}

// ── world.map ──

/// A zone as it is shown on a map.
pub open spec fn shown_zone(w: World, character_id: i64, z: Zone<Seq<char>>, at: Spot) -> MapZoneView {
    MapZoneView {
        id: z.id,
        name: z.name,
        biome: z.biome,
        kind: z.kind.text(),
        knowledge_level: zone_level(w, character_id, z.id)->0.text(),
        x: at.x,
        y: at.y,
        landmarks: shown_landmarks(w, character_id, z.id, w.landmarks),
    }
}

/// Those of the zones that are on the map, as they are shown.
pub open spec fn shown_zones(
    w: World,
    character_id: i64,
    spots: Seq<Spot>,
    rows: Seq<Zone<Seq<char>>>,
) -> Seq<MapZoneView>
    decreases rows.len(),
{
    if rows.len() == 0 {
        Seq::empty()
    } else {
        let rest = shown_zones(w, character_id, spots, rows.drop_last());
        match spot_at(spots, rows.last().id) {
            Some(k) => rest.push(shown_zone(w, character_id, rows.last(), spots[k])),
            None => rest,
        }
    }
}

/// Those of the ways that lead to a zone on the map, as they are shown.
pub open spec fn ways_on_map(spots: Seq<Spot>, ways: Seq<Connection>) -> Seq<MapConnection<Seq<char>>>
    decreases ways.len(),
{
    if ways.len() == 0 {
        Seq::empty()
    } else {
        let rest = ways_on_map(spots, ways.drop_last());
        if spot_at(spots, ways.last().to_zone_id) is Some {
            rest.push(shown_way(ways.last()))
        } else {
            rest
        }
    }
}

/// The ways between zones on the map, by the zones that they lead out of.
pub open spec fn all_ways_on_map(w: World, spots: Seq<Spot>, rows: Seq<Zone<Seq<char>>>) -> Seq<
    MapConnection<Seq<char>>,
>
    decreases rows.len(),
{
    if rows.len() == 0 {
        Seq::empty()
    } else {
        let rest = all_ways_on_map(w, spots, rows.drop_last());
        if spot_at(spots, rows.last().id) is Some {
            rest + ways_on_map(spots, outgoing(w.connections, rows.last().id))
        } else {
            rest
        }
    }
}

pub open spec fn map_refusal(w: World, p: MapParams) -> Option<Error<Seq<char>>> {
    match whereabouts(w, p.character_id) {
        None => Some(Error::NoCurrentZone { id: p.character_id }),
        Some(zone) => if zone_level(w, p.character_id, zone) is None {
            Some(Error::LostHere { id: p.character_id, zone })
        } else {
            None
        },
    }
}

/// What a map shows.
pub open spec fn map_ok(w: World, p: MapParams, r: MapResult) -> bool {
    let origin = whereabouts(w, p.character_id)->0;
    let spots = surveyed(w, p.character_id, origin);
    &&& r.origin_zone_id == origin
    &&& views(r.zones@) == shown_zones(w, p.character_id, spots, w.zones)
    &&& views(r.connections@) == all_ways_on_map(w, spots, w.zones)
}

fn show_zones(c: &Campaign, character_id: i64, spots: &Vec<Spot>, Ghost(origin): Ghost<i64>) -> (r: Vec<MapZone>)
    requires
        c@.wf(),
        sound(c@, character_id, origin, spots@),
    ensures
        views(r@) == shown_zones(c@, character_id, spots@, c@.zones),
{
    let rows = &c.zones;
    let ghost seen = c@.zones;
    let mut out: Vec<MapZone> = Vec::new();
    let mut i: usize = 0;
    assert(views(out@) =~= shown_zones(c@, character_id, spots@, seen.take(0)));
    while i < rows.len()
        invariant
            i <= rows.len(),
            rows@ == c.zones@,
            seen == c@.zones,
            seen.len() == rows.len(),
            sound(c@, character_id, origin, spots@),
            views(out@) == shown_zones(c@, character_id, spots@, seen.take(i as int)),
        decreases rows.len() - i,
    {
        let z = &rows[i];
        let ghost b4 = out@;
        proof {
            assert(seen[i as int] == z@);
            assert(seen.take(i + 1).drop_last() =~= seen.take(i as int));
        }
        if let Some(k) = find_spot(spots, z.id) {
            let level = match find_knowledge(c, character_id, z.id) {
                Some(j) => c.zone_knowledge[j].level,
                None => {
                    assert(zone_level(c@, character_id, spots@[k as int].zone_id) is Some);
                    KnowledgeLevel::Rumored
                },
            };
            let x = MapZone {
                id: z.id,
                name: z.name.clone(),
                biome: z.biome.clone(),
                kind: z.kind.as_str().to_owned(),
                knowledge_level: level.as_str().to_owned(),
                x: spots[k].x,
                y: spots[k].y,
                landmarks: read_landmarks_for_character(c, character_id, z.id),
            };
            let ghost v = x@;
            out.push(x);
            assert(views(out@) =~= views(b4).push(v));
            assert(v == shown_zone(c@, character_id, z@, spots@[k as int]));
        }
        i = i + 1;
    }
    assert(seen.take(i as int) =~= seen);
    out
}

fn add_ways(c: &Campaign, spots: &Vec<Spot>, zone_id: i64, out: &mut Vec<MapConnection>)
    ensures
        views(final(out)@) == views(old(out)@) + ways_on_map(spots@, outgoing(c@.connections, zone_id)),
{
    let ghost start = views(out@);
    let ways = read_outgoing_edges(c, zone_id);
    let mut k: usize = 0;
    assert(views(out@) =~= start + ways_on_map(spots@, ways@.take(0)));
    while k < ways.len()
        invariant
            k <= ways.len(),
            ways@ == outgoing(c@.connections, zone_id),
            views(out@) == start + ways_on_map(spots@, ways@.take(k as int)),
        decreases ways.len() - k,
    {
        let ghost b4 = out@;
        assert(ways@.take(k + 1).drop_last() =~= ways@.take(k as int));
        if find_spot(spots, ways[k].to_zone_id).is_some() {
            let x = show_way(&ways[k]);
            let ghost v = x@;
            out.push(x);
            assert(views(out@) =~= views(b4).push(v));
            assert(views(out@) =~= start + ways_on_map(spots@, ways@.take(k + 1)));
        }
        k = k + 1;
    }
    assert(ways@.take(k as int) =~= ways@);
}

fn show_ways_on_map(c: &Campaign, spots: &Vec<Spot>) -> (r: Vec<MapConnection>)
    ensures
        views(r@) == all_ways_on_map(c@, spots@, c@.zones),
{
    let rows = &c.zones;
    let ghost seen = c@.zones;
    let mut out: Vec<MapConnection> = Vec::new();
    let mut i: usize = 0;
    assert(views(out@) =~= all_ways_on_map(c@, spots@, seen.take(0)));
    while i < rows.len()
        invariant
            i <= rows.len(),
            rows@ == c.zones@,
            seen == c@.zones,
            seen.len() == rows.len(),
            views(out@) == all_ways_on_map(c@, spots@, seen.take(i as int)),
        decreases rows.len() - i,
    {
        let z = &rows[i];
        proof {
            assert(seen[i as int] == z@);
            assert(seen.take(i + 1).drop_last() =~= seen.take(i as int));
        }
        if find_spot(spots, z.id).is_some() {
            add_ways(c, spots, z.id, &mut out);
        }
        i = i + 1;
    }
    assert(seen.take(i as int) =~= seen);
    out
}

/// The map around the zone that the character is in, as far as the character knows it.
pub fn map(c: &Campaign, p: MapParams) -> (r: Result<MapResult, Error>)
    requires
        c@.wf(),
        c@.room(),
    ensures
        map_refusal(c@, p) matches Some(e) ==> r is Err && r->Err_0@ == e,
        map_refusal(c@, p) is None ==> r is Ok && map_ok(c@, p, r->Ok_0),
{
    let origin: i64 = match read_current_zone(c, p.character_id) {
        Some(z) => z,
        None => {
            return Err(Error::NoCurrentZone { id: p.character_id });
        },
    };
    if find_knowledge(c, p.character_id, origin).is_none() {
        return Err(Error::LostHere { id: p.character_id, zone: origin });
    }
    let spots = survey(c, p.character_id, origin);
    let zones = show_zones(c, p.character_id, &spots, Ghost(origin));
    let connections = show_ways_on_map(c, &spots);
    Ok(MapResult { origin_zone_id: origin, zones, connections })
}

// ── world.describe_zone ──

pub open spec fn describe_refusal(w: World, p: DescribeZoneParams) -> Option<Error<Seq<char>>> {
    if zone_level(w, p.character_id, p.zone_id) is None {
        Some(Error::ZoneUnknown { id: p.character_id, zone: p.zone_id })
    } else {
        None
    }
}

/// What is said of a zone.
pub open spec fn describe_ok(w: World, p: DescribeZoneParams, r: DescribeZoneResult) -> bool {
    let z = row(w.zones, p.zone_id);
    &&& r.zone_id == p.zone_id
    &&& r.name@ == z.name
    &&& r.biome@ == z.biome
    &&& r.kind@ == z.kind.text()
    &&& r.size@ == z.size.text()
    &&& opt_text(r.description) == z.description
    &&& r.knowledge_level@ == zone_level(w, p.character_id, p.zone_id)->0.text()
    &&& views(r.landmarks@) == shown_landmarks(w, p.character_id, p.zone_id, w.landmarks)
    &&& views(r.connections@) == shown_ways(outgoing(w.connections, p.zone_id))
}

/// Says what there is to be said of a zone of which the character has at least heard.
pub fn describe_zone(c: &Campaign, p: DescribeZoneParams) -> (r: Result<DescribeZoneResult, Error>)
    requires
        c@.wf(),
    ensures
        describe_refusal(c@, p) matches Some(e) ==> r is Err && r->Err_0@ == e,
        describe_refusal(c@, p) is None ==> r is Ok && describe_ok(c@, p, r->Ok_0),
{
    let ghost w = c@;
    let level = match find_knowledge(c, p.character_id, p.zone_id) {
        Some(k) => {
            proof {
                assert(listed(w.zones, w.zone_knowledge[k as int].zone_id)) by {
                    reveal(World::wf);
                }
            }
            c.zone_knowledge[k].level
        },
        None => {
            return Err(Error::ZoneUnknown { id: p.character_id, zone: p.zone_id });
        },
    };
    proof {
        lemma_tables(w);
    }
    let ways = read_outgoing_edges(c, p.zone_id);
    let mut connections: Vec<MapConnection> = Vec::new();
    let mut k: usize = 0;
    while k < ways.len()
        invariant
            k <= ways.len(),
            connections.len() == k,
            forall|j: int| 0 <= j < k ==> (#[trigger] connections@[j])@ == shown_way(ways@[j]),
        decreases ways.len() - k,
    {
        connections.push(show_way(&ways[k]));
        k = k + 1;
    }
    assert(views(connections@) =~= shown_ways(ways@));
    let landmarks = read_landmarks_for_character(c, p.character_id, p.zone_id);
    match find(&c.zones, p.zone_id) {
        Some(i) => {
            let z = &c.zones[i];
            assert(row(w.zones, p.zone_id) == z@);
            Ok(
                DescribeZoneResult {
                    zone_id: p.zone_id,
                    name: z.name.clone(),
                    biome: z.biome.clone(),
                    kind: z.kind.as_str().to_owned(),
                    size: z.size.as_str().to_owned(),
                    description: copy_opt(&z.description),
                    knowledge_level: level.as_str().to_owned(),
                    landmarks,
                    connections,
                },
            )
        },
        None => Err(Error::ZoneUnknown { id: p.character_id, zone: p.zone_id }),
    }
}

// ── Laws ──

pub proof fn lemma_stubs_keep(w: World, zone_id: i64, biome: Seq<char>, ds: Seq<Direction>)
    ensures
        crate::terrain::same_but_map(w, with_stubs(w, zone_id, biome, ds)),
    decreases ds.len(),
{
    if ds.len() > 0 {
        lemma_stubs_keep(w, zone_id, biome, ds.drop_last());
    }
}

pub proof fn lemma_learning_keeps(w: World, character_id: i64, ids: Seq<i64>, level: KnowledgeLevel, hour: i64)
    ensures
        ({
            let v = learned_all(w, character_id, ids, level, hour);
            v == (World { zone_knowledge: v.zone_knowledge, ..w })
        }),
    decreases ids.len(),
{
    if ids.len() > 0 {
        lemma_learning_keeps(w, character_id, ids.drop_last(), level, hour);
    }
}

pub proof fn lemma_features_keep(w: World, zone_id: i64, ks: Seq<usize>)
    ensures
        ({
            let v = with_features(w, zone_id, ks);
            v == (World { landmarks: v.landmarks, ..w })
        }),
    decreases ks.len(),
{
    if ks.len() > 0 {
        lemma_features_keep(w, zone_id, ks.drop_last());
    }
}

/// A journey takes the character there and takes as long as the way says: the clock shows
/// just so many hours more.
pub proof fn law_journey_takes_its_time(w: World, p: TravelParams, rolls: TravelRolls)
    requires
        w.wf(),
        w.room(),
        travel_refusal(w, p) is None,
    ensures
        campaign_hour(travelled(w, p, rolls)) == campaign_hour(w) + travel_time(w, p),
        travel_time(w, p) >= 0,
        whereabouts(travelled(w, p, rolls), p.character_id) == Some(p.to_zone_id),
{
    lemma_tables(w);
    lemma_character(w, p.character_id);
    lemma_latest_hour(w.events, crate::campaign::HOUR_LIMIT as int);
    let from = whereabouts(w, p.character_id)->0;
    lemma_way(w.connections, from, p.to_zone_id, w.connections.len());
    let k = way(w, from, p.to_zone_id)->0;
    assert(w.connection_ok(w.connections[k])) by {
        reveal(World::wf);
    }
    let ch = Character {
        current_zone_id: Some(p.to_zone_id),
        updated_at: arrival(w, p),
        ..row(w.characters, p.character_id)
    };
    lemma_update(w.characters, index_of(w.characters, p.character_id), ch);
    let there = arrived(w, p);
    assert(there.characters == put(w.characters, ch));
    let map = scouted(there, p, rolls);
    lemma_stubs_keep(
        there,
        p.to_zone_id,
        row(there.zones, p.to_zone_id).biome,
        directions(rolls.neighbours as int, rolls.directions@),
    );
    lemma_learning_keeps(
        map,
        p.character_id,
        ends(outgoing(map.connections, p.to_zone_id)),
        KnowledgeLevel::Rumored,
        arrival(w, p),
    );
    let heard = learned_all(
        map,
        p.character_id,
        ends(outgoing(map.connections, p.to_zone_id)),
        KnowledgeLevel::Rumored,
        arrival(w, p),
    );
    lemma_features_keep(heard, p.to_zone_id, features(rolls.landmarks as int, rolls.features@));
    let v = explored(w, p, rolls);
    assert(v.characters == there.characters);
    assert(v.events == w.events);
    assert(campaign_hour(v) == campaign_hour(w));
    law_clock_never_goes_back(v, travel_entry(w, p, rolls));
}

/// Whether someone does not know a zone less well than before.
pub open spec fn no_less(before: Option<KnowledgeLevel>, after: Option<KnowledgeLevel>) -> bool {
    before matches Some(l) ==> after is Some && rank(after->0) >= rank(l)
}

/// Whether nobody knows any zone less well in `b` than in `a`.
pub open spec fn none_the_less(a: World, b: World) -> bool {
    forall|who: i64, what: i64|
        #![trigger zone_level(b, who, what)]
        no_less(zone_level(a, who, what), zone_level(b, who, what))
}

proof fn lemma_learned_grows(w: World, character_id: i64, zone_id: i64, level: KnowledgeLevel, hour: i64)
    ensures
        none_the_less(w, learned(w, character_id, zone_id, level, hour)),
{
    let v = learned(w, character_id, zone_id, level, hour);
    assert forall|who: i64, what: i64|
        #![trigger zone_level(v, who, what)]
        no_less(zone_level(w, who, what), zone_level(v, who, what)) by {
        law_knowledge_only_grows(w, character_id, zone_id, level, hour, who, what);
    }
}

proof fn lemma_learned_all_grows(w: World, character_id: i64, ids: Seq<i64>, level: KnowledgeLevel, hour: i64)
    ensures
        none_the_less(w, learned_all(w, character_id, ids, level, hour)),
    decreases ids.len(),
{
    if ids.len() > 0 {
        let before = learned_all(w, character_id, ids.drop_last(), level, hour);
        let after = learned_all(w, character_id, ids, level, hour);
        lemma_learned_all_grows(w, character_id, ids.drop_last(), level, hour);
        lemma_learned_grows(before, character_id, ids.last(), level, hour);
        assert forall|who: i64, what: i64|
            #![trigger zone_level(after, who, what)]
            no_less(zone_level(w, who, what), zone_level(after, who, what)) by {
            assert(no_less(zone_level(w, who, what), zone_level(before, who, what)));
        }
    }
}

/// A journey teaches and makes nobody forget: afterwards the character has been there and
/// where it came from, and nobody knows any zone less well than before.
pub proof fn law_journey_teaches(w: World, p: TravelParams, rolls: TravelRolls)
    requires
        w.wf(),
        travel_refusal(w, p) is None,
    ensures
        none_the_less(w, travelled(w, p, rolls)),
        zone_level(travelled(w, p, rolls), p.character_id, p.to_zone_id) matches Some(l) && rank(l) >= rank(
            KnowledgeLevel::Visited,
        ),
        zone_level(travelled(w, p, rolls), p.character_id, whereabouts(w, p.character_id)->0) matches Some(l)
            && rank(l) >= rank(KnowledgeLevel::Visited),
{
    let there = World { characters: arrived(w, p).characters, ..w };
    let here = learned(there, p.character_id, p.to_zone_id, KnowledgeLevel::Visited, arrival(w, p));
    let both_known = arrived(w, p);
    let map = scouted(both_known, p, rolls);
    let ids = ends(outgoing(map.connections, p.to_zone_id));
    let heard = learned_all(map, p.character_id, ids, KnowledgeLevel::Rumored, arrival(w, p));
    let v = travelled(w, p, rolls);
    lemma_learned_grows(there, p.character_id, p.to_zone_id, KnowledgeLevel::Visited, arrival(w, p));
    law_knowledge_only_grows(
        there,
        p.character_id,
        p.to_zone_id,
        KnowledgeLevel::Visited,
        arrival(w, p),
        p.character_id,
        p.to_zone_id,
    );
    let from = whereabouts(w, p.character_id)->0;
    lemma_learned_grows(here, p.character_id, from, KnowledgeLevel::Visited, campaign_hour(w));
    law_knowledge_only_grows(
        here,
        p.character_id,
        from,
        KnowledgeLevel::Visited,
        campaign_hour(w),
        p.character_id,
        from,
    );
    lemma_stubs_keep(
        both_known,
        p.to_zone_id,
        row(both_known.zones, p.to_zone_id).biome,
        directions(rolls.neighbours as int, rolls.directions@),
    );
    lemma_learned_all_grows(map, p.character_id, ids, KnowledgeLevel::Rumored, arrival(w, p));
    lemma_features_keep(heard, p.to_zone_id, features(rolls.landmarks as int, rolls.features@));
    assert(v.zone_knowledge == heard.zone_knowledge);
    assert(map.zone_knowledge == both_known.zone_knowledge);
    assert forall|who: i64, what: i64|
        #![trigger zone_level(v, who, what)]
        no_less(zone_level(w, who, what), zone_level(v, who, what)) && no_less(
            zone_level(both_known, who, what),
            zone_level(v, who, what),
        ) by {
        assert(zone_level(v, who, what) == zone_level(heard, who, what));
        assert(zone_level(map, who, what) == zone_level(both_known, who, what));
        assert(zone_level(there, who, what) == zone_level(w, who, what));
        assert(no_less(zone_level(there, who, what), zone_level(here, who, what)));
        assert(no_less(zone_level(here, who, what), zone_level(both_known, who, what)));
    }
    assert(no_less(
        zone_level(here, p.character_id, p.to_zone_id),
        zone_level(both_known, p.character_id, p.to_zone_id),
    ));
    assert(zone_level(v, p.character_id, p.to_zone_id) is Some);
    assert(zone_level(v, p.character_id, from) is Some);
}

proof fn lemma_all_learned(
    w: World,
    character_id: i64,
    ids: Seq<i64>,
    level: KnowledgeLevel,
    hour: i64,
    k: int,
)
    requires
        0 <= k < ids.len(),
    ensures
        zone_level(learned_all(w, character_id, ids, level, hour), character_id, ids[k]) matches Some(l)
            && rank(
            l,
        ) >= rank(level),
    decreases ids.len(),
{
    let rest = ids.drop_last();
    let before = learned_all(w, character_id, rest, level, hour);
    if k < rest.len() {
        assert(rest[k] == ids[k]);
        lemma_all_learned(w, character_id, rest, level, hour, k);
    }
    law_knowledge_only_grows(before, character_id, ids.last(), level, hour, character_id, ids[k]);
}

/// A traveller has heard of every zone that a way leads to from where the journey ended.
pub proof fn law_traveller_hears_of_neighbours(w: World, p: TravelParams, rolls: TravelRolls, k: int)
    requires
        w.wf(),
        travel_refusal(w, p) is None,
        0 <= k < outgoing(travelled(w, p, rolls).connections, p.to_zone_id).len(),
    ensures
        zone_level(
            travelled(w, p, rolls),
            p.character_id,
            outgoing(travelled(w, p, rolls).connections, p.to_zone_id)[k].to_zone_id,
        ) is Some,
{
    let map = scouted(arrived(w, p), p, rolls);
    let ids = ends(outgoing(map.connections, p.to_zone_id));
    let heard = learned_all(map, p.character_id, ids, KnowledgeLevel::Rumored, arrival(w, p));
    lemma_learning_keeps(map, p.character_id, ids, KnowledgeLevel::Rumored, arrival(w, p));
    lemma_features_keep(heard, p.to_zone_id, features(rolls.landmarks as int, rolls.features@));
    let v = travelled(w, p, rolls);
    assert(v.connections == map.connections);
    assert(v.zone_knowledge == heard.zone_knowledge);
    lemma_all_learned(map, p.character_id, ids, KnowledgeLevel::Rumored, arrival(w, p), k);
    let to = ids[k];
    assert(zone_level(v, p.character_id, to) == zone_level(heard, p.character_id, to));
}

/// No journey ends in a dead end: where no more than one way led out of the zone, there are
/// two to four more of them now.
pub proof fn law_no_journey_ends_in_a_dead_end(w: World, p: TravelParams, rolls: TravelRolls)
    requires
        w.wf(),
        w.room(),
        travel_refusal(w, p) is None,
        travel_rolls_ok(rolls),
    ensures
        ({
            let before = outgoing(w.connections, p.to_zone_id).len();
            let after = outgoing(travelled(w, p, rolls).connections, p.to_zone_id).len();
            &&& after >= 2
            &&& before <= 1 ==> before + 2 <= after <= before + 4
            &&& before > 1 ==> after == before
        }),
{
    lemma_tables(w);
    let from = whereabouts(w, p.character_id)->0;
    lemma_way(w.connections, from, p.to_zone_id, w.connections.len());
    let e = way(w, from, p.to_zone_id)->0;
    assert(w.connection_ok(w.connections[e])) by {
        reveal(World::wf);
    }
    let there = arrived(w, p);
    let map = scouted(there, p, rolls);
    let ids = ends(outgoing(map.connections, p.to_zone_id));
    let heard = learned_all(map, p.character_id, ids, KnowledgeLevel::Rumored, arrival(w, p));
    lemma_learning_keeps(map, p.character_id, ids, KnowledgeLevel::Rumored, arrival(w, p));
    lemma_features_keep(heard, p.to_zone_id, features(rolls.landmarks as int, rolls.features@));
    assert(travelled(w, p, rolls).connections == map.connections);
    let ds = directions(rolls.neighbours as int, rolls.directions@);
    law_neighbours_lie_apart(rolls.neighbours as int, rolls.directions@);
    lemma_stub_ways(there, p.to_zone_id, row(there.zones, p.to_zone_id).biome, ds);
}

/// The map after a journey has its end in the middle and, where a way leads back, shows the
/// zone that the character came from.
pub proof fn law_map_shows_the_journey(w: World, p: TravelParams, rolls: TravelRolls, after: World)
    requires
        w.wf(),
        travel_refusal(w, p) is None,
        after == travelled(w, p, rolls),
        after.wf(),
        after.zones.len() < i32::MAX,
    ensures
        ({
            let spots = surveyed(after, p.character_id, p.to_zone_id);
            let from = whereabouts(w, p.character_id)->0;
            &&& spots.len() > 0
            &&& spots[0] == (Spot { zone_id: p.to_zone_id, x: 0, y: 0 })
            &&& way(after, p.to_zone_id, from) is Some ==> spot_at(spots, from) is Some
        }),
{
    let from = whereabouts(w, p.character_id)->0;
    law_journey_teaches(w, p, rolls);
    law_map_shows_known_ground(after, p.character_id, p.to_zone_id);
    lemma_way(after.connections, p.to_zone_id, from, after.connections.len());
    if let Some(e) = way(after, p.to_zone_id, from) {
        let spots = surveyed(after, p.character_id, p.to_zone_id);
        assert(spots[0].zone_id == after.connections[e].from_zone_id);
    }
}

} // verus!
