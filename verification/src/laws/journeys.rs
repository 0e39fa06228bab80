//! Laws of the world: how one gets from place to place, what is found there and what is known
//! of it.

use vstd::prelude::*;
use crate::campaign::{lemma_character, lemma_tables, next_id, put, row, World};
use crate::laws::{lemma_put_changes, only_changes};
use crate::rows::{
    views, Character, Connection, Direction, KnowledgeLevel, Landmark, LandmarkKnowledge, Phase, SetupAnswer, Zone,
    ZoneKind,
};
use crate::setup::{answer_among, answered, ready, spaced, starting_name, AnswerParams, MarkReadyParams};
use crate::survey::{spot_at, surveyed, Spot};
use crate::terrain::{
    directions, ends, features, knowledge_at, law_knowledge_only_grows, learned, learned_all,
    lemma_knowledge_among, opposite, outgoing, rank, with_feature, with_features, with_stub, zone_level,
};
use crate::text::opt_text;
use crate::world::{
    all_ways_on_map, arrival, arrived, campaign_hour, describe_ok, landmark_level, law_journey_takes_its_time,
    lemma_features_keep, lemma_latest_hour, lemma_learning_keeps, lemma_stubs_keep, lemma_way, map_ok, scouted,
    shown_landmarks, shown_way, shown_zones, travel_ok, travel_refusal, travel_rolls_ok, travelled, way,
    ways_on_map, whereabouts, DescribeZoneParams, DescribeZoneResult, MapParams, MapResult, TravelParams,
    TravelResult, TravelRolls,
};

verus! {

// ── Travel ──

/// Whether the way leads from the one zone to the other and takes so long.
pub open spec fn connects(e: Connection, from: i64, to: i64, hours: int) -> bool {
    e.from_zone_id == from && e.to_zone_id == to && e.travel_time_hours == hours
}

/// A journey goes along a way that there is, from where the character is, and takes as long as
/// that way does. Then the character is there, and otherwise it is what it was; nobody else
/// moves, and nothing changes hands.
pub proof fn law_journey_goes_along_a_way(
    w: World,
    p: TravelParams,
    rolls: TravelRolls,
    after: World,
    r: TravelResult,
)
    requires
        w.wf(),
        w.room(),
        travel_refusal(w, p) is None,
        travel_ok(w, p, rolls, after, r),
    ensures
        ({
            let a = row(w.characters, p.character_id);
            let b = row(after.characters, p.character_id);
            &&& a.current_zone_id == Some(r.from_zone_id)
            &&& r.from_zone_id != p.to_zone_id
            &&& exists|k: int|
                0 <= k < w.connections.len() && connects(
                    #[trigger] w.connections[k],
                    r.from_zone_id,
                    p.to_zone_id,
                    r.travel_time_hours as int,
                )
            &&& r.campaign_hour_before == campaign_hour(w)
            &&& r.campaign_hour_after - r.campaign_hour_before == r.travel_time_hours
            &&& campaign_hour(after) == r.campaign_hour_after
            &&& b.current_zone_id == Some(p.to_zone_id)
            &&& b == (Character { current_zone_id: b.current_zone_id, updated_at: b.updated_at, ..a })
            &&& only_changes(w.characters, after.characters, p.character_id)
            &&& after.items == w.items && after.conditions == w.conditions && after.effects == w.effects
            &&& after.resources == w.resources && after.proficiencies == w.proficiencies
        }),
{
    lemma_tables(w);
    lemma_character(w, p.character_id);
    lemma_latest_hour(w.events, crate::campaign::HOUR_LIMIT as int);
    law_journey_takes_its_time(w, p, rolls);
    let from = whereabouts(w, p.character_id)->0;
    lemma_way(w.connections, from, p.to_zone_id, w.connections.len());
    let k = way(w, from, p.to_zone_id)->0;
    assert(w.connection_ok(w.connections[k])) by {
        reveal(World::wf);
    }
    assert(connects(w.connections[k], r.from_zone_id, p.to_zone_id, r.travel_time_hours as int));
    let ch = Character {
        current_zone_id: Some(p.to_zone_id),
        updated_at: arrival(w, p),
        ..row(w.characters, p.character_id)
    };
    lemma_put_changes(w.characters, ch);
    let there = arrived(w, p);
    let map = scouted(there, p, rolls);
    lemma_stubs_keep(
        there,
        p.to_zone_id,
        row(there.zones, p.to_zone_id).biome,
        directions(rolls.neighbours as int, rolls.directions@),
    );
    lemma_learning_keeps(
        map,
        p.character_id,
        ends(outgoing(map.connections, p.to_zone_id)),
        KnowledgeLevel::Rumored,
        arrival(w, p),
    );
    let heard = learned_all(
        map,
        p.character_id,
        ends(outgoing(map.connections, p.to_zone_id)),
        KnowledgeLevel::Rumored,
        arrival(w, p),
    );
    lemma_features_keep(heard, p.to_zone_id, features(rolls.landmarks as int, rolls.features@));
    assert(after.characters == put(w.characters, ch));
}

proof fn lemma_others_learn_nothing(
    w: World,
    character_id: i64,
    ids: Seq<i64>,
    level: KnowledgeLevel,
    hour: i64,
    who: i64,
    what: i64,
)
    requires
        who != character_id,
    ensures
        zone_level(learned_all(w, character_id, ids, level, hour), who, what) == zone_level(w, who, what),
    decreases ids.len(),
{
    if ids.len() > 0 {
        lemma_others_learn_nothing(w, character_id, ids.drop_last(), level, hour, who, what);
        law_knowledge_only_grows(
            learned_all(w, character_id, ids.drop_last(), level, hour),
            character_id,
            ids.last(),
            level,
            hour,
            who,
            what,
        );
    }
}

/// Only the traveller learns by a journey.
pub proof fn law_others_learn_nothing(w: World, p: TravelParams, rolls: TravelRolls, who: i64, what: i64)
    requires
        who != p.character_id,
    ensures
        zone_level(travelled(w, p, rolls), who, what) == zone_level(w, who, what),
{
    let there = World {
        characters: put(
            w.characters,
            Character {
                current_zone_id: Some(p.to_zone_id),
                updated_at: arrival(w, p),
                ..row(w.characters, p.character_id)
            },
        ),
        ..w
    };
    let a = learned(there, p.character_id, p.to_zone_id, KnowledgeLevel::Visited, arrival(w, p));
    law_knowledge_only_grows(
        there,
        p.character_id,
        p.to_zone_id,
        KnowledgeLevel::Visited,
        arrival(w, p),
        who,
        what,
    );
    law_knowledge_only_grows(
        a,
        p.character_id,
        whereabouts(w, p.character_id)->0,
        KnowledgeLevel::Visited,
        campaign_hour(w),
        who,
        what,
    );
    let b = arrived(w, p);
    assert(zone_level(there, who, what) == zone_level(w, who, what));
    assert(zone_level(b, who, what) == zone_level(w, who, what));
    let map = scouted(b, p, rolls);
    lemma_stubs_keep(
        b,
        p.to_zone_id,
        row(b.zones, p.to_zone_id).biome,
        directions(rolls.neighbours as int, rolls.directions@),
    );
    assert(map.zone_knowledge == b.zone_knowledge);
    let near = ends(outgoing(map.connections, p.to_zone_id));
    lemma_others_learn_nothing(map, p.character_id, near, KnowledgeLevel::Rumored, arrival(w, p), who, what);
    let heard = learned_all(map, p.character_id, near, KnowledgeLevel::Rumored, arrival(w, p));
    lemma_features_keep(heard, p.to_zone_id, features(rolls.landmarks as int, rolls.features@));
    assert(travelled(w, p, rolls).zone_knowledge == heard.zone_knowledge);
}

/// One can hear of a place, know it, have been there, or have mapped it, each of which is more
/// than the one before. Learning leaves the greater of what was known and what is learned.
pub proof fn law_learning_leaves_the_greater(
    w: World,
    character_id: i64,
    zone_id: i64,
    level: KnowledgeLevel,
    hour: i64,
)
    ensures
        rank(KnowledgeLevel::Rumored) < rank(KnowledgeLevel::Known),
        rank(KnowledgeLevel::Known) < rank(KnowledgeLevel::Visited),
        rank(KnowledgeLevel::Visited) < rank(KnowledgeLevel::Mapped),
        ({
            let before = zone_level(w, character_id, zone_id);
            let after = zone_level(learned(w, character_id, zone_id, level, hour), character_id, zone_id);
            &&& after is Some
            &&& before is None ==> after == Some(level)
            &&& before matches Some(a) ==> after == Some(a) || after == Some(level)
            &&& before matches Some(a) ==> rank(after->0) >= rank(a) && rank(after->0) >= rank(level)
        }),
        ({
            let v = learned(w, character_id, zone_id, level, hour);
            let k = knowledge_at(v, character_id, zone_id);
            k matches Some(i) && v.zone_knowledge[i].last_visit_at_hour == Some(hour)
        }),
{
    law_knowledge_only_grows(w, character_id, zone_id, level, hour, character_id, zone_id);
    let v = learned(w, character_id, zone_id, level, hour);
    lemma_knowledge_among(w.zone_knowledge, character_id, zone_id, w.zone_knowledge.len());
    lemma_knowledge_among(v.zone_knowledge, character_id, zone_id, v.zone_knowledge.len());
    match knowledge_at(w, character_id, zone_id) {
        Some(k) => {
            lemma_same_places(w.zone_knowledge, v.zone_knowledge, character_id, zone_id, w.zone_knowledge.len());
        },
        None => {},
    }
}

proof fn lemma_same_places(
    a: Seq<crate::rows::ZoneKnowledge>,
    b: Seq<crate::rows::ZoneKnowledge>,
    who: i64,
    what: i64,
    n: nat,
)
    requires
        n <= a.len(),
        a.len() == b.len(),
        forall|i: int|
            0 <= i < a.len() ==> (#[trigger] b[i]).character_id == a[i].character_id && b[i].zone_id
                == a[i].zone_id,
    ensures
        crate::terrain::knowledge_among(a, who, what, n) == crate::terrain::knowledge_among(b, who, what, n),
    decreases n,
{
    if n > 0 {
        lemma_same_places(a, b, who, what, (n - 1) as nat);
        assert(b[n - 1].zone_id == a[n - 1].zone_id);
    }
}

// ── New ground ──

/// New ground is wilderness of the same kind as where it was found from. A way leads there in
/// the direction in which it lies, and one leads back the opposite way, which takes as long; both
/// can be gone either way.
pub proof fn law_new_ground_is_joined(w: World, zone_id: i64, biome: Seq<char>, d: Direction)
    ensures
        ({
            let v = with_stub(w, zone_id, biome, d);
            let z = v.zones.last();
            let n = w.connections.len() as int;
            let there = v.connections[n];
            let back = v.connections[n + 1];
            &&& v.zones == w.zones.push(z)
            &&& z.id == next_id(w.zones)
            &&& z.biome == biome
            &&& z.kind == ZoneKind::Wilderness
            &&& v.connections == w.connections.push(there).push(back)
            &&& there.from_zone_id == zone_id && there.to_zone_id == z.id && there.direction_from == d
            &&& back.from_zone_id == z.id && back.to_zone_id == zone_id && back.direction_from == opposite(d)
            &&& back.travel_time_hours == there.travel_time_hours && there.travel_time_hours == 2
            &&& !there.one_way && !back.one_way
            &&& v.characters == w.characters && v.zone_knowledge == w.zone_knowledge
        }),
{
}

/// What is found in a zone can be seen there, and is added to what there is.
pub proof fn law_new_features_can_be_seen(w: World, zone_id: i64, k: int)
    ensures
        ({
            let v = with_feature(w, zone_id, k);
            let l = v.landmarks.last();
            &&& v.landmarks == w.landmarks.push(l)
            &&& l.id == next_id(w.landmarks)
            &&& l.zone_id == zone_id
            &&& !l.hidden
        }),
{
}

// ── Looking around ──

/// Of the landmarks of a zone those are shown that are not hidden, each as it is and as well as
/// the character knows it; one that it knows nothing of, as a rumour.
pub proof fn law_landmarks_are_shown(
    w: World,
    character_id: i64,
    zone_id: i64,
    rows: Seq<Landmark<Seq<char>>>,
    l: Landmark<Seq<char>>,
)
    ensures
        ({
            let a = shown_landmarks(w, character_id, zone_id, rows);
            let b = shown_landmarks(w, character_id, zone_id, rows.push(l));
            let x = b.last();
            &&& l.hidden || l.zone_id != zone_id ==> b == a
            &&& !l.hidden && l.zone_id == zone_id ==> {
                &&& b == a.push(x)
                &&& x.id == l.id
                &&& x.name == l.name
                &&& x.kind == l.kind.text()
                &&& w.landmark_knowledge.len() == 0 ==> x.knowledge_level == KnowledgeLevel::Rumored.text()
            }
        }),
{
    assert(rows.push(l).drop_last() =~= rows);
}

/// How well a character knows a landmark is what was last noted of it, and of nobody else.
pub proof fn law_landmarks_are_known(rows: Seq<LandmarkKnowledge>, e: LandmarkKnowledge, who: i64, what: i64, n: nat)
    requires
        n == rows.len(),
    ensures
        ({
            let a = landmark_level(rows, who, what, n);
            let b = landmark_level(rows.push(e), who, what, n + 1);
            &&& e.character_id == who && e.landmark_id == what ==> b == e.level
            &&& e.character_id != who || e.landmark_id != what ==> b == a
            &&& n == 0 ==> a == KnowledgeLevel::Rumored
        }),
{
    lemma_landmark_prefix(rows, rows.push(e), who, what, n);
}

proof fn lemma_landmark_prefix(
    a: Seq<LandmarkKnowledge>,
    b: Seq<LandmarkKnowledge>,
    who: i64,
    what: i64,
    n: nat,
)
    requires
        n <= a.len(),
        n <= b.len(),
        forall|i: int| 0 <= i < n ==> #[trigger] a[i] == b[i],
    ensures
        landmark_level(a, who, what, n) == landmark_level(b, who, what, n),
    decreases n,
{
    if n > 0 {
        lemma_landmark_prefix(a, b, who, what, (n - 1) as nat);
        assert(a[n - 1] == b[n - 1]);
    }
}

/// The ways out of a zone are all those that start there, and each is shown as it is.
pub proof fn law_ways_are_shown(rows: Seq<Connection>, e: Connection, from: i64)
    ensures
        outgoing(Seq::empty(), from).len() == 0,
        e.from_zone_id == from ==> outgoing(rows.push(e), from) == outgoing(rows, from).push(e),
        e.from_zone_id != from ==> outgoing(rows.push(e), from) == outgoing(rows, from),
        ({
            let x = shown_way(e);
            &&& x.from_zone_id == e.from_zone_id
            &&& x.to_zone_id == e.to_zone_id
            &&& x.direction_from == e.direction_from.text()
            &&& x.travel_time_hours == e.travel_time_hours
            &&& x.one_way == e.one_way
        }),
{
    assert(rows.push(e).drop_last() =~= rows);
}

/// What is told of a zone is what it is.
pub proof fn law_zone_is_described(w: World, p: DescribeZoneParams, r: DescribeZoneResult)
    requires
        describe_ok(w, p, r),
    ensures
        ({
            let z = row(w.zones, p.zone_id);
            &&& r.zone_id == p.zone_id
            &&& r.name@ == z.name
            &&& r.biome@ == z.biome
            &&& r.kind@ == z.kind.text()
            &&& r.size@ == z.size.text()
            &&& opt_text(r.description) == z.description
            &&& zone_level(w, p.character_id, p.zone_id) matches Some(l) ==> r.knowledge_level@ == l.text()
        }),
        r.connections@.len() == outgoing(w.connections, p.zone_id).len(),
{
    assert(views(r.connections@).len() == r.connections@.len());
}

/// Whether the zone is shown on the map at this spot as what it is.
pub open spec fn shown_at(w: World, who: i64, z: Zone<Seq<char>>, s: Spot, x: crate::world::MapZoneView) -> bool {
    &&& x.id == z.id && s.zone_id == z.id
    &&& x.name == z.name
    &&& x.biome == z.biome
    &&& x.kind == z.kind.text()
    &&& x.x == s.x && x.y == s.y
    &&& zone_level(w, who, z.id) matches Some(l) ==> x.knowledge_level == l.text()
}

proof fn lemma_shown_zones(w: World, who: i64, spots: Seq<Spot>, rows: Seq<Zone<Seq<char>>>, k: int)
    requires
        0 <= k < shown_zones(w, who, spots, rows).len(),
    ensures
        exists|i: int, j: int|
            0 <= i < rows.len() && 0 <= j < spots.len() && #[trigger] shown_at(
                w,
                who,
                rows[i],
                spots[j],
                shown_zones(w, who, spots, rows)[k],
            ),
    decreases rows.len(),
{
    let rest = shown_zones(w, who, spots, rows.drop_last());
    let x = shown_zones(w, who, spots, rows)[k];
    if k < rest.len() {
        lemma_shown_zones(w, who, spots, rows.drop_last(), k);
        let (i, j) = choose|i: int, j: int|
            0 <= i < rows.drop_last().len() && 0 <= j < spots.len() && #[trigger] shown_at(
                w,
                who,
                rows.drop_last()[i],
                spots[j],
                rest[k],
            );
        assert(shown_at(w, who, rows[i], spots[j], x));
    } else {
        crate::survey::lemma_spot(spots, rows.last().id, spots.len());
        let j = spot_at(spots, rows.last().id)->0;
        assert(shown_at(w, who, rows[rows.len() - 1], spots[j], x));
    }
}

/// Each zone on a map is one that there is, shown as what it is, where it was found to lie.
pub proof fn law_map_shows_zones_as_they_are(w: World, p: MapParams, r: MapResult, k: int)
    requires
        map_ok(w, p, r),
        0 <= k < r.zones@.len(),
    ensures
        ({
            let spots = surveyed(w, p.character_id, r.origin_zone_id);
            &&& whereabouts(w, p.character_id) matches Some(z) ==> r.origin_zone_id == z
            &&& exists|i: int, j: int|
                0 <= i < w.zones.len() && 0 <= j < spots.len() && #[trigger] shown_at(
                    w,
                    p.character_id,
                    w.zones[i],
                    spots[j],
                    views(r.zones@)[k],
                )
        }),
{
    let spots = surveyed(w, p.character_id, r.origin_zone_id);
    assert(views(r.zones@).len() == r.zones@.len());
    lemma_shown_zones(w, p.character_id, spots, w.zones, k);
}

// ── Beginnings ──

/// The first zone is named after its biome, with spaces for underlines.
pub proof fn law_first_zone_is_named_after_its_biome(biome: Seq<char>, i: int)
    ensures
        starting_name(biome).len() == "Starting "@.len() + biome.len(),
        spaced(biome).len() == biome.len(),
        0 <= i < biome.len() && biome[i] != '_' ==> spaced(biome)[i] == biome[i],
        0 <= i < biome.len() && biome[i] == '_' ==> spaced(biome)[i] == ' ',
        starting_name(biome).take("Starting "@.len() as int) == "Starting "@,
{
    assert(starting_name(biome).take("Starting "@.len() as int) =~= "Starting "@);
}

/// When all is ready the campaign runs, from that moment on, with the character that was named.
/// Nothing else changes.
pub proof fn law_campaign_runs_when_ready(w: World, p: MarkReadyParams, now: i64)
    ensures
        ({
            let v = ready(w, p, now);
            &&& v.state.phase == Phase::Running
            &&& v.state.started_at == Some(now)
            &&& v.state.player_character_id == p.player_character_id
            &&& v.characters == w.characters && v.zones == w.zones && v.answers == w.answers
        }),
{
}

/// The ways on a map are those that lead from one zone on it to another.
pub proof fn law_map_shows_the_ways_between(
    w: World,
    spots: Seq<Spot>,
    ways: Seq<Connection>,
    e: Connection,
    rows: Seq<Zone<Seq<char>>>,
    z: Zone<Seq<char>>,
)
    ensures
        ({
            let on_map = exists|i: int| 0 <= i < spots.len() && (#[trigger] spots[i]).zone_id == e.to_zone_id;
            &&& on_map ==> ways_on_map(spots, ways.push(e)) == ways_on_map(spots, ways).push(shown_way(e))
            &&& !on_map ==> ways_on_map(spots, ways.push(e)) == ways_on_map(spots, ways)
            &&& ways_on_map(spots, Seq::empty()).len() == 0
        }),
        ({
            let on_map = exists|i: int| 0 <= i < spots.len() && (#[trigger] spots[i]).zone_id == z.id;
            &&& on_map ==> all_ways_on_map(w, spots, rows.push(z)) == all_ways_on_map(w, spots, rows) + ways_on_map(
                spots,
                outgoing(w.connections, z.id),
            )
            &&& !on_map ==> all_ways_on_map(w, spots, rows.push(z)) == all_ways_on_map(w, spots, rows)
            &&& all_ways_on_map(w, spots, Seq::empty()).len() == 0
        }),
{
    assert(ways.push(e).drop_last() =~= ways);
    assert(rows.push(z).drop_last() =~= rows);
    crate::survey::lemma_spot(spots, e.to_zone_id, spots.len());
    crate::survey::lemma_spot(spots, z.id, spots.len());
}

// ── What a journey finds ──

proof fn lemma_features_len(w: World, zone_id: i64, ks: Seq<usize>)
    ensures
        with_features(w, zone_id, ks).landmarks.len() == w.landmarks.len() + ks.len(),
    decreases ks.len(),
{
    if ks.len() > 0 {
        lemma_features_len(w, zone_id, ks.drop_last());
    }
}

/// Features are found on the first visit and on no later one; new ground is found where there was
/// at most one way out, and nowhere else. What is found is told.
pub proof fn law_what_a_journey_finds(
    w: World,
    p: TravelParams,
    rolls: TravelRolls,
    after: World,
    r: TravelResult,
)
    requires
        w.wf(),
        w.room(),
        travel_refusal(w, p) is None,
        travel_rolls_ok(rolls),
        travel_ok(w, p, rolls, after, r),
    ensures
        ({
            let level = zone_level(w, p.character_id, p.to_zone_id);
            let been = level == Some(KnowledgeLevel::Visited) || level == Some(KnowledgeLevel::Mapped);
            let ways = outgoing(w.connections, p.to_zone_id).len();
            &&& been ==> r.landmarks_generated@.len() == 0
            &&& !been ==> 1 <= r.landmarks_generated@.len() <= 2
            &&& after.landmarks.len() == w.landmarks.len() + r.landmarks_generated@.len()
            &&& ways >= 2 ==> r.stubs_generated@.len() == 0
            &&& ways <= 1 ==> 2 <= r.stubs_generated@.len() <= 4
            &&& after.zones.len() == w.zones.len() + r.stubs_generated@.len()
            &&& after.connections.len() == w.connections.len() + 2 * r.stubs_generated@.len()
        }),
{
    lemma_tables(w);
    let there = arrived(w, p);
    let map = scouted(there, p, rolls);
    let ds = directions(rolls.neighbours as int, rolls.directions@);
    crate::terrain::law_neighbours_lie_apart(rolls.neighbours as int, rolls.directions@);
    crate::terrain::law_features_differ(rolls.landmarks as int, rolls.features@);
    let biome = row(there.zones, p.to_zone_id).biome;
    assert(there.zones == w.zones && there.connections == w.connections && there.landmarks == w.landmarks);
    crate::terrain::lemma_stubs(there, p.to_zone_id, biome, ds);
    lemma_stubs_keep(there, p.to_zone_id, biome, ds);
    let near = ends(outgoing(map.connections, p.to_zone_id));
    lemma_learning_keeps(map, p.character_id, near, KnowledgeLevel::Rumored, arrival(w, p));
    let heard = learned_all(map, p.character_id, near, KnowledgeLevel::Rumored, arrival(w, p));
    let ks = features(rolls.landmarks as int, rolls.features@);
    lemma_features_keep(heard, p.to_zone_id, ks);
    lemma_features_len(heard, p.to_zone_id, ks);
}

/// An answer is kept under its question, with when it was given; all other answers stay.
pub proof fn law_answers_are_kept(w: World, p: AnswerParams, now: i64, i: int)
    ensures
        ({
            let after = answered(w, p, now).answers;
            &&& exists|k: int|
                0 <= k < after.len() && (#[trigger] after[k]).question_id == p.question_id@ && after[k].answer
                    == p.answer@ && after[k].answered_at == now
            &&& w.answers.len() <= after.len() <= w.answers.len() + 1
            &&& 0 <= i < w.answers.len() && w.answers[i].question_id != p.question_id@ ==> after[i] == w.answers[i]
            &&& answered(w, p, now).characters == w.characters && answered(w, p, now).zones == w.zones
        }),
{
    lemma_answer_at(w.answers, p.question_id@, w.answers.len());
    let after = answered(w, p, now).answers;
    match answer_among(w.answers, p.question_id@, w.answers.len()) {
        Some(k) => {
            assert(after[k].answered_at == now);
        },
        None => {
            assert(after[w.answers.len() as int].answered_at == now);
        },
    }
}

proof fn lemma_answer_at(rows: Seq<SetupAnswer<Seq<char>>>, question: Seq<char>, n: nat)
    requires
        n <= rows.len(),
    ensures
        answer_among(rows, question, n) matches Some(k) ==> 0 <= k < n && rows[k].question_id == question,
    decreases n,
{
    if n > 0 {
        lemma_answer_at(rows, question, (n - 1) as nat);
    }
}

} // verus!
