//! The lie of the land: directions, ways between zones, the unexplored, and what characters
//! know of it all.

use vstd::prelude::*;
use crate::campaign::{
    index_of, lemma_index, lemma_push, lemma_row, lemma_tables, listed, next_id, ordered, row, top,
    Campaign, World,
};
use crate::random::{draws_ok, law_shuffling_keeps_all, shuffle, shuffled};
use crate::rows::{
    Connection, Direction, KnowledgeLevel, Landmark, LandmarkKind, TravelMode, Zone, ZoneKind,
    ZoneKnowledge, ZoneSize,
};

verus! {

// ── Directions ──

/// The way back.
pub open spec fn opposite(d: Direction) -> Direction {
    match d {
        Direction::N => Direction::S,
        Direction::S => Direction::N,
        Direction::E => Direction::W,
        Direction::W => Direction::E,
        Direction::Ne => Direction::Sw,
        Direction::Sw => Direction::Ne,
        Direction::Nw => Direction::Se,
        Direction::Se => Direction::Nw,
        Direction::Up => Direction::Down,
        Direction::Down => Direction::Up,
    }
}

/// The step on the map: east and north count up, and a diagonal takes both. What goes up or
/// down stays where it is.
pub open spec fn delta(d: Direction) -> (int, int) {
    match d {
        Direction::N => (0, 1),
        Direction::Ne => (1, 1),
        Direction::E => (1, 0),
        Direction::Se => (1, -1),
        Direction::S => (0, -1),
        Direction::Sw => (-1, -1),
        Direction::W => (-1, 0),
        Direction::Nw => (-1, 1),
        Direction::Up => (0, 0),
        Direction::Down => (0, 0),
    }
}

/// What lies in the direction is called after it.
pub open spec fn label(d: Direction) -> Seq<char> {
    match d {
        Direction::N => "North"@,
        Direction::Ne => "Northeast"@,
        Direction::E => "East"@,
        Direction::Se => "Southeast"@,
        Direction::S => "South"@,
        Direction::Sw => "Southwest"@,
        Direction::W => "West"@,
        Direction::Nw => "Northwest"@,
        Direction::Up => "Above"@,
        Direction::Down => "Below"@,
    }
}

/// The way back.
pub fn opposite_direction(d: Direction) -> (r: Direction)
    ensures
        r == opposite(d),
{
    match d {
        Direction::N => Direction::S,
        Direction::S => Direction::N,
        Direction::E => Direction::W,
        Direction::W => Direction::E,
        Direction::Ne => Direction::Sw,
        Direction::Sw => Direction::Ne,
        Direction::Nw => Direction::Se,
        Direction::Se => Direction::Nw,
        Direction::Up => Direction::Down,
        Direction::Down => Direction::Up,
    }
}

/// The step on the map.
pub fn direction_delta(d: Direction) -> (r: (i32, i32))
    ensures
        (r.0 as int, r.1 as int) == delta(d),
        -1 <= r.0 <= 1,
        -1 <= r.1 <= 1,
{
    match d {
        Direction::N => (0, 1),
        Direction::Ne => (1, 1),
        Direction::E => (1, 0),
        Direction::Se => (1, -1),
        Direction::S => (0, -1),
        Direction::Sw => (-1, -1),
        Direction::W => (-1, 0),
        Direction::Nw => (-1, 1),
        Direction::Up => (0, 0),
        Direction::Down => (0, 0),
    }
}

/// What lies in the direction is called after it.
pub fn direction_label(d: Direction) -> (r: &'static str)
    ensures
        r@ == label(d),
{
    match d {
        Direction::N => "North",
        Direction::Ne => "Northeast",
        Direction::E => "East",
        Direction::Se => "Southeast",
        Direction::S => "South",
        Direction::Sw => "Southwest",
        Direction::W => "West",
        Direction::Nw => "Northwest",
        Direction::Up => "Above",
        Direction::Down => "Below",
    }
}

/// The way back from the way back is the way there, and it undoes the step.
pub proof fn law_way_back(d: Direction)
    ensures
        opposite(opposite(d)) == d,
        opposite(d) != d,
        delta(opposite(d)) == (-delta(d).0, -delta(d).1),
{
}

/// The points of the compass, clockwise from the north.
pub open spec fn compass() -> Seq<Direction> {
    seq![
        Direction::N,
        Direction::Ne,
        Direction::E,
        Direction::Se,
        Direction::S,
        Direction::Sw,
        Direction::W,
        Direction::Nw,
    ]
}

/// The directions in which neighbours are laid: the first `n` of the shuffled compass.
pub open spec fn directions(n: int, draws: Seq<usize>) -> Seq<Direction> {
    shuffled(compass(), draws).take(n)
}

/// Neighbours are laid in different directions.
pub proof fn law_neighbours_lie_apart(n: int, draws: Seq<usize>)
    requires
        0 <= n <= 8,
        draws_ok(8, draws),
    ensures
        directions(n, draws).len() == n,
        directions(n, draws).no_duplicates(),
{
    assert(compass().no_duplicates());
    law_shuffling_keeps_all(compass(), draws);
}

/// The directions in which neighbours are laid.
pub(crate) fn choose_directions(n: usize, draws: &Vec<usize>) -> (r: Vec<Direction>)
    requires
        n <= 8,
        draws_ok(8, draws@),
    ensures
        r@ == directions(n as int, draws@),
        r.len() == n,
{
    let mut all: Vec<Direction> = Vec::new();
    all.push(Direction::N);
    all.push(Direction::Ne);
    all.push(Direction::E);
    all.push(Direction::Se);
    all.push(Direction::S);
    all.push(Direction::Sw);
    all.push(Direction::W);
    all.push(Direction::Nw);
    assert(all@ =~= compass());
    shuffle(&mut all, draws);
    let mut out: Vec<Direction> = Vec::new();
    let mut k: usize = 0;
    while k < n
        invariant
            k <= n <= 8,
            all@.len() == 8,
            out@ == all@.take(k as int),
        decreases n - k,
    {
        out.push(all[k]);
        assert(out@ =~= all@.take(k + 1));
        k = k + 1;
    }
    out
}

// ── Ways ──

/// The ways that lead out of a zone, in the order in which they were made.
pub open spec fn outgoing(rows: Seq<Connection>, from: i64) -> Seq<Connection>
    decreases rows.len(),
{
    if rows.len() == 0 {
        Seq::empty()
    } else {
        let rest = outgoing(rows.drop_last(), from);
        if rows.last().from_zone_id == from {
            rest.push(rows.last())
        } else {
            rest
        }
    }
}

/// Where the ways lead.
pub open spec fn ends(ways: Seq<Connection>) -> Seq<i64> {
    Seq::new(ways.len(), |k: int| ways[k].to_zone_id)
}

/// What leads out of a zone is a way of the map that begins there.
pub proof fn lemma_outgoing(rows: Seq<Connection>, from: i64)
    ensures
        outgoing(rows, from).len() <= rows.len(),
        forall|k: int|
            0 <= k < outgoing(rows, from).len() ==> {
                &&& (#[trigger] outgoing(rows, from)[k]).from_zone_id == from
                &&& rows.contains(outgoing(rows, from)[k])
            },
    decreases rows.len(),
{
    if rows.len() > 0 {
        let rest = rows.drop_last();
        lemma_outgoing(rest, from);
        let all = outgoing(rows, from);
        assert forall|k: int| 0 <= k < all.len() implies {
            &&& (#[trigger] all[k]).from_zone_id == from
            &&& rows.contains(all[k])
        } by {
            if k < outgoing(rest, from).len() {
                assert(all[k] == outgoing(rest, from)[k]);
                let j = choose|j: int| 0 <= j < rest.len() && rest[j] == all[k];
                assert(rows[j] == all[k]);
            } else {
                assert(rows[rows.len() - 1] == all[k]);
            }
        }
    }
}

pub(crate) fn copy_connection(r: &Connection) -> (v: Connection)
    ensures
        v == *r,
{
    Connection {
        from_zone_id: r.from_zone_id,
        to_zone_id: r.to_zone_id,
        travel_time_hours: r.travel_time_hours,
        travel_mode: r.travel_mode,
        one_way: r.one_way,
        direction_from: r.direction_from,
    }
}

/// The ways that lead out of a zone.
pub(crate) fn read_outgoing_edges(c: &Campaign, from: i64) -> (r: Vec<Connection>)
    ensures
        r@ == outgoing(c@.connections, from),
        r.len() <= c.connections.len(),
{
    let rows = &c.connections;
    let mut out: Vec<Connection> = Vec::new();
    let mut i: usize = 0;
    while i < rows.len()
        invariant
            i <= rows.len(),
            out.len() <= i,
            out@ == outgoing(rows@.take(i as int), from),
        decreases rows.len() - i,
    {
        assert(rows@.take(i + 1).drop_last() =~= rows@.take(i as int));
        if rows[i].from_zone_id == from {
            out.push(copy_connection(&rows[i]));
        }
        i = i + 1;
    }
    assert(rows@.take(i as int) =~= rows@);
    assert(c@.connections =~= rows@);
    out
}

// ── The unexplored ──

/// How long the way to a new neighbour takes.
pub const STUB_HOURS: i32 = 2;

/// A zone that nobody has been to yet.
pub open spec fn stub(id: i64, biome: Seq<char>, d: Direction) -> Zone<Seq<char>> {
    Zone {
        id,
        name: "Unexplored "@ + label(d),
        biome,
        kind: ZoneKind::Wilderness,
        size: ZoneSize::Small,
        description: None,
    }
}

/// A way through the wilderness.
pub open spec fn trail(from: i64, to: i64, d: Direction) -> Connection {
    Connection {
        from_zone_id: from,
        to_zone_id: to,
        travel_time_hours: STUB_HOURS,
        travel_mode: TravelMode::Wilderness,
        one_way: false,
        direction_from: d,
    }
}

/// The map with a new neighbour in the direction, and the way there and back.
pub open spec fn with_stub(w: World, zone_id: i64, biome: Seq<char>, d: Direction) -> World {
    let id = next_id(w.zones);
    World {
        zones: w.zones.push(stub(id, biome, d)),
        connections: w.connections.push(trail(zone_id, id, d)).push(trail(id, zone_id, opposite(d))),
        ..w
    }
}

/// The map with a new neighbour in each of the directions.
pub open spec fn with_stubs(w: World, zone_id: i64, biome: Seq<char>, ds: Seq<Direction>) -> World
    decreases ds.len(),
{
    if ds.len() == 0 {
        w
    } else {
        with_stub(with_stubs(w, zone_id, biome, ds.drop_last()), zone_id, biome, ds.last())
    }
}

/// The ids of the next `n` rows.
pub open spec fn next_ids(last: int, n: nat) -> Seq<i64> {
    Seq::new(n, |k: int| (last + 1 + k) as i64)
}

/// Adds a neighbour in each of the directions.
pub(crate) fn add_stubs(c: &mut Campaign, zone_id: i64, biome: &str, ds: &Vec<Direction>) -> (r: Vec<i64>)
    requires
        old(c)@.wf(),
        listed(old(c)@.zones, zone_id),
        top(old(c)@.zones) + ds.len() < i64::MAX,
    ensures
        final(c)@.wf(),
        final(c)@ == with_stubs(old(c)@, zone_id, biome@, ds@),
        r@ == next_ids(top(old(c)@.zones), ds@.len()),
        top(final(c)@.zones) == top(old(c)@.zones) + ds.len(),
        forall|id: i64| listed(old(c)@.zones, id) ==> #[trigger] listed(final(c)@.zones, id),
        same_but_map(old(c)@, final(c)@),
{
    let ghost w = c@;
    let mut ids: Vec<i64> = Vec::new();
    let mut k: usize = 0;
    while k < ds.len()
        invariant
            k <= ds.len(),
            c@.wf(),
            c@ == with_stubs(w, zone_id, biome@, ds@.take(k as int)),
            listed(c@.zones, zone_id),
            forall|id: i64| listed(w.zones, id) ==> #[trigger] listed(c@.zones, id),
            top(w.zones) + ds.len() < i64::MAX,
            top(c@.zones) == top(w.zones) + k,
            ids@ == next_ids(top(w.zones), k as nat),
            same_but_map(w, c@),
        decreases ds.len() - k,
    {
        let d: Direction = ds[k];
        let ghost before = c@;
        proof {
            lemma_tables(before);
            assert(ds@.take(k + 1).drop_last() =~= ds@.take(k as int));
        }
        let mut name = "Unexplored ".to_owned();
        name.append(direction_label(d));
        let z = Zone {
            id: 0,
            name,
            biome: biome.to_owned(),
            kind: ZoneKind::Wilderness,
            size: ZoneSize::Small,
            description: None,
        };
        let ghost fresh = stub(next_id(before.zones), biome@, d);
        assert(Zone { id: next_id(before.zones), ..z@ } == fresh);
        let id: i64 = c.add_zone(z);
        proof {
            lemma_push(before.zones, fresh);
            assert(forall|i: int|
                0 <= i < before.connections.len() ==>
                    before.connection_ok(#[trigger] before.connections[i])) by {
                reveal(World::wf);
            }
        }
        let there = Connection {
            from_zone_id: zone_id,
            to_zone_id: id,
            travel_time_hours: STUB_HOURS,
            travel_mode: TravelMode::Wilderness,
            one_way: false,
            direction_from: d,
        };
        c.push_connection(there);
        let back = Connection {
            from_zone_id: id,
            to_zone_id: zone_id,
            travel_time_hours: STUB_HOURS,
            travel_mode: TravelMode::Wilderness,
            one_way: false,
            direction_from: opposite_direction(d),
        };
        c.push_connection(back);
        ids.push(id);
        proof {
            assert(c@ == with_stub(before, zone_id, biome@, d));
            assert(ids@ =~= next_ids(top(w.zones), (k + 1) as nat));
        }
        k = k + 1;
    }
    assert(ds@.take(k as int) =~= ds@);
    ids
}

/// A new neighbour can be reached and left again: the way there goes in its direction, and
/// the way back in the opposite one.
pub proof fn law_neighbours_are_joined(w: World, zone_id: i64, biome: Seq<char>, ds: Seq<Direction>, k: int)
    requires
        w.wf(),
        top(w.zones) + ds.len() < i64::MAX,
        0 <= k < ds.len(),
    ensures
        ({
            let v = with_stubs(w, zone_id, biome, ds);
            let id = next_ids(top(w.zones), ds.len())[k];
            &&& listed(v.zones, id)
            &&& row(v.zones, id) == stub(id, biome, ds[k])
            &&& v.connections.contains(trail(zone_id, id, ds[k]))
            &&& v.connections.contains(trail(id, zone_id, opposite(ds[k])))
        }),
{
    lemma_tables(w);
    lemma_stubs(w, zone_id, biome, ds);
    let v = with_stubs(w, zone_id, biome, ds);
    let n = w.connections.len() as int;
    let id = next_ids(top(w.zones), ds.len())[k];
    assert(v.connections[n + 2 * k] == trail(zone_id, id, ds[k]));
    assert(v.connections[n + 2 * k + 1] == trail(id, zone_id, opposite(ds[k])));
    assert(v.zones[w.zones.len() + k].id == id);
    lemma_index(v.zones, w.zones.len() + k);
}

/// What laying neighbours adds to the map, and that what is there stays.
pub(crate) proof fn lemma_stubs(w: World, zone_id: i64, biome: Seq<char>, ds: Seq<Direction>)
    requires
        ordered(w.zones),
        top(w.zones) + ds.len() < i64::MAX,
    ensures
        ({
            let v = with_stubs(w, zone_id, biome, ds);
            let n = w.connections.len() as int;
            &&& ordered(v.zones)
            &&& top(v.zones) == top(w.zones) + ds.len()
            &&& v.zones.len() == w.zones.len() + ds.len()
            &&& v.connections.len() == n + 2 * ds.len()
            &&& forall|k: int| 0 <= k < w.zones.len() ==> #[trigger] v.zones[k] == w.zones[k]
            &&& forall|k: int|
                #![trigger ds[k]]
                0 <= k < ds.len() ==> {
                    let id = (top(w.zones) + 1 + k) as i64;
                    &&& v.zones[w.zones.len() + k] == stub(id, biome, ds[k])
                    &&& v.connections[n + 2 * k] == trail(zone_id, id, ds[k])
                    &&& v.connections[n + 2 * k + 1] == trail(id, zone_id, opposite(ds[k]))
                }
        }),
    decreases ds.len(),
{
    if ds.len() > 0 {
        let rest = ds.drop_last();
        lemma_stubs(w, zone_id, biome, rest);
        let before = with_stubs(w, zone_id, biome, rest);
        let v = with_stubs(w, zone_id, biome, ds);
        let n = w.connections.len() as int;
        lemma_push(before.zones, stub(next_id(before.zones), biome, ds.last()));
        assert forall|k: int|
            #![trigger ds[k]]
            0 <= k < ds.len() implies {
            let id = (top(w.zones) + 1 + k) as i64;
            &&& v.zones[w.zones.len() + k] == stub(id, biome, ds[k])
            &&& v.connections[n + 2 * k] == trail(zone_id, id, ds[k])
            &&& v.connections[n + 2 * k + 1] == trail(id, zone_id, opposite(ds[k]))
        } by {
            if k < rest.len() {
                assert(rest[k] == ds[k]);
            }
        }
    }
}

/// Laying neighbours opens one way out of the zone for each of them.
pub(crate) proof fn lemma_stub_ways(w: World, zone_id: i64, biome: Seq<char>, ds: Seq<Direction>)
    requires
        ordered(w.zones),
        listed(w.zones, zone_id),
        top(w.zones) + ds.len() < i64::MAX,
    ensures
        outgoing(with_stubs(w, zone_id, biome, ds).connections, zone_id).len() == outgoing(
            w.connections,
            zone_id,
        ).len() + ds.len(),
    decreases ds.len(),
{
    if ds.len() > 0 {
        let rest = ds.drop_last();
        lemma_stubs(w, zone_id, biome, rest);
        lemma_stub_ways(w, zone_id, biome, rest);
        let before = with_stubs(w, zone_id, biome, rest);
        let id = next_id(before.zones);
        lemma_push(before.zones, stub(id, biome, ds.last()));
        lemma_row(w.zones, zone_id);
        assert(before.zones[index_of(w.zones, zone_id)].id == zone_id);
        assert(listed(before.zones, zone_id));
        let one = before.connections.push(trail(zone_id, id, ds.last()));
        let two = one.push(trail(id, zone_id, opposite(ds.last())));
        assert(one.drop_last() =~= before.connections);
        assert(two.drop_last() =~= one);
        assert(with_stubs(w, zone_id, biome, ds).connections == two);
        assert(id != zone_id);
        assert(outgoing(one, zone_id).len() == outgoing(before.connections, zone_id).len() + 1);
        assert(outgoing(two, zone_id) == outgoing(one, zone_id));
    }
}

/// Whether only zones and ways differ.
pub open spec fn same_but_map(a: World, b: World) -> bool {
    b == (World { zones: b.zones, connections: b.connections, ..a })
}

/// A feature that a zone may turn out to have.
pub open spec fn feature(k: int) -> (Seq<char>, LandmarkKind) {
    if k == 0 {
        ("A weathered stone marker"@, LandmarkKind::NaturalFeature)
    } else if k == 1 {
        ("A crooked path"@, LandmarkKind::NaturalFeature)
    } else if k == 2 {
        ("A clearing with old fire-pit"@, LandmarkKind::NaturalFeature)
    } else {
        ("Roadside ruin"@, LandmarkKind::Ruin)
    }
}

fn name_feature(k: usize) -> (r: (&'static str, LandmarkKind))
    ensures
        (r.0@, r.1) == feature(k as int),
{
    if k == 0 {
        ("A weathered stone marker", LandmarkKind::NaturalFeature)
    } else if k == 1 {
        ("A crooked path", LandmarkKind::NaturalFeature)
    } else if k == 2 {
        ("A clearing with old fire-pit", LandmarkKind::NaturalFeature)
    } else {
        ("Roadside ruin", LandmarkKind::Ruin)
    }
}

/// The features that a zone turns out to have: the first `n` of the shuffled four.
pub open spec fn features(n: int, draws: Seq<usize>) -> Seq<usize> {
    shuffled(seq![0usize, 1usize, 2usize, 3usize], draws).take(n)
}

/// A zone turns out to have different features.
pub proof fn law_features_differ(n: int, draws: Seq<usize>)
    requires
        0 <= n <= 4,
        draws_ok(4, draws),
    ensures
        features(n, draws).len() == n,
        features(n, draws).no_duplicates(),
{
    law_shuffling_keeps_all(seq![0usize, 1usize, 2usize, 3usize], draws);
}

/// The landmarks with the feature.
pub open spec fn with_feature(w: World, zone_id: i64, k: int) -> World {
    World {
        landmarks: w.landmarks.push(
            Landmark {
                id: next_id(w.landmarks),
                zone_id,
                name: feature(k).0,
                kind: feature(k).1,
                description: None,
                hidden: false,
            },
        ),
        ..w
    }
}

/// The landmarks with the features.
pub open spec fn with_features(w: World, zone_id: i64, ks: Seq<usize>) -> World
    decreases ks.len(),
{
    if ks.len() == 0 {
        w
    } else {
        with_feature(with_features(w, zone_id, ks.drop_last()), zone_id, ks.last() as int)
    }
}

/// Adds the features to the zone.
pub(crate) fn add_features(c: &mut Campaign, zone_id: i64, n: usize, draws: &Vec<usize>) -> (r: Vec<i64>)
    requires
        old(c)@.wf(),
        listed(old(c)@.zones, zone_id),
        top(old(c)@.landmarks) + n < i64::MAX,
        n <= 4,
        draws_ok(4, draws@),
    ensures
        final(c)@.wf(),
        final(c)@ == with_features(old(c)@, zone_id, features(n as int, draws@)),
        r@ == next_ids(top(old(c)@.landmarks), n as nat),
        final(c)@ == (World { landmarks: final(c)@.landmarks, ..old(c)@ }),
{
    let ghost w = c@;
    let mut order: Vec<usize> = Vec::new();
    order.push(0);
    order.push(1);
    order.push(2);
    order.push(3);
    assert(order@ =~= seq![0usize, 1usize, 2usize, 3usize]);
    shuffle(&mut order, draws);
    let ghost ks = features(n as int, draws@);
    let mut ids: Vec<i64> = Vec::new();
    let mut i: usize = 0;
    while i < n
        invariant
            i <= n <= 4,
            order@.len() == 4,
            ks == order@.take(n as int),
            c@.wf(),
            c@ == with_features(w, zone_id, ks.take(i as int)),
            c@ == (World { landmarks: c@.landmarks, ..w }),
            listed(w.zones, zone_id),
            top(w.landmarks) + n < i64::MAX,
            top(c@.landmarks) == top(w.landmarks) + i,
            ids@ == next_ids(top(w.landmarks), i as nat),
        decreases n - i,
    {
        let ghost before = c@;
        proof {
            assert(ks.take(i + 1).drop_last() =~= ks.take(i as int));
            assert(ks.take(i + 1).last() == order@[i as int]);
        }
        let (name, kind) = name_feature(order[i]);
        let x = Landmark { id: 0, zone_id, name: name.to_owned(), kind, description: None, hidden: false };
        let id: i64 = c.add_landmark(x);
        ids.push(id);
        proof {
            assert(c@ == with_feature(before, zone_id, order@[i as int] as int));
            assert(ids@ =~= next_ids(top(w.landmarks), (i + 1) as nat));
        }
        i = i + 1;
    }
    assert(ks.take(i as int) =~= ks);
    ids
}

// ── Knowledge ──

/// How much the level is worth.
pub open spec fn rank(l: KnowledgeLevel) -> int {
    match l {
        KnowledgeLevel::Rumored => 1,
        KnowledgeLevel::Known => 2,
        KnowledgeLevel::Visited => 3,
        KnowledgeLevel::Mapped => 4,
    }
}

fn rank_of(l: KnowledgeLevel) -> (r: u8)
    ensures
        r == rank(l),
{
    match l {
        KnowledgeLevel::Rumored => 1,
        KnowledgeLevel::Known => 2,
        KnowledgeLevel::Visited => 3,
        KnowledgeLevel::Mapped => 4,
    }
}

/// Where stands, among the first `n` rows, what the character knows of the zone.
pub open spec fn knowledge_among(rows: Seq<ZoneKnowledge>, character_id: i64, zone_id: i64, n: nat) -> Option<int>
    decreases n,
{
    if n == 0 {
        None
    } else if rows[n - 1].character_id == character_id && rows[n - 1].zone_id == zone_id {
        Some(n - 1)
    } else {
        knowledge_among(rows, character_id, zone_id, (n - 1) as nat)
    }
}

/// Where stands what the character knows of the zone.
pub open spec fn knowledge_at(w: World, character_id: i64, zone_id: i64) -> Option<int> {
    knowledge_among(w.zone_knowledge, character_id, zone_id, w.zone_knowledge.len())
}

/// How well the character knows the zone, if it has heard of it at all.
pub open spec fn zone_level(w: World, character_id: i64, zone_id: i64) -> Option<KnowledgeLevel> {
    match knowledge_at(w, character_id, zone_id) {
        Some(k) => Some(w.zone_knowledge[k].level),
        None => None,
    }
}

pub proof fn lemma_knowledge_among(rows: Seq<ZoneKnowledge>, character_id: i64, zone_id: i64, n: nat)
    requires
        n <= rows.len(),
    ensures
        match knowledge_among(rows, character_id, zone_id, n) {
            Some(k) => 0 <= k < n && rows[k].character_id == character_id && rows[k].zone_id == zone_id,
            None => forall|j: int|
                0 <= j < n ==> !((#[trigger] rows[j]).character_id == character_id && rows[j].zone_id
                    == zone_id),
        },
    decreases n,
{
    if n > 0 {
        lemma_knowledge_among(rows, character_id, zone_id, (n - 1) as nat);
    }
}

/// Where stands what the character knows of the zone.
pub(crate) fn find_knowledge(c: &Campaign, character_id: i64, zone_id: i64) -> (r: Option<usize>)
    ensures
        match r {
            Some(k) => {
                &&& knowledge_at(c@, character_id, zone_id) == Some(k as int)
                &&& k < c.zone_knowledge.len()
                &&& c@.zone_knowledge[k as int].character_id == character_id
                &&& c@.zone_knowledge[k as int].zone_id == zone_id
                &&& c@.zone_knowledge[k as int].level == c.zone_knowledge@[k as int].level
            },
            None => {
                &&& knowledge_at(c@, character_id, zone_id) is None
                &&& forall|j: int|
                    0 <= j < c@.zone_knowledge.len() ==> !((#[trigger] c@.zone_knowledge[j]).character_id
                        == character_id && c@.zone_knowledge[j].zone_id == zone_id)
            },
        },
{
    let rows = &c.zone_knowledge;
    let ghost seen = c@.zone_knowledge;
    let mut i: usize = rows.len();
    while i > 0
        invariant
            i <= rows.len(),
            rows@ == c.zone_knowledge@,
            seen == c@.zone_knowledge,
            seen.len() == rows.len(),
            knowledge_among(seen, character_id, zone_id, seen.len()) == knowledge_among(
                seen,
                character_id,
                zone_id,
                i as nat,
            ),
        decreases i,
    {
        let r = &rows[i - 1];
        assert(seen[i - 1] == r@);
        if r.character_id == character_id && r.zone_id == zone_id {
            return Some(i - 1);
        }
        i = i - 1;
    }
    proof {
        lemma_knowledge_among(seen, character_id, zone_id, seen.len());
    }
    None
}

/// What the character knows once it has come to know the zone so well at the hour. What it
/// knew better stays.
pub open spec fn learned(w: World, character_id: i64, zone_id: i64, level: KnowledgeLevel, hour: i64) -> World {
    match knowledge_at(w, character_id, zone_id) {
        Some(k) => World {
            zone_knowledge: w.zone_knowledge.update(
                k,
                ZoneKnowledge {
                    level: if rank(w.zone_knowledge[k].level) >= rank(level) {
                        w.zone_knowledge[k].level
                    } else {
                        level
                    },
                    last_visit_at_hour: Some(hour),
                    ..w.zone_knowledge[k]
                },
            ),
            ..w
        },
        None => World {
            zone_knowledge: w.zone_knowledge.push(
                ZoneKnowledge {
                    character_id,
                    zone_id,
                    level,
                    first_event_id: None,
                    last_visit_at_hour: Some(hour),
                },
            ),
            ..w
        },
    }
}

/// What the character knows once it has come to know all these zones so well.
pub open spec fn learned_all(
    w: World,
    character_id: i64,
    zone_ids: Seq<i64>,
    level: KnowledgeLevel,
    hour: i64,
) -> World
    decreases zone_ids.len(),
{
    if zone_ids.len() == 0 {
        w
    } else {
        learned(
            learned_all(w, character_id, zone_ids.drop_last(), level, hour),
            character_id,
            zone_ids.last(),
            level,
            hour,
        )
    }
}

/// Lets a character know a zone at least so well.
pub(crate) fn upsert_knowledge(
    c: &mut Campaign,
    character_id: i64,
    zone_id: i64,
    level: KnowledgeLevel,
    hour: i64,
)
    requires
        old(c)@.wf(),
        listed(old(c)@.characters, character_id),
        listed(old(c)@.zones, zone_id),
    ensures
        final(c)@.wf(),
        final(c)@ == learned(old(c)@, character_id, zone_id, level, hour),
        final(c)@.room() == old(c)@.room(),
{
    match find_knowledge(c, character_id, zone_id) {
        Some(k) => {
            let mut r = c.zone_knowledge[k].copy();
            assert(r@ == c@.zone_knowledge[k as int]);
            if rank_of(r.level) < rank_of(level) {
                r.level = level;
            }
            r.last_visit_at_hour = Some(hour);
            c.set_zone_knowledge(k, r);
        },
        None => {
            c.push_zone_knowledge(
                ZoneKnowledge {
                    character_id,
                    zone_id,
                    level,
                    first_event_id: None,
                    last_visit_at_hour: Some(hour),
                },
            );
        },
    }
}

/// Lets a character know zones at least so well.
pub(crate) fn upsert_all(
    c: &mut Campaign,
    character_id: i64,
    zone_ids: &Vec<i64>,
    level: KnowledgeLevel,
    hour: i64,
)
    requires
        old(c)@.wf(),
        listed(old(c)@.characters, character_id),
        forall|k: int| 0 <= k < zone_ids@.len() ==> listed(old(c)@.zones, #[trigger] zone_ids@[k]),
    ensures
        final(c)@.wf(),
        final(c)@ == learned_all(old(c)@, character_id, zone_ids@, level, hour),
        final(c)@ == (World { zone_knowledge: final(c)@.zone_knowledge, ..old(c)@ }),
        final(c)@.room() == old(c)@.room(),
{
    let ghost w = c@;
    let mut k: usize = 0;
    while k < zone_ids.len()
        invariant
            k <= zone_ids.len(),
            c@.wf(),
            listed(w.characters, character_id),
            forall|j: int| 0 <= j < zone_ids@.len() ==> listed(w.zones, #[trigger] zone_ids@[j]),
            c@ == learned_all(w, character_id, zone_ids@.take(k as int), level, hour),
            c@ == (World { zone_knowledge: c@.zone_knowledge, ..w }),
            c@.room() == w.room(),
        decreases zone_ids.len() - k,
    {
        assert(zone_ids@.take(k + 1).drop_last() =~= zone_ids@.take(k as int));
        assert(listed(w.zones, zone_ids@[k as int]));
        upsert_knowledge(c, character_id, zone_ids[k], level, hour);
        k = k + 1;
    }
    assert(zone_ids@.take(k as int) =~= zone_ids@);
}

/// Knowledge only grows: whatever a character comes to know, nobody knows any zone less well
/// than before, and the character knows that zone at least so well.
pub proof fn law_knowledge_only_grows(
    w: World,
    character_id: i64,
    zone_id: i64,
    level: KnowledgeLevel,
    hour: i64,
    who: i64,
    what: i64,
)
    ensures
        ({
            let v = learned(w, character_id, zone_id, level, hour);
            &&& zone_level(w, who, what) matches Some(a) ==> zone_level(v, who, what) is Some && rank(
                zone_level(v, who, what)->0,
            ) >= rank(a)
            &&& zone_level(v, character_id, zone_id) is Some
            &&& rank(zone_level(v, character_id, zone_id)->0) >= rank(level)
            &&& (who != character_id || what != zone_id) ==> zone_level(v, who, what) == zone_level(
                w,
                who,
                what,
            )
        }),
{
    let v = learned(w, character_id, zone_id, level, hour);
    let n = w.zone_knowledge.len();
    lemma_knowledge_among(w.zone_knowledge, character_id, zone_id, n);
    lemma_knowledge_among(w.zone_knowledge, who, what, n);
    lemma_learned(w.zone_knowledge, v.zone_knowledge, who, what, n);
    lemma_learned(w.zone_knowledge, v.zone_knowledge, character_id, zone_id, n);
    if knowledge_at(w, character_id, zone_id) is None {
        assert(v.zone_knowledge.len() == n + 1);
        assert(((n + 1) - 1) as nat == n);
        assert(knowledge_at(v, character_id, zone_id) == Some(n as int));
        if who != character_id || what != zone_id {
            assert(knowledge_at(v, who, what) == knowledge_at(w, who, what));
        }
    } else {
        assert(v.zone_knowledge.len() == n);
        assert(knowledge_at(v, who, what) == knowledge_at(w, who, what));
        assert(knowledge_at(v, character_id, zone_id) == knowledge_at(w, character_id, zone_id));
    }
}

/// Rows that keep their keys are found where they were.
proof fn lemma_learned(a: Seq<ZoneKnowledge>, b: Seq<ZoneKnowledge>, who: i64, what: i64, n: nat)
    requires
        n <= a.len() <= b.len(),
        forall|i: int|
            0 <= i < n ==> (#[trigger] b[i]).character_id == a[i].character_id && b[i].zone_id
                == a[i].zone_id,
    ensures
        knowledge_among(b, who, what, n) == knowledge_among(a, who, what, n),
    decreases n,
{
    if n > 0 {
        assert(b[n - 1].character_id == a[n - 1].character_id);
        lemma_learned(a, b, who, what, (n - 1) as nat);
    }
}

} // verus!
