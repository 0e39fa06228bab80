//! Drawing a map: which zones can be reached over known ground, and where they lie.

use vstd::prelude::*;
use crate::campaign::{lemma_distinct, listed, Campaign, World};
use crate::rows::Connection;
use crate::terrain::{
    delta, direction_delta, find_knowledge, knowledge_at, lemma_knowledge_among, lemma_outgoing, outgoing,
    read_outgoing_edges, zone_level,
};

verus! {

/// A zone and where it lies on the map.
#[derive(Debug, Clone, Copy, PartialEq, Eq, Structural)]
pub struct Spot {
    pub zone_id: i64,
    pub x: i32,
    pub y: i32,
}

/// Where stands, among the first `n` spots, that of the zone.
pub open spec fn spot_among(list: Seq<Spot>, zone_id: i64, n: nat) -> Option<int>
    decreases n,
{
    if n == 0 {
        None
    } else if list[n - 1].zone_id == zone_id {
        Some(n - 1)
    } else {
        spot_among(list, zone_id, (n - 1) as nat)
    }
}

/// Where stands the spot of the zone, if it is on the map.
pub open spec fn spot_at(list: Seq<Spot>, zone_id: i64) -> Option<int> {
    spot_among(list, zone_id, list.len())
}

/// The spot that lies the way's step from another.
pub open spec fn next_to(at: Spot, way: Connection) -> Spot {
    Spot {
        zone_id: way.to_zone_id,
        x: (at.x + delta(way.direction_from).0) as i32,
        y: (at.y + delta(way.direction_from).1) as i32,
    }
}

/// The map after looking down each of the ways out of a spot: what is known and not on it yet
/// comes on it.
pub open spec fn seen_from(
    w: World,
    character_id: i64,
    list: Seq<Spot>,
    at: Spot,
    ways: Seq<Connection>,
) -> Seq<Spot>
    decreases ways.len(),
{
    if ways.len() == 0 {
        list
    } else {
        let before = seen_from(w, character_id, list, at, ways.drop_last());
        let to = ways.last().to_zone_id;
        if zone_level(w, character_id, to) is Some && spot_at(before, to) is None {
            before.push(next_to(at, ways.last()))
        } else {
            before
        }
    }
}

/// The map after looking around from its spots, one after the other, from spot `k` on.
pub open spec fn looked_around(w: World, character_id: i64, list: Seq<Spot>, k: nat) -> Seq<Spot>
    decreases w.zones.len() - k,
{
    if k < list.len() && k < w.zones.len() {
        let more = seen_from(
            w,
            character_id,
            list,
            list[k as int],
            outgoing(w.connections, list[k as int].zone_id),
        );
        looked_around(w, character_id, more, k + 1)
    } else {
        list
    }
}

/// The map that a character has around a zone, nearest first.
pub open spec fn surveyed(w: World, character_id: i64, origin: i64) -> Seq<Spot> {
    looked_around(w, character_id, seq![Spot { zone_id: origin, x: 0, y: 0 }], 0)
}

/// Whether a spot can be where it is: it lies the step of some way from an earlier one.
pub open spec fn hangs_on(w: World, list: Seq<Spot>, j: int) -> bool {
    exists|i: int, k: int|
        0 <= i < j && 0 <= k < w.connections.len() && #[trigger] leads(w, list, i, j, k)
}

/// Whether way `k` leads from spot `i` to spot `j`.
pub open spec fn leads(w: World, list: Seq<Spot>, i: int, j: int, k: int) -> bool {
    &&& w.connections[k].from_zone_id == list[i].zone_id
    &&& list[j].zone_id == w.connections[k].to_zone_id
    &&& list[j].x == list[i].x + delta(w.connections[k].direction_from).0
    &&& list[j].y == list[i].y + delta(w.connections[k].direction_from).1
}

/// What holds of a map while it is drawn: it begins with the origin, shows no zone twice,
/// only zones that exist and that the character has heard of, and each where a way leads.
pub open spec fn sound(w: World, character_id: i64, origin: i64, list: Seq<Spot>) -> bool {
    &&& list.len() > 0
    &&& list[0] == (Spot { zone_id: origin, x: 0, y: 0 })
    &&& forall|i: int, j: int|
        #![trigger list[i], list[j]]
        0 <= i < j < list.len() ==> list[i].zone_id != list[j].zone_id
    &&& forall|j: int|
        0 <= j < list.len() ==> {
            &&& zone_level(w, character_id, (#[trigger] list[j]).zone_id) is Some
            &&& listed(w.zones, list[j].zone_id)
            &&& -j <= list[j].x <= j
            &&& -j <= list[j].y <= j
        }
    &&& forall|j: int| 0 < j < list.len() ==> #[trigger] hangs_on(w, list, j)
}

/// Whether every way out of the first `k` spots that leads to a known zone leads to one on
/// the map.
pub open spec fn closed_up_to(w: World, character_id: i64, list: Seq<Spot>, k: int) -> bool {
    forall|i: int, e: int|
        #![trigger list[i], w.connections[e]]
        0 <= i < k && 0 <= e < w.connections.len() && w.connections[e].from_zone_id == list[i].zone_id
            && zone_level(w, character_id, w.connections[e].to_zone_id) is Some ==> spot_at(
            list,
            w.connections[e].to_zone_id,
        ) is Some
}

pub proof fn lemma_spot(list: Seq<Spot>, zone_id: i64, n: nat)
    requires
        n <= list.len(),
    ensures
        match spot_among(list, zone_id, n) {
            Some(k) => 0 <= k < n && list[k].zone_id == zone_id,
            None => forall|j: int| 0 <= j < n ==> (#[trigger] list[j]).zone_id != zone_id,
        },
    decreases n,
{
    if n > 0 {
        lemma_spot(list, zone_id, (n - 1) as nat);
    }
}

/// What is on a map is on every map that it is the beginning of.
proof fn lemma_longer(a: Seq<Spot>, b: Seq<Spot>, zone_id: i64)
    requires
        a.len() <= b.len(),
        forall|i: int| 0 <= i < a.len() ==> #[trigger] b[i] == a[i],
        spot_at(a, zone_id) is Some,
    ensures
        spot_at(b, zone_id) is Some,
{
    lemma_spot(a, zone_id, a.len());
    lemma_spot(b, zone_id, b.len());
    let k = spot_at(a, zone_id)->0;
    assert(b[k] == a[k]);
}

/// Known zones exist.
proof fn lemma_known_exists(w: World, character_id: i64, zone_id: i64)
    requires
        w.wf(),
        zone_level(w, character_id, zone_id) is Some,
    ensures
        listed(w.zones, zone_id),
{
    lemma_knowledge_among(w.zone_knowledge, character_id, zone_id, w.zone_knowledge.len());
    let k = knowledge_at(w, character_id, zone_id)->0;
    reveal(World::wf);
    assert(listed(w.zones, w.zone_knowledge[k].zone_id));
}

/// A map that is being drawn has no more spots than there are zones.
proof fn lemma_sound_len(w: World, character_id: i64, origin: i64, list: Seq<Spot>)
    requires
        sound(w, character_id, origin, list),
    ensures
        list.len() <= w.zones.len(),
{
    let ids = Seq::new(list.len(), |j: int| list[j].zone_id);
    assert forall|k: int| 0 <= k < ids.len() implies listed(w.zones, #[trigger] ids[k]) by {
        assert(listed(w.zones, list[k].zone_id));
    }
    assert(ids.no_duplicates()) by {
        assert forall|i: int, j: int| 0 <= i < ids.len() && 0 <= j < ids.len() && i != j implies ids[i]
            != ids[j] by {
            if i < j {
                assert(list[i].zone_id != list[j].zone_id);
            } else {
                assert(list[j].zone_id != list[i].zone_id);
            }
        }
    }
    lemma_distinct(w.zones, ids);
}

/// A spot more that a way leads to keeps a map sound.
proof fn lemma_sound_push(
    w: World,
    character_id: i64,
    origin: i64,
    list: Seq<Spot>,
    i: int,
    k: int,
)
    requires
        w.wf(),
        w.zones.len() < i32::MAX,
        sound(w, character_id, origin, list),
        0 <= i < list.len(),
        0 <= k < w.connections.len(),
        w.connections[k].from_zone_id == list[i].zone_id,
        zone_level(w, character_id, w.connections[k].to_zone_id) is Some,
        spot_at(list, w.connections[k].to_zone_id) is None,
    ensures
        sound(w, character_id, origin, list.push(next_to(list[i], w.connections[k]))),
{
    let e = w.connections[k];
    let more = list.push(next_to(list[i], e));
    let n = list.len() as int;
    lemma_sound_len(w, character_id, origin, list);
    lemma_spot(list, e.to_zone_id, list.len());
    lemma_known_exists(w, character_id, e.to_zone_id);
    assert(-i <= list[i].x <= i);
    assert(leads(w, more, i, n, k));
    assert forall|j: int| 0 < j < more.len() implies #[trigger] hangs_on(w, more, j) by {
        if j < n {
            assert(hangs_on(w, list, j));
            let (a, b) = choose|a: int, b: int|
                0 <= a < j && 0 <= b < w.connections.len() && #[trigger] leads(w, list, a, j, b);
            assert(leads(w, more, a, j, b));
        }
    }
    assert forall|a: int, b: int| 0 <= a < b < more.len() implies (#[trigger] more[a]).zone_id != (
    #[trigger] more[b]).zone_id by {
        if b == n {
            assert(list[a].zone_id != e.to_zone_id);
        } else {
            assert(list[a].zone_id != list[b].zone_id);
        }
    }
}

/// Looking down ways out of a spot keeps a map sound, keeps what is on it, and puts every
/// known end of the ways on it.
proof fn lemma_seen_from(
    w: World,
    character_id: i64,
    origin: i64,
    list: Seq<Spot>,
    i: int,
    ways: Seq<Connection>,
)
    requires
        w.wf(),
        w.zones.len() < i32::MAX,
        sound(w, character_id, origin, list),
        0 <= i < list.len(),
        forall|k: int|
            0 <= k < ways.len() ==> (#[trigger] ways[k]).from_zone_id == list[i].zone_id
                && w.connections.contains(ways[k]),
    ensures
        ({
            let more = seen_from(w, character_id, list, list[i], ways);
            &&& sound(w, character_id, origin, more)
            &&& more.len() >= list.len()
            &&& forall|j: int| 0 <= j < list.len() ==> #[trigger] more[j] == list[j]
            &&& forall|k: int|
                0 <= k < ways.len() && zone_level(w, character_id, (#[trigger] ways[k]).to_zone_id) is Some
                    ==> spot_at(more, ways[k].to_zone_id) is Some
        }),
    decreases ways.len(),
{
    if ways.len() > 0 {
        let rest = ways.drop_last();
        assert forall|k: int| 0 <= k < rest.len() implies (#[trigger] rest[k]).from_zone_id == list[i].zone_id
            && w.connections.contains(rest[k]) by {
            assert(rest[k] == ways[k]);
        }
        lemma_seen_from(w, character_id, origin, list, i, rest);
        let before = seen_from(w, character_id, list, list[i], rest);
        let more = seen_from(w, character_id, list, list[i], ways);
        let e = ways[ways.len() - 1];
        assert(e.from_zone_id == list[i].zone_id && w.connections.contains(e));
        let c = choose|c: int| 0 <= c < w.connections.len() && w.connections[c] == e;
        if zone_level(w, character_id, e.to_zone_id) is Some && spot_at(before, e.to_zone_id) is None {
            assert(before[i] == list[i]);
            lemma_sound_push(w, character_id, origin, before, i, c);
            assert(more[before.len() as int].zone_id == e.to_zone_id);
            lemma_spot(more, e.to_zone_id, more.len());
        }
        assert forall|k: int|
            0 <= k < ways.len()
                && zone_level(w, character_id, (#[trigger] ways[k]).to_zone_id) is Some implies spot_at(
            more,
            ways[k].to_zone_id,
        ) is Some by {
            if k < rest.len() {
                assert(rest[k] == ways[k]);
                lemma_longer(before, more, ways[k].to_zone_id);
            }
        }
    }
}

/// Every way out of a zone is among those that lead out of it.
proof fn lemma_all_outgoing(rows: Seq<Connection>, from: i64, e: int)
    requires
        0 <= e < rows.len(),
        rows[e].from_zone_id == from,
    ensures
        outgoing(rows, from).contains(rows[e]),
    decreases rows.len(),
{
    let all = outgoing(rows, from);
    if e == rows.len() - 1 {
        assert(all[all.len() - 1] == rows[e]);
    } else {
        let rest = rows.drop_last();
        lemma_all_outgoing(rest, from, e);
        let k = choose|k: int| 0 <= k < outgoing(rest, from).len() && outgoing(rest, from)[k] == rest[e];
        assert(all[k] == rows[e]);
    }
}

/// One more spot that has been looked around from.
proof fn lemma_step(w: World, character_id: i64, origin: i64, list: Seq<Spot>, k: int)
    requires
        w.wf(),
        w.zones.len() < i32::MAX,
        sound(w, character_id, origin, list),
        closed_up_to(w, character_id, list, k),
        0 <= k < list.len(),
    ensures
        ({
            let more = seen_from(
                w,
                character_id,
                list,
                list[k],
                outgoing(w.connections, list[k].zone_id),
            );
            &&& sound(w, character_id, origin, more)
            &&& more.len() >= list.len()
            &&& closed_up_to(w, character_id, more, k + 1)
        }),
{
    let ways = outgoing(w.connections, list[k].zone_id);
    lemma_outgoing(w.connections, list[k].zone_id);
    lemma_seen_from(w, character_id, origin, list, k, ways);
    let more = seen_from(w, character_id, list, list[k], ways);
    assert forall|i: int, e: int|
        #![trigger more[i], w.connections[e]]
        0 <= i < k + 1 && 0 <= e < w.connections.len() && w.connections[e].from_zone_id == more[i].zone_id
            && zone_level(w, character_id, w.connections[e].to_zone_id) is Some implies spot_at(
        more,
        w.connections[e].to_zone_id,
    ) is Some by {
        assert(more[i] == list[i]);
        if i < k {
            assert(spot_at(list, w.connections[e].to_zone_id) is Some);
            lemma_longer(list, more, w.connections[e].to_zone_id);
        } else {
            lemma_all_outgoing(w.connections, list[k].zone_id, e);
            let j = choose|j: int| 0 <= j < ways.len() && ways[j] == w.connections[e];
            assert(zone_level(w, character_id, ways[j].to_zone_id) is Some);
        }
    }
}

proof fn lemma_looked_around(w: World, character_id: i64, origin: i64, list: Seq<Spot>, k: nat)
    requires
        w.wf(),
        w.zones.len() < i32::MAX,
        sound(w, character_id, origin, list),
        closed_up_to(w, character_id, list, k as int),
        k <= list.len(),
    ensures
        sound(w, character_id, origin, looked_around(w, character_id, list, k)),
        closed_up_to(
            w,
            character_id,
            looked_around(w, character_id, list, k),
            looked_around(w, character_id, list, k).len() as int,
        ),
    decreases w.zones.len() - k,
{
    lemma_sound_len(w, character_id, origin, list);
    if k < list.len() {
        lemma_step(w, character_id, origin, list, k as int);
        let more = seen_from(
            w,
            character_id,
            list,
            list[k as int],
            outgoing(w.connections, list[k as int].zone_id),
        );
        lemma_looked_around(w, character_id, origin, more, k + 1);
    }
}

/// The zone that a map is drawn around, alone, is a sound map.
proof fn lemma_origin(w: World, character_id: i64, origin: i64)
    requires
        w.wf(),
        zone_level(w, character_id, origin) is Some,
    ensures
        sound(w, character_id, origin, seq![Spot { zone_id: origin, x: 0, y: 0 }]),
{
    lemma_known_exists(w, character_id, origin);
}

/// A map gives nothing away and leaves nothing out: it shows only zones that the character
/// has heard of, none of them twice, with the origin in the middle and every other one a step
/// from one nearer to the middle, and it shows every known zone to which a way leads from a
/// zone that it shows.
pub proof fn law_map_shows_known_ground(w: World, character_id: i64, origin: i64)
    requires
        w.wf(),
        w.zones.len() < i32::MAX,
        zone_level(w, character_id, origin) is Some,
    ensures
        sound(w, character_id, origin, surveyed(w, character_id, origin)),
        closed_up_to(
            w,
            character_id,
            surveyed(w, character_id, origin),
            surveyed(w, character_id, origin).len() as int,
        ),
{
    lemma_origin(w, character_id, origin);
    lemma_looked_around(w, character_id, origin, seq![Spot { zone_id: origin, x: 0, y: 0 }], 0);
}

/// Where stands the spot of the zone.
pub(crate) fn find_spot(list: &Vec<Spot>, zone_id: i64) -> (r: Option<usize>)
    ensures
        match r {
            Some(k) => spot_at(list@, zone_id) == Some(k as int) && k < list.len() && list@[k as int].zone_id
                == zone_id,
            None => spot_at(list@, zone_id) is None,
        },
{
    let mut i: usize = list.len();
    while i > 0
        invariant
            i <= list.len(),
            spot_among(list@, zone_id, list@.len()) == spot_among(list@, zone_id, i as nat),
        decreases i,
    {
        if list[i - 1].zone_id == zone_id {
            return Some(i - 1);
        }
        i = i - 1;
    }
    None
}

/// Looks down each of the ways out of a spot.
fn look_from(c: &Campaign, character_id: i64, list: &mut Vec<Spot>, i: usize, Ghost(origin): Ghost<i64>)
    requires
        c@.wf(),
        c@.zones.len() < i32::MAX,
        sound(c@, character_id, origin, old(list)@),
        i < old(list).len(),
    ensures
        final(list)@ == seen_from(
            c@,
            character_id,
            old(list)@,
            old(list)@[i as int],
            outgoing(c@.connections, old(list)@[i as int].zone_id),
        ),
{
    let at = list[i];
    let ghost start = list@;
    let ways = read_outgoing_edges(c, at.zone_id);
    proof {
        lemma_outgoing(c@.connections, at.zone_id);
    }
    let mut k: usize = 0;
    while k < ways.len()
        invariant
            k <= ways.len(),
            c@.wf(),
            c@.zones.len() < i32::MAX,
            sound(c@, character_id, origin, start),
            i < start.len(),
            at == start[i as int],
            ways@ == outgoing(c@.connections, at.zone_id),
            forall|j: int|
                0 <= j < ways@.len() ==> (#[trigger] ways@[j]).from_zone_id == at.zone_id
                    && c@.connections.contains(ways@[j]),
            list@ == seen_from(c@, character_id, start, at, ways@.take(k as int)),
        decreases ways.len() - k,
    {
        let e = &ways[k];
        proof {
            let done = ways@.take(k as int);
            assert(ways@.take(k + 1).drop_last() =~= done);
            assert forall|j: int| 0 <= j < done.len() implies (#[trigger] done[j]).from_zone_id == at.zone_id
                && c@.connections.contains(done[j]) by {
                assert(done[j] == ways@[j]);
            }
            lemma_seen_from(c@, character_id, origin, start, i as int, done);
            lemma_sound_len(c@, character_id, origin, list@);
            assert(-i <= start[i as int].x <= i);
        }
        let known = find_knowledge(c, character_id, e.to_zone_id).is_some();
        if known && find_spot(list, e.to_zone_id).is_none() {
            let (dx, dy) = direction_delta(e.direction_from);
            list.push(Spot { zone_id: e.to_zone_id, x: at.x + dx, y: at.y + dy });
        }
        k = k + 1;
    }
    assert(ways@.take(k as int) =~= ways@);
}

/// Draws the map that a character has around a zone.
pub(crate) fn survey(c: &Campaign, character_id: i64, origin: i64) -> (r: Vec<Spot>)
    requires
        c@.wf(),
        c@.zones.len() < i32::MAX,
        zone_level(c@, character_id, origin) is Some,
    ensures
        r@ == surveyed(c@, character_id, origin),
        sound(c@, character_id, origin, r@),
{
    let ghost w = c@;
    let mut list: Vec<Spot> = Vec::new();
    list.push(Spot { zone_id: origin, x: 0, y: 0 });
    proof {
        assert(list@ =~= seq![Spot { zone_id: origin, x: 0, y: 0 }]);
        lemma_origin(w, character_id, origin);
        lemma_sound_len(w, character_id, origin, list@);
    }
    let mut k: usize = 0;
    while k < list.len()
        invariant
            k <= list.len() <= w.zones.len(),
            w == c@,
            w.wf(),
            w.zones.len() < i32::MAX,
            sound(w, character_id, origin, list@),
            closed_up_to(w, character_id, list@, k as int),
            surveyed(w, character_id, origin) == looked_around(w, character_id, list@, k as nat),
        decreases w.zones.len() - k,
    {
        proof {
            lemma_step(w, character_id, origin, list@, k as int);
        }
        look_from(c, character_id, &mut list, k, Ghost(origin));
        proof {
            lemma_sound_len(w, character_id, origin, list@);
        }
        k = k + 1;
    }
    list
}

} // verus!
