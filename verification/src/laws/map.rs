//! Laws of the map: where zones lie on it.

use vstd::prelude::*;
use crate::campaign::World;
use crate::random::{draws_ok, law_shuffling_keeps_all, shuffled};
use crate::rows::{Connection, Direction};
use crate::survey::{next_to, surveyed, Spot};
use crate::terrain::{compass, delta, directions, opposite, zone_level};

verus! {

/// North is up and east is to the right: a step north goes one up and a step east one to the
/// right, and neither goes anywhere else. The way back goes the other way. A step between two
/// points of the compass is one to each of them. What lies above or below lies on the same spot.
pub proof fn law_steps_on_the_map(d: Direction)
    ensures
        delta(Direction::N) == (0int, 1int),
        delta(Direction::E) == (1int, 0int),
        delta(opposite(d)).0 + delta(d).0 == 0 && delta(opposite(d)).1 + delta(d).1 == 0,
        opposite(Direction::N) == Direction::S,
        opposite(Direction::E) == Direction::W,
        opposite(Direction::Ne) == Direction::Sw,
        opposite(Direction::Nw) == Direction::Se,
        opposite(Direction::Up) == Direction::Down,
        delta(Direction::Ne).0 == delta(Direction::N).0 + delta(Direction::E).0,
        delta(Direction::Ne).1 == delta(Direction::N).1 + delta(Direction::E).1,
        delta(Direction::Se).0 == delta(Direction::S).0 + delta(Direction::E).0,
        delta(Direction::Se).1 == delta(Direction::S).1 + delta(Direction::E).1,
        delta(Direction::Nw).0 == delta(Direction::N).0 + delta(Direction::W).0,
        delta(Direction::Nw).1 == delta(Direction::N).1 + delta(Direction::W).1,
        delta(Direction::Sw).0 == delta(Direction::S).0 + delta(Direction::W).0,
        delta(Direction::Sw).1 == delta(Direction::S).1 + delta(Direction::W).1,
        delta(Direction::Up).0 == 0 && delta(Direction::Up).1 == 0,
        delta(Direction::Down).0 == 0 && delta(Direction::Down).1 == 0,
{
}

/// No two points of the compass lead to the same spot.
pub proof fn law_points_of_the_compass_differ(a: Direction, b: Direction)
    requires
        compass().contains(a),
        compass().contains(b),
        delta(a) == delta(b),
    ensures
        a == b,
{
}

/// A zone that a way leads to lies a step in the direction of the way from where the way starts:
/// to the east one to the right, to the west one to the left, to the north one up, to the south
/// one down.
pub proof fn law_ways_lead_where_they_point(at: Spot, way: Connection)
    requires
        i32::MIN < at.x < i32::MAX,
        i32::MIN < at.y < i32::MAX,
    ensures
        ({
            let to = next_to(at, way);
            let d = way.direction_from;
            &&& to.zone_id == way.to_zone_id
            &&& d == Direction::E || d == Direction::Ne || d == Direction::Se <==> to.x == at.x + 1
            &&& d == Direction::W || d == Direction::Nw || d == Direction::Sw <==> to.x == at.x - 1
            &&& d == Direction::N || d == Direction::Ne || d == Direction::Nw <==> to.y == at.y + 1
            &&& d == Direction::S || d == Direction::Se || d == Direction::Sw <==> to.y == at.y - 1
            &&& -1 <= to.x - at.x <= 1 && -1 <= to.y - at.y <= 1
        }),
{
}

/// Whether the zone lies where the way leads.
pub open spec fn lies_ahead(from: Spot, to: Spot, way: Connection) -> bool {
    let d = way.direction_from;
    &&& way.from_zone_id == from.zone_id
    &&& way.to_zone_id == to.zone_id
    &&& to.x - from.x == (if d == Direction::E || d == Direction::Ne || d == Direction::Se {
        1int
    } else if d == Direction::W || d == Direction::Nw || d == Direction::Sw {
        -1
    } else {
        0
    })
    &&& to.y - from.y == (if d == Direction::N || d == Direction::Ne || d == Direction::Nw {
        1int
    } else if d == Direction::S || d == Direction::Se || d == Direction::Sw {
        -1
    } else {
        0
    })
}

/// On a map the zone that it is drawn around lies in the middle, and every other one lies a step
/// from one that was drawn before it, in the direction of a way that leads from there.
pub proof fn law_zones_lie_along_ways(w: World, character_id: i64, origin: i64, j: int)
    requires
        w.wf(),
        w.zones.len() < i32::MAX,
        zone_level(w, character_id, origin) is Some,
        0 <= j < surveyed(w, character_id, origin).len(),
    ensures
        ({
            let spots = surveyed(w, character_id, origin);
            &&& j == 0 ==> spots[j].zone_id == origin && spots[j].x == 0 && spots[j].y == 0
            &&& j > 0 ==> exists|i: int, k: int|
                0 <= i < j && 0 <= k < w.connections.len() && #[trigger] lies_ahead(
                    spots[i],
                    spots[j],
                    w.connections[k],
                )
        }),
{
    crate::survey::law_map_shows_known_ground(w, character_id, origin);
    let spots = surveyed(w, character_id, origin);
    if j > 0 {
        assert(crate::survey::hangs_on(w, spots, j));
        let (i, k) = choose|i: int, k: int|
            0 <= i < j && 0 <= k < w.connections.len() && #[trigger] crate::survey::leads(w, spots, i, j, k);
        assert(lies_ahead(spots[i], spots[j], w.connections[k]));
    }
}

/// Neighbours lie all around, not above or below.
pub proof fn law_neighbours_lie_around(n: int, draws: Seq<usize>, k: int)
    requires
        0 <= n <= 8,
        draws_ok(8, draws),
        0 <= k < n,
    ensures
        ({
            let d = directions(n, draws)[k];
            &&& d != Direction::Up && d != Direction::Down
            &&& delta(d).0 != 0 || delta(d).1 != 0
        }),
{
    assert(compass().no_duplicates());
    law_shuffling_keeps_all(compass(), draws);
    let all = shuffled(compass(), draws);
    assert(all.contains(all[k]));
    assert(compass().contains(all[k]));
}

} // verus!
