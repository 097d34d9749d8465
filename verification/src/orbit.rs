use vstd::prelude::*;
use std::collections::VecDeque;

use crate::model::InteractiveId;

verus! {

/// How many past positions an orbiting object keeps in its trail.
pub const ORBIT_OBJECT_TRAIL_LEN: usize = 60;

/// The trail after an object moved to `position`: the newest position comes
/// first, and the oldest one is dropped when the trail was full.
pub open spec fn spec_push_trail<T>(trail: Seq<T>, position: T) -> Seq<T> {
    if trail.len() >= ORBIT_OBJECT_TRAIL_LEN {
        seq![position] + trail.drop_last()
    } else {
        seq![position] + trail
    }
}

/// Records a new position at the front of an object's trail, dropping the
/// oldest position when the trail already holds `ORBIT_OBJECT_TRAIL_LEN`.
pub fn push_trail<T>(trail: &mut VecDeque<T>, position: T)
    ensures
        final(trail)@ == spec_push_trail(old(trail)@, position),
{
    if trail.len() >= ORBIT_OBJECT_TRAIL_LEN {
        trail.pop_back();
    }
    trail.push_front(position);
}

/// The pairs checked for the satellite at index `i`: with the satellite after
/// it, then with every piece of debris.
pub open spec fn spec_collision_block(satellites: Seq<u64>, debris: Seq<u64>, i: int) -> Seq<
    (u64, InteractiveId),
> {
    seq![(satellites[i], InteractiveId::Satellite(satellites[i + 1]))] + debris.map_values(
        |d: u64| (satellites[i], InteractiveId::Debris(d)),
    )
}

/// The pairs checked for the first `n` satellites, in order.
pub open spec fn spec_collision_pairs(satellites: Seq<u64>, debris: Seq<u64>, n: nat) -> Seq<
    (u64, InteractiveId),
>
    decreases n,
{
    if n == 0 {
        seq![]
    } else {
        spec_collision_pairs(satellites, debris, (n - 1) as nat) + spec_collision_block(
            satellites,
            debris,
            n - 1,
        )
    }
}

/// The pairs of objects whose distance is checked for a collision: each
/// satellite but the last is paired with the satellite after it and then with
/// every piece of debris.
pub open spec fn spec_collision_candidates(satellites: Seq<u64>, debris: Seq<u64>) -> Seq<
    (u64, InteractiveId),
> {
    if satellites.len() == 0 {
        seq![]
    } else {
        spec_collision_pairs(satellites, debris, (satellites.len() - 1) as nat)
    }
}

/// The pairs of objects to check for collisions, given the keys of the
/// satellites and of the debris in orbit, in the order the arenas hand them
/// out.
pub fn collision_candidates(satellites: &Vec<u64>, debris: &Vec<u64>) -> (pairs: Vec<
    (u64, InteractiveId),
>)
    ensures
        pairs@ == spec_collision_candidates(satellites@, debris@),
{
    let mut pairs: Vec<(u64, InteractiveId)> = Vec::new();
    if satellites.len() == 0 {
        return pairs;
    }
    let mut i: usize = 0;
    while i + 1 < satellites.len()
        invariant
            i + 1 <= satellites@.len(),
            pairs@ == spec_collision_pairs(satellites@, debris@, i as nat),
        decreases satellites.len() - i,
    {
        let a = satellites[i];
        let ghost start = pairs@;
        pairs.push((a, InteractiveId::Satellite(satellites[i + 1])));
        let mut j: usize = 0;
        while j < debris.len()
            invariant
                i + 1 < satellites@.len(),
                a == satellites@[i as int],
                j <= debris@.len(),
                pairs@ == start + spec_collision_block(satellites@, debris@, i as int).take(
                    j + 1,
                ),
            decreases debris.len() - j,
        {
            pairs.push((a, InteractiveId::Debris(debris[j])));
            assert(spec_collision_block(satellites@, debris@, i as int).take(j + 2)
                =~= spec_collision_block(satellites@, debris@, i as int).take(j + 1).push(
                (a, InteractiveId::Debris(debris@[j as int])),
            ));
            j = j + 1;
        }
        assert(spec_collision_block(satellites@, debris@, i as int).take(debris.len() + 1)
            =~= spec_collision_block(satellites@, debris@, i as int));
        i = i + 1;
    }
    pairs
}

/// The satellites destroyed by the given collisions, in order: the first
/// object of each pair, and the second one too when it is a satellite. A
/// satellite may be named more than once.
pub open spec fn spec_collision_victims(collisions: Seq<(u64, InteractiveId)>) -> Seq<u64>
    decreases collisions.len(),
{
    if collisions.len() == 0 {
        seq![]
    } else {
        let last = collisions.last();
        spec_collision_victims(collisions.drop_last()) + match last.1 {
            InteractiveId::Satellite(b) => seq![last.0, b],
            InteractiveId::Debris(_) => seq![last.0],
        }
    }
}

/// The satellites that the given collisions destroy: for each colliding pair
/// the first satellite, and the second object if it is a satellite too.
pub fn collision_victims(collisions: &Vec<(u64, InteractiveId)>) -> (victims: Vec<u64>)
    ensures
        victims@ == spec_collision_victims(collisions@),
{
    let mut victims: Vec<u64> = Vec::new();
    let mut i: usize = 0;
    while i < collisions.len()
        invariant
            i <= collisions@.len(),
            victims@ == spec_collision_victims(collisions@.take(i as int)),
        decreases collisions.len() - i,
    {
        let (a, b) = collisions[i];
        victims.push(a);
        match b {
            InteractiveId::Satellite(b) => victims.push(b),
            InteractiveId::Debris(_) => {},
        }
        assert(collisions@.take(i + 1).drop_last() =~= collisions@.take(i as int));
        i = i + 1;
    }
    assert(collisions@.take(collisions.len() as int) =~= collisions@);
    victims
}

/// A trail never grows beyond `ORBIT_OBJECT_TRAIL_LEN`, and its first entry
/// is always the newest position.
pub proof fn lemma_trail_bounded<T>(trail: Seq<T>, position: T)
    requires
        trail.len() <= ORBIT_OBJECT_TRAIL_LEN,
    ensures
        spec_push_trail(trail, position).len() <= ORBIT_OBJECT_TRAIL_LEN,
        spec_push_trail(trail, position)[0] == position,
{
}

/// Whether the satellite with the given key takes part in the collision.
pub open spec fn spec_involves(collision: (u64, InteractiveId), id: u64) -> bool {
    collision.0 == id || collision.1 == InteractiveId::Satellite(id)
}

/// A satellite is destroyed exactly when it takes part in a collision.
pub proof fn lemma_victims_are_colliders(collisions: Seq<(u64, InteractiveId)>, id: u64)
    ensures
        spec_collision_victims(collisions).contains(id) <==> exists|k: int|
            0 <= k < collisions.len() && #[trigger] spec_involves(collisions[k], id),
    decreases collisions.len(),
{
    if collisions.len() > 0 {
        let prefix = collisions.drop_last();
        let last = collisions.last();
        let tail = match last.1 {
            InteractiveId::Satellite(b) => seq![last.0, b],
            InteractiveId::Debris(_) => seq![last.0],
        };
        lemma_victims_are_colliders(prefix, id);
        let victims = spec_collision_victims(collisions);
        let before = spec_collision_victims(prefix);
        assert(victims == before + tail);
        if victims.contains(id) {
            let m = choose|m: int| 0 <= m < victims.len() && victims[m] == id;
            if m < before.len() {
                assert(before[m] == id);
                assert(before.contains(id));
                let k = choose|k: int| 0 <= k < prefix.len() && #[trigger] spec_involves(prefix[k], id);
                assert(collisions[k] == prefix[k]);
                assert(spec_involves(collisions[k], id));
            } else {
                assert(tail[m - before.len()] == id);
                assert(collisions[collisions.len() - 1] == last);
                assert(spec_involves(collisions[collisions.len() - 1], id));
            }
        }
        if exists|k: int| 0 <= k < collisions.len() && #[trigger] spec_involves(collisions[k], id) {
            let k = choose|k: int| 0 <= k < collisions.len() && #[trigger] spec_involves(collisions[k], id);
            if k < prefix.len() {
                assert(prefix[k] == collisions[k]);
                assert(spec_involves(prefix[k], id));
                assert(before.contains(id));
                let m = choose|m: int| 0 <= m < before.len() && before[m] == id;
                assert(victims[m] == id);
            } else {
                assert(collisions[k] == last);
                if last.0 == id {
                    assert(victims[before.len() as int] == id);
                } else {
                    assert(victims[before.len() + 1int] == id);
                }
            }
            assert(victims.contains(id));
        }
    }
}

/// Each satellite but the last is checked against the satellite after it and
/// against every piece of debris, so there are that many pairs.
pub proof fn lemma_candidate_count(satellites: Seq<u64>, debris: Seq<u64>, n: nat)
    ensures
        spec_collision_pairs(satellites, debris, n).len() == n * (debris.len() + 1),
    decreases n,
{
    if n > 0 {
        lemma_candidate_count(satellites, debris, (n - 1) as nat);
        assert(spec_collision_block(satellites, debris, n - 1).len() == debris.len() + 1);
        let m = (n - 1) as nat;
        let d = debris.len();
        assert(n * (d + 1) == m * (d + 1) + d + 1) by (nonlinear_arith)
            requires
                n == m + 1,
        ;
        assert(spec_collision_pairs(satellites, debris, n).len() == m * (d + 1) + d + 1);
    } else {
        assert(n * (debris.len() + 1) == 0) by (nonlinear_arith)
            requires
                n == 0,
        ;
    }
}

} // verus!
