//! Star pickups: which player collects which star in one tick.

use crate::contact::ContactEvent;
use std::collections::HashSet;
use vstd::prelude::*;

verus! {

broadcast use vstd::std_specs::hash::group_hash_axioms;

/// A star collected by a player.
#[derive(Clone, Copy, Debug, PartialEq, Eq, Structural)]
pub struct Pickup {
    pub player: u64,
    pub star: u64,
}

/// The stars of a list of pickups.
pub open spec fn taken(picked: Seq<Pickup>) -> Set<u64> {
    Set::new(|star: u64| exists|i: int| 0 <= i < picked.len() && (#[trigger] picked[i]).star == star)
}

/// The pickup that an event causes when the stars in `gone` are collected
/// already: a begin of contact between a player and a star that is still
/// there, in either order.
pub open spec fn pickup_of(
    e: ContactEvent,
    players: Set<u64>,
    stars: Set<u64>,
    gone: Set<u64>,
) -> Option<Pickup> {
    match e {
        ContactEvent::Started(a, b) => if players.contains(a) && stars.contains(b)
            && !gone.contains(b) {
            Some(Pickup { player: a, star: b })
        } else if players.contains(b) && stars.contains(a) && !gone.contains(a) {
            Some(Pickup { player: b, star: a })
        } else {
            None
        },
        ContactEvent::Stopped(_, _) => None,
    }
}

/// The pickups of a queue of events, in order: every event is judged
/// against the stars collected by the events before it.
pub open spec fn pickups_of(events: Seq<ContactEvent>, players: Set<u64>, stars: Set<u64>) -> Seq<
    Pickup,
>
    decreases events.len(),
{
    if events.len() == 0 {
        Seq::empty()
    } else {
        let before = pickups_of(events.drop_last(), players, stars);
        match pickup_of(events.last(), players, stars, taken(before)) {
            Some(p) => before.push(p),
            None => before,
        }
    }
}

/// No star is collected twice in one tick, and every pickup is of a star by
/// a player.
pub proof fn lemma_pickups_distinct(events: Seq<ContactEvent>, players: Set<u64>, stars: Set<u64>)
    ensures
        forall|i: int, j: int|
            0 <= i < j < pickups_of(events, players, stars).len() ==> (#[trigger] pickups_of(
                events,
                players,
                stars,
            )[i]).star != (#[trigger] pickups_of(events, players, stars)[j]).star,
        forall|i: int|
            0 <= i < pickups_of(events, players, stars).len() ==> players.contains(
                (#[trigger] pickups_of(events, players, stars)[i]).player,
            ) && stars.contains(pickups_of(events, players, stars)[i].star),
    decreases events.len(),
{
    if events.len() > 0 {
        lemma_pickups_distinct(events.drop_last(), players, stars);
        let before = pickups_of(events.drop_last(), players, stars);
        let all = pickups_of(events, players, stars);
        match pickup_of(events.last(), players, stars, taken(before)) {
            Some(p) => {
                assert forall|i: int, j: int| 0 <= i < j < all.len() implies (#[trigger] all[i]).star
                    != (#[trigger] all[j]).star by {
                    if j == before.len() {
                        assert(all[i] == before[i]);
                        if all[i].star == p.star {
                            assert(taken(before).contains(p.star));
                        }
                    } else {
                        assert(all[i] == before[i] && all[j] == before[j]);
                    }
                }
                assert forall|i: int| 0 <= i < all.len() implies players.contains(
                    (#[trigger] all[i]).player,
                ) && stars.contains(all[i].star) by {
                    if i < before.len() {
                        assert(all[i] == before[i]);
                    }
                }
            },
            None => {},
        }
    }
}

/// Finds the stars that players collect in one tick.
///
/// A player collects a star when the two begin to touch. A star is collected
/// once: a later contact with a star that is gone counts for nothing.
pub fn star_despawn(events: &Vec<ContactEvent>, players: &HashSet<u64>, stars: &HashSet<u64>) -> (picked:
    Vec<Pickup>)
    ensures
        picked@ == pickups_of(events@, players@, stars@),
{
    let mut picked: Vec<Pickup> = Vec::new();
    let mut removed_stars: HashSet<u64> = HashSet::new();
    let mut k: usize = 0;
    assert(removed_stars@ =~= taken(picked@));
    while k < events.len()
        invariant
            k <= events.len(),
            picked@ == pickups_of(events@.take(k as int), players@, stars@),
            removed_stars@ == taken(picked@),
        decreases events.len() - k,
    {
        let ghost before = picked@;
        proof {
            assert(events@.take(k + 1).drop_last() =~= events@.take(k as int));
            assert(events@.take(k + 1).last() == events@[k as int]);
        }
        match events[k] {
            ContactEvent::Started(a, b) => {
                if players.contains(&a) && stars.contains(&b) && !removed_stars.contains(&b) {
                    removed_stars.insert(b);
                    picked.push(Pickup { player: a, star: b });
                } else if players.contains(&b) && stars.contains(&a) && !removed_stars.contains(
                    &a,
                ) {
                    removed_stars.insert(a);
                    picked.push(Pickup { player: b, star: a });
                }
            },
            ContactEvent::Stopped(_, _) => {},
        }
        proof {
            if picked@.len() > before.len() {
                let p = picked@[before.len() as int];
                assert forall|s: u64| taken(picked@).contains(s) == (taken(before).contains(s) || s
                    == p.star) by {
                    if taken(picked@).contains(s) {
                        let i = choose|i: int|
                            0 <= i < picked@.len() && (#[trigger] picked@[i]).star == s;
                        if i < before.len() {
                            assert(before[i] == picked@[i]);
                        }
                    }
                    if taken(before).contains(s) {
                        let i = choose|i: int|
                            0 <= i < before.len() && (#[trigger] before[i]).star == s;
                        assert(picked@[i] == before[i]);
                    }
                }
                assert(removed_stars@ =~= taken(picked@));
            }
        }
        k += 1;
    }
    assert(events@.take(k as int) =~= events@);
    picked
}

} // verus!
