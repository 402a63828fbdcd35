//! The stable order of a list of numbers.

use vstd::prelude::*;
use crate::model::Timestamp;

verus! {

/// `order` lists the places `0..keys.len()`, each once.
pub open spec fn lists_places(order: Seq<usize>, n: nat) -> bool {
    &&& order.len() == n
    &&& forall|a: int| 0 <= a < order.len() ==> (#[trigger] order[a]) < n
    &&& forall|a: int, b: int|
        0 <= a < b < order.len() ==> (#[trigger] order[a]) != (#[trigger] order[b])
}

/// `order` lists the places of `keys` so that the keys ascend, and places
/// with equal keys stay in their order.
pub open spec fn is_stable_order(order: Seq<usize>, keys: Seq<i128>) -> bool {
    &&& lists_places(order, keys.len())
    &&& forall|a: int, b: int|
        0 <= a < b < order.len() ==> keys[(#[trigger] order[a]) as int] <= keys[(
        #[trigger] order[b]) as int]
    &&& forall|a: int, b: int|
        0 <= a < b < order.len() && keys[(#[trigger] order[a]) as int] == keys[(
        #[trigger] order[b]) as int] ==> order[a] < order[b]
}

/// A list of the places `0..n`, each once, holds every place.
pub proof fn lemma_order_reaches(order: Seq<usize>, n: nat, p: int)
    requires
        lists_places(order, n),
        0 <= p < n,
    ensures
        exists|a: int| 0 <= a < order.len() && order[a] == p,
{
    let places = order.map_values(|x: usize| x as int);
    assert(places.no_duplicates()) by {
        assert forall|a: int, b: int|
            0 <= a < places.len() && 0 <= b < places.len() && a != b implies places[a]
            != places[b] by {
            if a < b {
                assert(order[a] != order[b]);
            } else {
                assert(order[b] != order[a]);
            }
        }
    }
    let all = Set::new(|x: int| 0 <= x < n);
    assert(all =~= vstd::set_lib::set_int_range(0, n as int));
    vstd::set_lib::lemma_int_range(0, n as int);
    places.unique_seq_to_set();
    assert(places.to_set().subset_of(all)) by {
        assert forall|x: int| places.to_set().contains(x) implies all.contains(x) by {
            let a = choose|a: int| 0 <= a < places.len() && places[a] == x;
            assert(order[a] < n);
        }
    }
    vstd::set_lib::lemma_subset_equality(places.to_set(), all);
    assert(places.to_set().contains(p));
    let a = choose|a: int| 0 <= a < places.len() && places[a] == p;
    assert(order[a] == p);
}

/// The number by which instants are ordered: instants compare as their
/// numbers do.
pub open spec fn instant_key(t: Timestamp) -> int {
    t.secs * 0x1_0000_0000 + t.nanos
}

/// Instants compare as their numbers do.
pub proof fn lemma_instant_key(a: Timestamp, b: Timestamp)
    ensures
        a.is_before(b) <==> instant_key(a) < instant_key(b),
        a == b <==> instant_key(a) == instant_key(b),
{
}

/// The number by which an instant is ordered.
pub fn time_key(t: &Timestamp) -> (key: i128)
    ensures
        key == instant_key(*t),
{
    t.secs as i128 * 0x1_0000_0000 + t.nanos as i128
}

/// The places of `keys` in ascending order of the keys; places with equal
/// keys keep their order.
pub fn stable_order(keys: &Vec<i128>) -> (order: Vec<usize>)
    ensures
        is_stable_order(order@, keys@),
{
    let mut order: Vec<usize> = Vec::new();
    let mut i: usize = 0;
    while i < keys.len()
        invariant
            i <= keys@.len(),
            is_stable_order(order@, keys@.subrange(0, i as int)),
        decreases keys@.len() - i,
    {
        let ghost before = order@;
        let ghost done = keys@.subrange(0, i as int);
        let ghost next = keys@.subrange(0, i + 1);
        let mut place: usize = order.len();
        while place > 0 && keys[order[place - 1]] > keys[i]
            invariant
                place <= order@.len(),
                order@ == before,
                i < keys@.len(),
                is_stable_order(before, done),
                done == keys@.subrange(0, i as int),
                forall|b: int| place <= b < before.len() ==> keys@[before[b] as int] > keys@[i as int],
            decreases place,
        {
            assert(before[place - 1] < i);
            place -= 1;
        }
        order.insert(place, i);
        proof {
            let after = order@;
            assert(after =~= before.insert(place as int, i));
            assert forall|a: int| 0 <= a < after.len() implies (#[trigger] after[a]) < next.len() by {
                if a < place {
                    assert(after[a] == before[a]);
                } else if a > place {
                    assert(after[a] == before[a - 1]);
                }
            }
            assert forall|a: int, b: int| 0 <= a < b < after.len() implies (#[trigger] after[a]) != (
            #[trigger] after[b]) && next[after[a] as int] <= next[after[b] as int] && (next[after[a] as int]
                == next[after[b] as int] ==> after[a] < after[b]) by {
                let ia = if a < place {
                    a
                } else {
                    a - 1
                };
                let ib = if b < place {
                    b
                } else {
                    b - 1
                };
                if a != place {
                    assert(after[a] == before[ia]);
                    assert(before[ia] < i);
                    assert(next[before[ia] as int] == done[before[ia] as int]);
                }
                if b != place {
                    assert(after[b] == before[ib]);
                    assert(before[ib] < i);
                    assert(next[before[ib] as int] == done[before[ib] as int]);
                }
                if a != place && b != place {
                    assert(before[ia] != before[ib]);
                    assert(done[before[ia] as int] <= done[before[ib] as int]);
                } else if a == place {
                    assert(keys@[before[ib] as int] > keys@[i as int]);
                } else {
                    if place > 0 && a < place - 1 {
                        assert(done[before[a] as int] <= done[before[place - 1] as int]);
                    }
                }
            }
        }
        i += 1;
    }
    assert(keys@.subrange(0, i as int) =~= keys@);
    order
}

} // verus!
