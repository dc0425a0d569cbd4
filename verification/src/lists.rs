//! Places in lists.

use vstd::prelude::*;

verus! {

/// Where the flags are set, in order.
pub open spec fn places_set(flags: Seq<bool>) -> Seq<int>
    decreases flags.len(),
{
    if flags.len() == 0 {
        Seq::empty()
    } else {
        let before = places_set(flags.drop_last());
        if flags.last() {
            before.push(flags.len() - 1)
        } else {
            before
        }
    }
}

/// Places as mathematics.
pub open spec fn seen_places(places: Seq<usize>) -> Seq<int> {
    places.map_values(|place: usize| place as int)
}

/// Where the flags are set, in order.
pub fn set_places(flags: &Vec<bool>) -> (places: Vec<usize>)
    ensures
        seen_places(places@) == places_set(flags@),
        forall|i: int| 0 <= i < places@.len() ==> #[trigger] places@[i] < flags@.len(),
{
    let mut places: Vec<usize> = Vec::new();
    let mut index: usize = 0;
    assert(flags@.take(0) =~= Seq::empty());
    assert(seen_places(places@) =~= Seq::empty());
    while index < flags.len()
        invariant
            index <= flags@.len(),
            seen_places(places@) == places_set(flags@.take(index as int)),
            forall|i: int| 0 <= i < places@.len() ==> #[trigger] places@[i] < index,
        decreases flags@.len() - index,
    {
        let ghost before = seen_places(places@);
        assert(flags@.take(index + 1).drop_last() =~= flags@.take(index as int));
        if flags[index] {
            places.push(index);
            assert(seen_places(places@) =~= before.push(index as int));
        }
        index = index + 1;
    }
    assert(flags@.take(index as int) =~= flags@);
    places
}

/// The places where the flags are set are exactly those, each once and in order.
pub proof fn set_places_are_those_set(flags: Seq<bool>)
    ensures
        forall|i: int|
            0 <= i < flags.len() ==> (flags[i] <==> #[trigger] places_set(flags).contains(i)),
        forall|i: int|
            0 <= i < places_set(flags).len() ==> 0 <= #[trigger] places_set(flags)[i]
                < flags.len(),
        forall|i: int, j: int|
            0 <= i < j < places_set(flags).len() ==> #[trigger] places_set(flags)[i]
                < #[trigger] places_set(flags)[j],
    decreases flags.len(),
{
    if flags.len() > 0 {
        let fewer = flags.drop_last();
        set_places_are_those_set(fewer);
        let before = places_set(fewer);
        let after = places_set(flags);
        assert forall|i: int| 0 <= i < flags.len() implies (flags[i] <==> #[trigger] after.contains(
            i,
        )) by {
            if i < fewer.len() {
                assert(flags[i] == fewer[i]);
                if before.contains(i) {
                    let k = choose|k: int| 0 <= k < before.len() && before[k] == i;
                    assert(after[k] == i);
                }
                if after.contains(i) {
                    let k = choose|k: int| 0 <= k < after.len() && after[k] == i;
                    assert(k < before.len());
                    assert(before[k] == i);
                }
            } else {
                if flags.last() {
                    assert(after[before.len() as int] == i);
                } else if after.contains(i) {
                    let k = choose|k: int| 0 <= k < after.len() && after[k] == i;
                    assert(before[k] == i);
                }
            }
        }
    }
}

/// The first of the places, no more than a number of them.
pub open spec fn at_most<T>(places: Seq<T>, limit: nat) -> Seq<T> {
    if places.len() <= limit {
        places
    } else {
        places.take(limit as int)
    }
}

/// The first places where the flags are set, no more than a number of them.
pub fn first_places(flags: &Vec<bool>, limit: usize) -> (places: Vec<usize>)
    ensures
        seen_places(places@) == at_most(places_set(flags@), limit as nat),
        forall|i: int| 0 <= i < places@.len() ==> #[trigger] places@[i] < flags@.len(),
{
    let mut places = set_places(flags);
    let ghost all = seen_places(places@);
    if places.len() > limit {
        places.truncate(limit);
    }
    assert(seen_places(places@) =~= at_most(all, limit as nat));
    places
}

/// The first places are as many as there are, up to the limit, and each is where it was.
pub proof fn the_first_places_are_kept<T>(places: Seq<T>, limit: nat, i: int)
    ensures
        at_most(places, limit).len() <= limit,
        at_most(places, limit).len() <= places.len(),
        places.len() <= limit || at_most(places, limit).len() == limit,
        places.len() <= limit ==> at_most(places, limit).len() == places.len(),
        0 <= i < places.len() && i < limit ==> at_most(places, limit)[i] == places[i],
{
}

} // verus!
