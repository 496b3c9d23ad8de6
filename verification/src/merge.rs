//! Pins from several lock files as one list with one pin for each location.

use vstd::prelude::*;

use crate::resolved::v2::{pin_views, Pin, PinView};

verus! {

/// Whether the pin at `i` is for `location`.
pub open spec fn held_at(pins: Seq<PinView>, location: Seq<char>, i: int) -> bool {
    0 <= i < pins.len() && pins[i].location == location
}

/// Whether no two of `pins` are for the same location.
pub open spec fn distinct(pins: Seq<PinView>) -> bool {
    forall|i: int, j: int|
        0 <= i < pins.len() && 0 <= j < pins.len() && i != j ==> pins[i].location
            != pins[j].location
}

/// Whether no pin after the one at `k` is for the same location.
pub open spec fn is_last(pins: Seq<PinView>, k: int) -> bool {
    &&& 0 <= k < pins.len()
    &&& forall|l: int| k < l < pins.len() ==> pins[l].location != pins[k].location
}

/// Whether the pin at `i` is the first for `location`.
pub open spec fn first_at(pins: Seq<PinView>, location: Seq<char>, i: int) -> bool {
    held_at(pins, location, i) && forall|j: int| 0 <= j < i ==> !held_at(pins, location, j)
}

/// `pins` with `pin` in the place of the first pin for the same location, or
/// at the end where there is none.
pub open spec fn upsert(pins: Seq<PinView>, pin: PinView) -> Seq<PinView> {
    if exists|i: int| first_at(pins, pin.location, i) {
        pins.update(choose|i: int| first_at(pins, pin.location, i), pin)
    } else {
        pins.push(pin)
    }
}

/// The pins that are left when each pin replaces the earlier pin for the
/// same location, in the order in which the locations first occur.
pub open spec fn merged(pins: Seq<PinView>) -> Seq<PinView>
    decreases pins.len(),
{
    if pins.len() == 0 {
        Seq::empty()
    } else {
        upsert(merged(pins.drop_last()), pins.last())
    }
}

/// What the merged pins hold of `pins`: for each location one pin, the last
/// of `pins` for it.
pub open spec fn last_wins(pins: Seq<PinView>, merged: Seq<PinView>) -> bool {
    &&& distinct(merged)
    &&& forall|k: int| is_last(pins, k) ==> merged.contains(#[trigger] pins[k])
    &&& forall|j: int|
        0 <= j < merged.len() ==> exists|k: int| is_last(pins, k) && pins[k] == #[trigger] merged[j]
}

/// Merging keeps exactly one pin for each location that is pinned, the one
/// that comes last.
pub proof fn lemma_merged_last_wins(pins: Seq<PinView>)
    ensures
        last_wins(pins, merged(pins)),
    decreases pins.len(),
{
    if pins.len() > 0 {
        let head = pins.drop_last();
        let pin = pins.last();
        let before = merged(head);
        let after = merged(pins);
        lemma_merged_last_wins(head);
        let replaced = exists|i: int| first_at(before, pin.location, i);
        let at = choose|i: int| first_at(before, pin.location, i);
        assert forall|i: int| held_at(before, pin.location, i) implies first_at(
            before,
            pin.location,
            i,
        ) by {}
        assert(distinct(after)) by {
            assert forall|i: int, j: int|
                0 <= i < after.len() && 0 <= j < after.len() && i != j implies after[i].location
                != after[j].location by {
                if replaced {
                    assert(first_at(before, pin.location, at));
                } else {
                    assert(!held_at(before, pin.location, i));
                    assert(!held_at(before, pin.location, j));
                }
            }
        }
        assert forall|k: int| is_last(pins, k) implies after.contains(#[trigger] pins[k]) by {
            if k == pins.len() - 1 {
                if replaced {
                    assert(after[at] == pin);
                } else {
                    assert(after[before.len() as int] == pin);
                }
            } else {
                assert(head[k] == pins[k]);
                assert(is_last(head, k)) by {
                    assert forall|l: int| k < l < head.len() implies head[l].location
                        != head[k].location by {
                        assert(head[l] == pins[l]);
                    }
                }
                assert(before.contains(head[k]));
                let j = choose|j: int| 0 <= j < before.len() && before[j] == head[k];
                assert(pins[k].location != pin.location);
                assert(after[j] == head[k]);
            }
        }
        assert forall|j: int| 0 <= j < after.len() implies exists|k: int|
            is_last(pins, k) && pins[k] == #[trigger] after[j] by {
            if after[j] == pin && (j == at && replaced || j == before.len() && !replaced) {
                assert(is_last(pins, pins.len() - 1));
            } else {
                assert(before[j] == after[j]);
                let k = choose|k: int| is_last(head, k) && head[k] == before[j];
                assert(pins[k] == head[k]);
                assert(before[j].location != pin.location) by {
                    if before[j].location == pin.location {
                        assert(held_at(before, pin.location, j));
                    }
                }
                assert(is_last(pins, k)) by {
                    assert forall|l: int| k < l < pins.len() implies pins[l].location
                        != pins[k].location by {
                        if l < head.len() {
                            assert(head[l] == pins[l]);
                        }
                    }
                }
            }
        }
    }
}

/// Puts `pin` in the place of the pin for the same location, or at the end
/// where there is none.
pub fn insert(pins: &mut Vec<Pin>, pin: Pin)
    ensures
        pin_views(final(pins)@) == upsert(pin_views(old(pins)@), pin@),
{
    let ghost before = pin_views(pins@);
    let mut i: usize = 0;
    while i < pins.len()
        invariant
            i <= pins.len(),
            before == pin_views(pins@),
            before == pin_views(old(pins)@),
            forall|j: int| 0 <= j < i ==> !held_at(before, pin@.location, j),
        decreases pins.len() - i,
    {
        if pins[i].location == pin.location {
            assert(first_at(before, pin@.location, i as int));
            assert((choose|c: int| first_at(before, pin@.location, c)) == i);
            pins[i] = pin;
            assert(pin_views(pins@) =~= before.update(i as int, pin@));
            return ;
        }
        i += 1;
    }
    pins.push(pin);
    assert(pin_views(pins@) =~= before.push(pin@));
}

} // verus!
