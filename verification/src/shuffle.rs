//! Uniform random reordering of a list (the Fisher-Yates shuffle).

use vstd::multiset::Multiset;
use vstd::prelude::*;

use crate::random::random_index;

verus! {

/// `<[T]>::swap` exchanges the elements at the two positions, which must both lie inside the slice.
pub assume_specification<Item>[ <[Item]>::swap ](slice: &mut [Item], a: usize, b: usize)
    requires
        a < old(slice)@.len(),
        b < old(slice)@.len(),
    ensures
        final(slice)@ == old(slice)@.update(a as int, old(slice)@[b as int]).update(
            b as int,
            old(slice)@[a as int],
        ),
;

proof fn lemma_swap_keeps_multiset<Elem>(s: Seq<Elem>, a: int, b: int)
    requires
        0 <= a < s.len(),
        0 <= b < s.len(),
    ensures
        s.update(a, s[b]).update(b, s[a]).to_multiset() == s.to_multiset(),
{
    broadcast use vstd::seq_lib::to_multiset_update;
    broadcast use vstd::multiset::group_multiset_properties;

    let first = s.update(a, s[b]);
    assert(first[b] == s[b]);
    let m = s.to_multiset();
    assert(first.to_multiset() == m.insert(s[b]).remove(s[a]));
    assert(first.update(b, s[a]).to_multiset() == m.insert(s[b]).remove(s[a]).insert(s[a]).remove(
        s[b],
    ));
    assert(s.contains(s[a]));
    assert(m.count(s[a]) > 0) by {
        broadcast use vstd::seq_lib::to_multiset_contains;
    }
    let r = m.insert(s[b]).remove(s[a]).insert(s[a]).remove(s[b]);
    assert forall|v: Elem| #[trigger] r.count(v) == m.count(v) by {
        if v == s[a] && v == s[b] {
        } else if v == s[a] {
        } else if v == s[b] {
        } else {
        }
    }
    assert(r =~= m);
}

/// `s` with the elements at positions `a` and `b` exchanged.
pub open spec fn swapped<Elem>(s: Seq<Elem>, a: int, b: int) -> Seq<Elem> {
    s.update(a, s[b]).update(b, s[a])
}

/// Draws a Fisher-Yates shuffle can make: one per position, none above its position.
pub open spec fn valid_picks(picks: Seq<usize>, len: int) -> bool {
    picks.len() == len && forall|i: int| 0 <= i < len ==> #[trigger] picks[i] <= i
}

/// The Fisher-Yates shuffle of `s` with draws `picks`, from position `top` down to 1:
/// position `top` is exchanged with position `picks[top]`, then the positions below it
/// are shuffled the same way.
pub open spec fn shuffled<Elem>(s: Seq<Elem>, picks: Seq<usize>, top: int) -> Seq<Elem>
    decreases top,
{
    if top < 1 {
        s
    } else {
        shuffled(swapped(s, top, picks[top] as int), picks, top - 1)
    }
}

/// Reorders `items` by the Fisher-Yates shuffle with the given draws: for each position
/// from the last down to the second, exchanges it with the position `picks` names for it.
pub fn shuffle_with<Elem>(items: &mut Vec<Elem>, picks: &Vec<usize>)
    requires
        valid_picks(picks@, old(items)@.len() as int),
    ensures
        final(items)@ == shuffled(old(items)@, picks@, old(items)@.len() - 1),
        final(items)@.len() == old(items)@.len(),
        final(items)@.to_multiset() == old(items)@.to_multiset(),
{
    let len = items.len();
    if len < 2 {
        return;
    }
    let mut index: usize = len - 1;
    while index >= 1
        invariant
            len == items@.len(),
            len == old(items)@.len(),
            index < len,
            valid_picks(picks@, len as int),
            shuffled(items@, picks@, index as int) == shuffled(old(items)@, picks@, len - 1),
            items@.to_multiset() == old(items)@.to_multiset(),
        decreases index,
    {
        let pick = picks[index];
        assert(picks@[index as int] <= index);
        let ghost before = items@;
        items.as_mut_slice().swap(index, pick);
        proof {
            assert(items@ == swapped(before, index as int, pick as int));
            lemma_swap_keeps_multiset(before, index as int, pick as int);
        }
        index = index - 1;
    }
}

/// Reorders `items` at random with the Fisher-Yates shuffle: the result is the shuffle of
/// `items` under some valid draws, which `rand` makes uniformly at random.
pub fn shuffle<Elem>(items: &mut Vec<Elem>)
    ensures
        exists|picks: Seq<usize>|
            valid_picks(picks, old(items)@.len() as int) && #[trigger] shuffled(
                old(items)@,
                picks,
                old(items)@.len() - 1,
            ) == final(items)@,
        final(items)@.len() == old(items)@.len(),
        final(items)@.to_multiset() == old(items)@.to_multiset(),
{
    let len = items.len();
    let mut picks: Vec<usize> = Vec::new();
    let mut position: usize = 0;
    while position < len
        invariant
            position <= len,
            len == items@.len(),
            picks@.len() == position,
            forall|i: int| 0 <= i < position ==> #[trigger] picks@[i] <= i,
        decreases len - position,
    {
        let pick = if position == 0 {
            0
        } else {
            random_index(0, position)
        };
        picks.push(pick);
        position = position + 1;
    }
    shuffle_with(items, &picks);
}

} // verus!
