//! Choice of well-separated starting provinces for a local game.
//!
//! Every set of candidates that keeps each pair far enough apart is equally likely to
//! be chosen (reservoir sampling over all such sets); the chosen set is then handed out
//! to the players in random order.

use vstd::prelude::*;

use crate::adjacency::strictly_increasing;
use crate::random::random_index;
use crate::shuffle::{shuffle, shuffled, valid_picks};

verus! {

/// `spacing[later][earlier]` says whether province `later` lies far enough from `earlier`.
pub open spec fn far_apart(spacing: Seq<Vec<bool>>, later: usize, earlier: usize) -> bool {
    spacing[later as int]@[earlier as int]
}

/// A possible set of starting provinces: `count` different candidates, listed in
/// candidate order, each far enough from the others.
pub open spec fn is_start_set(
    candidates: Seq<usize>,
    spacing: Seq<Vec<bool>>,
    count: int,
    set: Seq<usize>,
) -> bool {
    &&& set.len() == count
    &&& strictly_increasing(set)
    &&& forall|k: int| 0 <= k < set.len() ==> candidates.contains(#[trigger] set[k])
    &&& forall|x: int, y: int|
        0 <= x < y < set.len() ==> far_apart(spacing, #[trigger] set[y], #[trigger] set[x])
}

/// The spacing table answers for every pair of candidates.
pub open spec fn spacing_covers(candidates: Seq<usize>, spacing: Seq<Vec<bool>>) -> bool {
    forall|a: int, b: int|
        0 <= a < candidates.len() && 0 <= b < candidates.len() ==> #[trigger] candidates[a]
            < spacing.len() && #[trigger] candidates[b] < spacing[candidates[a] as int]@.len()
}

/// `value` is the candidate at some position in `from..to`.
pub open spec fn candidate_in(candidates: Seq<usize>, from: int, to: int, value: usize) -> bool {
    exists|i: int| from <= i < to && #[trigger] candidates[i] == value
}

/// `set` is a start set whose first members are `selected` and whose other members are
/// candidates at positions from `offset` on.
pub open spec fn extends(
    candidates: Seq<usize>,
    spacing: Seq<Vec<bool>>,
    count: int,
    selected: Seq<usize>,
    offset: int,
    set: Seq<usize>,
) -> bool {
    &&& is_start_set(candidates, spacing, count, set)
    &&& selected.len() <= set.len()
    &&& set.take(selected.len() as int) == selected
    &&& forall|k: int|
        selected.len() <= k < set.len() ==> candidate_in(
            candidates,
            offset,
            candidates.len() as int,
            #[trigger] set[k],
        )
}

/// A prefix under construction: candidates from positions before `offset`, in order and spaced out.
pub open spec fn partial_start(
    candidates: Seq<usize>,
    spacing: Seq<Vec<bool>>,
    count: int,
    selected: Seq<usize>,
    offset: int,
) -> bool {
    &&& selected.len() <= count
    &&& strictly_increasing(selected)
    &&& forall|k: int|
        0 <= k < selected.len() ==> candidate_in(candidates, 0, offset, #[trigger] selected[k])
    &&& forall|x: int, y: int|
        0 <= x < y < selected.len() ==> far_apart(
            spacing,
            #[trigger] selected[y],
            #[trigger] selected[x],
        )
}

/// The reservoir holds nothing before any set was seen, and a start set afterwards.
pub open spec fn reservoir_ok(
    candidates: Seq<usize>,
    spacing: Seq<Vec<bool>>,
    count: int,
    chosen: Seq<usize>,
    seen: usize,
) -> bool {
    ||| seen == 0 && chosen.len() == 0
    ||| seen > 0 && is_start_set(candidates, spacing, count, chosen)
}

/// `candidate` lies far enough from every province in `selected`.
pub open spec fn far_from_selected(
    spacing: Seq<Vec<bool>>,
    candidate: usize,
    selected: Seq<usize>,
) -> bool {
    forall|k: int| 0 <= k < selected.len() ==> far_apart(spacing, candidate, #[trigger] selected[k])
}

/// The start sets that begin with `selected` and take their other members from positions
/// `offset..`, in the order a depth-first search in candidate order meets them.
pub open spec fn sets_from(
    candidates: Seq<usize>,
    spacing: Seq<Vec<bool>>,
    count: int,
    selected: Seq<usize>,
    offset: int,
) -> Seq<Seq<usize>>
    decreases candidates.len() - offset, 1int,
{
    if selected.len() >= count {
        seq![selected]
    } else if offset + (count - selected.len()) > candidates.len() {
        Seq::empty()
    } else {
        sets_over(candidates, spacing, count, selected, offset)
    }
}

/// The start sets that extend `selected` with a next member at position `next` or later,
/// in search order.
pub open spec fn sets_over(
    candidates: Seq<usize>,
    spacing: Seq<Vec<bool>>,
    count: int,
    selected: Seq<usize>,
    next: int,
) -> Seq<Seq<usize>>
    decreases candidates.len() - next, 0int,
{
    if selected.len() >= count || next < 0 || next + (count - selected.len()) > candidates.len() {
        Seq::empty()
    } else {
        (if far_from_selected(spacing, candidates[next], selected) {
            sets_from(candidates, spacing, count, selected.push(candidates[next]), next + 1)
        } else {
            Seq::empty()
        }) + sets_over(candidates, spacing, count, selected, next + 1)
    }
}

/// Every start set of `count` candidates, in search order.
pub open spec fn start_sets(candidates: Seq<usize>, spacing: Seq<Vec<bool>>, count: int) -> Seq<
    Seq<usize>,
> {
    sets_from(candidates, spacing, count, Seq::empty(), 0)
}

/// Two spacing tables of the same size with the same rows.
pub open spec fn same_spacing(first: Seq<Vec<bool>>, second: Seq<Vec<bool>>) -> bool {
    &&& first.len() == second.len()
    &&& forall|a: int| 0 <= a < first.len() ==> (#[trigger] first[a])@ == second[a]@
}

/// The start sets depend only on the rows of the spacing table.
pub proof fn lemma_sets_from_same_spacing(
    candidates: Seq<usize>,
    first: Seq<Vec<bool>>,
    second: Seq<Vec<bool>>,
    count: int,
    selected: Seq<usize>,
    offset: int,
)
    requires
        same_spacing(first, second),
        forall|i: int| 0 <= i < candidates.len() ==> #[trigger] candidates[i] < first.len(),
    ensures
        sets_from(candidates, first, count, selected, offset) == sets_from(
            candidates,
            second,
            count,
            selected,
            offset,
        ),
    decreases candidates.len() - offset, 1int,
{
    if selected.len() >= count {
    } else if offset + (count - selected.len()) > candidates.len() {
    } else {
        lemma_sets_over_same_spacing(candidates, first, second, count, selected, offset);
    }
}

/// The start sets past a position depend only on the rows of the spacing table.
pub proof fn lemma_sets_over_same_spacing(
    candidates: Seq<usize>,
    first: Seq<Vec<bool>>,
    second: Seq<Vec<bool>>,
    count: int,
    selected: Seq<usize>,
    next: int,
)
    requires
        same_spacing(first, second),
        forall|i: int| 0 <= i < candidates.len() ==> #[trigger] candidates[i] < first.len(),
    ensures
        sets_over(candidates, first, count, selected, next) == sets_over(
            candidates,
            second,
            count,
            selected,
            next,
        ),
    decreases candidates.len() - next, 0int,
{
    if selected.len() >= count || next < 0 || next + (count - selected.len()) > candidates.len() {
    } else {
        let candidate = candidates[next];
        assert(first[candidate as int]@ == second[candidate as int]@);
        assert(far_from_selected(first, candidate, selected) == far_from_selected(
            second,
            candidate,
            selected,
        ));
        lemma_sets_from_same_spacing(
            candidates,
            first,
            second,
            count,
            selected.push(candidate),
            next + 1,
        );
        lemma_sets_over_same_spacing(candidates, first, second, count, selected, next + 1);
    }
}

/// The reservoir after meeting the first `n` of `sets` with draws `draws`: the last set
/// whose draw was zero, or `chosen` when there is none.
pub open spec fn reservoir(
    chosen: Seq<usize>,
    sets: Seq<Seq<usize>>,
    draws: Seq<usize>,
    n: int,
) -> Seq<usize>
    decreases n,
{
    if n <= 0 {
        chosen
    } else if draws[n - 1] == 0 {
        sets[n - 1]
    } else {
        reservoir(chosen, sets, draws, n - 1)
    }
}

/// Draws a reservoir can make over `n` sets: the draw for the set met `k`-th (from zero)
/// is at most `k`.
pub open spec fn reservoir_draws(draws: Seq<usize>, n: int) -> bool {
    draws.len() == n && forall|k: int| 0 <= k < n ==> #[trigger] draws[k] <= k
}

/// Meeting two runs of sets one after the other fills the reservoir as meeting them at once.
proof fn lemma_reservoir_concat(
    chosen: Seq<usize>,
    first: Seq<Seq<usize>>,
    first_draws: Seq<usize>,
    second: Seq<Seq<usize>>,
    second_draws: Seq<usize>,
    n: int,
)
    requires
        first_draws.len() == first.len(),
        0 <= n <= second.len(),
        n <= second_draws.len(),
    ensures
        reservoir(chosen, first + second, first_draws + second_draws, first.len() + n) == reservoir(
            reservoir(chosen, first, first_draws, first.len() as int),
            second,
            second_draws,
            n,
        ),
    decreases n,
{
    let sets = first + second;
    let draws = first_draws + second_draws;
    if n == 0 {
        assert forall|m: int| 0 <= m <= first.len() implies reservoir(chosen, sets, draws, m)
            == reservoir(chosen, first, first_draws, m) by {
            lemma_reservoir_prefix(chosen, first, first_draws, second, second_draws, m);
        }
    } else {
        lemma_reservoir_concat(chosen, first, first_draws, second, second_draws, n - 1);
        assert(sets[first.len() + n - 1] == second[n - 1]);
        assert(draws[first.len() + n - 1] == second_draws[n - 1]);
    }
}

proof fn lemma_reservoir_prefix(
    chosen: Seq<usize>,
    first: Seq<Seq<usize>>,
    first_draws: Seq<usize>,
    second: Seq<Seq<usize>>,
    second_draws: Seq<usize>,
    m: int,
)
    requires
        first_draws.len() == first.len(),
        0 <= m <= first.len(),
    ensures
        reservoir(chosen, first + second, first_draws + second_draws, m) == reservoir(
            chosen,
            first,
            first_draws,
            m,
        ),
    decreases m,
{
    if m > 0 {
        lemma_reservoir_prefix(chosen, first, first_draws, second, second_draws, m - 1);
        assert((first + second)[m - 1] == first[m - 1]);
        assert((first_draws + second_draws)[m - 1] == first_draws[m - 1]);
    }
}

/// Candidates in increasing order sit at positions in the same order.
proof fn lemma_position_order(candidates: Seq<usize>, a: int, b: int)
    requires
        strictly_increasing(candidates),
        0 <= a < candidates.len(),
        0 <= b < candidates.len(),
        candidates[a] < candidates[b],
    ensures
        a < b,
{
    if a >= b {
        if a > b {
            assert(candidates[b] < candidates[a]);
        }
    }
}

/// The member `set[m]`, found at position `i`, leaves room for the members after it.
proof fn lemma_room_after(
    candidates: Seq<usize>,
    spacing: Seq<Vec<bool>>,
    count: int,
    set: Seq<usize>,
    m: int,
    i: int,
)
    requires
        strictly_increasing(candidates),
        is_start_set(candidates, spacing, count, set),
        0 <= m < count,
        0 <= i < candidates.len(),
        candidates[i] == set[m],
    ensures
        i + (count - m) <= candidates.len(),
    decreases count - m,
{
    if m + 1 < count {
        assert(candidates.contains(set[m + 1]));
        let j = choose|j: int| 0 <= j < candidates.len() && candidates[j] == set[m + 1];
        assert(set[m] < set[m + 1]);
        lemma_position_order(candidates, i, j);
        lemma_room_after(candidates, spacing, count, set, m + 1, j);
    }
}

fn copy_list(list: &Vec<usize>) -> (copy: Vec<usize>)
    ensures
        copy@ == list@,
{
    let mut copy: Vec<usize> = Vec::new();
    let mut k: usize = 0;
    while k < list.len()
        invariant
            k <= list@.len(),
            copy@ == list@.take(k as int),
        decreases list@.len() - k,
    {
        copy.push(list[k]);
        assert(list@.take(k + 1) =~= list@.take(k as int).push(list@[k as int]));
        k = k + 1;
    }
    assert(list@.take(list@.len() as int) =~= list@);
    copy
}

/// Whether `candidate` lies far enough from every already selected province.
fn far_from_all(spacing: &Vec<Vec<bool>>, candidate: usize, selected: &Vec<usize>) -> (far: bool)
    requires
        candidate < spacing@.len(),
        forall|k: int| 0 <= k < selected@.len() ==> #[trigger] selected@[k] < spacing@[candidate as int]@.len(),
    ensures
        far == forall|k: int|
            0 <= k < selected@.len() ==> far_apart(spacing@, candidate, #[trigger] selected@[k]),
{
    let mut k: usize = 0;
    while k < selected.len()
        invariant
            candidate < spacing@.len(),
            forall|k: int| 0 <= k < selected@.len() ==> #[trigger] selected@[k] < spacing@[candidate as int]@.len(),
            k <= selected@.len(),
            forall|j: int| 0 <= j < k ==> far_apart(spacing@, candidate, #[trigger] selected@[j]),
        decreases selected@.len() - k,
    {
        if !spacing[candidate][selected[k]] {
            assert(!far_apart(spacing@, candidate, selected@[k as int]));
            return false;
        }
        k = k + 1;
    }
    true
}

/// Depth-first search over the start sets that begin with `selected`, drawing new
/// members from positions `offset..`. Each start set met replaces the reservoir
/// `chosen` with probability one over the number of sets seen so far.
fn choose_start_set(
    candidates: &Vec<usize>,
    offset: usize,
    count: usize,
    spacing: &Vec<Vec<bool>>,
    selected: &mut Vec<usize>,
    chosen: &mut Vec<usize>,
    valid_sets: &mut usize,
) -> (draws: Ghost<Seq<usize>>)
    requires
        strictly_increasing(candidates@),
        spacing_covers(candidates@, spacing@),
        offset <= candidates@.len(),
        partial_start(candidates@, spacing@, count as int, old(selected)@, offset as int),
        reservoir_ok(candidates@, spacing@, count as int, old(chosen)@, *old(valid_sets)),
        *old(valid_sets) + sets_from(
            candidates@,
            spacing@,
            count as int,
            old(selected)@,
            offset as int,
        ).len() <= usize::MAX,
    ensures
        final(selected)@ == old(selected)@,
        reservoir_ok(candidates@, spacing@, count as int, final(chosen)@, *final(valid_sets)),
        ({
            let met = sets_from(candidates@, spacing@, count as int, old(selected)@, offset as int);
            &&& *final(valid_sets) == *old(valid_sets) + met.len()
            &&& draws@.len() == met.len()
            &&& forall|k: int| 0 <= k < met.len() ==> #[trigger] draws@[k] <= *old(valid_sets) + k
            &&& final(chosen)@ == reservoir(old(chosen)@, met, draws@, met.len() as int)
        }),
        (exists|set: Seq<usize>|
            extends(candidates@, spacing@, count as int, old(selected)@, offset as int, set))
            ==> *final(valid_sets) > 0,
    decreases candidates@.len() - offset,
{
    let ghost cands = candidates@;
    let ghost sel = selected@;
    let ghost start_seen = *valid_sets;
    let ghost n = candidates@.len() as int;
    let ghost start_chosen_leaf = chosen@;
    if selected.len() == count {
        *valid_sets = *valid_sets + 1;
        let draw = random_index(0, *valid_sets - 1);
        if draw == 0 {
            *chosen = copy_list(selected);
        }
        proof {
            assert(sets_from(cands, spacing@, count as int, sel, offset as int) == seq![sel]);
            assert forall|x: int, y: int| 0 <= x < y < sel.len() implies #[trigger] sel[x] < #[trigger] sel[y] by {}
            assert forall|k: int| 0 <= k < sel.len() implies cands.contains(#[trigger] sel[k]) by {
                let i = choose|i: int| 0 <= i < offset && #[trigger] cands[i] == sel[k];
            }
        }
        let ghost one = seq![draw];
        proof {
            let met = sets_from(cands, spacing@, count as int, sel, offset as int);
            assert(met == seq![sel]);
            assert(one[0] == draw);
            assert(reservoir(start_chosen_leaf, met, one, 0) == start_chosen_leaf);
            if draw == 0 {
                assert(chosen@ == sel);
            } else {
                assert(chosen@ == start_chosen_leaf);
            }
            assert(chosen@ == reservoir(start_chosen_leaf, met, one, 1));
        }
        let result: Ghost<Seq<usize>> = Ghost(one);
        return result;
    }
    let remaining = count - selected.len();
    if candidates.len() - offset < remaining {
        proof {
            assert forall|set: Seq<usize>|
                !extends(cands, spacing@, count as int, sel, offset as int, set) by {
                if extends(cands, spacing@, count as int, sel, offset as int, set) {
                    let m = sel.len() as int;
                    assert(candidate_in(cands, offset as int, n, set[m]));
                    let i = choose|i: int| offset <= i < n && #[trigger] cands[i] == set[m];
                    lemma_room_after(cands, spacing@, count as int, set, m, i);
                }
            }
        }
        let ghost none = Seq::<usize>::empty();
        let result: Ghost<Seq<usize>> = Ghost(none);
        return result;
    }
    let last = candidates.len() - remaining;
    let mut next = offset;
    let ghost mut met: Seq<Seq<usize>> = Seq::empty();
    let ghost mut drawn: Seq<usize> = Seq::empty();
    let ghost start_chosen = chosen@;
    let ghost all = sets_over(cands, spacing@, count as int, sel, offset as int);
    assert(sets_from(cands, spacing@, count as int, sel, offset as int) == all);
    while next <= last
        invariant
            cands == candidates@,
            n == cands.len(),
            strictly_increasing(cands),
            spacing_covers(cands, spacing@),
            offset <= next <= last + 1,
            last + remaining == n,
            n <= usize::MAX,
            remaining == count - sel.len(),
            remaining >= 1,
            selected@ == sel,
            partial_start(cands, spacing@, count as int, sel, offset as int),
            reservoir_ok(cands, spacing@, count as int, chosen@, *valid_sets),
            all == sets_over(cands, spacing@, count as int, sel, offset as int),
            met + sets_over(cands, spacing@, count as int, sel, next as int) == all,
            *valid_sets == start_seen + met.len(),
            start_seen + all.len() <= usize::MAX,
            drawn.len() == met.len(),
            forall|k: int| 0 <= k < met.len() ==> #[trigger] drawn[k] <= start_seen + k,
            chosen@ == reservoir(start_chosen, met, drawn, met.len() as int),
            forall|set: Seq<usize>, i: int|
                #![trigger extends(cands, spacing@, count as int, sel, offset as int, set), cands[i]]
                extends(cands, spacing@, count as int, sel, offset as int, set) && offset <= i
                    < next && cands[i] == set[sel.len() as int] ==> *valid_sets > 0,
        decreases last + 1 - next,
    {
        let candidate = candidates[next];
        let ghost here = if far_from_selected(spacing@, cands[next as int], sel) {
            sets_from(cands, spacing@, count as int, sel.push(cands[next as int]), next + 1)
        } else {
            Seq::<Seq<usize>>::empty()
        };
        let ghost rest = sets_over(cands, spacing@, count as int, sel, next + 1);
        proof {
            assert(sets_over(cands, spacing@, count as int, sel, next as int) == here + rest);
            assert(met + here + rest == all) by {
                assert(met + (here + rest) == met + here + rest);
            }
            assert forall|k: int| 0 <= k < sel.len() implies #[trigger] sel[k]
                < spacing@[candidate as int]@.len() by {
                let i = choose|i: int| 0 <= i < offset && #[trigger] cands[i] == sel[k];
                assert(cands[next as int] < spacing@.len() && cands[i] < spacing@[cands[next as int] as int]@.len());
            }
            assert(cands[next as int] < spacing@.len() && cands[next as int] < spacing@[cands[next as int] as int]@.len());
        }
        if far_from_all(spacing, candidate, selected) {
            selected.push(candidate);
            proof {
                let grown = sel.push(candidate);
                assert(grown =~= selected@);
                assert forall|k: int| 0 <= k < grown.len() implies candidate_in(
                    cands,
                    0,
                    next + 1,
                    #[trigger] grown[k],
                ) by {
                    if k < sel.len() {
                        let i = choose|i: int| 0 <= i < offset && #[trigger] cands[i] == sel[k];
                        assert(cands[i] == grown[k]);
                    } else {
                        assert(cands[next as int] == grown[k]);
                    }
                }
                assert forall|x: int, y: int| 0 <= x < y < grown.len() implies grown[x] < grown[y] by {
                    if y == sel.len() {
                        let i = choose|i: int| 0 <= i < offset && #[trigger] cands[i] == sel[x];
                        assert(i < next);
                    }
                }
                assert forall|x: int, y: int| 0 <= x < y < grown.len() implies far_apart(
                    spacing@,
                    #[trigger] grown[y],
                    #[trigger] grown[x],
                ) by {
                    if y == sel.len() {
                        assert(grown[y] == candidate);
                        assert(grown[x] == sel[x]);
                    }
                }
                assert(partial_start(cands, spacing@, count as int, grown, next + 1));
            }
            let ghost seen_before = *valid_sets;
            let ghost chosen_before = chosen@;
            proof {
                assert(far_from_selected(spacing@, cands[next as int], sel));
                assert(here == sets_from(cands, spacing@, count as int, selected@, next + 1));
            }
            let sub = choose_start_set(candidates, next + 1, count, spacing, selected, chosen, valid_sets);
            selected.pop();
            proof {
                let grown = sel.push(candidate);
                assert(selected@ =~= sel);
                lemma_reservoir_concat(start_chosen, met, drawn, here, sub@, here.len() as int);
                assert forall|k: int| 0 <= k < met.len() + here.len() implies #[trigger] (drawn
                    + sub@)[k] <= start_seen + k by {
                    if k >= met.len() {
                        assert((drawn + sub@)[k] == sub@[k - met.len()]);
                    }
                }
                met = met + here;
                drawn = drawn + sub@;
                assert forall|set: Seq<usize>, i: int|
                #![trigger extends(cands, spacing@, count as int, sel, offset as int, set), cands[i]]
                    extends(cands, spacing@, count as int, sel, offset as int, set) && offset <= i
                        < next + 1 && cands[i] == set[sel.len() as int] implies *valid_sets
                    > 0 by {
                    if i == next {
                        let m = sel.len() as int;
                        assert(set.take(m + 1) =~= grown);
                        assert forall|k: int| m + 1 <= k < set.len() implies candidate_in(
                            cands,
                            next + 1,
                            n,
                            #[trigger] set[k],
                        ) by {
                            assert(candidate_in(cands, offset as int, n, set[k]));
                            let j = choose|j: int| offset <= j < n && #[trigger] cands[j] == set[k];
                            assert(set[m] < set[k]);
                            lemma_position_order(cands, next as int, j);
                        }
                        assert(extends(cands, spacing@, count as int, grown, next + 1, set));
                    } else {
                        assert(seen_before > 0);
                    }
                }
            }
        } else {
            proof {
                assert(!far_from_selected(spacing@, cands[next as int], sel));
                assert(here == Seq::<Seq<usize>>::empty());
                assert(met + here == met);
                assert forall|set: Seq<usize>, i: int|
                #![trigger extends(cands, spacing@, count as int, sel, offset as int, set), cands[i]]
                    extends(cands, spacing@, count as int, sel, offset as int, set) && offset <= i
                        < next + 1 && cands[i] == set[sel.len() as int] implies *valid_sets
                    > 0 by {
                    if i == next {
                        let m = sel.len() as int;
                        assert forall|k: int| 0 <= k < sel.len() implies far_apart(
                            spacing@,
                            candidate,
                            #[trigger] sel[k],
                        ) by {
                            assert(set[k] == sel[k]);
                            assert(far_apart(spacing@, set[m], set[k]));
                        }
                        assert(false);
                    }
                }
            }
        }
        next = next + 1;
    }
    proof {
        assert forall|set: Seq<usize>|
            extends(cands, spacing@, count as int, sel, offset as int, set) implies *valid_sets
            > 0 by {
            let m = sel.len() as int;
            assert(candidate_in(cands, offset as int, n, set[m]));
            let i = choose|i: int| offset <= i < n && #[trigger] cands[i] == set[m];
            lemma_room_after(cands, spacing@, count as int, set, m, i);
            assert(cands[i] == set[sel.len() as int]);
        }
        assert(sets_over(cands, spacing@, count as int, sel, next as int) == Seq::<Seq<usize>>::empty());
        assert(met == all);
    }
    let result: Ghost<Seq<usize>> = Ghost(drawn);
    result
}

/// An ordering of a start set: `count` different candidates, every two of them far
/// enough apart (the later candidate from the earlier).
pub open spec fn spaced_order(
    candidates: Seq<usize>,
    spacing: Seq<Vec<bool>>,
    count: int,
    order: Seq<usize>,
) -> bool {
    &&& order.len() == count
    &&& order.no_duplicates()
    &&& forall|p: int| 0 <= p < order.len() ==> candidates.contains(#[trigger] order[p])
    &&& forall|p: int, q: int|
        0 <= p < order.len() && 0 <= q < order.len() && order[q] < order[p] ==> far_apart(
            spacing,
            #[trigger] order[p],
            #[trigger] order[q],
        )
}

/// Any reordering of a start set is a spaced order.
proof fn lemma_reordered_start_set(
    candidates: Seq<usize>,
    spacing: Seq<Vec<bool>>,
    count: int,
    set: Seq<usize>,
    order: Seq<usize>,
)
    requires
        is_start_set(candidates, spacing, count, set),
        set.to_multiset() == order.to_multiset(),
    ensures
        spaced_order(candidates, spacing, count, order),
{
    broadcast use vstd::seq_lib::to_multiset_contains;

    assert forall|i: int, j: int| 0 <= i < set.len() && 0 <= j < set.len() && i != j implies set[i]
        != set[j] by {
        if i < j {
            assert(set[i] < set[j]);
        } else {
            assert(set[j] < set[i]);
        }
    }
    assert(set.no_duplicates());
    set.lemma_multiset_has_no_duplicates();
    order.lemma_multiset_has_no_duplicates_conv();
    vstd::seq_lib::to_multiset_len(set);
    vstd::seq_lib::to_multiset_len(order);
    assert forall|p: int| 0 <= p < order.len() implies candidates.contains(#[trigger] order[p]) by {
        assert(order.contains(order[p]));
        assert(order.to_multiset().count(order[p]) > 0);
        assert(set.to_multiset().count(order[p]) > 0);
        assert(set.contains(order[p]));
        let k = choose|k: int| 0 <= k < set.len() && set[k] == order[p];
        assert(candidates.contains(set[k]));
    }
    assert forall|p: int, q: int|
        0 <= p < order.len() && 0 <= q < order.len() && order[q] < order[p] implies far_apart(
        spacing,
        #[trigger] order[p],
        #[trigger] order[q],
    ) by {
        assert(order.contains(order[p]) && order.contains(order[q]));
        assert(order.to_multiset().count(order[p]) > 0 && order.to_multiset().count(order[q]) > 0);
        assert(set.contains(order[p]) && set.contains(order[q]));
        let y = choose|y: int| 0 <= y < set.len() && set[y] == order[p];
        let x = choose|x: int| 0 <= x < set.len() && set[x] == order[q];
        if x >= y {
            if x > y {
                assert(set[y] < set[x]);
            }
        }
        assert(far_apart(spacing, set[y], set[x]));
    }
}

/// Counts the start sets that extend `selected` with members from positions `offset..`,
/// or `None` when there are more than `usize::MAX` of them.
fn count_sets_from(
    candidates: &Vec<usize>,
    offset: usize,
    count: usize,
    spacing: &Vec<Vec<bool>>,
    selected: &mut Vec<usize>,
) -> (total: Option<usize>)
    requires
        spacing_covers(candidates@, spacing@),
        offset <= candidates@.len(),
        old(selected)@.len() <= count,
        forall|k: int| 0 <= k < old(selected)@.len() ==> candidates@.contains(#[trigger] old(selected)@[k]),
    ensures
        final(selected)@ == old(selected)@,
        ({
            let met = sets_from(candidates@, spacing@, count as int, old(selected)@, offset as int);
            total == if met.len() <= usize::MAX {
                Some(met.len() as usize)
            } else {
                None::<usize>
            }
        }),
    decreases candidates@.len() - offset,
{
    let ghost cands = candidates@;
    let ghost sel = selected@;
    if selected.len() >= count {
        return Some(1);
    }
    let remaining = count - selected.len();
    if candidates.len() - offset < remaining {
        return Some(0);
    }
    let last = candidates.len() - remaining;
    let mut next = offset;
    let mut total: usize = 0;
    while next <= last
        invariant
            cands == candidates@,
            spacing_covers(cands, spacing@),
            offset <= next <= last + 1,
            last + remaining == cands.len(),
            cands.len() <= usize::MAX,
            remaining == count - sel.len(),
            remaining >= 1,
            selected@ == sel,
            sel == old(selected)@,
            sel.len() < count,
            forall|k: int| 0 <= k < sel.len() ==> cands.contains(#[trigger] sel[k]),
            sets_over(cands, spacing@, count as int, sel, offset as int).len() == total + sets_over(
                cands,
                spacing@,
                count as int,
                sel,
                next as int,
            ).len(),
        decreases last + 1 - next,
    {
        let candidate = candidates[next];
        proof {
            assert forall|k: int| 0 <= k < sel.len() implies #[trigger] sel[k]
                < spacing@[candidate as int]@.len() by {
                let i = choose|i: int| 0 <= i < cands.len() && cands[i] == sel[k];
                assert(cands[next as int] < spacing@.len() && cands[i] < spacing@[cands[next as int] as int]@.len());
            }
            assert(cands[next as int] < spacing@.len() && cands[next as int] < spacing@[cands[next as int] as int]@.len());
        }
        let ghost rest = sets_over(cands, spacing@, count as int, sel, next + 1);
        let ghost here = if far_from_selected(spacing@, cands[next as int], sel) {
            sets_from(cands, spacing@, count as int, sel.push(cands[next as int]), next + 1)
        } else {
            Seq::<Seq<usize>>::empty()
        };
        let ghost met = sets_from(cands, spacing@, count as int, sel, offset as int);
        proof {
            assert(sets_over(cands, spacing@, count as int, sel, next as int) == here + rest);
            assert(met == sets_over(cands, spacing@, count as int, sel, offset as int));
        }
        if far_from_all(spacing, candidate, selected) {
            selected.push(candidate);
            proof {
                assert forall|k: int| 0 <= k < selected@.len() implies cands.contains(
                    #[trigger] selected@[k],
                ) by {
                    if k == sel.len() {
                        assert(cands[next as int] == selected@[k]);
                    } else {
                        assert(selected@[k] == sel[k]);
                    }
                }
            }
            let sub = count_sets_from(candidates, next + 1, count, spacing, selected);
            selected.pop();
            proof {
                assert(selected@ =~= sel);
                assert(here == sets_from(cands, spacing@, count as int, sel.push(cands[next as int]), next + 1));
            }
            match sub {
                Some(found) => {
                    match total.checked_add(found) {
                        Some(sum) => {
                            total = sum;
                        },
                        None => {
                            assert(met.len() > usize::MAX);
                            return None;
                        },
                    }
                },
                None => {
                    assert(here.len() > usize::MAX);
                    assert(met.len() > usize::MAX);
                    return None;
                },
            }
        }
        next = next + 1;
    }
    Some(total)
}

/// The number of start sets of `count` candidates, or `None` when there are more than
/// `usize::MAX` of them.
pub fn count_start_sets(count: usize, candidates: &Vec<usize>, spacing: &Vec<Vec<bool>>) -> (total:
    Option<usize>)
    requires
        spacing_covers(candidates@, spacing@),
    ensures
        total == if start_sets(candidates@, spacing@, count as int).len() <= usize::MAX {
            Some(start_sets(candidates@, spacing@, count as int).len() as usize)
        } else {
            None::<usize>
        },
{
    let mut selected: Vec<usize> = Vec::new();
    proof {
        assert(selected@ == Seq::<usize>::empty());
    }
    count_sets_from(candidates, 0, count, spacing, &mut selected)
}

/// Picks `count` well-separated starting provinces among `candidates` and deals them to
/// the players in random order. The search meets the start sets in candidate order and
/// keeps the `k`-th one met (from zero) when its draw, uniform in `0..=k`, is zero, so
/// every start set is equally likely; the kept set is then shuffled. Returns `None` when
/// no spaced-out set of `count` candidates exists.
pub fn spread_out_starts(count: usize, candidates: &Vec<usize>, spacing: &Vec<Vec<bool>>) -> (starts:
    Option<Vec<usize>>)
    requires
        1 <= count <= 4,
        strictly_increasing(candidates@),
        spacing_covers(candidates@, spacing@),
        start_sets(candidates@, spacing@, count as int).len() <= usize::MAX,
    ensures
        starts is None <==> !(exists|set: Seq<usize>|
            is_start_set(candidates@, spacing@, count as int, set)),
        starts is None <==> start_sets(candidates@, spacing@, count as int).len() == 0,
        starts matches Some(order) ==> spaced_order(candidates@, spacing@, count as int, order@),
        starts matches Some(order) ==> order@.len() == count && exists|set: Seq<usize>|
            is_start_set(candidates@, spacing@, count as int, set) && #[trigger] set.to_multiset()
                == order@.to_multiset(),
        starts matches Some(order) ==> exists|draws: Seq<usize>, picks: Seq<usize>|
            reservoir_draws(draws, start_sets(candidates@, spacing@, count as int).len() as int)
                && valid_picks(picks, count as int) && #[trigger] shuffled(
                reservoir(
                    Seq::empty(),
                    start_sets(candidates@, spacing@, count as int),
                    draws,
                    start_sets(candidates@, spacing@, count as int).len() as int,
                ),
                picks,
                count - 1,
            ) == order@,
{
    let mut selected: Vec<usize> = Vec::new();
    let mut chosen: Vec<usize> = Vec::new();
    let mut valid_sets: usize = 0;
    proof {
        assert forall|set: Seq<usize>|
            is_start_set(candidates@, spacing@, count as int, set) implies extends(
            candidates@,
            spacing@,
            count as int,
            selected@,
            0,
            set,
        ) by {
            assert forall|k: int| 0 <= k < set.len() implies candidate_in(
                candidates@,
                0,
                candidates@.len() as int,
                #[trigger] set[k],
            ) by {
                assert(candidates@.contains(set[k]));
            }
            assert(set.take(0) =~= selected@);
        }
        assert(selected@ == Seq::<usize>::empty());
    }
    let draws = choose_start_set(
        candidates,
        0,
        count,
        spacing,
        &mut selected,
        &mut chosen,
        &mut valid_sets,
    );
    if valid_sets == 0 {
        return None;
    }
    let ghost picked = chosen@;
    proof {
        let sets = start_sets(candidates@, spacing@, count as int);
        assert(reservoir_draws(draws@, sets.len() as int));
        assert(picked == reservoir(Seq::empty(), sets, draws@, sets.len() as int));
    }
    shuffle(&mut chosen);
    assert(is_start_set(candidates@, spacing@, count as int, picked) && picked.to_multiset()
        == chosen@.to_multiset());
    proof {
        lemma_reordered_start_set(candidates@, spacing@, count as int, picked, chosen@);
    }
    Some(chosen)
}

} // verus!
