//! Happiness of each player's four social classes and its monthly drift.
//!
//! Happiness is a whole number of points from 0 to 100. Each class drifts by a
//! monthly amount; the edicts in force contribute part of that drift, and changing
//! edicts replaces their contribution rather than adding to it.

use vstd::prelude::*;

use crate::governance::{happiness_drift, Governance};

verus! {

/// Number of social classes: nobles, citizens, plebeians and slaves.
pub const POP_CLASSES: usize = 4;

/// Highest happiness a class can reach.
pub const HAPPINESS_MAX: i64 = 100;

/// Happiness of every class when a game begins.
pub const STARTING_HAPPINESS: i64 = 50;

/// Largest drift, apart from the edicts' share, that the ledger accepts.
pub const DRIFT_LIMIT: i64 = 1_000_000;

/// Happiness of one class and its monthly change.
#[derive(Clone, Copy, Debug, PartialEq, Eq, Structural)]
pub struct ClassHappiness {
    /// Current happiness, 0 to 100.
    pub amount: i64,
    /// Change applied at the start of each month.
    pub monthly_delta: i64,
}

/// Happiness of every player's classes.
pub struct HappinessLedger {
    /// Per player: nobles, citizens, plebeians, slaves.
    pub classes: Vec<[ClassHappiness; 4]>,
    /// Per player: the part of each class's drift that comes from the edicts in force.
    pub edict_drift: Vec<[i64; 4]>,
}

/// A class at starting happiness with no drift.
pub open spec fn settled() -> ClassHappiness {
    ClassHappiness { amount: STARTING_HAPPINESS, monthly_delta: 0 }
}

/// `value` limited to the happiness scale.
pub open spec fn clamp_happiness(value: int) -> int {
    if value < 0 {
        0
    } else if value > HAPPINESS_MAX {
        HAPPINESS_MAX as int
    } else {
        value
    }
}

/// Drift of a class after the edicts' share changes from `old_share` to `new_share`.
pub open spec fn drift_after(drift: int, old_share: int, new_share: int) -> int {
    drift - old_share + new_share
}

/// `index` holds the least happy class of `row`, the first one where several tie.
pub open spec fn is_least_happy(row: Seq<ClassHappiness>, index: int) -> bool {
    &&& 0 <= index < row.len()
    &&& forall|j: int| 0 <= j < row.len() ==> row[index].amount <= #[trigger] row[j].amount
    &&& forall|j: int| 0 <= j < index ==> row[index].amount < #[trigger] row[j].amount
}

impl HappinessLedger {
    /// At least one player; each class on the scale; edict shares within three points and
    /// the rest of each drift within [`DRIFT_LIMIT`].
    pub open spec fn wf(&self) -> bool {
        &&& self.classes@.len() >= 1
        &&& self.classes@.len() == self.edict_drift@.len()
        &&& forall|p: int, c: int|
            0 <= p < self.classes@.len() && 0 <= c < 4 ==> {
                let class = #[trigger] self.classes@[p]@[c];
                let share = self.edict_drift@[p]@[c];
                &&& 0 <= class.amount <= HAPPINESS_MAX
                &&& -3 <= share <= 3
                &&& -DRIFT_LIMIT <= class.monthly_delta - share <= DRIFT_LIMIT
            }
    }

    /// Every class of every one of `players` players is settled and no edict is in force.
    pub open spec fn is_fresh(&self, players: int) -> bool {
        &&& self.classes@.len() == players
        &&& self.edict_drift@.len() == players
        &&& forall|p: int, c: int|
            0 <= p < players && 0 <= c < 4 ==> #[trigger] self.classes@[p]@[c] == settled()
                && self.edict_drift@[p]@[c] == 0
    }

    /// Ledger of the preview game: one player, every class settled.
    pub fn new() -> (ledger: HappinessLedger)
        ensures
            ledger.wf(),
            ledger.is_fresh(1),
    {
        let mut ledger = HappinessLedger { classes: Vec::new(), edict_drift: Vec::new() };
        ledger.start_players(1);
        ledger
    }

    /// Resets the ledger for a new game of `players` players.
    pub fn start_players(&mut self, players: usize)
        requires
            players >= 1,
        ensures
            final(self).wf(),
            final(self).is_fresh(players as int),
    {
        let row = [
            ClassHappiness { amount: STARTING_HAPPINESS, monthly_delta: 0 },
            ClassHappiness { amount: STARTING_HAPPINESS, monthly_delta: 0 },
            ClassHappiness { amount: STARTING_HAPPINESS, monthly_delta: 0 },
            ClassHappiness { amount: STARTING_HAPPINESS, monthly_delta: 0 },
        ];
        assert(forall|c: int| 0 <= c < 4 ==> row@[c] == settled());
        let mut classes: Vec<[ClassHappiness; 4]> = Vec::new();
        let mut edict_drift: Vec<[i64; 4]> = Vec::new();
        let zeros: [i64; 4] = [0, 0, 0, 0];
        assert(zeros@ =~= seq![0i64, 0, 0, 0]);
        let mut p: usize = 0;
        while p < players
            invariant
                zeros@ == seq![0i64, 0, 0, 0],
                p <= players,
                classes@.len() == p,
                edict_drift@.len() == p,
                forall|c: int| 0 <= c < 4 ==> row@[c] == settled(),
                forall|q: int, c: int|
                    0 <= q < p && 0 <= c < 4 ==> #[trigger] classes@[q]@[c] == settled()
                        && edict_drift@[q]@[c] == 0,
            decreases players - p,
        {
            classes.push(row);
            edict_drift.push(zeros);
            p = p + 1;
        }
        self.classes = classes;
        self.edict_drift = edict_drift;
    }

    /// Number of players in the ledger.
    pub fn players(&self) -> (count: usize)
        ensures
            count == self.classes@.len(),
    {
        self.classes.len()
    }

    /// Happiness of `player`'s classes; the first player's stand in for an unknown player.
    pub fn happiness_for(&self, player: usize) -> (row: [ClassHappiness; 4])
        requires
            self.wf(),
        ensures
            row == if player < self.classes@.len() {
                self.classes@[player as int]
            } else {
                self.classes@[0]
            },
    {
        if player < self.classes.len() {
            self.classes[player]
        } else {
            self.classes[0]
        }
    }

    /// The least happy of `player`'s classes, which the map's happiness badge shows.
    pub fn least_happy(&self, player: usize) -> (class: ClassHappiness)
        requires
            self.wf(),
        ensures
            exists|i: int|
                is_least_happy(self.happiness_for_spec(player)@, i) && class
                    == self.happiness_for_spec(player)@[i],
    {
        let row = self.happiness_for(player);
        let mut best: usize = 0;
        let mut c: usize = 1;
        while c < POP_CLASSES
            invariant
                1 <= c <= 4,
                best < c,
                row@.len() == 4,
                forall|j: int| 0 <= j < c ==> row@[best as int].amount <= #[trigger] row@[j].amount,
                forall|j: int| 0 <= j < best ==> row@[best as int].amount < #[trigger] row@[j].amount,
            decreases 4 - c,
        {
            if row[c].amount < row[best].amount {
                best = c;
            }
            c = c + 1;
        }
        assert(is_least_happy(row@, best as int));
        assert(row == self.happiness_for_spec(player));
        row[best]
    }

    /// Happiness of `player`'s classes, as [`Self::happiness_for`] returns it.
    pub open spec fn happiness_for_spec(&self, player: usize) -> [ClassHappiness; 4] {
        if player < self.classes@.len() {
            self.classes@[player as int]
        } else {
            self.classes@[0]
        }
    }

    /// Puts `governance` in force for `player`: each class's drift loses the share of the
    /// edicts it replaces and gains the share of the new ones.
    pub fn apply_governance(&mut self, player: usize, governance: Governance)
        requires
            old(self).wf(),
        ensures
            final(self).wf(),
            final(self).classes@.len() == old(self).classes@.len(),
            forall|p: int| 0 <= p < old(self).classes@.len() && p != player ==> {
                &&& #[trigger] final(self).classes@[p] == old(self).classes@[p]
                &&& final(self).edict_drift@[p] == old(self).edict_drift@[p]
            },
            player < old(self).classes@.len() ==> forall|c: int|
                0 <= c < 4 ==> {
                    &&& (#[trigger] final(self).classes@[player as int]@[c]).amount == old(self).classes@[player as int]@[c].amount
                    &&& final(self).classes@[player as int]@[c].monthly_delta == drift_after(
                        old(self).classes@[player as int]@[c].monthly_delta as int,
                        old(self).edict_drift@[player as int]@[c] as int,
                        happiness_drift(governance)[c],
                    )
                    &&& final(self).edict_drift@[player as int]@[c] == happiness_drift(governance)[c]
                },
            player >= old(self).classes@.len() ==> final(self).classes@ == old(self).classes@
                && final(self).edict_drift@ == old(self).edict_drift@,
    {
        if player >= self.classes.len() {
            return;
        }
        let next = governance.happiness_deltas();
        let previous = self.edict_drift[player];
        let row = self.classes[player];
        proof {
            crate::governance::lemma_drift_bounded(governance);
            assert forall|c: int| 0 <= c < 4 implies {
                &&& -3 <= #[trigger] next@[c] <= 3
                &&& -3 <= previous@[c] <= 3
                &&& -DRIFT_LIMIT <= row@[c].monthly_delta - previous@[c] <= DRIFT_LIMIT
                &&& 0 <= row@[c].amount <= HAPPINESS_MAX
            } by {
                assert(row@[c] == self.classes@[player as int]@[c]);
                assert(happiness_drift(governance)[c] == next@[c]);
            }
            assert(-3 <= next@[0] <= 3 && -3 <= next@[1] <= 3 && -3 <= next@[2] <= 3 && -3 <= next@[3] <= 3);
        }
        let updated = [
            ClassHappiness {
                amount: row[0].amount,
                monthly_delta: row[0].monthly_delta - previous[0] + next[0],
            },
            ClassHappiness {
                amount: row[1].amount,
                monthly_delta: row[1].monthly_delta - previous[1] + next[1],
            },
            ClassHappiness {
                amount: row[2].amount,
                monthly_delta: row[2].monthly_delta - previous[2] + next[2],
            },
            ClassHappiness {
                amount: row[3].amount,
                monthly_delta: row[3].monthly_delta - previous[3] + next[3],
            },
        ];
        let ghost old_self = *old(self);
        self.classes.set(player, updated);
        self.edict_drift.set(player, next);
        proof {
            assert forall|c: int| 0 <= c < 4 implies #[trigger] updated@[c] == (ClassHappiness {
                amount: row@[c].amount,
                monthly_delta: (row@[c].monthly_delta - previous@[c] + next@[c]) as i64,
            }) by {
                assert(c == 0 || c == 1 || c == 2 || c == 3);
            }
            assert forall|p: int, c: int|
                0 <= p < self.classes@.len() && 0 <= c < 4 implies {
                    let class = #[trigger] self.classes@[p]@[c];
                    let share = self.edict_drift@[p]@[c];
                    &&& 0 <= class.amount <= HAPPINESS_MAX
                    &&& -3 <= share <= 3
                    &&& -DRIFT_LIMIT <= class.monthly_delta - share <= DRIFT_LIMIT
                } by {
                if p == player {
                    assert(self.classes@[p]@[c] == updated@[c]);
                    assert(self.edict_drift@[p]@[c] == next@[c]);
                } else {
                    assert(self.classes@[p] == old_self.classes@[p]);
                }
            }
        }
    }

    /// Starts a new month for `player`: each class's happiness moves by its drift and stays
    /// on the scale.
    pub fn advance_month(&mut self, player: usize)
        requires
            old(self).wf(),
            player < old(self).classes@.len(),
        ensures
            final(self).wf(),
            final(self).classes@.len() == old(self).classes@.len(),
            final(self).edict_drift@ == old(self).edict_drift@,
            forall|p: int|
                0 <= p < old(self).classes@.len() && p != player ==> #[trigger] final(self).classes@[p] == old(self).classes@[p],
            forall|c: int|
                0 <= c < 4 ==> {
                    let before = old(self).classes@[player as int]@[c];
                    &&& (#[trigger] final(self).classes@[player as int]@[c]).amount
                        == clamp_happiness(before.amount + before.monthly_delta)
                    &&& final(self).classes@[player as int]@[c].monthly_delta
                        == before.monthly_delta
                },
    {
        let row = self.classes[player];
        proof {
            assert(forall|c: int| 0 <= c < 4 ==> #[trigger] row@[c] == self.classes@[player as int]@[c]);
        }
        let updated = [
            ClassHappiness {
                amount: clamped(row[0].amount + row[0].monthly_delta),
                monthly_delta: row[0].monthly_delta,
            },
            ClassHappiness {
                amount: clamped(row[1].amount + row[1].monthly_delta),
                monthly_delta: row[1].monthly_delta,
            },
            ClassHappiness {
                amount: clamped(row[2].amount + row[2].monthly_delta),
                monthly_delta: row[2].monthly_delta,
            },
            ClassHappiness {
                amount: clamped(row[3].amount + row[3].monthly_delta),
                monthly_delta: row[3].monthly_delta,
            },
        ];
        let ghost old_self = *old(self);
        self.classes.set(player, updated);
        proof {
            assert forall|c: int| 0 <= c < 4 implies #[trigger] updated@[c] == (ClassHappiness {
                amount: clamp_happiness(row@[c].amount + row@[c].monthly_delta) as i64,
                monthly_delta: row@[c].monthly_delta,
            }) by {
                assert(c == 0 || c == 1 || c == 2 || c == 3);
            }
            assert forall|p: int, c: int|
                0 <= p < self.classes@.len() && 0 <= c < 4 implies {
                    let class = #[trigger] self.classes@[p]@[c];
                    let share = self.edict_drift@[p]@[c];
                    &&& 0 <= class.amount <= HAPPINESS_MAX
                    &&& -3 <= share <= 3
                    &&& -DRIFT_LIMIT <= class.monthly_delta - share <= DRIFT_LIMIT
                } by {
                if p == player {
                    assert(self.classes@[p]@[c] == updated@[c]);
                    assert(old_self.classes@[p]@[c] == row@[c]);
                } else {
                    assert(self.classes@[p] == old_self.classes@[p]);
                }
            }
        }
    }

    /// Overwrites one class of `player`, as a scenario or a saved game dictates.
    pub fn set_class(&mut self, player: usize, class: usize, value: ClassHappiness)
        requires
            old(self).wf(),
            player < old(self).classes@.len(),
            class < POP_CLASSES,
            0 <= value.amount <= HAPPINESS_MAX,
            -DRIFT_LIMIT <= value.monthly_delta - old(self).edict_drift@[player as int]@[class as int]
                <= DRIFT_LIMIT,
        ensures
            final(self).wf(),
            final(self).classes@ == old(self).classes@.update(
                player as int,
                final(self).classes@[player as int],
            ),
            final(self).edict_drift@ == old(self).edict_drift@,
            forall|c: int|
                0 <= c < 4 ==> #[trigger] final(self).classes@[player as int]@[c] == if c == class {
                    value
                } else {
                    old(self).classes@[player as int]@[c]
                },
    {
        let row = self.classes[player];
        let updated = [
            if class == 0 {
                value
            } else {
                row[0]
            },
            if class == 1 {
                value
            } else {
                row[1]
            },
            if class == 2 {
                value
            } else {
                row[2]
            },
            if class == 3 {
                value
            } else {
                row[3]
            },
        ];
        assert forall|c: int| 0 <= c < 4 implies #[trigger] updated@[c] == if c == class {
            value
        } else {
            row@[c]
        } by {}
        let ghost before = self.classes@;
        self.classes.set(player, updated);
        assert forall|p: int, c: int| 0 <= p < self.classes@.len() && 0 <= c < 4 implies {
            let entry = #[trigger] self.classes@[p]@[c];
            let share = self.edict_drift@[p]@[c];
            &&& 0 <= entry.amount <= HAPPINESS_MAX
            &&& -3 <= share <= 3
            &&& -DRIFT_LIMIT <= entry.monthly_delta - share <= DRIFT_LIMIT
        } by {
            if p != player {
                assert(self.classes@[p] == before[p]);
            }
        }
    }
}

/// `value` limited to the happiness scale.
fn clamped(value: i64) -> (limited: i64)
    ensures
        limited == clamp_happiness(value as int),
{
    if value < 0 {
        0
    } else if value > HAPPINESS_MAX {
        HAPPINESS_MAX
    } else {
        value
    }
}

/// Changing edicts twice leaves the same drift as changing once to the final edicts:
/// the share of replaced edicts never stacks.
pub proof fn lemma_edicts_do_not_stack(drift: int, share: int, first: int, second: int)
    ensures
        drift_after(drift_after(drift, share, first), first, second) == drift_after(
            drift,
            share,
            second,
        ),
{
}

/// Happiness below which nobles, citizens, plebeians and slaves are unhappy.
pub const UNHAPPY_BELOW: [i64; 4] = [40, 30, 20, 10];

/// Which classes of `row` are unhappy: strictly below their class's threshold.
pub fn unhappy_classes(row: [ClassHappiness; 4]) -> (unhappy: [bool; 4])
    ensures
        forall|c: int| 0 <= c < 4 ==> #[trigger] unhappy@[c] == (row@[c].amount < UNHAPPY_BELOW@[c]),
{
    let unhappy = [
        row[0].amount < UNHAPPY_BELOW[0],
        row[1].amount < UNHAPPY_BELOW[1],
        row[2].amount < UNHAPPY_BELOW[2],
        row[3].amount < UNHAPPY_BELOW[3],
    ];
    assert(unhappy@ =~= seq![
        row@[0].amount < UNHAPPY_BELOW@[0],
        row@[1].amount < UNHAPPY_BELOW@[1],
        row@[2].amount < UNHAPPY_BELOW@[2],
        row@[3].amount < UNHAPPY_BELOW@[3],
    ]);
    unhappy
}

/// Whatever the drift, a month leaves every class on the happiness scale.
pub proof fn lemma_month_stays_on_scale(amount: int, drift: int)
    ensures
        0 <= clamp_happiness(amount + drift) <= HAPPINESS_MAX,
{
}

} // verus!
