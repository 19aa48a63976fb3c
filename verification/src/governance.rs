//! Empire-wide edicts for the local monthly economy.
//!
//! Rates are stated in exact decimal units: growth in thousandths per month, rations,
//! slave labor and noble taxes in tenths, and army wages in hundredths.

use vstd::prelude::*;

verus! {

/// Strength of one edict.
#[derive(Clone, Copy, Debug, PartialEq, Eq, Structural)]
pub enum EdictLevel {
    Low,
    Medium,
    High,
}

impl Default for EdictLevel {
    fn default() -> (level: EdictLevel)
        ensures
            level == EdictLevel::Medium,
    {
        EdictLevel::Medium
    }
}

/// The four edicts a player sets for their whole domain.
#[derive(Clone, Copy, Debug, PartialEq, Eq, Structural)]
pub struct Governance {
    /// Food handed to each resident.
    pub food_rations: EdictLevel,
    /// How hard slaves are worked.
    pub slave_labor: EdictLevel,
    /// Coin levied on each noble.
    pub noble_taxes: EdictLevel,
    /// Pay of the legions.
    pub army_wages: EdictLevel,
}

/// Every edict at its medium level.
pub open spec fn default_governance() -> Governance {
    Governance {
        food_rations: EdictLevel::Medium,
        slave_labor: EdictLevel::Medium,
        noble_taxes: EdictLevel::Medium,
        army_wages: EdictLevel::Medium,
    }
}

impl Default for Governance {
    fn default() -> (governance: Governance)
        ensures
            governance == default_governance(),
    {
        Governance {
            food_rations: EdictLevel::Medium,
            slave_labor: EdictLevel::Medium,
            noble_taxes: EdictLevel::Medium,
            army_wages: EdictLevel::Medium,
        }
    }
}

/// Value of a three-level edict: `low`, `medium` or `high` by level.
pub open spec fn by_level(level: EdictLevel, low: int, medium: int, high: int) -> int {
    match level {
        EdictLevel::Low => low,
        EdictLevel::Medium => medium,
        EdictLevel::High => high,
    }
}

/// Monthly growth of free classes, in thousandths of their number.
pub open spec fn growth_per_mille(g: Governance) -> int {
    by_level(g.food_rations, 5, 10, 15)
}

/// Monthly growth of slaves, in thousandths: hard labor takes five off, never below zero.
pub open spec fn slave_growth_per_mille(g: Governance) -> int {
    let reduced = growth_per_mille(g) - if g.slave_labor == EdictLevel::High {
        5int
    } else {
        0int
    };
    if reduced < 0 {
        0
    } else {
        reduced
    }
}

/// Monthly happiness drift each edict set adds to nobles, citizens, plebeians and slaves.
pub open spec fn happiness_drift(g: Governance) -> Seq<int> {
    let ration = by_level(g.food_rations, -1, 0, 1);
    let labor = by_level(g.slave_labor, 2, 0, -2);
    let tax = by_level(g.noble_taxes, 1, 0, -1);
    seq![ration + tax, ration, ration, ration + labor]
}

/// The opposite level: low and high trade places.
pub open spec fn opposite(level: EdictLevel) -> EdictLevel {
    match level {
        EdictLevel::Low => EdictLevel::High,
        EdictLevel::Medium => EdictLevel::Medium,
        EdictLevel::High => EdictLevel::Low,
    }
}

/// Every edict turned to its opposite level.
pub open spec fn mirrored(g: Governance) -> Governance {
    Governance {
        food_rations: opposite(g.food_rations),
        slave_labor: opposite(g.slave_labor),
        noble_taxes: opposite(g.noble_taxes),
        army_wages: opposite(g.army_wages),
    }
}

impl Governance {
    /// Monthly growth of nobles, citizens and plebeians, in thousandths of their number.
    pub fn population_growth_per_mille(self) -> (rate: u32)
        ensures
            rate == growth_per_mille(self),
    {
        match self.food_rations {
            EdictLevel::Low => 5,
            EdictLevel::Medium => 10,
            EdictLevel::High => 15,
        }
    }

    /// Monthly growth of slaves, in thousandths of their number.
    pub fn slave_population_growth_per_mille(self) -> (rate: u32)
        ensures
            rate == slave_growth_per_mille(self),
    {
        let rate = self.population_growth_per_mille();
        let cut: u32 = if self.slave_labor == EdictLevel::High {
            5
        } else {
            0
        };
        if rate < cut {
            0
        } else {
            rate - cut
        }
    }

    /// Food each resident eats per month, in tenths.
    pub fn food_per_person_tenths(self) -> (food: u32)
        ensures
            food == by_level(self.food_rations, 8, 10, 12),
    {
        match self.food_rations {
            EdictLevel::Low => 8,
            EdictLevel::Medium => 10,
            EdictLevel::High => 12,
        }
    }

    /// Output of slave labor relative to normal, in tenths.
    pub fn slave_labor_tenths(self) -> (factor: u32)
        ensures
            factor == by_level(self.slave_labor, 5, 10, 15),
    {
        match self.slave_labor {
            EdictLevel::Low => 5,
            EdictLevel::Medium => 10,
            EdictLevel::High => 15,
        }
    }

    /// Coin each noble pays per month, in tenths.
    pub fn noble_tax_tenths(self) -> (tax: u32)
        ensures
            tax == by_level(self.noble_taxes, 5, 10, 15),
    {
        match self.noble_taxes {
            EdictLevel::Low => 5,
            EdictLevel::Medium => 10,
            EdictLevel::High => 15,
        }
    }

    /// Army pay relative to normal, in hundredths.
    pub fn army_wage_hundredths(self) -> (factor: u32)
        ensures
            factor == by_level(self.army_wages, 75, 100, 125),
    {
        match self.army_wages {
            EdictLevel::Low => 75,
            EdictLevel::Medium => 100,
            EdictLevel::High => 125,
        }
    }

    /// Monthly happiness drift these edicts add to nobles, citizens, plebeians and slaves.
    pub fn happiness_deltas(self) -> (deltas: [i64; 4])
        ensures
            deltas@.len() == 4,
            forall|c: int| 0 <= c < 4 ==> deltas@[c] == #[trigger] happiness_drift(self)[c],
    {
        let ration: i64 = match self.food_rations {
            EdictLevel::Low => -1,
            EdictLevel::Medium => 0,
            EdictLevel::High => 1,
        };
        let labor: i64 = match self.slave_labor {
            EdictLevel::Low => 2,
            EdictLevel::Medium => 0,
            EdictLevel::High => -2,
        };
        let tax: i64 = match self.noble_taxes {
            EdictLevel::Low => 1,
            EdictLevel::Medium => 0,
            EdictLevel::High => -1,
        };
        [ration + tax, ration, ration, ration + labor]
    }
}

/// Medium edicts change nobody's happiness and keep every rate at its normal value.
pub proof fn lemma_default_edicts_are_neutral()
    ensures
        happiness_drift(default_governance()) == seq![0int, 0, 0, 0],
        growth_per_mille(default_governance()) == 10,
        slave_growth_per_mille(default_governance()) == 10,
{
    assert(happiness_drift(default_governance()) =~= seq![0int, 0, 0, 0]);
}

/// Turning every edict to its opposite level reverses each class's happiness drift.
pub proof fn lemma_opposite_edicts_reverse_drift(g: Governance)
    ensures
        forall|c: int|
            0 <= c < 4 ==> #[trigger] happiness_drift(mirrored(g))[c] == -happiness_drift(g)[c],
{
}

/// Slaves never grow faster than the free classes, and no class ever shrinks from edicts alone.
pub proof fn lemma_slave_growth_bounded(g: Governance)
    ensures
        0 <= slave_growth_per_mille(g) <= growth_per_mille(g),
{
}

/// Each class's drift from edicts stays within three points a month.
pub proof fn lemma_drift_bounded(g: Governance)
    ensures
        forall|c: int| 0 <= c < 4 ==> -3 <= #[trigger] happiness_drift(g)[c] <= 3,
{
}

/// Each edict moves the happiness of exactly the classes it concerns, by its own share:
/// food rations move every class (low -1, high +1), slave labor moves only the slaves
/// (light +2, hard -2), noble taxes move only the nobles (low +1, high -1), and army wages
/// move nobody. Changing one edict to `level` shifts the drift by the difference of shares.
pub proof fn lemma_each_edict_moves_its_own_classes(g: Governance, level: EdictLevel)
    ensures
        happiness_drift(g).len() == 4,
        ({
            let h = Governance { food_rations: level, ..g };
            let shift = by_level(level, -1, 0, 1) - by_level(g.food_rations, -1, 0, 1);
            forall|c: int| 0 <= c < 4 ==> #[trigger] happiness_drift(h)[c] == happiness_drift(g)[c] + shift
        }),
        ({
            let h = Governance { slave_labor: level, ..g };
            &&& happiness_drift(h)[0] == happiness_drift(g)[0]
            &&& happiness_drift(h)[1] == happiness_drift(g)[1]
            &&& happiness_drift(h)[2] == happiness_drift(g)[2]
            &&& happiness_drift(h)[3] == happiness_drift(g)[3] + by_level(level, 2, 0, -2)
                - by_level(g.slave_labor, 2, 0, -2)
        }),
        ({
            let h = Governance { noble_taxes: level, ..g };
            &&& happiness_drift(h)[0] == happiness_drift(g)[0] + by_level(level, 1, 0, -1)
                - by_level(g.noble_taxes, 1, 0, -1)
            &&& happiness_drift(h)[1] == happiness_drift(g)[1]
            &&& happiness_drift(h)[2] == happiness_drift(g)[2]
            &&& happiness_drift(h)[3] == happiness_drift(g)[3]
        }),
        happiness_drift((Governance { army_wages: level, ..g })) == happiness_drift(g),
{
    assert(happiness_drift((Governance { army_wages: level, ..g })) =~= happiness_drift(g));
}

/// With every other edict at medium, hard slave labor costs the slaves two points a month
/// and nobody else anything.
pub proof fn lemma_hard_labor_costs_slaves_two()
    ensures
        happiness_drift((Governance { slave_labor: EdictLevel::High, ..default_governance() }))
            == seq![0int, 0, 0, -2],
{
    assert(happiness_drift((Governance { slave_labor: EdictLevel::High, ..default_governance() }))
        =~= seq![0int, 0, 0, -2]);
}

} // verus!
