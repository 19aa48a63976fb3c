//! Famine: how long the food stores have been empty and how many residents it kills.

use vstd::prelude::*;

verus! {

/// Deaths per month of starvation from the fourth to the eighth month of famine.
pub const STARVATION_DEATHS: u32 = 2;

/// Deaths per month once a famine has lasted more than eight months.
pub const COLLAPSE_DEATHS: u32 = 5;

/// Months of famine after a month that ends with the stores empty or not.
pub fn next_famine_months(months: u32, stores_empty: bool) -> (next: u32)
    ensures
        next == if stores_empty {
            if months == u32::MAX {
                u32::MAX as int
            } else {
                months + 1
            }
        } else {
            0
        },
{
    if stores_empty {
        months.saturating_add(1)
    } else {
        0
    }
}

/// Residents lost in a famine's month number `month` (counting from one): none in the
/// first three months, then starvation, then collapse.
pub open spec fn deaths_in_month(month: int) -> int {
    if month <= 3 {
        0
    } else if month <= 8 {
        STARVATION_DEATHS as int
    } else {
        COLLAPSE_DEATHS as int
    }
}

/// Residents an empty store will cost next month, after `famine_months` months of famine.
pub fn famine_mortality(famine_months: u32) -> (deaths: u32)
    ensures
        deaths == deaths_in_month(if famine_months == u32::MAX {
            u32::MAX as int
        } else {
            famine_months + 1
        }),
{
    let next = famine_months.saturating_add(1);
    if next <= 3 {
        0
    } else if next <= 8 {
        STARVATION_DEATHS
    } else {
        COLLAPSE_DEATHS
    }
}

/// A longer famine never kills fewer residents a month.
pub proof fn lemma_famine_worsens(earlier: int, later: int)
    requires
        earlier <= later,
    ensures
        deaths_in_month(earlier) <= deaths_in_month(later),
{
}

} // verus!
