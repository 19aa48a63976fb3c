use augustus::governance::{EdictLevel, Governance};
use augustus::happiness::{unhappy_classes, ClassHappiness, HappinessLedger};

fn amounts(ledger: &HappinessLedger) -> [i64; 4] {
    ledger.happiness_for(0).map(|class| class.amount)
}

fn drifts(ledger: &HappinessLedger) -> [i64; 4] {
    ledger.happiness_for(0).map(|class| class.monthly_delta)
}

#[test]
fn governance_happiness_drift_updates_without_stacking_old_edicts() {
    let mut resources = HappinessLedger::new();
    resources.start_players(1);

    let mut edicts = Governance {
        food_rations: EdictLevel::High,
        slave_labor: EdictLevel::Low,
        noble_taxes: EdictLevel::High,
        ..Default::default()
    };
    resources.apply_governance(0, edicts);
    assert_eq!(drifts(&resources), [0, 1, 1, 3]);
    resources.apply_governance(0, edicts);
    resources.advance_month(0);
    assert_eq!(amounts(&resources), [50, 51, 51, 53]);

    edicts.food_rations = EdictLevel::Low;
    edicts.slave_labor = EdictLevel::High;
    edicts.noble_taxes = EdictLevel::Low;
    resources.apply_governance(0, edicts);
    assert_eq!(drifts(&resources), [0, -1, -1, -3]);
    resources.apply_governance(0, edicts);
    resources.advance_month(0);
    assert_eq!(amounts(&resources), [50, 50, 50, 50]);
}

#[test]
fn badge_shows_the_least_happy_class_and_its_trend() {
    let mut resources = HappinessLedger::new();
    resources.set_class(0, 0, ClassHappiness { amount: 58, monthly_delta: 2 });
    resources.set_class(0, 1, ClassHappiness { amount: 42, monthly_delta: -1 });
    assert_eq!(resources.least_happy(0), ClassHappiness { amount: 42, monthly_delta: -1 });
    resources.advance_month(0);
    assert_eq!(resources.least_happy(0), ClassHappiness { amount: 41, monthly_delta: -1 });
    resources.set_class(0, 2, ClassHappiness { amount: 41, monthly_delta: 0 });
    assert_eq!(resources.least_happy(0).monthly_delta, -1, "the first of equals is shown");
    assert_eq!(resources.least_happy(5), resources.least_happy(0));
}

#[test]
fn happiness_stays_between_zero_and_one_hundred() {
    let mut resources = HappinessLedger::new();
    resources.set_class(0, 3, ClassHappiness { amount: 99, monthly_delta: 5 });
    resources.set_class(0, 2, ClassHappiness { amount: 1, monthly_delta: -4 });
    resources.advance_month(0);
    assert_eq!(amounts(&resources), [50, 50, 0, 100]);
}

#[test]
fn edict_rates_follow_their_levels() {
    let neutral = Governance::default();
    assert_eq!(neutral.happiness_deltas(), [0, 0, 0, 0]);
    assert_eq!(neutral.population_growth_per_mille(), 10);
    assert_eq!(neutral.food_per_person_tenths(), 10);
    let harsh = Governance {
        food_rations: EdictLevel::Low,
        slave_labor: EdictLevel::High,
        noble_taxes: EdictLevel::High,
        army_wages: EdictLevel::Low,
    };
    assert_eq!(harsh.population_growth_per_mille(), 5);
    assert_eq!(harsh.slave_population_growth_per_mille(), 0);
    assert_eq!(harsh.food_per_person_tenths(), 8);
    assert_eq!(harsh.slave_labor_tenths(), 15);
    assert_eq!(harsh.noble_tax_tenths(), 15);
    assert_eq!(harsh.army_wage_hundredths(), 75);
    assert_eq!(harsh.happiness_deltas(), [-2, -1, -1, -3]);
    let generous = Governance {
        food_rations: EdictLevel::High,
        slave_labor: EdictLevel::Low,
        noble_taxes: EdictLevel::Low,
        army_wages: EdictLevel::High,
    };
    assert_eq!(generous.happiness_deltas(), [2, 1, 1, 3]);
    assert_eq!(generous.slave_population_growth_per_mille(), 15);
    assert_eq!(generous.army_wage_hundredths(), 125);
}

#[test]
fn happiness_warnings_use_strict_class_thresholds() {
    let class = |amount| ClassHappiness { amount, monthly_delta: 0 };
    assert_eq!(unhappy_classes([class(40), class(30), class(20), class(10)]), [false; 4]);
    assert_eq!(unhappy_classes([class(39), class(29), class(19), class(9)]), [true; 4]);
    assert_eq!(unhappy_classes([class(35), class(35), class(35), class(35)]), [true, false, false, false]);
}
