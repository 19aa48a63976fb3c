//! The campaign calendar: months pass every three seconds of play at normal speed.
//!
//! Game time is kept in exact integer units: one unit is a quarter of a microsecond of
//! play at normal speed, so the five speed settings (a quarter, half, normal, double and
//! quadruple) all advance the calendar by a whole number of units per microsecond.

use vstd::arithmetic::div_mod::lemma_fundamental_div_mod_converse;
use vstd::prelude::*;

use crate::text::push_all;

verus! {

/// Months in a year.
pub const MONTHS_PER_YEAR: usize = 12;

/// Slowest speed setting: a quarter of normal speed.
pub const MIN_SPEED_STEP: i8 = -2;

/// Fastest speed setting: four times normal speed.
pub const MAX_SPEED_STEP: i8 = 2;

/// Units of game time in one month (three seconds at normal speed, in quarter microseconds).
pub const MONTH_UNITS: u64 = 12_000_000;

/// Longest real time, in microseconds, that one call may advance the clock by.
pub const MAX_STEP_MICROS: u64 = 0x100_0000_0000;

/// Latest year the calendar can reach without leaving the range of its year counter.
pub const MAX_YEAR: i32 = 2_000_000_000;

/// Abbreviated month names, January first.
pub const MONTH_NAMES: [&'static str; 12] = [
    "Jan",
    "Feb",
    "Mar",
    "Apr",
    "May",
    "Jun",
    "Jul",
    "Aug",
    "Sep",
    "Oct",
    "Nov",
    "Dec",
];

/// Decimal digits, zero first.
pub const DIGITS: [char; 10] = ['0', '1', '2', '3', '4', '5', '6', '7', '8', '9'];

/// Calendar position and speed of the running game.
#[derive(Debug, Clone, Copy, PartialEq, Eq, Structural)]
pub struct GameClock {
    /// Astronomical year: 0 is 1 BC, so the step from 1 BC to 1 AD needs no special case.
    pub year: i32,
    /// Current month, 0 for January.
    pub month: usize,
    /// Game time elapsed in the current month, in units of [`MONTH_UNITS`].
    pub month_progress: u64,
    /// Speed setting: time runs at two to the power of this step.
    pub speed_step: i8,
}

/// Game-time units one microsecond of play adds at speed setting `step`.
pub open spec fn units_per_micro(step: i8) -> u64 {
    if step <= -2 {
        1
    } else if step == -1 {
        2
    } else if step == 0 {
        4
    } else if step == 1 {
        8
    } else {
        16
    }
}

/// Months elapsed since January of year 0.
pub open spec fn month_count(year: i32, month: usize) -> int {
    year * 12 + month
}

/// Year shown to the player: years up to 0 count backwards before Christ.
pub open spec fn era_year(year: i32) -> int {
    if year <= 0 {
        1 - year
    } else {
        year as int
    }
}

/// Era shown after the year.
pub open spec fn era_name(year: i32) -> Seq<char> {
    if year <= 0 {
        "BC"@
    } else {
        "AD"@
    }
}

/// Decimal digits of `n`, most significant first, without leading zeros.
pub open spec fn decimal(n: nat) -> Seq<char>
    decreases n,
{
    if n < 10 {
        seq![DIGITS@[n as int]]
    } else {
        decimal(n / 10).push(DIGITS@[(n % 10) as int])
    }
}

/// The calendar line, such as `Jan, 60 AD` or `Dec, 1 BC`.
pub open spec fn date_text(year: i32, month: usize) -> Seq<char> {
    MONTH_NAMES@[month as int]@ + ", "@ + decimal(era_year(year) as nat) + " "@ + era_name(year)
}

impl Default for GameClock {
    fn default() -> (clock: GameClock)
        ensures
            clock == (GameClock { year: 60, month: 0, month_progress: 0, speed_step: 0 }),
    {
        GameClock::new()
    }
}

impl GameClock {
    /// The clock is on a real month, inside that month, at a real speed setting.
    pub open spec fn wf(self) -> bool {
        &&& self.month < MONTHS_PER_YEAR
        &&& self.month_progress < MONTH_UNITS
        &&& MIN_SPEED_STEP <= self.speed_step <= MAX_SPEED_STEP
    }

    /// The clock of a new game: January of 60 AD at normal speed.
    pub fn new() -> (clock: GameClock)
        ensures
            clock.wf(),
            clock == (GameClock { year: 60, month: 0, month_progress: 0, speed_step: 0 }),
    {
        GameClock { year: 60, month: 0, month_progress: 0, speed_step: 0 }
    }

    /// Game-time units one microsecond of play adds: four times the speed multiplier.
    pub fn speed_quarters(&self) -> (units: u64)
        ensures
            units == units_per_micro(self.speed_step),
    {
        if self.speed_step <= -2 {
            1
        } else if self.speed_step == -1 {
            2
        } else if self.speed_step == 0 {
            4
        } else if self.speed_step == 1 {
            8
        } else {
            16
        }
    }

    /// Moves the speed setting by `step`, staying within the slowest and fastest settings.
    pub fn change_speed(&mut self, step: i8)
        requires
            i8::MIN <= old(self).speed_step + step <= i8::MAX,
        ensures
            final(self).speed_step == if old(self).speed_step + step < MIN_SPEED_STEP {
                MIN_SPEED_STEP as int
            } else if old(self).speed_step + step > MAX_SPEED_STEP {
                MAX_SPEED_STEP as int
            } else {
                old(self).speed_step + step
            },
            final(self).year == old(self).year,
            final(self).month == old(self).month,
            final(self).month_progress == old(self).month_progress,
    {
        let target = self.speed_step + step;
        self.speed_step = if target < MIN_SPEED_STEP {
            MIN_SPEED_STEP
        } else if target > MAX_SPEED_STEP {
            MAX_SPEED_STEP
        } else {
            target
        };
    }

    /// Lets `elapsed_micros` microseconds of play pass at the current speed and returns
    /// how many months began.
    pub fn advance(&mut self, elapsed_micros: u64) -> (months: usize)
        requires
            old(self).wf(),
            elapsed_micros <= MAX_STEP_MICROS,
            old(self).year <= MAX_YEAR,
        ensures
            final(self).wf(),
            months == (old(self).month_progress + elapsed_micros * units_per_micro(
                old(self).speed_step,
            )) / MONTH_UNITS as int,
            final(self).month_progress == (old(self).month_progress + elapsed_micros
                * units_per_micro(old(self).speed_step)) % MONTH_UNITS as int,
            month_count(final(self).year, final(self).month) == month_count(
                old(self).year,
                old(self).month,
            ) + months,
            final(self).speed_step == old(self).speed_step,
    {
        let rate = self.speed_quarters();
        let ghost total = self.month_progress + elapsed_micros * rate;
        let ghost start = month_count(self.year, self.month);
        assert(elapsed_micros * rate <= MAX_STEP_MICROS * 16) by (nonlinear_arith)
            requires
                elapsed_micros <= MAX_STEP_MICROS,
                rate <= 16,
        ;
        self.month_progress = self.month_progress + elapsed_micros * rate;
        let mut elapsed_months: usize = 0;
        while self.month_progress >= MONTH_UNITS
            invariant
                self.month < MONTHS_PER_YEAR,
                MIN_SPEED_STEP <= self.speed_step <= MAX_SPEED_STEP,
                self.speed_step == old(self).speed_step,
                total <= MONTH_UNITS + MAX_STEP_MICROS * 16,
                self.month_progress + elapsed_months * MONTH_UNITS == total,
                month_count(self.year, self.month) == start + elapsed_months,
                start == month_count(old(self).year, old(self).month),
                old(self).year <= MAX_YEAR,
                old(self).month < MONTHS_PER_YEAR,
            decreases self.month_progress,
        {
            self.month_progress = self.month_progress - MONTH_UNITS;
            self.month = self.month + 1;
            elapsed_months = elapsed_months + 1;
            if self.month == MONTHS_PER_YEAR {
                self.month = 0;
                self.year = self.year + 1;
            }
        }
        proof {
            lemma_fundamental_div_mod_converse(
                total as int,
                MONTH_UNITS as int,
                elapsed_months as int,
                self.month_progress as int,
            );
        }
        elapsed_months
    }

    /// The calendar line shown on the map, such as `Jan, 60 AD`.
    pub fn date_label(&self) -> (label: String)
        requires
            self.month < MONTHS_PER_YEAR,
        ensures
            label@ == date_text(self.year, self.month),
    {
        let mut label = String::new();
        push_all(&mut label, MONTH_NAMES[self.month]);
        push_all(&mut label, ", ");
        let shown: u64 = if self.year <= 0 {
            (1 - (self.year as i64)) as u64
        } else {
            self.year as u64
        };
        push_decimal(&mut label, shown);
        if self.year <= 0 {
            push_all(&mut label, " ");
            push_all(&mut label, "BC");
        } else {
            push_all(&mut label, " ");
            push_all(&mut label, "AD");
        }
        assert(label@ =~= date_text(self.year, self.month));
        label
    }
}

/// Appends the decimal digits of `n`.
pub fn push_decimal(text: &mut String, n: u64)
    ensures
        final(text)@ == old(text)@ + decimal(n as nat),
    decreases n,
{
    if n >= 10 {
        push_decimal(text, n / 10);
        text.push(DIGITS[(n % 10) as usize]);
        assert(text@ =~= old(text)@ + decimal(n as nat)) by {
            assert(decimal(n as nat) == decimal((n / 10) as nat).push(DIGITS@[(n % 10) as int]));
        }
    } else {
        text.push(DIGITS[n as usize]);
        assert(text@ =~= old(text)@ + decimal(n as nat));
    }
}

/// Splitting play time does not change the calendar: at one speed, advancing by `first`
/// and then by `second` microseconds begins as many months, and leaves as much progress
/// into the month, as advancing by both at once.
pub proof fn lemma_split_time_keeps_the_calendar(progress: u64, step: i8, first: u64, second: u64)
    requires
        progress < MONTH_UNITS,
    ensures
        ({
            let rate = units_per_micro(step) as int;
            let once = progress + first * rate;
            let then = once % MONTH_UNITS as int + second * rate;
            let whole = progress + (first + second) * rate;
            &&& once / MONTH_UNITS as int + then / MONTH_UNITS as int == whole / MONTH_UNITS as int
            &&& then % MONTH_UNITS as int == whole % MONTH_UNITS as int
        }),
{
    let units = MONTH_UNITS as int;
    let rate = units_per_micro(step) as int;
    let once = progress + first * rate;
    let then = once % units + second * rate;
    let whole = progress + (first + second) * rate;
    assert(first * rate >= 0 && second * rate >= 0) by (nonlinear_arith)
        requires
            first >= 0,
            second >= 0,
            rate >= 0,
    ;
    assert((first + second) * rate == first * rate + second * rate) by (nonlinear_arith);
    let q1 = once / units;
    let q2 = then / units;
    assert(whole == (q1 + q2) * units + then % units);
    lemma_fundamental_div_mod_converse(whole, units, q1 + q2, then % units);
}

/// The calendar never shows a year zero: 1 BC is followed directly by 1 AD.
pub proof fn lemma_no_year_zero(year: i32)
    ensures
        era_year(year) >= 1,
        year == 0 ==> era_year(year) == 1 && era_name(year) == "BC"@,
        year == 1 ==> era_year(year) == 1 && era_name(year) == "AD"@,
{
}

/// Each speed setting runs twice as fast as the one below it, and normal speed adds four
/// units of game time per microsecond: setting `s` adds `4 * 2^s` units.
pub proof fn lemma_each_speed_step_doubles(step: i8)
    requires
        MIN_SPEED_STEP <= step < MAX_SPEED_STEP,
    ensures
        units_per_micro((step + 1) as i8) == 2 * units_per_micro(step),
        units_per_micro(0) == 4,
{
}

} // verus!
