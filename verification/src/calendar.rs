//! In-game calendar: a 365-day year without leap days, starting
//! 1 January 1300. `calendar_day` counts days since that date, 1-indexed,
//! and day 0 is read as day 1.

use vstd::prelude::*;

verus! {

pub const EPOCH_YEAR: u32 = 1300;

/// 21 March 1300, as days-since-1-Jan (1-indexed).
pub const START_DAY: u32 = 80;

pub const DAYS_PER_YEAR: u32 = 365;

#[derive(Clone, Copy, Debug, PartialEq, Eq, Structural)]
pub enum Season {
    Spring,
    Summer,
    Autumn,
    Winter,
}

pub open spec fn season_label(s: Season) -> Seq<char> {
    match s {
        Season::Spring => "Spring"@,
        Season::Summer => "Summer"@,
        Season::Autumn => "Autumn"@,
        Season::Winter => "Winter"@,
    }
}

impl Season {
    /// Short label for the HUD.
    pub fn label(self) -> (r: &'static str)
        ensures
            r@ == season_label(self),
    {
        match self {
            Season::Spring => "Spring",
            Season::Summer => "Summer",
            Season::Autumn => "Autumn",
            Season::Winter => "Winter",
        }
    }
}

#[derive(Clone, Copy, Debug, PartialEq, Eq, Structural)]
pub enum Month {
    Jan,
    Feb,
    Mar,
    Apr,
    May,
    Jun,
    Jul,
    Aug,
    Sep,
    Oct,
    Nov,
    Dec,
}

/// Position of a month in the year, 0 for January.
pub open spec fn month_index(m: Month) -> int {
    match m {
        Month::Jan => 0,
        Month::Feb => 1,
        Month::Mar => 2,
        Month::Apr => 3,
        Month::May => 4,
        Month::Jun => 5,
        Month::Jul => 6,
        Month::Aug => 7,
        Month::Sep => 8,
        Month::Oct => 9,
        Month::Nov => 10,
        Month::Dec => 11,
    }
}

pub open spec fn month_label(m: Month) -> Seq<char> {
    match m {
        Month::Jan => "Jan"@,
        Month::Feb => "Feb"@,
        Month::Mar => "Mar"@,
        Month::Apr => "Apr"@,
        Month::May => "May"@,
        Month::Jun => "Jun"@,
        Month::Jul => "Jul"@,
        Month::Aug => "Aug"@,
        Month::Sep => "Sep"@,
        Month::Oct => "Oct"@,
        Month::Nov => "Nov"@,
        Month::Dec => "Dec"@,
    }
}

impl Month {
    pub fn short_label(self) -> (r: &'static str)
        ensures
            r@ == month_label(self),
    {
        match self {
            Month::Jan => "Jan",
            Month::Feb => "Feb",
            Month::Mar => "Mar",
            Month::Apr => "Apr",
            Month::May => "May",
            Month::Jun => "Jun",
            Month::Jul => "Jul",
            Month::Aug => "Aug",
            Month::Sep => "Sep",
            Month::Oct => "Oct",
            Month::Nov => "Nov",
            Month::Dec => "Dec",
        }
    }
}

/// Length of the month at index `i` (0 = January) in a non-leap year.
pub open spec fn days_in_month(i: int) -> int {
    if i == 1 {
        28
    } else if i == 3 || i == 5 || i == 8 || i == 10 {
        30
    } else {
        31
    }
}

/// Days of the year that come before the month at index `i`.
pub open spec fn days_before_month(i: int) -> int
    decreases i,
{
    if i <= 0 {
        0
    } else {
        days_before_month(i - 1) + days_in_month(i - 1)
    }
}

/// The month whose index is `i` (0 = January, anything past 10 = December).
pub open spec fn month_at(i: int) -> Month {
    if i <= 0 {
        Month::Jan
    } else if i == 1 {
        Month::Feb
    } else if i == 2 {
        Month::Mar
    } else if i == 3 {
        Month::Apr
    } else if i == 4 {
        Month::May
    } else if i == 5 {
        Month::Jun
    } else if i == 6 {
        Month::Jul
    } else if i == 7 {
        Month::Aug
    } else if i == 8 {
        Month::Sep
    } else if i == 9 {
        Month::Oct
    } else if i == 10 {
        Month::Nov
    } else {
        Month::Dec
    }
}

/// Day of the year, 1..=365, of a calendar day (day 0 reads as day 1).
pub open spec fn spec_day_of_year(calendar_day: int) -> int {
    if calendar_day <= 0 {
        1
    } else {
        (calendar_day - 1) % 365 + 1
    }
}

/// Year of a calendar day (day 0 reads as day 1).
pub open spec fn spec_year_of(calendar_day: int) -> int {
    let d = if calendar_day <= 0 { 1 } else { calendar_day };
    1300 + (d - 1) / 365
}

/// Solar seasons as bands of day-of-year: Winter [1, 79] and [355, 365],
/// Spring [80, 171], Summer [172, 265], Autumn [266, 354].
pub open spec fn season_of_doy(doy: int) -> Season {
    if doy <= 79 || doy >= 355 {
        Season::Winter
    } else if doy <= 171 {
        Season::Spring
    } else if doy <= 265 {
        Season::Summer
    } else {
        Season::Autumn
    }
}

proof fn lemma_days_before_month_table()
    ensures
        days_before_month(0) == 0,
        days_before_month(1) == 31,
        days_before_month(2) == 59,
        days_before_month(3) == 90,
        days_before_month(4) == 120,
        days_before_month(5) == 151,
        days_before_month(6) == 181,
        days_before_month(7) == 212,
        days_before_month(8) == 243,
        days_before_month(9) == 273,
        days_before_month(10) == 304,
        days_before_month(11) == 334,
        days_before_month(12) == 365,
{
    reveal_with_fuel(days_before_month, 13);
}

/// The month that day-of-year `doy` (1..=365) falls in.
pub open spec fn month_of_day(doy: int) -> Month {
    if doy <= 31 {
        Month::Jan
    } else if doy <= 59 {
        Month::Feb
    } else if doy <= 90 {
        Month::Mar
    } else if doy <= 120 {
        Month::Apr
    } else if doy <= 151 {
        Month::May
    } else if doy <= 181 {
        Month::Jun
    } else if doy <= 212 {
        Month::Jul
    } else if doy <= 243 {
        Month::Aug
    } else if doy <= 273 {
        Month::Sep
    } else if doy <= 304 {
        Month::Oct
    } else if doy <= 334 {
        Month::Nov
    } else {
        Month::Dec
    }
}

/// The month whose days hold `doy` is `month_of_day(doy)`.
pub proof fn lemma_month_of_day(m: Month, doy: int)
    requires
        days_before_month(month_index(m)) < doy <= days_before_month(month_index(m) + 1),
    ensures
        m == month_of_day(doy),
{
    lemma_days_before_month_table();
}

/// Length of month `i` (0 = January) as the executable table.
fn month_length(i: usize) -> (r: u32)
    requires
        i < 12,
    ensures
        r == days_in_month(i as int),
{
    if i == 1 {
        28
    } else if i == 3 || i == 5 || i == 8 || i == 10 {
        30
    } else {
        31
    }
}

fn month_from_index(i: usize) -> (m: Month)
    ensures
        m == month_at(i as int),
{
    match i {
        0 => Month::Jan,
        1 => Month::Feb,
        2 => Month::Mar,
        3 => Month::Apr,
        4 => Month::May,
        5 => Month::Jun,
        6 => Month::Jul,
        7 => Month::Aug,
        8 => Month::Sep,
        9 => Month::Oct,
        10 => Month::Nov,
        _ => Month::Dec,
    }
}

/// Day-of-year (1..=365) for the given calendar day; the year cycles.
pub fn day_of_year(calendar_day: u32) -> (r: u16)
    ensures
        r as int == spec_day_of_year(calendar_day as int),
        1 <= r <= 365,
{
    let d = if calendar_day == 0 {
        1
    } else {
        ((calendar_day - 1) % DAYS_PER_YEAR) + 1
    };
    d as u16
}

/// (year, month, day-of-month) for the given calendar day.
pub fn date_of(calendar_day: u32) -> (r: (u32, Month, u8))
    ensures
        r.0 as int == spec_year_of(calendar_day as int),
        days_before_month(month_index(r.1)) < spec_day_of_year(calendar_day as int)
            <= days_before_month(month_index(r.1) + 1),
        r.2 as int == spec_day_of_year(calendar_day as int) - days_before_month(month_index(r.1)),
{
    proof {
        lemma_days_before_month_table();
    }
    let d = if calendar_day == 0 { 1 } else { calendar_day };
    let year = EPOCH_YEAR + (d - 1) / DAYS_PER_YEAR;
    let mut doy = ((d - 1) % DAYS_PER_YEAR) + 1;
    let ghost target = spec_day_of_year(calendar_day as int);
    let mut i: usize = 0;
    while i < 12
        invariant
            i <= 12,
            doy as int == target - days_before_month(i as int),
            1 <= target <= 365,
            target == spec_day_of_year(calendar_day as int),
            days_before_month(i as int) < target,
            year as int == spec_year_of(calendar_day as int),
            days_before_month(0) == 0,
            days_before_month(1) == 31,
            days_before_month(2) == 59,
            days_before_month(3) == 90,
            days_before_month(4) == 120,
            days_before_month(5) == 151,
            days_before_month(6) == 181,
            days_before_month(7) == 212,
            days_before_month(8) == 243,
            days_before_month(9) == 273,
            days_before_month(10) == 304,
            days_before_month(11) == 334,
            days_before_month(12) == 365,
        decreases 12 - i,
    {
        let len = month_length(i);
        if doy <= len {
            let month = month_from_index(i);
            proof {
                assert(days_before_month(i as int + 1) == days_before_month(i as int)
                    + days_in_month(i as int));
                assert(month_index(month) == i as int);
            }
            return (year, month, doy as u8);
        }
        doy -= len;
        i += 1;
    }
    proof {
        assert(false);
    }
    (year, Month::Dec, 31)
}

/// Season of the given calendar day. Solar boundaries Mar 21 / Jun 21 /
/// Sep 23 / Dec 21.
pub fn season_of(calendar_day: u32) -> (s: Season)
    ensures
        s == season_of_doy(spec_day_of_year(calendar_day as int)),
{
    let doy = day_of_year(calendar_day);
    if doy <= 79 || doy >= 355 {
        Season::Winter
    } else if doy <= 171 {
        Season::Spring
    } else if doy <= 265 {
        Season::Summer
    } else {
        Season::Autumn
    }
}

/// The calendar repeats yearly: a day and the same day one year later
/// share day-of-year and season, and the later one is one year on.
pub proof fn law_calendar_repeats_yearly(calendar_day: int)
    requires
        calendar_day >= 1,
    ensures
        spec_day_of_year(calendar_day + 365) == spec_day_of_year(calendar_day),
        season_of_doy(spec_day_of_year(calendar_day + 365)) == season_of_doy(
            spec_day_of_year(calendar_day),
        ),
        spec_year_of(calendar_day + 365) == spec_year_of(calendar_day) + 1,
{
    assert((calendar_day + 365 - 1) % 365 == (calendar_day - 1) % 365) by (nonlinear_arith)
        requires calendar_day >= 1;
    assert((calendar_day + 365 - 1) / 365 == (calendar_day - 1) / 365 + 1) by (nonlinear_arith)
        requires calendar_day >= 1;
}

} // verus!
