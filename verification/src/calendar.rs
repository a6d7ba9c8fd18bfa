//! Dates and times of day in UTC, as plain numbers, and the calendar that
//! turns a count of days into a date.

use vstd::prelude::*;

verus! {

/// A day of the proleptic Gregorian calendar.
#[derive(Debug, Clone, Copy, PartialEq, Eq, Structural)]
pub struct CalendarDate {
    pub year: i32,
    /// 1 for January to 12 for December.
    pub month: u32,
    /// The day of the month, from 1.
    pub day: u32,
}

/// A second of a day, in UTC.
#[derive(Debug, Clone, Copy, PartialEq, Eq, Structural)]
pub struct UtcDateTime {
    pub date: CalendarDate,
    pub hour: u32,
    pub minute: u32,
    pub second: u32,
}

/// The first year that has dates here.
pub const MIN_YEAR: i32 = -262_143;

/// The last year that has dates here.
pub const MAX_YEAR: i32 = 262_142;

/// The number of the day in which second `seconds` of the Unix epoch falls,
/// day 0 being 1 January 1970.
pub open spec fn epoch_day(seconds: int) -> int {
    seconds / 86_400
}

/// The second within its day of second `seconds` of the Unix epoch.
pub open spec fn second_of_day(seconds: int) -> int {
    seconds % 86_400
}

/// The year, the month and the day of the month of day number `day`, day 0
/// being 1 January 1970, in the proleptic Gregorian calendar.
///
/// Days are counted from 1 March of year 0, so that a leap day ends its year.
/// Four hundred years have 146 097 days; within them a day falls in the year
/// that the leap years before it leave, and within that year in a month of the
/// five-month pattern of 153 days.
pub open spec fn civil_date(day: int) -> (int, int, int) {
    let shifted = day + 719_468;
    let era = shifted / 146_097;
    let day_of_era = shifted % 146_097;
    let year_of_era = (day_of_era - day_of_era / 1_460 + day_of_era / 36_524 - day_of_era
        / 146_096) / 365;
    let day_of_year = day_of_era - (365 * year_of_era + year_of_era / 4 - year_of_era / 100);
    let month_from_march = (5 * day_of_year + 2) / 153;
    let day_of_month = day_of_year - (153 * month_from_march + 2) / 5 + 1;
    let month = if month_from_march < 10 {
        month_from_march + 3
    } else {
        month_from_march - 9
    };
    let year = year_of_era + era * 400 + if month <= 2 {
        1int
    } else {
        0int
    };
    (year, month, day_of_month)
}

/// The date of day number `day`, where its year lies between [`MIN_YEAR`]
/// and [`MAX_YEAR`].
pub open spec fn date_of_day(day: int) -> Option<CalendarDate> {
    let (year, month, day_of_month) = civil_date(day);
    if MIN_YEAR <= year <= MAX_YEAR {
        Some(CalendarDate { year: year as i32, month: month as u32, day: day_of_month as u32 })
    } else {
        None
    }
}

/// The moment of second `seconds` of the Unix epoch: the date of its day
/// and the time that has passed since that day began. `None` where the day
/// has no date.
pub open spec fn utc_moment(seconds: int) -> Option<UtcDateTime> {
    match date_of_day(epoch_day(seconds)) {
        Some(date) => Some(
            UtcDateTime {
                date,
                hour: (second_of_day(seconds) / 3600) as u32,
                minute: (second_of_day(seconds) % 3600 / 60) as u32,
                second: (second_of_day(seconds) % 60) as u32,
            },
        ),
        None => None,
    }
}

impl CalendarDate {
    /// Computes the date of day number `day`: see [`date_of_day`].
    pub fn of_day(day: i64) -> (date: Option<CalendarDate>)
        ensures
            date == date_of_day(day as int),
    {
        let shifted: i128 = day as i128 + 719_468;
        let era: i128 = if shifted >= 0 {
            shifted / 146_097
        } else {
            -((146_096 - shifted) / 146_097)
        };
        let day_of_era: i128 = shifted - era * 146_097;
        assert(era == (day + 719_468) / 146_097 && day_of_era == (day + 719_468) % 146_097) by {
            assert(0 <= day_of_era < 146_097);
            assert(shifted == era * 146_097 + day_of_era);
            vstd::arithmetic::div_mod::lemma_fundamental_div_mod_converse(
                shifted as int,
                146_097,
                era as int,
                day_of_era as int,
            );
        }
        let year_of_era: i128 = (day_of_era - day_of_era / 1_460 + day_of_era / 36_524 - day_of_era
            / 146_096) / 365;
        assert(0 <= year_of_era <= 399);
        let day_of_year: i128 = day_of_era - (365 * year_of_era + year_of_era / 4 - year_of_era
            / 100);
        assert(0 <= day_of_year <= 146_096);
        let month_from_march: i128 = (5 * day_of_year + 2) / 153;
        let day_of_month: i128 = day_of_year - (153 * month_from_march + 2) / 5 + 1;
        let month: i128 = if month_from_march < 10 {
            month_from_march + 3
        } else {
            month_from_march - 9
        };
        let year: i128 = year_of_era + era * 400 + if month <= 2 {
            1
        } else {
            0
        };
        if year < -262_143 || year > 262_142 {
            return None;
        }
        Some(CalendarDate { year: year as i32, month: month as u32, day: day_of_month as u32 })
    }
}

} // verus!
