use vstd::prelude::*;

verus! {

/// Dates are plain day numbers (Julian day numbers): day 0 is the first
/// representable day and `MAX_DAY` is the Julian day of the last date the
/// `time` crate can represent (year 9999). Whole-day gap arithmetic is
/// then plain integer subtraction; only calendar-dependent questions
/// (year, month, week, parsing) go through the `time` crate.
pub const MAX_DAY: u32 = 5373484;

/// The day number a well-formed ISO 8601 date string denotes, if any;
/// what `time`'s ISO 8601 parser accepts is a function of the characters
/// alone.
pub uninterp spec fn iso_date_of(s: Seq<char>) -> Option<int>;

/// The calendar year a day number falls in.
pub uninterp spec fn year_label(day: int) -> int;

/// The calendar month (within its year) a day number falls in.
pub uninterp spec fn month_label(day: int) -> int;

/// The ISO week a day number falls in, as the pair of its ISO week-based
/// year and its week number within that year.
pub uninterp spec fn iso_week_label(day: int) -> (int, int);

/// Relies on `time::Date::parse` with the ISO 8601 well-known description
/// and on `time::Date::to_julian_day`; both depend on the input string
/// alone.
#[verifier::external_body]
pub(crate) fn parse_iso_date(s: &str) -> (r: Option<i32>)
    ensures
        (r is Some) == (iso_date_of(s@) is Some),
        r matches Some(j) ==> iso_date_of(s@) == Some(j as int),
{
    match time::Date::parse(s, &time::format_description::well_known::Iso8601::DEFAULT) {
        Ok(d) => Some(d.to_julian_day()),
        Err(_) => None,
    }
}

/// Relies on `time::Date::from_julian_day`, which succeeds for every
/// Julian day up to `MAX_DAY`, and on `time::Date::year`; the year is a
/// function of the day number alone.
#[verifier::external_body]
pub(crate) fn year_of_day(day: u32) -> (r: i32)
    requires
        day <= MAX_DAY,
    ensures
        r as int == year_label(day as int),
{
    match time::Date::from_julian_day(day as i32) {
        Ok(d) => d.year(),
        Err(_) => 0,
    }
}

/// Relies on `time::Date::from_julian_day`, `time::Date::month` and the
/// month-to-number conversion `u8::from`; the month is a function of the
/// day number alone.
#[verifier::external_body]
pub(crate) fn month_of_day(day: u32) -> (r: u8)
    requires
        day <= MAX_DAY,
    ensures
        r as int == month_label(day as int),
{
    match time::Date::from_julian_day(day as i32) {
        Ok(d) => u8::from(d.month()),
        Err(_) => 0,
    }
}

/// Relies on `time::Date::from_julian_day` and
/// `time::Date::to_iso_week_date`; the ISO week-based year and week
/// number are functions of the day number alone.
#[verifier::external_body]
pub(crate) fn iso_week_of_day(day: u32) -> (r: (i32, u8))
    requires
        day <= MAX_DAY,
    ensures
        (r.0 as int, r.1 as int) == iso_week_label(day as int),
{
    match time::Date::from_julian_day(day as i32) {
        Ok(d) => {
            let (year, week, _) = d.to_iso_week_date();
            (year, week)
        },
        Err(_) => (0, 0),
    }
}

} // verus!
