use vstd::prelude::*;

verus! {

/// The year of the fixed date against which ages are counted.
pub const NOW_YEAR: i32 = 2019;

/// The month of that date.
pub const NOW_MONTH: u32 = 6;

/// The day of that date.
pub const NOW_DAY: u32 = 26;

/// The earliest and latest years that a calendar date may have.
pub const MIN_YEAR: i32 = -262143;

pub const MAX_YEAR: i32 = 262142;

pub open spec fn is_leap_year(y: int) -> bool {
    (y % 4 == 0 && y % 100 != 0) || y % 400 == 0
}

pub open spec fn days_in_month(y: int, m: int) -> int {
    if m == 2 {
        if is_leap_year(y) { 29 } else { 28 }
    } else if m == 4 || m == 6 || m == 9 || m == 11 {
        30
    } else {
        31
    }
}

/// Whether `year`-`month`-`day` is a date of the proleptic Gregorian
/// calendar within the supported years.
pub open spec fn is_date(year: int, month: int, day: int) -> bool {
    &&& MIN_YEAR <= year <= MAX_YEAR
    &&& 1 <= month <= 12
    &&& 1 <= day <= days_in_month(year, month)
}

/// Whole years from the given birth date to the fixed date; negative for
/// a birth date after it.
pub open spec fn years_since(year: int, month: int, day: int) -> int {
    let passed = month < NOW_MONTH || (month == NOW_MONTH && day <= NOW_DAY);
    if passed {
        NOW_YEAR - year
    } else {
        NOW_YEAR - year - 1
    }
}

/// Whether `year`-`month`-`day` is a date that `with_birthdate` accepts.
pub fn is_valid_date(year: i32, month: u32, day: u32) -> (r: bool)
    ensures
        r == is_date(year as int, month as int, day as int),
{
    if year < MIN_YEAR || year > MAX_YEAR || month < 1 || month > 12 || day < 1 {
        return false;
    }
    let leap = (year % 4 == 0 && year % 100 != 0) || year % 400 == 0;
    let days: u32 = if month == 2 {
        if leap { 29 } else { 28 }
    } else if month == 4 || month == 6 || month == 9 || month == 11 {
        30
    } else {
        31
    };
    day <= days
}

/// A person known by their birth date.
pub struct User {
    year: i32,
    month: u32,
    day: u32,
}

impl User {
    pub closed spec fn birth_year(&self) -> int {
        self.year as int
    }

    pub closed spec fn birth_month(&self) -> int {
        self.month as int
    }

    pub closed spec fn birth_day(&self) -> int {
        self.day as int
    }

    /// A user born on `year`-`month`-`day`.
    pub fn with_birthdate(year: i32, month: u32, day: u32) -> (r: User)
        requires
            is_date(year as int, month as int, day as int),
        ensures
            r.birth_year() == year,
            r.birth_month() == month,
            r.birth_day() == day,
    {
        User { year, month, day }
    }

    /// Age in whole years at the fixed date; 0 where that is negative or
    /// does not fit in `u16`.
    pub fn age(&self) -> (r: u16)
        requires
            is_date(self.birth_year(), self.birth_month(), self.birth_day()),
        ensures
            ({
                let a = years_since(self.birth_year(), self.birth_month(), self.birth_day());
                r == (if 0 <= a <= u16::MAX { a } else { 0 })
            }),
    {
        let passed = self.month < NOW_MONTH || (self.month == NOW_MONTH && self.day <= NOW_DAY);
        let a: i32 = if passed {
            NOW_YEAR - self.year
        } else {
            NOW_YEAR - self.year - 1
        };
        if 0 <= a && a <= 65535 {
            a as u16
        } else {
            0
        }
    }

    /// Whether the user is at least 18 at the fixed date.
    pub fn is_adult(&self) -> (r: bool)
        requires
            is_date(self.birth_year(), self.birth_month(), self.birth_day()),
        ensures
            ({
                let a = years_since(self.birth_year(), self.birth_month(), self.birth_day());
                r == (18 <= a <= u16::MAX)
            }),
    {
        self.age() >= 18
    }
}

} // verus!
