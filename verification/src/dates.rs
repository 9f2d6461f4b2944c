//! Calendar dates: reading the start date of a search and labelling epochs.
//! The time crate `hifitime` turns dates into UTC epochs and back.

use crate::text::{
    all_digits, chars_of, decimal, extend, free_of, integer, integer_of, is_digit, join, natural_of_padded,
    padded, padded_of, pieces, split, split_undoes_join, text_of, views,
};
use vstd::prelude::*;

verus! {

/// Nanoseconds in a day.
pub const DAY_NS: u64 = 86_400_000_000_000;

/// Nanoseconds in a Julian century.
pub const CENTURY_NS: u64 = 3_155_760_000_000_000_000;

/// A UTC epoch: Julian centuries and nanoseconds since 1900-01-01 at midnight.
#[derive(Clone, Copy, Debug, PartialEq, Eq, Structural)]
pub struct Instant {
    pub centuries: i16,
    pub nanoseconds: u64,
}

impl Instant {
    /// Nanoseconds since 1900-01-01 at midnight.
    pub open spec fn total_ns(self) -> int {
        self.centuries * CENTURY_NS + self.nanoseconds
    }

    /// The nanoseconds stay within their century, or fill the last century that
    /// can be counted.
    pub open spec fn normal(self) -> bool {
        self.nanoseconds < CENTURY_NS || (self.nanoseconds == CENTURY_NS && self.centuries
            == 32_767)
    }

    /// Whether the nanoseconds stay within their century, or fill the last
    /// century that can be counted.
    pub fn is_normal(&self) -> (r: bool)
        ensures
            r == self.normal(),
    {
        self.nanoseconds < CENTURY_NS || (self.nanoseconds == CENTURY_NS && self.centuries
            == 32_767)
    }
}

/// A calendar date.
#[derive(Clone, Copy, Debug, PartialEq, Eq, Structural)]
pub struct Date {
    pub year: i32,
    pub month: u8,
    pub day: u8,
}

// ---------------------------------------------------------------- calendar

pub open spec fn is_leap(year: int) -> bool {
    (year % 4 == 0 && year % 100 != 0) || year % 400 == 0
}

/// Days in a month.
pub open spec fn month_len(year: int, month: int) -> int {
    if month == 2 {
        if is_leap(year) {
            29
        } else {
            28
        }
    } else if month == 4 || month == 6 || month == 9 || month == 11 {
        30
    } else {
        31
    }
}

/// Days of the year before a month.
pub open spec fn month_start(year: int, month: int) -> int
    decreases month,
{
    if month <= 1 {
        0
    } else {
        month_start(year, month - 1) + month_len(year, month - 1)
    }
}

/// Leap years up to, not with, the year.
pub open spec fn leaps_before(year: int) -> int {
    (year - 1) / 4 - (year - 1) / 100 + (year - 1) / 400
}

/// Days from 1900-01-01 to the first day of a year.
pub open spec fn year_start(year: int) -> int {
    365 * (year - 1900) + leaps_before(year) - leaps_before(1900)
}

impl Date {
    /// The calendar has this day.
    pub open spec fn in_calendar(self) -> bool {
        1 <= self.month <= 12 && 1 <= self.day <= month_len(self.year as int, self.month as int)
    }

    /// Days from 1900-01-01 to this day.
    pub open spec fn day_number(self) -> int {
        year_start(self.year as int) + month_start(self.year as int, self.month as int) + self.day
            - 1
    }

    /// The year is close enough to 1900 for its days to be counted in 32 bits.
    pub open spec fn countable(self) -> bool {
        i32::MIN <= 365 * (self.year - 1900) <= i32::MAX && self.year - 1900 >= i32::MIN
    }

    /// Whether the calendar has this day and its days can be counted.
    pub fn is_valid(&self) -> (r: bool)
        ensures
            r == (self.in_calendar() && self.countable()),
    {
        if self.year < -5_881_616 || self.year > 5_885_416 {
            return false;
        }
        if self.month < 1 || self.month > 12 || self.day < 1 {
            return false;
        }
        let y: u64 = (self.year as i64 + 6_000_000) as u64;
        let leap: bool = (y % 4 == 0 && y % 100 != 0) || y % 400 == 0;
        assert(leap == is_leap(self.year as int));
        let len: u8 = if self.month == 2 {
            if leap {
                29
            } else {
                28
            }
        } else if self.month == 4 || self.month == 6 || self.month == 9 || self.month == 11 {
            30
        } else {
            31
        };
        self.day <= len
    }
}

// ---------------------------------------------------------------- hifitime

/// The UTC duration since 1900-01-01 that `hifitime` gives for midnight of a
/// date, in centuries and nanoseconds.
pub uninterp spec fn midnight_parts(year: i32, month: u8, day: u8) -> (i16, u64);

/// `hifitime::Epoch::from_gregorian_utc_at_midnight`, in centuries and
/// nanoseconds of UTC since 1900-01-01. It panics on a day that the calendar
/// does not have and on a year whose days overflow 32 bits. Within three million
/// years of the year 0 the result is the exact number of whole days; farther out
/// the duration saturates, which is left unsaid.
#[verifier::external_body]
fn midnight(year: i32, month: u8, day: u8) -> (r: (i16, u64))
    requires
        (Date { year, month, day }).in_calendar(),
        (Date { year, month, day }).countable(),
    ensures
        r == midnight_parts(year, month, day),
        -3_000_000 <= year <= 3_000_000 ==> r.1 < CENTURY_NS && r.0 * CENTURY_NS + r.1 == (Date {
            year,
            month,
            day,
        }).day_number() * DAY_NS,
{
    hifitime::Epoch::from_gregorian_utc_at_midnight(year, month, day).to_utc_duration().to_parts()
}

/// `hifitime::Epoch::to_gregorian_utc` of the epoch so many centuries and
/// nanoseconds of UTC after 1900-01-01: the date of the day in which the epoch
/// lies.
#[verifier::external_body]
fn gregorian(centuries: i16, nanoseconds: u64) -> (r: (i32, u8, u8))
    requires
        (Instant { centuries, nanoseconds }).normal(),
    ensures
        (Date { year: r.0, month: r.1, day: r.2 }).in_calendar(),
        (Date { year: r.0, month: r.1, day: r.2 }).day_number() == (Instant {
            centuries,
            nanoseconds,
        }).total_ns() / DAY_NS as int,
{
    let duration = hifitime::Duration::from_parts(centuries, nanoseconds);
    let (year, month, day, ..) = hifitime::Epoch::from_utc_duration(duration).to_gregorian_utc();
    (year, month, day)
}

/// Midnight at the start of a day.
pub fn midnight_utc(date: &Date) -> (r: Instant)
    requires
        date.in_calendar(),
        date.countable(),
    ensures
        (r.centuries, r.nanoseconds) == midnight_parts(date.year, date.month, date.day),
        -3_000_000 <= date.year <= 3_000_000 ==> r.nanoseconds < CENTURY_NS && r.total_ns()
            == date.day_number() * DAY_NS,
{
    let parts: (i16, u64) = midnight(date.year, date.month, date.day);
    Instant { centuries: parts.0, nanoseconds: parts.1 }
}

/// The day in which an epoch lies.
pub fn day_of(at: &Instant) -> (r: Date)
    requires
        at.normal(),
    ensures
        r.in_calendar(),
        r.day_number() == at.total_ns() / DAY_NS as int,
{
    let (year, month, day): (i32, u8, u8) = gregorian(at.centuries, at.nanoseconds);
    Date { year, month, day }
}

// ---------------------------------------------------------------- reading

/// The pieces that are 32-bit whole numbers.
pub open spec fn whole_numbers(parts: Seq<Seq<char>>) -> Seq<int>
    decreases parts.len(),
{
    if parts.len() == 0 {
        Seq::empty()
    } else {
        match integer(parts.last(), i32::MIN as int, i32::MAX as int) {
            Some(n) => whole_numbers(parts.drop_last()).push(n),
            None => whole_numbers(parts.drop_last()),
        }
    }
}

/// The date that a text gives: its whole numbers between hyphens, exactly
/// three, of which the month and the day count modulo 256.
pub open spec fn date_in(s: Seq<char>) -> Option<Date> {
    let n = whole_numbers(split(s, '-'));
    if n.len() == 3 {
        Some(Date { year: n[0] as i32, month: (n[1] % 256) as u8, day: (n[2] % 256) as u8 })
    } else {
        None
    }
}

fn whole_numbers_of(parts: &Vec<Vec<char>>) -> (r: Vec<i32>)
    ensures
        r@.map_values(|n: i32| n as int) == whole_numbers(views(parts@)),
{
    let mut r: Vec<i32> = Vec::new();
    let ghost f = |n: i32| n as int;
    assert(r@.map_values(f) =~= whole_numbers(views(parts@).take(0)));
    let mut i: usize = 0;
    while i < parts.len()
        invariant
            i <= parts.len(),
            f == (|n: i32| n as int),
            r@.map_values(f) == whole_numbers(views(parts@).take(i as int)),
        decreases parts.len() - i,
    {
        let ghost next = views(parts@).take(i + 1);
        assert(next.drop_last() =~= views(parts@).take(i as int));
        assert(next.last() == parts@[i as int]@);
        if let Some(n) = integer_of(&parts[i]) {
            let ghost before = r@.map_values(f);
            r.push(n);
            assert(r@.map_values(f) =~= before.push(n as int));
        }
        i = i + 1;
    }
    assert(views(parts@).take(parts@.len() as int) =~= views(parts@));
    r
}

fn low_byte(n: i32) -> (r: u8)
    ensures
        r == n as int % 256,
{
    let k: u64 = (n as i64 + 0x8000_0000) as u64;
    (k % 256) as u8
}

fn read_date(s: &Vec<char>) -> (r: Option<Date>)
    ensures
        r == date_in(s@),
{
    let n: Vec<i32> = whole_numbers_of(&pieces(s, '-'));
    let ghost all = whole_numbers(split(s@, '-'));
    assert(n@.len() == all.len());
    if n.len() == 3 {
        assert(all[0] == n@[0] && all[1] == n@[1] && all[2] == n@[2]);
        Some(Date { year: n[0], month: low_byte(n[1]), day: low_byte(n[2]) })
    } else {
        None
    }
}

/// The date that a text gives.
pub fn parse_date(s: &str) -> (r: Option<Date>)
    ensures
        r == date_in(s@),
{
    read_date(&chars_of(s))
}

/// Why a start date is refused.
#[derive(Clone, Copy, Debug, PartialEq, Eq, Structural)]
pub enum DateError {
    /// It is not three whole numbers between hyphens.
    Shape,
    /// The calendar does not have the day, or its days cannot be counted.
    NoSuchDay,
}

/// The start of the day that a text gives.
pub fn start_epoch(s: &str) -> (r: Result<Instant, DateError>)
    ensures
        match date_in(s@) {
            None => r == Err::<Instant, DateError>(DateError::Shape),
            Some(d) => if !(d.in_calendar() && d.countable()) {
                r == Err::<Instant, DateError>(DateError::NoSuchDay)
            } else {
                r matches Ok(at) && (at.centuries, at.nanoseconds) == midnight_parts(
                    d.year,
                    d.month,
                    d.day,
                ) && (-3_000_000 <= d.year <= 3_000_000 ==> at.nanoseconds < CENTURY_NS
                    && at.total_ns() == d.day_number() * DAY_NS)
            },
        },
{
    match parse_date(s) {
        None => Err(DateError::Shape),
        Some(d) => if d.is_valid() {
            Ok(midnight_utc(&d))
        } else {
            Err(DateError::NoSuchDay)
        },
    }
}

/// Start of a search when no date is given.
pub fn default_start() -> (r: Instant)
    ensures
        r.nanoseconds < CENTURY_NS,
        r.total_ns() == (Date { year: 2026, month: 7, day: 20 }).day_number() * DAY_NS,
{
    midnight_utc(&Date { year: 2026, month: 7, day: 20 })
}

// ---------------------------------------------------------------- labels

/// A year in at least four places, the sign of a negative one among them.
pub open spec fn year_text(year: int) -> Seq<char> {
    if year < 0 {
        seq!['-'] + padded((-year) as nat, 3)
    } else {
        padded(year as nat, 4)
    }
}

/// A date as `YYYY-MM-DD`.
pub open spec fn date_text(d: Date) -> Seq<char> {
    year_text(d.year as int) + seq!['-'] + padded(d.month as nat, 2) + seq!['-'] + padded(
        d.day as nat,
        2,
    )
}

/// A date as `YYYY-MM-DD`.
pub fn date_label(d: &Date) -> (r: String)
    ensures
        r@ == date_text(*d),
{
    let mut s: Vec<char> = Vec::new();
    if d.year < 0 {
        s.push('-');
        let y: Vec<char> = padded_of((-(d.year as i64)) as u64, 3);
        extend(&mut s, &y);
    } else {
        let y: Vec<char> = padded_of(d.year as u64, 4);
        extend(&mut s, &y);
    }
    assert(s@ =~= year_text(d.year as int));
    s.push('-');
    let m: Vec<char> = padded_of(d.month as u64, 2);
    extend(&mut s, &m);
    s.push('-');
    let day: Vec<char> = padded_of(d.day as u64, 2);
    extend(&mut s, &day);
    assert(s@ =~= date_text(*d));
    text_of(&s)
}

// ---------------------------------------------------------------- laws

proof fn multiples_up_to(y: int, k: int)
    by (nonlinear_arith)
    requires
        k > 0,
    ensures
        y % k == 0 ==> y / k == (y - 1) / k + 1,
        y % k != 0 ==> y / k == (y - 1) / k,
{
}

proof fn centuries_are_fourths(y: int)
    ensures
        y % 400 == 0 ==> y % 100 == 0,
        y % 100 == 0 ==> y % 4 == 0,
{
}

proof fn next_year(y: int)
    ensures
        year_start(y + 1) == year_start(y) + if is_leap(y) {
            366int
        } else {
            365
        },
{
    multiples_up_to(y, 4);
    multiples_up_to(y, 100);
    multiples_up_to(y, 400);
    centuries_are_fourths(y);
    let (a, b, c) = (y / 4, y / 100, y / 400);
    let (d, e, f) = ((y - 1) / 4, (y - 1) / 100, (y - 1) / 400);
    assert(leaps_before(y + 1) == a - b + c);
    assert(leaps_before(y) == d - e + f);
}

proof fn years_are_in_order(a: int, b: int)
    requires
        a <= b,
    ensures
        year_start(b) >= year_start(a) + 365 * (b - a),
    decreases b - a,
{
    if a < b {
        years_are_in_order(a, b - 1);
        next_year(b - 1);
    }
}

proof fn month_starts(year: int)
    ensures
        forall|m: int|
            1 <= m <= 13 ==> #[trigger] month_start(year, m) == (if m == 1 {
                0
            } else if m == 2 {
                31int
            } else {
                (if m == 3 {
                    59int
                } else if m == 4 {
                    90
                } else if m == 5 {
                    120
                } else if m == 6 {
                    151
                } else if m == 7 {
                    181
                } else if m == 8 {
                    212
                } else if m == 9 {
                    243
                } else if m == 10 {
                    273
                } else if m == 11 {
                    304
                } else if m == 12 {
                    334
                } else {
                    365
                }) + if is_leap(year) {
                    1int
                } else {
                    0
                }
            }),
{
    assert(month_start(year, 1) == 0);
    assert(month_start(year, 2) == 31);
    assert(month_start(year, 3) == 31 + month_len(year, 2));
    assert(month_start(year, 4) == month_start(year, 3) + 31);
    assert(month_start(year, 5) == month_start(year, 4) + 30);
    assert(month_start(year, 6) == month_start(year, 5) + 31);
    assert(month_start(year, 7) == month_start(year, 6) + 30);
    assert(month_start(year, 8) == month_start(year, 7) + 31);
    assert(month_start(year, 9) == month_start(year, 8) + 31);
    assert(month_start(year, 10) == month_start(year, 9) + 30);
    assert(month_start(year, 11) == month_start(year, 10) + 31);
    assert(month_start(year, 12) == month_start(year, 11) + 30);
    assert(month_start(year, 13) == month_start(year, 12) + 31);
}

/// Earlier in the calendar.
pub open spec fn precedes(a: Date, b: Date) -> bool {
    a.year < b.year || (a.year == b.year && (a.month < b.month || (a.month == b.month && a.day
        < b.day)))
}

/// Days are counted in calendar order, so no two days share a number.
pub proof fn days_are_counted_in_order(a: Date, b: Date)
    requires
        a.in_calendar(),
        b.in_calendar(),
    ensures
        precedes(a, b) <==> a.day_number() < b.day_number(),
        a.day_number() == b.day_number() ==> a == b,
{
    if precedes(a, b) {
        earlier_day_is_lower(a, b);
    } else if precedes(b, a) {
        earlier_day_is_lower(b, a);
    }
}

proof fn earlier_day_is_lower(a: Date, b: Date)
    requires
        a.in_calendar(),
        b.in_calendar(),
        precedes(a, b),
    ensures
        a.day_number() < b.day_number(),
{
    month_starts(a.year as int);
    month_starts(b.year as int);
    if a.year < b.year {
        next_year(a.year as int);
        years_are_in_order(a.year + 1, b.year as int);
    } else if a.month < b.month {
        assert(month_start(a.year as int, a.month + 1) <= month_start(a.year as int, b.month as int));
        assert(month_start(a.year as int, a.month + 1) == month_start(a.year as int, a.month as int)
            + month_len(a.year as int, a.month as int));
    }
}

/// The midnight of a day lies in that day: its label is the day's own.
pub proof fn midnight_lies_in_its_day(date: Date, at: Instant, day: Date)
    requires
        date.in_calendar(),
        at.total_ns() == date.day_number() * DAY_NS,
        day.in_calendar(),
        day.day_number() == at.total_ns() / DAY_NS as int,
    ensures
        day == date,
{
    let n = date.day_number();
    assert(n * DAY_NS / DAY_NS as int == n) by (nonlinear_arith)
        requires
            DAY_NS > 0,
    ;
    days_are_counted_in_order(day, date);
}

/// The label of a day is read back as that day, except before the year 0, where
/// the sign of the year reads as a separator.
pub proof fn label_is_read_back(d: Date)
    requires
        d.year >= 0,
    ensures
        date_in(date_text(d)) == Some(d),
{
    let y = padded(d.year as nat, 4);
    let m = padded(d.month as nat, 2);
    let n = padded(d.day as nat, 2);
    let max = i32::MAX as int;
    natural_of_padded(d.year as nat, 4, max);
    natural_of_padded(d.month as nat, 2, max);
    natural_of_padded(d.day as nat, 2, max);
    let parts = seq![y, m, n];
    assert forall|i: int| 0 <= i < parts.len() implies free_of(#[trigger] parts[i], '-') by {
        assert(all_digits(parts[i]));
        assert forall|j: int| 0 <= j < parts[i].len() implies parts[i][j] != '-' by {
            assert(is_digit(parts[i][j]));
        }
    }
    assert(parts.drop_last() =~= seq![y, m]);
    assert(seq![y, m].drop_last() =~= seq![y]);
    assert(join(seq![y], '-') == y);
    assert(join(seq![y, m], '-') =~= y.push('-') + m);
    assert(join(parts, '-') =~= date_text(d));
    split_undoes_join(parts, '-');
    assert(is_digit(y[0]) && is_digit(m[0]) && is_digit(n[0]));
    let p1 = seq![y];
    let p2 = seq![y, m];
    assert(p1.drop_last() =~= Seq::empty());
    assert(whole_numbers(p1.drop_last()) =~= Seq::empty());
    assert(whole_numbers(p1) =~= seq![d.year as int]);
    assert(whole_numbers(p2) =~= seq![d.year as int, d.month as int]);
    assert(whole_numbers(parts) =~= seq![d.year as int, d.month as int, d.day as int]);
}

/// The day after a day has the next number: within the month, from the end of a month
/// to the first of the next, and over the turn of the year. Counting starts with the
/// first day of 1900.
pub proof fn days_are_counted_one_by_one(d: Date)
    requires
        d.in_calendar(),
        d.year < i32::MAX,
    ensures
        ({
            let n = d.day_number() + 1;
            let len = month_len(d.year as int, d.month as int);
            &&& d.day < len ==> (Date { day: (d.day + 1) as u8, ..d }).in_calendar() && (Date {
                day: (d.day + 1) as u8,
                ..d
            }).day_number() == n
            &&& d.day == len && d.month < 12 ==> (Date {
                month: (d.month + 1) as u8,
                day: 1,
                ..d
            }).day_number() == n
            &&& d.day == len && d.month == 12 ==> (Date {
                year: (d.year + 1) as i32,
                month: 1,
                day: 1,
            }).day_number() == n
        }),
        (Date { year: 1900, month: 1, day: 1 }).day_number() == 0,
{
    month_starts(d.year as int);
    month_starts(d.year + 1);
    next_year(d.year as int);
    if d.month < 12 {
        assert(month_start(d.year as int, d.month + 1) == month_start(
            d.year as int,
            d.month as int,
        ) + month_len(d.year as int, d.month as int));
    } else {
        assert(month_start(d.year as int, 13) == month_start(d.year as int, 12) + 31);
    }
}

/// Four centuries have 146,097 days, wherever they begin, and February has its day
/// more in the years of 366 days.
pub proof fn the_calendar_repeats(year: int)
    ensures
        year_start(year + 400) == year_start(year) + 146_097,
        month_len(year, 2) == if year_start(year + 1) - year_start(year) == 366 {
            29int
        } else {
            28
        },
{
    next_year(year);
    let y = year - 1;
    assert((y + 400) / 4 == y / 4 + 100);
    assert((y + 400) / 100 == y / 100 + 4);
    assert((y + 400) / 400 == y / 400 + 1);
}

/// Leap years are the fourth years, but of the centuries only the fourth.
pub proof fn leap_years_are_the_fourth(n: int)
    ensures
        is_leap(400 * n),
        !is_leap(400 * n + 100),
        !is_leap(400 * n + 200),
        !is_leap(400 * n + 300),
        !is_leap(4 * n + 1),
        !is_leap(4 * n + 2),
        !is_leap(4 * n + 3),
        n % 25 != 0 ==> is_leap(4 * n),
{
    assert((400 * n) % 400 == 0);
    assert((400 * n + 100) % 400 == 100 && (400 * n + 100) % 100 == 0);
    assert((400 * n + 200) % 400 == 200 && (400 * n + 200) % 100 == 0);
    assert((400 * n + 300) % 400 == 300 && (400 * n + 300) % 100 == 0);
    assert((4 * n + 1) % 4 == 1 && (4 * n + 2) % 4 == 2 && (4 * n + 3) % 4 == 3);
    centuries_are_fourths(4 * n + 1);
    centuries_are_fourths(4 * n + 2);
    centuries_are_fourths(4 * n + 3);
    if n % 25 != 0 {
        assert((4 * n) % 4 == 0);
        assert((4 * n) % 100 == 4 * (n % 25));
    }
}

/// The months of a year: seven of 31 days, four of 30, and February.
pub proof fn months_have_their_lengths(year: int)
    ensures
        month_len(year, 1) == month_len(year, 3) == month_len(year, 5) == month_len(year, 7)
            == month_len(year, 8) == month_len(year, 10) == month_len(year, 12) == 31,
        month_len(year, 4) == month_len(year, 6) == month_len(year, 9) == month_len(year, 11) == 30,
        month_start(year, 13) == year_start(year + 1) - year_start(year),
{
    month_starts(year);
    next_year(year);
}

/// A label has its year in four places at least, its month and its day in two each,
/// with hyphens between.
pub proof fn labels_have_their_places(d: Date)
    requires
        0 <= d.year <= 9_999,
        d.in_calendar(),
    ensures
        date_text(d).len() == 10,
        date_text(d)[4] == '-' && date_text(d)[7] == '-',
{
    short_numbers_fit(d.year as nat);
    short_numbers_fit(d.month as nat);
    short_numbers_fit(d.day as nat);
}

proof fn short_numbers_fit(n: nat)
    ensures
        n < 10 ==> decimal(n).len() == 1,
        10 <= n < 100 ==> decimal(n).len() == 2,
        100 <= n < 1_000 ==> decimal(n).len() == 3,
        1_000 <= n < 10_000 ==> decimal(n).len() == 4,
{
    reveal_with_fuel(decimal, 5);
}

} // verus!
