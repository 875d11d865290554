use chrono::Datelike;
use vstd::prelude::*;
use vstd::arithmetic::div_mod::{lemma_fundamental_div_mod, lemma_mod_multiples_basic};
use crate::text::{chars_of, decimal, field_len, lemma_field_len};

verus! {

/// A day of the proleptic Gregorian calendar, held as plain numbers.
#[derive(Debug, Clone, Copy, PartialEq, Eq, Structural)]
pub struct CalendarDate {
    pub year: i32,
    pub month: u32,
    pub day: u32,
}

/// The earliest year a calendar date can have.
pub open spec fn min_date_year() -> int {
    -262143
}

/// The latest year a calendar date can have.
pub open spec fn max_date_year() -> int {
    262142
}

/// Whether `y` is a leap year of the proleptic Gregorian calendar.
pub open spec fn is_leap_year(y: int) -> bool {
    y % 4 == 0 && (y % 100 != 0 || y % 400 == 0)
}

/// The number of days in month `m` of year `y`.
pub open spec fn month_length(y: int, m: int) -> int {
    if m == 2 {
        if is_leap_year(y) {
            29
        } else {
            28
        }
    } else if m == 4 || m == 6 || m == 9 || m == 11 {
        30
    } else {
        31
    }
}

/// Whether year `y`, month `m`, day `d` name a day that the calendar has,
/// within the range of years it covers.
pub open spec fn date_exists(y: int, m: int, d: int) -> bool {
    &&& min_date_year() <= y <= max_date_year()
    &&& 1 <= m <= 12
    &&& 1 <= d <= month_length(y, m)
}

impl CalendarDate {
    /// Whether this is a day that the calendar has.
    pub open spec fn is_valid(self) -> bool {
        date_exists(self.year as int, self.month as int, self.day as int)
    }
}

/// The offset that month `m` adds in the day-of-week formula.
pub open spec fn month_weekday_offset(m: int) -> int {
    if m == 1 {
        0
    } else if m == 2 {
        3
    } else if m == 3 {
        2
    } else if m == 4 {
        5
    } else if m == 5 {
        0
    } else if m == 6 {
        3
    } else if m == 7 {
        5
    } else if m == 8 {
        1
    } else if m == 9 {
        4
    } else if m == 10 {
        6
    } else if m == 11 {
        2
    } else {
        4
    }
}

/// The day of the week of a date, counted from Monday = 0 to Sunday = 6.
pub open spec fn weekday_from_monday(y: int, m: int, d: int) -> int {
    let yy = if m < 3 {
        y - 1
    } else {
        y
    };
    let from_sunday = (yy + yy / 4 - yy / 100 + yy / 400 + month_weekday_offset(m) + d) % 7;
    (from_sunday + 6) % 7
}

/// `s` with zeros in front, to at least `width` characters.
pub open spec fn zero_padded(s: Seq<char>, width: nat) -> Seq<char> {
    if s.len() >= width {
        s
    } else {
        Seq::new((width - s.len()) as nat, |i: int| '0') + s
    }
}

/// A year as the `%Y` format writes it: four digits or more, with a sign
/// when it is outside 0 to 9999.
pub open spec fn year_text(y: int) -> Seq<char> {
    if 0 <= y <= 9999 {
        zero_padded(decimal(y as nat), 4)
    } else if y < 0 {
        seq!['-'] + zero_padded(decimal((-y) as nat), 4)
    } else {
        seq!['+'] + zero_padded(decimal(y as nat), 4)
    }
}

/// A date as the `%Y-%m-%d` format writes it.
pub open spec fn date_text(y: int, m: int, d: int) -> Seq<char> {
    year_text(y) + seq!['-'] + zero_padded(decimal(m as nat), 2) + seq!['-'] + zero_padded(
        decimal(d as nat),
        2,
    )
}

/// Calls `chrono::NaiveDate::from_ymd_opt` and tells whether it gave a date:
/// it does exactly for the days of the calendar between `NaiveDate::MIN`
/// (January 1 of year -262143) and `NaiveDate::MAX` (December 31, 262142).
#[verifier::external_body]
fn chrono_date_exists(year: i32, month: u32, day: u32) -> (r: bool)
    ensures
        r == date_exists(year as int, month as int, day as int),
{
    chrono::NaiveDate::from_ymd_opt(year, month, day).is_some()
}

/// Calls `Datelike::weekday` and `Weekday::num_days_from_monday` on the
/// `chrono::NaiveDate` of the given day: its day of the week, Monday = 0.
#[verifier::external_body]
fn chrono_weekday_from_monday(year: i32, month: u32, day: u32) -> (r: u32)
    requires
        date_exists(year as int, month as int, day as int),
    ensures
        r == weekday_from_monday(year as int, month as int, day as int),
{
    match chrono::NaiveDate::from_ymd_opt(year, month, day) {
        Some(date) => date.weekday().num_days_from_monday(),
        None => 0,
    }
}

/// Calls `NaiveDate::format` with `"%Y-%m-%d"` on the given day and renders
/// it: the year as `%Y` writes it, then the month and the day as two digits.
#[verifier::external_body]
fn chrono_date_text(year: i32, month: u32, day: u32) -> (r: String)
    requires
        date_exists(year as int, month as int, day as int),
    ensures
        r@ == date_text(year as int, month as int, day as int),
{
    match chrono::NaiveDate::from_ymd_opt(year, month, day) {
        Some(date) => date.format("%Y-%m-%d").to_string(),
        None => String::new(),
    }
}

/// The day of year `year`, month `month`, day `day`, if the calendar has it.
pub fn checked_date(year: i32, month: u32, day: u32) -> (r: Option<CalendarDate>)
    ensures
        r == (if date_exists(year as int, month as int, day as int) {
            Some(CalendarDate { year, month, day })
        } else {
            None
        }),
{
    if chrono_date_exists(year, month, day) {
        Some(CalendarDate { year, month, day })
    } else {
        None
    }
}

/// The `YYYY-MM-DD` text of a day.
pub fn date_string(date: CalendarDate) -> (r: String)
    requires
        date.is_valid(),
    ensures
        r@ == date_text(date.year as int, date.month as int, date.day as int),
{
    chrono_date_text(date.year, date.month, date.day)
}

/// The first day of the given month, if the calendar has it.
pub fn first_of_month(year: i32, month: u32) -> (r: Option<CalendarDate>)
    ensures
        r == (if date_exists(year as int, month as int, 1) {
            Some(CalendarDate { year, month, day: 1 })
        } else {
            None
        }),
{
    if chrono_date_exists(year, month, 1) {
        Some(CalendarDate { year, month, day: 1 })
    } else {
        None
    }
}

/// The number of days that `days_in_month` lists for the given month.
pub open spec fn days_in_month_count(y: int, m: int) -> int {
    if date_exists(y, m, 1) {
        month_length(y, m)
    } else {
        0
    }
}

/// All days of the given month, in order; none when the month is not one
/// the calendar has.
pub fn days_in_month(year: i32, month: u32) -> (r: Vec<CalendarDate>)
    ensures
        r@.len() == days_in_month_count(year as int, month as int),
        forall|i: int|
            0 <= i < r@.len() ==> #[trigger] r@[i] == (CalendarDate {
                year,
                month,
                day: (i + 1) as u32,
            }),
{
    let mut days: Vec<CalendarDate> = Vec::new();
    let mut day: u32 = 1;
    loop
        invariant
            1 <= day <= 32,
            days@.len() == day - 1,
            forall|i: int|
                0 <= i < days@.len() ==> #[trigger] days@[i] == (CalendarDate {
                    year,
                    month,
                    day: (i + 1) as u32,
                }),
            forall|d: int| 1 <= d < day ==> date_exists(year as int, month as int, d),
        ensures
            days@.len() == day - 1,
            forall|i: int|
                0 <= i < days@.len() ==> #[trigger] days@[i] == (CalendarDate {
                    year,
                    month,
                    day: (i + 1) as u32,
                }),
            forall|d: int| 1 <= d < day ==> date_exists(year as int, month as int, d),
            !date_exists(year as int, month as int, day as int),
        decreases 32 - day,
    {
        if !chrono_date_exists(year, month, day) {
            break;
        }
        days.push(CalendarDate { year, month, day });
        day = day + 1;
    }
    proof {
        if day > 1 {
            assert(date_exists(year as int, month as int, 1));
            assert(date_exists(year as int, month as int, day - 1));
        }
    }
    days
}

/// The day of the week (Monday = 0) on which the given month starts; 0 when
/// the calendar does not have that month.
pub fn month_start_weekday(year: i32, month: u32) -> (r: usize)
    ensures
        r == (if date_exists(year as int, month as int, 1) {
            weekday_from_monday(year as int, month as int, 1)
        } else {
            0
        }),
        r < 7,
{
    match first_of_month(year, month) {
        Some(d) => chrono_weekday_from_monday(d.year, d.month, d.day) as usize,
        None => 0,
    }
}

/// The month before month `m` of year `y`.
pub open spec fn month_before(y: int, m: int) -> (int, int) {
    if m == 1 {
        (y - 1, 12)
    } else {
        (y, m - 1)
    }
}

/// The month after month `m` of year `y`.
pub open spec fn month_after(y: int, m: int) -> (int, int) {
    if m == 12 {
        (y + 1, 1)
    } else {
        (y, m + 1)
    }
}

/// The month before the given one, as `(year, month)`.
pub fn prev_month(year: i32, month: u32) -> (r: (i32, u32))
    requires
        month != 0,
        month == 1 ==> year > i32::MIN,
    ensures
        (r.0 as int, r.1 as int) == month_before(year as int, month as int),
{
    if month == 1 {
        (year - 1, 12)
    } else {
        (year, month - 1)
    }
}

/// The month after the given one, as `(year, month)`.
pub fn next_month(year: i32, month: u32) -> (r: (i32, u32))
    requires
        month != u32::MAX,
        month == 12 ==> year < i32::MAX,
    ensures
        (r.0 as int, r.1 as int) == month_after(year as int, month as int),
{
    if month == 12 {
        (year + 1, 1)
    } else {
        (year, month + 1)
    }
}

/// The English name of a month, or `???` for a number that is no month.
pub open spec fn month_name_text(month: u32) -> Seq<char> {
    if month == 1 {
        "January"@
    } else if month == 2 {
        "February"@
    } else if month == 3 {
        "March"@
    } else if month == 4 {
        "April"@
    } else if month == 5 {
        "May"@
    } else if month == 6 {
        "June"@
    } else if month == 7 {
        "July"@
    } else if month == 8 {
        "August"@
    } else if month == 9 {
        "September"@
    } else if month == 10 {
        "October"@
    } else if month == 11 {
        "November"@
    } else if month == 12 {
        "December"@
    } else {
        "???"@
    }
}

/// The months' English names, January to December in calendar order, and
/// `???` for any number that is no month.
pub proof fn lemma_month_names()
    ensures
        month_name_text(1) == "January"@,
        month_name_text(2) == "February"@,
        month_name_text(3) == "March"@,
        month_name_text(4) == "April"@,
        month_name_text(5) == "May"@,
        month_name_text(6) == "June"@,
        month_name_text(7) == "July"@,
        month_name_text(8) == "August"@,
        month_name_text(9) == "September"@,
        month_name_text(10) == "October"@,
        month_name_text(11) == "November"@,
        month_name_text(12) == "December"@,
        forall|m: u32| (m < 1 || m > 12) ==> #[trigger] month_name_text(m) == "???"@,
{
}

/// The English name of a month.
pub fn month_name(month: u32) -> (r: &'static str)
    ensures
        r@ == month_name_text(month),
{
    if month == 1 {
        "January"
    } else if month == 2 {
        "February"
    } else if month == 3 {
        "March"
    } else if month == 4 {
        "April"
    } else if month == 5 {
        "May"
    } else if month == 6 {
        "June"
    } else if month == 7 {
        "July"
    } else if month == 8 {
        "August"
    } else if month == 9 {
        "September"
    } else if month == 10 {
        "October"
    } else if month == 11 {
        "November"
    } else if month == 12 {
        "December"
    } else {
        "???"
    }
}


/// Stepping one month back and then one forward, or forward and then back,
/// returns to the month one started from; both steps keep the month number
/// between 1 and 12.
pub proof fn lemma_month_steps_undo(y: int, m: int)
    requires
        1 <= m <= 12,
    ensures
        month_after(month_before(y, m).0, month_before(y, m).1) == (y, m),
        month_before(month_after(y, m).0, month_after(y, m).1) == (y, m),
        1 <= month_before(y, m).1 <= 12,
        1 <= month_after(y, m).1 <= 12,
{
}

/// The days that the years up to `yy` add to the day-of-week formula.
pub open spec fn year_weekday_shift(yy: int) -> int {
    yy + yy / 4 - yy / 100 + yy / 400
}

/// A year adds one day to the weekday shift, and a leap year one more.
proof fn lemma_year_weekday_shift(y: int)
    ensures
        year_weekday_shift(y) == year_weekday_shift(y - 1) + 1 + (if is_leap_year(y) {
            1int
        } else {
            0int
        }),
{
    lemma_div_step(y, 4);
    lemma_div_step(y, 100);
    lemma_div_step(y, 400);
    lemma_divides_through(y, 4, 25);
    lemma_divides_through(y, 100, 4);
}

/// Going from `y - 1` to `y` raises `y / d` by one exactly when `d` divides `y`.
proof fn lemma_div_step(y: int, d: int)
    requires
        d > 0,
    ensures
        y / d - (y - 1) / d == (if y % d == 0 { 1int } else { 0int }),
{
    lemma_fundamental_div_mod(y, d);
    lemma_fundamental_div_mod(y - 1, d);
    let q1 = y / d;
    let q0 = (y - 1) / d;
    let r1 = y % d;
    let r0 = (y - 1) % d;
    assert(0 <= r1 < d && 0 <= r0 < d);
    assert(q1 - q0 == (if r1 == 0 { 1int } else { 0int })) by (nonlinear_arith)
        requires
            y == d * q1 + r1,
            y - 1 == d * q0 + r0,
            0 <= r1 < d,
            0 <= r0 < d,
            d > 0,
    {
        if q1 - q0 >= 2 {
            assert(d * (q1 - q0) >= 2 * d);
        } else if q1 - q0 <= -1 {
            assert(d * (q1 - q0) <= -d);
        }
    }
}

/// What `d * e` divides, `d` divides too.
proof fn lemma_divides_through(y: int, d: int, e: int)
    requires
        d > 0,
        e > 0,
    ensures
        y % (d * e) == 0 ==> y % d == 0,
{
    assert(d * e > 0) by (nonlinear_arith)
        requires
            d > 0,
            e > 0,
    ;
    if y % (d * e) == 0 {
        lemma_fundamental_div_mod(y, d * e);
        let q = y / (d * e);
        assert(y == d * (e * q)) by (nonlinear_arith)
            requires
                y == (d * e) * q + y % (d * e),
                y % (d * e) == 0,
        ;
        lemma_mod_multiples_basic(e * q, d);
        assert((e * q) * d == d * (e * q)) by (nonlinear_arith);
    }
}

/// Each month starts on the weekday that follows the last day of the month
/// before it: the first of the next month comes `month_length` days after the
/// first of this one. Within the years the calendar covers, that is the
/// weekday `month_start_weekday` gives for the next month, counted from the
/// one it gives for this month and the number of days `days_in_month` lists.
pub proof fn lemma_next_month_start_weekday(y: int, m: int)
    requires
        1 <= m <= 12,
    ensures
        weekday_from_monday(month_after(y, m).0, month_after(y, m).1, 1) == (weekday_from_monday(
            y,
            m,
            1,
        ) + month_length(y, m)) % 7,
        min_date_year() <= y && month_after(y, m).0 <= max_date_year() ==> {
            &&& date_exists(y, m, 1)
            &&& date_exists(month_after(y, m).0, month_after(y, m).1, 1)
            &&& weekday_from_monday(month_after(y, m).0, month_after(y, m).1, 1) == (
            weekday_from_monday(y, m, 1) + days_in_month_count(y, m)) % 7
        },
{
    let (y2, m2) = month_after(y, m);
    let yy = if m < 3 { y - 1 } else { y };
    let yy2 = if m2 < 3 { y2 - 1 } else { y2 };
    let a = year_weekday_shift(yy) + month_weekday_offset(m) + 1;
    let b = year_weekday_shift(yy2) + month_weekday_offset(m2) + 1;
    if m == 2 {
        lemma_year_weekday_shift(y);
    }
    // The next month's sum exceeds this one's by the month's length, up to
    // whole weeks.
    assert((b - a - month_length(y, m)) % 7 == 0);
    let k = (b - a - month_length(y, m)) / 7;
    assert(b == a + month_length(y, m) + 7 * k);
    assert(((b % 7 + 6) % 7) == (((a % 7 + 6) % 7) + month_length(y, m)) % 7) by (nonlinear_arith)
        requires
            b == a + month_length(y, m) + 7 * k,
            28 <= month_length(y, m) <= 31,
    ;
}

/// Whether `c` is one of the ASCII digits `0` to `9`.
pub open spec fn is_ascii_digit(c: char) -> bool {
    48 <= (c as u32) <= 57
}

/// Whether every character of `s` is an ASCII digit.
pub open spec fn all_ascii_digits(s: Seq<char>) -> bool {
    forall|i: int| 0 <= i < s.len() ==> is_ascii_digit(#[trigger] s[i])
}

/// The number that the decimal digits `s` spell.
pub open spec fn digits_value(s: Seq<char>) -> int
    decreases s.len(),
{
    if s.len() == 0 {
        0
    } else {
        digits_value(s.drop_last()) * 10 + ((s.last() as u32) - 48)
    }
}

/// The integer that `str::parse` reads from `s`: an optional `+` (or, for a
/// signed type, `-`) and then at least one decimal digit; `None` for any
/// other text. The range of the target type is checked apart from this.
pub open spec fn parsed_integer(s: Seq<char>, signed: bool) -> Option<int> {
    if s.len() > 0 && (s[0] == '+' || (signed && s[0] == '-')) {
        let body = s.drop_first();
        if body.len() > 0 && all_ascii_digits(body) {
            Some(
                if s[0] == '-' {
                    -digits_value(body)
                } else {
                    digits_value(body)
                },
            )
        } else {
            None
        }
    } else if s.len() > 0 && all_ascii_digits(s) {
        Some(digits_value(s))
    } else {
        None
    }
}

/// What `s.parse::<i32>()` gives, as an option.
pub open spec fn parsed_i32(s: Seq<char>) -> Option<i32> {
    match parsed_integer(s, true) {
        Some(v) => if i32::MIN <= v <= i32::MAX {
            Some(v as i32)
        } else {
            None
        },
        None => None,
    }
}

/// What `s.parse::<u32>()` gives, as an option.
pub open spec fn parsed_u32(s: Seq<char>) -> Option<u32> {
    match parsed_integer(s, false) {
        Some(v) => if 0 <= v <= u32::MAX {
            Some(v as u32)
        } else {
            None
        },
        None => None,
    }
}

/// Reads the integer spelled by `cs[from..to]`; `None` also when its
/// magnitude passes 2^32.
fn read_integer(cs: &Vec<char>, from: usize, to: usize, signed: bool) -> (r: Option<i64>)
    requires
        from <= to <= cs.len(),
    ensures
        r matches Some(v) ==> parsed_integer(cs@.subrange(from as int, to as int), signed) == Some(
            v as int,
        ),
        r is None ==> (parsed_integer(cs@.subrange(from as int, to as int), signed) matches Some(v)
            ==> (v > 0x1_0000_0000 || v < -0x1_0000_0000)),
{
    let ghost s = cs@.subrange(from as int, to as int);
    if from == to {
        return None;
    }
    let first = cs[from];
    let negative = signed && first == '-';
    let mut start = from;
    if first == '+' || negative {
        start = from + 1;
    }
    if start == to {
        return None;
    }
    let ghost body = cs@.subrange(start as int, to as int);
    assert(start > from ==> body =~= s.drop_first());
    assert(start == from ==> body =~= s);
    let mut acc: u64 = 0;
    let mut over = false;
    let mut i: usize = start;
    assert(cs@.subrange(start as int, start as int) =~= Seq::<char>::empty());
    while i < to
        invariant
            from <= start < to <= cs.len(),
            start <= i <= to,
            s == cs@.subrange(from as int, to as int),
            body == cs@.subrange(start as int, to as int),
            start > from ==> body =~= s.drop_first(),
            start == from ==> body =~= s,
            start > from ==> (s[0] == '+' || (signed && s[0] == '-')),
            start == from ==> !(s[0] == '+' || (signed && s[0] == '-')),
            negative == (signed && s[0] == '-'),
            all_ascii_digits(cs@.subrange(start as int, i as int)),
            !over ==> acc == digits_value(cs@.subrange(start as int, i as int)) && acc
                <= 0x1_0000_0000,
            over ==> digits_value(cs@.subrange(start as int, i as int)) > 0x1_0000_0000,
        decreases to - i,
    {
        let c = cs[i];
        let code = c as u32;
        let ghost prefix = cs@.subrange(start as int, i as int);
        let ghost next = cs@.subrange(start as int, i + 1);
        assert(next.drop_last() =~= prefix);
        assert(next.last() == c);
        if code < 48 || code > 57 {
            assert(!all_ascii_digits(body)) by {
                assert(body[i - start] == c);
            }
            return None;
        }
        assert forall|k: int| 0 <= k < next.len() implies is_ascii_digit(#[trigger] next[k]) by {
            if k < prefix.len() {
                assert(next[k] == prefix[k]);
            }
        }
        if !over {
            acc = acc * 10 + (code - 48) as u64;
            if acc > 0x1_0000_0000 {
                over = true;
            }
        }
        i = i + 1;
    }
    assert(cs@.subrange(start as int, to as int) =~= body);
    if over {
        return None;
    }
    if negative {
        Some(-(acc as i64))
    } else {
        Some(acc as i64)
    }
}

/// The year and month that a `YYYY-MM...` text starts with: the text before
/// the first `-` read as an `i32`, the text up to the next `-` read as a
/// `u32` that is a month number.
pub open spec fn year_month_of(s: Seq<char>) -> Option<(i32, u32)> {
    let k = field_len(s, '-');
    if k >= s.len() {
        None
    } else {
        let rest = s.skip(k + 1 as int);
        let j = field_len(rest, '-');
        match (parsed_i32(s.take(k as int)), parsed_u32(rest.take(j as int))) {
            (Some(y), Some(m)) => if 1 <= m <= 12 {
                Some((y, m))
            } else {
                None
            },
            _ => None,
        }
    }
}

/// The index of the first `sep` in `cs` at or after `from`, or `cs.len()`.
fn find_char(cs: &Vec<char>, from: usize, sep: char) -> (r: usize)
    requires
        from <= cs.len(),
    ensures
        from <= r <= cs.len(),
        r == from + field_len(cs@.skip(from as int), sep),
{
    let mut i = from;
    while i < cs.len() && cs[i] != sep
        invariant
            from <= i <= cs.len(),
            forall|j: int| from <= j < i ==> cs@[j] != sep,
        decreases cs.len() - i,
    {
        i = i + 1;
    }
    proof {
        let t = cs@.skip(from as int);
        assert forall|j: int| 0 <= j < i - from implies #[trigger] t[j] != sep by {
            assert(t[j] == cs@[j + from]);
        }
        lemma_field_len(t, sep, i - from);
    }
    i
}

/// Reads the year and month at the start of a `YYYY-MM-DD` date text.
pub fn parse_ym(date: &str) -> (r: Option<(i32, u32)>)
    ensures
        r == year_month_of(date@),
{
    let cs = chars_of(date);
    let k = find_char(&cs, 0, '-');
    assert(cs@.skip(0) =~= cs@);
    if k >= cs.len() {
        return None;
    }
    let j = find_char(&cs, k + 1, '-');
    let ghost s = date@;
    let ghost rest = s.skip(k + 1 as int);
    assert(s.take(k as int) =~= cs@.subrange(0, k as int));
    assert(rest.take(j - (k + 1)) =~= cs@.subrange(k + 1, j as int));
    let year = read_integer(&cs, 0, k, true);
    let month = read_integer(&cs, k + 1, j, false);
    match (year, month) {
        (Some(y), Some(m)) => {
            if y < -2147483648 || y > 2147483647 || m < 1 || m > 12 {
                None
            } else {
                Some((y as i32, m as u32))
            }
        },
        _ => None,
    }
}

} // verus!
