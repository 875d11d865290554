use chrono::{Datelike, NaiveDate};
use cosmi_cal::calendar::{
    date_string, days_in_month, first_of_month, month_name, month_start_weekday, next_month,
    parse_ym, prev_month, checked_date, CalendarDate,
};

/// The day-of-week formula of the contracts, written out: Monday = 0.
fn formula_weekday(y: i64, m: i64, d: i64) -> i64 {
    let offsets = [0, 3, 2, 5, 0, 3, 5, 1, 4, 6, 2, 4];
    let yy = if m < 3 { y - 1 } else { y };
    let from_sunday = (yy + yy.div_euclid(4) - yy.div_euclid(100) + yy.div_euclid(400)
        + offsets[(m - 1) as usize]
        + d)
        .rem_euclid(7);
    (from_sunday + 6).rem_euclid(7)
}

/// The `%Y-%m-%d` text of the contracts, written out.
fn formula_date_text(y: i32, m: u32, d: u32) -> String {
    let year = if (0..=9999).contains(&y) {
        format!("{:04}", y)
    } else if y < 0 {
        format!("-{:04}", -(y as i64))
    } else {
        format!("+{:04}", y)
    };
    format!("{}-{:02}-{:02}", year, m, d)
}

fn leap(y: i64) -> bool {
    y.rem_euclid(4) == 0 && (y.rem_euclid(100) != 0 || y.rem_euclid(400) == 0)
}

#[test]
fn prev_and_next_month_wrap_around_the_year() {
    assert_eq!(prev_month(2024, 1), (2023, 12));
    assert_eq!(prev_month(2024, 7), (2024, 6));
    assert_eq!(next_month(2024, 12), (2025, 1));
    assert_eq!(next_month(2024, 7), (2024, 8));
    for m in 1..=12u32 {
        let (y, p) = prev_month(2000, m);
        assert_eq!(next_month(y, p), (2000, m));
    }
}

#[test]
fn month_names() {
    assert_eq!(month_name(1), "January");
    assert_eq!(month_name(9), "September");
    assert_eq!(month_name(12), "December");
    assert_eq!(month_name(0), "???");
    assert_eq!(month_name(13), "???");
}

#[test]
fn days_in_month_lists_every_day() {
    let feb = days_in_month(2024, 2);
    assert_eq!(feb.len(), 29);
    assert_eq!(feb[28], CalendarDate { year: 2024, month: 2, day: 29 });
    assert_eq!(days_in_month(2023, 2).len(), 28);
    assert_eq!(days_in_month(1900, 2).len(), 28);
    assert_eq!(days_in_month(2000, 2).len(), 29);
    assert_eq!(days_in_month(2024, 4).len(), 30);
    assert_eq!(days_in_month(2024, 12).len(), 31);
    assert!(days_in_month(2024, 13).is_empty());
    assert!(days_in_month(2024, 0).is_empty());
    assert!(days_in_month(400000, 1).is_empty());
    assert_eq!(days_in_month(262142, 12).len(), 31);
    assert!(days_in_month(262143, 1).is_empty());
    assert_eq!(days_in_month(-262143, 1).len(), 31);
    assert!(days_in_month(-262144, 12).is_empty());
}

#[test]
fn first_of_month_exists_only_for_real_months() {
    assert_eq!(first_of_month(2015, 3), Some(CalendarDate { year: 2015, month: 3, day: 1 }));
    assert_eq!(first_of_month(2015, 0), None);
    assert_eq!(first_of_month(-400000, 1), None);
}

#[test]
fn month_start_weekday_counts_from_monday() {
    assert_eq!(month_start_weekday(2015, 9), 1); // Tuesday
    assert_eq!(month_start_weekday(2024, 1), 0); // Monday
    assert_eq!(month_start_weekday(2023, 10), 6); // Sunday
    assert_eq!(month_start_weekday(2024, 13), 0);
}

#[test]
fn weekday_formula_agrees_with_chrono() {
    let mut y = -2000;
    while y <= 2400 {
        for m in 1..=12u32 {
            let expected = NaiveDate::from_ymd_opt(y, m, 1).unwrap().weekday().num_days_from_monday();
            assert_eq!(formula_weekday(y as i64, m as i64, 1), expected as i64);
            assert_eq!(month_start_weekday(y, m), expected as usize);
        }
        y += 7;
    }
    for (y, m, d) in [(-308, 3, 14), (2015, 9, 8), (262142, 12, 31), (-262143, 1, 1)] {
        let expected = NaiveDate::from_ymd_opt(y, m, d).unwrap().weekday().num_days_from_monday();
        assert_eq!(formula_weekday(y as i64, m as i64, d as i64), expected as i64);
    }
}

#[test]
fn validity_formula_agrees_with_chrono() {
    for y in [-262144, -262143, -5, -4, 0, 1, 4, 100, 400, 1900, 2000, 2023, 2024, 262142, 262143] {
        for m in 0..=13u32 {
            for d in 0..=32u32 {
                let in_range = (-262143..=262142).contains(&(y as i64));
                let len = match m {
                    2 => if leap(y as i64) { 29 } else { 28 },
                    4 | 6 | 9 | 11 => 30,
                    _ => 31,
                };
                let exists = in_range && (1..=12).contains(&m) && d >= 1 && d <= len;
                assert_eq!(NaiveDate::from_ymd_opt(y, m, d).is_some(), exists);
                if d == 1 {
                    assert_eq!(first_of_month(y, m).is_some(), exists);
                }
            }
        }
    }
}

#[test]
fn date_strings_follow_the_year_format() {
    assert_eq!(date_string(CalendarDate { year: 2015, month: 3, day: 14 }), "2015-03-14");
    assert_eq!(date_string(CalendarDate { year: 5, month: 1, day: 2 }), "0005-01-02");
    assert_eq!(date_string(CalendarDate { year: -5, month: 12, day: 31 }), "-0005-12-31");
    assert_eq!(date_string(CalendarDate { year: 10000, month: 1, day: 1 }), "+10000-01-01");
    assert_eq!(date_string(CalendarDate { year: 0, month: 2, day: 29 }), "0000-02-29");
    for (y, m, d) in [(2015, 3, 14), (5, 1, 2), (-5, 12, 31), (10000, 1, 1), (262142, 12, 31), (-262143, 1, 1), (9999, 7, 4)] {
        assert_eq!(date_string(CalendarDate { year: y, month: m, day: d }), formula_date_text(y, m, d));
    }
}

#[test]
fn checked_date_accepts_only_real_days() {
    assert_eq!(checked_date(2024, 2, 29), Some(CalendarDate { year: 2024, month: 2, day: 29 }));
    assert_eq!(checked_date(2023, 2, 29), None);
    assert_eq!(checked_date(2024, 13, 1), None);
    assert_eq!(checked_date(2024, 4, 0), None);
    assert_eq!(checked_date(-262144, 1, 1), None);
    for (y, m, d) in [(1900, 2, 29), (2000, 2, 29), (2024, 4, 31), (-4, 2, 29), (262142, 12, 31)] {
        assert_eq!(checked_date(y, m, d).is_some(), NaiveDate::from_ymd_opt(y, m, d).is_some());
    }
}

#[test]
fn each_month_starts_where_the_one_before_ends() {
    for y in [-401, -1, 0, 1, 1900, 1999, 2000, 2023, 2024, 2100] {
        for m in 1..=12u32 {
            let (y2, m2) = next_month(y, m);
            assert_eq!(
                month_start_weekday(y2, m2),
                (month_start_weekday(y, m) + days_in_month(y, m).len()) % 7
            );
        }
    }
}

#[test]
fn parse_ym_reads_year_and_month() {
    assert_eq!(parse_ym("2024-03-15"), Some((2024, 3)));
    assert_eq!(parse_ym("2024-12"), Some((2024, 12)));
    assert_eq!(parse_ym("+2024-03-15"), Some((2024, 3)));
    assert_eq!(parse_ym("0005-01-01"), Some((5, 1)));
    assert_eq!(parse_ym("2024-+3-01"), Some((2024, 3)));
    assert_eq!(parse_ym("2024-13-01"), None);
    assert_eq!(parse_ym("2024-00-01"), None);
    assert_eq!(parse_ym("-0005-01-01"), None);
    assert_eq!(parse_ym("2024"), None);
    assert_eq!(parse_ym("2024-"), None);
    assert_eq!(parse_ym("abc-01"), None);
    assert_eq!(parse_ym("2024--1"), None);
    assert_eq!(parse_ym(" 2024-03"), None);
    assert_eq!(parse_ym("2147483647-01"), Some((2147483647, 1)));
    assert_eq!(parse_ym("2147483648-01"), None);
    assert_eq!(parse_ym("99999999999999999999-01"), None);
    assert_eq!(parse_ym("2024-0000000003-x"), Some((2024, 3)));
}

#[test]
fn parse_ym_agrees_with_std_parsing() {
    for text in ["1-2", "+-1", "-1-2", "+1-+2", "1-2-3", "", "-", "--", "12-4294967295", "12-4294967296", "x", "1-", "2147483647-1", "+2147483648-1"] {
        let mut parts = text.splitn(3, '-');
        let expected = (|| {
            let year = parts.next()?.parse::<i32>().ok()?;
            let month = parts.next()?.parse::<u32>().ok()?;
            if (1..=12).contains(&month) { Some((year, month)) } else { None }
        })();
        assert_eq!(parse_ym(text), expected, "{text}");
    }
}
