use xword_tracker::date::date_to_string;
use xword_tracker::date::string_to_date;
use xword_tracker::date::Date;
use xword_tracker::date::DateParseError;
use xword_tracker::date::MAX_DAYS;
use xword_tracker::date::MIN_DAYS;
use xword_tracker::tracker::earliest_solve;
use xword_tracker::tracker::EARLIEST_SOLVE_DAYS;

#[test]
fn reads_a_date() {
    let date = string_to_date("2024-01-01").unwrap();
    assert_eq!(date.days(), 738_886);
    assert_eq!(string_to_date("1970-01-01").unwrap().days(), 719_163);
    assert_eq!(string_to_date("0001-01-01").unwrap().days(), 1);
}

#[test]
fn writes_a_date() {
    assert_eq!(date_to_string(Date::from_days(738_886).unwrap()), "2024-01-01");
    assert_eq!(date_to_string(Date::from_days(719_163).unwrap()), "1970-01-01");
    assert_eq!(date_to_string(Date::from_days(738_893).unwrap()), "2024-01-08");
}

#[test]
fn text_and_date_round_trip() {
    for text in ["2015-06-01", "2020-02-29", "1999-12-31", "2024-01-08"] {
        assert_eq!(date_to_string(string_to_date(text).unwrap()), text);
    }
}

#[test]
fn calendar_bounds_are_the_four_digit_years() {
    assert_eq!(date_to_string(Date::from_days(MIN_DAYS).unwrap()), "0000-01-01");
    assert_eq!(date_to_string(Date::from_days(MAX_DAYS).unwrap()), "9999-12-31");
    assert_eq!(string_to_date("0000-01-01").unwrap().days(), MIN_DAYS);
    assert_eq!(string_to_date("9999-12-31").unwrap().days(), MAX_DAYS);
    assert_eq!(Date::from_days(MIN_DAYS - 1), None);
    assert_eq!(Date::from_days(MAX_DAYS + 1), None);
    assert_eq!(Date::from_days(i32::MAX), None);
    assert_eq!(Date::from_days(i32::MIN), None);
}

#[test]
fn refuses_what_is_no_date() {
    assert_eq!(string_to_date(""), Err(DateParseError));
    assert_eq!(string_to_date("yesterday"), Err(DateParseError));
    assert_eq!(string_to_date("2024-02-30"), Err(DateParseError));
    assert_eq!(string_to_date("2024-13-01"), Err(DateParseError));
    assert_eq!(string_to_date("2024/01/01"), Err(DateParseError));
    assert_eq!(string_to_date("2023-02-29"), Err(DateParseError));
}

#[test]
fn weekday_counts_from_monday() {
    assert_eq!(string_to_date("2024-01-01").unwrap().weekday(), 0);
    assert_eq!(string_to_date("2024-01-02").unwrap().weekday(), 1);
    assert_eq!(string_to_date("2024-01-06").unwrap().weekday(), 5);
    assert_eq!(string_to_date("2024-01-07").unwrap().weekday(), 6);
    assert_eq!(string_to_date("2024-01-08").unwrap().weekday(), 0);
    assert_eq!(string_to_date("2015-09-08").unwrap().weekday(), 1);
}

#[test]
fn weekday_repeats_every_seven_days() {
    let mut days = 738_000;
    while days < 738_100 {
        let a = Date::from_days(days).unwrap().weekday();
        let b = Date::from_days(days + 7).unwrap().weekday();
        let next = Date::from_days(days + 1).unwrap().weekday();
        assert!(a < 7);
        assert_eq!(a, b);
        assert_eq!(next, (a + 1) % 7);
        days += 1;
    }
}

#[test]
fn dates_compare_as_their_days() {
    let a = string_to_date("2024-01-01").unwrap();
    let b = string_to_date("2024-01-08").unwrap();
    assert_eq!(b.days() - a.days(), 7);
    assert_ne!(a, b);
    assert_eq!(a, Date::from_days(738_886).unwrap());
}

#[test]
fn default_earliest_solve_is_june_2015() {
    assert_eq!(date_to_string(earliest_solve()), "2015-06-01");
    assert_eq!(earliest_solve().days(), EARLIEST_SOLVE_DAYS);
}
