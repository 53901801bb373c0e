use xword_tracker::date::string_to_date;
use xword_tracker::date::Date;
use xword_tracker::stats::get_daily_moving_averages;
use xword_tracker::stats::get_daily_moving_percentage;
use xword_tracker::stats::times_to_moving_average;
use xword_tracker::stats::times_to_moving_percentage;
use xword_tracker::stats::weekday_bucket;
use xword_tracker::stats::MovingStat;
use xword_tracker::tracker::SolveState;
use xword_tracker::tracker::Tracker;
use xword_tracker::tracker::XwordSummary;
use xword_tracker::tracker::AVERAGE_WINDOW;
use xword_tracker::tracker::PERCENTAGE_WINDOW;

const MONDAY: i32 = 738_886;

fn weekly(week: i32, solve_state: SolveState) -> XwordSummary {
    XwordSummary { print_date: Date::from_days(MONDAY + 7 * week).unwrap(), solve_state }
}

fn gold(week: i32, time: u32) -> XwordSummary {
    weekly(week, SolveState::Gold { time })
}

fn point(week: i32, total: u64, window: u32) -> MovingStat {
    MovingStat { date: Date::from_days(MONDAY + 7 * week).unwrap(), total, window }
}

fn value(point: &MovingStat) -> f64 {
    point.total as f64 / point.window as f64
}

#[test]
fn average_of_two_mondays() {
    let xwords = vec![
        XwordSummary {
            print_date: string_to_date("2024-01-01").unwrap(),
            solve_state: SolveState::Gold { time: 600 },
        },
        XwordSummary {
            print_date: string_to_date("2024-01-08").unwrap(),
            solve_state: SolveState::Gold { time: 900 },
        },
    ];
    let series = get_daily_moving_averages(&xwords, 2);
    assert_eq!(series.len(), 7);
    assert_eq!(series[0].len(), 1);
    assert_eq!(series[0][0].date, string_to_date("2024-01-08").unwrap());
    assert_eq!(value(&series[0][0]), 750.0);
    for day in 1..7 {
        assert!(series[day].is_empty());
    }
}

#[test]
fn average_window_holds_timed_solves_only() {
    let xwords = vec![
        gold(0, 10),
        weekly(1, SolveState::Unsolved),
        gold(2, 20),
        weekly(3, SolveState::Solved),
        gold(4, 30),
        weekly(5, SolveState::Unsolved),
        gold(6, 40),
    ];
    let points = times_to_moving_average(&xwords, 2);
    assert_eq!(
        points,
        vec![point(2, 30, 2), point(3, 30, 2), point(4, 50, 2), point(5, 50, 2), point(6, 70, 2)]
    );
    assert_eq!(value(&points[4]), 35.0);
}

#[test]
fn average_drops_the_oldest_time() {
    let xwords = vec![gold(0, 100), gold(1, 200), gold(2, 400), gold(3, 800)];
    assert_eq!(
        times_to_moving_average(&xwords, 2),
        vec![point(1, 300, 2), point(2, 600, 2), point(3, 1200, 2)]
    );
    assert_eq!(
        times_to_moving_average(&xwords, 3),
        vec![point(2, 700, 3), point(3, 1400, 3)]
    );
    assert_eq!(
        times_to_moving_average(&xwords, 1),
        vec![point(0, 100, 1), point(1, 200, 1), point(2, 400, 1), point(3, 800, 1)]
    );
}

#[test]
fn average_waits_for_a_full_window() {
    let xwords = vec![
        gold(0, 10),
        weekly(1, SolveState::Solved),
        weekly(2, SolveState::Unsolved),
        gold(3, 20),
    ];
    assert!(times_to_moving_average(&xwords, 3).is_empty());
    assert!(times_to_moving_average(&Vec::new(), 1).is_empty());
    assert_eq!(times_to_moving_average(&xwords, 2), vec![point(3, 30, 2)]);
}

#[test]
fn average_of_a_constant_time_is_that_time() {
    let mut xwords = Vec::new();
    for week in 0..12 {
        xwords.push(gold(week, 421));
    }
    for window in 1..=12u32 {
        let points = times_to_moving_average(&xwords, window);
        assert_eq!(points.len(), 12 - window as usize + 1);
        for p in points.iter() {
            assert_eq!(p.total, 421 * window as u64);
            assert_eq!(value(p), 421.0);
        }
    }
}

#[test]
fn average_total_does_not_overflow() {
    let xwords = vec![gold(0, u32::MAX), gold(1, u32::MAX), gold(2, u32::MAX)];
    let points = times_to_moving_average(&xwords, 3);
    assert_eq!(points, vec![point(2, 3 * (u32::MAX as u64), 3)]);
}

#[test]
fn percentage_counts_timed_solves_per_window() {
    let xwords = vec![
        gold(0, 10),
        weekly(1, SolveState::Unsolved),
        gold(2, 20),
        gold(3, 30),
        weekly(4, SolveState::Solved),
    ];
    let points = times_to_moving_percentage(&xwords, 2);
    assert_eq!(points, vec![point(1, 1, 2), point(2, 1, 2), point(3, 2, 2), point(4, 1, 2)]);
    assert_eq!(value(&points[0]), 0.5);
    assert_eq!(value(&points[2]), 1.0);
    assert_eq!(times_to_moving_percentage(&xwords, 5), vec![point(4, 3, 5)]);
    assert_eq!(
        times_to_moving_percentage(&xwords, 1),
        vec![point(0, 1, 1), point(1, 0, 1), point(2, 1, 1), point(3, 1, 1), point(4, 0, 1)]
    );
}

#[test]
fn percentage_has_one_point_per_full_window() {
    let mut xwords = Vec::new();
    for week in 0..20 {
        let state = if week % 3 == 0 {
            SolveState::Gold { time: 60 }
        } else if week % 3 == 1 {
            SolveState::Solved
        } else {
            SolveState::Unsolved
        };
        xwords.push(weekly(week, state));
    }
    for window in 1..=20u32 {
        let points = times_to_moving_percentage(&xwords, window);
        assert_eq!(points.len(), 20 - window as usize + 1);
        for (k, p) in points.iter().enumerate() {
            assert!(p.total <= window as u64);
            assert!(0.0 <= value(p) && value(p) <= 1.0);
            assert_eq!(p.date, xwords[k + window as usize - 1].print_date);
            let expected = xwords[k..k + window as usize]
                .iter()
                .filter(|x| matches!(x.solve_state, SolveState::Gold { .. }))
                .count();
            assert_eq!(p.total, expected as u64);
        }
    }
}

#[test]
fn percentage_of_a_short_bucket_is_empty() {
    let xwords = vec![gold(0, 10), gold(1, 20)];
    assert!(times_to_moving_percentage(&xwords, 3).is_empty());
    assert!(times_to_moving_percentage(&Vec::new(), 1).is_empty());
}

#[test]
fn bucket_keeps_one_weekday_in_order() {
    let mut xwords = Vec::new();
    for offset in 0..21 {
        xwords.push(XwordSummary {
            print_date: Date::from_days(MONDAY + offset).unwrap(),
            solve_state: SolveState::Gold { time: offset as u32 },
        });
    }
    for day in 0..7u8 {
        let bucket = weekday_bucket(&xwords, day);
        assert_eq!(bucket.len(), 3);
        for (k, x) in bucket.iter().enumerate() {
            assert_eq!(x.print_date.days(), MONDAY + day as i32 + 7 * k as i32);
        }
    }
    assert!(weekday_bucket(&xwords, 7).is_empty());
}

#[test]
fn daily_series_are_split_by_weekday() {
    let mut xwords = Vec::new();
    for offset in 0..28 {
        let day = offset % 7;
        let state = if day == 0 {
            SolveState::Gold { time: 100 + offset as u32 }
        } else if day == 1 {
            SolveState::Solved
        } else {
            SolveState::Unsolved
        };
        xwords.push(XwordSummary { print_date: Date::from_days(MONDAY + offset).unwrap(), solve_state: state });
    }
    let averages = get_daily_moving_averages(&xwords, 2);
    assert_eq!(
        averages[0],
        vec![point(1, 100 + 107, 2), point(2, 107 + 114, 2), point(3, 114 + 121, 2)]
    );
    for day in 1..7 {
        assert!(averages[day].is_empty());
    }
    let rates = get_daily_moving_percentage(&xwords, 4);
    assert_eq!(rates.len(), 7);
    assert_eq!(rates[0], vec![point(3, 4, 4)]);
    for day in 1..7usize {
        assert_eq!(rates[day].len(), 1);
        assert_eq!(rates[day][0].total, 0);
        assert_eq!(rates[day][0].date.days(), MONDAY + 21 + day as i32);
    }
    assert!(get_daily_moving_percentage(&xwords, 5).iter().all(|series| series.is_empty()));
}

#[test]
fn report_uses_both_windows() {
    let mut xwords = Vec::new();
    for week in 0..60 {
        xwords.push(gold(week, 300));
    }
    let tracker = Tracker::new(Date::from_days(MONDAY).unwrap());
    let report = tracker.plot_stats(&xwords);
    assert_eq!(AVERAGE_WINDOW, 30);
    assert_eq!(PERCENTAGE_WINDOW, 50);
    assert_eq!(report.moving_averages[0].len(), 31);
    assert_eq!(report.moving_percentages[0].len(), 11);
    assert_eq!(report.moving_averages[0][0], point(29, 9000, 30));
    assert_eq!(report.moving_percentages[0][10], point(59, 50, 50));
    assert_eq!(report.moving_averages, get_daily_moving_averages(&xwords, 30));
    assert_eq!(report.moving_percentages, get_daily_moving_percentage(&xwords, 50));
}
