//! Sliding-window statistics over a date-ordered solve history.
//!
//! Both statistics are computed per day of the week. A point of a series is
//! an exact fraction, `total / window`: for the completion rate the number
//! of timed solves among the last `window` puzzles of that weekday, for the
//! average the sum of the last `window` recorded times.

use crate::date::weekday_number;
use crate::date::Date;
use crate::tracker::SolveState;
use crate::tracker::XwordSummary;
use vstd::prelude::*;

verus! {

/// One point of a moving statistic: the value `total / window` on `date`.
#[derive(Clone, Copy, Debug, PartialEq, Eq, Structural)]
pub struct MovingStat {
    pub date: Date,
    pub total: u64,
    pub window: u32,
}

/// Whether the puzzle was solved with a recorded time.
pub open spec fn is_gold(x: XwordSummary) -> bool {
    x.solve_state is Gold
}

/// The recorded time of a timed solve, 0 for anything else.
pub open spec fn gold_time(x: XwordSummary) -> nat {
    match x.solve_state {
        SolveState::Gold { time } => time as nat,
        _ => 0,
    }
}

/// The number of timed solves among the first `n` observations.
pub open spec fn gold_count(obs: Seq<XwordSummary>, n: nat) -> nat
    recommends
        n <= obs.len(),
    decreases n,
{
    if n == 0 {
        0
    } else {
        gold_count(obs, (n - 1) as nat) + if is_gold(obs[n - 1]) { 1nat } else { 0nat }
    }
}

/// The sum of the times of the last `k` timed solves among the first `n`
/// observations (of all of them, where there are fewer than `k`).
pub open spec fn trailing_gold_total(obs: Seq<XwordSummary>, n: nat, k: nat) -> nat
    recommends
        n <= obs.len(),
    decreases n,
{
    if n == 0 || k == 0 {
        0
    } else if is_gold(obs[n - 1]) {
        gold_time(obs[n - 1]) + trailing_gold_total(obs, (n - 1) as nat, (k - 1) as nat)
    } else {
        trailing_gold_total(obs, (n - 1) as nat, k)
    }
}

/// The completion-rate point for the window that starts at observation `k`.
pub open spec fn percentage_point(obs: Seq<XwordSummary>, window: u32, k: int) -> MovingStat {
    MovingStat {
        date: obs[k + window - 1].print_date,
        total: (gold_count(obs, (k + window) as nat) - gold_count(obs, k as nat)) as u64,
        window,
    }
}

/// The moving completion rate of one weekday's observations: one point per
/// full window of `window` consecutive observations, dated by the window's
/// last observation.
pub open spec fn moving_percentage(obs: Seq<XwordSummary>, window: u32) -> Seq<MovingStat> {
    if obs.len() < window {
        Seq::empty()
    } else {
        Seq::new((obs.len() - window + 1) as nat, |k: int| percentage_point(obs, window, k))
    }
}

/// The average point at observation `i`: the last `window` recorded times up
/// to and including that observation.
pub open spec fn average_point(obs: Seq<XwordSummary>, window: u32, i: int) -> MovingStat {
    MovingStat {
        date: obs[i].print_date,
        total: trailing_gold_total(obs, (i + 1) as nat, window as nat) as u64,
        window,
    }
}

/// The moving average over the first `n` observations: a point for each
/// observation by which `window` timed solves have been seen.
pub open spec fn moving_average_prefix(obs: Seq<XwordSummary>, window: u32, n: nat) -> Seq<
    MovingStat,
>
    recommends
        n <= obs.len(),
    decreases n,
{
    if n == 0 {
        Seq::empty()
    } else {
        let earlier = moving_average_prefix(obs, window, (n - 1) as nat);
        if gold_count(obs, n) >= window {
            earlier.push(average_point(obs, window, n - 1))
        } else {
            earlier
        }
    }
}

/// The moving average solve time of one weekday's observations.
pub open spec fn moving_average(obs: Seq<XwordSummary>, window: u32) -> Seq<MovingStat> {
    moving_average_prefix(obs, window, obs.len())
}

/// Between two prefixes the count of timed solves grows by no more than the
/// number of observations added.
pub proof fn lemma_gold_count_between(obs: Seq<XwordSummary>, a: nat, b: nat)
    requires
        a <= b,
    ensures
        gold_count(obs, a) <= gold_count(obs, b) <= gold_count(obs, a) + (b - a),
    decreases b,
{
    if a < b {
        lemma_gold_count_between(obs, a, (b - 1) as nat);
    }
}

/// A total over `k` times is at most `k` times the largest time.
pub proof fn lemma_trailing_total_bound(obs: Seq<XwordSummary>, n: nat, k: nat)
    ensures
        trailing_gold_total(obs, n, k) <= k * 0xFFFF_FFFF,
    decreases n,
{
    if n != 0 && k != 0 {
        if is_gold(obs[n - 1]) {
            lemma_trailing_total_bound(obs, (n - 1) as nat, (k - 1) as nat);
        } else {
            lemma_trailing_total_bound(obs, (n - 1) as nat, k);
        }
    }
}

/// Asking for more times than there are timed solves changes nothing.
pub proof fn lemma_trailing_total_saturates(obs: Seq<XwordSummary>, n: nat, k: nat, m: nat)
    requires
        gold_count(obs, n) <= k <= m,
    ensures
        trailing_gold_total(obs, n, k) == trailing_gold_total(obs, n, m),
    decreases n,
{
    if n != 0 {
        if is_gold(obs[n - 1]) {
            lemma_trailing_total_saturates(obs, (n - 1) as nat, (k - 1) as nat, (m - 1) as nat);
        } else {
            lemma_trailing_total_saturates(obs, (n - 1) as nat, k, m);
        }
    }
}

/// Where observation `oldest` is the `k`-th timed solve counted back from
/// observation `n`, the last `k` times are the last `k - 1` and its own.
pub proof fn lemma_trailing_total_oldest(obs: Seq<XwordSummary>, oldest: nat, n: nat, k: nat)
    requires
        oldest < n <= obs.len(),
        k >= 1,
        is_gold(obs[oldest as int]),
        gold_count(obs, n) - gold_count(obs, oldest) == k,
    ensures
        trailing_gold_total(obs, n, k) == trailing_gold_total(obs, n, (k - 1) as nat) + gold_time(
            obs[oldest as int],
        ),
    decreases n,
{
    let before = (n - 1) as nat;
    assert(trailing_gold_total(obs, before, 0) == 0);
    if oldest < before {
        lemma_gold_count_between(obs, oldest + 1, before);
        assert(gold_count(obs, oldest + 1) == gold_count(obs, oldest) + 1);
        if is_gold(obs[n - 1]) {
            lemma_trailing_total_oldest(obs, oldest, before, (k - 1) as nat);
        } else {
            lemma_trailing_total_oldest(obs, oldest, before, k);
        }
    }
}

/// Whether the puzzle was solved with a recorded time.
fn has_time(x: &XwordSummary) -> (gold: bool)
    ensures
        gold == is_gold(*x),
{
    match x.solve_state {
        SolveState::Gold { .. } => true,
        _ => false,
    }
}

/// The moving completion rate of one weekday's observations, in date order:
/// for each run of `window` consecutive observations one point, dated by the
/// run's last observation, whose total counts the timed solves in the run.
/// With fewer than `window` observations there are no points.
pub fn times_to_moving_percentage(xwords: &Vec<XwordSummary>, window: u32) -> (points: Vec<
    MovingStat,
>)
    requires
        window > 0,
    ensures
        points@ == moving_percentage(xwords@, window),
        xwords.len() >= window ==> points.len() == xwords.len() - window + 1,
        forall|j: int| 0 <= j < points.len() ==> (#[trigger] points[j]).total <= window,
{
    let ghost obs = xwords@;
    let n = xwords.len();
    let w = window as usize;
    let mut result: Vec<MovingStat> = Vec::new();
    if n < w {
        return result;
    }
    let mut count: u64 = 0;
    let mut i: usize = 0;
    while i < w
        invariant
            obs == xwords@,
            n == xwords.len(),
            i <= w <= n,
            count == gold_count(obs, i as nat),
            count <= i,
        decreases w - i,
    {
        if has_time(&xwords[i]) {
            count += 1;
        }
        i += 1;
    }
    result.push(MovingStat { date: xwords[w - 1].print_date, total: count, window });
    let mut next: usize = w;
    while next < n
        invariant
            obs == xwords@,
            n == xwords.len(),
            w == window,
            0 < w <= next <= n,
            count == gold_count(obs, next as nat) - gold_count(obs, (next - w) as nat),
            count <= w,
            result@ =~= Seq::new((next - w + 1) as nat, |k: int| percentage_point(obs, window, k)),
            forall|j: int| 0 <= j < result.len() ==> (#[trigger] result[j]).total <= window,
        decreases n - next,
    {
        let leaving: usize = next - w;
        proof {
            lemma_gold_count_between(obs, (leaving + 1) as nat, next as nat);
            lemma_gold_count_between(obs, (leaving + 1) as nat, (next + 1) as nat);
        }
        if has_time(&xwords[next]) {
            count += 1;
        }
        if has_time(&xwords[leaving]) {
            count -= 1;
        }
        result.push(MovingStat { date: xwords[next].print_date, total: count, window });
        next += 1;
    }
    result
}

/// The moving average solve time of one weekday's observations, in date
/// order. Only timed solves enter the window; from the observation that
/// brings the `window`-th timed solve on, every observation gives a point
/// whose total is the sum of the last `window` recorded times.
pub fn times_to_moving_average(xwords: &Vec<XwordSummary>, window: u32) -> (points: Vec<
    MovingStat,
>)
    requires
        window > 0,
    ensures
        points@ == moving_average(xwords@, window),
{
    let ghost obs = xwords@;
    let n = xwords.len();
    let mut total: u64 = 0;
    let mut count: u32 = 0;
    let mut oldest: usize = 0;
    let mut result: Vec<MovingStat> = Vec::new();
    let mut i: usize = 0;
    while i < n
        invariant
            obs == xwords@,
            n == xwords.len(),
            window > 0,
            oldest <= i <= n,
            count <= window,
            count == if gold_count(obs, i as nat) < window {
                gold_count(obs, i as nat)
            } else {
                window as nat
            },
            gold_count(obs, i as nat) - gold_count(obs, oldest as nat) == count,
            total == trailing_gold_total(obs, i as nat, window as nat),
            result@ == moving_average_prefix(obs, window, i as nat),
        decreases n - i,
    {
        proof {
            lemma_trailing_total_bound(obs, i as nat, (window - 1) as nat);
        }
        match xwords[i].solve_state {
            SolveState::Gold { time } => {
                if count < window {
                    proof {
                        lemma_trailing_total_saturates(
                            obs,
                            i as nat,
                            (window - 1) as nat,
                            window as nat,
                        );
                    }
                    count += 1;
                } else {
                    while !has_time(&xwords[oldest])
                        invariant
                            obs == xwords@,
                            oldest < i <= xwords.len(),
                            gold_count(obs, i as nat) - gold_count(obs, oldest as nat) == window,
                            window > 0,
                        decreases i - oldest,
                    {
                        oldest += 1;
                    }
                    proof {
                        lemma_trailing_total_oldest(obs, oldest as nat, i as nat, window as nat);
                    }
                    match xwords[oldest].solve_state {
                        SolveState::Gold { time: leaving } => {
                            total -= leaving as u64;
                        },
                        _ => {},
                    }
                    oldest += 1;
                }
                total += time as u64;
            },
            _ => {},
        }
        if count == window {
            result.push(MovingStat { date: xwords[i].print_date, total, window });
        }
        i += 1;
    }
    result
}

/// The test that picks the puzzles printed on weekday `day` (0 is Monday).
pub open spec fn printed_on(day: int) -> spec_fn(XwordSummary) -> bool {
    |x: XwordSummary| weekday_number(x.print_date@) == day
}

/// The observations printed on weekday `day`, in the order they came in.
pub open spec fn on_weekday(xwords: Seq<XwordSummary>, day: int) -> Seq<XwordSummary> {
    xwords.filter(printed_on(day))
}

/// Picks the puzzles printed on weekday `day` (0 is Monday), keeping their
/// order.
pub fn weekday_bucket(xwords: &Vec<XwordSummary>, day: u8) -> (bucket: Vec<XwordSummary>)
    ensures
        bucket@ == on_weekday(xwords@, day as int),
{
    let mut bucket: Vec<XwordSummary> = Vec::new();
    let mut i: usize = 0;
    proof {
        assert(xwords@.take(0) =~= Seq::empty());
    }
    while i < xwords.len()
        invariant
            i <= xwords.len(),
            bucket@ == on_weekday(xwords@.take(i as int), day as int),
        decreases xwords.len() - i,
    {
        let x = xwords[i];
        proof {
            assert(xwords@.take(i + 1) =~= xwords@.take(i as int).push(x));
            xwords@.take(i as int).lemma_filter_push(x, printed_on(day as int));
        }
        if x.print_date.weekday() == day {
            bucket.push(x);
        }
        i += 1;
    }
    proof {
        assert(xwords@.take(xwords.len() as int) =~= xwords@);
    }
    bucket
}

/// The moving completion rate for each day of the week: entry `d` of the
/// result (0 is Monday, 6 is Sunday) is the series of the puzzles printed on
/// that weekday, taken in the order of `xwords`. A weekday with fewer than
/// `window` puzzles has an empty series.
pub fn get_daily_moving_percentage(xwords: &Vec<XwordSummary>, window: u32) -> (series: Vec<
    Vec<MovingStat>,
>)
    requires
        window > 0,
    ensures
        series.len() == 7,
        forall|d: int|
            0 <= d < 7 ==> (#[trigger] series[d])@ == moving_percentage(
                on_weekday(xwords@, d),
                window,
            ),
{
    let mut series: Vec<Vec<MovingStat>> = Vec::new();
    let mut day: u8 = 0;
    while day < 7
        invariant
            window > 0,
            day <= 7,
            series.len() == day,
            forall|d: int|
                0 <= d < day ==> (#[trigger] series[d])@ == moving_percentage(
                    on_weekday(xwords@, d),
                    window,
                ),
        decreases 7 - day,
    {
        let bucket = weekday_bucket(xwords, day);
        series.push(times_to_moving_percentage(&bucket, window));
        day += 1;
    }
    series
}

/// The moving average solve time for each day of the week: entry `d` of the
/// result (0 is Monday, 6 is Sunday) is the series of the puzzles printed on
/// that weekday, taken in the order of `xwords`.
pub fn get_daily_moving_averages(xwords: &Vec<XwordSummary>, window: u32) -> (series: Vec<
    Vec<MovingStat>,
>)
    requires
        window > 0,
    ensures
        series.len() == 7,
        forall|d: int|
            0 <= d < 7 ==> (#[trigger] series[d])@ == moving_average(
                on_weekday(xwords@, d),
                window,
            ),
{
    let mut series: Vec<Vec<MovingStat>> = Vec::new();
    let mut day: u8 = 0;
    while day < 7
        invariant
            window > 0,
            day <= 7,
            series.len() == day,
            forall|d: int|
                0 <= d < day ==> (#[trigger] series[d])@ == moving_average(
                    on_weekday(xwords@, d),
                    window,
                ),
        decreases 7 - day,
    {
        let bucket = weekday_bucket(xwords, day);
        series.push(times_to_moving_average(&bucket, window));
        day += 1;
    }
    series
}

/// A bucket with at least `window` observations has one completion-rate
/// point per full window, and every point is a rate between 0 and 1: its
/// total counts the timed solves of its window and is at most `window`.
pub proof fn lemma_moving_percentage_shape(obs: Seq<XwordSummary>, window: u32)
    requires
        window > 0,
        obs.len() >= window,
    ensures
        moving_percentage(obs, window).len() == obs.len() - window + 1,
        forall|j: int|
            0 <= j < moving_percentage(obs, window).len() ==> {
                let point = #[trigger] moving_percentage(obs, window)[j];
                &&& point.window == window
                &&& point.date == obs[j + window - 1].print_date
                &&& point.total == gold_count(obs, (j + window) as nat) - gold_count(obs, j as nat)
                &&& 0 <= point.total <= window
            },
{
    assert forall|j: int| 0 <= j < moving_percentage(obs, window).len() implies {
        let point = #[trigger] moving_percentage(obs, window)[j];
        &&& point.window == window
        &&& point.date == obs[j + window - 1].print_date
        &&& point.total == gold_count(obs, (j + window) as nat) - gold_count(obs, j as nat)
        &&& 0 <= point.total <= window
    } by {
        lemma_gold_count_between(obs, j as nat, (j + window) as nat);
    }
}

/// No average is given before `window` timed solves have been seen: while
/// the first `n` observations hold fewer, the series over them is empty.
pub proof fn lemma_moving_average_waits(obs: Seq<XwordSummary>, window: u32, n: nat)
    requires
        gold_count(obs, n) < window,
    ensures
        moving_average_prefix(obs, window, n).len() == 0,
    decreases n,
{
    if n > 0 {
        lemma_gold_count_between(obs, (n - 1) as nat, n);
        lemma_moving_average_waits(obs, window, (n - 1) as nat);
    }
}

/// The series starts at the observation that brings the `window`-th timed
/// solve and has one point for it and for every observation after it: where
/// `first` is that observation, the series is the points of `first`,
/// `first + 1` and so on to the last observation.
pub proof fn lemma_moving_average_starts(obs: Seq<XwordSummary>, window: u32, first: nat)
    requires
        first < obs.len(),
        gold_count(obs, first) < window <= gold_count(obs, first + 1),
    ensures
        moving_average(obs, window) =~= Seq::new(
            (obs.len() - first) as nat,
            |k: int| average_point(obs, window, first + k),
        ),
{
    lemma_moving_average_from(obs, window, first, obs.len());
}

proof fn lemma_moving_average_from(obs: Seq<XwordSummary>, window: u32, first: nat, n: nat)
    requires
        first < n <= obs.len(),
        gold_count(obs, first) < window <= gold_count(obs, first + 1),
    ensures
        moving_average_prefix(obs, window, n) =~= Seq::new(
            (n - first) as nat,
            |k: int| average_point(obs, window, first + k),
        ),
    decreases n,
{
    lemma_gold_count_between(obs, first + 1, n);
    if n == first + 1 {
        lemma_moving_average_waits(obs, window, first);
    } else {
        lemma_moving_average_from(obs, window, first, (n - 1) as nat);
    }
}

/// Whether every observation is a solve timed at `time` seconds.
pub open spec fn all_gold_at(obs: Seq<XwordSummary>, time: u32) -> bool {
    forall|i: int| 0 <= i < obs.len() ==> (#[trigger] obs[i]).solve_state == SolveState::Gold {
        time,
    }
}

proof fn lemma_all_gold_totals(obs: Seq<XwordSummary>, time: u32, n: nat, k: nat)
    requires
        all_gold_at(obs, time),
        n <= obs.len(),
    ensures
        gold_count(obs, n) == n,
        trailing_gold_total(obs, n, k) == time * (if n < k { n } else { k }),
    decreases n,
{
    if n > 0 {
        let x = obs[n - 1];
        assert(is_gold(x) && gold_time(x) == time);
        lemma_all_gold_totals(obs, time, (n - 1) as nat, k);
        if k > 0 {
            lemma_all_gold_totals(obs, time, (n - 1) as nat, (k - 1) as nat);
            let m: int = if n - 1 < k - 1 { n - 1 } else { k - 1 };
            assert(time + time * m == time * (m + 1)) by (nonlinear_arith);
        } else {
            assert(time * 0 == 0);
        }
    } else {
        assert(time * 0 == 0);
    }
}

proof fn lemma_constant_time_prefix(obs: Seq<XwordSummary>, window: u32, time: u32, n: nat)
    requires
        window > 0,
        all_gold_at(obs, time),
        n <= obs.len(),
    ensures
        moving_average_prefix(obs, window, n).len() == if n < window {
            0
        } else {
            n - window + 1
        },
        forall|j: int|
            0 <= j < moving_average_prefix(obs, window, n).len() ==> {
                let point = #[trigger] moving_average_prefix(obs, window, n)[j];
                &&& point.total == time * window
                &&& point.window == window
                &&& point.date == obs[j + window - 1].print_date
            },
    decreases n,
{
    if n > 0 {
        lemma_constant_time_prefix(obs, window, time, (n - 1) as nat);
        lemma_all_gold_totals(obs, time, n, window as nat);
        lemma_all_gold_totals(obs, time, (n - 1) as nat, window as nat);
        assert(time * window <= 0xFFFF_FFFF * 0xFFFF_FFFF) by (nonlinear_arith)
            requires
                0 <= time <= 0xFFFF_FFFF,
                0 <= window <= 0xFFFF_FFFF,
        ;
    }
}

/// Where every observation is a solve timed at `time` seconds, every average
/// is `time`: each point's total is `time * window`. There is one point per
/// observation from the `window`-th on.
pub proof fn lemma_constant_time_average(obs: Seq<XwordSummary>, window: u32, time: u32)
    requires
        window > 0,
        all_gold_at(obs, time),
    ensures
        moving_average(obs, window).len() == if obs.len() < window {
            0
        } else {
            obs.len() - window + 1
        },
        forall|j: int|
            0 <= j < moving_average(obs, window).len() ==> {
                let point = #[trigger] moving_average(obs, window)[j];
                &&& point.total == time * window
                &&& point.window == window
                &&& point.date == obs[j + window - 1].print_date
            },
{
    lemma_constant_time_prefix(obs, window, time, obs.len());
}

} // verus!
