//! Solve outcomes per puzzle, and the bookkeeping of an update run.

use crate::database::DbError;
use crate::date::date_of_parsed;
use crate::date::parsed_days;
use crate::date::string_to_date;
use crate::date::Date;
use crate::nytimes::collect_history;
use crate::nytimes::collected;
use crate::nytimes::partition;
use crate::nytimes::range_count;
use crate::nytimes::range_end;
use crate::nytimes::range_start;
use crate::nytimes::resolve_details;
use crate::nytimes::resolved_all;
use crate::nytimes::DateRange;
use crate::nytimes::DetailFetch;
use crate::nytimes::NYTimesError;
use crate::nytimes::PuzzleDetailRef;
use crate::stats::get_daily_moving_averages;
use crate::stats::get_daily_moving_percentage;
use crate::stats::moving_average;
use crate::stats::moving_percentage;
use crate::stats::on_weekday;
use crate::stats::MovingStat;
use vstd::prelude::*;

verus! {

/// How far a puzzle was solved.
#[derive(Clone, Copy, Debug, PartialEq, Eq, Structural)]
pub enum SolveState {
    /// Not completed.
    Unsolved,
    /// Completed, without a recorded time.
    Solved,
    /// Completed in `time` seconds.
    Gold { time: u32 },
}

impl SolveState {
    /// The state that a stored pair of completion flag and time stands for.
    pub open spec fn of_solved_and_time(solved: bool, time: Option<u32>) -> SolveState {
        if !solved {
            SolveState::Unsolved
        } else {
            match time {
                Some(time) => SolveState::Gold { time },
                None => SolveState::Solved,
            }
        }
    }

    /// Builds the state from a completion flag and an optional time. A time
    /// without completion counts for nothing.
    pub fn from_solved_and_time(solved: bool, time: Option<u32>) -> (state: SolveState)
        ensures
            state == Self::of_solved_and_time(solved, time),
    {
        if solved {
            match time {
                Some(time) => SolveState::Gold { time },
                None => SolveState::Solved,
            }
        } else {
            SolveState::Unsolved
        }
    }

    /// Whether the puzzle was completed, with or without a time.
    pub open spec fn completed(self) -> bool {
        !(self is Unsolved)
    }

    /// Whether the puzzle was completed, with or without a time.
    pub fn is_completed(&self) -> (done: bool)
        ensures
            done == self.completed(),
    {
        match self {
            SolveState::Unsolved => false,
            _ => true,
        }
    }
}

/// The outcome for the puzzle printed on one day.
#[derive(Clone, Copy, Debug, PartialEq, Eq, Structural)]
pub struct XwordSummary {
    pub print_date: Date,
    pub solve_state: SolveState,
}

/// Day number of 2015-06-01, where the history starts by default.
pub const EARLIEST_SOLVE_DAYS: i32 = 735_750;

/// The window of the moving average solve time.
pub const AVERAGE_WINDOW: u32 = 30;

/// The window of the moving completion rate.
pub const PERCENTAGE_WINDOW: u32 = 50;

/// Why a run of the tracker failed.
#[derive(Debug, PartialEq, Eq)]
pub enum TrackerError {
    /// The remote history could not be had.
    NYTimesError(NYTimesError),
    /// The store failed.
    DbError(DbError),
    /// A configured date is no date.
    DateError,
}

/// The latest print date among the completed puzzles of the first `n`
/// outcomes, if one is completed.
pub open spec fn latest_solve_upto(xwords: Seq<XwordSummary>, n: nat) -> Option<Date>
    recommends
        n <= xwords.len(),
    decreases n,
{
    if n == 0 {
        None
    } else {
        let earlier = latest_solve_upto(xwords, (n - 1) as nat);
        let x = xwords[n - 1];
        if x.solve_state.completed() && (earlier matches Some(d) ==> d@ < x.print_date@) {
            Some(x.print_date)
        } else {
            earlier
        }
    }
}

/// The latest print date among the completed puzzles, if one is completed.
pub open spec fn latest_solve(xwords: Seq<XwordSummary>) -> Option<Date> {
    latest_solve_upto(xwords, xwords.len())
}

/// The last solve date after a batch of outcomes: the latest print date of
/// a completed puzzle in the batch, and the date before where the batch has
/// none.
pub open spec fn next_cursor(prior: Option<Date>, xwords: Seq<XwordSummary>) -> Option<Date> {
    match latest_solve(xwords) {
        Some(d) => Some(d),
        None => prior,
    }
}

/// The latest solve is a print date of a completed puzzle and no completed
/// puzzle has a later one; there is none exactly if no puzzle is completed.
pub proof fn lemma_latest_solve_is_max(xwords: Seq<XwordSummary>, n: nat)
    requires
        n <= xwords.len(),
    ensures
        match latest_solve_upto(xwords, n) {
            Some(d) => {
                &&& exists|i: int|
                    0 <= i < n && (#[trigger] xwords[i]).solve_state.completed()
                        && xwords[i].print_date == d
                &&& forall|i: int|
                    0 <= i < n && (#[trigger] xwords[i]).solve_state.completed()
                        ==> xwords[i].print_date@ <= d@
            },
            None => forall|i: int| 0 <= i < n ==> !(#[trigger] xwords[i]).solve_state.completed(),
        },
    decreases n,
{
    if n > 0 {
        lemma_latest_solve_is_max(xwords, (n - 1) as nat);
        let earlier = latest_solve_upto(xwords, (n - 1) as nat);
        let x = xwords[n - 1];
        if x.solve_state.completed() && (earlier matches Some(d) ==> d@ < x.print_date@) {
            assert(xwords[n - 1].solve_state.completed() && xwords[n - 1].print_date
                == x.print_date);
        } else if let Some(d) = earlier {
            let i = choose|i: int|
                0 <= i < n - 1 && (#[trigger] xwords[i]).solve_state.completed()
                    && xwords[i].print_date == d;
            assert(0 <= i < n && xwords[i].solve_state.completed() && xwords[i].print_date == d);
        }
    }
}

/// The cursor never moves back on a batch that holds a completed puzzle
/// printed on or after it, and a batch without a completed puzzle leaves it
/// where it was.
pub proof fn lemma_cursor_monotone(prior: Option<Date>, xwords: Seq<XwordSummary>)
    ensures
        (forall|i: int| 0 <= i < xwords.len() ==> !(#[trigger] xwords[i]).solve_state.completed())
            ==> next_cursor(prior, xwords) == prior,
        (exists|i: int|
            0 <= i < xwords.len() && (#[trigger] xwords[i]).solve_state.completed() && (
            prior matches Some(p) ==> p@ <= xwords[i].print_date@)) ==> (next_cursor(
            prior,
            xwords,
        ) matches Some(c) && (prior matches Some(p) ==> p@ <= c@)),
{
    lemma_latest_solve_is_max(xwords, xwords.len());
}

/// The last solve date after a batch of outcomes: it moves to the latest
/// print date of a completed puzzle, and stays where the batch has none.
pub fn update_last_solve(prior: Option<Date>, xwords: &Vec<XwordSummary>) -> (cursor: Option<
    Date,
>)
    ensures
        cursor == next_cursor(prior, xwords@),
{
    let mut latest: Option<Date> = None;
    let mut i: usize = 0;
    while i < xwords.len()
        invariant
            i <= xwords.len(),
            latest == latest_solve_upto(xwords@, i as nat),
        decreases xwords.len() - i,
    {
        let x = xwords[i];
        if x.solve_state.is_completed() {
            let later = match latest {
                Some(d) => d.days() < x.print_date.days(),
                None => true,
            };
            if later {
                latest = Some(x.print_date);
            }
        }
        i += 1;
    }
    match latest {
        Some(d) => Some(d),
        None => prior,
    }
}

/// The date from which the history is fetched: the last solve date, or the
/// configured earliest date where none is stored.
pub open spec fn span_start(last_solve: Option<Date>, earliest: Date) -> Date {
    match last_solve {
        Some(d) => d,
        None => earliest,
    }
}

/// The sub-ranges of the span from day `start` to day `end`, as pairs of
/// first and last day.
pub open spec fn history_ranges(start: int, end: int) -> Seq<(int, int)> {
    Seq::new(
        range_count(start, end) as nat,
        |k: int| (range_start(start, k), range_end(start, end, k)),
    )
}

/// Where an update run stands.
#[derive(Clone, Copy, Debug, PartialEq, Eq, Structural)]
pub enum UpdatePhase {
    Idle,
    FetchingHistory,
    ResolvingDetails,
    Persisting,
}

/// What happened outside the tracker.
#[derive(Debug, PartialEq, Eq)]
pub enum UpdateEvent {
    /// A run is asked for; `last_solve` is what the store holds, `today` the
    /// last day to fetch.
    Start { last_solve: Option<Date>, today: Date },
    /// The history requests have come back, one response per sub-range.
    HistoryFetched { pages: Vec<Result<Vec<PuzzleDetailRef>, NYTimesError>> },
    /// The detail lookups have come back, one per puzzle of the history.
    DetailsFetched { fetched: Vec<DetailFetch> },
    /// The store has written the batch, or failed to.
    Persisted { outcome: Result<(), DbError> },
}

/// What the caller is to do next.
#[derive(Debug, PartialEq, Eq)]
pub enum UpdateAction {
    /// Request the history of each sub-range.
    FetchHistory { ranges: Vec<DateRange> },
    /// Look up the detail of each puzzle that needs it.
    FetchDetails { puzzles: Vec<PuzzleDetailRef> },
    /// Write the outcomes and the last solve date in one transaction.
    Persist { xwords: Vec<XwordSummary>, last_solve: Option<Date> },
    /// The run is complete.
    Finished,
    /// The run has failed; nothing is to be written.
    Abort { error: TrackerError },
    /// The event does not belong to the phase; nothing has changed.
    Rejected,
}

/// What an action says, with its lists as sequences.
pub enum ActionView {
    FetchHistory { ranges: Seq<(int, int)> },
    FetchDetails { puzzles: Seq<PuzzleDetailRef> },
    Persist { xwords: Seq<XwordSummary>, last_solve: Option<Date> },
    Finished,
    Abort { error: TrackerError },
    Rejected,
}

impl View for UpdateAction {
    type V = ActionView;

    open spec fn view(&self) -> ActionView {
        match *self {
            UpdateAction::FetchHistory { ranges } => ActionView::FetchHistory {
                ranges: ranges@.map_values(|r: DateRange| r@),
            },
            UpdateAction::FetchDetails { puzzles } => ActionView::FetchDetails {
                puzzles: puzzles@,
            },
            UpdateAction::Persist { xwords, last_solve } => ActionView::Persist {
                xwords: xwords@,
                last_solve,
            },
            UpdateAction::Finished => ActionView::Finished,
            UpdateAction::Abort { error } => ActionView::Abort { error },
            UpdateAction::Rejected => ActionView::Rejected,
        }
    }
}

/// The state of a tracker between two events.
pub struct TrackerState {
    pub phase: UpdatePhase,
    pub last_solve: Option<Date>,
}

/// One step of an update run: the state after the event, and the action
/// that answers it.
///
/// A run starts from `Idle`, fetches the history from the last solve date
/// (or the earliest date) to today, resolves the details, and hands the
/// whole batch out to be written. Any failure ends the run in `Idle` with
/// `Abort`, before anything was handed out to be written. An event that does
/// not belong to the phase changes nothing.
pub open spec fn update_step(state: TrackerState, earliest: Date, event: UpdateEvent) -> (
    TrackerState,
    ActionView,
) {
    let idle = TrackerState { phase: UpdatePhase::Idle, last_solve: state.last_solve };
    match event {
        UpdateEvent::Start { last_solve, today } => if state.phase != UpdatePhase::Idle {
            (state, ActionView::Rejected)
        } else if span_start(last_solve, earliest)@ <= today@ {
            (
                TrackerState { phase: UpdatePhase::FetchingHistory, last_solve },
                ActionView::FetchHistory {
                    ranges: history_ranges(span_start(last_solve, earliest)@, today@),
                },
            )
        } else {
            (
                TrackerState { phase: UpdatePhase::Idle, last_solve },
                ActionView::Abort {
                    error: TrackerError::NYTimesError(NYTimesError::InvalidRangeError),
                },
            )
        },
        UpdateEvent::HistoryFetched { pages } => if state.phase != UpdatePhase::FetchingHistory {
            (state, ActionView::Rejected)
        } else {
            match collected(pages@) {
                Ok(puzzles) => (
                    TrackerState {
                        phase: UpdatePhase::ResolvingDetails,
                        last_solve: state.last_solve,
                    },
                    ActionView::FetchDetails { puzzles },
                ),
                Err(e) => (idle, ActionView::Abort { error: TrackerError::NYTimesError(e) }),
            }
        },
        UpdateEvent::DetailsFetched { fetched } => if state.phase
            != UpdatePhase::ResolvingDetails {
            (state, ActionView::Rejected)
        } else {
            match resolved_all(fetched@) {
                Ok(xwords) => (
                    TrackerState { phase: UpdatePhase::Persisting, last_solve: state.last_solve },
                    ActionView::Persist {
                        xwords,
                        last_solve: next_cursor(state.last_solve, xwords),
                    },
                ),
                Err(e) => (idle, ActionView::Abort { error: TrackerError::NYTimesError(e) }),
            }
        },
        UpdateEvent::Persisted { outcome } => if state.phase != UpdatePhase::Persisting {
            (state, ActionView::Rejected)
        } else {
            match outcome {
                Ok(_) => (idle, ActionView::Finished),
                Err(e) => (idle, ActionView::Abort { error: TrackerError::DbError(e) }),
            }
        },
    }
}

/// The two statistics of a report, each by day of the week (0 is Monday).
#[derive(Debug, PartialEq, Eq)]
pub struct StatsReport {
    pub moving_averages: Vec<Vec<MovingStat>>,
    pub moving_percentages: Vec<Vec<MovingStat>>,
}

/// Sequences update runs and computes reports. It holds no connection: the
/// caller fetches and stores what the actions ask for.
pub struct Tracker {
    earliest: Date,
    phase: UpdatePhase,
    last_solve: Option<Date>,
}

impl Tracker {
    /// The date from which the history is fetched while the store holds no
    /// last solve date.
    pub closed spec fn earliest(&self) -> Date {
        self.earliest
    }

    /// The phase and the last solve date that the run started from.
    pub closed spec fn state(&self) -> TrackerState {
        TrackerState { phase: self.phase, last_solve: self.last_solve }
    }

    /// An idle tracker whose history starts on `earliest`.
    pub fn new(earliest: Date) -> (tracker: Tracker)
        ensures
            tracker.earliest() == earliest,
            tracker.state() == (TrackerState { phase: UpdatePhase::Idle, last_solve: None }),
    {
        Tracker { earliest, phase: UpdatePhase::Idle, last_solve: None }
    }

    /// An idle tracker whose history starts on the date written in
    /// `earliest` as `YYYY-MM-DD`.
    pub fn starting_from(earliest: &str) -> (result: Result<Tracker, TrackerError>)
        ensures
            match result {
                Ok(tracker) => {
                    &&& date_of_parsed(parsed_days(earliest@)) == Some(tracker.earliest()@)
                    &&& tracker.state() == (TrackerState {
                        phase: UpdatePhase::Idle,
                        last_solve: None,
                    })
                },
                Err(e) => date_of_parsed(parsed_days(earliest@)).is_none() && e
                    == TrackerError::DateError,
            },
    {
        match string_to_date(earliest) {
            Ok(date) => Ok(Tracker::new(date)),
            Err(_) => Err(TrackerError::DateError),
        }
    }

    /// The phase of the current run.
    pub fn phase(&self) -> (phase: UpdatePhase)
        ensures
            phase == self.state().phase,
    {
        self.phase
    }

    /// The date from which the history is fetched for a store that holds
    /// `last_solve`.
    pub fn get_last_solve(&self, last_solve: Option<Date>) -> (start: Date)
        ensures
            start == span_start(last_solve, self.earliest()),
    {
        match last_solve {
            Some(date) => date,
            None => self.earliest,
        }
    }

    /// Takes one event of an update run and says what to do next.
    pub fn update_times(&mut self, event: UpdateEvent) -> (action: UpdateAction)
        ensures
            (final(self).state(), action@) == update_step(
                old(self).state(),
                old(self).earliest(),
                event,
            ),
            final(self).earliest() == old(self).earliest(),
    {
        match event {
            UpdateEvent::Start { last_solve, today } => {
                if self.phase != UpdatePhase::Idle {
                    return UpdateAction::Rejected;
                }
                self.last_solve = last_solve;
                let start = self.get_last_solve(last_solve);
                match partition(start, today) {
                    Ok(ranges) => {
                        proof {
                            assert(ranges@.map_values(|r: DateRange| r@) =~= history_ranges(
                                start@,
                                today@,
                            ));
                        }
                        self.phase = UpdatePhase::FetchingHistory;
                        UpdateAction::FetchHistory { ranges }
                    },
                    Err(e) => UpdateAction::Abort { error: TrackerError::NYTimesError(e) },
                }
            },
            UpdateEvent::HistoryFetched { pages } => {
                if self.phase != UpdatePhase::FetchingHistory {
                    return UpdateAction::Rejected;
                }
                match collect_history(&pages) {
                    Ok(puzzles) => {
                        self.phase = UpdatePhase::ResolvingDetails;
                        UpdateAction::FetchDetails { puzzles }
                    },
                    Err(e) => {
                        self.phase = UpdatePhase::Idle;
                        UpdateAction::Abort { error: TrackerError::NYTimesError(e) }
                    },
                }
            },
            UpdateEvent::DetailsFetched { fetched } => {
                if self.phase != UpdatePhase::ResolvingDetails {
                    return UpdateAction::Rejected;
                }
                match resolve_details(&fetched) {
                    Ok(xwords) => {
                        let last_solve = update_last_solve(self.last_solve, &xwords);
                        self.phase = UpdatePhase::Persisting;
                        UpdateAction::Persist { xwords, last_solve }
                    },
                    Err(e) => {
                        self.phase = UpdatePhase::Idle;
                        UpdateAction::Abort { error: TrackerError::NYTimesError(e) }
                    },
                }
            },
            UpdateEvent::Persisted { outcome } => {
                if self.phase != UpdatePhase::Persisting {
                    return UpdateAction::Rejected;
                }
                self.phase = UpdatePhase::Idle;
                match outcome {
                    Ok(_) => UpdateAction::Finished,
                    Err(e) => UpdateAction::Abort { error: TrackerError::DbError(e) },
                }
            },
        }
    }

    /// The statistics of a report over the stored history, which is to be
    /// in date order: the moving average solve time over 30 timed solves and
    /// the moving completion rate over 50 puzzles, each by day of the week.
    pub fn plot_stats(&self, xwords: &Vec<XwordSummary>) -> (report: StatsReport)
        ensures
            report.moving_averages.len() == 7,
            report.moving_percentages.len() == 7,
            forall|d: int|
                0 <= d < 7 ==> (#[trigger] report.moving_averages[d])@ == moving_average(
                    on_weekday(xwords@, d),
                    AVERAGE_WINDOW,
                ),
            forall|d: int|
                0 <= d < 7 ==> (#[trigger] report.moving_percentages[d])@ == moving_percentage(
                    on_weekday(xwords@, d),
                    PERCENTAGE_WINDOW,
                ),
    {
        StatsReport {
            moving_averages: get_daily_moving_averages(xwords, AVERAGE_WINDOW),
            moving_percentages: get_daily_moving_percentage(xwords, PERCENTAGE_WINDOW),
        }
    }
}

/// The date from which the history starts by default, 2015-06-01.
pub fn earliest_solve() -> (date: Date)
    ensures
        date@ == EARLIEST_SOLVE_DAYS,
{
    Date::from_days(EARLIEST_SOLVE_DAYS).unwrap()
}

/// Nothing is handed out to be written unless the whole batch was resolved:
/// a step answers with `Persist` only to the detail lookups of a run that is
/// resolving details, and only if none of them failed.
pub proof fn lemma_persist_needs_whole_batch(
    state: TrackerState,
    earliest: Date,
    event: UpdateEvent,
)
    requires
        update_step(state, earliest, event).1 is Persist,
    ensures
        state.phase == UpdatePhase::ResolvingDetails,
        event is DetailsFetched,
        resolved_all(event->fetched@) == Ok::<Seq<XwordSummary>, NYTimesError>(
            update_step(state, earliest, event).1->Persist_xwords,
        ),
        update_step(state, earliest, event).1->Persist_last_solve == next_cursor(
            state.last_solve,
            update_step(state, earliest, event).1->Persist_xwords,
        ),
{
}

/// A failure ends the run: after a step that answers with `Abort` the
/// tracker is idle, and its next step can only start a new run.
pub proof fn lemma_abort_ends_the_run(state: TrackerState, earliest: Date, event: UpdateEvent)
    requires
        update_step(state, earliest, event).1 is Abort,
    ensures
        update_step(state, earliest, event).0.phase == UpdatePhase::Idle,
        forall|next: UpdateEvent|
            !(next is Start) ==> (#[trigger] update_step(
                update_step(state, earliest, event).0,
                earliest,
                next,
            )).1 == ActionView::Rejected,
{
}

} // verus!
