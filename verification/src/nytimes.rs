//! The rules of the remote solve history: how a span of dates is cut into
//! requests, when a response counts, and how history records and detail
//! lookups are merged into solve outcomes. Sending the requests is left to
//! the caller.

use crate::date::date_of_parsed;
use crate::date::in_calendar;
use crate::date::is_date_text;
use crate::date::parsed_days;
use crate::date::string_to_date;
use crate::date::Date;
use crate::tracker::SolveState;
use crate::tracker::XwordSummary;
use vstd::prelude::*;

verus! {

/// The most days one history request may cover.
pub const MAX_SPAN_DAYS: i32 = 30;

/// The most requests that may be under way at once, for the history and for
/// the details each.
pub const CONCURRENT_REQUESTS: usize = 10;

/// The status of a response that counts.
pub const STATUS_OK: u16 = 200;

/// Why the remote history could not be had.
#[derive(Debug, PartialEq, Eq)]
pub enum NYTimesError {
    /// The span of dates ends before it starts.
    InvalidRangeError,
    /// A response without the success status, or one that could not be read.
    RemoteError { status: u16, body: String },
    /// A starred puzzle for which the service gave no solve time.
    MissingTimeError { puzzle_id: u32 },
    /// A record whose print date is no date.
    DateError,
}

impl NYTimesError {
    /// A copy of the error.
    pub fn duplicate(&self) -> (copy: NYTimesError)
        ensures
            copy == *self,
    {
        match self {
            NYTimesError::InvalidRangeError => NYTimesError::InvalidRangeError,
            NYTimesError::RemoteError { status, body } => NYTimesError::RemoteError {
                status: *status,
                body: body.clone(),
            },
            NYTimesError::MissingTimeError { puzzle_id } => NYTimesError::MissingTimeError {
                puzzle_id: *puzzle_id,
            },
            NYTimesError::DateError => NYTimesError::DateError,
        }
    }
}

/// A span of dates, both ends included.
#[derive(Clone, Copy, Debug, PartialEq, Eq, Structural)]
pub struct DateRange {
    pub start: Date,
    pub end: Date,
}

impl View for DateRange {
    type V = (int, int);

    /// The day numbers of the first and the last day.
    open spec fn view(&self) -> (int, int) {
        (self.start@, self.end@)
    }
}

impl DateRange {
    /// A range does not end before it starts.
    pub open spec fn wf(self) -> bool {
        self.start@ <= self.end@
    }

    /// The number of days in the range.
    pub open spec fn span(self) -> int {
        self.end@ - self.start@ + 1
    }
}

/// The number of sub-ranges that the days `start` to `end` are cut into.
pub open spec fn range_count(start: int, end: int) -> int {
    (end - start) / (MAX_SPAN_DAYS as int) + 1
}

/// The first day of sub-range `k`.
pub open spec fn range_start(start: int, k: int) -> int {
    start + MAX_SPAN_DAYS * k
}

/// The last day of sub-range `k`: 30 days are taken, or what is left.
pub open spec fn range_end(start: int, end: int, k: int) -> int {
    if range_start(start, k) + MAX_SPAN_DAYS - 1 < end {
        range_start(start, k) + MAX_SPAN_DAYS - 1
    } else {
        end
    }
}

/// Whether `ranges` cuts the days `start` to `end` into consecutive pieces:
/// the first begins at `start`, each next one begins the day after the one
/// before it ends, the last ends at `end`, and none is empty or longer than
/// 30 days.
pub open spec fn tiles(ranges: Seq<DateRange>, start: int, end: int) -> bool {
    &&& ranges.len() > 0
    &&& ranges[0].start@ == start
    &&& ranges[ranges.len() - 1].end@ == end
    &&& forall|k: int| 0 <= k < ranges.len() ==> 1 <= (#[trigger] ranges[k]).span() <= MAX_SPAN_DAYS
    &&& forall|k: int|
        0 <= k < ranges.len() - 1 ==> (#[trigger] ranges[k + 1]).start@ == ranges[k].end@ + 1
}

/// Cuts the span from `start` to `end`, both included, into consecutive
/// sub-ranges of 30 days, the last one holding what is left. A span of one
/// day gives one range of that day. A span that ends before it starts is
/// refused.
pub fn partition(start: Date, end: Date) -> (result: Result<Vec<DateRange>, NYTimesError>)
    ensures
        match result {
            Ok(ranges) => {
                &&& start@ <= end@
                &&& ranges.len() == range_count(start@, end@)
                &&& forall|k: int|
                    0 <= k < ranges.len() ==> {
                        &&& (#[trigger] ranges[k]).start@ == range_start(start@, k)
                        &&& ranges[k].end@ == range_end(start@, end@, k)
                    }
                &&& tiles(ranges@, start@, end@)
            },
            Err(e) => start@ > end@ && e == NYTimesError::InvalidRangeError,
        },
{
    let first: i32 = start.days();
    let last: i32 = end.days();
    if first > last {
        return Err(NYTimesError::InvalidRangeError);
    }
    let count: i32 = (last - first) / MAX_SPAN_DAYS + 1;
    let mut ranges: Vec<DateRange> = Vec::new();
    let mut k: i32 = 0;
    while k < count
        invariant
            first == start@,
            last == end@,
            in_calendar(first as int),
            in_calendar(last as int),
            first <= last,
            count == range_count(first as int, last as int),
            0 <= k <= count,
            ranges.len() == k,
            forall|j: int|
                0 <= j < k ==> {
                    &&& (#[trigger] ranges[j]).start@ == range_start(first as int, j)
                    &&& ranges[j].end@ == range_end(first as int, last as int, j)
                },
        decreases count - k,
    {
        let from: i32 = first + MAX_SPAN_DAYS * k;
        let to: i32 = if last - from > MAX_SPAN_DAYS - 1 {
            from + (MAX_SPAN_DAYS - 1)
        } else {
            last
        };
        let range = DateRange {
            start: Date::from_days(from).unwrap(),
            end: Date::from_days(to).unwrap(),
        };
        ranges.push(range);
        k += 1;
    }
    proof {
        lemma_ranges_tile(ranges@, start@, end@);
    }
    Ok(ranges)
}

/// The sub-ranges cover the span exactly: they are consecutive, do not
/// overlap, leave no day out, and none is longer than 30 days.
pub proof fn lemma_ranges_tile(ranges: Seq<DateRange>, start: int, end: int)
    requires
        start <= end,
        ranges.len() == range_count(start, end),
        forall|k: int|
            0 <= k < ranges.len() ==> {
                &&& (#[trigger] ranges[k]).start@ == range_start(start, k)
                &&& ranges[k].end@ == range_end(start, end, k)
            },
    ensures
        tiles(ranges, start, end),
{
    let n = ranges.len() as int;
    assert(ranges[0].start@ == range_start(start, 0));
    assert(ranges[n - 1].end@ == range_end(start, end, n - 1));
    assert forall|k: int| 0 <= k < n - 1 implies (#[trigger] ranges[k + 1]).start@ == ranges[k].end@
        + 1 by {
        assert(ranges[k].end@ == range_end(start, end, k));
    }
}

/// One puzzle of the remote history, before its solve time is known.
#[derive(Clone, Copy, Debug, PartialEq, Eq, Structural)]
pub struct PuzzleDetailRef {
    pub puzzle_id: u32,
    pub print_date: Date,
    pub solved: bool,
    pub has_star: bool,
}

impl PuzzleDetailRef {
    /// Builds the record from the fields of a history response. The print
    /// date arrives as `YYYY-MM-DD`; a text that is no such date is refused.
    pub fn from_record(print_date: &str, puzzle_id: u32, solved: bool, has_star: bool) -> (result:
        Result<PuzzleDetailRef, NYTimesError>)
        ensures
            match result {
                Ok(record) => {
                    &&& date_of_parsed(parsed_days(print_date@)) == Some(record.print_date@)
                    &&& record.puzzle_id == puzzle_id
                    &&& record.solved == solved
                    &&& record.has_star == has_star
                },
                Err(e) => date_of_parsed(parsed_days(print_date@)).is_none() && e
                    == NYTimesError::DateError,
            },
    {
        match string_to_date(print_date) {
            Ok(date) => Ok(PuzzleDetailRef { puzzle_id, print_date: date, solved, has_star }),
            Err(_) => Err(NYTimesError::DateError),
        }
    }

    /// Whether a detail lookup is owed for this puzzle: for every solved one.
    pub fn needs_detail(&self) -> (owed: bool)
        ensures
            owed == self.solved,
    {
        self.solved
    }
}

/// What a response is worth: its decoded content, if the status is the
/// success status and the body could be decoded; a remote error with the
/// status and the body otherwise.
pub open spec fn response_outcome<T>(status: u16, body: String, decoded: Option<T>) -> Result<
    T,
    NYTimesError,
> {
    match decoded {
        Some(content) if status == STATUS_OK => Ok(content),
        _ => Err(NYTimesError::RemoteError { status, body }),
    }
}

/// Judges a response of either endpoint. `decoded` is what was read from the
/// body, `None` where it could not be read.
pub fn check_response<T>(status: u16, body: String, decoded: Option<T>) -> (result: Result<
    T,
    NYTimesError,
>)
    ensures
        result == response_outcome(status, body, decoded),
{
    if status == STATUS_OK {
        match decoded {
            Some(content) => Ok(content),
            None => Err(NYTimesError::RemoteError { status, body }),
        }
    } else {
        Err(NYTimesError::RemoteError { status, body })
    }
}

/// One puzzle as a history response lists it: the print date as text, and
/// a star mark that is present for a starred solve.
#[derive(Debug, PartialEq, Eq)]
pub struct HistoryRecord {
    pub print_date: String,
    pub puzzle_id: u32,
    pub solved: bool,
    pub star: Option<String>,
}

/// Whether `record` is what the listed puzzle `listed` stands for.
pub open spec fn record_of(record: PuzzleDetailRef, listed: HistoryRecord) -> bool {
    &&& date_of_parsed(parsed_days(listed.print_date@)) == Some(record.print_date@)
    &&& record.puzzle_id == listed.puzzle_id
    &&& record.solved == listed.solved
    &&& record.has_star == listed.star.is_some()
}

/// The records of one history response. The response counts only with the
/// success status and a body that could be decoded; a listed puzzle whose
/// print date is no date fails the whole response.
pub fn read_history(status: u16, body: String, decoded: Option<Vec<HistoryRecord>>) -> (result:
    Result<Vec<PuzzleDetailRef>, NYTimesError>)
    ensures
        match result {
            Ok(records) => {
                &&& status == STATUS_OK
                &&& decoded.is_some()
                &&& records.len() == decoded.unwrap().len()
                &&& forall|i: int|
                    0 <= i < records.len() ==> record_of(
                        #[trigger] records[i],
                        decoded.unwrap()[i],
                    )
            },
            Err(e) => if status != STATUS_OK || decoded.is_none() {
                e == (NYTimesError::RemoteError { status, body })
            } else {
                &&& e == NYTimesError::DateError
                &&& exists|i: int|
                    0 <= i < decoded.unwrap().len() && !is_date_text(
                        (#[trigger] decoded.unwrap()[i]).print_date@,
                    )
            },
        },
{
    let listed = match check_response(status, body, decoded) {
        Ok(listed) => listed,
        Err(e) => {
            return Err(e);
        },
    };
    let mut records: Vec<PuzzleDetailRef> = Vec::new();
    let mut i: usize = 0;
    while i < listed.len()
        invariant
            status == STATUS_OK,
            decoded == Some(listed),
            i <= listed.len(),
            records.len() == i,
            forall|j: int| 0 <= j < i ==> record_of(#[trigger] records[j], listed[j]),
        decreases listed.len() - i,
    {
        let puzzle = &listed[i];
        match PuzzleDetailRef::from_record(
            puzzle.print_date.as_str(),
            puzzle.puzzle_id,
            puzzle.solved,
            puzzle.star.is_some(),
        ) {
            Ok(record) => {
                records.push(record);
            },
            Err(e) => {
                assert(!is_date_text(decoded.unwrap()[i as int].print_date@));
                return Err(e);
            },
        }
        i += 1;
    }
    Ok(records)
}

/// The first error among the outcomes from position `from` on, if any.
pub open spec fn first_error_from<T>(outcomes: Seq<Result<T, NYTimesError>>, from: int) -> Option<
    NYTimesError,
>
    decreases outcomes.len() - from,
{
    if from < 0 || from >= outcomes.len() {
        None
    } else {
        match outcomes[from] {
            Err(e) => Some(e),
            Ok(_) => first_error_from(outcomes, from + 1),
        }
    }
}

/// The first error among the outcomes, if any.
pub open spec fn first_error<T>(outcomes: Seq<Result<T, NYTimesError>>) -> Option<NYTimesError> {
    first_error_from(outcomes, 0)
}

/// Where the outcomes from `from` up to `at` are successes, the first error
/// from `from` on is the one at `at`, and there is none if `at` is the end.
pub proof fn lemma_first_error_at<T>(outcomes: Seq<Result<T, NYTimesError>>, from: int, at: int)
    requires
        0 <= from <= at <= outcomes.len(),
        forall|j: int| from <= j < at ==> (#[trigger] outcomes[j]) is Ok,
        at < outcomes.len() ==> outcomes[at] is Err,
    ensures
        first_error_from(outcomes, from) == if at < outcomes.len() {
            Some(outcomes[at]->Err_0)
        } else {
            None
        },
    decreases at - from,
{
    if from < at {
        assert(outcomes[from] is Ok);
        lemma_first_error_at(outcomes, from + 1, at);
    }
}

/// The outcomes fail as a whole exactly if one of them is an error.
pub proof fn lemma_first_error_none<T>(outcomes: Seq<Result<T, NYTimesError>>, from: int)
    requires
        0 <= from,
    ensures
        first_error_from(outcomes, from).is_none() <==> forall|j: int|
            from <= j < outcomes.len() ==> (#[trigger] outcomes[j]) is Ok,
    decreases outcomes.len() - from,
{
    if from < outcomes.len() {
        lemma_first_error_none(outcomes, from + 1);
        if outcomes[from] is Ok && first_error_from(outcomes, from + 1).is_none() {
            assert forall|j: int| from <= j < outcomes.len() implies (#[trigger] outcomes[j]) is Ok by {
                if j > from {
                    assert(from + 1 <= j);
                }
            }
        }
    }
}

/// The records of one history response, none for a failed one.
pub open spec fn page_records(page: Result<Vec<PuzzleDetailRef>, NYTimesError>) -> Seq<
    PuzzleDetailRef,
> {
    match page {
        Ok(records) => records@,
        Err(_) => Seq::empty(),
    }
}

/// The records of the first `n` history responses, one after the other.
pub open spec fn joined(pages: Seq<Result<Vec<PuzzleDetailRef>, NYTimesError>>, n: nat) -> Seq<
    PuzzleDetailRef,
>
    decreases n,
{
    if n == 0 {
        Seq::empty()
    } else {
        joined(pages, (n - 1) as nat) + page_records(pages[n - 1])
    }
}

/// The history that the responses amount to: the first error if any
/// response failed, all records in the order of the responses otherwise.
pub open spec fn collected(pages: Seq<Result<Vec<PuzzleDetailRef>, NYTimesError>>) -> Result<
    Seq<PuzzleDetailRef>,
    NYTimesError,
> {
    match first_error(pages) {
        Some(e) => Err(e),
        None => Ok(joined(pages, pages.len())),
    }
}

/// Flattens the responses of the sub-range requests into one history. One
/// failed response fails the whole: no partial history is given out.
pub fn collect_history(pages: &Vec<Result<Vec<PuzzleDetailRef>, NYTimesError>>) -> (result:
    Result<Vec<PuzzleDetailRef>, NYTimesError>)
    ensures
        match result {
            Ok(records) => collected(pages@) == Ok::<Seq<PuzzleDetailRef>, NYTimesError>(
                records@,
            ),
            Err(e) => collected(pages@) == Err::<Seq<PuzzleDetailRef>, NYTimesError>(e),
        },
{
    let mut records: Vec<PuzzleDetailRef> = Vec::new();
    let mut i: usize = 0;
    while i < pages.len()
        invariant
            i <= pages.len(),
            forall|j: int| 0 <= j < i ==> (#[trigger] pages@[j]) is Ok,
            records@ == joined(pages@, i as nat),
        decreases pages.len() - i,
    {
        match &pages[i] {
            Ok(page) => {
                let mut j: usize = 0;
                while j < page.len()
                    invariant
                        j <= page.len(),
                        records@ == joined(pages@, i as nat) + page@.take(j as int),
                    decreases page.len() - j,
                {
                    records.push(page[j]);
                    proof {
                        assert(page@.take(j + 1) =~= page@.take(j as int).push(page@[j as int]));
                    }
                    j += 1;
                }
                proof {
                    assert(page@.take(page.len() as int) =~= page@);
                }
            },
            Err(e) => {
                proof {
                    lemma_first_error_at(pages@, 0, i as int);
                }
                return Err(e.duplicate());
            },
        }
        i += 1;
    }
    proof {
        lemma_first_error_at(pages@, 0, pages.len() as int);
    }
    Ok(records)
}

/// A puzzle of the history together with what its detail lookup gave: the
/// solve time if the service reported one, or the error of the lookup. For
/// a puzzle that needs no lookup the outcome is not read.
#[derive(Debug, PartialEq, Eq)]
pub struct DetailFetch {
    pub puzzle: PuzzleDetailRef,
    pub outcome: Result<Option<u32>, NYTimesError>,
}

/// The solve outcome of one puzzle. An unsolved puzzle is `Unsolved`. A
/// solved one takes the lookup's error if the lookup failed; without a star
/// it is `Solved`; with a star it is `Gold` with the time found, and an
/// absent time is an error.
pub open spec fn resolved(puzzle: PuzzleDetailRef, outcome: Result<Option<u32>, NYTimesError>)
    -> Result<XwordSummary, NYTimesError> {
    if !puzzle.solved {
        Ok(XwordSummary { print_date: puzzle.print_date, solve_state: SolveState::Unsolved })
    } else {
        match outcome {
            Err(e) => Err(e),
            Ok(time) => if !puzzle.has_star {
                Ok(XwordSummary { print_date: puzzle.print_date, solve_state: SolveState::Solved })
            } else {
                match time {
                    Some(time) => Ok(
                        XwordSummary {
                            print_date: puzzle.print_date,
                            solve_state: SolveState::Gold { time },
                        },
                    ),
                    None => Err(NYTimesError::MissingTimeError { puzzle_id: puzzle.puzzle_id }),
                }
            },
        }
    }
}

/// Merges one history record with the outcome of its detail lookup.
pub fn process_xword_summary(
    puzzle: &PuzzleDetailRef,
    outcome: &Result<Option<u32>, NYTimesError>,
) -> (result: Result<XwordSummary, NYTimesError>)
    ensures
        result == resolved(*puzzle, *outcome),
{
    if !puzzle.solved {
        return Ok(
            XwordSummary { print_date: puzzle.print_date, solve_state: SolveState::Unsolved },
        );
    }
    match outcome {
        Err(e) => Err(e.duplicate()),
        Ok(time) => {
            if !puzzle.has_star {
                Ok(XwordSummary { print_date: puzzle.print_date, solve_state: SolveState::Solved })
            } else {
                match time {
                    Some(time) => Ok(
                        XwordSummary {
                            print_date: puzzle.print_date,
                            solve_state: SolveState::Gold { time: *time },
                        },
                    ),
                    None => Err(NYTimesError::MissingTimeError { puzzle_id: puzzle.puzzle_id }),
                }
            }
        },
    }
}

/// The outcome of each puzzle, in order.
pub open spec fn resolved_each(fetched: Seq<DetailFetch>) -> Seq<Result<XwordSummary, NYTimesError>> {
    Seq::new(fetched.len(), |i: int| resolved(fetched[i].puzzle, fetched[i].outcome))
}

/// The outcomes of a batch: the first error if one puzzle could not be
/// resolved, all outcomes in the order of the batch otherwise.
pub open spec fn resolved_all(fetched: Seq<DetailFetch>) -> Result<Seq<XwordSummary>, NYTimesError> {
    match first_error(resolved_each(fetched)) {
        Some(e) => Err(e),
        None => Ok(Seq::new(fetched.len(), |i: int| resolved_each(fetched)[i]->Ok_0)),
    }
}

/// Resolves a batch of puzzles. One failure fails the whole batch.
pub fn resolve_details(fetched: &Vec<DetailFetch>) -> (result: Result<
    Vec<XwordSummary>,
    NYTimesError,
>)
    ensures
        match result {
            Ok(xwords) => resolved_all(fetched@) == Ok::<Seq<XwordSummary>, NYTimesError>(xwords@),
            Err(e) => resolved_all(fetched@) == Err::<Seq<XwordSummary>, NYTimesError>(e),
        },
{
    let ghost each = resolved_each(fetched@);
    let mut xwords: Vec<XwordSummary> = Vec::new();
    let mut i: usize = 0;
    while i < fetched.len()
        invariant
            i <= fetched.len(),
            each == resolved_each(fetched@),
            xwords.len() == i,
            forall|j: int| 0 <= j < i ==> (#[trigger] each[j]) is Ok,
            forall|j: int| 0 <= j < i ==> (#[trigger] xwords@[j]) == each[j]->Ok_0,
        decreases fetched.len() - i,
    {
        match process_xword_summary(&fetched[i].puzzle, &fetched[i].outcome) {
            Ok(xword) => {
                xwords.push(xword);
            },
            Err(e) => {
                proof {
                    lemma_first_error_at(each, 0, i as int);
                }
                return Err(e);
            },
        }
        i += 1;
    }
    proof {
        lemma_first_error_at(each, 0, fetched.len() as int);
        assert(xwords@ =~= Seq::new(fetched@.len(), |i: int| resolved_each(fetched@)[i]->Ok_0));
    }
    Ok(xwords)
}

} // verus!
