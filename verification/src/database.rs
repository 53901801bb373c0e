//! The shape in which solve outcomes are stored: one row per print date,
//! with the date as `YYYY-MM-DD`, a completion flag and an optional time,
//! and the last solve date under a key of its own. Reading and writing the
//! store is left to the caller.

use crate::date::date_of_parsed;
use crate::date::date_text;
use crate::date::date_to_string;
use crate::date::is_date_text;
use crate::date::parsed_days;
use crate::date::string_to_date;
use crate::date::Date;
use crate::tracker::SolveState;
use crate::tracker::XwordSummary;
use vstd::prelude::*;

verus! {

/// Why the store could not be read or written.
#[derive(Debug, PartialEq, Eq)]
pub enum DbError {
    /// The store itself failed; the message is its own.
    DbError { message: String },
    /// A stored date is no date.
    DateError,
}

impl DbError {
    /// A copy of the error.
    pub fn duplicate(&self) -> (copy: DbError)
        ensures
            copy == *self,
    {
        match self {
            DbError::DbError { message } => DbError::DbError { message: message.clone() },
            DbError::DateError => DbError::DateError,
        }
    }
}

/// One stored solve outcome.
#[derive(Debug, PartialEq, Eq)]
pub struct XwordRow {
    pub date: String,
    pub solved: bool,
    pub time: Option<u32>,
}

/// The time that is stored for a solve state: that of a timed solve.
pub open spec fn stored_time(state: SolveState) -> Option<u32> {
    match state {
        SolveState::Gold { time } => Some(time),
        _ => None,
    }
}

/// The row under which an outcome is stored. Rows are keyed by their date,
/// so storing an outcome replaces what was stored for its print date.
pub fn row_of(xword: &XwordSummary) -> (row: XwordRow)
    ensures
        row.date@ == date_text(xword.print_date@),
        row.solved == xword.solve_state.completed(),
        row.time == stored_time(xword.solve_state),
{
    let date = date_to_string(xword.print_date);
    match xword.solve_state {
        SolveState::Unsolved => XwordRow { date, solved: false, time: None },
        SolveState::Solved => XwordRow { date, solved: true, time: None },
        SolveState::Gold { time } => XwordRow { date, solved: true, time: Some(time) },
    }
}

/// The rows of a batch of outcomes, in order.
pub fn rows_of(xwords: &Vec<XwordSummary>) -> (rows: Vec<XwordRow>)
    ensures
        rows.len() == xwords.len(),
        forall|i: int|
            0 <= i < rows.len() ==> {
                &&& (#[trigger] rows[i]).date@ == date_text(xwords[i].print_date@)
                &&& rows[i].solved == xwords[i].solve_state.completed()
                &&& rows[i].time == stored_time(xwords[i].solve_state)
            },
{
    let mut rows: Vec<XwordRow> = Vec::new();
    let mut i: usize = 0;
    while i < xwords.len()
        invariant
            i <= xwords.len(),
            rows.len() == i,
            forall|j: int|
                0 <= j < i ==> {
                    &&& (#[trigger] rows[j]).date@ == date_text(xwords[j].print_date@)
                    &&& rows[j].solved == xwords[j].solve_state.completed()
                    &&& rows[j].time == stored_time(xwords[j].solve_state)
                },
        decreases xwords.len() - i,
    {
        rows.push(row_of(&xwords[i]));
        i += 1;
    }
    rows
}

/// The outcome that a stored row stands for. A row whose date is no date is
/// refused.
pub fn summary_of_row(date: &str, solved: bool, time: Option<u32>) -> (result: Result<
    XwordSummary,
    DbError,
>)
    ensures
        match result {
            Ok(xword) => {
                &&& date_of_parsed(parsed_days(date@)) == Some(xword.print_date@)
                &&& xword.solve_state == SolveState::of_solved_and_time(solved, time)
            },
            Err(e) => date_of_parsed(parsed_days(date@)).is_none() && e == DbError::DateError,
        },
{
    match string_to_date(date) {
        Ok(print_date) => Ok(
            XwordSummary {
                print_date,
                solve_state: SolveState::from_solved_and_time(solved, time),
            },
        ),
        Err(_) => Err(DbError::DateError),
    }
}

/// The last solve date that the store holds, from the text stored for it;
/// none where nothing is stored. A stored text that is no date is refused.
pub fn last_solve_of(stored: Option<&str>) -> (result: Result<Option<Date>, DbError>)
    ensures
        match result {
            Ok(None) => stored.is_none(),
            Ok(Some(date)) => stored.is_some() && date_of_parsed(parsed_days(stored.unwrap()@))
                == Some(date@),
            Err(e) => stored.is_some() && date_of_parsed(parsed_days(stored.unwrap()@)).is_none()
                && e == DbError::DateError,
        },
{
    match stored {
        None => Ok(None),
        Some(text) => match string_to_date(text) {
            Ok(date) => Ok(Some(date)),
            Err(_) => Err(DbError::DateError),
        },
    }
}

/// A stored row keeps the solve state: reading back the flag and the time
/// that were stored for a state gives that state.
pub proof fn lemma_row_keeps_state(state: SolveState)
    ensures
        SolveState::of_solved_and_time(state.completed(), stored_time(state)) == state,
{
}

/// The outcomes that stored rows stand for, in the order of the rows. One
/// row whose date is no date fails the whole.
pub fn summaries_of_rows(rows: &Vec<XwordRow>) -> (result: Result<Vec<XwordSummary>, DbError>)
    ensures
        match result {
            Ok(xwords) => {
                &&& xwords.len() == rows.len()
                &&& forall|i: int|
                    0 <= i < rows.len() ==> {
                        &&& date_of_parsed(parsed_days((#[trigger] rows[i]).date@)) == Some(
                            xwords[i].print_date@,
                        )
                        &&& xwords[i].solve_state == SolveState::of_solved_and_time(
                            rows[i].solved,
                            rows[i].time,
                        )
                    }
            },
            Err(e) => e == DbError::DateError && exists|i: int|
                0 <= i < rows.len() && !is_date_text((#[trigger] rows[i]).date@),
        },
{
    let mut xwords: Vec<XwordSummary> = Vec::new();
    let mut i: usize = 0;
    while i < rows.len()
        invariant
            i <= rows.len(),
            xwords.len() == i,
            forall|j: int|
                0 <= j < i ==> {
                    &&& date_of_parsed(parsed_days((#[trigger] rows[j]).date@)) == Some(
                        xwords[j].print_date@,
                    )
                    &&& xwords[j].solve_state == SolveState::of_solved_and_time(
                        rows[j].solved,
                        rows[j].time,
                    )
                },
        decreases rows.len() - i,
    {
        let row = &rows[i];
        match summary_of_row(row.date.as_str(), row.solved, row.time) {
            Ok(xword) => {
                xwords.push(xword);
            },
            Err(e) => {
                assert(!is_date_text(rows[i as int].date@));
                return Err(e);
            },
        }
        i += 1;
    }
    Ok(xwords)
}

} // verus!
