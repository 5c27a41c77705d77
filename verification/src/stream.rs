//! The streaming driver: one record a line, one document out for each, and
//! a run that the first failure ends.
//!
//! The driver is a machine with two states. The caller reads a line, hands
//! in what the read gave, and writes the line that comes back, until the
//! machine has stopped.

use crate::codec::{compact_json, parsed_json, stored_form};
use crate::convert::json_of;
use crate::error::Error;
use crate::json::{JsonModel, JsonValue};
use crate::program::CelProgram;
use crate::value::CelValue;
use vstd::prelude::*;

verus! {

/// The state of a run.
#[derive(Clone, Copy, Debug, PartialEq, Eq, Structural)]
pub enum StreamState {
    /// The next record is to be read.
    Running,
    /// The run is over: no record is read any more.
    Stopped,
}

/// What reading a record gave.
#[derive(Debug, PartialEq, Eq)]
pub enum StreamEvent {
    /// A line, without its line break.
    Record(String),
    /// The end of the stream.
    End,
    /// A failure of the stream, by what it said of itself.
    Failed(String),
}

/// What the caller is to do after a read.
#[derive(Debug, PartialEq, Eq)]
pub enum StreamAction {
    /// Write the text and a line break, and read on.
    Write(String),
    /// End the run: it went well.
    Finish,
    /// End the run with the error.
    Abort(Error),
}

/// The document of a record: the one that its line reads as, or, where the
/// line is not JSON, the line itself as a string.
pub open spec fn record_model(line: Seq<char>) -> JsonModel {
    match parsed_json(line) {
        Some(document) => document,
        None => JsonModel::String(line),
    }
}

/// `text` is some value of the expression language as a JSON document on
/// one line.
pub open spec fn is_compact_value(text: Seq<char>) -> bool {
    exists|value: CelValue| #[trigger] compact_json(json_of(value@)) == text
}

/// The document of a record. No line is refused.
pub fn record_value(line: &str) -> (r: JsonValue)
    ensures
        r@ == record_model(line@),
        stored_form(r) == r@,
{
    match JsonValue::parse(line) {
        Ok(document) => document,
        Err(_) => JsonValue::String(line.to_owned()),
    }
}

/// The line to write for the outcome of an evaluation: the value as a JSON
/// document on one line. A failed evaluation is handed on as it is.
pub fn render(outcome: Result<CelValue, Error>) -> (r: Result<String, Error>)
    ensures
        match outcome {
            Ok(value) => r matches Ok(line) && line@ == compact_json(json_of(value@)),
            Err(error) => r == Err::<String, Error>(error),
        },
{
    match outcome {
        Ok(value) => value.to_json().to_compact(),
        Err(error) => Err(error),
    }
}

/// Evaluates the expression on one record: the document of the line is
/// bound to `variable` in a fresh scope inside `ctx`, and the value is
/// written as [`render`] does.
///
/// What the evaluation gives is the evaluator's to decide.
pub fn process_record(program: &CelProgram, ctx: &cel::Context, variable: &str, line: &str) -> (r:
    Result<String, Error>)
    ensures
        r matches Ok(text) ==> is_compact_value(text@),
        r matches Err(error) ==> error is Cel,
{
    let outcome = program.execute_with_value(ctx, variable, record_value(line));
    let ghost value = outcome;
    let r = render(outcome);
    proof {
        if r is Ok {
            assert(compact_json(json_of(value->Ok_0@)) == r->Ok_0@);
        }
    }
    r
}

/// What follows the work on a record: its line is written and the run goes
/// on, or its error ends the run.
pub fn after_record(outcome: Result<String, Error>) -> (r: (StreamState, StreamAction))
    ensures
        r == match outcome {
            Ok(line) => (StreamState::Running, StreamAction::Write(line)),
            Err(error) => (StreamState::Stopped, StreamAction::Abort(error)),
        },
{
    match outcome {
        Ok(line) => (StreamState::Running, StreamAction::Write(line)),
        Err(error) => (StreamState::Stopped, StreamAction::Abort(error)),
    }
}

/// One step of a run: what to do after a read.
///
/// A run that has stopped stays stopped, and evaluates nothing. In a
/// running one the end of the stream ends the run, a failure of the stream
/// ends it with that failure, and a record is worked on as
/// [`process_record`] does: the first record whose evaluation fails ends the
/// run with its error.
pub fn stream_step(
    state: StreamState,
    program: &CelProgram,
    ctx: &cel::Context,
    variable: &str,
    event: StreamEvent,
) -> (r: (StreamState, StreamAction))
    ensures
        state is Stopped ==> r == (StreamState::Stopped, StreamAction::Finish),
        state is Running ==> match event {
            StreamEvent::End => r == (StreamState::Stopped, StreamAction::Finish),
            StreamEvent::Failed(detail) => r == (
                StreamState::Stopped,
                StreamAction::Abort(Error::Io(detail)),
            ),
            StreamEvent::Record(_) => match r.1 {
                StreamAction::Write(text) => r.0 is Running && is_compact_value(text@),
                StreamAction::Abort(error) => r.0 is Stopped && error is Cel,
                StreamAction::Finish => false,
            },
        },
{
    if let StreamState::Stopped = state {
        return (StreamState::Stopped, StreamAction::Finish);
    }
    match event {
        StreamEvent::End => (StreamState::Stopped, StreamAction::Finish),
        StreamEvent::Failed(detail) => (StreamState::Stopped, StreamAction::Abort(Error::Io(detail))),
        StreamEvent::Record(line) => after_record(
            process_record(program, ctx, variable, line.as_str()),
        ),
    }
}

/// A whole run over records that are at hand.
#[derive(Debug, PartialEq, Eq)]
pub struct StreamRun {
    /// The lines written, in the order of their records.
    pub lines: Vec<String>,
    /// The error that ended the run, if one did.
    pub failure: Option<Error>,
}

/// Runs the expression over the records in order, and stops at the first
/// that fails: one line is written for each record before it, and none for
/// it or for any record after it.
pub fn run_stream(program: &CelProgram, ctx: &cel::Context, variable: &str, records: &Vec<String>) -> (r:
    StreamRun)
    ensures
        r.lines@.len() <= records@.len(),
        r.failure is None <==> r.lines@.len() == records@.len(),
        forall|i: int| 0 <= i < r.lines@.len() ==> is_compact_value((#[trigger] r.lines@[i])@),
        r.failure matches Some(error) ==> error is Cel,
{
    let mut lines: Vec<String> = Vec::new();
    let mut i: usize = 0;
    while i < records.len()
        invariant
            i <= records@.len(),
            lines@.len() == i,
            forall|j: int| 0 <= j < lines@.len() ==> is_compact_value((#[trigger] lines@[j])@),
        decreases records@.len() - i,
    {
        match process_record(program, ctx, variable, records[i].as_str()) {
            Ok(line) => {
                lines.push(line);
            },
            Err(error) => {
                return StreamRun { lines, failure: Some(error) };
            },
        }
        i += 1;
    }
    StreamRun { lines, failure: None }
}

} // verus!
