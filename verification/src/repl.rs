//! The interactive driver: one expression a line, and a session that a bad
//! expression does not end.
//!
//! The driver is a machine with two states. The caller reads a line, hands
//! in what the read gave, and carries out the effects that come back, until
//! the machine is no longer running.

use crate::codec::pretty_json;
use crate::convert::json_of;
use crate::error::Error;
use crate::evaluator::{compile_failure, fits};
use crate::program::compile;
use crate::text::{trim, trimmed};
use crate::value::CelValue;
use vstd::prelude::*;
use vstd::string::*;

verus! {

/// The state of a session.
#[derive(Clone, Copy, Debug, PartialEq, Eq, Structural)]
pub enum ReplState {
    /// The next line is to be read.
    Running,
    /// The session is over: no line is read any more.
    Exiting,
}

/// What reading a line gave.
#[derive(Debug, PartialEq, Eq)]
pub enum ReadEvent {
    /// A line.
    Line(String),
    /// The interrupt signal.
    Interrupted,
    /// The end of the input.
    EndOfInput,
    /// A failure of the reader, by its debug text.
    Failed(String),
}

/// What the caller is to do after a read.
#[derive(Debug, PartialEq, Eq)]
pub enum ReplEffect {
    /// Add the line to the history.
    Remember(String),
    /// Print the text on the output stream.
    Print(String),
    /// Print the text on the error stream.
    Complain(String),
}

/// The model of a [`ReplEffect`].
pub enum EffectModel {
    Remember(Seq<char>),
    Print(Seq<char>),
    Complain(Seq<char>),
}

impl View for ReplEffect {
    type V = EffectModel;

    open spec fn view(&self) -> EffectModel {
        match *self {
            ReplEffect::Remember(line) => EffectModel::Remember(line@),
            ReplEffect::Print(text) => EffectModel::Print(text@),
            ReplEffect::Complain(text) => EffectModel::Complain(text@),
        }
    }
}

/// One turn of a session: the state after it and the effects to carry out in
/// order.
#[derive(Debug, PartialEq, Eq)]
pub struct ReplTurn {
    pub state: ReplState,
    pub effects: Vec<ReplEffect>,
    /// The error of the codec where it did not write a document, which ends
    /// the session. The codec writes every document, so no turn leaves one.
    pub failure: Option<Error>,
}

/// The line shown when a session begins.
pub fn banner() -> (r: &'static str)
    ensures
        r@ == "CEL REPL - type '.exit' or Ctrl+D to quit"@,
{
    "CEL REPL - type '.exit' or Ctrl+D to quit"
}

/// The prompt shown before each read.
pub fn prompt() -> (r: &'static str)
    ensures
        r@ == ">> "@,
{
    ">> "
}

/// The message on an expression that does not compile.
pub open spec fn compile_complaint(message: Seq<char>) -> Seq<char> {
    "Compilation error: "@ + ("CEL error: "@ + message)
}

/// The message on an evaluation that failed.
pub open spec fn evaluation_complaint(error: Error) -> Seq<char> {
    "Evaluation error: "@ + error.message_text()
}

/// `text` with `label` before it.
fn with_label(label: &str, text: &str) -> (r: String)
    ensures
        r@ == label@ + text@,
{
    let mut out = label.to_owned();
    out.append(text);
    out
}

/// What to tell the user of the outcome of an evaluation: the value, as an
/// indented JSON document, or the failure.
pub fn report(outcome: Result<CelValue, Error>) -> (r: Result<ReplEffect, Error>)
    ensures
        r matches Ok(effect) && effect@ == match outcome {
            Ok(value) => EffectModel::Print(pretty_json(json_of(value@))),
            Err(error) => EffectModel::Complain(evaluation_complaint(error)),
        },
{
    match outcome {
        Ok(value) => match value.to_json().to_pretty() {
            Ok(text) => Ok(ReplEffect::Print(text)),
            Err(error) => Err(error),
        },
        Err(error) => Ok(
            ReplEffect::Complain(with_label("Evaluation error: ", error.message().as_str())),
        ),
    }
}

/// The effect tells of an evaluation: it prints some value of the
/// expression language as an indented JSON document, or complains of a
/// failure of the evaluator.
pub open spec fn is_report(effect: EffectModel) -> bool {
    match effect {
        EffectModel::Print(text) => exists|value: CelValue| #[trigger]
            pretty_json(json_of(value@)) == text,
        EffectModel::Complain(text) => exists|error: Error| #[trigger]
            evaluation_complaint(error) == text && error is Cel,
        EffectModel::Remember(_) => false,
    }
}

/// Compiles the expression afresh, evaluates it in the scope `ctx`, which is
/// only read, and says what to tell the user.
///
/// An expression that does not compile gives a complaint with the
/// evaluator's message. What an evaluation gives is the evaluator's to
/// decide; [`report`] says what is made of it. The expression must fit: see
/// [`source_fits`](crate::program::source_fits).
pub fn evaluate_line(ctx: &cel::Context, expr: &str) -> (r: Result<ReplEffect, Error>)
    requires
        fits(expr@),
    ensures
        r matches Ok(effect) && match compile_failure(expr@) {
            Some(message) => effect@ == EffectModel::Complain(compile_complaint(message)),
            None => is_report(effect@),
        },
{
    match compile(expr) {
        Ok(program) => {
            let outcome = program.execute(ctx);
            let ghost seen = outcome;
            let r = report(outcome);
            proof {
                if seen is Ok {
                    assert(pretty_json(json_of(seen->Ok_0@)) == r->Ok_0@->Print_0);
                } else {
                    assert(evaluation_complaint(seen->Err_0) == r->Ok_0@->Complain_0);
                }
            }
            r
        },
        Err(error) => Ok(
            ReplEffect::Complain(with_label("Compilation error: ", error.message().as_str())),
        ),
    }
}

/// The line is the command that ends a session.
pub open spec fn is_exit_command(line: Seq<char>) -> bool {
    trimmed(line) == ".exit"@
}

/// The line holds nothing but white space.
pub open spec fn is_blank(line: Seq<char>) -> bool {
    trimmed(line).len() == 0
}

/// One turn of a session: what to do after a read.
///
/// A session that is over stays over and asks for nothing. In a running
/// session the interrupt signal, the end of the input and a failure of the
/// reader end it with a notice; the exit command ends it silently; a blank
/// line is passed over. Any other line is remembered, with the white space
/// at its ends taken off, and evaluated as [`evaluate_line`] does: the
/// session goes on whether or not that went well. No turn fails. A line must
/// fit once the white space is off its ends: see
/// [`source_fits`](crate::program::source_fits).
pub fn repl_turn(state: ReplState, ctx: &cel::Context, event: ReadEvent) -> (r: ReplTurn)
    requires
        event matches ReadEvent::Line(line) ==> fits(trimmed(line@)),
    ensures
        r.failure is None,
        state is Exiting ==> r.state is Exiting && r.effects@.len() == 0,
        state is Running ==> match event {
            ReadEvent::Interrupted => {
                &&& r.state is Exiting
                &&& r.effects@.len() == 1
                &&& r.effects@[0]@ == EffectModel::Print("Ctrl-C received. Exiting REPL."@)
            },
            ReadEvent::EndOfInput => {
                &&& r.state is Exiting
                &&& r.effects@.len() == 1
                &&& r.effects@[0]@ == EffectModel::Print("Ctrl-D received. Exiting REPL."@)
            },
            ReadEvent::Failed(detail) => {
                &&& r.state is Exiting
                &&& r.effects@.len() == 1
                &&& r.effects@[0]@ == EffectModel::Complain("Error reading line: "@ + detail@)
            },
            ReadEvent::Line(line) => if is_exit_command(line@) {
                r.state is Exiting && r.effects@.len() == 0
            } else if is_blank(line@) {
                r.state is Running && r.effects@.len() == 0
            } else {
                &&& r.state is Running
                &&& r.effects@.len() == 2
                &&& r.effects@[0]@ == EffectModel::Remember(trimmed(line@))
                &&& match compile_failure(trimmed(line@)) {
                    Some(message) => r.effects@[1]@ == EffectModel::Complain(
                        compile_complaint(message),
                    ),
                    None => is_report(r.effects@[1]@),
                }
            },
        },
{
    let mut effects: Vec<ReplEffect> = Vec::new();
    if let ReplState::Exiting = state {
        return ReplTurn { state: ReplState::Exiting, effects, failure: None };
    }
    match event {
        ReadEvent::Interrupted => {
            effects.push(ReplEffect::Print("Ctrl-C received. Exiting REPL.".to_owned()));
            ReplTurn { state: ReplState::Exiting, effects, failure: None }
        },
        ReadEvent::EndOfInput => {
            effects.push(ReplEffect::Print("Ctrl-D received. Exiting REPL.".to_owned()));
            ReplTurn { state: ReplState::Exiting, effects, failure: None }
        },
        ReadEvent::Failed(detail) => {
            effects.push(ReplEffect::Complain(with_label("Error reading line: ", detail.as_str())));
            ReplTurn { state: ReplState::Exiting, effects, failure: None }
        },
        ReadEvent::Line(line) => {
            let expr = trim(line.as_str()).to_owned();
            if expr == ".exit".to_owned() {
                return ReplTurn { state: ReplState::Exiting, effects, failure: None };
            }
            if expr.as_str().is_empty() {
                return ReplTurn { state: ReplState::Running, effects, failure: None };
            }
            let outcome = evaluate_line(ctx, expr.as_str());
            effects.push(ReplEffect::Remember(expr));
            match outcome {
                Ok(effect) => {
                    effects.push(effect);
                    ReplTurn { state: ReplState::Running, effects, failure: None }
                },
                Err(error) => ReplTurn { state: ReplState::Exiting, effects, failure: Some(error) },
            }
        },
    }
}

} // verus!
