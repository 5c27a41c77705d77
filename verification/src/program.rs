//! A compiled expression, and its evaluation in a scope of variables.

use crate::codec::stored_form;
use crate::error::Error;
use crate::convert::json_of;
use crate::evaluator::{
    add_variable, compile_failure, fits, inner_scope, input_form, parse_program, resolve,
    scalar_input, scopes, MAX_SOURCE_BYTES,
};
use crate::json::{JsonModel, JsonValue};
use crate::value::CelValue;
use vstd::prelude::*;
use vstd::string::*;

verus! {

/// A compiled expression. It can be evaluated any number of times, in any
/// scope, and keeps nothing from one evaluation to the next.
pub struct CelProgram(pub cel::Program);

/// The scopes of a fresh scope inside `outer` in which `name` alone is
/// bound, to `document`.
pub open spec fn scopes_with(
    outer: Seq<Map<Seq<char>, JsonModel>>,
    name: Seq<char>,
    document: JsonModel,
) -> Seq<Map<Seq<char>, JsonModel>> {
    seq![Map::<Seq<char>, JsonModel>::empty().insert(name, document)] + outer
}

/// The document that `name` stands for in a chain of scopes, innermost
/// first: that of the innermost scope that binds the name.
pub open spec fn visible(chain: Seq<Map<Seq<char>, JsonModel>>, name: Seq<char>) -> Option<
    JsonModel,
>
    decreases chain.len(),
{
    if chain.len() == 0 {
        None
    } else if chain[0].dom().contains(name) {
        Some(chain[0][name])
    } else {
        visible(chain.skip(1), name)
    }
}

/// A variable that is bound in a fresh scope stays in that scope: the scopes
/// around it are as they were, so the variable is not seen in them and what
/// they bind under its name is unchanged. Inside the fresh scope the
/// variable stands for its document, and every other name for what it stood
/// for outside.
pub proof fn lemma_scope_isolation(
    outer: Seq<Map<Seq<char>, JsonModel>>,
    name: Seq<char>,
    document: JsonModel,
    other: Seq<char>,
)
    ensures
        scopes_with(outer, name, document).skip(1) == outer,
        visible(scopes_with(outer, name, document).skip(1), other) == visible(outer, other),
        visible(scopes_with(outer, name, document), name) == Some(document),
        other != name ==> visible(scopes_with(outer, name, document), other) == visible(
            outer,
            other,
        ),
{
    assert(scopes_with(outer, name, document).skip(1) =~= outer);
}

/// The evaluator's value of a document: what an expression sees of a
/// variable that is bound to the document.
///
/// Every document has one, and it converts back to the document as the codec
/// holds it. A document that is null, a boolean, an integer or a string has
/// its value by [`scalar_input`].
pub fn input_value(document: &JsonValue) -> (r: Result<CelValue, Error>)
    ensures
        r matches Ok(made) && json_of(made@) == stored_form(*document),
        r matches Ok(made) && (scalar_input(document@) matches Some(value) ==> made@ == value),
{
    match input_form(document) {
        Ok(value) => Ok(value),
        Err(reason) => Err(Error::Cel(reason)),
    }
}

/// Tells whether a source is short enough to be compiled.
pub fn source_fits(source: &str) -> (r: bool)
    ensures
        r == fits(source@),
{
    source.as_bytes().len() <= MAX_SOURCE_BYTES
}

/// Compiles an expression.
///
/// It succeeds exactly on the sources that the evaluator compiles, and else
/// fails with the evaluator's message. The source must fit: see
/// [`source_fits`].
pub fn compile(expr: &str) -> (r: Result<CelProgram, Error>)
    requires
        fits(expr@),
    ensures
        r is Ok == compile_failure(expr@) is None,
        r matches Err(error) ==> error matches Error::Cel(message) && compile_failure(expr@)
            == Some(message@),
{
    match parse_program(expr) {
        Ok(program) => Ok(CelProgram(program)),
        Err(message) => Err(Error::Cel(message)),
    }
}

/// Opens a scope inside `ctx` and binds `name` in it to the value of
/// `document`. The scope `ctx` is only read. The evaluator has a value for
/// every document, so a scope always comes back.
pub fn scope_with<'b, 'v>(ctx: &'b cel::Context<'_, 'v>, name: &str, document: &JsonValue) -> (r:
    Result<cel::Context<'b, 'v>, Error>)
    ensures
        r matches Ok(scope) && scopes(scope) == scopes_with(
            scopes(*ctx),
            name@,
            stored_form(*document),
        ),
{
    let mut scope = inner_scope(ctx);
    match add_variable(&mut scope, name, document) {
        Ok(()) => {
            assert(scopes(scope) =~= scopes_with(scopes(*ctx), name@, stored_form(*document)));
            Ok(scope)
        },
        Err(reason) => Err(Error::Cel(reason)),
    }
}

/// What is made of what the evaluator hands back: a value is handed on, and
/// a failure becomes an error that carries the evaluator's reason.
pub fn evaluation_outcome(outcome: Result<CelValue, String>) -> (r: Result<CelValue, Error>)
    ensures
        r == match outcome {
            Ok(value) => Ok::<CelValue, Error>(value),
            Err(reason) => Err(Error::Cel(reason)),
        },
{
    match outcome {
        Ok(value) => Ok(value),
        Err(reason) => Err(Error::Cel(reason)),
    }
}

impl CelProgram {
    /// Evaluates the expression in the scope `ctx`, which is only read.
    ///
    /// What comes back is the evaluator's to decide; [`evaluation_outcome`]
    /// says what is made of it.
    pub fn execute(&self, ctx: &cel::Context) -> (r: Result<CelValue, Error>)
        ensures
            r matches Err(error) ==> error is Cel,
    {
        let outcome = resolve(&self.0, ctx);
        evaluation_outcome(outcome)
    }

    /// Evaluates the expression in a fresh scope inside `ctx` in which
    /// `vname` is bound to the value of `val`. The scope is dropped
    /// afterwards, and `ctx` is only read: what was bound for this
    /// evaluation is not bound in `ctx` after it.
    ///
    /// The binding does not fail: [`scope_with`] says which scope the
    /// evaluator is handed. What comes back from the evaluation is the
    /// evaluator's to decide, and [`evaluation_outcome`] says what is made
    /// of it.
    pub fn execute_with_value(&self, ctx: &cel::Context, vname: &str, val: JsonValue) -> (r: Result<
        CelValue,
        Error,
    >)
        ensures
            r matches Err(error) ==> error is Cel,
    {
        match scope_with(ctx, vname, &val) {
            Ok(child) => self.execute(&child),
            Err(error) => Err(error),
        }
    }
}

} // verus!
