//! The root scope of variables, made once from at most one JSON document.

use crate::codec::{parsed_json, stored_members};
use crate::error::Error;
use crate::evaluator::{add_variable, root_scope, scopes};
use crate::json::{members_model, JsonModel, JsonValue};
use vstd::prelude::*;

verus! {

/// Where the variables of the root scope come from.
#[derive(Debug, PartialEq, Eq)]
pub enum ContextSource {
    /// There are none.
    Nothing,
    /// A file that holds a JSON document, by its path.
    FromFile(String),
    /// The text of a JSON document.
    FromLiteral(String),
}

impl ContextSource {
    /// Makes one source of the two that a caller may name. Naming both is
    /// refused: nothing comes back, and no scope is made.
    pub fn select(context_file: Option<String>, json_context: Option<String>) -> (r: Option<
        ContextSource,
    >)
        ensures
            r == match (context_file, json_context) {
                (Some(_), Some(_)) => None,
                (Some(path), None) => Some(ContextSource::FromFile(path)),
                (None, Some(text)) => Some(ContextSource::FromLiteral(text)),
                (None, None) => Some(ContextSource::Nothing),
            },
    {
        match (context_file, json_context) {
            (Some(_), Some(_)) => None,
            (Some(path), None) => Some(ContextSource::FromFile(path)),
            (None, Some(text)) => Some(ContextSource::FromLiteral(text)),
            (None, None) => Some(ContextSource::Nothing),
        }
    }
}

/// The variables that a document gives the root scope: the members of an
/// object, and none for any other document.
pub open spec fn root_variables(document: JsonModel) -> Map<Seq<char>, JsonModel> {
    match document {
        JsonModel::Object(members) => members,
        _ => Map::empty(),
    }
}

/// Makes the root scope from the text of a JSON document, or an empty one
/// where there is no text.
///
/// Each member of an object becomes a variable. A document that is not an
/// object gives no variable. It fails only where the text is not one JSON
/// document: the evaluator has a value for every document.
pub fn create_context(text: Option<&str>) -> (r: Result<cel::Context<'static, 'static>, Error>)
    ensures
        r is Ok <==> (text matches Some(source) ==> parsed_json(source@) is Some),
        r matches Ok(ctx) ==> scopes(ctx) == seq![
            match text {
                Some(source) => root_variables(parsed_json(source@).unwrap()),
                None => Map::empty(),
            },
        ],
        r matches Err(error) ==> error is SerdeJson,
{
    let mut ctx = root_scope();
    let source = match text {
        Some(source) => source,
        None => {
            return Ok(ctx);
        },
    };
    let document = match JsonValue::parse(source) {
        Ok(document) => document,
        Err(error) => {
            return Err(error);
        },
    };
    let ghost model = document@;
    match document {
        JsonValue::Object(members) => {
            let mut i: usize = 0;
            while i < members.len()
                invariant
                    i <= members@.len(),
                    scopes(ctx) == seq![stored_members(members@.take(i as int))],
                    text == Some(source),
                    parsed_json(source@) == Some(model),
                    model == JsonModel::Object(members_model(members@)),
                decreases members@.len() - i,
            {
                proof {
                    assert(members@.take(i + 1).drop_last() =~= members@.take(i as int));
                    assert(members@.take(i + 1).last() == members@[i as int]);
                }
                match add_variable(&mut ctx, members[i].0.as_str(), &members[i].1) {
                    Ok(()) => {},
                    Err(reason) => {
                        return Err(Error::Cel(reason));
                    },
                }
                assert(scopes(ctx) =~= seq![stored_members(members@.take(i + 1))]);
                i += 1;
            }
            assert(members@.take(i as int) =~= members@);
            Ok(ctx)
        },
        _ => Ok(ctx),
    }
}

} // verus!
