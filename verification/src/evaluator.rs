//! The expression evaluator: what is taken on trust from `cel`.

use crate::codec::{stored_form, to_codec};
use crate::convert::json_of;
use crate::json::{JsonModel, JsonValue, NumberModel};
use crate::value::{CelKey, CelModel, CelValue, KeyModel};
use cel::objects::Key;
use cel::Value;
use vstd::prelude::*;
use vstd::utf8::*;

verus! {

/// A value of the evaluator.
#[verifier::external_type_specification]
#[verifier::external_body]
pub struct ExEvaluatorValue(cel::Value);

/// A map key of the evaluator.
#[verifier::external_type_specification]
#[verifier::external_body]
pub struct ExEvaluatorKey(cel::objects::Key);

/// An error of an evaluation.
#[verifier::external_type_specification]
#[verifier::external_body]
pub struct ExEvaluationError(cel::ExecutionError);

/// A compiled expression.
#[verifier::external_type_specification]
#[verifier::external_body]
pub struct ExProgram(cel::Program);

/// A scope of variables, with the scopes around it.
#[verifier::external_type_specification]
#[verifier::external_body]
pub struct ExContext<'p, 'v>(cel::Context<'p, 'v>);

/// The debug text that the evaluator writes for a string key taken as a
/// value: the word `String`, and between brackets the string between
/// quotes, with what Rust escapes in a string escaped.
pub uninterp spec fn string_debug_text(key: Seq<char>) -> Seq<char>;

/// The decimal digit of a number below ten.
pub open spec fn digit(d: nat) -> char {
    ((48 + d) as u8) as char
}

/// The decimal text of a number.
pub open spec fn decimal(n: nat) -> Seq<char>
    decreases n,
{
    if n < 10 {
        seq![digit(n)]
    } else {
        decimal(n / 10) + seq![digit(n % 10)]
    }
}

/// The decimal text of an integer, with a minus sign before a negative one.
pub open spec fn signed_decimal(i: int) -> Seq<char> {
    if i < 0 {
        seq!['-'] + decimal((-i) as nat)
    } else {
        decimal(i as nat)
    }
}

/// The debug text that the evaluator writes for a key taken as a value: the
/// name of its kind, and between brackets the key, as in `Int(-7)`,
/// `UInt(7)` or `Bool(true)`.
pub open spec fn key_debug_text(key: KeyModel) -> Seq<char> {
    match key {
        KeyModel::Int(i) => "Int("@ + signed_decimal(i as int) + ")"@,
        KeyModel::Uint(u) => "UInt("@ + decimal(u as nat) + ")"@,
        KeyModel::Bool(b) => if b {
            "Bool(true)"@
        } else {
            "Bool(false)"@
        },
        KeyModel::String(s) => string_debug_text(s),
    }
}

/// The message with which the evaluator refuses to compile `source`, or
/// `None` where it compiles it.
pub uninterp spec fn compile_failure(source: Seq<char>) -> Option<Seq<char>>;

/// The variables of a scope and of the scopes around it, innermost first:
/// each name with the document that its value was made of, in the form in
/// which the codec holds it (see [`stored_form`]).
pub uninterp spec fn scopes(scope: cel::Context) -> Seq<Map<Seq<char>, JsonModel>>;

/// The scopes after `name` was bound to `document` in the innermost one.
pub open spec fn bound(
    chain: Seq<Map<Seq<char>, JsonModel>>,
    name: Seq<char>,
    document: JsonModel,
) -> Seq<Map<Seq<char>, JsonModel>>
    recommends
        chain.len() > 0,
{
    chain.update(0, chain[0].insert(name, document))
}

/// Makes the evaluator's own key of `key`, turns it into a `cel::Value` as
/// `From<&Key>` does, and formats that with the `Debug` impl of `cel::Value`,
/// which writes the name of the variant and, between brackets, the debug
/// text of what it holds: the decimal text of an integer, `true` or `false`
/// for a boolean.
#[verifier::external_body]
pub(crate) fn key_debug(key: &CelKey) -> (r: String)
    ensures
        r@ == key_debug_text(key@),
        key matches CelKey::String(s) ==> r@ == string_debug_text(s@),
{
    let outside = match key {
        CelKey::Int(i) => Key::Int(*i),
        CelKey::Uint(u) => Key::Uint(*u),
        CelKey::Bool(b) => Key::Bool(*b),
        CelKey::String(s) => Key::from(s.clone()),
    };
    format!("{:?}", Value::from(&outside))
}

/// The longest source, in bytes of UTF-8, that is handed to the evaluator's
/// parser.
pub const MAX_SOURCE_BYTES: usize = 65534;

/// The source is short enough for the evaluator's parser. Where the parser
/// refuses a source, its message points at each error with a line that is
/// padded to the column of the error, and the formatter takes no padding
/// above 65535.
pub open spec fn fits(source: Seq<char>) -> bool {
    encode_utf8(source).len() <= MAX_SOURCE_BYTES
}

/// Calls `cel::Program::compile`, and `to_string` on the errors where it
/// fails. Whether the source compiles, and the message where it does not,
/// depend on the source alone. The column of an error is at most the length
/// of the source and one more, so the message of a source that fits can be
/// written.
#[verifier::external_body]
pub(crate) fn parse_program(source: &str) -> (r: Result<cel::Program, String>)
    requires
        fits(source@),
    ensures
        r is Ok == compile_failure(source@) is None,
        r matches Err(message) ==> compile_failure(source@) == Some(message@),
{
    match cel::Program::compile(source) {
        Ok(program) => Ok(program),
        Err(errors) => Err(errors.to_string()),
    }
}

/// Calls `cel::Program::execute`, and `to_string` on the failure where it
/// fails. A value is handed on as plain data. Nothing is said of the
/// outcome: it depends on the order in which the evaluator walks its maps.
#[verifier::external_body]
pub(crate) fn resolve(program: &cel::Program, scope: &cel::Context) -> Result<CelValue, String> {
    match program.execute(scope) {
        Ok(value) => Ok(plain_value(&value)),
        Err(failure) => Err(failure.to_string()),
    }
}

/// Makes a key of the evaluator's own key.
#[verifier::external_body]
fn plain_key(key: &Key) -> CelKey {
    match key {
        Key::Int(i) => CelKey::Int(*i),
        Key::Uint(u) => CelKey::Uint(*u),
        Key::Bool(b) => CelKey::Bool(*b),
        Key::String(s) => CelKey::String(s.to_string()),
    }
}

/// Makes a value of the evaluator's own value, item by item: a double by the
/// text of its `Debug` impl, a value of any further kind by the text of the
/// `Debug` impl of `cel::Value`.
#[verifier::external_body]
pub(crate) fn plain_value(v: &Value) -> CelValue {
    match v {
        Value::Null => CelValue::Null,
        Value::Bool(b) => CelValue::Bool(*b),
        Value::Int(i) => CelValue::Int(*i),
        Value::UInt(u) => CelValue::UInt(*u),
        Value::Float(d) => CelValue::Float(format!("{:?}", d)),
        Value::String(s) => CelValue::String(s.to_string()),
        Value::Bytes(b) => CelValue::Bytes(b.to_vec()),
        Value::List(l) => CelValue::List(l.iter().map(plain_value).collect()),
        Value::Map(m) => CelValue::Mapping(
            m.map.iter().map(|(k, v)| (plain_key(k), plain_value(v))).collect(),
        ),
        other => CelValue::Other(format!("{:?}", other)),
    }
}

/// The value that the evaluator makes of a document that is null, a
/// boolean, an integer or a string: an integer that is zero or more becomes
/// an unsigned one, a negative integer a signed one. `None` for any other
/// document.
pub open spec fn scalar_input(document: JsonModel) -> Option<CelModel> {
    match document {
        JsonModel::Null => Some(CelModel::Null),
        JsonModel::Bool(b) => Some(CelModel::Bool(b)),
        JsonModel::Number(NumberModel::PosInt(u)) => Some(CelModel::UInt(u)),
        JsonModel::Number(NumberModel::NegInt(i)) => Some(
            if i < 0 {
                CelModel::Int(i)
            } else {
                CelModel::UInt(i as u64)
            },
        ),
        JsonModel::String(s) => Some(CelModel::String(s)),
        _ => None,
    }
}

/// Calls `cel::to_value` on the codec's own document, and `to_string` on
/// the error where it fails. The evaluator's serializer has a value for
/// every JSON document: a null for null, a boolean for a boolean, an
/// unsigned integer for an integer that is zero or more, a signed one for a
/// negative integer, a double for a double, a string for a string, a list
/// for an array and a map with string keys for an object. So the value
/// converts back to the document as the codec holds it.
#[verifier::external_body]
pub(crate) fn input_form(document: &JsonValue) -> (r: Result<CelValue, String>)
    ensures
        r is Ok,
        r matches Ok(made) ==> json_of(made@) == stored_form(*document),
        r matches Ok(made) ==> scalar_input(document@) is None || scalar_input(document@) == Some(
            made@,
        ),
{
    match cel::to_value(to_codec(document)) {
        Ok(value) => Ok(plain_value(&value)),
        Err(error) => Err(error.to_string()),
    }
}

/// Calls `cel::Context::default`: a scope with the standard functions and
/// no variable, with no scope around it.
#[verifier::external_body]
pub(crate) fn root_scope() -> (r: cel::Context<'static, 'static>)
    ensures
        scopes(r) == seq![Map::<Seq<char>, JsonModel>::empty()],
{
    cel::Context::default()
}

/// Calls `cel::Context::new_inner_scope`: a scope with no variable of its
/// own, inside `parent`.
#[verifier::external_body]
pub(crate) fn inner_scope<'b, 'v>(parent: &'b cel::Context<'_, 'v>) -> (r: cel::Context<'b, 'v>)
    ensures
        scopes(r) == seq![Map::<Seq<char>, JsonModel>::empty()] + scopes(*parent),
{
    parent.new_inner_scope()
}

/// Calls `cel::Context::add_variable` with the codec's own document, and
/// `to_string` on the error where it fails. The evaluator's serializer has a
/// value for every JSON document, so the call does not fail: it binds the
/// name in the innermost scope, in place of what the name was bound to
/// there.
#[verifier::external_body]
pub(crate) fn add_variable(scope: &mut cel::Context, name: &str, document: &JsonValue) -> (r:
    Result<(), String>)
    ensures
        r is Ok,
        scopes(*final(scope)) == bound(scopes(*old(scope)), name@, stored_form(*document)),
{
    match scope.add_variable(name, to_codec(document)) {
        Ok(()) => Ok(()),
        Err(error) => Err(error.to_string()),
    }
}

} // verus!
