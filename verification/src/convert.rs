//! The converter: from a value of the expression language to a JSON
//! document. It is total: every value has a document.

use crate::codec::{finite_double_text, json_double, stored_form};
use crate::evaluator::{key_debug, key_debug_text, scalar_input};
use crate::json::{
    canonical, keys_ascend, members_model, put_member, signed_number, JsonModel, JsonNumber,
    JsonValue, NumberModel,
};
use crate::value::{CelKey, CelModel, CelValue, KeyModel};
use vstd::prelude::*;
use vstd::std_specs::convert::FromSpecImpl;
use vstd::utf8::*;

verus! {

broadcast use vstd::std_specs::vec::axiom_vec_index_decreases;

/// The character that stands for a byte sequence that is not UTF-8.
pub open spec fn replacement_mark() -> char {
    '\u{FFFD}'
}

/// The text that lossy UTF-8 decoding makes of `bytes`.
pub uninterp spec fn lossy_text(bytes: Seq<u8>) -> Seq<char>;

/// Calls `String::from_utf8_lossy`. Bytes that are UTF-8 come back as the
/// text they encode; in any others each invalid sequence is replaced by
/// U+FFFD, so the text holds that character.
#[verifier::external_body]
fn lossy_utf8(bytes: &Vec<u8>) -> (r: String)
    ensures
        r@ == lossy_text(bytes@),
        valid_utf8(bytes@) ==> r@ == decode_utf8(bytes@),
        !valid_utf8(bytes@) ==> r@.contains(replacement_mark()),
{
    String::from_utf8_lossy(bytes).to_string()
}

/// `document` is the string that lossy decoding makes of `bytes`: the text
/// that the bytes encode where they are UTF-8, and else a text that holds the
/// replacement mark.
pub open spec fn bytes_text(bytes: Seq<u8>, document: JsonModel) -> bool {
    &&& document == JsonModel::String(lossy_text(bytes))
    &&& valid_utf8(bytes) ==> document == JsonModel::String(decode_utf8(bytes))
    &&& !valid_utf8(bytes) ==> lossy_text(bytes).contains(replacement_mark())
}

/// The member name that a map key becomes: a string key is its own name, any
/// other key is named by its debug text.
pub open spec fn key_text(key: KeyModel) -> Seq<char> {
    match key {
        KeyModel::String(s) => s,
        _ => key_debug_text(key),
    }
}

/// The JSON object of the entries of a map: each entry is put in turn under
/// the name of its key, so of two entries with one name the later counts.
pub open spec fn object_of(entries: Seq<(KeyModel, CelModel)>) -> Map<Seq<char>, JsonModel>
    decreases entries, 0int,
{
    if entries.len() == 0 {
        Map::empty()
    } else {
        let last = entries.last();
        object_of(entries.drop_last()).insert(key_text(last.0), json_of(last.1))
    }
}

/// The JSON document of a value.
pub open spec fn json_of(v: CelModel) -> JsonModel
    decreases v, 1int,
{
    match v {
        CelModel::Null => JsonModel::Null,
        CelModel::Bool(b) => JsonModel::Bool(b),
        CelModel::Int(i) => JsonModel::Number(signed_number(i)),
        CelModel::UInt(u) => JsonModel::Number(NumberModel::PosInt(u)),
        CelModel::Float(text) => match finite_double_text(text) {
            Some(number) => JsonModel::Number(NumberModel::Float(number)),
            None => JsonModel::Null,
        },
        CelModel::String(s) => JsonModel::String(s),
        CelModel::Bytes(bytes) => JsonModel::String(lossy_text(bytes)),
        CelModel::List(items) => JsonModel::Array(
            Seq::new(
                items.len(),
                |i: int|
                    if 0 <= i < items.len() {
                        json_of(items[i])
                    } else {
                        JsonModel::Null
                    },
            ),
        ),
        CelModel::Mapping(entries) => JsonModel::Object(object_of(entries)),
        CelModel::Other(text) => JsonModel::String(text),
    }
}

/// The name of a key depends on the key alone: two keys that are the same
/// have the same name, whenever and however often it is asked for.
pub proof fn lemma_key_name_deterministic(a: CelKey, b: CelKey)
    requires
        a@ == b@,
    ensures
        key_text(a@) == key_text(b@),
{
}

/// A document that is null, a boolean, an integer or a string comes back as
/// it was when it is made into the evaluator's value and that is converted.
/// An integer must be in its proper variant for this: a negative one is
/// negative.
pub proof fn lemma_scalar_round_trip(document: JsonModel)
    requires
        scalar_input(document) is Some,
        document matches JsonModel::Number(NumberModel::NegInt(i)) ==> i < 0,
    ensures
        json_of(scalar_input(document).unwrap()) == document,
{
}

/// The document is a boolean, a number or a string as the codec holds it:
/// an integer is in its proper variant, and a double is written as the codec
/// writes it.
pub open spec fn primitive(document: JsonValue) -> bool {
    match document {
        JsonValue::Bool(_) => true,
        JsonValue::String(_) => true,
        JsonValue::Number(JsonNumber::PosInt(_)) => true,
        JsonValue::Number(JsonNumber::NegInt(i)) => i < 0,
        JsonValue::Number(JsonNumber::Float(text)) => finite_double_text(text@) == Some(text@),
        _ => false,
    }
}

/// A boolean, a number or a string comes back as it was when it is made
/// into the evaluator's value and that is converted: `made` is a value that
/// converts to the document as the codec holds it, which is what
/// [`input_value`](crate::program::input_value) hands back.
pub proof fn lemma_primitive_round_trip(document: JsonValue, made: CelValue)
    requires
        primitive(document),
        json_of(made@) == stored_form(document),
    ensures
        json_of(made@) == document@,
{
}

/// The member name of a map key.
pub fn key_name(key: &CelKey) -> (r: String)
    ensures
        r@ == key_text(key@),
{
    match key {
        CelKey::String(s) => s.clone(),
        _ => key_debug(key),
    }
}

impl CelValue {
    /// The JSON document of the value, in canonical form. No value is
    /// refused.
    pub fn to_json(&self) -> (r: JsonValue)
        ensures
            r@ == json_of(self@),
            canonical(r),
            self matches CelValue::Bytes(bytes) ==> bytes_text(bytes@, r@),
        decreases self,
    {
        match self {
            CelValue::Null => JsonValue::Null,
            CelValue::Bool(b) => JsonValue::Bool(*b),
            CelValue::Int(i) => {
                if *i < 0 {
                    JsonValue::Number(JsonNumber::NegInt(*i))
                } else {
                    JsonValue::Number(JsonNumber::PosInt(*i as u64))
                }
            },
            CelValue::UInt(u) => JsonValue::Number(JsonNumber::PosInt(*u)),
            CelValue::Float(text) => match json_double(text.as_str()) {
                Some(number) => JsonValue::Number(JsonNumber::Float(number)),
                None => JsonValue::Null,
            },
            CelValue::String(s) => JsonValue::String(s.clone()),
            CelValue::Bytes(bytes) => JsonValue::String(lossy_utf8(bytes)),
            CelValue::List(items) => {
                let mut out: Vec<JsonValue> = Vec::new();
                let mut i: usize = 0;
                while i < items.len()
                    invariant
                        i <= items@.len(),
                        out@.len() == i,
                        self == CelValue::List(*items),
                        forall|j: int| 0 <= j < i ==> (#[trigger] out@[j])@ == json_of(items@[j]@),
                        forall|j: int| 0 <= j < i ==> canonical(#[trigger] out@[j]),
                    decreases items@.len() - i,
                {
                    assert(decreases_to!(self => self->List_0[i as int]));
                    let item = items[i].to_json();
                    out.push(item);
                    i += 1;
                }
                let r = JsonValue::Array(out);
                assert(r@ =~= json_of(self@)) by {
                    assert(r@->Array_0 =~= json_of(self@)->Array_0);
                }
                r
            },
            CelValue::Mapping(entries) => {
                let mut members: Vec<(String, JsonValue)> = Vec::new();
                let mut i: usize = 0;
                while i < entries.len()
                    invariant
                        i <= entries@.len(),
                        self == CelValue::Mapping(*entries),
                        keys_ascend(members@),
                        members_model(members@) == object_of(self@->Mapping_0.take(i as int)),
                        forall|j: int|
                            0 <= j < members@.len() ==> canonical((#[trigger] members@[j]).1),
                    decreases entries@.len() - i,
                {
                    let name = key_name(&entries[i].0);
                    assert(decreases_to!(self => self->Mapping_0[i as int]));
                    let member = entries[i].1.to_json();
                    proof {
                        let all = self@->Mapping_0;
                        assert(all.take(i + 1).drop_last() =~= all.take(i as int));
                        assert(all.take(i + 1).last() == all[i as int]);
                    }
                    put_member(&mut members, name, member);
                    i += 1;
                }
                assert(self@->Mapping_0.take(i as int) =~= self@->Mapping_0);
                JsonValue::Object(members)
            },
            CelValue::Other(text) => JsonValue::String(text.clone()),
        }
    }
}

impl From<CelValue> for JsonValue {
    /// The JSON document of the value, as [`CelValue::to_json`] gives it.
    fn from(value: CelValue) -> (r: JsonValue)
        ensures
            r@ == json_of(value@),
            canonical(r),
            value matches CelValue::Bytes(bytes) ==> bytes_text(bytes@, r@),
    {
        value.to_json()
    }
}

/// The document is told by its model, so `from` is held to what it
/// ensures and to no value of the specification.
impl FromSpecImpl<CelValue> for JsonValue {
    open spec fn obeys_from_spec() -> bool {
        false
    }

    open spec fn from_spec(value: CelValue) -> JsonValue {
        arbitrary()
    }
}

} // verus!
