//! A JSON document as plain data, together with its mathematical model.
//!
//! An object is kept as a list of members in ascending key order, so that two
//! well-formed documents with the same model are written the same way. Its
//! model is a map: the order of the members carries no meaning. The codec's
//! own map cannot hold the members: it holds the codec's own documents and
//! nothing else.

use vstd::prelude::*;
use vstd::string::*;
use vstd::utf8::*;

verus! {

/// A JSON number.
///
/// Doubles are not computed with here. A double is carried as the decimal
/// text that the JSON codec writes for it and reads back as the same double.
#[derive(Debug, PartialEq, Eq)]
pub enum JsonNumber {
    /// An integer that is zero or more.
    PosInt(u64),
    /// An integer below zero.
    NegInt(i64),
    /// A finite double, by its decimal text.
    Float(String),
}

/// A JSON document.
#[derive(Debug, PartialEq, Eq)]
pub enum JsonValue {
    Null,
    Bool(bool),
    Number(JsonNumber),
    String(String),
    Array(Vec<JsonValue>),
    /// The members of an object. Where a key occurs twice the later member
    /// counts.
    Object(Vec<(String, JsonValue)>),
}

/// The model of a [`JsonNumber`].
pub enum NumberModel {
    PosInt(u64),
    NegInt(i64),
    Float(Seq<char>),
}

/// The model of a [`JsonValue`]: an object is a map from key to member.
pub enum JsonModel {
    Null,
    Bool(bool),
    Number(NumberModel),
    String(Seq<char>),
    Array(Seq<JsonModel>),
    Object(Map<Seq<char>, JsonModel>),
}

impl View for JsonNumber {
    type V = NumberModel;

    open spec fn view(&self) -> NumberModel {
        match *self {
            JsonNumber::PosInt(u) => NumberModel::PosInt(u),
            JsonNumber::NegInt(i) => NumberModel::NegInt(i),
            JsonNumber::Float(text) => NumberModel::Float(text@),
        }
    }
}

/// The JSON number of a signed integer: it is negative, or else it counts as
/// an integer that is zero or more.
pub open spec fn signed_number(i: i64) -> NumberModel {
    if i < 0 {
        NumberModel::NegInt(i)
    } else {
        NumberModel::PosInt(i as u64)
    }
}

/// The map that a list of members stands for: each member is put in turn, so
/// a later member replaces an earlier one with the same key.
pub open spec fn members_model(members: Seq<(String, JsonValue)>) -> Map<Seq<char>, JsonModel>
    decreases members, 0int,
{
    if members.len() == 0 {
        Map::empty()
    } else {
        let last = members.last();
        members_model(members.drop_last()).insert(last.0@, value_model(last.1))
    }
}

/// The model of a document.
pub open spec fn value_model(v: JsonValue) -> JsonModel
    decreases v, 1int,
{
    match v {
        JsonValue::Null => JsonModel::Null,
        JsonValue::Bool(b) => JsonModel::Bool(b),
        JsonValue::Number(n) => JsonModel::Number(n@),
        JsonValue::String(s) => JsonModel::String(s@),
        JsonValue::Array(items) => JsonModel::Array(
            Seq::new(
                items@.len(),
                |i: int|
                    if 0 <= i < items@.len() {
                        value_model(items@[i])
                    } else {
                        JsonModel::Null
                    },
            ),
        ),
        JsonValue::Object(members) => JsonModel::Object(members_model(members@)),
    }
}

impl View for JsonValue {
    type V = JsonModel;

    open spec fn view(&self) -> JsonModel {
        value_model(*self)
    }
}

/// `a` comes before `b` and first differs from it at index `k`: either `a`
/// ends there and `b` goes on, or `a` holds the smaller byte.
pub open spec fn parts_at(a: Seq<u8>, b: Seq<u8>, k: int) -> bool {
    &&& 0 <= k <= a.len()
    &&& k <= b.len()
    &&& forall|i: int| 0 <= i < k ==> a[i] == b[i]
    &&& k < b.len()
    &&& k < a.len() ==> a[k] < b[k]
}

/// The strict lexicographic order on byte strings.
pub open spec fn bytes_before(a: Seq<u8>, b: Seq<u8>) -> bool {
    exists|k: int| parts_at(a, b, k)
}

/// The order of object keys: by their UTF-8 bytes.
pub open spec fn key_before(a: Seq<char>, b: Seq<char>) -> bool {
    bytes_before(encode_utf8(a), encode_utf8(b))
}

/// The keys of the members ascend strictly, so no key occurs twice.
pub open spec fn keys_ascend(members: Seq<(String, JsonValue)>) -> bool {
    forall|i: int, j: int|
        0 <= i < j < members.len() ==> key_before(
            (#[trigger] members[i]).0@,
            (#[trigger] members[j]).0@,
        )
}

/// The document is in canonical form: in every object, at any depth, the
/// keys ascend strictly.
pub open spec fn canonical(v: JsonValue) -> bool
    decreases v,
{
    match v {
        JsonValue::Array(items) => forall|i: int|
            0 <= i < items@.len() ==> canonical(#[trigger] items@[i]),
        JsonValue::Object(members) => {
            &&& keys_ascend(members@)
            &&& forall|i: int|
                0 <= i < members@.len() ==> canonical((#[trigger] members@[i]).1)
        },
        _ => true,
    }
}

/// How two keys stand to each other.
#[derive(Clone, Copy, Debug, PartialEq, Eq, Structural)]
pub enum KeyOrder {
    Before,
    Same,
    After,
}

/// The order is irreflexive and asymmetric.
pub proof fn lemma_bytes_before_asymmetric(a: Seq<u8>, b: Seq<u8>)
    requires
        bytes_before(a, b),
    ensures
        a != b,
        !bytes_before(b, a),
{
    let k = choose|k: int| parts_at(a, b, k);
    if bytes_before(b, a) {
        let m = choose|m: int| parts_at(b, a, m);
        if m < k {
            assert(a[m] == b[m]);
        } else if k < m {
            assert(b[k] == a[k]);
        }
    }
}

/// The order is transitive.
pub proof fn lemma_bytes_before_transitive(a: Seq<u8>, b: Seq<u8>, c: Seq<u8>)
    requires
        bytes_before(a, b),
        bytes_before(b, c),
    ensures
        bytes_before(a, c),
{
    let k = choose|k: int| parts_at(a, b, k);
    let m = choose|m: int| parts_at(b, c, m);
    let n = if k <= m {
        k
    } else {
        m
    };
    assert(parts_at(a, c, n)) by {
        assert forall|i: int| 0 <= i < n implies a[i] == c[i] by {
            assert(a[i] == b[i]);
            assert(b[i] == c[i]);
        }
        if k < m {
            assert(b[k] == c[k]);
        } else if m < k {
            assert(a[m] == b[m]);
        }
    }
}

/// Two texts with the same UTF-8 bytes are the same text.
pub proof fn lemma_encoding_injective(a: Seq<char>, b: Seq<char>)
    requires
        encode_utf8(a) == encode_utf8(b),
    ensures
        a == b,
{
    encode_utf8_decode_utf8(a);
    encode_utf8_decode_utf8(b);
}

/// Of two keys exactly one holds: the first comes before the second, they are
/// the same, or the second comes before the first.
pub proof fn lemma_key_order_total(a: Seq<char>, b: Seq<char>)
    ensures
        key_before(a, b) ==> a != b && !key_before(b, a),
        key_before(b, a) ==> a != b,
        a != b ==> key_before(a, b) || key_before(b, a),
{
    let x = encode_utf8(a);
    let y = encode_utf8(b);
    if key_before(a, b) {
        lemma_bytes_before_asymmetric(x, y);
    }
    if key_before(b, a) {
        lemma_bytes_before_asymmetric(y, x);
    }
    if a != b {
        if x == y {
            lemma_encoding_injective(a, b);
        }
        lemma_bytes_differ(x, y, 0);
    }
}

/// Two byte strings that agree below `from` and are not equal differ in
/// order.
proof fn lemma_bytes_differ(x: Seq<u8>, y: Seq<u8>, from: int)
    requires
        0 <= from <= x.len(),
        from <= y.len(),
        forall|i: int| 0 <= i < from ==> x[i] == y[i],
        x != y,
    ensures
        bytes_before(x, y) || bytes_before(y, x),
    decreases x.len() - from,
{
    if from == x.len() {
        if from == y.len() {
            assert(x =~= y);
        } else {
            assert(parts_at(x, y, from));
        }
    } else if from == y.len() {
        assert(parts_at(y, x, from));
    } else if x[from] < y[from] {
        assert(parts_at(x, y, from));
    } else if y[from] < x[from] {
        assert(parts_at(y, x, from));
    } else {
        lemma_bytes_differ(x, y, from + 1);
    }
}

/// Compares two keys by their UTF-8 bytes.
pub fn key_order(a: &str, b: &str) -> (r: KeyOrder)
    ensures
        r == KeyOrder::Before <==> key_before(a@, b@),
        r == KeyOrder::Same <==> a@ == b@,
        r == KeyOrder::After <==> key_before(b@, a@),
{
    let x = a.as_bytes();
    let y = b.as_bytes();
    proof {
        lemma_key_order_total(a@, b@);
    }
    let mut i: usize = 0;
    while i < x.len() && i < y.len()
        invariant
            i <= x@.len(),
            i <= y@.len(),
            x@ == encode_utf8(a@),
            y@ == encode_utf8(b@),
            forall|j: int| 0 <= j < i ==> x@[j] == y@[j],
        decreases x@.len() - i,
    {
        if x[i] < y[i] {
            assert(parts_at(x@, y@, i as int));
            return KeyOrder::Before;
        }
        if y[i] < x[i] {
            assert(parts_at(y@, x@, i as int));
            return KeyOrder::After;
        }
        i += 1;
    }
    if i < y.len() {
        assert(parts_at(x@, y@, i as int));
        KeyOrder::Before
    } else if i < x.len() {
        assert(parts_at(y@, x@, i as int));
        KeyOrder::After
    } else {
        assert(x@ =~= y@);
        proof {
            lemma_encoding_injective(a@, b@);
        }
        KeyOrder::Same
    }
}

/// No key occurs twice among the members.
pub open spec fn keys_distinct(members: Seq<(String, JsonValue)>) -> bool {
    forall|i: int, j: int|
        0 <= i < j < members.len() ==> (#[trigger] members[i]).0@ != (#[trigger] members[j]).0@
}

/// Some member has the key `k`.
pub open spec fn has_key(members: Seq<(String, JsonValue)>, k: Seq<char>) -> bool {
    exists|i: int| 0 <= i < members.len() && (#[trigger] members[i]).0@ == k
}

/// Keys that ascend strictly are distinct.
pub proof fn lemma_ascend_distinct(members: Seq<(String, JsonValue)>)
    requires
        keys_ascend(members),
    ensures
        keys_distinct(members),
{
    assert forall|i: int, j: int| 0 <= i < j < members.len() implies (#[trigger] members[i]).0@ != (
    #[trigger] members[j]).0@ by {
        lemma_key_order_total(members[i].0@, members[j].0@);
    }
}

/// The map of a list of members holds exactly the keys of the members, and,
/// where no key occurs twice, each member under its key.
pub proof fn lemma_members_model(members: Seq<(String, JsonValue)>)
    ensures
        forall|k: Seq<char>| #[trigger]
            members_model(members).dom().contains(k) <==> has_key(members, k),
        keys_distinct(members) ==> forall|i: int|
            0 <= i < members.len() ==> members_model(members)[(#[trigger] members[i]).0@]
                == value_model(members[i].1),
    decreases members.len(),
{
    if members.len() == 0 {
        assert forall|k: Seq<char>| !has_key(members, k) by {}
    } else {
        let front = members.drop_last();
        let last = members.last();
        let n = members.len() - 1;
        lemma_members_model(front);
        assert forall|k: Seq<char>| #[trigger]
            members_model(members).dom().contains(k) <==> has_key(members, k) by {
            if has_key(members, k) {
                let i = choose|i: int| 0 <= i < members.len() && (#[trigger] members[i]).0@ == k;
                if i < n {
                    assert(front[i].0@ == k);
                    assert(has_key(front, k));
                }
            }
            if members_model(members).dom().contains(k) {
                if k == last.0@ {
                    assert(members[n].0@ == k);
                } else {
                    assert(has_key(front, k));
                    let i = choose|i: int| 0 <= i < front.len() && (#[trigger] front[i]).0@ == k;
                    assert(members[i].0@ == k);
                }
            }
        }
        if keys_distinct(members) {
            assert(keys_distinct(front)) by {
                assert forall|i: int, j: int| 0 <= i < j < front.len() implies (
                #[trigger] front[i]).0@ != (#[trigger] front[j]).0@ by {
                    assert(members[i].0@ != members[j].0@);
                }
            }
            assert forall|i: int| 0 <= i < members.len() implies members_model(members)[(
            #[trigger] members[i]).0@] == value_model(members[i].1) by {
                if i < n {
                    assert(members[i].0@ != members[n].0@);
                    assert(front[i].0@ == members[i].0@);
                }
            }
        }
    }
}

/// Puts a member into an object whose keys ascend: it takes the place of the
/// member with the same key, or else its own place in the order.
pub fn put_member(members: &mut Vec<(String, JsonValue)>, key: String, value: JsonValue)
    requires
        keys_ascend(old(members)@),
    ensures
        keys_ascend(final(members)@),
        members_model(final(members)@) == members_model(old(members)@).insert(key@, value@),
        forall|i: int|
            0 <= i < final(members)@.len() ==> (#[trigger] final(members)@[i]) == (key, value)
                || old(members)@.contains(final(members)@[i]),
{
    let ghost before = members@;
    let mut at: usize = 0;
    while at < members.len()
        invariant
            at <= members@.len(),
            members@ == before,
            before == old(members)@,
            keys_ascend(before),
            forall|j: int| 0 <= j < at ==> key_before((#[trigger] before[j]).0@, key@),
        decreases members@.len() - at,
    {
        match key_order(members[at].0.as_str(), key.as_str()) {
            KeyOrder::Before => {
                at += 1;
            },
            KeyOrder::Same => {
                members.set(at, (key, value));
                proof {
                    lemma_replaced(before, members@, at as int);
                }
                return ;
            },
            KeyOrder::After => {
                members.insert(at, (key, value));
                proof {
                    lemma_inserted(before, members@, at as int);
                }
                return ;
            },
        }
    }
    members.insert(at, (key, value));
    proof {
        lemma_inserted(before, members@, at as int);
    }
}

/// What holds of an object after the member at `at` was replaced by one with
/// the same key.
proof fn lemma_replaced(
    before: Seq<(String, JsonValue)>,
    after: Seq<(String, JsonValue)>,
    at: int,
)
    requires
        keys_ascend(before),
        0 <= at < before.len(),
        after == before.update(at, after[at]),
        after[at].0@ == before[at].0@,
    ensures
        keys_ascend(after),
        members_model(after) == members_model(before).insert(after[at].0@, after[at].1@),
        forall|i: int|
            0 <= i < after.len() ==> (#[trigger] after[i]) == after[at] || before.contains(
                after[i],
            ),
{
    let key = after[at].0@;
    assert forall|i: int, j: int| 0 <= i < j < after.len() implies key_before(
        (#[trigger] after[i]).0@,
        (#[trigger] after[j]).0@,
    ) by {
        assert(after[i].0@ == before[i].0@);
        assert(after[j].0@ == before[j].0@);
    }
    assert forall|i: int| 0 <= i < after.len() implies (#[trigger] after[i]) == after[at]
        || before.contains(after[i]) by {
        if i != at {
            assert(before[i] == after[i]);
        }
    }
    lemma_ascend_distinct(before);
    lemma_ascend_distinct(after);
    lemma_members_model(before);
    lemma_members_model(after);
    let left = members_model(after);
    let right = members_model(before).insert(key, after[at].1@);
    assert forall|k: Seq<char>| left.dom().contains(k) <==> right.dom().contains(k) by {
        if has_key(after, k) {
            let i = choose|i: int| 0 <= i < after.len() && (#[trigger] after[i]).0@ == k;
            assert(before[i].0@ == k);
        }
        if has_key(before, k) {
            let i = choose|i: int| 0 <= i < before.len() && (#[trigger] before[i]).0@ == k;
            assert(after[i].0@ == k);
        }
        if k == key {
            assert(after[at].0@ == k);
        }
    }
    assert forall|k: Seq<char>| left.dom().contains(k) implies left[k] == right[k] by {
        let i = choose|i: int| 0 <= i < after.len() && (#[trigger] after[i]).0@ == k;
        if i != at {
            assert(before[i] == after[i]);
            assert(before[i].0@ != before[at].0@);
        }
    }
    assert(left =~= right);
}

/// What holds of an object after a member was inserted at `at`, between the
/// keys before its own and those after it.
proof fn lemma_inserted(
    before: Seq<(String, JsonValue)>,
    after: Seq<(String, JsonValue)>,
    at: int,
)
    requires
        keys_ascend(before),
        0 <= at <= before.len(),
        after == before.insert(at, after[at]),
        forall|j: int| 0 <= j < at ==> key_before((#[trigger] before[j]).0@, after[at].0@),
        at < before.len() ==> key_before(after[at].0@, before[at].0@),
    ensures
        keys_ascend(after),
        members_model(after) == members_model(before).insert(after[at].0@, after[at].1@),
        forall|i: int|
            0 <= i < after.len() ==> (#[trigger] after[i]) == after[at] || before.contains(
                after[i],
            ),
{
    let key = after[at].0@;
    assert forall|i: int| 0 <= i < after.len() && i != at implies (#[trigger] after[i])
        == before[if i < at {
        i
    } else {
        i - 1
    }] by {}
    assert forall|j: int| at <= j < before.len() implies key_before(
        key,
        (#[trigger] before[j]).0@,
    ) by {
        if at < j {
            assert(key_before(before[at].0@, before[j].0@));
            lemma_bytes_before_transitive(
                encode_utf8(key),
                encode_utf8(before[at].0@),
                encode_utf8(before[j].0@),
            );
        }
    }
    assert forall|i: int, j: int| 0 <= i < j < after.len() implies key_before(
        (#[trigger] after[i]).0@,
        (#[trigger] after[j]).0@,
    ) by {
        let bi = if i < at {
            i
        } else {
            i - 1
        };
        let bj = if j < at {
            j
        } else {
            j - 1
        };
        if i == at {
            assert(key_before(key, before[bj].0@));
        } else if j == at {
            assert(key_before(before[bi].0@, key));
        } else {
            assert(key_before(before[bi].0@, before[bj].0@));
        }
    }
    assert forall|i: int| 0 <= i < after.len() implies (#[trigger] after[i]) == after[at]
        || before.contains(after[i]) by {
        if i != at {
            let bi = if i < at {
                i
            } else {
                i - 1
            };
            assert(before[bi] == after[i]);
        }
    }
    lemma_ascend_distinct(before);
    lemma_ascend_distinct(after);
    lemma_members_model(before);
    lemma_members_model(after);
    let left = members_model(after);
    let right = members_model(before).insert(key, after[at].1@);
    assert forall|k: Seq<char>| left.dom().contains(k) <==> right.dom().contains(k) by {
        if has_key(after, k) {
            let i = choose|i: int| 0 <= i < after.len() && (#[trigger] after[i]).0@ == k;
            if i != at {
                let bi = if i < at {
                    i
                } else {
                    i - 1
                };
                assert(before[bi].0@ == k);
            }
        }
        if has_key(before, k) {
            let i = choose|i: int| 0 <= i < before.len() && (#[trigger] before[i]).0@ == k;
            let ai = if i < at {
                i
            } else {
                i + 1
            };
            assert(after[ai].0@ == k);
        }
        if k == key {
            assert(after[at].0@ == k);
        }
    }
    assert forall|k: Seq<char>| left.dom().contains(k) implies left[k] == right[k] by {
        let i = choose|i: int| 0 <= i < after.len() && (#[trigger] after[i]).0@ == k;
        if i != at {
            let bi = if i < at {
                i
            } else {
                i - 1
            };
            assert(before[bi] == after[i]);
            assert(after[i].0@ != after[at].0@);
        }
    }
    assert(left =~= right);
}

} // verus!
