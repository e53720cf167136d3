//! A JSON value tree and the rewriting of byte arrays into strings.
//!
//! `JsonValue` is the library's own representation of a JSON document. Its
//! ghost counterpart `JsonModel` is what contracts speak of.

use vstd::prelude::*;
use vstd::string::StringSliceAdditionalSpecFns;
use vstd::utf8::{
    decode_utf8, encode_utf8, encode_utf8_decode_utf8, encode_utf8_valid_utf8, valid_utf8,
};

verus! {

#[derive(Debug, Clone)]
/// A JSON number: either an unsigned 64-bit integer, or the textual form of
/// any other number (negative or fractional).
pub enum JsonNumber {
    U64(u64),
    Other(String),
}

/// A JSON value. Object members keep their order.
#[derive(Debug)]
pub enum JsonValue {
    Null,
    Bool(bool),
    Number(JsonNumber),
    String(String),
    Array(Vec<JsonValue>),
    Object(Vec<(String, JsonValue)>),
}

/// Ghost model of `JsonNumber`.
pub enum NumberModel {
    U64(u64),
    Other(Seq<char>),
}

/// Ghost model of `JsonValue`.
pub enum JsonModel {
    Null,
    Bool(bool),
    Number(NumberModel),
    Str(Seq<char>),
    Array(Seq<JsonModel>),
    Object(Seq<(Seq<char>, JsonModel)>),
}

pub open spec fn number_model(n: JsonNumber) -> NumberModel {
    match n {
        JsonNumber::U64(u) => NumberModel::U64(u),
        JsonNumber::Other(s) => NumberModel::Other(s@),
    }
}

pub open spec fn json_model(v: JsonValue) -> JsonModel
    decreases v,
{
    match v {
        JsonValue::Null => JsonModel::Null,
        JsonValue::Bool(b) => JsonModel::Bool(b),
        JsonValue::Number(n) => JsonModel::Number(number_model(n)),
        JsonValue::String(s) => JsonModel::Str(s@),
        JsonValue::Array(items) => JsonModel::Array(json_models(items@)),
        JsonValue::Object(entries) => JsonModel::Object(member_models(entries@)),
    }
}

pub open spec fn json_models(s: Seq<JsonValue>) -> Seq<JsonModel>
    decreases s,
{
    if s.len() == 0 {
        Seq::empty()
    } else {
        json_models(s.drop_last()).push(json_model(s.last()))
    }
}

pub open spec fn member_models(s: Seq<(String, JsonValue)>) -> Seq<(Seq<char>, JsonModel)>
    decreases s,
{
    if s.len() == 0 {
        Seq::empty()
    } else {
        member_models(s.drop_last()).push((s.last().0@, json_model(s.last().1)))
    }
}

impl View for JsonValue {
    type V = JsonModel;

    open spec fn view(&self) -> JsonModel {
        json_model(*self)
    }
}


pub proof fn lemma_json_models(s: Seq<JsonValue>)
    ensures
        json_models(s).len() == s.len(),
        forall|i: int| 0 <= i < s.len() ==> #[trigger] json_models(s)[i] == json_model(s[i]),
    decreases s.len(),
{
    if s.len() > 0 {
        lemma_json_models(s.drop_last());
    }
}

pub proof fn lemma_member_models(s: Seq<(String, JsonValue)>)
    ensures
        member_models(s).len() == s.len(),
        forall|i: int|
            0 <= i < s.len() ==> #[trigger] member_models(s)[i] == (s[i].0@, json_model(s[i].1)),
    decreases s.len(),
{
    if s.len() > 0 {
        lemma_member_models(s.drop_last());
    }
}

pub proof fn lemma_json_models_push(s: Seq<JsonValue>, v: JsonValue)
    ensures
        json_models(s.push(v)) == json_models(s).push(json_model(v)),
{
    assert(s.push(v).drop_last() =~= s);
}

pub proof fn lemma_member_models_push(s: Seq<(String, JsonValue)>, k: String, v: JsonValue)
    ensures
        member_models(s.push((k, v))) == member_models(s).push((k@, json_model(v))),
{
    assert(s.push((k, v)).drop_last() =~= s);
}

/// The characters that `String::from_utf8_lossy` produces for `bytes`: the
/// decoded text, with each invalid sequence replaced by U+FFFD.
pub uninterp spec fn utf8_lossy(bytes: Seq<u8>) -> Seq<char>;

/// Calls `String::from_utf8_lossy`. Its result is named `utf8_lossy`; on
/// valid UTF-8 it is the decoded text, as the standard library documents.
#[verifier::external_body]
fn string_from_utf8_lossy(bytes: &[u8]) -> (s: String)
    ensures
        s@ == utf8_lossy(bytes@),
        valid_utf8(bytes@) ==> s@ == decode_utf8(bytes@),
{
    String::from_utf8_lossy(bytes).into_owned()
}

/// The text that bytes are served as: their UTF-8 decoding when they are
/// valid UTF-8, and otherwise the lossy decoding (invalid sequences replaced
/// by U+FFFD).
pub open spec fn served_text(bytes: Seq<u8>) -> Seq<char> {
    if valid_utf8(bytes) {
        decode_utf8(bytes)
    } else {
        utf8_lossy(bytes)
    }
}

/// The UTF-8 encoding of a text is served as that text.
pub proof fn lemma_text_served_unchanged(t: Seq<char>)
    ensures
        served_text(encode_utf8(t)) == t,
{
    encode_utf8_valid_utf8(t);
    encode_utf8_decode_utf8(t);
}

/// `m` is a JSON number that fits in a `u64`.
pub open spec fn is_u64_number(m: JsonModel) -> bool {
    m matches JsonModel::Number(NumberModel::U64(_))
}

/// All elements of `items` are numbers that fit in a `u64`.
pub open spec fn all_u64_numbers(items: Seq<JsonModel>) -> bool {
    forall|i: int| 0 <= i < items.len() ==> #[trigger] is_u64_number(items[i])
}

/// The low byte of a `u64` number (zero for anything else).
pub open spec fn low_byte(m: JsonModel) -> u8 {
    match m {
        JsonModel::Number(NumberModel::U64(n)) => n as u8,
        _ => 0,
    }
}

/// The bytes that an array of numbers stands for.
pub open spec fn array_bytes(items: Seq<JsonModel>) -> Seq<u8> {
    Seq::new(items.len(), |i: int| low_byte(items[i]))
}

/// The value with every array whose elements are all `u64` numbers replaced
/// by the string that those numbers, taken as bytes, decode to (lossily).
/// Arrays and objects are rewritten recursively; other values stay.
pub open spec fn rewritten(m: JsonModel) -> JsonModel
    decreases m,
{
    match m {
        JsonModel::Array(items) => if all_u64_numbers(items) {
            JsonModel::Str(served_text(array_bytes(items)))
        } else {
            JsonModel::Array(rewritten_all(items))
        },
        JsonModel::Object(members) => JsonModel::Object(rewritten_members(members)),
        _ => m,
    }
}

pub open spec fn rewritten_all(s: Seq<JsonModel>) -> Seq<JsonModel>
    decreases s,
{
    if s.len() == 0 {
        Seq::empty()
    } else {
        rewritten_all(s.drop_last()).push(rewritten(s.last()))
    }
}

pub open spec fn rewritten_members(s: Seq<(Seq<char>, JsonModel)>) -> Seq<(Seq<char>, JsonModel)>
    decreases s,
{
    if s.len() == 0 {
        Seq::empty()
    } else {
        rewritten_members(s.drop_last()).push((s.last().0, rewritten(s.last().1)))
    }
}

/// No array in `m`, at any depth, consists only of `u64` numbers.
pub open spec fn free_of_byte_arrays(m: JsonModel) -> bool
    decreases m,
{
    match m {
        JsonModel::Array(items) => !all_u64_numbers(items) && all_free_of_byte_arrays(items),
        JsonModel::Object(members) => members_free_of_byte_arrays(members),
        _ => true,
    }
}

pub open spec fn all_free_of_byte_arrays(s: Seq<JsonModel>) -> bool
    decreases s,
{
    if s.len() == 0 {
        true
    } else {
        all_free_of_byte_arrays(s.drop_last()) && free_of_byte_arrays(s.last())
    }
}

pub open spec fn members_free_of_byte_arrays(s: Seq<(Seq<char>, JsonModel)>) -> bool
    decreases s,
{
    if s.len() == 0 {
        true
    } else {
        members_free_of_byte_arrays(s.drop_last()) && free_of_byte_arrays(s.last().1)
    }
}

pub proof fn lemma_rewritten_all_index(s: Seq<JsonModel>)
    ensures
        rewritten_all(s).len() == s.len(),
        forall|i: int| 0 <= i < s.len() ==> #[trigger] rewritten_all(s)[i] == rewritten(s[i]),
    decreases s.len(),
{
    if s.len() > 0 {
        lemma_rewritten_all_index(s.drop_last());
    }
}

pub proof fn lemma_rewritten_members_index(s: Seq<(Seq<char>, JsonModel)>)
    ensures
        rewritten_members(s).len() == s.len(),
        forall|i: int|
            0 <= i < s.len() ==> #[trigger] rewritten_members(s)[i] == (s[i].0, rewritten(s[i].1)),
    decreases s.len(),
{
    if s.len() > 0 {
        lemma_rewritten_members_index(s.drop_last());
    }
}

proof fn lemma_rewritten_keeps_numbers(m: JsonModel)
    ensures
        is_u64_number(rewritten(m)) == is_u64_number(m),
{
}

proof fn lemma_rewritten_free(m: JsonModel)
    ensures
        free_of_byte_arrays(rewritten(m)),
    decreases m,
{
    match m {
        JsonModel::Array(items) => {
            if !all_u64_numbers(items) {
                lemma_rewritten_all_free(items);
                lemma_rewritten_all_index(items);
                let k = choose|k: int| 0 <= k < items.len() && !is_u64_number(items[k]);
                lemma_rewritten_keeps_numbers(items[k]);
                assert(!is_u64_number(rewritten_all(items)[k]));
            }
        },
        JsonModel::Object(members) => {
            lemma_rewritten_members_free(members);
        },
        _ => {},
    }
}

proof fn lemma_rewritten_all_free(s: Seq<JsonModel>)
    ensures
        all_free_of_byte_arrays(rewritten_all(s)),
    decreases s,
{
    if s.len() > 0 {
        lemma_rewritten_all_free(s.drop_last());
        lemma_rewritten_free(s.last());
        assert(rewritten_all(s).drop_last() =~= rewritten_all(s.drop_last()));
    }
}

proof fn lemma_rewritten_members_free(s: Seq<(Seq<char>, JsonModel)>)
    ensures
        members_free_of_byte_arrays(rewritten_members(s)),
    decreases s,
{
    if s.len() > 0 {
        lemma_rewritten_members_free(s.drop_last());
        lemma_rewritten_free(s.last().1);
        assert(rewritten_members(s).drop_last() =~= rewritten_members(s.drop_last()));
    }
}

proof fn lemma_free_is_fixed(m: JsonModel)
    requires
        free_of_byte_arrays(m),
    ensures
        rewritten(m) == m,
    decreases m,
{
    match m {
        JsonModel::Array(items) => {
            lemma_free_all_fixed(items);
        },
        JsonModel::Object(members) => {
            lemma_free_members_fixed(members);
        },
        _ => {},
    }
}

proof fn lemma_free_all_fixed(s: Seq<JsonModel>)
    requires
        all_free_of_byte_arrays(s),
    ensures
        rewritten_all(s) == s,
    decreases s,
{
    if s.len() > 0 {
        lemma_free_all_fixed(s.drop_last());
        lemma_free_is_fixed(s.last());
        assert(rewritten_all(s) =~= s);
    }
}

proof fn lemma_free_members_fixed(s: Seq<(Seq<char>, JsonModel)>)
    requires
        members_free_of_byte_arrays(s),
    ensures
        rewritten_members(s) == s,
    decreases s,
{
    if s.len() > 0 {
        lemma_free_members_fixed(s.drop_last());
        lemma_free_is_fixed(s.last().1);
        assert(rewritten_members(s) =~= s);
    }
}

/// After rewriting, no array at any depth consists only of byte-sized
/// numbers: every such array has become a string.
pub proof fn lemma_rewrite_leaves_no_byte_arrays(m: JsonModel)
    ensures
        free_of_byte_arrays(rewritten(m)),
{
    lemma_rewritten_free(m);
}

/// Rewriting is idempotent: rewriting an already rewritten value changes
/// nothing.
pub proof fn lemma_rewrite_idempotent(m: JsonModel)
    ensures
        rewritten(rewritten(m)) == rewritten(m),
{
    lemma_rewritten_free(m);
    lemma_free_is_fixed(rewritten(m));
}

fn clone_number(n: &JsonNumber) -> (c: JsonNumber)
    ensures
        number_model(c) == number_model(*n),
{
    match n {
        JsonNumber::U64(u) => JsonNumber::U64(*u),
        JsonNumber::Other(s) => JsonNumber::Other(s.clone()),
    }
}

fn rewrite_ref(value: &JsonValue) -> (out: JsonValue)
    ensures
        out@ == rewritten(value@),
    decreases value,
{
    match value {
        JsonValue::Null => JsonValue::Null,
        JsonValue::Bool(b) => JsonValue::Bool(*b),
        JsonValue::Number(n) => JsonValue::Number(clone_number(n)),
        JsonValue::String(s) => JsonValue::String(s.clone()),
        JsonValue::Array(items) => {
            let ghost models = json_models(items@);
            proof {
                lemma_json_models(items@);
            }
            let mut all_numbers = true;
            let mut i: usize = 0;
            while i < items.len()
                invariant
                    0 <= i <= items@.len(),
                    models == json_models(items@),
                    models.len() == items@.len(),
                    forall|k: int| 0 <= k < items@.len() ==> #[trigger] models[k] == json_model(items@[k]),
                    all_numbers == (forall|k: int| 0 <= k < i ==> #[trigger] is_u64_number(models[k])),
                decreases items@.len() - i,
            {
                let is_number = match &items[i] {
                    JsonValue::Number(JsonNumber::U64(_)) => true,
                    _ => false,
                };
                proof {
                    assert(is_number == is_u64_number(models[i as int]));
                }
                all_numbers = all_numbers && is_number;
                i = i + 1;
            }
            if all_numbers {
                let mut bytes: Vec<u8> = Vec::new();
                let mut j: usize = 0;
                while j < items.len()
                    invariant
                        0 <= j <= items@.len(),
                        models.len() == items@.len(),
                        forall|k: int| 0 <= k < items@.len() ==> #[trigger] models[k] == json_model(items@[k]),
                        all_u64_numbers(models),
                        bytes@ =~= array_bytes(models).take(j as int),
                    decreases items@.len() - j,
                {
                    proof {
                        assert(is_u64_number(models[j as int]));
                    }
                    match &items[j] {
                        JsonValue::Number(JsonNumber::U64(n)) => {
                            bytes.push(#[verifier::truncate] (*n as u8));
                        },
                        _ => {},
                    }
                    j = j + 1;
                }
                proof {
                    assert(array_bytes(models).take(items@.len() as int) =~= array_bytes(models));
                }
                JsonValue::String(string_from_utf8_lossy(bytes.as_slice()))
            } else {
                let mut out: Vec<JsonValue> = Vec::new();
                let mut j: usize = 0;
                while j < items.len()
                    invariant
                        0 <= j <= items@.len(),
                        models.len() == items@.len(),
                        forall|k: int| 0 <= k < items@.len() ==> #[trigger] models[k] == json_model(items@[k]),
                        json_models(out@) == rewritten_all(models.take(j as int)),
                        *value == JsonValue::Array(*items),
                    decreases items@.len() - j,
                {
                    proof {
                        assert(decreases_to!(*value => (*value)->Array_0));
                        assert(decreases_to!(*items => items@));
                        assert(decreases_to!(items@ => items@[j as int]));
                        assert(decreases_to!(*value => items@[j as int]));
                    }
                    let item = rewrite_ref(&items[j]);
                    proof {
                        assert(out@.push(item).drop_last() =~= out@);
                        assert(models.take(j + 1).drop_last() =~= models.take(j as int));
                    }
                    out.push(item);
                    j = j + 1;
                }
                proof {
                    assert(models.take(items@.len() as int) =~= models);
                }
                JsonValue::Array(out)
            }
        },
        JsonValue::Object(members) => {
            let ghost models = member_models(members@);
            proof {
                lemma_member_models(members@);
            }
            let mut out: Vec<(String, JsonValue)> = Vec::new();
            let mut j: usize = 0;
            while j < members.len()
                invariant
                    0 <= j <= members@.len(),
                    models == member_models(members@),
                    models.len() == members@.len(),
                    forall|k: int|
                        0 <= k < members@.len() ==> #[trigger] models[k] == (
                        members@[k].0@,
                        json_model(members@[k].1),
                    ),
                    member_models(out@) == rewritten_members(models.take(j as int)),
                    *value == JsonValue::Object(*members),
                decreases members@.len() - j,
            {
                let key = members[j].0.clone();
                proof {
                    assert(decreases_to!(*value => (*value)->Object_0));
                    assert(decreases_to!(*members => members@));
                    assert(decreases_to!(members@ => members@[j as int]));
                    assert(decreases_to!(members@[j as int] => members@[j as int].1));
                    assert(decreases_to!(*value => members@[j as int].1));
                }
                let item = rewrite_ref(&members[j].1);
                proof {
                    assert(out@.push((key, item)).drop_last() =~= out@);
                    assert(models.take(j + 1).drop_last() =~= models.take(j as int));
                }
                out.push((key, item));
                j = j + 1;
            }
            proof {
                assert(models.take(members@.len() as int) =~= models);
            }
            JsonValue::Object(out)
        },
    }
}

fn clone_value(value: &JsonValue) -> (out: JsonValue)
    ensures
        out@ == value@,
    decreases value,
{
    match value {
        JsonValue::Null => JsonValue::Null,
        JsonValue::Bool(b) => JsonValue::Bool(*b),
        JsonValue::Number(n) => JsonValue::Number(clone_number(n)),
        JsonValue::String(s) => JsonValue::String(s.clone()),
        JsonValue::Array(items) => {
            let mut out: Vec<JsonValue> = Vec::new();
            let mut j: usize = 0;
            while j < items.len()
                invariant
                    0 <= j <= items@.len(),
                    *value == JsonValue::Array(*items),
                    json_models(out@) == json_models(items@.take(j as int)),
                decreases items@.len() - j,
            {
                proof {
                    assert(decreases_to!(*value => (*value)->Array_0));
                    assert(decreases_to!(*items => items@));
                    assert(decreases_to!(items@ => items@[j as int]));
                    assert(decreases_to!(*value => items@[j as int]));
                }
                let item = clone_value(&items[j]);
                proof {
                    lemma_json_models_push(out@, item);
                    assert(items@.take(j + 1).drop_last() =~= items@.take(j as int));
                }
                out.push(item);
                j = j + 1;
            }
            proof {
                assert(items@.take(items@.len() as int) =~= items@);
            }
            JsonValue::Array(out)
        },
        JsonValue::Object(members) => {
            let mut out: Vec<(String, JsonValue)> = Vec::new();
            let mut j: usize = 0;
            while j < members.len()
                invariant
                    0 <= j <= members@.len(),
                    *value == JsonValue::Object(*members),
                    member_models(out@) == member_models(members@.take(j as int)),
                decreases members@.len() - j,
            {
                proof {
                    assert(decreases_to!(*value => (*value)->Object_0));
                    assert(decreases_to!(*members => members@));
                    assert(decreases_to!(members@ => members@[j as int]));
                    assert(decreases_to!(members@[j as int] => members@[j as int].1));
                    assert(decreases_to!(*value => members@[j as int].1));
                }
                let key = members[j].0.clone();
                let item = clone_value(&members[j].1);
                proof {
                    lemma_member_models_push(out@, key, item);
                    assert(members@.take(j + 1).drop_last() =~= members@.take(j as int));
                }
                out.push((key, item));
                j = j + 1;
            }
            proof {
                assert(members@.take(members@.len() as int) =~= members@);
            }
            JsonValue::Object(out)
        },
    }
}

impl Clone for JsonValue {
    fn clone(&self) -> (out: Self)
        ensures
            out@ == self@,
    {
        clone_value(self)
    }
}

/// Replaces every array of byte-sized numbers in `value` with the string
/// those bytes decode to (invalid UTF-8 sequences become U+FFFD), at any
/// depth. Note that an empty array qualifies and becomes the empty string.
pub fn rewrite_bytes_to_strings(value: JsonValue) -> (out: JsonValue)
    ensures
        out@ == rewritten(value@),
{
    rewrite_ref(&value)
}


/// The value of the first member of `members` named `key`.
pub open spec fn member_lookup(members: Seq<(Seq<char>, JsonModel)>, key: Seq<char>) -> Option<
    JsonModel,
>
    decreases members.len(),
{
    if members.len() == 0 {
        None
    } else if members[0].0 == key {
        Some(members[0].1)
    } else {
        member_lookup(members.drop_first(), key)
    }
}

/// Whether two strings hold the same characters.
fn str_eq(a: &str, b: &str) -> (same: bool)
    ensures
        same == (a@ == b@),
{
    let x = a.as_bytes();
    let y = b.as_bytes();
    proof {
        encode_utf8_decode_utf8(a@);
        encode_utf8_decode_utf8(b@);
    }
    if x.len() != y.len() {
        return false;
    }
    let mut i: usize = 0;
    while i < x.len()
        invariant
            x@.len() == y@.len(),
            x@ == a.spec_bytes(),
            y@ == b.spec_bytes(),
            0 <= i <= x@.len(),
            forall|k: int| 0 <= k < i ==> x@[k] == y@[k],
        decreases x@.len() - i,
    {
        if x[i] != y[i] {
            proof {
                if a@ == b@ {
                    assert(x@ == y@);
                }
            }
            return false;
        }
        i = i + 1;
    }
    proof {
        assert(x@ =~= y@);
    }
    true
}

impl JsonValue {
    /// The value of the member `key` of an object (the first one, should
    /// the name repeat); `None` for a missing member or a non-object.
    pub fn get(&self, key: &str) -> (r: Option<&JsonValue>)
        ensures
            match self@ {
                JsonModel::Object(members) => match member_lookup(members, key@) {
                    Some(m) => r matches Some(v) && v@ == m,
                    None => r is None,
                },
                _ => r is None,
            },
    {
        match self {
            JsonValue::Object(members) => {
                let ghost ms = member_models(members@);
                proof {
                    lemma_member_models(members@);
                    assert(ms.skip(0) =~= ms);
                }
                let mut i: usize = 0;
                while i < members.len()
                    invariant
                        0 <= i <= members@.len(),
                        ms == member_models(members@),
                        self@ == JsonModel::Object(ms),
                        ms.len() == members@.len(),
                        forall|k: int|
                            0 <= k < members@.len() ==> #[trigger] ms[k] == (
                                members@[k].0@,
                                json_model(members@[k].1),
                            ),
                        member_lookup(ms, key@) == member_lookup(ms.skip(i as int), key@),
                    decreases members@.len() - i,
                {
                    let ghost rest = ms.skip(i as int);
                    assert(rest[0] == ms[i as int]);
                    assert(ms[i as int] == (members@[i as int].0@, json_model(members@[i as int].1)));
                    if str_eq(members[i].0.as_str(), key) {
                        return Some(&members[i].1);
                    }
                    assert(rest.drop_first() =~= ms.skip(i + 1));
                    i = i + 1;
                }
                None
            },
            _ => None,
        }
    }

    /// The element at `index` of an array; `None` out of range or for a
    /// non-array.
    pub fn at(&self, index: usize) -> (r: Option<&JsonValue>)
        ensures
            match self@ {
                JsonModel::Array(items) => if index < items.len() {
                    r matches Some(v) && v@ == items[index as int]
                } else {
                    r is None
                },
                _ => r is None,
            },
    {
        match self {
            JsonValue::Array(items) => {
                proof {
                    lemma_json_models(items@);
                }
                if index < items.len() {
                    Some(&items[index])
                } else {
                    None
                }
            },
            _ => None,
        }
    }

    /// The text of a string value.
    pub fn as_str(&self) -> (r: Option<&str>)
        ensures
            match self@ {
                JsonModel::Str(s) => r matches Some(t) && t@ == s,
                _ => r is None,
            },
    {
        match self {
            JsonValue::String(s) => Some(s.as_str()),
            _ => None,
        }
    }

    /// The value of a number that fits in a `u64`.
    pub fn as_u64(&self) -> (r: Option<u64>)
        ensures
            match self@ {
                JsonModel::Number(NumberModel::U64(n)) => r == Some(n),
                _ => r is None,
            },
    {
        match self {
            JsonValue::Number(JsonNumber::U64(n)) => Some(*n),
            _ => None,
        }
    }

    /// The value of a boolean.
    pub fn as_bool(&self) -> (r: Option<bool>)
        ensures
            match self@ {
                JsonModel::Bool(b) => r == Some(b),
                _ => r is None,
            },
    {
        match self {
            JsonValue::Bool(b) => Some(*b),
            _ => None,
        }
    }

    /// Whether the value is `null`.
    pub fn is_null(&self) -> (r: bool)
        ensures
            r == (self@ is Null),
    {
        match self {
            JsonValue::Null => true,
            _ => false,
        }
    }
}

} // verus!
