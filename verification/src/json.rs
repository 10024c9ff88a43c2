//! A plain model of JSON documents, and the entry point that reads one from
//! text.

use vstd::arithmetic::power2::{
    lemma2_to64, lemma2_to64_rest, lemma_pow2_adds, lemma_pow2_pos,
    lemma_pow2_strictly_increases, lemma_pow2_unfold, pow2,
};
use vstd::prelude::*;
use crate::text::{owned, same_text};

verus! {

/// What kind of number a [`JsonNumber`] is, with the exact value of an
/// integer.
#[derive(Debug, Clone, Copy, PartialEq, Eq)]
pub enum JsonNumberKind {
    /// A non-negative integer.
    PosInt(u64),
    /// A negative integer.
    NegInt(i64),
    /// Any other number.
    Float,
}

/// A JSON number.
///
/// `float_bits` is the IEEE-754 bit pattern of the number read as a double;
/// an integer carries it next to its exact value.
#[derive(Debug, Clone, Copy, PartialEq, Eq)]
pub struct JsonNumber {
    pub kind: JsonNumberKind,
    pub float_bits: u64,
}

/// The exponent of a whole number above zero: the `e` with
/// `2^e <= v < 2^(e+1)`.
pub open spec fn exponent_of(v: nat) -> nat
    decreases v,
{
    if v <= 1 {
        0
    } else {
        1 + exponent_of(v / 2)
    }
}

/// The IEEE-754 bit pattern of the double that equals the whole number
/// `v`, for `v` below `2^53`: zero for zero; else the exponent, biased by
/// 1023, from bit 52 up, and below it what `v` holds beyond its leading bit,
/// moved up against bit 52.
pub open spec fn whole_double_bits(v: nat) -> int {
    if v == 0 {
        0
    } else {
        let e = exponent_of(v);
        (1023 + e) * pow2(52) + (v - pow2(e)) * pow2((52 - e) as nat)
    }
}

impl JsonNumber {
    /// The JSON number of a whole number.
    pub fn whole(v: u32) -> (r: JsonNumber)
        ensures
            r.kind == JsonNumberKind::PosInt(v as u64),
            r.float_bits == whole_double_bits(v as nat),
    {
        if v == 0 {
            return JsonNumber { kind: JsonNumberKind::PosInt(0), float_bits: 0 };
        }
        proof {
            lemma2_to64();
            lemma2_to64_rest();
        }
        let value: u64 = v as u64;
        let mut top: u64 = value;
        let mut lead: u64 = 1;
        let mut e: u64 = 0;
        while top > 1
            invariant
                1 <= top,
                e <= 31,
                lead == pow2(e as nat),
                lead * top <= value < lead * (top + 1),
                value <= u32::MAX,
                exponent_of(value as nat) == e + exponent_of(top as nat),
            decreases top,
        {
            proof {
                lemma_pow2_pos(e as nat);
                lemma_pow2_unfold((e + 1) as nat);
                lemma2_to64();
                assert(lead * 2 * (top / 2) <= lead * top && lead * (top + 1) <= lead * 2 * (top
                    / 2 + 1)) by (nonlinear_arith)
                    requires
                        lead >= 1,
                        top >= 2,
                ;
                assert(lead * 2 <= value) by (nonlinear_arith)
                    requires
                        lead * top <= value,
                        top >= 2,
                        lead >= 1,
                ;
                assert(e < 31);
            }
            top = top / 2;
            lead = lead * 2;
            e = e + 1;
        }
        assert(lead <= value < 2 * lead) by (nonlinear_arith)
            requires
                top == 1,
                lead * top <= value < lead * (top + 1),
        ;
        let mut scale: u64 = 1;
        let mut k: u64 = 0;
        while k < 52 - e
            invariant
                e <= 31,
                k <= 52 - e,
                scale == pow2(k as nat),
                scale <= 0x10_0000_0000_0000,
            decreases 52 - e - k,
        {
            proof {
                lemma_pow2_unfold((k + 1) as nat);
                lemma2_to64_rest();
                if k + 1 < 52 {
                    lemma_pow2_strictly_increases((k + 1) as nat, 52);
                }
            }
            scale = scale * 2;
            k = k + 1;
        }
        proof {
            lemma_pow2_adds(e as nat, (52 - e) as nat);
            assert((value - lead) * scale < lead * scale) by (nonlinear_arith)
                requires
                    value - lead < lead,
                    scale >= 1,
            ;
        }
        let float_bits: u64 = (1023 + e) * 0x10_0000_0000_0000 + (value - lead) * scale;
        JsonNumber { kind: JsonNumberKind::PosInt(value), float_bits }
    }
}

/// A JSON document.
#[derive(Debug, PartialEq, Eq)]
pub enum JsonValue {
    Null,
    Bool(bool),
    Number(JsonNumber),
    Text(String),
    Array(Vec<JsonValue>),
    /// The members in document order. A key may occur more than once; the
    /// last occurrence is the one that lookups see.
    Object(Vec<(String, JsonValue)>),
}

/// The mathematical value of a [`JsonValue`].
pub enum JsonModel {
    Null,
    Bool(bool),
    Number(JsonNumber),
    Text(Seq<char>),
    Array(Seq<JsonModel>),
    Object(Seq<(Seq<char>, JsonModel)>),
}

/// The mathematical value of `v`.
pub open spec fn json_model(v: JsonValue) -> JsonModel
    decreases v,
{
    match v {
        JsonValue::Null => JsonModel::Null,
        JsonValue::Bool(b) => JsonModel::Bool(b),
        JsonValue::Number(n) => JsonModel::Number(n),
        JsonValue::Text(s) => JsonModel::Text(s@),
        JsonValue::Array(items) => JsonModel::Array(
            Seq::new(
                items@.len(),
                |i: int|
                    if 0 <= i < items@.len() {
                        json_model(items@[i])
                    } else {
                        JsonModel::Null
                    },
            ),
        ),
        JsonValue::Object(members) => JsonModel::Object(
            Seq::new(
                members@.len(),
                |i: int|
                    if 0 <= i < members@.len() {
                        (members@[i].0@, json_model(members@[i].1))
                    } else {
                        (Seq::empty(), JsonModel::Null)
                    },
            ),
        ),
    }
}

impl View for JsonValue {
    type V = JsonModel;

    open spec fn view(&self) -> JsonModel {
        json_model(*self)
    }
}

impl JsonModel {
    /// The value of the last member of an object whose key is `key`.
    pub open spec fn member(self, key: Seq<char>) -> Option<JsonModel> {
        match self {
            JsonModel::Object(members) => last_member(members, key),
            _ => None,
        }
    }

    /// The text of a string value.
    pub open spec fn text(self) -> Option<Seq<char>> {
        match self {
            JsonModel::Text(s) => Some(s),
            _ => None,
        }
    }

    /// The value of a boolean.
    pub open spec fn boolean(self) -> Option<bool> {
        match self {
            JsonModel::Bool(b) => Some(b),
            _ => None,
        }
    }

    /// The number held by a number value.
    pub open spec fn number(self) -> Option<JsonNumber> {
        match self {
            JsonModel::Number(n) => Some(n),
            _ => None,
        }
    }

    /// The items of an array.
    pub open spec fn items(self) -> Option<Seq<JsonModel>> {
        match self {
            JsonModel::Array(items) => Some(items),
            _ => None,
        }
    }

    /// The text of the string member `key`, if the value is an object that
    /// has such a member.
    pub open spec fn text_member(self, key: Seq<char>) -> Option<Seq<char>> {
        match self.member(key) {
            Some(v) => v.text(),
            None => None,
        }
    }
}

/// The value of the last member in `members` whose key is `key`.
pub open spec fn last_member(members: Seq<(Seq<char>, JsonModel)>, key: Seq<char>) -> Option<
    JsonModel,
>
    decreases members.len(),
{
    if members.len() == 0 {
        None
    } else if members.last().0 == key {
        Some(members.last().1)
    } else {
        last_member(members.drop_last(), key)
    }
}

impl JsonValue {
    /// A string value holding the text of `s`.
    pub fn text(s: &str) -> (r: JsonValue)
        ensures
            r@ == JsonModel::Text(s@),
    {
        JsonValue::Text(owned(s))
    }

    /// The member `key` of an object: the last one where the key occurs more
    /// than once. `None` for a value that is no object or has no such member.
    pub fn get(&self, key: &str) -> (r: Option<&JsonValue>)
        ensures
            match r {
                Some(v) => self@.member(key@) == Some(v@),
                None => self@.member(key@).is_none(),
            },
    {
        match self {
            JsonValue::Object(members) => {
                let mut i: usize = members.len();
                let ghost all = self@->Object_0;
                assert(all.take(i as int) =~= all);
                while i > 0
                    invariant
                        i <= members@.len(),
                        self@ == JsonModel::Object(all),
                        all.len() == members@.len(),
                        forall|k: int|
                            0 <= k < members@.len() ==> all[k] == (
                                (#[trigger] members@[k]).0@,
                                members@[k].1@,
                            ),
                        last_member(all, key@) == last_member(all.take(i as int), key@),
                    decreases i,
                {
                    i -= 1;
                    proof {
                        assert(all.take(i + 1).drop_last() =~= all.take(i as int));
                    }
                    if same_text(members[i].0.as_str(), key) {
                        return Some(&members[i].1);
                    }
                }
                None
            },
            _ => None,
        }
    }

    /// The text of a string value.
    pub fn as_text(&self) -> (r: Option<&str>)
        ensures
            match r {
                Some(s) => self@.text() == Some(s@),
                None => self@.text().is_none(),
            },
    {
        match self {
            JsonValue::Text(s) => Some(s.as_str()),
            _ => None,
        }
    }

    /// The value of a boolean.
    pub fn as_bool(&self) -> (r: Option<bool>)
        ensures
            r == self@.boolean(),
    {
        match self {
            JsonValue::Bool(b) => Some(*b),
            _ => None,
        }
    }

    /// The number held by a number value.
    pub fn as_number(&self) -> (r: Option<JsonNumber>)
        ensures
            r == self@.number(),
    {
        match self {
            JsonValue::Number(n) => Some(*n),
            _ => None,
        }
    }

    /// The items of an array.
    pub fn as_array(&self) -> (r: Option<&Vec<JsonValue>>)
        ensures
            match r {
                Some(items) => self@.items() == Some(models(items@)),
                None => self@.items().is_none(),
            },
    {
        match self {
            JsonValue::Array(items) => {
                assert(self@->Array_0 =~= models(items@));
                Some(items)
            },
            _ => None,
        }
    }

    /// A copy of the document.
    pub fn duplicate(&self) -> (r: JsonValue)
        ensures
            r@ == self@,
        decreases self,
    {
        match self {
            JsonValue::Null => JsonValue::Null,
            JsonValue::Bool(b) => JsonValue::Bool(*b),
            JsonValue::Number(n) => JsonValue::Number(*n),
            JsonValue::Text(s) => JsonValue::Text(s.clone()),
            JsonValue::Array(items) => {
                let mut out: Vec<JsonValue> = Vec::new();
                let mut i: usize = 0;
                while i < items.len()
                    invariant
                        i <= items@.len(),
                        *self == JsonValue::Array(*items),
                        out@.len() == i,
                        forall|k: int| 0 <= k < i ==> (#[trigger] out@[k])@ == items@[k]@,
                    decreases items@.len() - i,
                {
                    proof {
                        assert(decreases_to!(*items => items[i as int]));
                        assert(self->Array_0 == *items);
                        assert(decreases_to!(*self => self->Array_0));
                        assert(decreases_to!(*self => items[i as int]));
                    }
                    out.push(items[i].duplicate());
                    i += 1;
                }
                let r = JsonValue::Array(out);
                assert(r@->Array_0 =~= self@->Array_0);
                r
            },
            JsonValue::Object(members) => {
                let mut out: Vec<(String, JsonValue)> = Vec::new();
                let mut i: usize = 0;
                while i < members.len()
                    invariant
                        i <= members@.len(),
                        *self == JsonValue::Object(*members),
                        out@.len() == i,
                        forall|k: int|
                            0 <= k < i ==> (#[trigger] out@[k]).0@ == members@[k].0@ && out@[k].1@
                                == members@[k].1@,
                    decreases members@.len() - i,
                {
                    proof {
                        assert(decreases_to!(*members => members[i as int]));
                        assert(self->Object_0 == *members);
                        assert(decreases_to!(*self => self->Object_0));
                        assert(decreases_to!(*self => members[i as int].1));
                    }
                    out.push((members[i].0.clone(), members[i].1.duplicate()));
                    i += 1;
                }
                let r = JsonValue::Object(out);
                assert(r@->Object_0 =~= self@->Object_0);
                r
            },
        }
    }
}

/// The mathematical values of a list of documents.
pub open spec fn models(items: Seq<JsonValue>) -> Seq<JsonModel> {
    Seq::new(items.len(), |i: int| items[i]@)
}

#[verifier::external_type_specification]
#[verifier::external_body]
pub struct ExSerdeValue(serde_json::Value);

#[verifier::external_type_specification]
#[verifier::external_body]
pub struct ExSerdeNumber(serde_json::Number);

/// What `serde_json::from_str` makes of a text: the document it reads, or
/// the message of the error with which it refuses the text.
pub uninterp spec fn parsed_json(text: Seq<char>) -> Result<JsonModel, Seq<char>>;

/// Trusted: turns a `serde_json::Number` into a [`JsonNumber`], from what its
/// accessors `as_u64`, `as_i64` and `as_f64` return.
#[verifier::external_body]
fn number_from_serde(n: &serde_json::Number) -> JsonNumber {
    let float_bits = n.as_f64().map(|x| x.to_bits()).unwrap_or_default();
    match (n.as_u64(), n.as_i64()) {
        (Some(value), _) => JsonNumber { kind: JsonNumberKind::PosInt(value), float_bits },
        (None, Some(value)) => JsonNumber { kind: JsonNumberKind::NegInt(value), float_bits },
        (None, None) => JsonNumber { kind: JsonNumberKind::Float, float_bits },
    }
}

/// Trusted: turns a `serde_json::Value` into a [`JsonValue`], variant by
/// variant; the members of an object come in the order in which its map
/// hands them out.
#[verifier::external_body]
fn value_from_serde(v: &serde_json::Value) -> JsonValue {
    match v {
        serde_json::Value::Null => JsonValue::Null,
        serde_json::Value::Bool(b) => JsonValue::Bool(*b),
        serde_json::Value::Number(n) => JsonValue::Number(number_from_serde(n)),
        serde_json::Value::String(s) => JsonValue::Text(s.clone()),
        serde_json::Value::Array(a) => JsonValue::Array(a.iter().map(value_from_serde).collect()),
        serde_json::Value::Object(m) => JsonValue::Object(
            m.iter().map(|(k, x)| (k.clone(), value_from_serde(x))).collect(),
        ),
    }
}

/// Trusted: stands for `serde_json::from_str` at the type
/// `serde_json::Value`. The result is named, not described: it is whatever
/// that parser reads from the text, or the message of its error.
#[verifier::external_body]
fn read_json(text: &str) -> (r: Result<JsonValue, String>)
    ensures
        match r {
            Ok(v) => parsed_json(text@) == Ok::<JsonModel, Seq<char>>(v@),
            Err(e) => parsed_json(text@) == Err::<JsonModel, Seq<char>>(e@),
        },
{
    match serde_json::from_str::<serde_json::Value>(text) {
        Ok(value) => Ok(value_from_serde(&value)),
        Err(err) => Err(err.to_string()),
    }
}

impl JsonValue {
    /// Reads a JSON document from text.
    pub fn parse(text: &str) -> (r: Result<JsonValue, String>)
        ensures
            match r {
                Ok(v) => parsed_json(text@) == Ok::<JsonModel, Seq<char>>(v@),
                Err(e) => parsed_json(text@) == Err::<JsonModel, Seq<char>>(e@),
            },
    {
        read_json(text)
    }
}

impl Clone for JsonValue {
    fn clone(&self) -> (r: Self)
        ensures
            r@ == self@,
    {
        self.duplicate()
    }
}

} // verus!
