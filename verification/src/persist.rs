//! The persisted shapes: how intents, form values, canvas workspaces,
//! template documents and sessions are written as JSON and read back.

use vstd::prelude::*;
use crate::canvas::{state_models, BlockStateModel};
use crate::catalog::{DocumentModel, TemplateDocument};
use crate::decode::{
    decode_all, items_at, lemma_decode_all_prefix, optional_text_at, read_items,
    read_optional_text, read_text, read_texts, text_at, texts_at,
};
use crate::event::{FieldValueModel, UiFieldValue};
use crate::explorer::member_models;
use crate::form_state::{entries_map, keys_ascend, FormState};
use crate::intent::{IntentModel, UiIntent};
use crate::json::{last_member, models, JsonModel, JsonNumber, JsonNumberKind, JsonValue};
use crate::ranking::text_of;
use crate::text::{append, owned, same_text, views};
use crate::workspace::{CanvasBlockState, CanvasWorkspaceState};

verus! {

/// A JSON array of the given texts.
pub open spec fn text_array(texts: Seq<Seq<char>>) -> JsonModel {
    JsonModel::Array(Seq::new(texts.len(), |i: int| JsonModel::Text(texts[i])))
}

/// A text, or null where there is none.
pub open spec fn text_or_null(text: Option<Seq<char>>) -> JsonModel {
    match text {
        Some(s) => JsonModel::Text(s),
        None => JsonModel::Null,
    }
}

/// A JSON array of the given texts.
pub fn make_text_array(texts: &Vec<String>) -> (r: JsonValue)
    ensures
        r@ == text_array(views(texts@)),
{
    let mut items: Vec<JsonValue> = Vec::new();
    let mut i: usize = 0;
    while i < texts.len()
        invariant
            i <= texts@.len(),
            items@.len() == i,
            forall|k: int| 0 <= k < i ==> (#[trigger] items@[k])@ == JsonModel::Text(texts@[k]@),
        decreases texts@.len() - i,
    {
        items.push(JsonValue::Text(texts[i].clone()));
        i += 1;
    }
    let r = JsonValue::Array(items);
    assert(r@->Array_0 =~= text_array(views(texts@))->Array_0);
    r
}

/// A text, or null where there is none.
pub fn make_text_or_null(text: &Option<String>) -> (r: JsonValue)
    ensures
        r@ == text_or_null(text_of(*text)),
{
    match text {
        Some(s) => JsonValue::Text(s.clone()),
        None => JsonValue::Null,
    }
}

/// A JSON object with the given members.
pub fn make_object(members: Vec<(String, JsonValue)>) -> (r: JsonValue)
    ensures
        r@ == JsonModel::Object(Seq::new(members@.len(), |i: int| (members@[i].0@, members@[i].1@))),
{
    let ghost wanted = Seq::new(members@.len(), |i: int| (members@[i].0@, members@[i].1@));
    let r = JsonValue::Object(members);
    assert(r@->Object_0 =~= wanted);
    r
}

/// The intent as JSON: its primary category and its two term lists.
pub open spec fn intent_json(intent: IntentModel) -> JsonModel {
    JsonModel::Object(
        seq![
            ("primary"@, JsonModel::Text(intent.primary)),
            ("operations"@, text_array(intent.operations)),
            ("tags"@, text_array(intent.tags)),
        ],
    )
}

/// The intent that a JSON value writes: an object with the required
/// string `primary` and the optional lists of strings `operations` and
/// `tags`.
pub open spec fn decode_intent(v: JsonModel) -> Option<IntentModel> {
    match (text_at(v, "primary"@), texts_at(v, "operations"@), texts_at(v, "tags"@)) {
        (Some(primary), Some(operations), Some(tags)) => Some(
            IntentModel { primary, operations, tags },
        ),
        _ => None,
    }
}

impl UiIntent {
    /// The intent as JSON.
    pub fn to_json(&self) -> (r: JsonValue)
        ensures
            r@ == intent_json(self@),
    {
        let mut members: Vec<(String, JsonValue)> = Vec::new();
        members.push((owned("primary"), JsonValue::Text(self.primary.clone())));
        members.push((owned("operations"), make_text_array(&self.operations)));
        members.push((owned("tags"), make_text_array(&self.tags)));
        let r = make_object(members);
        assert(r@->Object_0 =~= intent_json(self@)->Object_0);
        r
    }

    /// Reads an intent out of JSON. The lists are taken as they are
    /// written.
    pub fn from_json(v: &JsonValue) -> (r: Result<UiIntent, String>)
        ensures
            match r {
                Ok(intent) => decode_intent(v@) == Some(intent@),
                Err(_) => decode_intent(v@).is_none(),
            },
    {
        let primary = match read_text(v, "primary") {
            Ok(s) => s,
            Err(e) => {
                return Err(e);
            },
        };
        let operations = match read_texts(v, "operations") {
            Ok(list) => list,
            Err(e) => {
                return Err(e);
            },
        };
        let tags = match read_texts(v, "tags") {
            Ok(list) => list,
            Err(e) => {
                return Err(e);
            },
        };
        Ok(UiIntent { primary, operations, tags })
    }
}

/// The field value as JSON: an object that names the kind of the value and
/// holds the value.
pub open spec fn field_value_json(value: FieldValueModel) -> JsonModel {
    match value {
        FieldValueModel::Text(s) => JsonModel::Object(
            seq![("kind"@, JsonModel::Text("text"@)), ("value"@, JsonModel::Text(s))],
        ),
        FieldValueModel::Number(bits) => JsonModel::Object(
            seq![
                ("kind"@, JsonModel::Text("number"@)),
                (
                    "value"@,
                    JsonModel::Number(JsonNumber { kind: JsonNumberKind::Float, float_bits: bits }),
                ),
            ],
        ),
        FieldValueModel::Select(s) => JsonModel::Object(
            seq![("kind"@, JsonModel::Text("select"@)), ("value"@, JsonModel::Text(s))],
        ),
        FieldValueModel::Checkbox(b) => JsonModel::Object(
            seq![("kind"@, JsonModel::Text("checkbox"@)), ("value"@, JsonModel::Bool(b))],
        ),
    }
}

/// The field value that a JSON value writes: an object whose `kind` names
/// one of the four kinds and whose `value` is of the type of that kind.
pub open spec fn decode_field_value(v: JsonModel) -> Option<FieldValueModel> {
    match (text_at(v, "kind"@), v.member("value"@)) {
        (Some(kind), Some(value)) => if kind == "text"@ {
            match value {
                JsonModel::Text(s) => Some(FieldValueModel::Text(s)),
                _ => None,
            }
        } else if kind == "number"@ {
            match value {
                JsonModel::Number(n) => Some(FieldValueModel::Number(n.float_bits)),
                _ => None,
            }
        } else if kind == "select"@ {
            match value {
                JsonModel::Text(s) => Some(FieldValueModel::Select(s)),
                _ => None,
            }
        } else if kind == "checkbox"@ {
            match value {
                JsonModel::Bool(b) => Some(FieldValueModel::Checkbox(b)),
                _ => None,
            }
        } else {
            None
        },
        _ => None,
    }
}

impl UiFieldValue {
    /// The field value as JSON.
    pub fn to_json(&self) -> (r: JsonValue)
        ensures
            r@ == field_value_json(self@),
    {
        let (kind, value) = match self {
            UiFieldValue::Text { value } => (owned("text"), JsonValue::Text(value.clone())),
            UiFieldValue::Number { bits } => (
                owned("number"),
                JsonValue::Number(JsonNumber { kind: JsonNumberKind::Float, float_bits: *bits }),
            ),
            UiFieldValue::Select { value } => (owned("select"), JsonValue::Text(value.clone())),
            UiFieldValue::Checkbox { value } => (owned("checkbox"), JsonValue::Bool(*value)),
        };
        let mut members: Vec<(String, JsonValue)> = Vec::new();
        members.push((owned("kind"), JsonValue::Text(kind)));
        members.push((owned("value"), value));
        let r = make_object(members);
        assert(r@->Object_0 =~= field_value_json(self@)->Object_0);
        r
    }

    /// Reads a field value out of JSON.
    pub fn from_json(v: &JsonValue) -> (r: Result<UiFieldValue, String>)
        ensures
            match r {
                Ok(value) => decode_field_value(v@) == Some(value@),
                Err(_) => decode_field_value(v@).is_none(),
            },
    {
        let kind = match read_text(v, "kind") {
            Ok(s) => s,
            Err(e) => {
                return Err(e);
            },
        };
        let value = match v.get("value") {
            Some(value) => value,
            None => {
                return Err(owned("missing field `value`"));
            },
        };
        if same_text(kind.as_str(), "text") {
            match value {
                JsonValue::Text(s) => Ok(UiFieldValue::Text { value: s.clone() }),
                _ => Err(owned("invalid value of a text field")),
            }
        } else if same_text(kind.as_str(), "number") {
            match value {
                JsonValue::Number(n) => Ok(UiFieldValue::Number { bits: n.float_bits }),
                _ => Err(owned("invalid value of a number field")),
            }
        } else if same_text(kind.as_str(), "select") {
            match value {
                JsonValue::Text(s) => Ok(UiFieldValue::Select { value: s.clone() }),
                _ => Err(owned("invalid value of a select field")),
            }
        } else if same_text(kind.as_str(), "checkbox") {
            match value {
                JsonValue::Bool(b) => Ok(UiFieldValue::Checkbox { value: *b }),
                _ => Err(owned("invalid value of a checkbox field")),
            }
        } else {
            let mut message = owned("unknown field value kind: ");
            append(&mut message, kind.as_str());
            Err(message)
        }
    }
}

/// The members that write a list of form values, in list order.
pub open spec fn form_members(entries: Seq<(String, UiFieldValue)>) -> Seq<(Seq<char>, JsonModel)> {
    Seq::new(entries.len(), |i: int| (entries[i].0@, field_value_json(entries[i].1@)))
}

/// The form values that the members of an object write: each member's
/// value read as a field value and put under the member's key, in member
/// order; `None` where a member's value writes no field value.
pub open spec fn decode_form_members(members: Seq<(Seq<char>, JsonModel)>) -> Option<
    Map<Seq<char>, FieldValueModel>,
>
    decreases members.len(),
{
    if members.len() == 0 {
        Some(Map::empty())
    } else {
        match (decode_form_members(members.drop_last()), decode_field_value(members.last().1)) {
            (Some(front), Some(value)) => Some(front.insert(members.last().0, value)),
            _ => None,
        }
    }
}

/// The form values that an optional member writes: none where the member
/// is left out.
pub open spec fn decode_form_state(v: Option<JsonModel>) -> Option<Map<Seq<char>, FieldValueModel>> {
    match v {
        None => Some(Map::empty()),
        Some(JsonModel::Object(members)) => decode_form_members(members),
        Some(_) => None,
    }
}

/// Form values of which a prefix writes none write none.
pub proof fn lemma_decode_form_prefix(members: Seq<(Seq<char>, JsonModel)>, n: int)
    requires
        0 <= n <= members.len(),
        decode_form_members(members.take(n)).is_none(),
    ensures
        decode_form_members(members).is_none(),
    decreases members.len() - n,
{
    if n < members.len() {
        assert(members.take(n + 1).drop_last() =~= members.take(n));
        lemma_decode_form_prefix(members, n + 1);
    } else {
        assert(members.take(n) =~= members);
    }
}

impl FormState {
    /// The form values as a JSON object: one member for each key, in the
    /// order of the keys. The object reads back as the same form values.
    pub fn to_json(&self) -> (r: JsonValue)
        ensures
            exists|entries: Seq<(String, UiFieldValue)>|
                #![trigger form_members(entries)]
                keys_ascend(entries) && entries_map(entries) == self@ && r@ == JsonModel::Object(
                    form_members(entries),
                ),
            decode_form_state(Some(r@)) == Some(self@),
    {
        let entries = self.entries();
        let mut members: Vec<(String, JsonValue)> = Vec::new();
        let mut i: usize = 0;
        while i < entries.len()
            invariant
                i <= entries@.len(),
                members@.len() == i,
                forall|k: int|
                    0 <= k < i ==> (#[trigger] members@[k]).0@ == entries@[k].0@ && members@[k].1@
                        == field_value_json(entries@[k].1@),
            decreases entries@.len() - i,
        {
            members.push((entries[i].0.clone(), entries[i].1.to_json()));
            i += 1;
        }
        let r = make_object(members);
        assert(r@->Object_0 =~= form_members(entries@));
        proof {
            lemma_form_round_trip(entries@);
        }
        r
    }

    /// Reads form values out of an optional JSON member.
    pub fn from_json(v: Option<&JsonValue>) -> (r: Result<FormState, String>)
        ensures
            match r {
                Ok(state) => decode_form_state(
                    match v {
                        Some(v) => Some(v@),
                        None => None,
                    },
                ) == Some(state@),
                Err(_) => decode_form_state(
                    match v {
                        Some(v) => Some(v@),
                        None => None,
                    },
                ).is_none(),
            },
    {
        let mut state = FormState::new();
        let members = match v {
            None => {
                return Ok(state);
            },
            Some(JsonValue::Object(members)) => members,
            Some(_) => {
                return Err(owned("invalid type of field `form_state`"));
            },
        };
        let ghost all = v.unwrap()@->Object_0;
        assert(all =~= member_models(members@));
        let mut i: usize = 0;
        assert(all.take(0) =~= Seq::<(Seq<char>, JsonModel)>::empty());
        while i < members.len()
            invariant
                i <= members@.len(),
                all == member_models(members@),
                v matches Some(x) && x@ == JsonModel::Object(all),
                decode_form_members(all.take(i as int)) == Some(state@),
            decreases members@.len() - i,
        {
            proof {
                assert(all.take(i + 1).drop_last() =~= all.take(i as int));
                assert(all.take(i + 1).last() == all[i as int]);
            }
            match UiFieldValue::from_json(&members[i].1) {
                Ok(value) => {
                    state.insert(members[i].0.clone(), value);
                },
                Err(e) => {
                    proof {
                        lemma_decode_form_prefix(all, i + 1);
                    }
                    return Err(e);
                },
            }
            i += 1;
        }
        assert(all.take(members@.len() as int) =~= all);
        Ok(state)
    }
}

/// The template document as JSON: its metadata, its match rules and its
/// schema.
pub open spec fn document_json(d: DocumentModel) -> JsonModel {
    JsonModel::Object(
        seq![
            (
                "meta"@,
                JsonModel::Object(
                    seq![
                        ("id"@, JsonModel::Text(d.meta.id)),
                        ("title"@, JsonModel::Text(d.meta.title)),
                        ("version"@, JsonModel::Text(d.meta.version)),
                        ("tags"@, text_array(d.meta.tags)),
                    ],
                ),
            ),
            (
                "match"@,
                JsonModel::Object(
                    seq![
                        ("primary"@, JsonModel::Text(d.match_rules.primary)),
                        ("operations"@, text_array(d.match_rules.operations)),
                        ("tags"@, text_array(d.match_rules.tags)),
                    ],
                ),
            ),
            ("schema"@, d.schema),
        ],
    )
}

impl TemplateDocument {
    /// The template document as JSON.
    pub fn to_json(&self) -> (r: JsonValue)
        ensures
            r@ == document_json(self@),
    {
        let mut meta: Vec<(String, JsonValue)> = Vec::new();
        meta.push((owned("id"), JsonValue::Text(self.meta.id.clone())));
        meta.push((owned("title"), JsonValue::Text(self.meta.title.clone())));
        meta.push((owned("version"), JsonValue::Text(self.meta.version.clone())));
        meta.push((owned("tags"), make_text_array(&self.meta.tags)));
        let meta = make_object(meta);
        assert(meta@->Object_0 =~= document_json(self@)->Object_0[0].1->Object_0);
        let mut rules: Vec<(String, JsonValue)> = Vec::new();
        rules.push((owned("primary"), JsonValue::Text(self.match_rules.primary.clone())));
        rules.push((owned("operations"), make_text_array(&self.match_rules.operations)));
        rules.push((owned("tags"), make_text_array(&self.match_rules.tags)));
        let rules = make_object(rules);
        assert(rules@->Object_0 =~= document_json(self@)->Object_0[1].1->Object_0);
        let mut members: Vec<(String, JsonValue)> = Vec::new();
        members.push((owned("meta"), meta));
        members.push((owned("match"), rules));
        members.push((owned("schema"), self.schema.duplicate()));
        let r = make_object(members);
        assert(r@->Object_0 =~= document_json(self@)->Object_0);
        r
    }
}

/// The block state that a JSON value writes: an object with the required
/// strings `block_id`, `template_id`, `title`, `provider_id` and
/// `provider_kind`, the required members `schema` and `intent`, the
/// optional boolean `minimized` and the optional object `form_state`.
pub open spec fn decode_block_state(v: JsonModel) -> Option<BlockStateModel> {
    match (
        text_at(v, "block_id"@),
        text_at(v, "template_id"@),
        text_at(v, "title"@),
        text_at(v, "provider_id"@),
        text_at(v, "provider_kind"@),
    ) {
        (Some(block_id), Some(template_id), Some(title), Some(provider_id), Some(provider_kind)) => {
            match (
                v.member("schema"@),
                match v.member("intent"@) {
                    Some(intent) => decode_intent(intent),
                    None => None,
                },
                match v.member("minimized"@) {
                    None => Some(false),
                    Some(JsonModel::Bool(b)) => Some(b),
                    Some(_) => None,
                },
                decode_form_state(v.member("form_state"@)),
            ) {
                (Some(schema), Some(intent), Some(minimized), Some(form_state)) => Some(
                    BlockStateModel {
                        block_id,
                        template_id,
                        title,
                        provider_id,
                        provider_kind,
                        schema,
                        intent,
                        minimized,
                        form_state,
                    },
                ),
                _ => None,
            }
        },
        _ => None,
    }
}

/// The workspace state that a JSON value writes: an object with the
/// optional list `blocks` and the optional string `active_block_id`.
pub open spec fn decode_workspace(v: JsonModel) -> Option<(Seq<BlockStateModel>, Option<Seq<char>>)> {
    if !(v is Object) {
        None
    } else {
        match (
            match items_at(v, "blocks"@) {
                Some(items) => decode_all(items, |item: JsonModel| decode_block_state(item)),
                None => None,
            },
            optional_text_at(v, "active_block_id"@),
        ) {
            (Some(blocks), Some(active)) => Some((blocks, active)),
            _ => None,
        }
    }
}

impl CanvasBlockState {
    /// The block state as JSON. The form values are written in the order
    /// of their keys.
    pub fn to_json(&self) -> (r: JsonValue)
        ensures
            decode_block_state(r@) == Some(self@),
    {
        let form_state = self.form_state.to_json();
        let intent = self.intent.to_json();
        let schema = self.schema.duplicate();
        let mut members: Vec<(String, JsonValue)> = Vec::new();
        members.push((owned("block_id"), JsonValue::Text(self.block_id.clone())));
        members.push((owned("template_id"), JsonValue::Text(self.template_id.clone())));
        members.push((owned("title"), JsonValue::Text(self.title.clone())));
        members.push((owned("provider_id"), JsonValue::Text(self.provider_id.clone())));
        members.push((owned("provider_kind"), JsonValue::Text(self.provider_kind.clone())));
        members.push((owned("schema"), schema));
        members.push((owned("intent"), intent));
        members.push((owned("minimized"), JsonValue::Bool(self.minimized)));
        members.push((owned("form_state"), form_state));
        let r = make_object(members);
        proof {
            assert(r@->Object_0 =~= seq![
                ("block_id"@, JsonModel::Text(self@.block_id)),
                ("template_id"@, JsonModel::Text(self@.template_id)),
                ("title"@, JsonModel::Text(self@.title)),
                ("provider_id"@, JsonModel::Text(self@.provider_id)),
                ("provider_kind"@, JsonModel::Text(self@.provider_kind)),
                ("schema"@, self@.schema),
                ("intent"@, intent@),
                ("minimized"@, JsonModel::Bool(self@.minimized)),
                ("form_state"@, form_state@),
            ]);
            lemma_block_state_round_trip(*self, r@, intent@, form_state@);
        }
        r
    }

    /// Reads a block state out of JSON.
    pub fn from_json(v: &JsonValue) -> (r: Result<CanvasBlockState, String>)
        ensures
            match r {
                Ok(state) => decode_block_state(v@) == Some(state@),
                Err(_) => decode_block_state(v@).is_none(),
            },
    {
        let block_id = match read_text(v, "block_id") {
            Ok(s) => s,
            Err(e) => {
                return Err(e);
            },
        };
        let template_id = match read_text(v, "template_id") {
            Ok(s) => s,
            Err(e) => {
                return Err(e);
            },
        };
        let title = match read_text(v, "title") {
            Ok(s) => s,
            Err(e) => {
                return Err(e);
            },
        };
        let provider_id = match read_text(v, "provider_id") {
            Ok(s) => s,
            Err(e) => {
                return Err(e);
            },
        };
        let provider_kind = match read_text(v, "provider_kind") {
            Ok(s) => s,
            Err(e) => {
                return Err(e);
            },
        };
        let schema = match v.get("schema") {
            Some(s) => s.duplicate(),
            None => {
                return Err(owned("missing field `schema`"));
            },
        };
        let intent = match v.get("intent") {
            Some(i) => match UiIntent::from_json(i) {
                Ok(intent) => intent,
                Err(e) => {
                    return Err(e);
                },
            },
            None => {
                return Err(owned("missing field `intent`"));
            },
        };
        let minimized = match v.get("minimized") {
            None => false,
            Some(JsonValue::Bool(b)) => *b,
            Some(_) => {
                return Err(owned("invalid type of field `minimized`"));
            },
        };
        let form_state = match FormState::from_json(v.get("form_state")) {
            Ok(state) => state,
            Err(e) => {
                return Err(e);
            },
        };
        Ok(
            CanvasBlockState {
                block_id,
                template_id,
                title,
                provider_id,
                provider_kind,
                schema,
                intent,
                minimized,
                form_state,
            },
        )
    }
}

/// A block state that is written as JSON reads back as the same state.
pub proof fn lemma_block_state_round_trip(
    state: CanvasBlockState,
    written: JsonModel,
    intent: JsonModel,
    form_state: JsonModel,
)
    requires
        intent == intent_json(state@.intent),
        exists|entries: Seq<(String, UiFieldValue)>|
            #![trigger form_members(entries)]
            keys_ascend(entries) && entries_map(entries) == state@.form_state && form_state
                == JsonModel::Object(form_members(entries)),
        written == JsonModel::Object(
            seq![
                ("block_id"@, JsonModel::Text(state@.block_id)),
                ("template_id"@, JsonModel::Text(state@.template_id)),
                ("title"@, JsonModel::Text(state@.title)),
                ("provider_id"@, JsonModel::Text(state@.provider_id)),
                ("provider_kind"@, JsonModel::Text(state@.provider_kind)),
                ("schema"@, state@.schema),
                ("intent"@, intent),
                ("minimized"@, JsonModel::Bool(state@.minimized)),
                ("form_state"@, form_state),
            ],
        ),
    ensures
        decode_block_state(written) == Some(state@),
{
    reveal_strlit("block_id");
    reveal_strlit("template_id");
    reveal_strlit("title");
    reveal_strlit("provider_id");
    reveal_strlit("provider_kind");
    reveal_strlit("schema");
    reveal_strlit("intent");
    reveal_strlit("minimized");
    reveal_strlit("form_state");
    let members = written->Object_0;
    assert("block_id"@.len() == 8 && "template_id"@.len() == 11 && "title"@.len() == 5);
    assert("provider_id"@.len() == 11 && "provider_kind"@.len() == 13 && "schema"@.len() == 6);
    assert("intent"@.len() == 6 && "minimized"@.len() == 9 && "form_state"@.len() == 10);
    assert("template_id"@[0] == 't' && "provider_id"@[0] == 'p');
    assert("schema"@[0] == 's' && "intent"@[0] == 'i');
    assert(members.len() == 9);
    assert forall|i: int, j: int| 0 <= i < j < members.len() implies (#[trigger] members[i]).0
        != (#[trigger] members[j]).0 by {
        assert(members[i].0.len() != members[j].0.len() || members[i].0[0] != members[j].0[0]);
    }
    lemma_member_lookup(members, 9);
    assert(members.take(9) =~= members);
    lemma_intent_round_trip(state@.intent);
    let entries = choose|entries: Seq<(String, UiFieldValue)>|
        #![trigger form_members(entries)]
        keys_ascend(entries) && entries_map(entries) == state@.form_state && form_state
            == JsonModel::Object(form_members(entries));
    lemma_form_round_trip(entries);
}

/// In a list of members with different keys, every key finds its member.
pub proof fn lemma_member_lookup(members: Seq<(Seq<char>, JsonModel)>, n: int)
    requires
        0 <= n <= members.len(),
        forall|i: int, j: int|
            0 <= i < j < members.len() ==> (#[trigger] members[i]).0 != (#[trigger] members[j]).0,
    ensures
        forall|i: int|
            0 <= i < n ==> last_member(members.take(n), (#[trigger] members[i]).0)
                == Some(members[i].1),
    decreases n,
{
    if n > 0 {
        lemma_member_lookup(members, n - 1);
        assert(members.take(n).drop_last() =~= members.take(n - 1));
        assert(members.take(n).last() == members[n - 1]);
        assert forall|i: int| 0 <= i < n implies last_member(
            members.take(n),
            (#[trigger] members[i]).0,
        ) == Some(members[i].1) by {
            if i < n - 1 {
                assert(members[i].0 != members[n - 1].0);
            }
        }
    }
}

/// A list of texts that is written as JSON reads back as the same list.
pub proof fn lemma_texts_round_trip(texts: Seq<Seq<char>>)
    ensures
        decode_all(text_array(texts)->Array_0, |item: JsonModel| item.text()) == Some(texts),
    decreases texts.len(),
{
    let items = text_array(texts)->Array_0;
    if texts.len() > 0 {
        lemma_texts_round_trip(texts.drop_last());
        assert(items.drop_last() =~= text_array(texts.drop_last())->Array_0);
        assert(texts.drop_last().push(texts.last()) =~= texts);
    } else {
        assert(texts =~= Seq::<Seq<char>>::empty());
    }
}

/// An intent that is written as JSON reads back as the same intent.
pub proof fn lemma_intent_round_trip(intent: IntentModel)
    ensures
        decode_intent(intent_json(intent)) == Some(intent),
{
    reveal_strlit("primary");
    reveal_strlit("operations");
    reveal_strlit("tags");
    let members = intent_json(intent)->Object_0;
    assert("primary"@.len() == 7 && "operations"@.len() == 10 && "tags"@.len() == 4);
    assert forall|i: int, j: int| 0 <= i < j < members.len() implies (#[trigger] members[i]).0
        != (#[trigger] members[j]).0 by {
        assert(members[i].0.len() != members[j].0.len());
    }
    lemma_member_lookup(members, 3);
    assert(members.take(3) =~= members);
    lemma_texts_round_trip(intent.operations);
    lemma_texts_round_trip(intent.tags);
}

/// A field value that is written as JSON reads back as the same value.
pub proof fn lemma_field_value_round_trip(value: FieldValueModel)
    ensures
        decode_field_value(field_value_json(value)) == Some(value),
{
    reveal_strlit("kind");
    reveal_strlit("value");
    reveal_strlit("text");
    reveal_strlit("number");
    reveal_strlit("select");
    reveal_strlit("checkbox");
    let members = field_value_json(value)->Object_0;
    assert("kind"@.len() == 4 && "value"@.len() == 5 && "text"@.len() == 4);
    assert("number"@.len() == 6 && "select"@.len() == 6 && "checkbox"@.len() == 8);
    assert("number"@[0] == 'n' && "select"@[0] == 's');
    assert(members.len() == 2);
    assert forall|i: int, j: int| 0 <= i < j < members.len() implies (#[trigger] members[i]).0
        != (#[trigger] members[j]).0 by {
        assert(members[i].0.len() != members[j].0.len());
    }
    lemma_member_lookup(members, 2);
    assert(members.take(2) =~= members);
}

/// Form values that are written as JSON read back as the same values.
pub proof fn lemma_form_round_trip(entries: Seq<(String, UiFieldValue)>)
    ensures
        decode_form_members(form_members(entries)) == Some(entries_map(entries)),
    decreases entries.len(),
{
    if entries.len() > 0 {
        lemma_form_round_trip(entries.drop_last());
        assert(form_members(entries).drop_last() =~= form_members(entries.drop_last()));
        lemma_field_value_round_trip(entries.last().1@);
    }
}

/// The mathematical value of a workspace state.
pub open spec fn workspace_model(w: CanvasWorkspaceState) -> (Seq<BlockStateModel>, Option<Seq<char>>) {
    (state_models(w.blocks@), text_of(w.active_block_id))
}

impl CanvasWorkspaceState {
    /// The workspace state as JSON: its blocks in list order, and the id
    /// of the active block or null.
    pub fn to_json(&self) -> (r: JsonValue)
        ensures
            decode_workspace(r@) == Some(workspace_model(*self)),
    {
        let ghost decode = |item: JsonModel| decode_block_state(item);
        let mut blocks: Vec<JsonValue> = Vec::new();
        let mut i: usize = 0;
        assert(models(blocks@) =~= Seq::<JsonModel>::empty());
        assert(state_models(self.blocks@).take(0) =~= Seq::<BlockStateModel>::empty());
        while i < self.blocks.len()
            invariant
                i <= self.blocks@.len(),
                blocks@.len() == i,
                decode == |item: JsonModel| decode_block_state(item),
                decode_all(models(blocks@), decode) == Some(
                    state_models(self.blocks@).take(i as int),
                ),
            decreases self.blocks@.len() - i,
        {
            let written = self.blocks[i].to_json();
            let ghost before = models(blocks@);
            blocks.push(written);
            proof {
                assert(models(blocks@).drop_last() =~= before);
                assert(models(blocks@).last() == written@);
                assert(state_models(self.blocks@).take(i + 1) =~= state_models(
                    self.blocks@,
                ).take(i as int).push(self.blocks@[i as int]@));
            }
            i += 1;
        }
        assert(state_models(self.blocks@).take(self.blocks@.len() as int) =~= state_models(
            self.blocks@,
        ));
        let blocks_value = JsonValue::Array(blocks);
        assert(blocks_value@ == JsonModel::Array(models(blocks@))) by {
            assert(blocks_value@->Array_0 =~= models(blocks@));
        }
        let active = make_text_or_null(&self.active_block_id);
        let mut members: Vec<(String, JsonValue)> = Vec::new();
        members.push((owned("blocks"), blocks_value));
        members.push((owned("active_block_id"), active));
        let r = make_object(members);
        proof {
            reveal_strlit("blocks");
            reveal_strlit("active_block_id");
            let all = r@->Object_0;
            assert("blocks"@.len() == 6 && "active_block_id"@.len() == 15);
            assert(all.len() == 2);
            assert forall|i: int, j: int| 0 <= i < j < all.len() implies (#[trigger] all[i]).0 != (
            #[trigger] all[j]).0 by {
                assert(all[i].0.len() != all[j].0.len());
            }
            lemma_member_lookup(all, 2);
            assert(all.take(2) =~= all);
            assert(all[0] == ("blocks"@, blocks_value@));
            assert(all[1] == ("active_block_id"@, active@));
            assert(r@.member("blocks"@) == Some(blocks_value@));
            assert(r@.member("active_block_id"@) == Some(active@));
            assert(items_at(r@, "blocks"@) == Some(models(blocks@)));
        }
        r
    }

    /// Reads a workspace state out of JSON.
    pub fn from_json(v: &JsonValue) -> (r: Result<CanvasWorkspaceState, String>)
        ensures
            match r {
                Ok(w) => decode_workspace(v@) == Some(workspace_model(w)),
                Err(_) => decode_workspace(v@).is_none(),
            },
    {
        match v {
            JsonValue::Object(_) => {},
            _ => {
                return Err(owned("expected an object"));
            },
        }
        let ghost decode = |item: JsonModel| decode_block_state(item);
        let mut blocks: Vec<CanvasBlockState> = Vec::new();
        assert(state_models(blocks@) =~= Seq::<BlockStateModel>::empty());
        match read_items(v, "blocks") {
            Ok(Some(items)) => {
                let ghost all = models(items@);
                let mut i: usize = 0;
                assert(all.take(0) =~= Seq::<JsonModel>::empty());
                while i < items.len()
                    invariant
                        i <= items@.len(),
                        all == models(items@),
                        items_at(v@, "blocks"@) == Some(all),
                        decode == |item: JsonModel| decode_block_state(item),
                        decode_all(all.take(i as int), decode) == Some(state_models(blocks@)),
                    decreases items@.len() - i,
                {
                    proof {
                        assert(all.take(i + 1).drop_last() =~= all.take(i as int));
                        assert(all.take(i + 1).last() == items@[i as int]@);
                    }
                    match CanvasBlockState::from_json(&items[i]) {
                        Ok(state) => {
                            let ghost before = state_models(blocks@);
                            blocks.push(state);
                            assert(state_models(blocks@) =~= before.push(state@));
                        },
                        Err(e) => {
                            proof {
                                lemma_decode_all_prefix(all, decode, i + 1);
                            }
                            return Err(e);
                        },
                    }
                    i += 1;
                }
                assert(all.take(items@.len() as int) =~= all);
            },
            Ok(None) => {},
            Err(e) => {
                return Err(e);
            },
        }
        let active_block_id = match read_optional_text(v, "active_block_id") {
            Ok(id) => id,
            Err(e) => {
                return Err(e);
            },
        };
        Ok(CanvasWorkspaceState { blocks, active_block_id })
    }
}

} // verus!
