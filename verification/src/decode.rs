//! Reading schema documents and template documents out of JSON.
//!
//! A document is a JSON object. A member that a document must have is
//! *required*; any other member may be left out and then takes its default.
//! Members that a document has beyond those named here are passed over.

use vstd::prelude::*;
use crate::catalog::{
    DocumentModel, MatchModel, MetaModel, TemplateDocument, TemplateMatch, TemplateMeta,
};
use crate::json::{last_member, models, JsonModel, JsonNumberKind, JsonValue};
use crate::schema::{
    opt_text, raw_models, ButtonStyle, ComponentKind, DiffLine, DiffLineKind, DiffLineModel,
    FieldKindModel, FormFieldKind, KindModel, OutputContract, OutputModel, RawComponent,
    RawComponentModel, RawFieldModel, RawFormField, SchemaModel, UiSchema,
};
use crate::text::{append, owned, same_text, views};
use crate::validate::{field_models, output_models};

verus! {

/// The text of a required string member.
pub open spec fn text_at(v: JsonModel, key: Seq<char>) -> Option<Seq<char>> {
    match v.member(key) {
        Some(JsonModel::Text(s)) => Some(s),
        _ => None,
    }
}

/// The text of an optional string member: `Some(None)` where the member is
/// left out or null, `None` where it is there and no string.
pub open spec fn optional_text_at(v: JsonModel, key: Seq<char>) -> Option<Option<Seq<char>>> {
    match v.member(key) {
        None => Some(None),
        Some(JsonModel::Null) => Some(None),
        Some(JsonModel::Text(s)) => Some(Some(s)),
        Some(_) => None,
    }
}

/// The items of an array member: none where the member is left out, `None`
/// where it is there and no array.
pub open spec fn items_at(v: JsonModel, key: Seq<char>) -> Option<Seq<JsonModel>> {
    match v.member(key) {
        None => Some(Seq::empty()),
        Some(JsonModel::Array(items)) => Some(items),
        Some(_) => None,
    }
}

/// The items decoded one by one; `None` where one of them does not decode.
pub open spec fn decode_all<T>(items: Seq<JsonModel>, decode: spec_fn(JsonModel) -> Option<T>) -> Option<
    Seq<T>,
>
    decreases items.len(),
{
    if items.len() == 0 {
        Some(Seq::empty())
    } else {
        match (decode_all(items.drop_last(), decode), decode(items.last())) {
            (Some(front), Some(last)) => Some(front.push(last)),
            _ => None,
        }
    }
}

/// The texts of an array member whose items are strings.
pub open spec fn texts_at(v: JsonModel, key: Seq<char>) -> Option<Seq<Seq<char>>> {
    match items_at(v, key) {
        Some(items) => decode_all(items, |item: JsonModel| item.text()),
        None => None,
    }
}

/// The component kind that a name stands for.
pub open spec fn kind_of_name(name: Seq<char>) -> KindModel {
    if name == "markdown"@ {
        KindModel::Markdown
    } else if name == "form"@ {
        KindModel::Form
    } else if name == "code"@ {
        KindModel::Code
    } else if name == "diff"@ {
        KindModel::Diff
    } else if name == "button"@ {
        KindModel::Button
    } else {
        KindModel::Unknown(name)
    }
}

/// The field kind that a name stands for.
pub open spec fn field_kind_of_name(name: Seq<char>) -> FieldKindModel {
    if name == "text"@ {
        FieldKindModel::Text
    } else if name == "number"@ {
        FieldKindModel::Number
    } else if name == "select"@ {
        FieldKindModel::Select
    } else if name == "checkbox"@ {
        FieldKindModel::Checkbox
    } else {
        FieldKindModel::Unknown(name)
    }
}

/// The diff line kind that a name stands for.
pub open spec fn line_kind_of_name(name: Seq<char>) -> Option<DiffLineKind> {
    if name == "added"@ {
        Some(DiffLineKind::Added)
    } else if name == "removed"@ {
        Some(DiffLineKind::Removed)
    } else if name == "context"@ {
        Some(DiffLineKind::Context)
    } else {
        None
    }
}

/// The button style of an optional `variant` member.
pub open spec fn variant_at(v: JsonModel) -> Option<Option<ButtonStyle>> {
    match optional_text_at(v, "variant"@) {
        Some(None) => Some(None),
        Some(Some(name)) => if name == "primary"@ {
            Some(Some(ButtonStyle::Primary))
        } else if name == "secondary"@ {
            Some(Some(ButtonStyle::Secondary))
        } else {
            None
        },
        None => None,
    }
}

/// The output contract that a JSON value writes: an object with the
/// required strings `component_id` and `event_id`.
pub open spec fn decode_output(v: JsonModel) -> Option<OutputModel> {
    match (text_at(v, "component_id"@), text_at(v, "event_id"@)) {
        (Some(component_id), Some(event_id)) => Some(OutputModel { component_id, event_id }),
        _ => None,
    }
}

/// The diff line that a JSON value writes: an object with the required
/// strings `kind` and `text`.
pub open spec fn decode_line(v: JsonModel) -> Option<DiffLineModel> {
    match (text_at(v, "kind"@), text_at(v, "text"@)) {
        (Some(kind), Some(text)) => match line_kind_of_name(kind) {
            Some(kind) => Some(DiffLineModel { kind, text }),
            None => None,
        },
        _ => None,
    }
}

/// The form field that a JSON value writes: an object with the required
/// strings `id`, `label` and `kind`, the optional list of strings `options`
/// and the optional member `default`, which may be any value.
pub open spec fn decode_field(v: JsonModel) -> Option<RawFieldModel> {
    match (text_at(v, "id"@), text_at(v, "label"@), text_at(v, "kind"@), texts_at(v, "options"@)) {
        (Some(id), Some(label), Some(kind), Some(options)) => Some(
            RawFieldModel {
                id,
                label,
                kind: field_kind_of_name(kind),
                options,
                default: match v.member("default"@) {
                    Some(d) => d,
                    None => JsonModel::Null,
                },
            },
        ),
        _ => None,
    }
}

/// A member of a value stands below the value.
pub proof fn lemma_member_decreases(v: JsonModel, key: Seq<char>)
    ensures
        v.member(key) matches Some(c) ==> decreases_to!(v => c),
{
    match v {
        JsonModel::Object(members) => {
            lemma_last_member_decreases(members, key);
        },
        _ => {},
    }
}

/// The member that a lookup finds stands below the list of members.
pub proof fn lemma_last_member_decreases(members: Seq<(Seq<char>, JsonModel)>, key: Seq<char>)
    ensures
        last_member(members, key) matches Some(c) ==> decreases_to!(members => c),
    decreases members.len(),
{
    if members.len() > 0 {
        if members.last().0 == key {
            assert(decreases_to!(members => members[members.len() - 1]));
            assert(decreases_to!(members[members.len() - 1] => members[members.len() - 1].1));
        } else {
            lemma_last_member_decreases(members.drop_last(), key);
            let front = members.drop_last();
            if last_member(front, key).is_some() {
                lemma_last_member_is_member(front, key);
                let i = choose|i: int|
                    0 <= i < front.len() && Some((#[trigger] front[i]).1) == last_member(
                        front,
                        key,
                    );
                assert(front[i] == members[i]);
                assert(decreases_to!(members => members[i]));
                assert(decreases_to!(members[i] => members[i].1));
            }
        }
    }
}

/// The member that a lookup finds is one of the members.
pub proof fn lemma_last_member_is_member(members: Seq<(Seq<char>, JsonModel)>, key: Seq<char>)
    requires
        last_member(members, key).is_some(),
    ensures
        exists|i: int|
            0 <= i < members.len() && Some((#[trigger] members[i]).1) == last_member(members, key),
    decreases members.len(),
{
    if members.last().0 == key {
        assert(Some(members[members.len() - 1].1) == last_member(members, key));
    } else {
        let front = members.drop_last();
        lemma_last_member_is_member(front, key);
        let i = choose|i: int|
            0 <= i < front.len() && Some((#[trigger] front[i]).1) == last_member(front, key);
        assert(members[i] == front[i]);
    }
}

/// The component that a JSON value writes: an object with the required
/// strings `id` and `kind`, the optional strings `title`, `text`,
/// `language`, `code` and `label`, the optional `variant`, and the optional
/// lists `fields`, `lines` and `children`.
pub open spec fn decode_component(v: JsonModel) -> Option<RawComponentModel>
    decreases v, 0nat,
{
    if !(v is Object) {
        None
    } else {
        let children = match v.member("children"@) {
            None => Some(Seq::empty()),
            Some(JsonModel::Array(items)) => {
                proof {
                    lemma_member_decreases(v, "children"@);
                }
                decode_components(items)
            },
            Some(_) => None,
        };
        match (
            text_at(v, "id"@),
            text_at(v, "kind"@),
            optional_text_at(v, "title"@),
            optional_text_at(v, "text"@),
            optional_text_at(v, "language"@),
            optional_text_at(v, "code"@),
            optional_text_at(v, "label"@),
        ) {
            (Some(id), Some(kind), Some(title), Some(text), Some(language), Some(code), Some(label)) => {
                match (
                    variant_at(v),
                    match items_at(v, "fields"@) {
                        Some(items) => decode_all(items, |item: JsonModel| decode_field(item)),
                        None => None,
                    },
                    match items_at(v, "lines"@) {
                        Some(items) => decode_all(items, |item: JsonModel| decode_line(item)),
                        None => None,
                    },
                    children,
                ) {
                    (Some(variant), Some(fields), Some(lines), Some(children)) => Some(
                        RawComponentModel {
                            id,
                            kind: kind_of_name(kind),
                            title,
                            text,
                            fields,
                            language,
                            code,
                            lines,
                            label,
                            variant,
                            children,
                        },
                    ),
                    _ => None,
                }
            },
            _ => None,
        }
    }
}

/// The components that a list of JSON values writes; `None` where one of
/// them writes no component.
pub open spec fn decode_components(items: Seq<JsonModel>) -> Option<Seq<RawComponentModel>>
    decreases items, 1nat,
{
    if items.len() == 0 {
        Some(Seq::empty())
    } else {
        match (decode_components(items.drop_last()), decode_component(items.last())) {
            (Some(front), Some(last)) => Some(front.push(last)),
            _ => None,
        }
    }
}

/// The schema version of a document: one where the member is left out, the
/// member's value where it is a whole number that fits 32 bits.
pub open spec fn version_at(v: JsonModel) -> Option<u32> {
    match v.member("schema_version"@) {
        None => Some(1u32),
        Some(JsonModel::Number(n)) => match n.kind {
            JsonNumberKind::PosInt(value) => if value <= u32::MAX {
                Some(value as u32)
            } else {
                None
            },
            _ => None,
        },
        Some(_) => None,
    }
}

/// The schema that a JSON value writes: an object with the optional number
/// `schema_version` and the optional lists `outputs` and `components`.
pub open spec fn decode_schema(v: JsonModel) -> Option<SchemaModel> {
    if !(v is Object) {
        None
    } else {
        match (
            version_at(v),
            match items_at(v, "outputs"@) {
                Some(items) => decode_all(items, |item: JsonModel| decode_output(item)),
                None => None,
            },
            match items_at(v, "components"@) {
                Some(items) => decode_components(items),
                None => None,
            },
        ) {
            (Some(schema_version), Some(outputs), Some(components)) => Some(
                SchemaModel { schema_version, outputs, components },
            ),
            _ => None,
        }
    }
}

/// The metadata that a JSON value writes: an object with the required
/// strings `id`, `title` and `version` and the optional list of strings
/// `tags`.
pub open spec fn decode_meta(v: JsonModel) -> Option<MetaModel> {
    match (text_at(v, "id"@), text_at(v, "title"@), text_at(v, "version"@), texts_at(v, "tags"@)) {
        (Some(id), Some(title), Some(version), Some(tags)) => Some(
            MetaModel { id, title, version, tags },
        ),
        _ => None,
    }
}

/// The match rules that a JSON value writes: an object with the required
/// string `primary` and the optional lists of strings `operations` and
/// `tags`.
pub open spec fn decode_match(v: JsonModel) -> Option<MatchModel> {
    match (text_at(v, "primary"@), texts_at(v, "operations"@), texts_at(v, "tags"@)) {
        (Some(primary), Some(operations), Some(tags)) => Some(
            MatchModel { primary, operations, tags },
        ),
        _ => None,
    }
}

/// The template document that a JSON value writes: an object with the
/// required members `meta`, `match` and `schema`. The schema is taken as
/// it stands.
pub open spec fn decode_document(v: JsonModel) -> Option<DocumentModel> {
    match (v.member("meta"@), v.member("match"@), v.member("schema"@)) {
        (Some(meta), Some(rules), Some(schema)) => match (decode_meta(meta), decode_match(rules)) {
            (Some(meta), Some(match_rules)) => Some(DocumentModel { meta, match_rules, schema }),
            _ => None,
        },
        _ => None,
    }
}

/// The message for a member that is missing or of the wrong type: it
/// names the member's key between backticks.
pub open spec fn member_message(key: Seq<char>) -> Seq<char> {
    "missing or invalid field `"@ + key + "`"@
}

/// The message for a member that is missing or of the wrong type.
fn bad_member(key: &str) -> (r: String)
    ensures
        r@ == member_message(key@),
{
    let mut out = owned("missing or invalid field `");
    append(&mut out, key);
    append(&mut out, "`");
    out
}

/// The text of a required string member, or the message that names the
/// member where it is missing or no string.
pub fn read_text(v: &JsonValue, key: &str) -> (r: Result<String, String>)
    ensures
        match r {
            Ok(s) => text_at(v@, key@) == Some(s@),
            Err(e) => text_at(v@, key@).is_none() && e@ == member_message(key@),
        },
{
    match v.get(key) {
        Some(JsonValue::Text(s)) => Ok(s.clone()),
        _ => Err(bad_member(key)),
    }
}

/// The text of an optional string member.
pub fn read_optional_text(v: &JsonValue, key: &str) -> (r: Result<Option<String>, String>)
    ensures
        match r {
            Ok(s) => optional_text_at(v@, key@) == Some(opt_text(s)),
            Err(e) => optional_text_at(v@, key@).is_none() && e@ == member_message(key@),
        },
{
    match v.get(key) {
        None => Ok(None),
        Some(JsonValue::Null) => Ok(None),
        Some(JsonValue::Text(s)) => Ok(Some(s.clone())),
        Some(_) => Err(bad_member(key)),
    }
}

/// The items of an array member; `Ok(None)` where the member is left out.
pub fn read_items<'a>(v: &'a JsonValue, key: &str) -> (r: Result<Option<&'a Vec<JsonValue>>, String>)
    ensures
        match r {
            Ok(Some(items)) => items_at(v@, key@) == Some(models(items@)) && v@.member(key@)
                == Some(JsonModel::Array(models(items@))),
            Ok(None) => items_at(v@, key@) == Some(Seq::<JsonModel>::empty()) && v@.member(
                key@,
            ).is_none(),
            Err(e) => items_at(v@, key@).is_none() && e@ == member_message(key@),
        },
{
    match v.get(key) {
        None => Ok(None),
        Some(JsonValue::Array(items)) => {
            assert(JsonValue::Array(*items)@->Array_0 =~= models(items@));
            Ok(Some(items))
        },
        Some(_) => Err(bad_member(key)),
    }
}

/// The texts of an array member whose items are strings.
pub fn read_texts(v: &JsonValue, key: &str) -> (r: Result<Vec<String>, String>)
    ensures
        match r {
            Ok(list) => texts_at(v@, key@) == Some(views(list@)),
            Err(e) => texts_at(v@, key@).is_none() && e@ == member_message(key@),
        },
{
    let items = match read_items(v, key) {
        Ok(Some(items)) => items,
        Ok(None) => {
            let none: Vec<String> = Vec::new();
            assert(views(none@) =~= Seq::<Seq<char>>::empty());
            return Ok(none);
        },
        Err(e) => {
            return Err(e);
        },
    };
    let ghost all = models(items@);
    let ghost decode = |item: JsonModel| item.text();
    let mut out: Vec<String> = Vec::new();
    let mut i: usize = 0;
    assert(all.take(0) =~= Seq::<JsonModel>::empty());
    assert(views(out@) =~= Seq::<Seq<char>>::empty());
    while i < items.len()
        invariant
            i <= items@.len(),
            all == models(items@),
            items_at(v@, key@) == Some(all),
            decode == |item: JsonModel| item.text(),
            decode_all(all.take(i as int), decode) == Some(views(out@)),
        decreases items@.len() - i,
    {
        proof {
            assert(all.take(i + 1).drop_last() =~= all.take(i as int));
            assert(all.take(i + 1).last() == items@[i as int]@);
        }
        match items[i].as_text() {
            Some(s) => {
                let ghost before = views(out@);
                out.push(owned(s));
                assert(views(out@) =~= before.push(s@));
            },
            None => {
                proof {
                    lemma_decode_all_prefix(all, decode, i + 1);
                }
                return Err(bad_member(key));
            },
        }
        i += 1;
    }
    assert(all.take(items@.len() as int) =~= all);
    Ok(out)
}

/// A list of which a prefix does not decode does not decode.
pub proof fn lemma_decode_all_prefix<T>(
    items: Seq<JsonModel>,
    decode: spec_fn(JsonModel) -> Option<T>,
    n: int,
)
    requires
        0 <= n <= items.len(),
        decode_all(items.take(n), decode).is_none(),
    ensures
        decode_all(items, decode).is_none(),
    decreases items.len() - n,
{
    if n < items.len() {
        assert(items.take(n + 1).drop_last() =~= items.take(n));
        lemma_decode_all_prefix(items, decode, n + 1);
    } else {
        assert(items.take(n) =~= items);
    }
}

/// A list of components of which a prefix does not decode does not decode.
pub proof fn lemma_decode_components_prefix(items: Seq<JsonModel>, n: int)
    requires
        0 <= n <= items.len(),
        decode_components(items.take(n)).is_none(),
    ensures
        decode_components(items).is_none(),
    decreases items.len() - n,
{
    if n < items.len() {
        assert(items.take(n + 1).drop_last() =~= items.take(n));
        lemma_decode_components_prefix(items, n + 1);
    } else {
        assert(items.take(n) =~= items);
    }
}

/// The component kind that a name stands for.
pub fn component_kind_of(name: &str) -> (r: ComponentKind)
    ensures
        r@ == kind_of_name(name@),
{
    if same_text(name, "markdown") {
        ComponentKind::Markdown
    } else if same_text(name, "form") {
        ComponentKind::Form
    } else if same_text(name, "code") {
        ComponentKind::Code
    } else if same_text(name, "diff") {
        ComponentKind::Diff
    } else if same_text(name, "button") {
        ComponentKind::Button
    } else {
        ComponentKind::Unknown(owned(name))
    }
}

/// The field kind that a name stands for.
pub fn field_kind_of(name: &str) -> (r: FormFieldKind)
    ensures
        r@ == field_kind_of_name(name@),
{
    if same_text(name, "text") {
        FormFieldKind::Text
    } else if same_text(name, "number") {
        FormFieldKind::Number
    } else if same_text(name, "select") {
        FormFieldKind::Select
    } else if same_text(name, "checkbox") {
        FormFieldKind::Checkbox
    } else {
        FormFieldKind::Unknown(owned(name))
    }
}

/// Reads an output contract.
fn read_output(v: &JsonValue) -> (r: Result<OutputContract, String>)
    ensures
        match r {
            Ok(o) => decode_output(v@) == Some(o@),
            Err(_) => decode_output(v@).is_none(),
        },
{
    let component_id = match read_text(v, "component_id") {
        Ok(s) => s,
        Err(e) => {
            return Err(e);
        },
    };
    let event_id = match read_text(v, "event_id") {
        Ok(s) => s,
        Err(e) => {
            return Err(e);
        },
    };
    Ok(OutputContract { component_id, event_id })
}

/// Reads a diff line.
fn read_line(v: &JsonValue) -> (r: Result<DiffLine, String>)
    ensures
        match r {
            Ok(l) => decode_line(v@) == Some(l@),
            Err(_) => decode_line(v@).is_none(),
        },
{
    let kind = match read_text(v, "kind") {
        Ok(s) => s,
        Err(e) => {
            return Err(e);
        },
    };
    let text = match read_text(v, "text") {
        Ok(s) => s,
        Err(e) => {
            return Err(e);
        },
    };
    let kind = if same_text(kind.as_str(), "added") {
        DiffLineKind::Added
    } else if same_text(kind.as_str(), "removed") {
        DiffLineKind::Removed
    } else if same_text(kind.as_str(), "context") {
        DiffLineKind::Context
    } else {
        let mut message = owned("unknown diff line kind: ");
        append(&mut message, kind.as_str());
        return Err(message);
    };
    Ok(DiffLine { kind, text })
}

/// Reads a form field.
fn read_field(v: &JsonValue) -> (r: Result<RawFormField, String>)
    ensures
        match r {
            Ok(f) => decode_field(v@) == Some(f@),
            Err(_) => decode_field(v@).is_none(),
        },
{
    let id = match read_text(v, "id") {
        Ok(s) => s,
        Err(e) => {
            return Err(e);
        },
    };
    let label = match read_text(v, "label") {
        Ok(s) => s,
        Err(e) => {
            return Err(e);
        },
    };
    let kind = match read_text(v, "kind") {
        Ok(s) => s,
        Err(e) => {
            return Err(e);
        },
    };
    let options = match read_texts(v, "options") {
        Ok(list) => list,
        Err(e) => {
            return Err(e);
        },
    };
    let default = match v.get("default") {
        Some(d) => d.duplicate(),
        None => JsonValue::Null,
    };
    Ok(RawFormField { id, label, kind: field_kind_of(kind.as_str()), options, default })
}

/// Reads the outputs of a schema.
fn read_outputs(v: &JsonValue) -> (r: Result<Vec<OutputContract>, String>)
    ensures
        match (r, items_at(v@, "outputs"@)) {
            (Ok(list), Some(items)) => decode_all(items, |item: JsonModel| decode_output(item))
                == Some(output_models(list@)),
            (Ok(_), None) => false,
            (Err(_), Some(items)) => decode_all(
                items,
                |item: JsonModel| decode_output(item),
            ).is_none(),
            (Err(_), None) => true,
        },
{
    let ghost decode = |item: JsonModel| decode_output(item);
    let mut out: Vec<OutputContract> = Vec::new();
    assert(output_models(out@) =~= Seq::<OutputModel>::empty());
    let items = match read_items(v, "outputs") {
        Ok(Some(items)) => items,
        Ok(None) => {
            return Ok(out);
        },
        Err(e) => {
            return Err(e);
        },
    };
    let ghost all = models(items@);
    let mut i: usize = 0;
    assert(all.take(0) =~= Seq::<JsonModel>::empty());
    while i < items.len()
        invariant
            i <= items@.len(),
            all == models(items@),
            items_at(v@, "outputs"@) == Some(all),
            decode == |item: JsonModel| decode_output(item),
            decode_all(all.take(i as int), decode) == Some(output_models(out@)),
        decreases items@.len() - i,
    {
        proof {
            assert(all.take(i + 1).drop_last() =~= all.take(i as int));
            assert(all.take(i + 1).last() == items@[i as int]@);
        }
        match read_output(&items[i]) {
            Ok(o) => {
                let ghost before = output_models(out@);
                out.push(o);
                assert(output_models(out@) =~= before.push(o@));
            },
            Err(e) => {
                proof {
                    lemma_decode_all_prefix(all, decode, i + 1);
                }
                return Err(e);
            },
        }
        i += 1;
    }
    assert(all.take(items@.len() as int) =~= all);
    Ok(out)
}

/// The mathematical values of a list of diff lines.
pub open spec fn line_models(lines: Seq<DiffLine>) -> Seq<DiffLineModel> {
    Seq::new(lines.len(), |i: int| lines[i]@)
}

/// Reads the lines of a component.
fn read_lines(v: &JsonValue) -> (r: Result<Vec<DiffLine>, String>)
    ensures
        match (r, items_at(v@, "lines"@)) {
            (Ok(list), Some(items)) => decode_all(items, |item: JsonModel| decode_line(item))
                == Some(line_models(list@)),
            (Ok(_), None) => false,
            (Err(_), Some(items)) => decode_all(items, |item: JsonModel| decode_line(item)).is_none(),
            (Err(_), None) => true,
        },
{
    let ghost decode = |item: JsonModel| decode_line(item);
    let mut out: Vec<DiffLine> = Vec::new();
    assert(line_models(out@) =~= Seq::<DiffLineModel>::empty());
    let items = match read_items(v, "lines") {
        Ok(Some(items)) => items,
        Ok(None) => {
            return Ok(out);
        },
        Err(e) => {
            return Err(e);
        },
    };
    let ghost all = models(items@);
    let mut i: usize = 0;
    assert(all.take(0) =~= Seq::<JsonModel>::empty());
    while i < items.len()
        invariant
            i <= items@.len(),
            all == models(items@),
            items_at(v@, "lines"@) == Some(all),
            decode == |item: JsonModel| decode_line(item),
            decode_all(all.take(i as int), decode) == Some(line_models(out@)),
        decreases items@.len() - i,
    {
        proof {
            assert(all.take(i + 1).drop_last() =~= all.take(i as int));
            assert(all.take(i + 1).last() == items@[i as int]@);
        }
        match read_line(&items[i]) {
            Ok(l) => {
                let ghost before = line_models(out@);
                out.push(l);
                assert(line_models(out@) =~= before.push(l@));
            },
            Err(e) => {
                proof {
                    lemma_decode_all_prefix(all, decode, i + 1);
                }
                return Err(e);
            },
        }
        i += 1;
    }
    assert(all.take(items@.len() as int) =~= all);
    Ok(out)
}

/// Reads the fields of a component.
fn read_fields(v: &JsonValue) -> (r: Result<Vec<RawFormField>, String>)
    ensures
        match (r, items_at(v@, "fields"@)) {
            (Ok(list), Some(items)) => decode_all(items, |item: JsonModel| decode_field(item))
                == Some(field_models(list@)),
            (Ok(_), None) => false,
            (Err(_), Some(items)) => decode_all(
                items,
                |item: JsonModel| decode_field(item),
            ).is_none(),
            (Err(_), None) => true,
        },
{
    let ghost decode = |item: JsonModel| decode_field(item);
    let mut out: Vec<RawFormField> = Vec::new();
    assert(field_models(out@) =~= Seq::<RawFieldModel>::empty());
    let items = match read_items(v, "fields") {
        Ok(Some(items)) => items,
        Ok(None) => {
            return Ok(out);
        },
        Err(e) => {
            return Err(e);
        },
    };
    let ghost all = models(items@);
    let mut i: usize = 0;
    assert(all.take(0) =~= Seq::<JsonModel>::empty());
    while i < items.len()
        invariant
            i <= items@.len(),
            all == models(items@),
            items_at(v@, "fields"@) == Some(all),
            decode == |item: JsonModel| decode_field(item),
            decode_all(all.take(i as int), decode) == Some(field_models(out@)),
        decreases items@.len() - i,
    {
        proof {
            assert(all.take(i + 1).drop_last() =~= all.take(i as int));
            assert(all.take(i + 1).last() == items@[i as int]@);
        }
        match read_field(&items[i]) {
            Ok(f) => {
                let ghost before = field_models(out@);
                out.push(f);
                assert(field_models(out@) =~= before.push(f@));
            },
            Err(e) => {
                proof {
                    lemma_decode_all_prefix(all, decode, i + 1);
                }
                return Err(e);
            },
        }
        i += 1;
    }
    assert(all.take(items@.len() as int) =~= all);
    Ok(out)
}

/// Reads the `variant` of a component.
fn read_variant(v: &JsonValue) -> (r: Result<Option<ButtonStyle>, String>)
    ensures
        match r {
            Ok(style) => variant_at(v@) == Some(style),
            Err(_) => variant_at(v@).is_none(),
        },
{
    match read_optional_text(v, "variant") {
        Ok(None) => Ok(None),
        Ok(Some(name)) => {
            if same_text(name.as_str(), "primary") {
                Ok(Some(ButtonStyle::Primary))
            } else if same_text(name.as_str(), "secondary") {
                Ok(Some(ButtonStyle::Secondary))
            } else {
                Err(bad_member("variant"))
            }
        },
        Err(e) => Err(e),
    }
}

/// Reads a list of components.
fn read_components(items: &Vec<JsonValue>) -> (r: Result<Vec<RawComponent>, String>)
    ensures
        match r {
            Ok(list) => decode_components(models(items@)) == Some(raw_models(list@)),
            Err(_) => decode_components(models(items@)).is_none(),
        },
    decreases models(items@), 1nat,
{
    let ghost all = models(items@);
    let mut out: Vec<RawComponent> = Vec::new();
    let mut i: usize = 0;
    assert(all.take(0) =~= Seq::<JsonModel>::empty());
    assert(raw_models(out@) =~= Seq::<RawComponentModel>::empty());
    while i < items.len()
        invariant
            i <= items@.len(),
            all == models(items@),
            decode_components(all.take(i as int)) == Some(raw_models(out@)),
        decreases items@.len() - i,
    {
        proof {
            assert(all.take(i + 1).drop_last() =~= all.take(i as int));
            assert(all.take(i + 1).last() == items@[i as int]@);
            assert(decreases_to!(all => all[i as int]));
        }
        match read_component(&items[i]) {
            Ok(c) => {
                let ghost before = raw_models(out@);
                out.push(c);
                assert(raw_models(out@) =~= before.push(c@));
            },
            Err(e) => {
                proof {
                    lemma_decode_components_prefix(all, i + 1);
                }
                return Err(e);
            },
        }
        i += 1;
    }
    assert(all.take(items@.len() as int) =~= all);
    Ok(out)
}

/// Reads a component.
fn read_component(v: &JsonValue) -> (r: Result<RawComponent, String>)
    ensures
        match r {
            Ok(c) => decode_component(v@) == Some(c@),
            Err(_) => decode_component(v@).is_none(),
        },
    decreases v@, 0nat,
{
    match v {
        JsonValue::Object(_) => {},
        _ => {
            return Err(owned("expected an object"));
        },
    }
    let children = match read_items(v, "children") {
        Ok(Some(items)) => {
            proof {
                lemma_member_decreases(v@, "children"@);
            }
            match read_components(items) {
                Ok(list) => list,
                Err(e) => {
                    return Err(e);
                },
            }
        },
        Ok(None) => {
            let none: Vec<RawComponent> = Vec::new();
            assert(raw_models(none@) =~= Seq::<RawComponentModel>::empty());
            none
        },
        Err(e) => {
            return Err(e);
        },
    };
    let id = match read_text(v, "id") {
        Ok(s) => s,
        Err(e) => {
            return Err(e);
        },
    };
    let kind = match read_text(v, "kind") {
        Ok(s) => s,
        Err(e) => {
            return Err(e);
        },
    };
    let title = match read_optional_text(v, "title") {
        Ok(s) => s,
        Err(e) => {
            return Err(e);
        },
    };
    let text = match read_optional_text(v, "text") {
        Ok(s) => s,
        Err(e) => {
            return Err(e);
        },
    };
    let language = match read_optional_text(v, "language") {
        Ok(s) => s,
        Err(e) => {
            return Err(e);
        },
    };
    let code = match read_optional_text(v, "code") {
        Ok(s) => s,
        Err(e) => {
            return Err(e);
        },
    };
    let label = match read_optional_text(v, "label") {
        Ok(s) => s,
        Err(e) => {
            return Err(e);
        },
    };
    let variant = match read_variant(v) {
        Ok(s) => s,
        Err(e) => {
            return Err(e);
        },
    };
    let fields = match read_fields(v) {
        Ok(list) => list,
        Err(e) => {
            return Err(e);
        },
    };
    let lines = match read_lines(v) {
        Ok(list) => list,
        Err(e) => {
            return Err(e);
        },
    };
    let c = RawComponent {
        id,
        kind: component_kind_of(kind.as_str()),
        title,
        text,
        fields,
        language,
        code,
        lines,
        label,
        variant,
        children,
    };
    proof {
        assert(c@.fields =~= field_models(c.fields@));
        assert(c@.lines =~= line_models(c.lines@));
        assert(c@.children =~= raw_models(c.children@));
    }
    Ok(c)
}

impl UiSchema {
    /// Reads a schema out of a JSON document. The error is the message that
    /// tells what the document lacks.
    pub fn from_json(v: &JsonValue) -> (r: Result<UiSchema, String>)
        ensures
            match r {
                Ok(schema) => decode_schema(v@) == Some(schema@),
                Err(_) => decode_schema(v@).is_none(),
            },
    {
        match v {
            JsonValue::Object(_) => {},
            _ => {
                return Err(owned("expected an object"));
            },
        }
        let schema_version: u32 = match v.get("schema_version") {
            None => 1,
            Some(JsonValue::Number(n)) => match n.kind {
                JsonNumberKind::PosInt(value) => {
                    if value <= 0xffff_ffff {
                        value as u32
                    } else {
                        return Err(bad_member("schema_version"));
                    }
                },
                _ => {
                    return Err(bad_member("schema_version"));
                },
            },
            Some(_) => {
                return Err(bad_member("schema_version"));
            },
        };
        let outputs = match read_outputs(v) {
            Ok(list) => list,
            Err(e) => {
                return Err(e);
            },
        };
        let components = match read_items(v, "components") {
            Ok(Some(items)) => match read_components(items) {
                Ok(list) => list,
                Err(e) => {
                    return Err(e);
                },
            },
            Ok(None) => {
                let none: Vec<RawComponent> = Vec::new();
                assert(raw_models(none@) =~= Seq::<RawComponentModel>::empty());
                none
            },
            Err(e) => {
                return Err(e);
            },
        };
        let schema = UiSchema { schema_version, outputs, components };
        assert(schema@.outputs =~= output_models(schema.outputs@));
        Ok(schema)
    }
}

impl TemplateDocument {
    /// Reads a template document out of a JSON document. The error is the
    /// message that tells what the document lacks.
    pub fn from_json(v: &JsonValue) -> (r: Result<TemplateDocument, String>)
        ensures
            match r {
                Ok(document) => decode_document(v@) == Some(document@),
                Err(_) => decode_document(v@).is_none(),
            },
    {
        let meta_value = match v.get("meta") {
            Some(m) => m,
            None => {
                return Err(bad_member("meta"));
            },
        };
        let match_value = match v.get("match") {
            Some(m) => m,
            None => {
                return Err(bad_member("match"));
            },
        };
        let schema = match v.get("schema") {
            Some(s) => s.duplicate(),
            None => {
                return Err(bad_member("schema"));
            },
        };
        let id = match read_text(meta_value, "id") {
            Ok(s) => s,
            Err(e) => {
                return Err(e);
            },
        };
        let title = match read_text(meta_value, "title") {
            Ok(s) => s,
            Err(e) => {
                return Err(e);
            },
        };
        let version = match read_text(meta_value, "version") {
            Ok(s) => s,
            Err(e) => {
                return Err(e);
            },
        };
        let tags = match read_texts(meta_value, "tags") {
            Ok(list) => list,
            Err(e) => {
                return Err(e);
            },
        };
        let primary = match read_text(match_value, "primary") {
            Ok(s) => s,
            Err(e) => {
                return Err(e);
            },
        };
        let operations = match read_texts(match_value, "operations") {
            Ok(list) => list,
            Err(e) => {
                return Err(e);
            },
        };
        let match_tags = match read_texts(match_value, "tags") {
            Ok(list) => list,
            Err(e) => {
                return Err(e);
            },
        };
        Ok(
            TemplateDocument {
                meta: TemplateMeta { id, title, version, tags },
                match_rules: TemplateMatch { primary, operations, tags: match_tags },
                schema,
            },
        )
    }
}

} // verus!
