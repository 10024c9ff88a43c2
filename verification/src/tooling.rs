//! What the catalog tool decides: how the arguments of a tool call are
//! read, what a tool call's outcome is summed up as, and what a query asks
//! the canvas to render.

use vstd::prelude::*;
use crate::canvas::{CanvasRenderRequest, RequestModel};
use crate::catalog::{
    kind_name, CatalogTemplate, DocumentModel, MatchModel, MetaModel, TemplateDocument,
    TemplateMatch, TemplateMeta, TemplateModel,
};
use crate::intent::{copy_terms, intent_summary, IntentModel, UiIntent};
use crate::intent_text::{intent_from_text, intent_of};
use crate::json::{parsed_json, JsonModel, JsonNumber, JsonNumberKind, JsonValue};
use crate::manager::CatalogManager;
use crate::persist::{make_object, make_text_or_null, text_or_null};
use crate::ranking::text_of;
use crate::resolve::resolution;
use crate::text::{
    append, ascii_lower, char_is_ascii_alnum, chars_of, decimal, format_unsigned, is_ascii_alnum,
    owned, push_char, replace_char, replaced, same_text, to_ascii_lower, trim, trimmed,
};

verus! {

/// The trimmed text of the string member `key`, where it is not empty.
pub open spec fn text_argument(args: JsonModel, key: Seq<char>) -> Option<Seq<char>> {
    match args.text_member(key) {
        Some(s) => if trimmed(s).len() > 0 {
            Some(trimmed(s))
        } else {
            None
        },
        None => None,
    }
}

/// The first text argument that the keys give, in the order of the keys.
pub open spec fn first_text_argument(args: JsonModel, keys: Seq<Seq<char>>) -> Option<Seq<char>>
    decreases keys.len(),
{
    if keys.len() == 0 {
        None
    } else {
        match text_argument(args, keys[0]) {
            Some(s) => Some(s),
            None => first_text_argument(args, keys.drop_first()),
        }
    }
}

/// The keys under which a query may stand.
pub open spec fn query_keys() -> Seq<Seq<char>> {
    seq!["query"@, "prompt"@, "request"@, "text"@, "message"@, "input"@]
}

/// The first text argument that stands one level down: in the member that
/// one of the keys names, under one of the query keys.
pub open spec fn nested_text_argument(args: JsonModel, keys: Seq<Seq<char>>) -> Option<Seq<char>>
    decreases keys.len(),
{
    if keys.len() == 0 {
        None
    } else {
        let here = match args.member(keys[0]) {
            Some(nested) => first_text_argument(nested, query_keys()),
            None => None,
        };
        match here {
            Some(s) => Some(s),
            None => nested_text_argument(args, keys.drop_first()),
        }
    }
}

/// The text that the arguments hold under one of the keys: a text right
/// under a key goes before a text that stands one level down.
pub open spec fn string_argument(args: JsonModel, keys: Seq<Seq<char>>) -> Option<Seq<char>> {
    match first_text_argument(args, keys) {
        Some(s) => Some(s),
        None => nested_text_argument(args, keys),
    }
}

/// The query of a tool call: the text under one of the query keys, or the
/// arguments themselves where they are one text.
pub open spec fn tool_query(args: JsonModel) -> Option<Seq<char>> {
    match string_argument(args, query_keys()) {
        Some(s) => Some(s),
        None => match args.text() {
            Some(s) => if trimmed(s).len() > 0 {
                Some(trimmed(s))
            } else {
                None
            },
            None => None,
        },
    }
}

/// The views of a list of keys.
pub open spec fn key_views(keys: Seq<&str>) -> Seq<Seq<char>> {
    Seq::new(keys.len(), |i: int| keys[i]@)
}

/// The trimmed text of the string member `key`, where it is not empty.
fn read_text_argument(args: &JsonValue, key: &str) -> (r: Option<String>)
    ensures
        text_of(r) == text_argument(args@, key@),
{
    match args.get(key) {
        Some(value) => match value.as_text() {
            Some(s) => {
                let text = trim(s);
                if text.as_str().unicode_len() > 0 {
                    Some(text)
                } else {
                    None
                }
            },
            None => None,
        },
        None => None,
    }
}

/// The first text argument that the keys give.
fn read_first_text_argument(args: &JsonValue, keys: &Vec<&str>) -> (r: Option<String>)
    ensures
        text_of(r) == first_text_argument(args@, key_views(keys@)),
{
    let ghost all = key_views(keys@);
    let mut i: usize = 0;
    assert(all.skip(0) =~= all);
    while i < keys.len()
        invariant
            i <= keys@.len(),
            all == key_views(keys@),
            first_text_argument(args@, all) == first_text_argument(args@, all.skip(i as int)),
        decreases keys@.len() - i,
    {
        proof {
            assert(all.skip(i as int)[0] == keys@[i as int]@);
            assert(all.skip(i as int).drop_first() =~= all.skip(i + 1));
        }
        match read_text_argument(args, keys[i]) {
            Some(s) => {
                return Some(s);
            },
            None => {},
        }
        i += 1;
    }
    None
}

/// The keys under which a query may stand.
pub fn query_key_list() -> (r: Vec<&'static str>)
    ensures
        key_views(r@) == query_keys(),
{
    let mut keys: Vec<&'static str> = Vec::new();
    keys.push("query");
    keys.push("prompt");
    keys.push("request");
    keys.push("text");
    keys.push("message");
    keys.push("input");
    assert(key_views(keys@) =~= query_keys());
    keys
}

/// The text that the arguments hold under one of the keys.
pub fn extract_string_argument(args: &JsonValue, keys: &Vec<&str>) -> (r: Option<String>)
    ensures
        text_of(r) == string_argument(args@, key_views(keys@)),
{
    match read_first_text_argument(args, keys) {
        Some(s) => {
            return Some(s);
        },
        None => {},
    }
    let nested_keys = query_key_list();
    let ghost all = key_views(keys@);
    let mut i: usize = 0;
    assert(all.skip(0) =~= all);
    while i < keys.len()
        invariant
            i <= keys@.len(),
            all == key_views(keys@),
            key_views(nested_keys@) == query_keys(),
            first_text_argument(args@, all).is_none(),
            nested_text_argument(args@, all) == nested_text_argument(args@, all.skip(i as int)),
        decreases keys@.len() - i,
    {
        proof {
            assert(all.skip(i as int)[0] == keys@[i as int]@);
            assert(all.skip(i as int).drop_first() =~= all.skip(i + 1));
        }
        match args.get(keys[i]) {
            Some(nested) => match read_first_text_argument(nested, &nested_keys) {
                Some(s) => {
                    return Some(s);
                },
                None => {},
            },
            None => {},
        }
        i += 1;
    }
    None
}

/// The query of a tool call.
pub fn extract_tool_query(args: &JsonValue) -> (r: Option<String>)
    ensures
        text_of(r) == tool_query(args@),
{
    let keys = query_key_list();
    match extract_string_argument(args, &keys) {
        Some(query) => {
            return Some(query);
        },
        None => {},
    }
    match args.as_text() {
        Some(s) => {
            let query = trim(s);
            if query.as_str().unicode_len() > 0 {
                Some(query)
            } else {
                None
            }
        },
        None => None,
    }
}

/// The status and the message that the payload of a successful tool call
/// gives: those that the payload states, or `success` without a message
/// where there is no payload or it states no status.
pub open spec fn payload_summary(payload: Option<JsonModel>) -> (Seq<char>, Option<Seq<char>>) {
    match payload {
        Some(payload) => match payload.text_member("status"@) {
            Some(status) => (status, payload.text_member("message"@)),
            None => ("success"@, None),
        },
        None => ("success"@, None),
    }
}

/// The status and the message of a failed tool call: the error's message,
/// or what the call returned, trimmed, where there is no error message.
pub open spec fn failure_summary(
    result_content: Option<Seq<char>>,
    error_message: Option<Seq<char>>,
) -> (Seq<char>, Option<Seq<char>>) {
    (
        "error"@,
        match error_message {
            Some(m) => Some(m),
            None => match result_content {
                Some(c) => if trimmed(c).len() > 0 {
                    Some(trimmed(c))
                } else {
                    None
                },
                None => None,
            },
        },
    )
}

/// The status and the message that sum up a tool call, where `parsed` is
/// what the JSON parser made of what the call returned.
pub open spec fn execution_summary(
    success: bool,
    result_content: Option<Seq<char>>,
    parsed: Option<Result<JsonModel, Seq<char>>>,
    error_message: Option<Seq<char>>,
) -> (Seq<char>, Option<Seq<char>>) {
    if !success {
        failure_summary(result_content, error_message)
    } else {
        payload_summary(
            match parsed {
                Some(Ok(payload)) => Some(payload),
                _ => None,
            },
        )
    }
}

/// Sums up the payload of a successful tool call.
pub fn summarize_tool_payload(payload: Option<&JsonValue>) -> (r: (String, Option<String>))
    ensures
        (r.0@, text_of(r.1)) == payload_summary(
            match payload {
                Some(p) => Some(p@),
                None => None,
            },
        ),
{
    match payload {
        Some(payload) => {
            let status = match payload.get("status") {
                Some(value) => match value.as_text() {
                    Some(s) => Some(owned(s)),
                    None => None,
                },
                None => None,
            };
            match status {
                Some(status) => {
                    let message = match payload.get("message") {
                        Some(value) => match value.as_text() {
                            Some(s) => Some(owned(s)),
                            None => None,
                        },
                        None => None,
                    };
                    (status, message)
                },
                None => (owned("success"), None),
            }
        },
        None => (owned("success"), None),
    }
}

/// Sums up a tool call as a status and a message.
pub fn summarize_tool_execution(
    success: bool,
    result_content: Option<&str>,
    error_message: Option<&str>,
) -> (r: (String, Option<String>))
    ensures
        (r.0@, text_of(r.1)) == execution_summary(
            success,
            match result_content {
                Some(c) => Some(c@),
                None => None,
            },
            match result_content {
                Some(c) => Some(parsed_json(c@)),
                None => None,
            },
            match error_message {
                Some(m) => Some(m@),
                None => None,
            },
        ),
{
    if !success {
        let fallback = match error_message {
            Some(m) => Some(owned(m)),
            None => match result_content {
                Some(c) => {
                    let text = trim(c);
                    if text.as_str().unicode_len() > 0 {
                        Some(text)
                    } else {
                        None
                    }
                },
                None => None,
            },
        };
        return (owned("error"), fallback);
    }
    match result_content {
        Some(content) => match JsonValue::parse(content) {
            Ok(payload) => summarize_tool_payload(Some(&payload)),
            Err(_) => summarize_tool_payload(None),
        },
        None => summarize_tool_payload(None),
    }
}

/// The line that the diagnostics get for the outcome of a tool call: the
/// tool and the status; a note where the catalog tool did not render, that
/// is where its status is `text_only` or `error`; and the message, if any,
/// on one line.
pub open spec fn outcome_line(
    tool_name: Seq<char>,
    status: Seq<char>,
    message: Option<Seq<char>>,
) -> Seq<char> {
    "tool outcome tool="@ + tool_name + " status="@ + status + (if tool_name
        == "query_ui_catalog"@ && (status == "text_only"@ || status == "error"@) {
        " canvas_not_rendered=true"@
    } else {
        Seq::empty()
    }) + (match message {
        Some(m) => " message="@ + replaced(m, '\n', ' '),
        None => Seq::empty(),
    })
}

/// The line that the diagnostics get for the outcome of a tool call.
pub fn tool_outcome_line(tool_name: &str, status: &str, message: Option<&str>) -> (r: String)
    ensures
        r@ == outcome_line(
            tool_name@,
            status@,
            match message {
                Some(m) => Some(m@),
                None => None,
            },
        ),
{
    let mut out = owned("tool outcome tool=");
    append(&mut out, tool_name);
    append(&mut out, " status=");
    append(&mut out, status);
    if same_text(tool_name, "query_ui_catalog") && (same_text(status, "text_only") || same_text(
        status,
        "error",
    )) {
        append(&mut out, " canvas_not_rendered=true");
    }
    match message {
        Some(m) => {
            append(&mut out, " message=");
            let flat = replace_char(m, '\n', ' ');
            append(&mut out, flat.as_str());
        },
        None => {},
    }
    assert(out@ =~= outcome_line(
        tool_name@,
        status@,
        match message {
            Some(m) => Some(m@),
            None => None,
        },
    ));
    out
}

/// `c` may stand in an identifier.
pub open spec fn in_identifier(c: char) -> bool {
    is_ascii_alnum(c) || c == '-' || c == '_'
}

/// The characters of `raw` that may stand in an identifier, in lower case.
pub open spec fn identifier_chars(raw: Seq<char>) -> Seq<char>
    decreases raw.len(),
{
    if raw.len() == 0 {
        Seq::empty()
    } else if in_identifier(raw.last()) {
        identifier_chars(raw.drop_last()).push(ascii_lower(raw.last()))
    } else {
        identifier_chars(raw.drop_last())
    }
}

/// The identifier that is made of a text: its first 32 characters that may
/// stand in an identifier, in lower case, or `ui` where it has none.
pub open spec fn identifier_of(raw: Seq<char>) -> Seq<char> {
    let kept = identifier_chars(raw);
    if kept.len() == 0 {
        "ui"@
    } else if kept.len() > 32 {
        kept.take(32)
    } else {
        kept
    }
}

/// What is kept of a prefix of a text stands at the start of what is kept
/// of the text.
pub proof fn lemma_identifier_chars_prefix(raw: Seq<char>, n: int)
    requires
        0 <= n <= raw.len(),
    ensures
        identifier_chars(raw.take(n)).len() <= identifier_chars(raw).len(),
        identifier_chars(raw).take(identifier_chars(raw.take(n)).len() as int)
            == identifier_chars(raw.take(n)),
    decreases raw.len() - n,
{
    if n < raw.len() {
        lemma_identifier_chars_prefix(raw, n + 1);
        assert(raw.take(n + 1).drop_last() =~= raw.take(n));
        let short = identifier_chars(raw.take(n));
        let long = identifier_chars(raw.take(n + 1));
        assert(identifier_chars(raw).take(short.len() as int) =~= identifier_chars(raw).take(
            long.len() as int,
        ).take(short.len() as int));
        assert(long.take(short.len() as int) =~= short);
    } else {
        assert(raw.take(n) =~= raw);
        assert(identifier_chars(raw).take(identifier_chars(raw).len() as int)
            =~= identifier_chars(raw));
    }
}

/// The identifier that is made of a text.
pub fn sanitize_identifier(raw: &str) -> (out: String)
    ensures
        out@ == identifier_of(raw@),
{
    let chars = chars_of(raw);
    let mut out = String::new();
    let mut count: usize = 0;
    let mut i: usize = 0;
    assert(chars@.take(0) =~= Seq::<char>::empty());
    while i < chars.len() && count < 32
        invariant
            chars@ == raw@,
            i <= chars@.len(),
            count <= 32,
            count == out@.len(),
            out@ == identifier_chars(chars@.take(i as int)),
        decreases chars@.len() - i,
    {
        let c = chars[i];
        proof {
            assert(chars@.take(i + 1).drop_last() =~= chars@.take(i as int));
            assert(chars@.take(i + 1).last() == c);
        }
        if char_is_ascii_alnum(c) || c == '-' || c == '_' {
            push_char(&mut out, to_ascii_lower(c));
            count += 1;
        }
        i += 1;
    }
    proof {
        lemma_identifier_chars_prefix(raw@, i as int);
        if i == chars@.len() {
            assert(chars@.take(i as int) =~= raw@);
        }
    }
    if count == 0 {
        assert(i == chars@.len());
        owned("ui")
    } else {
        assert(out@ =~= identifier_of(raw@));
        out
    }
}

/// The id of the provisional template that is made for an intent at a time.
pub open spec fn provisional_id(intent: IntentModel, now: nat) -> Seq<char> {
    "provisional."@ + identifier_of(intent.primary) + "."@ + decimal(now)
}

/// The id of the provisional template that is made for an intent at the
/// given time, in milliseconds.
pub fn provisional_template_id(intent: &UiIntent, now: u128) -> (r: String)
    ensures
        r@ == provisional_id(intent@, now as nat),
{
    let mut out = owned("provisional.");
    let name = sanitize_identifier(intent.primary.as_str());
    append(&mut out, name.as_str());
    append(&mut out, ".");
    let stamp = format_unsigned(now);
    append(&mut out, stamp.as_str());
    out
}

/// The number one as a JSON number; `float_bits` is the bit pattern of the
/// double 1.0.
pub open spec fn json_one() -> JsonNumber {
    JsonNumber { kind: JsonNumberKind::PosInt(1), float_bits: 0x3ff0_0000_0000_0000 }
}

/// A JSON object with the given members, each a key and a text.
pub open spec fn text_object(members: Seq<(Seq<char>, Seq<char>)>) -> JsonModel {
    JsonModel::Object(Seq::new(members.len(), |i: int| (members[i].0, JsonModel::Text(members[i].1))))
}

/// The components of the schema of a provisional template: an
/// introduction that repeats the query, and for a listing of files the
/// placeholder of the workspace tree.
pub open spec fn provisional_components(query: Seq<char>, intent: IntentModel) -> Seq<JsonModel> {
    let intro = text_object(
        seq![
            ("id"@, "provisional_intro"@),
            ("kind"@, "markdown"@),
            ("text"@, "### Provisional Canvas\\n"@ + trimmed(query)),
        ],
    );
    if intent.primary == "file_listing"@ {
        seq![
            intro,
            text_object(
                seq![
                    ("code"@, "__WORKSPACE_TREE__"@),
                    ("id"@, "workspace_tree"@),
                    ("kind"@, "code"@),
                    ("language"@, "text"@),
                ],
            ),
        ]
    } else {
        seq![intro]
    }
}

/// The provisional template that is made for a query and its intent at a
/// time.
pub open spec fn provisional_document(query: Seq<char>, intent: IntentModel, now: nat) -> DocumentModel {
    DocumentModel {
        meta: MetaModel {
            id: provisional_id(intent, now),
            title: "Provisional "@ + replaced(intent.primary, '_', ' '),
            version: "0.1.0"@,
            tags: intent.tags,
        },
        match_rules: MatchModel {
            primary: intent.primary,
            operations: intent.operations,
            tags: intent.tags,
        },
        schema: JsonModel::Object(
            seq![
                ("components"@, JsonModel::Array(provisional_components(query, intent))),
                ("outputs"@, JsonModel::Array(Seq::empty())),
                ("schema_version"@, JsonModel::Number(json_one())),
            ],
        ),
    }
}

/// A JSON object with the given members, each a key and a text.
fn make_text_object(members: Vec<(&str, String)>) -> (r: JsonValue)
    ensures
        r@ == text_object(Seq::new(members@.len(), |i: int| (members@[i].0@, members@[i].1@))),
{
    let ghost wanted = Seq::new(members@.len(), |i: int| (members@[i].0@, members@[i].1@));
    let mut out: Vec<(String, JsonValue)> = Vec::new();
    let mut i: usize = 0;
    while i < members.len()
        invariant
            i <= members@.len(),
            out@.len() == i,
            forall|k: int|
                0 <= k < i ==> (#[trigger] out@[k]).0@ == members@[k].0@ && out@[k].1@
                    == JsonModel::Text(members@[k].1@),
        decreases members@.len() - i,
    {
        out.push((owned(members[i].0), JsonValue::Text(members[i].1.clone())));
        i += 1;
    }
    let r = JsonValue::Object(out);
    assert(r@->Object_0 =~= text_object(wanted)->Object_0);
    r
}

/// The provisional template that is made for a query and its intent at the
/// given time, in milliseconds.
pub fn build_provisional_template(query: &str, intent: &UiIntent, now: u128) -> (r: TemplateDocument)
    ensures
        r@ == provisional_document(query@, intent@, now as nat),
{
    let template_id = provisional_template_id(intent, now);
    let mut title = owned("Provisional ");
    let spaced = replace_char(intent.primary.as_str(), '_', ' ');
    append(&mut title, spaced.as_str());
    let mut intro_text = owned("### Provisional Canvas\\n");
    let asked = trim(query);
    append(&mut intro_text, asked.as_str());

    let mut intro_members: Vec<(&str, String)> = Vec::new();
    intro_members.push(("id", owned("provisional_intro")));
    intro_members.push(("kind", owned("markdown")));
    intro_members.push(("text", intro_text));
    let intro = make_text_object(intro_members);
    assert(intro@ == text_object(
        seq![
            ("id"@, "provisional_intro"@),
            ("kind"@, "markdown"@),
            ("text"@, "### Provisional Canvas\\n"@ + trimmed(query@)),
        ],
    )) by {
        assert(Seq::new(intro_members@.len(), |i: int| (intro_members@[i].0@, intro_members@[i].1@))
            =~= seq![
            ("id"@, "provisional_intro"@),
            ("kind"@, "markdown"@),
            ("text"@, "### Provisional Canvas\\n"@ + trimmed(query@)),
        ]);
    }
    let mut components: Vec<JsonValue> = Vec::new();
    components.push(intro);
    if same_text(intent.primary.as_str(), "file_listing") {
        let mut tree_members: Vec<(&str, String)> = Vec::new();
        tree_members.push(("code", owned("__WORKSPACE_TREE__")));
        tree_members.push(("id", owned("workspace_tree")));
        tree_members.push(("kind", owned("code")));
        tree_members.push(("language", owned("text")));
        let tree = make_text_object(tree_members);
        assert(tree@ == text_object(
            seq![
                ("code"@, "__WORKSPACE_TREE__"@),
                ("id"@, "workspace_tree"@),
                ("kind"@, "code"@),
                ("language"@, "text"@),
            ],
        )) by {
            assert(Seq::new(tree_members@.len(), |i: int| (tree_members@[i].0@, tree_members@[i].1@))
                =~= seq![
                ("code"@, "__WORKSPACE_TREE__"@),
                ("id"@, "workspace_tree"@),
                ("kind"@, "code"@),
                ("language"@, "text"@),
            ]);
        }
        components.push(tree);
    }
    let components_value = JsonValue::Array(components);
    assert(components_value@ == JsonModel::Array(provisional_components(query@, intent@))) by {
        assert(components_value@->Array_0 =~= provisional_components(query@, intent@));
    }
    let no_outputs: Vec<JsonValue> = Vec::new();
    let outputs_value = JsonValue::Array(no_outputs);
    assert(outputs_value@ == JsonModel::Array(Seq::empty())) by {
        assert(outputs_value@->Array_0 =~= Seq::<JsonModel>::empty());
    }
    let one = JsonNumber { kind: JsonNumberKind::PosInt(1), float_bits: 0x3ff0_0000_0000_0000 };
    let version_value = JsonValue::Number(one);
    assert(version_value@ == JsonModel::Number(json_one()));
    let mut members: Vec<(String, JsonValue)> = Vec::new();
    members.push((owned("components"), components_value));
    members.push((owned("outputs"), outputs_value));
    members.push((owned("schema_version"), version_value));
    let schema = JsonValue::Object(members);
    assert(schema@ == provisional_document(query@, intent@, now as nat).schema) by {
        let wanted = provisional_document(query@, intent@, now as nat).schema->Object_0;
        assert(one == json_one());
        assert(schema@->Object_0.len() == 3 && wanted.len() == 3);
        assert(schema@->Object_0[0] == wanted[0]);
        assert(schema@->Object_0[1] == wanted[1]);
        assert(schema@->Object_0[2] == wanted[2]);
        assert(schema@->Object_0 =~= provisional_document(
            query@,
            intent@,
            now as nat,
        ).schema->Object_0);
    }
    TemplateDocument {
        meta: TemplateMeta {
            id: template_id,
            title,
            version: owned("0.1.0"),
            tags: copy_terms(&intent.tags),
        },
        match_rules: TemplateMatch {
            primary: intent.primary.clone(),
            operations: copy_terms(&intent.operations),
            tags: copy_terms(&intent.tags),
        },
        schema,
    }
}

/// What a catalog query asks the canvas to render.
pub struct ToolRender {
    pub request: CanvasRenderRequest,
    pub root_path: Option<String>,
    pub provisional_template: Option<TemplateDocument>,
}

/// What a catalog query comes to.
pub enum CatalogQueryPlan {
    /// The call gives no query.
    MissingQuery,
    /// The query asks for no panel.
    NoIntent { query: String },
    /// A template of the catalog is rendered.
    RenderCatalog { render: ToolRender, intent: UiIntent },
    /// No template matches, and provisional templates are not allowed.
    NoTemplate { intent: UiIntent },
    /// No template matches; a provisional template is rendered.
    RenderProvisional { render: ToolRender, intent: UiIntent },
}

/// The mathematical value of a [`ToolRender`].
pub struct RenderModel {
    pub request: RequestModel,
    pub root_path: Option<Seq<char>>,
    pub provisional_template: Option<DocumentModel>,
}

impl View for ToolRender {
    type V = RenderModel;

    open spec fn view(&self) -> RenderModel {
        RenderModel {
            request: self.request@,
            root_path: text_of(self.root_path),
            provisional_template: match self.provisional_template {
                Some(t) => Some(t@),
                None => None,
            },
        }
    }
}

/// The mathematical value of a [`CatalogQueryPlan`].
pub enum PlanModel {
    MissingQuery,
    NoIntent { query: Seq<char> },
    RenderCatalog { render: RenderModel, intent: IntentModel },
    NoTemplate { intent: IntentModel },
    RenderProvisional { render: RenderModel, intent: IntentModel },
}

/// The keys under which the root path of a listing may stand.
pub open spec fn root_path_keys() -> Seq<Seq<char>> {
    seq!["root_path"@, "root"@, "path"@]
}

/// Whether a call allows a provisional template: it does unless it says
/// otherwise.
pub open spec fn allows_provisional(args: JsonModel) -> bool {
    match args.member("allow_provisional"@) {
        Some(JsonModel::Bool(b)) => b,
        _ => true,
    }
}

/// The request that renders a template of the catalog.
pub open spec fn catalog_request(
    template: TemplateModel,
    intent: IntentModel,
    target_block_id: Option<Seq<char>>,
) -> RequestModel {
    RequestModel {
        intent,
        template_id: template.document.meta.id,
        title: template.document.meta.title,
        provider_id: template.source.provider_id,
        provider_kind: kind_name(template.source.kind),
        target_block_id,
        schema: template.document.schema,
    }
}

/// The request that renders a provisional template.
pub open spec fn provisional_request(
    template: DocumentModel,
    intent: IntentModel,
    target_block_id: Option<Seq<char>>,
) -> RequestModel {
    RequestModel {
        intent,
        template_id: template.meta.id,
        title: template.meta.title,
        provider_id: "runtime-provisional"@,
        provider_kind: "provisional"@,
        target_block_id,
        schema: template.schema,
    }
}

/// What a catalog query comes to: the intent of the query is resolved
/// against the index; the winning template is rendered, or, where nothing
/// wins and the call allows it, a provisional template. Only a render of
/// a provisional template carries a template that may be saved later.
pub open spec fn query_plan(
    args: JsonModel,
    index: Seq<TemplateModel>,
    org_enabled: bool,
    now: nat,
) -> PlanModel {
    match tool_query(args) {
        None => PlanModel::MissingQuery,
        Some(query) => match intent_of(query) {
            None => PlanModel::NoIntent { query },
            Some(intent) => {
                let target = args.text_member("target_block_id"@);
                let root_path = string_argument(args, root_path_keys());
                match resolution(index, org_enabled, intent).selected {
                    Some(template) => PlanModel::RenderCatalog {
                        render: RenderModel {
                            request: catalog_request(template, intent, target),
                            root_path,
                            provisional_template: None,
                        },
                        intent,
                    },
                    None => if allows_provisional(args) {
                        let template = provisional_document(query, intent, now);
                        PlanModel::RenderProvisional {
                            render: RenderModel {
                                request: provisional_request(template, intent, target),
                                root_path,
                                provisional_template: Some(template),
                            },
                            intent,
                        }
                    } else {
                        PlanModel::NoTemplate { intent }
                    },
                }
            },
        },
    }
}

impl View for CatalogQueryPlan {
    type V = PlanModel;

    open spec fn view(&self) -> PlanModel {
        match self {
            CatalogQueryPlan::MissingQuery => PlanModel::MissingQuery,
            CatalogQueryPlan::NoIntent { query } => PlanModel::NoIntent { query: query@ },
            CatalogQueryPlan::RenderCatalog { render, intent } => PlanModel::RenderCatalog {
                render: render@,
                intent: intent@,
            },
            CatalogQueryPlan::NoTemplate { intent } => PlanModel::NoTemplate { intent: intent@ },
            CatalogQueryPlan::RenderProvisional { render, intent } => PlanModel::RenderProvisional {
                render: render@,
                intent: intent@,
            },
        }
    }
}

/// The text with which a call without a query is refused.
pub open spec fn missing_query_message() -> Seq<char> {
    "query_ui_catalog requires a non-empty query string (supported keys: query, prompt, request, text, message, input)"@
}

/// The result that a catalog query hands back to the caller, as JSON; a
/// call without a query has none.
pub open spec fn plan_payload(plan: PlanModel) -> Option<JsonModel> {
    match plan {
        PlanModel::MissingQuery => None,
        PlanModel::NoIntent { query } => Some(
            JsonModel::Object(
                seq![
                    ("message"@, JsonModel::Text("No UI intent detected for query. Reply in text."@)),
                    ("query"@, JsonModel::Text(query)),
                    ("status"@, JsonModel::Text("text_only"@)),
                ],
            ),
        ),
        PlanModel::RenderCatalog { render, intent } => Some(
            JsonModel::Object(
                seq![
                    ("intent"@, JsonModel::Text(intent_summary(intent))),
                    ("needs_save_confirmation"@, JsonModel::Bool(false)),
                    ("provider"@, JsonModel::Text(render.request.provider_id)),
                    ("root_path"@, text_or_null(render.root_path)),
                    ("status"@, JsonModel::Text("rendered_catalog"@)),
                    ("target_block_id"@, text_or_null(render.request.target_block_id)),
                    ("template_id"@, JsonModel::Text(render.request.template_id)),
                    ("title"@, JsonModel::Text(render.request.title)),
                ],
            ),
        ),
        PlanModel::NoTemplate { intent } => Some(
            JsonModel::Object(
                seq![
                    ("intent"@, JsonModel::Text(intent_summary(intent))),
                    (
                        "message"@,
                        JsonModel::Text(
                            "No matching catalog template and provisional creation is disabled."@,
                        ),
                    ),
                    ("status"@, JsonModel::Text("text_only"@)),
                ],
            ),
        ),
        PlanModel::RenderProvisional { render, intent } => Some(
            JsonModel::Object(
                seq![
                    ("intent"@, JsonModel::Text(intent_summary(intent))),
                    ("needs_save_confirmation"@, JsonModel::Bool(true)),
                    ("root_path"@, text_or_null(render.root_path)),
                    ("status"@, JsonModel::Text("rendered_provisional"@)),
                    ("target_block_id"@, text_or_null(render.request.target_block_id)),
                    ("template_id"@, JsonModel::Text(render.request.template_id)),
                    ("title"@, JsonModel::Text(render.request.title)),
                ],
            ),
        ),
    }
}

impl CatalogQueryPlan {
    /// The result that the query hands back to the caller, as JSON; `None`
    /// for a call without a query, which is refused with a message.
    pub fn payload(&self) -> (r: Option<JsonValue>)
        ensures
            match r {
                Some(v) => plan_payload(self@) == Some(v@),
                None => plan_payload(self@).is_none(),
            },
    {
        let mut members: Vec<(String, JsonValue)> = Vec::new();
        match self {
            CatalogQueryPlan::MissingQuery => {
                return None;
            },
            CatalogQueryPlan::NoIntent { query } => {
                members.push(
                    (owned("message"), JsonValue::text("No UI intent detected for query. Reply in text.")),
                );
                members.push((owned("query"), JsonValue::Text(query.clone())));
                members.push((owned("status"), JsonValue::text("text_only")));
            },
            CatalogQueryPlan::RenderCatalog { render, intent } => {
                members.push((owned("intent"), JsonValue::Text(intent.summary())));
                members.push((owned("needs_save_confirmation"), JsonValue::Bool(false)));
                members.push((owned("provider"), JsonValue::Text(render.request.provider_id.clone())));
                members.push((owned("root_path"), make_text_or_null(&render.root_path)));
                members.push((owned("status"), JsonValue::text("rendered_catalog")));
                members.push(
                    (owned("target_block_id"), make_text_or_null(&render.request.target_block_id)),
                );
                members.push(
                    (owned("template_id"), JsonValue::Text(render.request.template_id.clone())),
                );
                members.push((owned("title"), JsonValue::Text(render.request.title.clone())));
            },
            CatalogQueryPlan::NoTemplate { intent } => {
                members.push((owned("intent"), JsonValue::Text(intent.summary())));
                members.push(
                    (
                        owned("message"),
                        JsonValue::text(
                            "No matching catalog template and provisional creation is disabled.",
                        ),
                    ),
                );
                members.push((owned("status"), JsonValue::text("text_only")));
            },
            CatalogQueryPlan::RenderProvisional { render, intent } => {
                members.push((owned("intent"), JsonValue::Text(intent.summary())));
                members.push((owned("needs_save_confirmation"), JsonValue::Bool(true)));
                members.push((owned("root_path"), make_text_or_null(&render.root_path)));
                members.push((owned("status"), JsonValue::text("rendered_provisional")));
                members.push(
                    (owned("target_block_id"), make_text_or_null(&render.request.target_block_id)),
                );
                members.push(
                    (owned("template_id"), JsonValue::Text(render.request.template_id.clone())),
                );
                members.push((owned("title"), JsonValue::Text(render.request.title.clone())));
            },
        }
        let r = make_object(members);
        assert(r@->Object_0 =~= plan_payload(self@).unwrap()->Object_0);
        Some(r)
    }

    /// The text with which a call without a query is refused.
    pub fn missing_query_text() -> (r: &'static str)
        ensures
            r@ == missing_query_message(),
    {
        "query_ui_catalog requires a non-empty query string (supported keys: query, prompt, request, text, message, input)"
    }
}

impl CanvasRenderRequest {
    /// The request that renders a template of the catalog for an intent.
    pub fn for_template(
        template: &CatalogTemplate,
        intent: &UiIntent,
        target_block_id: Option<String>,
    ) -> (r: CanvasRenderRequest)
        ensures
            r@ == catalog_request(template@, intent@, text_of(target_block_id)),
    {
        CanvasRenderRequest {
            intent: intent.duplicate(),
            template_id: template.document.meta.id.clone(),
            title: template.document.meta.title.clone(),
            provider_id: template.source.provider_id.clone(),
            provider_kind: owned(template.source.kind.as_str()),
            target_block_id,
            schema: template.document.schema.duplicate(),
        }
    }
}

/// Decides what a catalog query comes to. `now` is the time of the call,
/// in milliseconds.
pub fn plan_catalog_query(args: &JsonValue, manager: &CatalogManager, now: u128) -> (r:
    CatalogQueryPlan)
    ensures
        r@ == query_plan(args@, manager@.templates, manager@.org_enabled, now as nat),
{
    let query = match extract_tool_query(args) {
        Some(query) => query,
        None => {
            return CatalogQueryPlan::MissingQuery;
        },
    };
    let intent = match intent_from_text(query.as_str()) {
        Some(intent) => intent,
        None => {
            return CatalogQueryPlan::NoIntent { query };
        },
    };
    let allow_provisional = match args.get("allow_provisional") {
        Some(value) => match value.as_bool() {
            Some(b) => b,
            None => true,
        },
        None => true,
    };
    let target_block_id = match args.get("target_block_id") {
        Some(value) => match value.as_text() {
            Some(s) => Some(owned(s)),
            None => None,
        },
        None => None,
    };
    let mut root_keys: Vec<&str> = Vec::new();
    root_keys.push("root_path");
    root_keys.push("root");
    root_keys.push("path");
    assert(key_views(root_keys@) =~= root_path_keys());
    let root_path = extract_string_argument(args, &root_keys);
    let resolved = manager.resolve(&intent);
    match resolved.selected {
        Some(template) => {
            let request = CanvasRenderRequest::for_template(&template, &intent, target_block_id);
            CatalogQueryPlan::RenderCatalog {
                render: ToolRender { request, root_path, provisional_template: None },
                intent,
            }
        },
        None => {
            if !allow_provisional {
                return CatalogQueryPlan::NoTemplate { intent };
            }
            let provisional = build_provisional_template(query.as_str(), &intent, now);
            let request = CanvasRenderRequest {
                intent: intent.duplicate(),
                template_id: provisional.meta.id.clone(),
                title: provisional.meta.title.clone(),
                provider_id: owned("runtime-provisional"),
                provider_kind: owned("provisional"),
                target_block_id,
                schema: provisional.schema.duplicate(),
            };
            CatalogQueryPlan::RenderProvisional {
                render: ToolRender { request, root_path, provisional_template: Some(provisional) },
                intent,
            }
        },
    }
}

} // verus!
