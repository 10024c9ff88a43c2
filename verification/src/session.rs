//! Sessions as they are persisted: the transcript of a conversation and
//! the canvas workspace that belongs to it.

use vstd::prelude::*;
use crate::canvas::BlockStateModel;
use crate::decode::{
    decode_all, lemma_decode_all_prefix, optional_text_at, read_optional_text, read_text, text_at,
};
use crate::json::{models, parsed_json, JsonModel, JsonNumber, JsonNumberKind, JsonValue};
use crate::order::{in_order, sort, sorted, views_of, Ranked};
use crate::persist::{
    decode_workspace, lemma_member_lookup, make_object, make_text_or_null, text_or_null,
    workspace_model,
};
use crate::ranking::text_of;
use crate::text::{
    append, chars_of, comes_before, decimal, format_unsigned, lemma_text_lt_order, occurs_at, owned,
    string_of, text_lt,
};
use crate::workspace::CanvasWorkspaceState;

verus! {

/// The version of the shape in which sessions are persisted now.
pub const SCHEMA_VERSION: u32 = 2;

/// One message of a transcript.
#[derive(Debug, Clone, PartialEq, Eq)]
pub struct Message {
    pub role: String,
    pub content: String,
    pub timestamp: String,
}

/// The mathematical value of a [`Message`].
pub struct MessageModel {
    pub role: Seq<char>,
    pub content: Seq<char>,
    pub timestamp: Seq<char>,
}

impl View for Message {
    type V = MessageModel;

    open spec fn view(&self) -> MessageModel {
        MessageModel { role: self.role@, content: self.content@, timestamp: self.timestamp@ }
    }
}

/// A persisted session.
#[derive(Debug, Clone, PartialEq, Eq)]
pub struct SessionMeta {
    pub schema_version: u32,
    pub session_id: String,
    pub workspace: String,
    pub title: Option<String>,
    pub created_at: String,
    pub canvas_workspace: CanvasWorkspaceState,
    pub messages: Vec<Message>,
}

/// The mathematical value of a [`SessionMeta`].
pub struct SessionModel {
    pub schema_version: u32,
    pub session_id: Seq<char>,
    pub workspace: Seq<char>,
    pub title: Option<Seq<char>>,
    pub created_at: Seq<char>,
    pub canvas_workspace: (Seq<BlockStateModel>, Option<Seq<char>>),
    pub messages: Seq<MessageModel>,
}

/// The mathematical values of a list of messages.
pub open spec fn message_models(messages: Seq<Message>) -> Seq<MessageModel> {
    Seq::new(messages.len(), |i: int| messages[i]@)
}

impl View for SessionMeta {
    type V = SessionModel;

    open spec fn view(&self) -> SessionModel {
        SessionModel {
            schema_version: self.schema_version,
            session_id: self.session_id@,
            workspace: self.workspace@,
            title: text_of(self.title),
            created_at: self.created_at@,
            canvas_workspace: workspace_model(self.canvas_workspace),
            messages: message_models(self.messages@),
        }
    }
}

/// The message that a JSON value writes: an object with the required
/// strings `role`, `content` and `timestamp`.
pub open spec fn decode_message(v: JsonModel) -> Option<MessageModel> {
    match (text_at(v, "role"@), text_at(v, "content"@), text_at(v, "timestamp"@)) {
        (Some(role), Some(content), Some(timestamp)) => Some(
            MessageModel { role, content, timestamp },
        ),
        _ => None,
    }
}

/// The version that a session document states: a whole number that fits 32
/// bits.
pub open spec fn session_version_at(v: JsonModel) -> Option<u32> {
    match v.member("schema_version"@) {
        Some(JsonModel::Number(n)) => match n.kind {
            JsonNumberKind::PosInt(value) => if value <= u32::MAX {
                Some(value as u32)
            } else {
                None
            },
            _ => None,
        },
        _ => None,
    }
}

/// The session that a JSON value writes: an object with the required
/// number `schema_version`, the required strings `session_id`, `workspace`
/// and `created_at`, the optional string `title`, the optional object
/// `canvas_workspace` and the required list `messages`.
pub open spec fn decode_session(v: JsonModel) -> Option<SessionModel> {
    match (
        session_version_at(v),
        text_at(v, "session_id"@),
        text_at(v, "workspace"@),
        optional_text_at(v, "title"@),
        text_at(v, "created_at"@),
    ) {
        (Some(schema_version), Some(session_id), Some(workspace), Some(title), Some(created_at)) => {
            match (
                match v.member("canvas_workspace"@) {
                    Some(w) => decode_workspace(w),
                    None => Some((Seq::empty(), None)),
                },
                match v.member("messages"@) {
                    Some(JsonModel::Array(items)) => decode_all(
                        items,
                        |item: JsonModel| decode_message(item),
                    ),
                    _ => None,
                },
            ) {
                (Some(canvas_workspace), Some(messages)) => Some(
                    SessionModel {
                        schema_version,
                        session_id,
                        workspace,
                        title,
                        created_at,
                        canvas_workspace,
                        messages,
                    },
                ),
                _ => None,
            }
        },
        _ => None,
    }
}

/// How the reading of a session file ends.
pub enum SessionOutcome {
    /// The file holds no JSON; the parser's message is given.
    NoJson(Seq<char>),
    /// The JSON document does not have the shape of a session.
    NoSession,
    /// The session is of a version that is not known.
    UnknownVersion(u32),
    /// The session is read. A session of the first version has no canvas
    /// workspace.
    Read(SessionModel),
}

/// How the reading of a session file ends, given what the JSON parser made
/// of the file's text.
pub open spec fn session_outcome(parsed: Result<JsonModel, Seq<char>>) -> SessionOutcome {
    match parsed {
        Err(message) => SessionOutcome::NoJson(message),
        Ok(value) => match decode_session(value) {
            None => SessionOutcome::NoSession,
            Some(session) => if session.schema_version == 1 {
                SessionOutcome::Read(
                    SessionModel { canvas_workspace: (Seq::empty(), None), ..session },
                )
            } else if session.schema_version != SCHEMA_VERSION {
                SessionOutcome::UnknownVersion(session.schema_version)
            } else {
                SessionOutcome::Read(session)
            },
        },
    }
}

/// What reading a session file gives for an outcome: the session, or the
/// message of the failure, which names the file.
pub open spec fn session_gives(
    outcome: SessionOutcome,
    path: Seq<char>,
    r: Result<SessionModel, Seq<char>>,
) -> bool {
    match outcome {
        SessionOutcome::NoJson(message) => r == Err::<SessionModel, Seq<char>>(
            "failed to parse "@ + path + ": "@ + message,
        ),
        SessionOutcome::NoSession => r is Err && occurs_at(
            r->Err_0,
            "failed to parse "@ + path + ": "@,
            0,
        ),
        SessionOutcome::UnknownVersion(version) => r == Err::<SessionModel, Seq<char>>(
            "unknown schema_version in "@ + path + ": "@ + decimal(version as nat),
        ),
        SessionOutcome::Read(session) => r == Ok::<SessionModel, Seq<char>>(session),
    }
}

impl Message {
    /// Reads a message out of JSON.
    pub fn from_json(v: &JsonValue) -> (r: Result<Message, String>)
        ensures
            match r {
                Ok(m) => decode_message(v@) == Some(m@),
                Err(_) => decode_message(v@).is_none(),
            },
    {
        let role = match read_text(v, "role") {
            Ok(s) => s,
            Err(e) => {
                return Err(e);
            },
        };
        let content = match read_text(v, "content") {
            Ok(s) => s,
            Err(e) => {
                return Err(e);
            },
        };
        let timestamp = match read_text(v, "timestamp") {
            Ok(s) => s,
            Err(e) => {
                return Err(e);
            },
        };
        Ok(Message { role, content, timestamp })
    }

    /// The message as JSON.
    pub fn to_json(&self) -> (r: JsonValue)
        ensures
            r@ == JsonModel::Object(
                seq![
                    ("role"@, JsonModel::Text(self.role@)),
                    ("content"@, JsonModel::Text(self.content@)),
                    ("timestamp"@, JsonModel::Text(self.timestamp@)),
                ],
            ),
    {
        let mut members: Vec<(String, JsonValue)> = Vec::new();
        members.push((owned("role"), JsonValue::Text(self.role.clone())));
        members.push((owned("content"), JsonValue::Text(self.content.clone())));
        members.push((owned("timestamp"), JsonValue::Text(self.timestamp.clone())));
        let r = make_object(members);
        assert(r@->Object_0 =~= seq![
            ("role"@, JsonModel::Text(self.role@)),
            ("content"@, JsonModel::Text(self.content@)),
            ("timestamp"@, JsonModel::Text(self.timestamp@)),
        ]);
        r
    }
}

impl SessionMeta {
    /// Reads a session out of JSON, whatever its version.
    pub fn from_json(v: &JsonValue) -> (r: Result<SessionMeta, String>)
        ensures
            match r {
                Ok(session) => decode_session(v@) == Some(session@),
                Err(_) => decode_session(v@).is_none(),
            },
    {
        let schema_version: u32 = match v.get("schema_version") {
            Some(JsonValue::Number(n)) => match n.kind {
                JsonNumberKind::PosInt(value) => {
                    if value <= 0xffff_ffff {
                        value as u32
                    } else {
                        return Err(owned("invalid field `schema_version`"));
                    }
                },
                _ => {
                    return Err(owned("invalid field `schema_version`"));
                },
            },
            _ => {
                return Err(owned("missing or invalid field `schema_version`"));
            },
        };
        let session_id = match read_text(v, "session_id") {
            Ok(s) => s,
            Err(e) => {
                return Err(e);
            },
        };
        let workspace = match read_text(v, "workspace") {
            Ok(s) => s,
            Err(e) => {
                return Err(e);
            },
        };
        let title = match read_optional_text(v, "title") {
            Ok(s) => s,
            Err(e) => {
                return Err(e);
            },
        };
        let created_at = match read_text(v, "created_at") {
            Ok(s) => s,
            Err(e) => {
                return Err(e);
            },
        };
        let canvas_workspace = match v.get("canvas_workspace") {
            Some(w) => match CanvasWorkspaceState::from_json(w) {
                Ok(w) => w,
                Err(e) => {
                    return Err(e);
                },
            },
            None => {
                let w = CanvasWorkspaceState::new();
                assert(workspace_model(w).0 =~= Seq::<BlockStateModel>::empty());
                w
            },
        };
        let items = match v.get("messages") {
            Some(JsonValue::Array(items)) => {
                assert(JsonValue::Array(*items)@->Array_0 =~= models(items@));
                items
            },
            _ => {
                return Err(owned("missing or invalid field `messages`"));
            },
        };
        let ghost all = models(items@);
        let ghost decode = |item: JsonModel| decode_message(item);
        let mut messages: Vec<Message> = Vec::new();
        let mut i: usize = 0;
        assert(all.take(0) =~= Seq::<JsonModel>::empty());
        assert(message_models(messages@) =~= Seq::<MessageModel>::empty());
        while i < items.len()
            invariant
                i <= items@.len(),
                all == models(items@),
                v@.member("messages"@) == Some(JsonModel::Array(all)),
                decode == |item: JsonModel| decode_message(item),
                decode_all(all.take(i as int), decode) == Some(message_models(messages@)),
            decreases items@.len() - i,
        {
            proof {
                assert(all.take(i + 1).drop_last() =~= all.take(i as int));
                assert(all.take(i + 1).last() == items@[i as int]@);
            }
            match Message::from_json(&items[i]) {
                Ok(m) => {
                    let ghost before = message_models(messages@);
                    messages.push(m);
                    assert(message_models(messages@) =~= before.push(m@));
                },
                Err(e) => {
                    proof {
                        lemma_decode_all_prefix(all, decode, i + 1);
                    }
                    return Err(e);
                },
            }
            i += 1;
        }
        assert(all.take(items@.len() as int) =~= all);
        Ok(
            SessionMeta {
                schema_version,
                session_id,
                workspace,
                title,
                created_at,
                canvas_workspace,
                messages,
            },
        )
    }
}

/// A message that is written as JSON reads back as the same message.
pub proof fn lemma_message_round_trip(message: MessageModel)
    ensures
        decode_message(
            JsonModel::Object(
                seq![
                    ("role"@, JsonModel::Text(message.role)),
                    ("content"@, JsonModel::Text(message.content)),
                    ("timestamp"@, JsonModel::Text(message.timestamp)),
                ],
            ),
        ) == Some(message),
{
    reveal_strlit("role");
    reveal_strlit("content");
    reveal_strlit("timestamp");
    let members = seq![
        ("role"@, JsonModel::Text(message.role)),
        ("content"@, JsonModel::Text(message.content)),
        ("timestamp"@, JsonModel::Text(message.timestamp)),
    ];
    assert("role"@.len() == 4 && "content"@.len() == 7 && "timestamp"@.len() == 9);
    assert forall|i: int, j: int| 0 <= i < j < members.len() implies (#[trigger] members[i]).0
        != (#[trigger] members[j]).0 by {
        assert(members[i].0.len() != members[j].0.len());
    }
    lemma_member_lookup(members, 3);
    assert(members.take(3) =~= members);
    assert(members[0].0 == "role"@ && members[1].0 == "content"@ && members[2].0 == "timestamp"@);
}

/// The title that a session gets when it is made: the word `Session` and
/// the first eight characters of the session's id.
pub open spec fn title_of(session_id: Seq<char>) -> Seq<char> {
    "Session "@ + (if session_id.len() > 8 {
        session_id.take(8)
    } else {
        session_id
    })
}

/// The title that a session gets when it is made.
pub fn session_title(session_id: &str) -> (r: String)
    ensures
        r@ == title_of(session_id@),
{
    let chars = chars_of(session_id);
    let kept = if chars.len() > 8 {
        8
    } else {
        chars.len()
    };
    let head = string_of(&chars, 0, kept);
    assert(head@ =~= if session_id@.len() > 8 {
        session_id@.take(8)
    } else {
        session_id@
    });
    let mut out = owned("Session ");
    append(&mut out, head.as_str());
    out
}

impl SessionMeta {
    /// A session that starts now: of the current version, with the title
    /// that its id gives, an empty canvas workspace and no messages.
    pub fn start(session_id: &str, workspace: &str, created_at: &str) -> (r: SessionMeta)
        ensures
            r@ == (SessionModel {
                schema_version: SCHEMA_VERSION,
                session_id: session_id@,
                workspace: workspace@,
                title: Some(title_of(session_id@)),
                created_at: created_at@,
                canvas_workspace: (Seq::empty(), None),
                messages: Seq::empty(),
            }),
    {
        let r = SessionMeta {
            schema_version: SCHEMA_VERSION,
            session_id: owned(session_id),
            workspace: owned(workspace),
            title: Some(session_title(session_id)),
            created_at: owned(created_at),
            canvas_workspace: CanvasWorkspaceState::new(),
            messages: Vec::new(),
        };
        assert(r@.canvas_workspace.0 =~= Seq::<BlockStateModel>::empty());
        assert(r@.messages =~= Seq::<MessageModel>::empty());
        r
    }

    /// The session as JSON. The document reads back as the same session.
    pub fn to_json(&self) -> (r: JsonValue)
        ensures
            decode_session(r@) == Some(self@),
    {
        let ghost decode = |item: JsonModel| decode_message(item);
        let mut messages: Vec<JsonValue> = Vec::new();
        let mut i: usize = 0;
        assert(models(messages@) =~= Seq::<JsonModel>::empty());
        assert(message_models(self.messages@).take(0) =~= Seq::<MessageModel>::empty());
        while i < self.messages.len()
            invariant
                i <= self.messages@.len(),
                messages@.len() == i,
                decode == |item: JsonModel| decode_message(item),
                decode_all(models(messages@), decode) == Some(
                    message_models(self.messages@).take(i as int),
                ),
            decreases self.messages@.len() - i,
        {
            let written = self.messages[i].to_json();
            let ghost before = models(messages@);
            messages.push(written);
            proof {
                lemma_message_round_trip(self.messages@[i as int]@);
                assert(models(messages@).drop_last() =~= before);
                assert(models(messages@).last() == written@);
                assert(message_models(self.messages@).take(i + 1) =~= message_models(
                    self.messages@,
                ).take(i as int).push(self.messages@[i as int]@));
            }
            i += 1;
        }
        assert(message_models(self.messages@).take(self.messages@.len() as int)
            =~= message_models(self.messages@));
        let messages_value = JsonValue::Array(messages);
        assert(messages_value@ == JsonModel::Array(models(messages@))) by {
            assert(messages_value@->Array_0 =~= models(messages@));
        }
        let version = JsonValue::Number(JsonNumber::whole(self.schema_version));
        let title = make_text_or_null(&self.title);
        let canvas_workspace = self.canvas_workspace.to_json();
        let mut members: Vec<(String, JsonValue)> = Vec::new();
        members.push((owned("schema_version"), version));
        members.push((owned("session_id"), JsonValue::Text(self.session_id.clone())));
        members.push((owned("workspace"), JsonValue::Text(self.workspace.clone())));
        members.push((owned("title"), title));
        members.push((owned("created_at"), JsonValue::Text(self.created_at.clone())));
        members.push((owned("canvas_workspace"), canvas_workspace));
        members.push((owned("messages"), messages_value));
        let r = make_object(members);
        proof {
            reveal_strlit("schema_version");
            reveal_strlit("session_id");
            reveal_strlit("workspace");
            reveal_strlit("title");
            reveal_strlit("created_at");
            reveal_strlit("canvas_workspace");
            reveal_strlit("messages");
            let all = r@->Object_0;
            assert(all =~= seq![
                ("schema_version"@, version@),
                ("session_id"@, JsonModel::Text(self.session_id@)),
                ("workspace"@, JsonModel::Text(self.workspace@)),
                ("title"@, title@),
                ("created_at"@, JsonModel::Text(self.created_at@)),
                ("canvas_workspace"@, canvas_workspace@),
                ("messages"@, messages_value@),
            ]);
            assert("schema_version"@.len() == 14 && "session_id"@.len() == 10);
            assert("workspace"@.len() == 9 && "title"@.len() == 5 && "created_at"@.len() == 10);
            assert("canvas_workspace"@.len() == 16 && "messages"@.len() == 8);
            assert("session_id"@[0] == 's' && "created_at"@[0] == 'c');
            assert forall|i: int, j: int| 0 <= i < j < all.len() implies (#[trigger] all[i]).0 != (
            #[trigger] all[j]).0 by {
                assert(all[i].0.len() != all[j].0.len() || all[i].0[0] != all[j].0[0]);
            }
            lemma_member_lookup(all, 7);
            assert(all.take(7) =~= all);
            assert(all[0].0 == "schema_version"@ && all[1].0 == "session_id"@ && all[2].0
                == "workspace"@ && all[3].0 == "title"@ && all[4].0 == "created_at"@ && all[5].0
                == "canvas_workspace"@ && all[6].0 == "messages"@);
            assert(session_version_at(r@) == Some(self.schema_version));
            assert(optional_text_at(r@, "title"@) == Some(text_of(self.title)));
        }
        r
    }
}

impl Ranked for SessionMeta {
    /// Sessions are listed by the time of their making, the latest first.
    open spec fn before(a: SessionModel, b: SessionModel) -> bool {
        text_lt(b.created_at, a.created_at)
    }

    proof fn before_is_strict_weak_order(a: SessionModel, b: SessionModel, c: SessionModel) {
        lemma_text_lt_order(a.created_at, b.created_at, c.created_at);
    }

    fn goes_before(&self, other: &Self) -> (r: bool) {
        comes_before(other.created_at.as_str(), self.created_at.as_str())
    }
}

/// Puts sessions in the order in which they are listed: by the time of
/// their making, the latest first; sessions of one time stay as they stood.
pub fn newest_first(sessions: Vec<SessionMeta>) -> (out: Vec<SessionMeta>)
    ensures
        views_of(out@) == sorted::<SessionMeta>(views_of(sessions@)),
        in_order::<SessionMeta>(views_of(out@)),
        out@.to_multiset() == sessions@.to_multiset(),
{
    sort(sessions)
}

/// The mathematical value of the result of reading a session.
pub open spec fn session_result(r: Result<SessionMeta, String>) -> Result<SessionModel, Seq<char>> {
    match r {
        Ok(s) => Ok(s@),
        Err(m) => Err(m@),
    }
}

/// Turns what the JSON parser made of a session file into a session. A
/// session of the first version is read without its canvas workspace; a
/// session of a version that is not known is refused. `path` names the
/// file in the messages.
pub fn read_parsed_session(parsed: Result<JsonValue, String>, path: &str) -> (r: Result<
    SessionMeta,
    String,
>)
    ensures
        session_gives(
            session_outcome(
                match parsed {
                    Ok(v) => Ok(v@),
                    Err(m) => Err(m@),
                },
            ),
            path@,
            session_result(r),
        ),
{
    let mut prefix = owned("failed to parse ");
    append(&mut prefix, path);
    append(&mut prefix, ": ");
    let value = match parsed {
        Ok(value) => value,
        Err(message) => {
            let mut out = prefix;
            append(&mut out, message.as_str());
            return Err(out);
        },
    };
    let mut session = match SessionMeta::from_json(&value) {
        Ok(session) => session,
        Err(message) => {
            let mut out = prefix;
            append(&mut out, message.as_str());
            assert(out@.subrange(0, prefix@.len() as int) =~= prefix@);
            return Err(out);
        },
    };
    if session.schema_version == 1 {
        session.canvas_workspace = CanvasWorkspaceState::new();
        assert(workspace_model(session.canvas_workspace).0 =~= Seq::<BlockStateModel>::empty());
        return Ok(session);
    }
    if session.schema_version != SCHEMA_VERSION {
        let mut out = owned("unknown schema_version in ");
        append(&mut out, path);
        append(&mut out, ": ");
        let version = format_unsigned(session.schema_version as u128);
        append(&mut out, version.as_str());
        return Err(out);
    }
    Ok(session)
}

/// Reads a session from the text of its file.
pub fn read_session_text(text: &str, path: &str) -> (r: Result<SessionMeta, String>)
    ensures
        session_gives(
            session_outcome(parsed_json(text@)),
            path@,
            session_result(r),
        ),
{
    read_parsed_session(JsonValue::parse(text), path)
}

/// The name of the file of a session.
pub fn session_file_name(session_id: &str) -> (r: String)
    ensures
        r@ == session_id@ + ".json"@,
{
    let mut out = owned(session_id);
    append(&mut out, ".json");
    out
}

} // verus!
