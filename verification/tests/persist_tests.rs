use brownie::catalog::TemplateDocument;
use brownie::event::UiFieldValue;
use brownie::form_state::FormState;
use brownie::intent::UiIntent;
use brownie::json::JsonValue;
use brownie::loading::BUILTIN_CODE_REVIEW_TEMPLATE;
use brownie::instructions::{is_instruction_file, known_instruction_files, should_skip_dir};
use brownie::session::{
    newest_first, read_session_text, session_file_name, session_title, Message, SessionMeta,
    SCHEMA_VERSION,
};
use brownie::workspace::{CanvasBlockState, CanvasWorkspaceState};

fn sample_state() -> CanvasBlockState {
    let mut form_state = FormState::new();
    form_state.insert("f:weight".to_string(), UiFieldValue::Number { bits: 2.5f64.to_bits() });
    form_state.insert("f:name".to_string(), UiFieldValue::Text { value: "Ada".to_string() });
    form_state.insert("f:ok".to_string(), UiFieldValue::Checkbox { value: true });
    form_state.insert("f:pick".to_string(), UiFieldValue::Select { value: "b".to_string() });
    CanvasBlockState {
        block_id: "block-1".to_string(),
        template_id: "t".to_string(),
        title: "T".to_string(),
        provider_id: "user".to_string(),
        provider_kind: "user".to_string(),
        schema: JsonValue::parse(r#"{"components": []}"#).unwrap(),
        intent: UiIntent::new("code_review", vec!["approve".to_string()], vec![]),
        minimized: true,
        form_state,
    }
}

#[test]
fn field_values_are_tagged_with_their_kind() {
    assert_eq!(
        UiFieldValue::Number { bits: 2.5f64.to_bits() }.to_json(),
        JsonValue::parse(r#"{"kind": "number", "value": 2.5}"#).unwrap()
    );
    assert_eq!(
        UiFieldValue::Checkbox { value: false }.to_json(),
        JsonValue::parse(r#"{"kind": "checkbox", "value": false}"#).unwrap()
    );
    for value in [
        UiFieldValue::Text { value: "x".to_string() },
        UiFieldValue::Select { value: "y".to_string() },
        UiFieldValue::Checkbox { value: true },
        UiFieldValue::Number { bits: (-0.125f64).to_bits() },
    ] {
        assert_eq!(UiFieldValue::from_json(&value.to_json()), Ok(value));
    }
    let whole = JsonValue::parse(r#"{"kind": "number", "value": 3}"#).unwrap();
    assert_eq!(
        UiFieldValue::from_json(&whole),
        Ok(UiFieldValue::Number { bits: 3.0f64.to_bits() })
    );
    for bad in [
        r#"{"kind": "number", "value": "3"}"#,
        r#"{"kind": "text", "value": 3}"#,
        r#"{"kind": "slider", "value": 3}"#,
        r#"{"kind": "checkbox"}"#,
        r#"{"value": true}"#,
        "[]",
    ] {
        assert!(UiFieldValue::from_json(&JsonValue::parse(bad).unwrap()).is_err(), "{bad}");
    }
}

#[test]
fn a_workspace_state_is_read_back_as_it_was_written() {
    let state = CanvasWorkspaceState {
        blocks: vec![sample_state(), CanvasBlockState { block_id: "block-2".to_string(), ..sample_state() }],
        active_block_id: Some("block-2".to_string()),
    };
    let written = state.to_json();
    assert_eq!(CanvasWorkspaceState::from_json(&written), Ok(state.clone()));
    assert_eq!(
        written.get("active_block_id").and_then(|v| v.as_text()),
        Some("block-2")
    );
    let none = CanvasWorkspaceState::new();
    let empty = none.to_json();
    assert_eq!(empty.get("blocks").and_then(|b| b.as_array()).map(|b| b.len()), Some(0));
    assert_eq!(empty.get("active_block_id"), Some(&JsonValue::Null));
    assert_eq!(CanvasWorkspaceState::from_json(&JsonValue::parse("{}").unwrap()), Ok(none));
    assert!(CanvasWorkspaceState::from_json(&JsonValue::parse("[]").unwrap()).is_err());
    assert!(CanvasWorkspaceState::from_json(&JsonValue::parse(r#"{"blocks": [{}]}"#).unwrap()).is_err());
}

#[test]
fn a_block_state_has_the_persisted_shape() {
    let written = sample_state().to_json();
    let expected = JsonValue::parse(
        r#"{"block_id": "block-1", "template_id": "t", "title": "T", "provider_id": "user",
            "provider_kind": "user", "schema": {"components": []},
            "intent": {"primary": "code_review", "operations": ["approve"], "tags": []},
            "minimized": true,
            "form_state": {
              "f:name": {"kind": "text", "value": "Ada"},
              "f:ok": {"kind": "checkbox", "value": true},
              "f:pick": {"kind": "select", "value": "b"},
              "f:weight": {"kind": "number", "value": 2.5}}}"#,
    )
    .unwrap();
    assert_eq!(CanvasBlockState::from_json(&written), CanvasBlockState::from_json(&expected));
    assert_eq!(CanvasBlockState::from_json(&expected), Ok(sample_state()));
    let sparse = JsonValue::parse(
        r#"{"block_id": "b", "template_id": "t", "title": "T", "provider_id": "p",
            "provider_kind": "k", "schema": null, "intent": {"primary": "x"}}"#,
    )
    .unwrap();
    let read = CanvasBlockState::from_json(&sparse).expect("defaults apply");
    assert!(!read.minimized);
    assert_eq!(read.form_state.len(), 0);
    assert_eq!(read.schema, JsonValue::Null);
}

#[test]
fn template_documents_are_written_as_they_are_read() {
    let parsed = JsonValue::parse(BUILTIN_CODE_REVIEW_TEMPLATE).unwrap();
    let document = TemplateDocument::from_json(&parsed).unwrap();
    assert_eq!(TemplateDocument::from_json(&document.to_json()), Ok(document.clone()));
    assert_eq!(document.to_json().get("match").and_then(|m| m.get("primary")).and_then(|p| p.as_text()), Some("code_review"));
    let intent = UiIntent::new("p", vec!["b".to_string(), "a".to_string()], vec![]);
    assert_eq!(UiIntent::from_json(&intent.to_json()), Ok(intent));
}

fn session_text(version: u32) -> String {
    format!(
        r#"{{"schema_version": {version}, "session_id": "s1", "workspace": "/w", "title": null,
            "created_at": "10",
            "canvas_workspace": {{"blocks": [], "active_block_id": "block-1"}},
            "messages": [{{"role": "user", "content": "hi", "timestamp": "11"}}]}}"#
    )
}

#[test]
fn a_legacy_session_is_read_without_its_workspace() {
    let session = read_session_text(&session_text(1), "/s/legacy.json").expect("legacy schema should load");
    assert_eq!(session.schema_version, 1);
    assert_eq!(session.canvas_workspace, CanvasWorkspaceState::new());
    assert_eq!(session.messages.len(), 1);
}

#[test]
fn a_current_session_keeps_its_workspace() {
    let session = read_session_text(&session_text(SCHEMA_VERSION), "/s/now.json")
        .expect("workspace-aware schema should load");
    assert_eq!(session.canvas_workspace.active_block_id.as_deref(), Some("block-1"));
    assert_eq!(
        session.messages,
        vec![Message { role: "user".to_string(), content: "hi".to_string(), timestamp: "11".to_string() }]
    );
    assert_eq!(session.title, None);
    assert_eq!(session.session_id, "s1");
    assert_eq!(
        Message::from_json(&session.messages[0].to_json()),
        Ok(session.messages[0].clone())
    );
    let relaxed: SessionMeta = read_session_text(
        r#"{"schema_version": 2, "session_id": "s", "workspace": "w", "created_at": "1", "messages": []}"#,
        "p",
    )
    .expect("title and workspace may be left out");
    assert!(relaxed.canvas_workspace.blocks.is_empty());
}

#[test]
fn an_unknown_version_is_refused_by_name() {
    assert_eq!(
        read_session_text(&session_text(3), "/s/new.json"),
        Err("unknown schema_version in /s/new.json: 3".to_string())
    );
    assert!(read_session_text("{oops", "/s/x.json")
        .unwrap_err()
        .starts_with("failed to parse /s/x.json: "));
    assert!(read_session_text("{}", "/s/x.json")
        .unwrap_err()
        .starts_with("failed to parse /s/x.json: "));
    assert!(read_session_text(
        r#"{"schema_version": 2, "session_id": "s", "workspace": "w", "created_at": "1"}"#,
        "p"
    )
    .is_err());
}

#[test]
fn names_of_files_and_directories() {
    assert_eq!(session_file_name("abc"), "abc.json");
    assert!(should_skip_dir(".git"));
    assert!(should_skip_dir("target"));
    assert!(!should_skip_dir("src"));
    assert!(!should_skip_dir(".github"));
}

#[test]
fn read_session_file_supports_legacy_schema_without_workspace() {
    let data = r#"{
  "schema_version": 1,
  "session_id": "legacy-session",
  "workspace": "/tmp/demo",
  "title": "Legacy",
  "created_at": "1",
  "messages": []
}"#;

    let session =
        read_session_text(data, "/tmp/legacy.json").expect("legacy schema should load");
    assert_eq!(session.schema_version, 1);
    assert!(session.canvas_workspace.blocks.is_empty());
    assert!(session.canvas_workspace.active_block_id.is_none());
}

#[test]
fn read_session_file_loads_workspace_aware_schema() {
    let data = r#"{
  "schema_version": 2,
  "session_id": "workspace-session",
  "workspace": "/tmp/demo",
  "title": "Workspace",
  "created_at": "1",
  "messages": [],
  "canvas_workspace": {
    "active_block_id": "block-1",
    "blocks": [
      {
        "block_id": "block-1",
        "template_id": "builtin.file_listing.default",
        "title": "Workspace Explorer",
        "provider_id": "builtin-default",
        "provider_kind": "builtin",
        "schema": {
          "schema_version": 1,
          "outputs": [],
          "components": []
        },
        "intent": {
          "primary": "file_listing",
          "operations": ["list"],
          "tags": ["workspace"]
        },
        "minimized": false,
        "form_state": {}
      }
    ]
  }
}"#;

    let session = read_session_text(data, "/tmp/workspace_aware.json")
        .expect("workspace-aware schema should load");
    assert_eq!(session.schema_version, 2);
    assert_eq!(session.canvas_workspace.blocks.len(), 1);
    assert_eq!(
        session.canvas_workspace.active_block_id.as_deref(),
        Some("block-1")
    );
}

#[test]
fn read_session_file_rejects_unknown_schema() {
    let data = r#"{
  "schema_version": 99,
  "session_id": "unknown-session",
  "workspace": "/tmp/demo",
  "title": "Unknown",
  "created_at": "1",
  "messages": []
}"#;

    let error =
        read_session_text(data, "/tmp/unknown.json").expect_err("unknown schema should fail");
    assert!(error.contains("unknown schema_version"));
}

#[test]
fn a_session_that_starts_is_titled_by_its_id() {
    assert_eq!(session_title("0123456789abcdef"), "Session 01234567");
    assert_eq!(session_title("abc"), "Session abc");
    assert_eq!(session_title(""), "Session ");
    assert_eq!(session_title("\u{e9}t\u{e9}-\u{e9}t\u{e9}-x"), "Session \u{e9}t\u{e9}-\u{e9}t\u{e9}-");
    let session = SessionMeta::start("0123456789abcdef", "/work", "42");
    assert_eq!(session.schema_version, SCHEMA_VERSION);
    assert_eq!(session.session_id, "0123456789abcdef");
    assert_eq!(session.workspace, "/work");
    assert_eq!(session.title.as_deref(), Some("Session 01234567"));
    assert_eq!(session.created_at, "42");
    assert_eq!(session.canvas_workspace, CanvasWorkspaceState::new());
    assert!(session.messages.is_empty());
}

#[test]
fn a_session_is_read_back_as_it_was_written() {
    let mut session = SessionMeta::start("s-1", "/work", "42");
    session.messages.push(Message {
        role: "user".to_string(),
        content: "show the files".to_string(),
        timestamp: "43".to_string(),
    });
    session.messages.push(Message {
        role: "assistant".to_string(),
        content: "done".to_string(),
        timestamp: "44".to_string(),
    });
    session.canvas_workspace = CanvasWorkspaceState {
        blocks: vec![sample_state()],
        active_block_id: Some(sample_state().block_id),
    };
    let written = session.to_json();
    assert_eq!(SessionMeta::from_json(&written), Ok(session.clone()));
    assert_eq!(
        written.get("schema_version").and_then(|v| v.as_number()).map(|n| n.kind),
        Some(brownie::json::JsonNumberKind::PosInt(2))
    );
    assert_eq!(written.get("title").and_then(|v| v.as_text()), Some("Session s-1"));

    session.title = None;
    session.schema_version = 1;
    let legacy = session.to_json();
    assert_eq!(legacy.get("title"), Some(&JsonValue::Null));
    assert_eq!(SessionMeta::from_json(&legacy), Ok(session));
}

#[test]
fn instruction_files_are_told_by_their_names() {
    assert!(is_instruction_file("rust.instructions.md"));
    assert!(is_instruction_file(".instructions.md"));
    assert!(!is_instruction_file("instructions.md"));
    assert!(!is_instruction_file("rust.instructions.md.bak"));
    assert!(!is_instruction_file("README.md"));
    assert!(!is_instruction_file(""));
    assert_eq!(
        known_instruction_files(),
        vec![".github/copilot-instructions.md", "AGENTS.md"]
    );
}

#[test]
fn sessions_are_listed_latest_first() {
    let made = |id: &str, at: &str| SessionMeta::start(id, "/w", at);
    let listed = newest_first(vec![
        made("a", "100"),
        made("b", "300"),
        made("c", "200"),
        made("d", "300"),
        made("e", "99"),
    ]);
    let ids: Vec<&str> = listed.iter().map(|s| s.session_id.as_str()).collect();
    assert_eq!(ids, vec!["e", "b", "d", "c", "a"]);
    assert!(newest_first(Vec::new()).is_empty());
}
