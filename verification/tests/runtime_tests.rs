use brownie::event::{UiEvent, UiFieldValue};
use brownie::form_state::FormState;
use brownie::json::JsonValue;
use brownie::runtime::{RuntimeError, UiRuntime};

const FIXTURE: &str = r#"{
  "schema_version": 1,
  "outputs": [
    {"component_id": "approve_btn", "event_id": "review.approved"},
    {"component_id": "reject_btn", "event_id": "review.rejected"}
  ],
  "components": [
    {"id": "intro", "kind": "markdown", "text": "Review the change"},
    {"id": "review_form", "kind": "form", "title": "Decision", "fields": [
       {"id": "decision", "label": "Decision", "kind": "select",
        "options": ["approve", "needs-changes", "reject"]},
       {"id": "weight", "label": "Weight", "kind": "number", "default": 2.5},
       {"id": "urgent", "label": "Urgent", "kind": "checkbox", "default": true}
     ],
     "children": [
       {"id": "inner_form", "kind": "form", "fields": [
          {"id": "notes", "label": "Notes", "kind": "text", "default": "none"}]}
     ]},
    {"id": "approve_btn", "kind": "button", "label": "Approve", "variant": "primary"},
    {"id": "wrap", "kind": "markdown", "text": "more", "children": [
       {"id": "reject_btn", "kind": "button", "label": "Reject"}]}
  ]
}"#;

#[test]
fn deterministic_event_sequence_for_replayed_interactions() {
    let mut first = UiRuntime::new();
    first
        .load_schema_json(FIXTURE)
        .expect("fixture should load");
    first.simulate_button_click("approve_btn");
    first.simulate_form_commit(
        "review_form",
        "decision",
        UiFieldValue::Select {
            value: "needs-changes".to_string(),
        },
    );
    first.simulate_button_click("reject_btn");

    let mut second = UiRuntime::new();
    second
        .load_schema_json(FIXTURE)
        .expect("fixture should load");
    second.simulate_button_click("approve_btn");
    second.simulate_form_commit(
        "review_form",
        "decision",
        UiFieldValue::Select {
            value: "needs-changes".to_string(),
        },
    );
    second.simulate_button_click("reject_btn");

    assert_eq!(first.event_log(), second.event_log());
}

#[test]
fn malformed_schema_value_sets_runtime_error() {
    let mut runtime = UiRuntime::new();
    let malformed = JsonValue::parse(
        "{\"schema_version\": \"not-a-number\", \"outputs\": [], \"components\": []}",
    )
    .expect("the document is JSON");

    let result = runtime.load_schema_value(&malformed);
    assert!(matches!(result, Err(RuntimeError::Deserialize(_))));
    assert!(runtime.runtime_error().is_some());
    assert!(!runtime.has_schema());
}

#[test]
fn loading_seeds_every_form_with_its_defaults() {
    let mut runtime = UiRuntime::new();
    runtime.load_schema_json(FIXTURE).expect("fixture should load");
    assert!(runtime.has_schema());
    assert!(runtime.runtime_error().is_none());
    let state = runtime.form_state_snapshot();
    assert_eq!(state.len(), 4);
    assert_eq!(
        state.get("review_form:decision"),
        Some(&UiFieldValue::Select { value: "approve".to_string() })
    );
    assert_eq!(
        state.get("review_form:weight"),
        Some(&UiFieldValue::Number { bits: 2.5f64.to_bits() })
    );
    assert_eq!(state.get("review_form:urgent"), Some(&UiFieldValue::Checkbox { value: true }));
    assert_eq!(
        state.get("inner_form:notes"),
        Some(&UiFieldValue::Text { value: "none".to_string() })
    );
    assert_eq!(state.get("review_form:missing"), None);
    assert!(runtime.event_log().is_empty());
}

#[test]
fn snapshot_then_restore_reproduces_the_field_values() {
    let mut runtime = UiRuntime::new();
    runtime.load_schema_json(FIXTURE).expect("fixture should load");
    runtime.simulate_form_commit(
        "review_form",
        "weight",
        UiFieldValue::Number { bits: 9.75f64.to_bits() },
    );
    let snapshot = runtime.form_state_snapshot();

    let mut other = UiRuntime::new();
    other.load_schema_json(FIXTURE).expect("fixture should load");
    assert_ne!(other.form_state_snapshot(), snapshot);
    other.restore_form_state(snapshot.clone());
    assert_eq!(other.form_state_snapshot(), snapshot);
    assert_eq!(
        other.form_state().get("review_form:weight"),
        Some(&UiFieldValue::Number { bits: 9.75f64.to_bits() })
    );
    // restoring keeps schema and log as they are
    assert!(other.has_schema());
    assert!(other.event_log().is_empty());

    runtime.restore_form_state(runtime.form_state_snapshot());
    assert_eq!(runtime.form_state_snapshot(), snapshot);
}

#[test]
fn every_load_replaces_what_the_former_left() {
    let mut runtime = UiRuntime::new();
    runtime.load_schema_json(FIXTURE).expect("fixture should load");
    runtime.simulate_button_click("approve_btn");

    let bad = runtime.load_schema_json(r#"{"components":[{"id":"x","kind":"carousel"}]}"#);
    assert_eq!(
        bad,
        Err(RuntimeError::Validation(
            "unknown component kind `carousel` for component `x`".to_string()
        ))
    );
    assert!(!runtime.has_schema());
    assert_eq!(runtime.runtime_error(), bad.as_ref().err());
    assert_eq!(runtime.form_state_snapshot().len(), 0);
    // the log is kept
    assert_eq!(runtime.event_log().len(), 1);

    runtime.load_schema_json(FIXTURE).expect("fixture should load again");
    assert!(runtime.has_schema());
    assert!(runtime.runtime_error().is_none());
    assert_eq!(runtime.form_state_snapshot().len(), 4);
}

#[test]
fn text_that_is_no_json_is_a_deserialize_error() {
    let mut runtime = UiRuntime::new();
    let result = runtime.load_schema_json("{not json");
    match &result {
        Err(RuntimeError::Deserialize(message)) => assert!(!message.is_empty()),
        other => panic!("expected a deserialize error, got {other:?}"),
    }
    assert_eq!(
        result.as_ref().err().map(|e| e.message()),
        runtime.runtime_error().map(|e| e.message())
    );
    assert!(result.unwrap_err().message().starts_with("schema deserialize error: "));
}

#[test]
fn clicks_are_logged_for_buttons_of_the_schema_only() {
    let mut runtime = UiRuntime::new();
    runtime.simulate_button_click("approve_btn");
    assert!(runtime.event_log().is_empty());
    runtime.load_schema_json(FIXTURE).expect("fixture should load");
    runtime.simulate_button_click("nobody");
    assert!(runtime.event_log().is_empty());
    runtime.simulate_button_click("reject_btn");
    runtime.simulate_button_click("approve_btn");
    assert_eq!(
        runtime.event_log(),
        &vec![
            UiEvent::ButtonClicked {
                component_id: "reject_btn".to_string(),
                output_event_id: "review.rejected".to_string()
            },
            UiEvent::ButtonClicked {
                component_id: "approve_btn".to_string(),
                output_event_id: "review.approved".to_string()
            },
        ]
    );
}

#[test]
fn commits_keep_the_value_and_log_the_commit() {
    let mut runtime = UiRuntime::new();
    runtime.load_schema_json(FIXTURE).expect("fixture should load");
    runtime.simulate_form_commit(
        "review_form",
        "urgent",
        UiFieldValue::Checkbox { value: false },
    );
    assert_eq!(
        runtime.form_state().get("review_form:urgent"),
        Some(&UiFieldValue::Checkbox { value: false })
    );
    assert_eq!(
        runtime.event_log(),
        &vec![UiEvent::FormFieldCommitted {
            component_id: "review_form".to_string(),
            form_id: "review_form".to_string(),
            field_id: "urgent".to_string(),
            value: UiFieldValue::Checkbox { value: false },
        }]
    );
    runtime.set_field("review_form", "urgent", UiFieldValue::Checkbox { value: true });
    assert_eq!(runtime.event_log().len(), 1);
    assert_eq!(
        runtime.form_state().get("review_form:urgent"),
        Some(&UiFieldValue::Checkbox { value: true })
    );
}

#[test]
fn form_state_keeps_each_key_once_in_key_order() {
    let mut state = FormState::new();
    state.insert("b:x".to_string(), UiFieldValue::Checkbox { value: true });
    state.insert("a:y".to_string(), UiFieldValue::Text { value: "1".to_string() });
    state.insert("b:x".to_string(), UiFieldValue::Checkbox { value: false });
    state.insert("a:z".to_string(), UiFieldValue::Number { bits: 0 });
    assert_eq!(state.len(), 3);
    let keys: Vec<&str> = state.entries().iter().map(|(k, _)| k.as_str()).collect();
    assert_eq!(keys, vec!["a:y", "a:z", "b:x"]);
    assert_eq!(state.get("b:x"), Some(&UiFieldValue::Checkbox { value: false }));
    state.clear();
    assert_eq!(state.len(), 0);
    assert_eq!(state.get("a:y"), None);
}

#[test]
fn runtime_errors_have_messages() {
    assert_eq!(
        RuntimeError::Deserialize("bad".to_string()).message(),
        "schema deserialize error: bad"
    );
    assert_eq!(
        RuntimeError::Validation("worse".to_string()).message(),
        "schema validation error: worse"
    );
}
