use brownie::blocks::BlockTargetResolution;
use brownie::canvas::{block_nonce_of, CanvasRenderRequest, CanvasWorkspace, RenderOutcome};
use brownie::event::{UiEvent, UiFieldValue};
use brownie::intent::UiIntent;
use brownie::json::JsonValue;
use brownie::workspace::{
    CanvasBlockActionStatus, CanvasBlockActionType, CanvasBlockActor, CanvasWorkspaceState,
};

const FORM_SCHEMA: &str = r#"{"components":[{"id":"f","kind":"form","fields":[
    {"id":"name","label":"Name","kind":"text","default":"anon"}]}]}"#;
const BAD_SCHEMA: &str = r#"{"components":[{"id":"x","kind":"zap"}]}"#;

fn request(template_id: &str, target: Option<&str>, schema: &str) -> CanvasRenderRequest {
    CanvasRenderRequest {
        intent: UiIntent::new("code_review", vec![], vec![]),
        template_id: template_id.to_string(),
        title: format!("Title of {template_id}"),
        provider_id: "user".to_string(),
        provider_kind: "user".to_string(),
        target_block_id: target.map(|t| t.to_string()),
        schema: JsonValue::parse(schema).expect("schema is JSON"),
    }
}

fn lifecycle(
    action: CanvasBlockActionType,
    actor: CanvasBlockActor,
    status: CanvasBlockActionStatus,
    block_id: Option<&str>,
    message: Option<&str>,
) -> UiEvent {
    UiEvent::CanvasBlockLifecycle {
        action,
        actor,
        status,
        block_id: block_id.map(|s| s.to_string()),
        message: message.map(|s| s.to_string()),
    }
}

#[test]
fn the_first_render_opens_a_block_and_makes_it_active() {
    let mut workspace = CanvasWorkspace::new();
    let outcome = workspace.apply_canvas_block_from_schema(
        request("t.one", None, FORM_SCHEMA),
        CanvasBlockActor::Assistant,
        100,
    );
    assert_eq!(outcome, RenderOutcome::Opened(0));
    assert_eq!(workspace.blocks.len(), 1);
    assert_eq!(workspace.active_block_id.as_deref(), Some("block-1"));
    assert_eq!(workspace.block_nonce, 1);
    let block = &workspace.blocks[0];
    assert_eq!(block.state.block_id, "block-1");
    assert_eq!(block.state.template_id, "t.one");
    assert_eq!(block.state.title, "Title of t.one");
    assert!(!block.state.minimized);
    assert_eq!(block.last_touched_at, 100);
    assert_eq!(block.synced_event_count, 0);
    assert_eq!(
        block.state.form_state.get("f:name"),
        Some(&UiFieldValue::Text { value: "anon".to_string() })
    );
    assert!(block.ui_runtime.has_schema());
    assert_eq!(
        workspace.event_log.entries(),
        &vec![
            lifecycle(
                CanvasBlockActionType::Open,
                CanvasBlockActor::Assistant,
                CanvasBlockActionStatus::Requested,
                None,
                Some("template_id=t.one"),
            ),
            lifecycle(
                CanvasBlockActionType::Open,
                CanvasBlockActor::Assistant,
                CanvasBlockActionStatus::Succeeded,
                Some("block-1"),
                Some("template_id=t.one"),
            ),
        ]
    );
}

#[test]
fn a_second_render_of_the_template_updates_the_block_in_place() {
    let mut workspace = CanvasWorkspace::new();
    workspace.apply_canvas_block_from_schema(
        request("t.one", None, FORM_SCHEMA),
        CanvasBlockActor::Assistant,
        100,
    );
    workspace.apply_canvas_block_from_schema(
        request("t.two", None, FORM_SCHEMA),
        CanvasBlockActor::Assistant,
        110,
    );
    assert_eq!(workspace.active_block_id.as_deref(), Some("block-2"));
    workspace.toggle_minimize_block("block-1", CanvasBlockActor::User, 120);
    workspace.blocks[0].synced_event_count = 5;

    let mut again = request("t.one", None, r#"{"components":[]}"#);
    again.title = "Updated".to_string();
    let outcome =
        workspace.apply_canvas_block_from_schema(again, CanvasBlockActor::System, 200);
    assert_eq!(outcome, RenderOutcome::Updated(0));
    assert_eq!(workspace.blocks.len(), 2);
    let block = &workspace.blocks[0];
    assert_eq!(block.state.block_id, "block-1");
    assert_eq!(block.state.title, "Updated");
    assert!(!block.state.minimized);
    assert_eq!(block.last_touched_at, 200);
    assert_eq!(block.synced_event_count, 0);
    assert_eq!(block.ui_runtime.form_state().len(), 0);
    assert_eq!(workspace.active_block_id.as_deref(), Some("block-1"));
    assert_eq!(workspace.block_nonce, 2);
    let log = workspace.event_log.entries();
    assert_eq!(
        &log[log.len() - 2..],
        &[
            lifecycle(
                CanvasBlockActionType::Update,
                CanvasBlockActor::System,
                CanvasBlockActionStatus::Requested,
                Some("block-1"),
                Some("template_id=t.one"),
            ),
            lifecycle(
                CanvasBlockActionType::Update,
                CanvasBlockActor::System,
                CanvasBlockActionStatus::Succeeded,
                Some("block-1"),
                None,
            ),
        ]
    );
}

#[test]
fn an_explicit_target_must_exist() {
    let mut workspace = CanvasWorkspace::new();
    let outcome = workspace.apply_canvas_block_from_schema(
        request("t.one", Some("block-7"), FORM_SCHEMA),
        CanvasBlockActor::Assistant,
        1,
    );
    assert_eq!(outcome, RenderOutcome::Failed);
    assert!(workspace.blocks.is_empty());
    assert_eq!(workspace.block_nonce, 0);
    assert_eq!(
        workspace.event_log.entries(),
        &vec![lifecycle(
            CanvasBlockActionType::Update,
            CanvasBlockActor::Assistant,
            CanvasBlockActionStatus::Failed,
            Some("block-7"),
            Some("explicit target block_id not found"),
        )]
    );
}

#[test]
fn an_explicit_target_takes_another_template() {
    let mut workspace = CanvasWorkspace::new();
    workspace.apply_canvas_block_from_schema(
        request("t.one", None, FORM_SCHEMA),
        CanvasBlockActor::Assistant,
        1,
    );
    let outcome = workspace.apply_canvas_block_from_schema(
        request("t.two", Some("block-1"), FORM_SCHEMA),
        CanvasBlockActor::Assistant,
        2,
    );
    assert_eq!(outcome, RenderOutcome::Updated(0));
    assert_eq!(workspace.blocks[0].state.template_id, "t.one");
    assert_eq!(workspace.blocks[0].state.title, "Title of t.two");
}

#[test]
fn an_ambiguous_request_fails_and_lists_the_candidates() {
    let mut workspace = CanvasWorkspace::new();
    workspace.apply_canvas_block_from_schema(
        request("t", Some("none"), FORM_SCHEMA),
        CanvasBlockActor::Assistant,
        1,
    );
    workspace.apply_canvas_block_from_schema(request("t", None, FORM_SCHEMA), CanvasBlockActor::Assistant, 5);
    workspace.apply_canvas_block_from_schema(request("u", None, FORM_SCHEMA), CanvasBlockActor::Assistant, 6);
    // a second block of template t, made by hand with the same touch
    workspace.blocks[1].state.template_id = "t".to_string();
    workspace.blocks[1].last_touched_at = 5;
    workspace.active_block_id = None;
    assert_eq!(
        workspace.resolve_target_block("t"),
        BlockTargetResolution::Ambiguous(vec!["block-1".to_string(), "block-2".to_string()])
    );
    let before = workspace.event_log.len();
    let outcome = workspace.apply_canvas_block_from_schema(
        request("t", None, FORM_SCHEMA),
        CanvasBlockActor::User,
        9,
    );
    assert_eq!(outcome, RenderOutcome::Failed);
    assert_eq!(workspace.blocks.len(), 2);
    assert_eq!(workspace.active_block_id, None);
    assert_eq!(workspace.event_log.len(), before + 1);
    assert_eq!(
        workspace.event_log.entries()[before],
        lifecycle(
            CanvasBlockActionType::Update,
            CanvasBlockActor::User,
            CanvasBlockActionStatus::Failed,
            None,
            Some("ambiguous target; specify block_id (candidates: block-1, block-2)"),
        )
    );
}

#[test]
fn a_schema_that_does_not_load_opens_nothing() {
    let mut workspace = CanvasWorkspace::new();
    let outcome = workspace.apply_canvas_block_from_schema(
        request("t", None, BAD_SCHEMA),
        CanvasBlockActor::Assistant,
        1,
    );
    assert_eq!(outcome, RenderOutcome::Failed);
    assert!(workspace.blocks.is_empty());
    assert_eq!(workspace.block_nonce, 0);
    assert_eq!(workspace.active_block_id, None);
    assert_eq!(
        workspace.event_log.entries()[1],
        lifecycle(
            CanvasBlockActionType::Open,
            CanvasBlockActor::Assistant,
            CanvasBlockActionStatus::Failed,
            None,
            Some("schema validation error: unknown component kind `zap` for component `x`"),
        )
    );
}

#[test]
fn a_failed_update_keeps_the_blocks_state() {
    let mut workspace = CanvasWorkspace::new();
    workspace.apply_canvas_block_from_schema(request("t", None, FORM_SCHEMA), CanvasBlockActor::Assistant, 1);
    workspace.apply_canvas_block_from_schema(request("u", None, FORM_SCHEMA), CanvasBlockActor::Assistant, 2);
    let outcome = workspace.apply_canvas_block_from_schema(
        request("t", None, BAD_SCHEMA),
        CanvasBlockActor::Assistant,
        3,
    );
    assert_eq!(outcome, RenderOutcome::Failed);
    assert_eq!(workspace.active_block_id.as_deref(), Some("block-2"));
    let block = &workspace.blocks[0];
    assert_eq!(block.last_touched_at, 1);
    assert_eq!(block.state.title, "Title of t");
    assert!(block.ui_runtime.runtime_error().is_some());
    assert!(!block.ui_runtime.has_schema());
    let log = workspace.event_log.entries();
    assert_eq!(
        log[log.len() - 1],
        lifecycle(
            CanvasBlockActionType::Update,
            CanvasBlockActor::Assistant,
            CanvasBlockActionStatus::Failed,
            Some("block-1"),
            Some("schema validation error: unknown component kind `zap` for component `x`"),
        )
    );
}

#[test]
fn focus_minimize_and_close_are_logged_as_asked_and_as_ended() {
    let mut workspace = CanvasWorkspace::new();
    workspace.apply_canvas_block_from_schema(request("t", None, FORM_SCHEMA), CanvasBlockActor::Assistant, 1);
    workspace.apply_canvas_block_from_schema(request("u", None, FORM_SCHEMA), CanvasBlockActor::Assistant, 2);
    let start = workspace.event_log.len();

    assert!(workspace.focus_block("block-1", CanvasBlockActor::User, 10));
    assert_eq!(workspace.active_block_id.as_deref(), Some("block-1"));
    assert_eq!(workspace.blocks[0].last_touched_at, 10);
    assert_eq!(workspace.active_block_index(), Some(0));
    assert!(!workspace.focus_block("block-9", CanvasBlockActor::User, 11));
    assert_eq!(workspace.active_block_id.as_deref(), Some("block-1"));

    assert_eq!(workspace.toggle_minimize_block("block-2", CanvasBlockActor::User, 12), Some(true));
    assert_eq!(workspace.toggle_minimize_block("block-2", CanvasBlockActor::User, 13), Some(false));
    assert_eq!(workspace.toggle_minimize_block("block-9", CanvasBlockActor::User, 14), None);
    assert_eq!(workspace.blocks[1].last_touched_at, 13);

    assert!(workspace.close_block("block-1", CanvasBlockActor::System));
    assert_eq!(workspace.active_block_id.as_deref(), Some("block-2"));
    assert!(!workspace.close_block("block-1", CanvasBlockActor::System));
    assert!(workspace.close_block("block-2", CanvasBlockActor::System));
    assert_eq!(workspace.active_block_id, None);
    assert_eq!(workspace.active_block_index(), None);

    let (requested, succeeded, failed) = (
        CanvasBlockActionStatus::Requested,
        CanvasBlockActionStatus::Succeeded,
        CanvasBlockActionStatus::Failed,
    );
    let (focus, minimize, close) = (
        CanvasBlockActionType::Focus,
        CanvasBlockActionType::Minimize,
        CanvasBlockActionType::Close,
    );
    let (user, system) = (CanvasBlockActor::User, CanvasBlockActor::System);
    let expected = vec![
        lifecycle(focus, user, requested, Some("block-1"), None),
        lifecycle(focus, user, succeeded, Some("block-1"), None),
        lifecycle(focus, user, requested, Some("block-9"), None),
        lifecycle(focus, user, failed, Some("block-9"), Some("block not found")),
        lifecycle(minimize, user, requested, Some("block-2"), None),
        lifecycle(minimize, user, succeeded, Some("block-2"), Some("minimized")),
        lifecycle(minimize, user, requested, Some("block-2"), None),
        lifecycle(minimize, user, succeeded, Some("block-2"), Some("expanded")),
        lifecycle(minimize, user, requested, Some("block-9"), None),
        lifecycle(minimize, user, failed, Some("block-9"), Some("block not found")),
        lifecycle(close, system, requested, Some("block-1"), None),
        lifecycle(close, system, succeeded, Some("block-1"), None),
        lifecycle(close, system, requested, Some("block-1"), None),
        lifecycle(close, system, failed, Some("block-1"), Some("block not found")),
        lifecycle(close, system, requested, Some("block-2"), None),
        lifecycle(close, system, succeeded, Some("block-2"), None),
    ];
    assert_eq!(&workspace.event_log.entries()[start..], &expected[..]);
}

#[test]
fn block_ids_count_up_and_are_not_reused_after_a_close() {
    let mut workspace = CanvasWorkspace::new();
    assert_eq!(workspace.next_block_id(), "block-1");
    assert_eq!(workspace.next_block_id(), "block-2");
    workspace.block_nonce = u64::MAX - 1;
    assert_eq!(workspace.next_block_id(), "block-18446744073709551615");
    assert_eq!(workspace.next_block_id(), "block-18446744073709551615");
    assert_eq!(block_nonce_of("block-12"), Some(12));
    assert_eq!(block_nonce_of("block-+3"), Some(3));
    assert_eq!(block_nonce_of("block-"), None);
    assert_eq!(block_nonce_of("block-1a"), None);
    assert_eq!(block_nonce_of("blok-1"), None);
    assert_eq!(block_nonce_of("block-18446744073709551616"), None);
}

#[test]
fn a_workspace_survives_snapshot_and_restore() {
    let mut workspace = CanvasWorkspace::new();
    workspace.apply_canvas_block_from_schema(request("t", None, FORM_SCHEMA), CanvasBlockActor::Assistant, 1);
    workspace.apply_canvas_block_from_schema(request("u", None, FORM_SCHEMA), CanvasBlockActor::Assistant, 2);
    workspace.blocks[0].ui_runtime.simulate_form_commit(
        "f",
        "name",
        UiFieldValue::Text { value: "Ada".to_string() },
    );
    workspace.focus_block("block-1", CanvasBlockActor::User, 3);
    let snapshot = workspace.snapshot_canvas_workspace();
    assert_eq!(snapshot.active_block_id.as_deref(), Some("block-1"));
    assert_eq!(snapshot.blocks.len(), 2);
    assert_eq!(
        snapshot.blocks[0].form_state.get("f:name"),
        Some(&UiFieldValue::Text { value: "Ada".to_string() })
    );

    let mut restored = CanvasWorkspace::new();
    let failures = restored.restore_canvas_workspace(&snapshot, 50);
    assert!(failures.is_empty());
    assert_eq!(restored.blocks.len(), 2);
    assert_eq!(restored.active_block_id.as_deref(), Some("block-1"));
    assert_eq!(restored.block_nonce, 2);
    assert_eq!(restored.event_log.len(), 0);
    assert_eq!(restored.blocks[0].last_touched_at, 50);
    assert_eq!(
        restored.blocks[0].ui_runtime.form_state().get("f:name"),
        Some(&UiFieldValue::Text { value: "Ada".to_string() })
    );
    assert_eq!(restored.snapshot_canvas_workspace(), snapshot);
}

#[test]
fn restore_repairs_the_active_block_and_reports_broken_schemas() {
    let mut workspace = CanvasWorkspace::new();
    workspace.apply_canvas_block_from_schema(request("t", None, FORM_SCHEMA), CanvasBlockActor::Assistant, 1);
    workspace.apply_canvas_block_from_schema(request("u", None, FORM_SCHEMA), CanvasBlockActor::Assistant, 2);
    let mut snapshot = workspace.snapshot_canvas_workspace();
    snapshot.active_block_id = Some("block-404".to_string());
    snapshot.blocks[1].schema = JsonValue::parse(BAD_SCHEMA).unwrap();
    snapshot.blocks[1].block_id = "custom".to_string();

    let mut restored = CanvasWorkspace::new();
    let failures = restored.restore_canvas_workspace(&snapshot, 7);
    assert_eq!(
        failures,
        vec![
            "failed to restore canvas block custom: schema validation error: unknown component kind `zap` for component `x`"
        ]
    );
    assert_eq!(restored.blocks.len(), 2);
    assert_eq!(restored.active_block_id.as_deref(), Some("block-1"));
    assert_eq!(restored.block_nonce, 1);
    assert!(restored.blocks[1].ui_runtime.runtime_error().is_some());
    assert_eq!(restored.blocks[1].ui_runtime.form_state().len(), 0);

    let mut empty = CanvasWorkspace::new();
    empty.restore_canvas_workspace(&CanvasWorkspaceState::new(), 1);
    assert_eq!(empty.active_block_id, None);
    assert_eq!(empty.block_nonce, 0);
}
