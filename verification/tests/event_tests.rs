use brownie::event::{UiEvent, UiEventLog, UiFieldValue};
use brownie::workspace::{CanvasBlockActionStatus, CanvasBlockActionType, CanvasBlockActor};

#[test]
fn lifecycle_events_render_machine_readable_log_line() {
    let event = UiEvent::CanvasBlockLifecycle {
        action: CanvasBlockActionType::Close,
        actor: CanvasBlockActor::User,
        status: CanvasBlockActionStatus::Succeeded,
        block_id: Some("block-7".to_string()),
        message: Some("ok".to_string()),
    };
    let line = event.to_log_line("");
    assert!(line.contains("canvas_block_lifecycle"));
    assert!(line.contains("action=Close"));
    assert!(line.contains("actor=User"));
    assert!(line.contains("status=Succeeded"));
    assert!(line.contains("block_id=block-7"));
    assert!(line.contains("message=ok"));
}

#[test]
fn ui_event_log_is_append_only_and_ordered() {
    let mut log = UiEventLog::default();
    let first = UiEvent::CanvasBlockLifecycle {
        action: CanvasBlockActionType::Open,
        actor: CanvasBlockActor::Assistant,
        status: CanvasBlockActionStatus::Requested,
        block_id: None,
        message: Some("template_id=builtin.file_listing.default".to_string()),
    };
    let second = UiEvent::CanvasBlockLifecycle {
        action: CanvasBlockActionType::Open,
        actor: CanvasBlockActor::Assistant,
        status: CanvasBlockActionStatus::Succeeded,
        block_id: Some("block-1".to_string()),
        message: None,
    };
    log.push(first.clone());
    log.push(second.clone());

    assert_eq!(log.entries().len(), 2);
    assert_eq!(log.entries()[0], first);
    assert_eq!(log.entries()[1], second);
}

#[test]
fn log_lines_are_exact() {
    let lifecycle = UiEvent::CanvasBlockLifecycle {
        action: CanvasBlockActionType::Minimize,
        actor: CanvasBlockActor::System,
        status: CanvasBlockActionStatus::Failed,
        block_id: None,
        message: None,
    };
    assert_eq!(
        lifecycle.to_log_line(""),
        "canvas_block_lifecycle action=Minimize actor=System status=Failed block_id=-"
    );
    let with_message = UiEvent::CanvasBlockLifecycle {
        action: CanvasBlockActionType::Update,
        actor: CanvasBlockActor::Assistant,
        status: CanvasBlockActionStatus::Requested,
        block_id: Some("block-2".to_string()),
        message: Some("template_id=t".to_string()),
    };
    assert_eq!(
        with_message.to_log_line(""),
        "canvas_block_lifecycle action=Update actor=Assistant status=Requested block_id=block-2 message=template_id=t"
    );
    let focus = UiEvent::CanvasBlockLifecycle {
        action: CanvasBlockActionType::Focus,
        actor: CanvasBlockActor::User,
        status: CanvasBlockActionStatus::Succeeded,
        block_id: Some("b".to_string()),
        message: None,
    };
    assert_eq!(
        focus.to_log_line(""),
        "canvas_block_lifecycle action=Focus actor=User status=Succeeded block_id=b"
    );
    let click = UiEvent::ButtonClicked {
        component_id: "approve_btn".to_string(),
        output_event_id: "review.approved".to_string(),
    };
    assert_eq!(
        click.to_log_line(""),
        "button_clicked component_id=approve_btn output=review.approved"
    );
    let commit = UiEvent::FormFieldCommitted {
        component_id: "f".to_string(),
        form_id: "f".to_string(),
        field_id: "weight".to_string(),
        value: UiFieldValue::Number { bits: 2.5f64.to_bits() },
    };
    assert_eq!(
        commit.to_log_line(&2.5f64.to_string()),
        "form_field_committed component_id=f form_id=f field_id=weight value=2.5"
    );
}

#[test]
fn field_values_show_as_text() {
    assert_eq!(UiFieldValue::Text { value: "hi".to_string() }.display_value(""), "hi");
    assert_eq!(UiFieldValue::Select { value: "a".to_string() }.display_value("x"), "a");
    assert_eq!(UiFieldValue::Checkbox { value: true }.display_value(""), "true");
    assert_eq!(UiFieldValue::Checkbox { value: false }.display_value(""), "false");
    assert_eq!(UiFieldValue::Number { bits: 1.0f64.to_bits() }.display_value("1"), "1");
}

#[test]
fn a_new_log_is_empty() {
    let log = UiEventLog::new();
    assert_eq!(log.len(), 0);
    assert!(log.entries().is_empty());
}

#[test]
fn lifecycle_events_give_a_diagnostic_on_one_line() {
    let event = UiEvent::CanvasBlockLifecycle {
        action: CanvasBlockActionType::Update,
        actor: CanvasBlockActor::Assistant,
        status: CanvasBlockActionStatus::Failed,
        block_id: None,
        message: Some("two\nlines".to_string()),
    };
    assert_eq!(
        event.lifecycle_diagnostic().as_deref(),
        Some("canvas lifecycle action=Update actor=Assistant status=Failed block_id=- message=two lines")
    );
    let quiet = UiEvent::CanvasBlockLifecycle {
        action: CanvasBlockActionType::Open,
        actor: CanvasBlockActor::System,
        status: CanvasBlockActionStatus::Requested,
        block_id: Some("block-2".to_string()),
        message: None,
    };
    assert_eq!(
        quiet.lifecycle_diagnostic().as_deref(),
        Some("canvas lifecycle action=Open actor=System status=Requested block_id=block-2")
    );
    let click = UiEvent::ButtonClicked {
        component_id: "b".to_string(),
        output_event_id: "e".to_string(),
    };
    assert_eq!(click.lifecycle_diagnostic(), None);
}
