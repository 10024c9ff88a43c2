use brownie::json::JsonValue;
use brownie::registry::ComponentRegistry;
use brownie::schema::{
    field_key, ComponentKind, FormFieldKind, UiSchema, ValidatedComponent, ValidatedFormField,
    ValidatedSchema, ValidationError, MAX_COMPONENTS, MAX_DEPTH,
};
use brownie::validate::validate_schema;

const FIXTURE: &str = r#"{
  "schema_version": 1,
  "outputs": [
    {"component_id": "approve_btn", "event_id": "review.approved"},
    {"component_id": "reject_btn", "event_id": "review.rejected"}
  ],
  "components": [
    {"id": "intro", "kind": "markdown", "text": "Review the change",
     "children": [
       {"id": "snippet", "kind": "code", "language": "rust", "code": "fn main() {}"}
     ]},
    {"id": "change", "kind": "diff", "lines": [
       {"kind": "removed", "text": "old"},
       {"kind": "added", "text": "new"},
       {"kind": "context", "text": "same"}
     ]},
    {"id": "review_form", "kind": "form", "title": "Decision", "fields": [
       {"id": "decision", "label": "Decision", "kind": "select",
        "options": ["approve", "needs-changes", "reject"]},
       {"id": "notes", "label": "Notes", "kind": "text", "default": 7},
       {"id": "weight", "label": "Weight", "kind": "number", "default": 2.5},
       {"id": "count", "label": "Count", "kind": "number", "default": 3},
       {"id": "urgent", "label": "Urgent", "kind": "checkbox", "default": true}
     ]},
    {"id": "approve_btn", "kind": "button", "label": "Approve", "variant": "primary"},
    {"id": "reject_btn", "kind": "button", "label": "Reject"}
  ]
}"#;

fn validate(json: &str) -> Result<ValidatedSchema, ValidationError> {
    let value = JsonValue::parse(json).expect("schema should parse");
    let schema = UiSchema::from_json(&value).expect("schema should deserialize");
    let registry = ComponentRegistry::new();
    validate_schema(&schema, &registry)
}

#[test]
fn valid_schema_passes() {
    assert!(validate(FIXTURE).is_ok());
}

#[test]
fn unknown_component_fails_validation() {
    let schema = r#"{
          "schema_version": 1,
          "outputs": [],
          "components": [{"id":"x","kind":"unknown_widget"}]
        }"#;
    assert!(matches!(
        validate(schema),
        Err(ValidationError::UnknownComponent { .. })
    ));
}

#[test]
fn unsupported_field_type_fails_validation() {
    let schema = r#"{
          "schema_version": 1,
          "outputs": [],
          "components": [{
            "id":"f1",
            "kind":"form",
            "fields":[{"id":"a","label":"A","kind":"slider"}]
          }]
        }"#;
    assert!(matches!(
        validate(schema),
        Err(ValidationError::UnsupportedFieldType { .. })
    ));
}

fn many_markdowns(count: usize) -> String {
    let mut components = Vec::new();
    for i in 0..count {
        components.push(format!(
            "{{\"id\":\"m{i}\",\"kind\":\"markdown\",\"text\":\"x\"}}"
        ));
    }
    format!(
        "{{\"schema_version\":1,\"outputs\":[],\"components\":[{}]}}",
        components.join(",")
    )
}

#[test]
fn component_count_limit_enforced() {
    let schema = many_markdowns(MAX_COMPONENTS + 1);
    assert!(matches!(
        validate(&schema),
        Err(ValidationError::TooManyComponents { .. })
    ));
}

#[test]
fn nesting_depth_limit_enforced() {
    let schema = r#"{
          "schema_version": 1,
          "outputs": [],
          "components": [{
            "id":"l1","kind":"markdown","text":"a",
            "children":[{
              "id":"l2","kind":"markdown","text":"b",
              "children":[{
                "id":"l3","kind":"markdown","text":"c",
                "children":[{
                  "id":"l4","kind":"markdown","text":"d",
                  "children":[{"id":"l5","kind":"markdown","text":"e"}]
                }]
              }]
            }]
          }]
        }"#;
    assert!(matches!(
        validate(schema),
        Err(ValidationError::NestingTooDeep { .. })
    ));
}

#[test]
fn missing_button_output_contract_fails_validation() {
    let schema = r#"{
          "schema_version": 1,
          "outputs": [],
          "components": [{"id":"b1","kind":"button","label":"Go"}]
        }"#;
    assert!(matches!(
        validate(schema),
        Err(ValidationError::MissingButtonOutputContract { .. })
    ));
}

#[test]
fn sixty_five_components_report_budget_and_count() {
    assert_eq!(
        validate(&many_markdowns(65)),
        Err(ValidationError::TooManyComponents { max: 64, actual: 65 })
    );
    let accepted = validate(&many_markdowns(64)).expect("64 components fit the budget");
    assert_eq!(accepted.components.len(), 64);
}

#[test]
fn component_budget_counts_the_whole_tree() {
    // 33 top-level components with one child each: 66 in all, the 65th is a top-level one
    let mut components = Vec::new();
    for i in 0..33 {
        components.push(format!(
            "{{\"id\":\"p{i}\",\"kind\":\"markdown\",\"text\":\"x\",\"children\":[{{\"id\":\"c{i}\",\"kind\":\"markdown\",\"text\":\"y\"}}]}}"
        ));
    }
    let schema = format!(
        "{{\"outputs\":[],\"components\":[{}]}}",
        components.join(",")
    );
    assert_eq!(
        validate(&schema),
        Err(ValidationError::TooManyComponents { max: 64, actual: 65 })
    );
}

#[test]
fn fifth_level_reports_depth_and_component() {
    let schema = r#"{"components":[{"id":"l1","kind":"markdown","text":"a","children":[
        {"id":"l2","kind":"markdown","text":"b","children":[
        {"id":"l3","kind":"markdown","text":"c","children":[
        {"id":"l4","kind":"markdown","text":"d","children":[
        {"id":"l5","kind":"markdown","text":"e"}]}]}]}]}]}"#;
    assert_eq!(
        validate(schema),
        Err(ValidationError::NestingTooDeep {
            max: MAX_DEPTH,
            actual: 5,
            component_id: "l5".to_string()
        })
    );
    let four = r#"{"components":[{"id":"l1","kind":"markdown","text":"a","children":[
        {"id":"l2","kind":"markdown","text":"b","children":[
        {"id":"l3","kind":"markdown","text":"c","children":[
        {"id":"l4","kind":"markdown","text":"d"}]}]}]}]}"#;
    assert!(validate(four).is_ok());
}

#[test]
fn two_buttons_sharing_one_id_fail() {
    let schema = r#"{
          "outputs": [{"component_id":"go","event_id":"e.go"}],
          "components": [
            {"id":"go","kind":"button","label":"Go"},
            {"id":"note","kind":"markdown","text":"x","children":[
              {"id":"go","kind":"button","label":"Go again"}]}
          ]
        }"#;
    assert_eq!(
        validate(schema),
        Err(ValidationError::DuplicateActionableId { component_id: "go".to_string() })
    );
}

#[test]
fn form_and_button_share_the_id_space_but_markdown_does_not() {
    let clash = r#"{"outputs":[{"component_id":"x","event_id":"e"}],"components":[
        {"id":"x","kind":"form"},{"id":"x","kind":"button","label":"B"}]}"#;
    assert_eq!(
        validate(clash),
        Err(ValidationError::DuplicateActionableId { component_id: "x".to_string() })
    );
    let fine = r#"{"outputs":[{"component_id":"x","event_id":"e"}],"components":[
        {"id":"x","kind":"markdown","text":"a"},{"id":"x","kind":"code","code":"b"},
        {"id":"x","kind":"button","label":"B"}]}"#;
    assert!(validate(fine).is_ok());
}

#[test]
fn button_without_contract_names_the_button() {
    let schema = r#"{"outputs":[{"component_id":"other","event_id":"e"}],
        "components":[{"id":"b1","kind":"button","label":"Go"}]}"#;
    assert_eq!(
        validate(schema),
        Err(ValidationError::MissingButtonOutputContract { button_id: "b1".to_string() })
    );
}

#[test]
fn missing_required_fields_are_named() {
    let markdown = r#"{"components":[{"id":"m","kind":"markdown"}]}"#;
    assert_eq!(
        validate(markdown),
        Err(ValidationError::MissingRequiredField { component_id: "m".to_string(), field: "text" })
    );
    let code = r#"{"components":[{"id":"c","kind":"code","language":"rust"}]}"#;
    assert_eq!(
        validate(code),
        Err(ValidationError::MissingRequiredField { component_id: "c".to_string(), field: "code" })
    );
    let button = r#"{"outputs":[{"component_id":"b","event_id":"e"}],
        "components":[{"id":"b","kind":"button"}]}"#;
    assert_eq!(
        validate(button),
        Err(ValidationError::MissingRequiredField { component_id: "b".to_string(), field: "label" })
    );
}

#[test]
fn a_child_error_comes_before_the_parents_own_fields() {
    let schema = r#"{"components":[{"id":"parent","kind":"markdown","children":[
        {"id":"kid","kind":"code"}]}]}"#;
    assert_eq!(
        validate(schema),
        Err(ValidationError::MissingRequiredField { component_id: "kid".to_string(), field: "code" })
    );
}

#[test]
fn unknown_kinds_keep_their_name() {
    let schema = r#"{"components":[{"id":"x","kind":"carousel"}]}"#;
    assert_eq!(
        validate(schema),
        Err(ValidationError::UnknownComponent {
            component_id: "x".to_string(),
            kind: "carousel".to_string()
        })
    );
    let field = r#"{"components":[{"id":"f","kind":"form","fields":[
        {"id":"a","label":"A","kind":"text"},{"id":"b","label":"B","kind":"slider"}]}]}"#;
    assert_eq!(
        validate(field),
        Err(ValidationError::UnsupportedFieldType {
            form_id: "f".to_string(),
            field_id: "b".to_string(),
            kind: "slider".to_string()
        })
    );
}

#[test]
fn a_registry_can_refuse_a_known_kind() {
    let value = JsonValue::parse(r#"{"components":[{"id":"d","kind":"diff"}]}"#).unwrap();
    let schema = UiSchema::from_json(&value).unwrap();
    let mut registry = ComponentRegistry::new();
    registry.allowed_components.retain(|name| name != "diff");
    assert_eq!(
        validate_schema(&schema, &registry),
        Err(ValidationError::UnknownComponent {
            component_id: "d".to_string(),
            kind: "diff".to_string()
        })
    );
}

#[test]
fn fields_get_type_correct_defaults() {
    let validated = validate(FIXTURE).expect("fixture is valid");
    let form = match &validated.components[2] {
        ValidatedComponent::Form(form) => form,
        other => panic!("expected a form, got {other:?}"),
    };
    assert_eq!(form.title.as_deref(), Some("Decision"));
    match &form.fields[0] {
        ValidatedFormField::Select(f) => {
            assert_eq!(f.default, "approve");
            assert_eq!(f.options, vec!["approve", "needs-changes", "reject"]);
        }
        other => panic!("expected a select, got {other:?}"),
    }
    match &form.fields[1] {
        // the declared default is a number, which is no text
        ValidatedFormField::Text(f) => assert_eq!(f.default, ""),
        other => panic!("expected a text, got {other:?}"),
    }
    match &form.fields[2] {
        ValidatedFormField::Number(f) => assert_eq!(f64::from_bits(f.default_bits), 2.5),
        other => panic!("expected a number, got {other:?}"),
    }
    match &form.fields[3] {
        ValidatedFormField::Number(f) => assert_eq!(f64::from_bits(f.default_bits), 3.0),
        other => panic!("expected a number, got {other:?}"),
    }
    match &form.fields[4] {
        ValidatedFormField::Checkbox(f) => assert!(f.default),
        other => panic!("expected a checkbox, got {other:?}"),
    }
}

#[test]
fn defaults_without_declaration() {
    let schema = r#"{"components":[{"id":"f","kind":"form","fields":[
        {"id":"n","label":"N","kind":"number"},
        {"id":"s","label":"S","kind":"select"},
        {"id":"c","label":"C","kind":"checkbox","default":"yes"},
        {"id":"t","label":"T","kind":"text","default":"hello"}]}]}"#;
    let validated = validate(schema).expect("valid");
    let form = match &validated.components[0] {
        ValidatedComponent::Form(form) => form,
        other => panic!("expected a form, got {other:?}"),
    };
    match &form.fields[0] {
        ValidatedFormField::Number(f) => assert_eq!(f.default_bits, 0.0f64.to_bits()),
        other => panic!("unexpected {other:?}"),
    }
    match &form.fields[1] {
        ValidatedFormField::Select(f) => assert_eq!(f.default, ""),
        other => panic!("unexpected {other:?}"),
    }
    match &form.fields[2] {
        ValidatedFormField::Checkbox(f) => assert!(!f.default),
        other => panic!("unexpected {other:?}"),
    }
    match &form.fields[3] {
        ValidatedFormField::Text(f) => assert_eq!(f.default, "hello"),
        other => panic!("unexpected {other:?}"),
    }
}

#[test]
fn buttons_take_their_event_from_the_last_contract() {
    let schema = r#"{"outputs":[{"component_id":"b","event_id":"first"},
        {"component_id":"b","event_id":"second"}],
        "components":[{"id":"b","kind":"button","label":"Go"}]}"#;
    let validated = validate(schema).expect("valid");
    match &validated.components[0] {
        ValidatedComponent::Button(b) => {
            assert_eq!(b.output_event_id, "second");
            assert_eq!(b.variant, brownie::schema::ButtonStyle::Secondary);
        }
        other => panic!("unexpected {other:?}"),
    }
}

#[test]
fn schema_documents_are_read_with_defaults() {
    let value = JsonValue::parse("{}").unwrap();
    let schema = UiSchema::from_json(&value).expect("an empty object is a schema");
    assert_eq!(schema.schema_version, 1);
    assert!(schema.outputs.is_empty());
    assert!(schema.components.is_empty());

    for bad in [
        "[]",
        "5",
        r#"{"schema_version":"not-a-number"}"#,
        r#"{"schema_version":-1}"#,
        r#"{"schema_version":1.5}"#,
        r#"{"schema_version":4294967296}"#,
        r#"{"components":null}"#,
        r#"{"components":[{"kind":"markdown"}]}"#,
        r#"{"components":[{"id":"x"}]}"#,
        r#"{"components":[{"id":"x","kind":"markdown","text":5}]}"#,
        r#"{"components":[{"id":"x","kind":"button","variant":"loud"}]}"#,
        r#"{"components":[{"id":"x","kind":"diff","lines":[{"kind":"moved","text":"t"}]}]}"#,
        r#"{"outputs":[{"component_id":"x"}]}"#,
        r#"{"components":[{"id":"f","kind":"form","fields":[{"id":"a","kind":"text"}]}]}"#,
    ] {
        let value = JsonValue::parse(bad).unwrap();
        assert!(UiSchema::from_json(&value).is_err(), "{bad} should be refused");
    }
    let version = JsonValue::parse(r#"{"schema_version":4294967295,"extra":true}"#).unwrap();
    assert_eq!(UiSchema::from_json(&version).unwrap().schema_version, u32::MAX);
}

#[test]
fn kinds_have_their_names() {
    assert_eq!(ComponentKind::Markdown.as_str(), "markdown");
    assert_eq!(ComponentKind::Form.as_str(), "form");
    assert_eq!(ComponentKind::Code.as_str(), "code");
    assert_eq!(ComponentKind::Diff.as_str(), "diff");
    assert_eq!(ComponentKind::Button.as_str(), "button");
    assert_eq!(ComponentKind::Unknown("zap".to_string()).as_str(), "zap");
    assert!(ComponentKind::Form.is_actionable());
    assert!(ComponentKind::Button.is_actionable());
    assert!(!ComponentKind::Markdown.is_actionable());
    assert!(!ComponentKind::Unknown("form".to_string()).is_actionable());
    assert_eq!(FormFieldKind::Text.as_str(), "text");
    assert_eq!(FormFieldKind::Number.as_str(), "number");
    assert_eq!(FormFieldKind::Select.as_str(), "select");
    assert_eq!(FormFieldKind::Checkbox.as_str(), "checkbox");
    assert_eq!(FormFieldKind::Unknown("slider".to_string()).as_str(), "slider");
    assert_eq!(field_key("review_form", "decision"), "review_form:decision");
}

#[test]
fn validation_errors_have_messages() {
    assert_eq!(
        ValidationError::TooManyComponents { max: 64, actual: 65 }.message(),
        "component count 65 exceeds max 64"
    );
    assert_eq!(
        ValidationError::NestingTooDeep { max: 4, actual: 5, component_id: "l5".to_string() }
            .message(),
        "component `l5` nesting depth 5 exceeds max 4"
    );
    assert_eq!(
        ValidationError::UnknownComponent { component_id: "x".to_string(), kind: "k".to_string() }
            .message(),
        "unknown component kind `k` for component `x`"
    );
    assert_eq!(
        ValidationError::UnsupportedFieldType {
            form_id: "f".to_string(),
            field_id: "a".to_string(),
            kind: "slider".to_string()
        }
        .message(),
        "unsupported field kind `slider` for form `f` field `a`"
    );
    assert_eq!(
        ValidationError::MissingRequiredField { component_id: "m".to_string(), field: "text" }
            .message(),
        "missing required field `text` for component `m`"
    );
    assert_eq!(
        ValidationError::DuplicateActionableId { component_id: "go".to_string() }.message(),
        "duplicate actionable component id `go`"
    );
    assert_eq!(
        ValidationError::MissingButtonOutputContract { button_id: "b1".to_string() }.message(),
        "button `b1` missing output contract mapping"
    );
}
