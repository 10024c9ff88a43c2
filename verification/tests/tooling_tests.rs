use brownie::canvas::CanvasRenderRequest;
use brownie::catalog::{CatalogLoadOutput, CatalogSource, CatalogSourceKind};
use brownie::intent::UiIntent;
use brownie::json::JsonValue;
use brownie::loading::{BuiltinCatalogProvider, UserCatalogProvider};
use brownie::manager::{CatalogManager, ProviderLoad};
use brownie::runtime::UiRuntime;
use brownie::tooling::{
    build_provisional_template, extract_string_argument, extract_tool_query, plan_catalog_query,
    provisional_template_id, sanitize_identifier, summarize_tool_execution,
    summarize_tool_payload, tool_outcome_line, CatalogQueryPlan,
};

#[test]
fn summarize_tool_execution_reads_status_from_json_payload() {
    let (status, message) = summarize_tool_execution(
        true,
        Some("{\"status\":\"text_only\",\"message\":\"No UI intent detected\"}"),
        None,
    );
    assert_eq!(status, "text_only");
    assert_eq!(message.as_deref(), Some("No UI intent detected"));
}

#[test]
fn summarize_tool_execution_reports_error_when_execution_fails() {
    let (status, message) = summarize_tool_execution(false, None, Some("tool call failed"));
    assert_eq!(status, "error");
    assert_eq!(message.as_deref(), Some("tool call failed"));
}

#[test]
fn summarize_tool_execution_uses_result_content_when_error_message_missing() {
    let (status, message) =
        summarize_tool_execution(false, Some("{\"error\":\"bad args\"}"), None);
    assert_eq!(status, "error");
    assert_eq!(message.as_deref(), Some("{\"error\":\"bad args\"}"));
}

#[test]
fn extract_tool_query_supports_input_object_payload() {
    let args = JsonValue::parse("{\"input\": {\"query\": \"show files in src\"}}").unwrap();
    let query = extract_tool_query(&args);
    assert_eq!(query.as_deref(), Some("show files in src"));
}

#[test]
fn a_successful_call_without_a_status_is_a_success() {
    assert_eq!(summarize_tool_execution(true, None, None), ("success".to_string(), None));
    assert_eq!(
        summarize_tool_execution(true, Some("plain text"), Some("ignored")),
        ("success".to_string(), None)
    );
    assert_eq!(
        summarize_tool_execution(true, Some("{\"status\":5,\"message\":\"m\"}"), None),
        ("success".to_string(), None)
    );
    assert_eq!(
        summarize_tool_execution(true, Some("{\"status\":\"ok\",\"message\":5}"), None),
        ("ok".to_string(), None)
    );
    assert_eq!(summarize_tool_execution(false, Some("   "), None), ("error".to_string(), None));
    assert_eq!(
        summarize_tool_execution(false, Some("  padded  "), None),
        ("error".to_string(), Some("padded".to_string()))
    );
    let payload = JsonValue::parse("{\"status\":\"rendered_catalog\"}").unwrap();
    assert_eq!(
        summarize_tool_payload(Some(&payload)),
        ("rendered_catalog".to_string(), None)
    );
    assert_eq!(summarize_tool_payload(None), ("success".to_string(), None));
}

#[test]
fn a_direct_text_goes_before_a_nested_one() {
    let args = JsonValue::parse(
        "{\"prompt\": {\"query\": \"nested\"}, \"text\": \"  direct  \", \"query\": \"   \"}",
    )
    .unwrap();
    assert_eq!(extract_tool_query(&args).as_deref(), Some("direct"));
    let keys = vec!["root_path", "root", "path"];
    let roots = JsonValue::parse("{\"path\": \"b\", \"root\": {\"text\": \"a\"}}").unwrap();
    assert_eq!(extract_string_argument(&roots, &keys).as_deref(), Some("b"));
    let nested = JsonValue::parse("{\"root\": {\"input\": \" in \", \"message\": \"m\"}}").unwrap();
    assert_eq!(extract_string_argument(&nested, &keys).as_deref(), Some("m"));
    assert_eq!(extract_string_argument(&JsonValue::parse("{}").unwrap(), &keys), None);
    assert_eq!(
        extract_tool_query(&JsonValue::parse("\"  just text \"").unwrap()).as_deref(),
        Some("just text")
    );
    assert_eq!(extract_tool_query(&JsonValue::parse("\"   \"").unwrap()), None);
    assert_eq!(extract_tool_query(&JsonValue::parse("[\"query\"]").unwrap()), None);
}

#[test]
fn identifiers_keep_thirty_two_safe_characters() {
    assert_eq!(sanitize_identifier("File_Listing"), "file_listing");
    assert_eq!(sanitize_identifier("a b/c-d"), "abc-d");
    assert_eq!(sanitize_identifier("!!!"), "ui");
    assert_eq!(sanitize_identifier(""), "ui");
    let long = "A".repeat(40);
    assert_eq!(sanitize_identifier(&long), "a".repeat(32));
    let spaced = format!("{}!{}", "x".repeat(31), "YZ");
    assert_eq!(sanitize_identifier(&spaced), format!("{}y", "x".repeat(31)));
    assert_eq!(sanitize_identifier("Ünï"), "n");
}

#[test]
fn provisional_templates_are_built_from_query_and_intent() {
    let intent = UiIntent::new("file_listing", vec!["list".to_string()], vec!["files".to_string()]);
    assert_eq!(provisional_template_id(&intent, 1234), "provisional.file_listing.1234");
    let template = build_provisional_template("  show files  ", &intent, 1234);
    assert_eq!(template.meta.id, "provisional.file_listing.1234");
    assert_eq!(template.meta.title, "Provisional file listing");
    assert_eq!(template.meta.version, "0.1.0");
    assert_eq!(template.meta.tags, vec!["files"]);
    assert_eq!(template.match_rules.primary, "file_listing");
    assert_eq!(template.match_rules.operations, vec!["list"]);
    let expected = JsonValue::parse(
        "{\"schema_version\":1,\"outputs\":[],\"components\":[{\"id\":\"provisional_intro\",\"kind\":\"markdown\",\"text\":\"### Provisional Canvas\\\\nshow files\"},{\"id\":\"workspace_tree\",\"kind\":\"code\",\"language\":\"text\",\"code\":\"__WORKSPACE_TREE__\"}]}",
    )
    .unwrap();
    assert_eq!(template.schema, expected);
    let mut runtime = UiRuntime::new();
    runtime.load_schema_value(&template.schema).expect("the provisional schema loads");

    let review = UiIntent::new("code_review", vec![], vec![]);
    let other = build_provisional_template("q", &review, 0);
    assert_eq!(other.meta.id, "provisional.code_review.0");
    assert_eq!(other.schema.get("components").and_then(|c| c.as_array()).map(|c| c.len()), Some(1));
}

fn manager() -> CatalogManager {
    let user = UserCatalogProvider::new("user-local", "/nowhere");
    let loads = vec![
        ProviderLoad { source: user.source(), outcome: Ok(user.load_from_files(&Vec::new())) },
        ProviderLoad::from_provider(&BuiltinCatalogProvider::new("builtin-default")),
    ];
    CatalogManager::new(loads, false)
}

#[test]
fn a_query_without_text_is_missing() {
    let args = JsonValue::parse("{\"query\": \"  \"}").unwrap();
    assert!(matches!(plan_catalog_query(&args, &manager(), 1), CatalogQueryPlan::MissingQuery));
}

#[test]
fn a_query_without_intent_is_text_only() {
    let args = JsonValue::parse("{\"query\": \"hello there\"}").unwrap();
    match plan_catalog_query(&args, &manager(), 1) {
        CatalogQueryPlan::NoIntent { query } => assert_eq!(query, "hello there"),
        _ => panic!("expected no intent"),
    }
}

#[test]
fn a_matching_template_is_rendered_from_the_catalog() {
    let args = JsonValue::parse(
        "{\"query\": \"review this patch\", \"target_block_id\": \"block-3\", \"root\": \"src\"}",
    )
    .unwrap();
    match plan_catalog_query(&args, &manager(), 1) {
        CatalogQueryPlan::RenderCatalog { render, intent } => {
            assert_eq!(intent.primary, "code_review");
            assert_eq!(render.request.template_id, "builtin.code_review.default");
            assert_eq!(render.request.title, "Code Review");
            assert_eq!(render.request.provider_id, "builtin-default");
            assert_eq!(render.request.provider_kind, "builtin");
            assert_eq!(render.request.target_block_id.as_deref(), Some("block-3"));
            assert_eq!(render.root_path.as_deref(), Some("src"));
            assert!(render.provisional_template.is_none());
            assert_eq!(render.request.intent, intent);
        }
        _ => panic!("expected a catalog render"),
    }
}

#[test]
fn without_a_match_a_provisional_template_is_rendered_unless_forbidden() {
    let args = JsonValue::parse("{\"query\": \"list files please\"}").unwrap();
    match plan_catalog_query(&args, &manager(), 77) {
        CatalogQueryPlan::RenderProvisional { render, intent } => {
            assert_eq!(intent.primary, "file_listing");
            assert_eq!(render.request.template_id, "provisional.file_listing.77");
            assert_eq!(render.request.provider_id, "runtime-provisional");
            assert_eq!(render.request.provider_kind, "provisional");
            assert_eq!(render.request.target_block_id, None);
            let template = render.provisional_template.expect("the provisional template");
            assert_eq!(template.schema, render.request.schema);
            assert_eq!(template.meta.title, render.request.title);
        }
        _ => panic!("expected a provisional render"),
    }
    let forbidden =
        JsonValue::parse("{\"query\": \"list files please\", \"allow_provisional\": false}").unwrap();
    match plan_catalog_query(&forbidden, &manager(), 77) {
        CatalogQueryPlan::NoTemplate { intent } => assert_eq!(intent.primary, "file_listing"),
        _ => panic!("expected no template"),
    }
    let odd = JsonValue::parse("{\"query\": \"list files please\", \"allow_provisional\": \"no\"}")
        .unwrap();
    assert!(matches!(
        plan_catalog_query(&odd, &manager(), 77),
        CatalogQueryPlan::RenderProvisional { .. }
    ));
}

#[test]
fn an_empty_user_load_has_no_templates() {
    let user = UserCatalogProvider::new("user-local", "/nowhere");
    let output: CatalogLoadOutput = user.load_from_files(&Vec::new());
    assert!(output.templates.is_empty() && output.diagnostics.is_empty());
    let source: CatalogSource = user.source();
    assert_eq!(source.kind, CatalogSourceKind::User);
}

#[test]
fn plans_hand_back_a_result_for_the_caller() {
    let args = JsonValue::parse("{\"query\": \"hello there\"}").unwrap();
    assert_eq!(
        plan_catalog_query(&args, &manager(), 1).payload(),
        Some(
            JsonValue::parse(
                "{\"status\":\"text_only\",\"message\":\"No UI intent detected for query. Reply in text.\",\"query\":\"hello there\"}"
            )
            .unwrap()
        )
    );
    let review = JsonValue::parse("{\"query\": \"review the diff\", \"path\": \"src\"}").unwrap();
    assert_eq!(
        plan_catalog_query(&review, &manager(), 1).payload(),
        Some(
            JsonValue::parse(
                "{\"status\":\"rendered_catalog\",\"intent\":\"primary=code_review ops=review tags=diff\",\"template_id\":\"builtin.code_review.default\",\"title\":\"Code Review\",\"provider\":\"builtin-default\",\"target_block_id\":null,\"root_path\":\"src\",\"needs_save_confirmation\":false}"
            )
            .unwrap()
        )
    );
    let listing = JsonValue::parse("{\"query\": \"list files\", \"target_block_id\": \"block-2\"}").unwrap();
    assert_eq!(
        plan_catalog_query(&listing, &manager(), 5).payload(),
        Some(
            JsonValue::parse(
                "{\"status\":\"rendered_provisional\",\"intent\":\"primary=file_listing ops=list tags=files\",\"template_id\":\"provisional.file_listing.5\",\"title\":\"Provisional file listing\",\"target_block_id\":\"block-2\",\"root_path\":null,\"needs_save_confirmation\":true}"
            )
            .unwrap()
        )
    );
    let forbidden =
        JsonValue::parse("{\"query\": \"list files\", \"allow_provisional\": false}").unwrap();
    assert_eq!(
        plan_catalog_query(&forbidden, &manager(), 5).payload(),
        Some(
            JsonValue::parse(
                "{\"status\":\"text_only\",\"intent\":\"primary=file_listing ops=list tags=files\",\"message\":\"No matching catalog template and provisional creation is disabled.\"}"
            )
            .unwrap()
        )
    );
    assert_eq!(plan_catalog_query(&JsonValue::Null, &manager(), 5).payload(), None);
    assert!(CatalogQueryPlan::missing_query_text().starts_with("query_ui_catalog requires"));
}

#[test]
fn a_request_for_a_template_carries_the_template_and_its_source() {
    let manager = manager();
    let intent = UiIntent::new("code_review", vec!["approve".to_string()], vec![]);
    let template = manager.resolve(&intent).selected.expect("a builtin template matches");
    let request =
        CanvasRenderRequest::for_template(&template, &intent, Some("block-9".to_string()));
    assert_eq!(request.intent, intent);
    assert_eq!(request.template_id, template.document.meta.id);
    assert_eq!(request.title, template.document.meta.title);
    assert_eq!(request.provider_id, "builtin-default");
    assert_eq!(request.provider_kind, "builtin");
    assert_eq!(request.target_block_id.as_deref(), Some("block-9"));
    assert_eq!(request.schema, template.document.schema);
}

#[test]
fn the_outcome_of_a_tool_call_is_one_line() {
    assert_eq!(
        tool_outcome_line("query_ui_catalog", "rendered_catalog", None),
        "tool outcome tool=query_ui_catalog status=rendered_catalog"
    );
    assert_eq!(
        tool_outcome_line("query_ui_catalog", "text_only", Some("No UI intent\ndetected")),
        "tool outcome tool=query_ui_catalog status=text_only canvas_not_rendered=true message=No UI intent detected"
    );
    assert_eq!(
        tool_outcome_line("query_ui_catalog", "error", None),
        "tool outcome tool=query_ui_catalog status=error canvas_not_rendered=true"
    );
    assert_eq!(
        tool_outcome_line("other_tool", "error", Some("boom")),
        "tool outcome tool=other_tool status=error message=boom"
    );
}
