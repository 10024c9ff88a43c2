use brownie::catalog::{
    count_overlap, has_same_terms, score_secondary, CatalogError, CatalogLoadDiagnostic,
    CatalogLoadOutput, CatalogSource, CatalogSourceKind, CatalogTemplate, TemplateDocument,
};
use brownie::intent::{normalize_terms, UiIntent};
use brownie::json::{JsonNumberKind, JsonValue};
use brownie::loading::{
    is_template_file, parse_and_validate_template, sanitize_filename, BuiltinCatalogProvider,
    CatalogProvider, UserCatalogProvider, BUILTIN_CODE_REVIEW_TEMPLATE,
    BUILTIN_PLAN_REVIEW_TEMPLATE,
};
use brownie::manager::{CatalogManager, ProviderLoad};
use brownie::ranking::{precedence_index, rank_candidates, ResolutionCandidate};
use brownie::resolve::{precedence, tier};
use brownie::runtime::UiRuntime;
use std::cell::RefCell;
use std::cmp::Ordering;
use std::collections::BTreeMap;

struct MemoryCatalogProvider {
    source: CatalogSource,
    templates: Vec<String>,
}

impl MemoryCatalogProvider {
    fn new(kind: CatalogSourceKind, provider_id: &str, templates: Vec<String>) -> Self {
        Self {
            source: CatalogSource {
                provider_id: provider_id.to_string(),
                kind,
                read_only: true,
            },
            templates,
        }
    }
}

impl CatalogProvider for MemoryCatalogProvider {
    fn source(&self) -> CatalogSource {
        self.source.clone()
    }

    fn load_templates(&self) -> Result<CatalogLoadOutput, CatalogError> {
        let mut output = CatalogLoadOutput {
            templates: Vec::new(),
            diagnostics: Vec::new(),
        };

        for (index, template) in self.templates.iter().enumerate() {
            match parse_and_validate_template(template, &self.source, &format!("mem:{index}")) {
                Ok(parsed) => output.templates.push(parsed),
                Err(reason) => output.diagnostics.push(CatalogLoadDiagnostic {
                    provider_id: self.source.provider_id.clone(),
                    template_ref: format!("mem:{index}"),
                    reason,
                }),
            }
        }

        Ok(output)
    }
}

fn sample_template_json(
    template_id: &str,
    primary: &str,
    operations: &[&str],
    tags: &[&str],
) -> String {
    let operations = operations
        .iter()
        .map(|op| format!("\"{op}\""))
        .collect::<Vec<_>>()
        .join(",");
    let tags = tags
        .iter()
        .map(|tag| format!("\"{tag}\""))
        .collect::<Vec<_>>()
        .join(",");

    format!(
        r#"{{
  "meta": {{
    "id": "{template_id}",
    "title": "Template {template_id}",
    "version": "1.0.0",
    "tags": [{tags}]
  }},
  "match": {{
    "primary": "{primary}",
    "operations": [{operations}],
    "tags": [{tags}]
  }},
  "schema": {{
    "schema_version": 1,
    "outputs": [
      {{
        "component_id": "submit_{template_id}",
        "event_id": "event.{template_id}"
      }}
    ],
    "components": [
      {{
        "id": "note_{template_id}",
        "kind": "markdown",
        "text": "{template_id}"
      }},
      {{
        "id": "submit_{template_id}",
        "kind": "button",
        "label": "Submit",
        "variant": "primary"
      }}
    ]
  }}
}}"#
    )
}

fn words(items: &[&str]) -> Vec<String> {
    items.iter().map(|s| s.to_string()).collect()
}

#[test]
fn builtin_provider_loads_embedded_templates() {
    let provider = BuiltinCatalogProvider::new("builtin-default");
    let loaded = provider.load_templates().expect("builtin load should succeed");
    assert!(loaded.diagnostics.is_empty());
    assert!(loaded.templates.len() >= 2);
}

#[test]
fn builtin_provider_rejects_mutation_attempts() {
    let provider = BuiltinCatalogProvider::default();
    let parsed = JsonValue::parse(BUILTIN_PLAN_REVIEW_TEMPLATE).expect("embedded template is JSON");
    let template =
        TemplateDocument::from_json(&parsed).expect("embedded template should deserialize");

    assert!(matches!(
        provider.upsert_template(&template),
        Err(CatalogError::ReadOnlyProvider { .. })
    ));
    assert!(matches!(
        provider.delete_template("builtin.plan_review.default"),
        Err(CatalogError::ReadOnlyProvider { .. })
    ));
}

#[test]
fn resolver_prefers_user_over_builtin_when_org_disabled() {
    let user_template = sample_template_json(
        "user.code_review",
        "code_review",
        &["approve", "reject"],
        &["spec"],
    );
    let loads = vec![
        ProviderLoad::from_provider(&MemoryCatalogProvider::new(
            CatalogSourceKind::User,
            "user",
            vec![user_template],
        )),
        ProviderLoad::from_provider(&BuiltinCatalogProvider::new("builtin-default")),
    ];

    let manager = CatalogManager::new(loads, false);
    let intent = UiIntent::new(
        "code_review",
        vec!["approve".to_string(), "reject".to_string()],
        vec!["spec".to_string()],
    );
    let result = manager.resolve(&intent);

    let selected = result
        .selected
        .expect("expected selection when user and builtin both match");
    assert_eq!(selected.source.kind, CatalogSourceKind::User);
    assert_eq!(selected.source.provider_id, "user");
}

#[test]
fn resolver_prefers_org_over_user_and_builtin_when_enabled() {
    let org_template = sample_template_json(
        "org.code_review",
        "code_review",
        &["approve"],
        &["security"],
    );
    let user_template = sample_template_json(
        "user.code_review",
        "code_review",
        &["approve"],
        &["security"],
    );

    let loads = vec![
        ProviderLoad::from_provider(&MemoryCatalogProvider::new(
            CatalogSourceKind::Org,
            "org",
            vec![org_template],
        )),
        ProviderLoad::from_provider(&MemoryCatalogProvider::new(
            CatalogSourceKind::User,
            "user",
            vec![user_template],
        )),
        ProviderLoad::from_provider(&BuiltinCatalogProvider::new("builtin-default")),
    ];

    let manager = CatalogManager::new(loads, true);
    let intent = UiIntent::new(
        "code_review",
        vec!["approve".to_string()],
        vec!["security".to_string()],
    );
    let result = manager.resolve(&intent);

    let selected = result.selected.expect("expected org template to win");
    assert_eq!(selected.source.kind, CatalogSourceKind::Org);
    assert_eq!(selected.source.provider_id, "org");
}

#[test]
fn resolver_secondary_overlap_and_tie_breaking_are_deterministic() {
    let lower = sample_template_json(
        "user.code_review.a",
        "code_review",
        &["approve"],
        &["spec"],
    );
    let higher = sample_template_json(
        "user.code_review.b",
        "code_review",
        &["approve", "reject"],
        &["spec", "diff"],
    );

    let loads = vec![ProviderLoad::from_provider(&MemoryCatalogProvider::new(
        CatalogSourceKind::User,
        "user",
        vec![lower, higher],
    ))];

    let manager = CatalogManager::new(loads, false);
    let intent = UiIntent::new(
        "code_review",
        vec!["approve".to_string(), "reject".to_string()],
        vec!["spec".to_string(), "diff".to_string()],
    );

    let first = manager.resolve(&intent);
    let second = manager.resolve(&intent);
    assert_eq!(
        first.trace.selected_template_id,
        second.trace.selected_template_id,
        "same input should produce stable winner"
    );
    assert_eq!(first.trace.ranked_candidates, second.trace.ranked_candidates);

    let winner = first.selected.expect("winner should exist");
    assert_eq!(winner.template_id(), "user.code_review.b");
}

#[test]
fn resolver_returns_explicit_no_match_with_reasons() {
    let loads = vec![ProviderLoad::from_provider(&BuiltinCatalogProvider::new("builtin-default"))];
    let manager = CatalogManager::new(loads, false);
    let intent = UiIntent::new("unmatched_primary", Vec::new(), Vec::new());
    let result = manager.resolve(&intent);

    assert!(result.selected.is_none());
    assert!(result.trace.no_match_reasons.iter().any(|reason| {
        reason.contains("primary mismatch") || reason.contains("catalog index")
    }));
}

#[test]
fn selected_template_schema_loads_into_runtime() {
    let loads = vec![ProviderLoad::from_provider(&BuiltinCatalogProvider::new("builtin-default"))];
    let manager = CatalogManager::new(loads, false);
    let intent = UiIntent::new(
        "code_review",
        vec!["approve".to_string(), "reject".to_string()],
        vec!["spec".to_string()],
    );
    let result = manager.resolve(&intent);
    let selected = result.selected.expect("a builtin template should match");

    let mut runtime = UiRuntime::new();
    runtime
        .load_schema_value(selected.schema_value())
        .expect("selected template schema should validate and load");
    assert!(runtime.has_schema());
    assert!(runtime.runtime_error().is_none());
}

fn manager_of(org_enabled: bool, entries: &[(CatalogSourceKind, &str, &str, &str, &[&str], &[&str])]) -> CatalogManager {
    let mut loads = Vec::new();
    for (kind, provider, id, primary, ops, tags) in entries {
        loads.push(ProviderLoad::from_provider(&MemoryCatalogProvider::new(
            *kind,
            provider,
            vec![sample_template_json(id, primary, ops, tags)],
        )));
    }
    CatalogManager::new(loads, org_enabled)
}

#[test]
fn an_org_candidate_with_score_zero_beats_a_user_candidate_with_score_twenty() {
    let manager = manager_of(
        true,
        &[
            (CatalogSourceKind::User, "user", "u.review", "code_review", &["approve", "reject"], &[]),
            (CatalogSourceKind::Org, "org", "o.review", "code_review", &[], &[]),
        ],
    );
    let intent = UiIntent::new("code_review", words(&["approve", "reject"]), vec![]);
    let result = manager.resolve(&intent);
    let selected = result.selected.expect("a winner");
    assert_eq!(selected.template_id(), "o.review");
    assert_eq!(result.trace.selected_score, Some(0));
    assert_eq!(result.trace.selected_provider_id.as_deref(), Some("org"));
    let user = result
        .trace
        .ranked_candidates
        .iter()
        .find(|c| c.template_id == "u.review")
        .expect("the user candidate is listed");
    assert_eq!(user.score, 22);
    assert!(!user.selected);
    assert_eq!(
        user.excluded_reason.as_deref(),
        Some("lower provider precedence than org")
    );
    // listed by rank: the higher score first
    assert_eq!(result.trace.ranked_candidates[0].template_id, "u.review");
    assert!(result.trace.ranked_candidates[1].selected);
    assert!(result.trace.no_match_reasons.is_empty());
    assert_eq!(
        result.trace.provider_precedence,
        vec![CatalogSourceKind::Org, CatalogSourceKind::User, CatalogSourceKind::Builtin]
    );
}

#[test]
fn the_org_tier_takes_no_part_when_it_is_disabled() {
    let manager = manager_of(
        false,
        &[
            (CatalogSourceKind::User, "user", "u.review", "code_review", &[], &[]),
            (CatalogSourceKind::Org, "org", "o.review", "code_review", &["approve"], &[]),
        ],
    );
    let intent = UiIntent::new("code_review", words(&["approve"]), vec![]);
    let result = manager.resolve(&intent);
    assert_eq!(result.selected.expect("a winner").template_id(), "u.review");
    assert_eq!(result.trace.ranked_candidates.len(), 1);
    assert_eq!(
        result.trace.provider_precedence,
        vec![CatalogSourceKind::User, CatalogSourceKind::Builtin]
    );

    let only_org = manager_of(
        false,
        &[(CatalogSourceKind::Org, "org", "o.review", "code_review", &[], &[])],
    );
    let none = only_org.resolve(&intent);
    assert!(none.selected.is_none());
    assert_eq!(none.trace.no_match_reasons, vec!["catalog index contains no templates"]);
}

#[test]
fn equal_scores_resolve_by_template_id_then_provider_id() {
    let manager = manager_of(
        false,
        &[
            (CatalogSourceKind::User, "user-b", "t.two", "code_review", &["approve"], &[]),
            (CatalogSourceKind::User, "user-b", "t.one", "code_review", &["approve"], &[]),
            (CatalogSourceKind::User, "user-a", "t.one", "code_review", &["approve"], &[]),
        ],
    );
    let intent = UiIntent::new("code_review", words(&["approve"]), vec![]);
    let result = manager.resolve(&intent);
    let selected = result.selected.expect("a winner");
    assert_eq!(selected.template_id(), "t.one");
    assert_eq!(selected.source.provider_id, "user-a");
    let order: Vec<(&str, &str)> = result
        .trace
        .ranked_candidates
        .iter()
        .map(|c| (c.template_id.as_str(), c.provider_id.as_str()))
        .collect();
    assert_eq!(order, vec![("t.one", "user-a"), ("t.one", "user-b"), ("t.two", "user-b")]);
    assert_eq!(
        result.trace.ranked_candidates[1].excluded_reason.as_deref(),
        Some("lower score or tie-break in same tier")
    );
    assert_eq!(result.trace.ranked_candidates[0].excluded_reason, None);
    assert_eq!(result.trace.selected_score, Some(12));
}

#[test]
fn no_candidate_gives_a_reason_for_every_template() {
    let manager = manager_of(
        false,
        &[
            (CatalogSourceKind::User, "user", "u.plan", " plan_review ", &[], &[]),
            (CatalogSourceKind::Builtin, "builtin", "b.files", "file_listing", &[], &[]),
        ],
    );
    let intent = UiIntent::new(" code_review ", vec![], vec![]);
    let result = manager.resolve(&intent);
    assert!(result.selected.is_none());
    assert_eq!(result.trace.selected_template_id, None);
    assert_eq!(result.trace.selected_score, None);
    assert_eq!(
        result.trace.no_match_reasons,
        vec![
            "builtin:b.files primary mismatch expected=file_listing actual=code_review",
            "user:u.plan primary mismatch expected=plan_review actual=code_review",
        ]
    );
    assert_eq!(
        result.trace.diagnostic_lines(),
        vec![
            "catalog resolve no_match intent=primary=code_review ops=- tags=- reasons=builtin:b.files primary mismatch expected=file_listing actual=code_review | user:u.plan primary mismatch expected=plan_review actual=code_review"
        ]
    );

    let empty = CatalogManager::new(Vec::new(), true).resolve(&intent);
    assert!(empty.selected.is_none());
    assert_eq!(empty.trace.no_match_reasons, vec!["catalog index contains no templates"]);
}

#[test]
fn the_primary_is_compared_trimmed_and_case_sensitive() {
    let manager = manager_of(
        false,
        &[(CatalogSourceKind::User, "user", "u.review", "code_review", &[], &[])],
    );
    assert!(manager.resolve(&UiIntent::new("  code_review\t", vec![], vec![])).selected.is_some());
    assert!(manager.resolve(&UiIntent::new("Code_Review", vec![], vec![])).selected.is_none());
}

#[test]
fn the_score_follows_the_formula() {
    let source = CatalogSource {
        provider_id: "p".to_string(),
        kind: CatalogSourceKind::User,
        read_only: false,
    };
    let template = parse_and_validate_template(
        &sample_template_json("t", "code_review", &["approve", "reject", "revise"], &["spec", "diff"]),
        &source,
        "t",
    )
    .expect("a valid template");
    // two shared operations, one shared tag
    let intent = UiIntent::new("code_review", words(&["reject", "approve", "list"]), words(&["diff"]));
    let score = score_secondary(&intent, &template);
    assert_eq!(score.operation_overlap, 2);
    assert_eq!(score.tag_overlap, 1);
    assert_eq!(score.total, 24);
    // equal operation sets add two, equal tag sets add one
    let exact = UiIntent::new(
        "code_review",
        words(&["revise", "approve", "reject"]),
        words(&["spec", "diff"]),
    );
    let score = score_secondary(&exact, &template);
    assert_eq!(score.total, 30 + 8 + 2 + 1);
    // nothing shared
    let nothing = UiIntent::new("code_review", vec![], vec![]);
    assert_eq!(score_secondary(&nothing, &template).total, 0);
    // empty sets earn no bonus for being equal
    let bare = parse_and_validate_template(
        &sample_template_json("bare", "code_review", &[], &[]),
        &source,
        "bare",
    )
    .expect("a valid template");
    assert_eq!(score_secondary(&nothing, &bare).total, 0);
}

#[test]
fn overlap_counts_distinct_terms() {
    let a = words(&["x", "y", "x", "z"]);
    let b = words(&["z", "x", "x", "w"]);
    assert_eq!(count_overlap(&a, &b), 2);
    assert_eq!(count_overlap(&a, &Vec::new()), 0);
    assert!(has_same_terms(&words(&["a", "b", "a"]), &words(&["b", "a"])));
    assert!(!has_same_terms(&words(&["a"]), &words(&["a", "b"])));
    assert!(!has_same_terms(&Vec::new(), &Vec::new()));
}

#[test]
fn terms_are_trimmed_deduplicated_and_sorted() {
    assert_eq!(
        normalize_terms(&words(&[" spec ", "diff", "", "  ", "spec", "Diff", "a-b", "a"])),
        vec!["Diff", "a", "a-b", "diff", "spec"]
    );
    let intent = UiIntent::new(" code_review ", words(&["reject", "approve", "reject"]), vec![]);
    assert_eq!(intent.primary, " code_review ");
    assert_eq!(intent.operations, vec!["approve", "reject"]);
    assert_eq!(intent.summary(), "primary=code_review ops=approve,reject tags=-");
    let tagged = UiIntent::new("p", vec![], words(&["b", "a"]));
    assert_eq!(tagged.summary(), "primary=p ops=- tags=a,b");
}

#[test]
fn the_index_is_sorted_by_provider_then_template() {
    let manager = manager_of(
        true,
        &[
            (CatalogSourceKind::User, "zeta", "b", "p", &[], &[]),
            (CatalogSourceKind::Org, "alpha", "z", "p", &[], &[]),
            (CatalogSourceKind::User, "zeta", "a", "p", &[], &[]),
            (CatalogSourceKind::Builtin, "alpha", "c", "p", &[], &[]),
        ],
    );
    let order: Vec<(&str, &str)> = manager
        .templates()
        .iter()
        .map(|t| (t.source.provider_id.as_str(), t.template_id()))
        .collect();
    assert_eq!(order, vec![("alpha", "c"), ("alpha", "z"), ("zeta", "a"), ("zeta", "b")]);
    assert!(manager.org_enabled());
}

#[test]
fn a_failed_provider_leaves_a_diagnostic_and_takes_nothing_from_the_others() {
    let good = ProviderLoad::from_provider(&MemoryCatalogProvider::new(
        CatalogSourceKind::User,
        "user",
        vec![sample_template_json("u", "p", &[], &[]), "{broken".to_string()],
    ));
    let failed = ProviderLoad {
        source: CatalogSource {
            provider_id: "disk".to_string(),
            kind: CatalogSourceKind::User,
            read_only: false,
        },
        outcome: Err(CatalogError::Io {
            provider_id: "disk".to_string(),
            path: "/catalog".to_string(),
            message: "denied".to_string(),
        }),
    };
    let mut manager = CatalogManager::new(vec![failed, good], false);
    assert_eq!(manager.templates().len(), 1);
    let diagnostics = manager.load_diagnostics();
    assert_eq!(diagnostics.len(), 2);
    assert_eq!(diagnostics[0].provider_id, "disk");
    assert_eq!(diagnostics[0].template_ref, "provider");
    assert_eq!(diagnostics[0].reason, "provider disk io error at /catalog: denied");
    assert_eq!(diagnostics[1].template_ref, "mem:1");
    assert!(diagnostics[1].reason.starts_with("template parse failed (mem:1): "));
    assert_eq!(
        diagnostics[0].to_log_line(),
        "catalog load rejected provider=disk template_ref=provider reason=provider disk io error at /catalog: denied"
    );
    manager.reload(Vec::new());
    assert!(manager.templates().is_empty());
    assert!(manager.load_diagnostics().is_empty());
}

#[test]
fn templates_are_refused_with_the_reason() {
    let source = CatalogSource {
        provider_id: "p".to_string(),
        kind: CatalogSourceKind::User,
        read_only: false,
    };
    let load = |text: &str| parse_and_validate_template(text, &source, "ref");
    assert!(load("{nope").unwrap_err().starts_with("template parse failed (ref): "));
    assert!(load("{}").unwrap_err().starts_with("template parse failed (ref): "));
    let with = |id: &str, title: &str, version: &str, primary: &str, schema: &str| {
        format!(
            "{{\"meta\":{{\"id\":\"{id}\",\"title\":\"{title}\",\"version\":\"{version}\"}},\"match\":{{\"primary\":\"{primary}\"}},\"schema\":{schema}}}"
        )
    };
    let ok_schema = "{\"components\":[]}";
    assert_eq!(load(&with(" ", "T", "1", "p", ok_schema)).unwrap_err(), "meta.id is required");
    assert_eq!(load(&with("i", "", "1", "p", ok_schema)).unwrap_err(), "meta.title is required");
    assert_eq!(load(&with("i", "T", " ", "p", ok_schema)).unwrap_err(), "meta.version is required");
    assert_eq!(load(&with("i", "T", "1", "", ok_schema)).unwrap_err(), "match.primary is required");
    assert!(load(&with("i", "T", "1", "p", "{\"components\":5}"))
        .unwrap_err()
        .starts_with("schema deserialize error: "));
    assert_eq!(
        load(&with("i", "T", "1", "p", "{\"components\":[{\"id\":\"x\",\"kind\":\"zap\"}]}"))
            .unwrap_err(),
        "schema validation error: unknown component kind `zap` for component `x`"
    );
    let accepted = load(&with(" i ", " T ", " 1 ", " p ", ok_schema)).expect("accepted");
    assert_eq!(accepted.document.meta.id, "i");
    assert_eq!(accepted.document.meta.title, "T");
    assert_eq!(accepted.document.meta.version, "1");
    assert_eq!(accepted.document.match_rules.primary, "p");
    assert_eq!(accepted.source, source);
}

#[test]
fn builtin_templates_are_reported_by_position() {
    let provider = BuiltinCatalogProvider::new("b");
    let output = provider.load_embedded();
    let ids: Vec<&str> = output.templates.iter().map(|t| t.template_id()).collect();
    assert_eq!(ids, vec!["builtin.code_review.default", "builtin.plan_review.default"]);
    assert_eq!(provider.source().kind, CatalogSourceKind::Builtin);
    assert!(provider.source().read_only);
    assert_eq!(provider.source().provider_id, "b");
    assert!(JsonValue::parse(BUILTIN_CODE_REVIEW_TEMPLATE).is_ok());
}

#[test]
fn invalid_templates_are_excluded_with_diagnostics() {
    let invalid = r#"{
  "meta": {"id": "", "title": "Broken", "version": "1.0.0"},
  "match": {"primary": "code_review"},
  "schema": {"schema_version": 1, "outputs": [], "components": []}
}"#;
    let provider = UserCatalogProvider::new("user-invalid", "/tmp/catalog");
    let loaded = provider.load_from_files(&vec![("broken.json".to_string(), invalid.to_string())]);
    assert!(loaded.templates.is_empty());
    assert_eq!(loaded.diagnostics.len(), 1);
    assert_eq!(loaded.diagnostics[0].template_ref, "broken.json");
    assert_eq!(loaded.diagnostics[0].provider_id, "user-invalid");
    assert_eq!(loaded.diagnostics[0].reason, "meta.id is required");
}

#[test]
fn user_provider_names_files_and_loads_what_was_read() {
    let provider = UserCatalogProvider::new("user-test", "/home/u/.brownie/catalog");
    assert_eq!(provider.root_dir(), "/home/u/.brownie/catalog");
    assert_eq!(provider.source().kind, CatalogSourceKind::User);
    assert!(!provider.source().read_only);
    assert_eq!(provider.template_file_name("user.template.alpha"), "user.template.alpha.json");
    assert_eq!(provider.template_file_name("a/b c"), "a_b_c.json");
    let files = vec![
        ("a.json".to_string(), sample_template_json("user.template.alpha", "code_review", &["approve"], &["spec"])),
        ("b.json".to_string(), "[]".to_string()),
        ("c.json".to_string(), sample_template_json("user.template.gamma", "code_review", &[], &[])),
    ];
    let loaded = provider.load_from_files(&files);
    assert_eq!(loaded.templates.len(), 2);
    assert_eq!(loaded.templates[0].template_id(), "user.template.alpha");
    assert_eq!(loaded.templates[1].template_id(), "user.template.gamma");
    assert_eq!(loaded.diagnostics.len(), 1);
    assert_eq!(loaded.diagnostics[0].template_ref, "b.json");
}

#[test]
fn file_names_are_sanitized() {
    assert_eq!(sanitize_filename("user.template-1_a"), "user.template-1_a");
    assert_eq!(sanitize_filename("a b/c"), "a_b_c");
    assert_eq!(sanitize_filename("é"), "_".replace('_', "template"));
    assert_eq!(sanitize_filename(""), "template");
    assert_eq!(sanitize_filename("__"), "template");
    assert_eq!(sanitize_filename("_a_"), "_a_");
    assert_eq!(sanitize_filename("///"), "template");
}

#[test]
fn candidates_are_ranked_by_score_then_ids() {
    let candidate = |id: &str, provider: &str, score: i32| ResolutionCandidate {
        template_id: id.to_string(),
        provider_id: provider.to_string(),
        provider_kind: CatalogSourceKind::User,
        score,
        operation_overlap: 0,
        tag_overlap: 0,
        excluded_reason: None,
        selected: false,
    };
    assert_eq!(rank_candidates(&candidate("a", "p", 5), &candidate("a", "p", 4)), Ordering::Less);
    assert_eq!(rank_candidates(&candidate("z", "p", 4), &candidate("a", "p", 5)), Ordering::Greater);
    assert_eq!(rank_candidates(&candidate("a", "p", 5), &candidate("b", "p", 5)), Ordering::Less);
    assert_eq!(rank_candidates(&candidate("a", "q", 5), &candidate("a", "p", 5)), Ordering::Greater);
    assert_eq!(rank_candidates(&candidate("a", "p", 5), &candidate("a", "p", 5)), Ordering::Equal);
    assert_eq!(rank_candidates(&candidate("a", "p", -1), &candidate("ab", "p", -1)), Ordering::Less);
}

#[test]
fn precedence_depends_on_the_org_tier() {
    assert_eq!(
        precedence(true),
        vec![CatalogSourceKind::Org, CatalogSourceKind::User, CatalogSourceKind::Builtin]
    );
    assert_eq!(precedence(false), vec![CatalogSourceKind::User, CatalogSourceKind::Builtin]);
    assert_eq!(precedence_index(CatalogSourceKind::Builtin, &precedence(true)), 2);
    assert_eq!(precedence_index(CatalogSourceKind::User, &precedence(false)), 0);
    assert_eq!(precedence_index(CatalogSourceKind::Org, &precedence(false)), usize::MAX);
    assert_eq!(tier(CatalogSourceKind::Org, false), None);
    assert_eq!(tier(CatalogSourceKind::Org, true), Some(0));
    assert_eq!(tier(CatalogSourceKind::Builtin, false), Some(1));
    assert_eq!(CatalogSourceKind::Org.as_str(), "org");
    assert_eq!(CatalogSourceKind::User.as_str(), "user");
    assert_eq!(CatalogSourceKind::Builtin.as_str(), "builtin");
}

#[test]
fn a_selected_trace_has_one_diagnostic_line() {
    let manager = manager_of(
        false,
        &[(CatalogSourceKind::User, "user", "u.review", "code_review", &["approve"], &["spec"])],
    );
    let intent = UiIntent::new("code_review", words(&["approve"]), words(&["spec"]));
    let result = manager.resolve(&intent);
    assert_eq!(
        result.trace.diagnostic_lines(),
        vec![
            "catalog resolve selected template=u.review provider=user score=17 intent=primary=code_review ops=approve tags=spec"
        ]
    );
    assert_eq!(result.trace.intent, intent);
}

#[test]
fn catalog_errors_have_messages() {
    assert_eq!(
        CatalogError::ReadOnlyProvider { provider_id: "b".to_string() }.message(),
        "provider b is read-only"
    );
    assert_eq!(
        CatalogError::Serialize("bad".to_string()).message(),
        "template serialization error: bad"
    );
}

#[test]
fn duplicate_templates_resolve_to_the_first_in_the_index() {
    let source = CatalogSource {
        provider_id: "user".to_string(),
        kind: CatalogSourceKind::User,
        read_only: false,
    };
    let first = parse_and_validate_template(
        &sample_template_json("same", "code_review", &[], &[]).replace("Template same", "First"),
        &source,
        "a",
    )
    .unwrap();
    let second: CatalogTemplate = parse_and_validate_template(
        &sample_template_json("same", "code_review", &[], &[]).replace("Template same", "Second"),
        &source,
        "b",
    )
    .unwrap();
    let load = ProviderLoad {
        source: source.clone(),
        outcome: Ok(CatalogLoadOutput { templates: vec![first, second], diagnostics: vec![] }),
    };
    let manager = CatalogManager::new(vec![load], false);
    let result = manager.resolve(&UiIntent::new("code_review", vec![], vec![]));
    assert_eq!(result.selected.expect("a winner").document.meta.title, "First");
    let flags: Vec<bool> = result.trace.ranked_candidates.iter().map(|c| c.selected).collect();
    assert_eq!(flags, vec![true, false]);
}

#[test]
fn only_names_that_end_in_json_name_a_template() {
    assert!(is_template_file("a.json"));
    assert!(is_template_file("a.b.json"));
    assert!(is_template_file("..json"));
    assert!(!is_template_file(".json"));
    assert!(!is_template_file("json"));
    assert!(!is_template_file("a.JSON"));
    assert!(!is_template_file("a.json.tmp"));
    assert!(!is_template_file(""));
}

#[test]
fn template_files_are_loaded_by_name_ascending() {
    let provider = UserCatalogProvider::new("user-local", "/nowhere");
    let names = words(&["zeta.json", "notes.txt", "Beta.json", "alpha.json", ".json", "alpha.json.tmp"]);
    assert_eq!(
        provider.files_to_load(names),
        words(&["Beta.json", "alpha.json", "zeta.json"])
    );
    assert_eq!(provider.files_to_load(Vec::new()), Vec::<String>::new());
}

#[test]
fn the_default_builtin_provider_has_its_own_id() {
    let provider = BuiltinCatalogProvider::default();
    let source = provider.source();
    assert_eq!(source.provider_id, "builtin-default");
    assert_eq!(source.kind, CatalogSourceKind::Builtin);
    assert!(source.read_only);
    assert_eq!(provider.load_embedded().templates.len(), 2);
}

fn to_serde(value: &JsonValue) -> serde_json::Value {
    match value {
        JsonValue::Null => serde_json::Value::Null,
        JsonValue::Bool(b) => serde_json::Value::Bool(*b),
        JsonValue::Number(n) => match n.kind {
            JsonNumberKind::PosInt(v) => serde_json::Value::Number(v.into()),
            JsonNumberKind::NegInt(v) => serde_json::Value::Number(v.into()),
            JsonNumberKind::Float => serde_json::Number::from_f64(f64::from_bits(n.float_bits))
                .map(serde_json::Value::Number)
                .unwrap_or(serde_json::Value::Null),
        },
        JsonValue::Text(s) => serde_json::Value::String(s.clone()),
        JsonValue::Array(items) => serde_json::Value::Array(items.iter().map(to_serde).collect()),
        JsonValue::Object(members) => serde_json::Value::Object(
            members.iter().map(|(k, v)| (k.clone(), to_serde(v))).collect(),
        ),
    }
}

/// A user provider whose directory is a map from file names to texts.
struct DirectoryCatalogProvider {
    inner: UserCatalogProvider,
    files: RefCell<BTreeMap<String, String>>,
}

impl CatalogProvider for DirectoryCatalogProvider {
    fn source(&self) -> CatalogSource {
        self.inner.source()
    }

    fn load_templates(&self) -> Result<CatalogLoadOutput, CatalogError> {
        let files = self.files.borrow();
        let names = files.keys().rev().cloned().collect();
        let chosen = self
            .inner
            .files_to_load(names)
            .into_iter()
            .map(|name| {
                let text = files[&name].clone();
                (name, text)
            })
            .collect();
        Ok(self.inner.load_from_files(&chosen))
    }

    fn upsert_template(&self, template: &TemplateDocument) -> Result<(), CatalogError> {
        let text = to_serde(&template.to_json()).to_string();
        self.files
            .borrow_mut()
            .insert(self.inner.template_file_name(&template.meta.id), text);
        Ok(())
    }

    fn delete_template(&self, template_id: &str) -> Result<(), CatalogError> {
        self.files
            .borrow_mut()
            .remove(&self.inner.template_file_name(template_id));
        Ok(())
    }
}

#[test]
fn user_provider_persists_and_reloads_templates() {
    let provider = DirectoryCatalogProvider {
        inner: UserCatalogProvider::new("user-test", "/tmp/catalog_user_persist"),
        files: RefCell::new(BTreeMap::new()),
    };

    let parsed = JsonValue::parse(&sample_template_json(
        "user.template.alpha",
        "code_review",
        &["approve"],
        &["spec"],
    ))
    .expect("template should be JSON");
    let template = TemplateDocument::from_json(&parsed).expect("template should deserialize");

    provider
        .upsert_template(&template)
        .expect("upsert should persist template");
    assert_eq!(
        provider.files.borrow().keys().cloned().collect::<Vec<_>>(),
        vec!["user.template.alpha.json".to_string()]
    );
    provider
        .files
        .borrow_mut()
        .insert("notes.txt".to_string(), "not a template".to_string());

    let loaded = provider.load_templates().expect("load should succeed");
    assert_eq!(loaded.templates.len(), 1);
    assert!(loaded.diagnostics.is_empty());
    assert_eq!(loaded.templates[0].template_id(), "user.template.alpha");
    assert_eq!(loaded.templates[0].document, template);
    assert_eq!(loaded.templates[0].source.kind, CatalogSourceKind::User);

    provider
        .delete_template("user.template.alpha")
        .expect("delete should succeed");
    let loaded_after_delete = provider
        .load_templates()
        .expect("reload should succeed after delete");
    assert!(loaded_after_delete.templates.is_empty());
}

#[test]
fn a_refused_write_names_the_provider_and_changes_nothing() {
    let provider = BuiltinCatalogProvider::default();
    let before = provider.load_templates().expect("the built-in load succeeds");
    let template = before.templates[1].document.clone();

    assert_eq!(
        provider.upsert_template(&template),
        Err(CatalogError::ReadOnlyProvider { provider_id: "builtin-default".to_string() })
    );
    assert_eq!(
        provider.delete_template("builtin.plan_review.default"),
        Err(CatalogError::ReadOnlyProvider { provider_id: "builtin-default".to_string() })
    );
    assert_eq!(
        BuiltinCatalogProvider::new("other").delete_template("x"),
        Err(CatalogError::ReadOnlyProvider { provider_id: "other".to_string() })
    );

    let after = provider.load_templates().expect("the built-in load succeeds");
    assert_eq!(after.templates, before.templates);
    assert_eq!(after.diagnostics, before.diagnostics);
}

#[test]
fn a_load_holds_what_the_provider_gave() {
    let provider = BuiltinCatalogProvider::default();
    let load = ProviderLoad::from_provider(&provider);
    assert_eq!(load.source, provider.source());
    let given = load.outcome.expect("the built-in load succeeds");
    let own = provider.load_templates().expect("the built-in load succeeds");
    assert_eq!(given.templates, own.templates);
    assert_eq!(given.templates.len(), 2);
    assert!(given.diagnostics.is_empty());
}
