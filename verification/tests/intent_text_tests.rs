use brownie::intent_text::intent_from_text;

#[test]
fn detects_workspace_file_request_with_articles() {
    let intent = intent_from_text("Show the files in the workspace")
        .expect("intent should be detected for workspace file listing");
    assert_eq!(intent.primary, "file_listing");
    assert!(intent.operations.contains(&"list".to_string()));
    assert!(intent.tags.contains(&"files".to_string()));
    assert!(intent.tags.contains(&"workspace".to_string()));
}

#[test]
fn detects_workspace_file_request_without_show_phrase() {
    let intent = intent_from_text("workspace files please")
        .expect("intent should be detected for workspace file listing");
    assert_eq!(intent.primary, "file_listing");
}

#[test]
fn detects_code_review_intent() {
    let intent = intent_from_text("review this patch for security risks")
        .expect("intent should be detected for code review");
    assert_eq!(intent.primary, "code_review");
    assert!(intent.tags.contains(&"diff".to_string()));
    assert!(intent.tags.contains(&"security".to_string()));
}

#[test]
fn returns_none_for_non_ui_prompt() {
    assert!(intent_from_text("hello there").is_none());
}

#[test]
fn file_listing_terms_come_out_sorted_and_once() {
    let intent = intent_from_text("Browse and VIEW the files, show the directory tree of the workspace")
        .expect("a listing request");
    assert_eq!(intent.primary, "file_listing");
    assert_eq!(intent.operations, vec!["browse", "list", "view"]);
    assert_eq!(intent.tags, vec!["files", "tree", "workspace"]);
}

#[test]
fn plan_review_has_no_default_operation() {
    let intent = intent_from_text("what is on the roadmap?").expect("a plan request");
    assert_eq!(intent.primary, "plan_review");
    assert!(intent.operations.is_empty());
    assert_eq!(intent.tags, vec!["plan"]);
}

#[test]
fn code_review_defaults_to_review_operation() {
    let intent = intent_from_text("check the spec").expect("a review request");
    assert_eq!(intent.primary, "code_review");
    assert_eq!(intent.operations, vec!["review"]);
    assert_eq!(intent.tags, vec!["spec"]);
}

#[test]
fn decline_counts_as_reject_and_words_are_whole() {
    let intent = intent_from_text("Decline it, or approve-it").expect("a review request");
    assert_eq!(intent.primary, "code_review");
    assert_eq!(intent.operations, vec!["approve", "reject"]);
    // "specification" holds "spec" but is another word
    assert!(intent_from_text("a specification").is_none());
}

#[test]
fn ui_design_needs_both_words() {
    assert!(intent_from_text("the ui is nice").is_none());
    let intent = intent_from_text("UI design feedback").expect("a design request");
    assert_eq!(intent.primary, "ui_design_review");
    assert!(intent.operations.is_empty());
    assert!(intent.tags.is_empty());
}

#[test]
fn what_files_prefix_asks_to_see() {
    let intent = intent_from_text("What files does the workspace hold").expect("a listing");
    assert_eq!(intent.primary, "file_listing");
    assert_eq!(intent.operations, vec!["list"]);
}
