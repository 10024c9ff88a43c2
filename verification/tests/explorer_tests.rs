use brownie::explorer::{
    format_failed_listing, format_listing, materialize_template_schema, needs_file_listing,
    replace_member, ListingEntry,
};
use brownie::json::JsonValue;

fn entry(name: &str, is_dir: bool) -> ListingEntry {
    ListingEntry { name: name.to_string(), is_dir }
}

#[test]
fn listings_are_sorted_and_mark_the_last_entry() {
    let listing = format_listing(
        "workspace",
        vec![entry("src", true), entry("Cargo.toml", false), entry("README.md", false)],
    );
    assert_eq!(listing, "workspace/\n├── Cargo.toml\n├── README.md\n└── src/");
    assert_eq!(format_listing("empty", Vec::new()), "empty/");
    assert_eq!(format_listing("one", vec![entry("only", true)]), "one/\n└── only/");
    assert_eq!(
        format_failed_listing("gone", "No such file or directory"),
        "gone/\n└── <failed to read root: No such file or directory>"
    );
}

const FILE_LISTING_SCHEMA: &str = r#"{
  "schema_version": 1,
  "outputs": [],
  "components": [
    {"id": "explorer_intro", "kind": "markdown", "text": "placeholder"},
    {"id": "legend", "kind": "markdown", "text": "dropped"},
    {"id": "workspace_tree", "kind": "code", "language": "text", "code": "__WORKSPACE_TREE__"},
    {"kind": "markdown", "text": "no id"}
  ]
}"#;

#[test]
fn the_file_listing_schema_takes_the_listing_in() {
    let schema = JsonValue::parse(FILE_LISTING_SCHEMA).unwrap();
    let rendered =
        materialize_template_schema("builtin.file_listing.default", &schema, "root/\n└── a", "/tmp/root");
    let expected = JsonValue::parse(
        "{\"schema_version\": 1, \"outputs\": [], \"components\": [{\"id\": \"explorer_intro\", \"kind\": \"markdown\", \"text\": \"### File Explorer\\nRoot: `/tmp/root`\\nPersistent session block. Use focus/minimize/close controls.\"}, {\"id\": \"workspace_tree\", \"kind\": \"code\", \"language\": \"text\", \"code\": \"root/\\n\u{2514}\u{2500}\u{2500} a\"}]}",
    )
    .unwrap();
    assert_eq!(rendered, expected);
}

#[test]
fn other_schemas_are_rendered_as_they_are() {
    let schema = JsonValue::parse(FILE_LISTING_SCHEMA).unwrap();
    assert_eq!(materialize_template_schema("builtin.code_review.default", &schema, "l", "r"), schema);
    assert!(needs_file_listing("builtin.file_listing.default"));
    assert!(!needs_file_listing("builtin.file_listing"));
    let odd = JsonValue::parse(r#"{"components": "none"}"#).unwrap();
    assert_eq!(materialize_template_schema("builtin.file_listing.default", &odd, "l", "r"), odd);
    let bare = JsonValue::parse(
        r#"{"components": [{"id": "workspace_tree"}, {"id": "explorer_intro", "code": 1}]}"#,
    )
    .unwrap();
    // parts that lack the member keep their shape
    assert_eq!(materialize_template_schema("builtin.file_listing.default", &bare, "l", "r"), bare);
}

#[test]
fn members_are_replaced_only_where_they_are() {
    let object = JsonValue::parse(r#"{"a": 1, "b": 2}"#).unwrap();
    assert_eq!(
        replace_member(&object, "b", JsonValue::Null),
        JsonValue::parse(r#"{"a": 1, "b": null}"#).unwrap()
    );
    assert_eq!(replace_member(&object, "c", JsonValue::Null), object);
    let array = JsonValue::parse("[1]").unwrap();
    assert_eq!(replace_member(&array, "a", JsonValue::Null), array);
}
