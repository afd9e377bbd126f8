use cargo_fork::{manifest_insert_patch, parse_manifest, ForkError};
use toml_edit::Document;

fn patch(text: &str, name: &str, dir: &str) -> Result<String, ForkError> {
    let mut doc: Document = text.parse().unwrap();
    manifest_insert_patch(doc.as_table_mut(), name, dir)?;
    Ok(doc.to_string())
}

#[test]
fn existing_override_is_replaced_in_place() {
    let before = "[package]\nname = \"ws\"\n\n[patch.crates-io]\nfoo = { path = \"/old\", package = \"foo\" }\n";
    let after = patch(before, "foo", "/new").unwrap();
    assert_eq!(
        after,
        "[package]\nname = \"ws\"\n\n[patch.crates-io]\nfoo = { path = \"/new\", package = \"foo\" }\n"
    );
}

#[test]
fn patching_keeps_the_rest_of_the_document() {
    let before = "# workspace manifest\n[workspace]\nmembers = [ \"a\",  \"b\" ] # odd spacing\n\n[patch.crates-io]\n# keep me\nbar = { path = \"../bar\" }\n\n[profile.release]\nlto = true\n";
    let after = patch(before, "foo", "/src/foo").unwrap();
    assert_eq!(
        after,
        "# workspace manifest\n[workspace]\nmembers = [ \"a\",  \"b\" ] # odd spacing\n\n[patch.crates-io]\n# keep me\nbar = { path = \"../bar\" }\nfoo = { path = \"/src/foo\", package = \"foo\" }\n\n[profile.release]\nlto = true\n"
    );
    let reparsed: Document = after.parse().unwrap();
    assert_eq!(reparsed["patch"]["crates-io"]["foo"]["path"].as_str(), Some("/src/foo"));
    assert_eq!(reparsed["profile"]["release"]["lto"].as_bool(), Some(true));
}

#[test]
fn patching_a_manifest_without_overrides_adds_the_table() {
    let before = "[package]\nname = \"ws\"\nversion = \"0.1.0\"\n";
    let after = patch(before, "foo", "/src/foo").unwrap();
    assert!(after.starts_with(before));
    let reparsed: Document = after.parse().unwrap();
    assert_eq!(reparsed["patch"]["crates-io"]["foo"]["path"].as_str(), Some("/src/foo"));
    assert_eq!(reparsed["patch"]["crates-io"]["foo"]["package"].as_str(), Some("foo"));
    assert_eq!(reparsed["package"]["version"].as_str(), Some("0.1.0"));
    assert!(!after.contains("[patch]\n"));
}

#[test]
fn patching_twice_keeps_one_entry_with_second_path() {
    let before = "[package]\nname = \"ws\"\n";
    let once = patch(before, "foo", "/first").unwrap();
    let twice = patch(&once, "foo", "/second").unwrap();
    assert_eq!(twice.matches("foo =").count(), 1);
    let reparsed: Document = twice.parse().unwrap();
    let registry = reparsed["patch"]["crates-io"].as_table().unwrap();
    assert_eq!(registry.len(), 1);
    assert_eq!(registry["foo"]["path"].as_str(), Some("/second"));
    assert_eq!(twice, once.replace("/first", "/second"));
}

#[test]
fn override_path_holding_a_value_is_refused() {
    assert_eq!(patch("patch = 3\n", "foo", "/x"), Err(ForkError::ManifestParseError));
    assert_eq!(
        patch("[patch]\ncrates-io = \"nope\"\n", "foo", "/x"),
        Err(ForkError::ManifestParseError)
    );
}

#[test]
fn refused_patch_leaves_document_unchanged() {
    let text = "[patch]\ncrates-io = \"nope\"\n";
    let mut doc: Document = text.parse().unwrap();
    assert!(manifest_insert_patch(doc.as_table_mut(), "foo", "/x").is_err());
    assert_eq!(doc.to_string(), text);
}

#[test]
fn written_patch_header_and_its_comment_are_kept() {
    let before = "# overrides\n[patch]\n[patch.crates-io]\nbar = { path = \"../bar\" }\n";
    let after = patch(before, "foo", "/src/foo").unwrap();
    assert_eq!(
        after,
        "# overrides\n[patch]\n[patch.crates-io]\nbar = { path = \"../bar\" }\nfoo = { path = \"/src/foo\", package = \"foo\" }\n"
    );
}

#[test]
fn manifest_text_is_parsed_or_refused() {
    let doc = parse_manifest("[package]\nname = \"ws\"\n").unwrap();
    assert_eq!(doc["package"]["name"].as_str(), Some("ws"));
    assert!(matches!(parse_manifest("[package\nname = "), Err(ForkError::ManifestParseError)));
    assert!(matches!(parse_manifest("a = 1\na = 2\n"), Err(ForkError::ManifestParseError)));
}
