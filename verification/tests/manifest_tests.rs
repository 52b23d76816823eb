use heaven::manifest::{
    add_wasm_link, manifest_text, parse_manifest, set_wasm_link, wasm_exports, ManifestError,
};

const LINK_ONLY: &str = "{\n  \"link\": {\n    \"wasm\": {\n      \"exports\": [\n        \"h_rs\",\n        \"h_rd\",\n        \"h_re\"\n      ]\n    }\n  }\n}";

#[test]
fn exports() {
    assert_eq!(wasm_exports(), vec!["h_rs", "h_rd", "h_re"]);
}

#[test]
fn empty_object_gets_link() {
    assert_eq!(add_wasm_link("{}").unwrap(), LINK_ONLY);
    assert_eq!(add_wasm_link("  { }\n").unwrap(), LINK_ONLY);
}

#[test]
fn null_is_taken_as_empty_object() {
    assert_eq!(add_wasm_link("null").unwrap(), LINK_ONLY);
}

#[test]
fn existing_members_are_kept_and_link_replaced() {
    let out = add_wasm_link("{\"import\": [\"a/b\"], \"link\": {\"js\": true}}").unwrap();
    let expected = "{\n  \"import\": [\n    \"a/b\"\n  ],\n  \"link\": {\n    \"wasm\": {\n      \"exports\": [\n        \"h_rs\",\n        \"h_rd\",\n        \"h_re\"\n      ]\n    }\n  }\n}";
    assert_eq!(out, expected);
}

#[test]
fn invalid_manifests() {
    for text in ["", "{", "[1, 2]", "\"text\"", "{} {}", "42", "true"] {
        assert!(
            matches!(add_wasm_link(text), Err(ManifestError::InvalidJson(_))),
            "{text:?}"
        );
    }
}

#[test]
fn parsing_keeps_member_names() {
    let object = parse_manifest("{\"b\": 1, \"a\": {\"c\": null}}").unwrap();
    let keys: Vec<&String> = object.keys().collect();
    assert_eq!(keys, vec!["a", "b"]);
    assert_eq!(object["a"].to_string(), "{\"c\":null}");
    assert_eq!(object["b"].to_string(), "1");
    assert!(parse_manifest("null").unwrap().is_empty());
    assert!(matches!(parse_manifest("[]"), Err(ManifestError::InvalidJson(_))));
}

#[test]
fn setting_link_adds_one_member() {
    let mut object = parse_manifest("{\"import\": []}").unwrap();
    set_wasm_link(&mut object);
    let keys: Vec<&String> = object.keys().collect();
    assert_eq!(keys, vec!["import", "link"]);
    assert_eq!(
        object["link"].to_string(),
        "{\"wasm\":{\"exports\":[\"h_rs\",\"h_rd\",\"h_re\"]}}"
    );
    assert_eq!(object["import"].to_string(), "[]");
}

#[test]
fn manifest_text_is_pretty() {
    let object = parse_manifest("{\"x\":[1,2]}").unwrap();
    assert_eq!(manifest_text(&object), "{\n  \"x\": [\n    1,\n    2\n  ]\n}");
}
