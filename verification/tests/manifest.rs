use ariane::compilation::compile::CompileType;
use ariane::utils::toml_utils::{add_array, patch_manifest, set_crate_type};
use toml_edit::Document;

fn crate_types(manifest: &str) -> Vec<String> {
    let document: Document = manifest.parse().unwrap();
    document["lib"]["crate-type"]
        .as_array()
        .unwrap()
        .iter()
        .map(|value| value.as_str().unwrap().to_string())
        .collect()
}

#[test]
fn manifest_without_a_library_table_gets_one() {
    let manifest = "[package]\nname = \"memchr\"\nversion = \"2.6.3\"\n";
    let patched = patch_manifest(manifest, CompileType::StaticLib).unwrap();
    assert_ne!(patched, manifest);
    assert_eq!(crate_types(&patched), vec!["rlib".to_string()]);
    let document: Document = patched.parse().unwrap();
    assert_eq!(document["package"]["name"].as_str(), Some("memchr"));
}

#[test]
fn declared_crate_type_is_replaced() {
    let manifest = "[package]\nname = \"x\"\n\n[lib]\nname = \"x\"\ncrate-type = [\"cdylib\", \"staticlib\"]\n";
    let patched = patch_manifest(manifest, CompileType::Dylib).unwrap();
    assert_eq!(crate_types(&patched), vec!["dylib".to_string()]);
    let document: Document = patched.parse().unwrap();
    assert_eq!(document["lib"]["name"].as_str(), Some("x"));
}

#[test]
fn inline_library_table_is_patched() {
    let patched = patch_manifest("lib = { name = \"x\" }\n", CompileType::StaticLib).unwrap();
    assert_eq!(crate_types(&patched), vec!["rlib".to_string()]);
}

#[test]
fn manifest_that_cannot_be_patched_gives_nothing() {
    assert_eq!(patch_manifest("this is [not a manifest", CompileType::StaticLib), None);
    assert_eq!(patch_manifest("lib = 3\n", CompileType::StaticLib), None);
}

#[test]
fn array_is_set_under_the_table() {
    let mut document: Document = "[features]\ndefault = [\"std\"]\n".parse().unwrap();
    let values = vec!["a".to_string(), "b".to_string()];
    assert!(add_array(&mut document, "features", "default", &values));
    assert!(add_array(&mut document, "profile", "flags", &values));
    let listed = |document: &Document, node: &str, key: &str| -> Vec<String> {
        document[node][key]
            .as_array()
            .unwrap()
            .iter()
            .map(|value| value.as_str().unwrap().to_string())
            .collect()
    };
    assert_eq!(listed(&document, "features", "default"), values);
    assert_eq!(listed(&document, "profile", "flags"), values);
    let mut scalar: Document = "features = true\n".parse().unwrap();
    assert!(!add_array(&mut scalar, "features", "default", &values));
    assert_eq!(scalar.to_string(), "features = true\n");
    assert!(set_crate_type(&mut scalar, &CompileType::Dylib));
    assert_eq!(listed(&scalar, "lib", "crate-type"), vec!["dylib".to_string()]);
}
