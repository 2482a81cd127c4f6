use ariane::info_gathering::compiler::{
    find_first_tag, find_last_tag, read_tag_at, toolchain_tag, RustcInformation, COMMIT_HASH_LEN,
};

const COMMIT: &str = "9c20b2a8cc7588decb6de25ac6a7912dcef24d65";
const OTHER_COMMIT: &str = "0123456789abcdef0123456789abcdef01234567";
const LINK: &[u8] = b"href=\"/rust-lang/rust/releases/tag/";
const PATH: &[u8] = b"/rust-lang/rust/releases/tag/";

fn buffer(parts: &[&[u8]]) -> Vec<u8> {
    parts.concat()
}

#[test]
fn fingerprint_is_found_in_a_target() {
    let target = buffer(&[b"\x00\x01/", b"rustc/", COMMIT.as_bytes(), b"/library/core/src/fmt/mod.rs"]);
    let information = RustcInformation::from_buffer(&target).unwrap();
    assert_eq!(information.get_commit_hash().commit_hash_to_string(), COMMIT);
    assert_eq!(COMMIT.len(), COMMIT_HASH_LEN);
}

#[test]
fn first_fingerprint_is_taken() {
    let target = buffer(&[
        b"rustc/",
        COMMIT.as_bytes(),
        b"\\library rustc/",
        OTHER_COMMIT.as_bytes(),
    ]);
    let information = RustcInformation::from_buffer(&target).unwrap();
    assert_eq!(information.get_commit_hash().commit_hash_to_string(), COMMIT);
}

#[test]
fn target_without_a_fingerprint_has_no_compiler_information() {
    assert_eq!(RustcInformation::from_buffer(&Vec::new()), None);
    assert_eq!(RustcInformation::from_buffer(&b"no compiler here".to_vec()), None);
    // Thirty-nine digits only.
    let short = buffer(&[b"rustc/", &COMMIT.as_bytes()[..39]]);
    assert_eq!(RustcInformation::from_buffer(&short), None);
    // An upper-case digit among the forty.
    let upper = buffer(&[b"rustc/", &COMMIT.to_uppercase().as_bytes()]);
    assert_eq!(RustcInformation::from_buffer(&upper), None);
    // A version in place of a commit.
    assert_eq!(RustcInformation::from_buffer(&b"rustc/1.72.0/library".to_vec()), None);
}

#[test]
fn fingerprint_after_a_false_start_is_found() {
    let target = buffer(&[b"rustc/1.72.0 rustc/rustc/", COMMIT.as_bytes()]);
    let information = RustcInformation::from_buffer(&target).unwrap();
    assert_eq!(information.get_commit_hash().commit_hash_to_string(), COMMIT);
}

#[test]
fn fingerprint_of_more_than_forty_digits_gives_the_first_forty() {
    let target = buffer(&[b"rustc/", COMMIT.as_bytes(), b"abc"]);
    let information = RustcInformation::from_buffer(&target).unwrap();
    assert_eq!(information.get_commit_hash().commit_hash_to_string(), COMMIT);
}

#[test]
fn branch_commits_address_ends_in_the_commit() {
    let target = buffer(&[b"rustc/", COMMIT.as_bytes()]);
    let information = RustcInformation::from_buffer(&target).unwrap();
    assert_eq!(
        information.get_commit_hash().branch_commits_url(),
        "https://github.com/rust-lang/rust/branch_commits/9c20b2a8cc7588decb6de25ac6a7912dcef24d65"
    );
}

#[test]
fn tag_is_the_run_of_digits_and_dots_after_the_prefix() {
    let page = b"<a href=\"/rust-lang/rust/releases/tag/1.72.0\">1.72.0</a>";
    assert_eq!(read_tag_at(page, LINK, 3).as_deref(), Some("1.72.0"));
    assert_eq!(read_tag_at(page, LINK, 2), None);
    assert_eq!(read_tag_at(page, PATH, 9).as_deref(), Some("1.72.0"));
    assert_eq!(read_tag_at(b"/rust-lang/rust/releases/tag/", PATH, 0), None);
    assert_eq!(read_tag_at(b"/rust-lang/rust/releases/tag/beta", PATH, 0), None);
    assert_eq!(read_tag_at(b"/rust-lang/rust/releases/tag/1.2", PATH, 0).as_deref(), Some("1.2"));
    assert_eq!(read_tag_at(b"", PATH, 5), None);
}

#[test]
fn first_and_last_tags_of_a_page_are_found() {
    let page = buffer(&[
        b"<li><a href=\"/rust-lang/rust/releases/tag/1.74.0\">",
        b"<li><a href=\"/rust-lang/rust/releases/tag/release-1\">",
        b"<li><a href=\"/rust-lang/rust/releases/tag/1.73.0\">",
        b"<li><a href=\"/rust-lang/rust/releases/tag/1.72.1\">",
    ]);
    assert_eq!(find_first_tag(&page, LINK).as_deref(), Some("1.74.0"));
    assert_eq!(find_last_tag(&page, LINK).as_deref(), Some("1.72.1"));
    assert_eq!(find_first_tag(b"no tags", LINK), None);
    assert_eq!(find_last_tag(b"no tags", LINK), None);
    assert_eq!(find_last_tag(b"", LINK), None);
}

#[test]
fn commit_resolves_to_the_last_tag_it_belongs_to() {
    let target = buffer(&[b"rustc/", COMMIT.as_bytes()]);
    let information = RustcInformation::from_buffer(&target).unwrap();
    let commit = information.get_commit_hash();
    let branches = buffer(&[
        b"<a href=\"/rust-lang/rust/releases/tag/1.73.0\">",
        b"<a href=\"/rust-lang/rust/releases/tag/1.72.0\">",
    ]);
    let tags = buffer(&[
        b"<a href=\"/rust-lang/rust/releases/tag/1.75.0\">",
        b"<a href=\"/rust-lang/rust/releases/tag/1.74.0\">",
    ]);
    assert_eq!(commit.search_rustc_version(&branches, &tags, "1.60.0").as_deref(), Some("1.72.0"));
    assert!(!commit.needs_tags_page(&branches));
    assert!(commit.needs_tags_page(b"<html></html>"));
    assert_eq!(
        commit.search_rustc_version(b"<html></html>", &tags, "1.60.0").as_deref(),
        Some("1.75.0")
    );
    // The page of all tags is read for paths, not for links only.
    assert_eq!(
        commit.search_rustc_version(b"", b"/rust-lang/rust/releases/tag/1.70.0", "1.60.0").as_deref(),
        Some("1.70.0")
    );
}

#[test]
fn commit_that_resolves_to_no_release_falls_back_on_the_default() {
    let target = buffer(&[b"rustc/", COMMIT.as_bytes()]);
    let information = RustcInformation::from_buffer(&target).unwrap();
    let commit = information.get_commit_hash();
    assert_eq!(commit.search_rustc_version(b"", b"", "1.60.0").as_deref(), Some("1.60.0"));
    assert_eq!(
        commit.search_rustc_version(b"<html>no links</html>", b"no tags", "1.72.0").as_deref(),
        Some("1.72.0")
    );
}

#[test]
fn unresolved_commit_falls_back_on_the_given_tag() {
    assert_eq!(toolchain_tag(Some("1.72.0".to_string()), "1.70.0"), "1.72.0");
    assert_eq!(toolchain_tag(None, "1.70.0"), "1.70.0");
}
