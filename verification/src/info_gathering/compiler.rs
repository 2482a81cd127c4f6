//! The compiler fingerprint a target embeds, and the release it resolves to.

use vstd::prelude::*;
use vstd::string::StringExecFns;
use vstd::slice::slice_subrange;
use vstd::utf8::encode_utf8;

use crate::utils::text::{
    ascii_chars, ascii_string, is_ascii_bytes, is_digit, occurs_at, occurs_at_position,
};

verus! {

/// The number of hexadecimal digits of a commit identifier.
pub const COMMIT_HASH_LEN: usize = 40;

/// What precedes the commit identifier in a target.
pub open spec fn commit_prefix() -> Seq<u8> {
    encode_utf8("rustc/"@)
}

/// What precedes a release tag in the page that lists the branches and tags
/// a commit belongs to.
pub open spec fn release_link_prefix() -> Seq<u8> {
    encode_utf8("href=\"/rust-lang/rust/releases/tag/"@)
}

/// What precedes a release tag in the page that lists the tags.
pub open spec fn release_path_prefix() -> Seq<u8> {
    encode_utf8("/rust-lang/rust/releases/tag/"@)
}

/// Holds of the lower-case hexadecimal digits.
pub open spec fn is_hex_digit(byte: u8) -> bool {
    is_digit(byte) || 0x61 <= byte <= 0x66
}

/// Holds when a compiler fingerprint starts at `position`: the prefix
/// `rustc/` followed by forty hexadecimal digits.
pub open spec fn fingerprint_at(buffer: Seq<u8>, position: int) -> bool {
    let start = position + commit_prefix().len();
    &&& occurs_at(buffer, commit_prefix(), position)
    &&& start + COMMIT_HASH_LEN <= buffer.len()
    &&& forall|k: int| 0 <= k < COMMIT_HASH_LEN ==> is_hex_digit(#[trigger] buffer[start + k])
}

/// The digits of the fingerprint that starts at `position`.
pub open spec fn fingerprint_digits(buffer: Seq<u8>, position: int) -> Seq<u8> {
    let start = position + commit_prefix().len();
    buffer.subrange(start, start + COMMIT_HASH_LEN)
}

/// Holds when the first compiler fingerprint of `buffer` starts at
/// `position`.
pub open spec fn is_first_fingerprint(buffer: Seq<u8>, position: int) -> bool {
    &&& fingerprint_at(buffer, position)
    &&& forall|earlier: int| 0 <= earlier < position ==> !fingerprint_at(buffer, earlier)
}

/// The identifier of the compiler build that produced a target.
#[derive(Clone, Debug, PartialEq, Eq)]
pub struct CommitHash {
    hash: String,
    tag: Option<String>,
}

/// Holds of the bytes a release tag is made of: digits and dots.
pub open spec fn is_tag_byte(byte: u8) -> bool {
    is_digit(byte) || byte == 0x2E
}

/// The number of tag bytes `buffer` holds in a row from `from` on.
pub open spec fn tag_len_from(buffer: Seq<u8>, from: int) -> int
    decreases buffer.len() - from,
{
    if from < 0 || from >= buffer.len() || !is_tag_byte(buffer[from]) {
        0
    } else {
        1 + tag_len_from(buffer, from + 1)
    }
}

/// A run of tag bytes is not negative in length, lies in the buffer and
/// holds tag bytes only.
pub proof fn lemma_tag_len_from(buffer: Seq<u8>, from: int)
    requires
        0 <= from,
    ensures
        0 <= tag_len_from(buffer, from),
        from < buffer.len() ==> from + tag_len_from(buffer, from) <= buffer.len(),
        from >= buffer.len() ==> tag_len_from(buffer, from) == 0,
        forall|k: int|
            from <= k < from + tag_len_from(buffer, from) ==> is_tag_byte(#[trigger] buffer[k]),
    decreases buffer.len() - from,
{
    if from < buffer.len() && is_tag_byte(buffer[from]) {
        lemma_tag_len_from(buffer, from + 1);
    }
}

/// Holds when `prefix` occurs at `position` and a release tag follows it.
pub open spec fn tag_at(buffer: Seq<u8>, prefix: Seq<u8>, position: int) -> bool {
    occurs_at(buffer, prefix, position) && tag_len_from(buffer, position + prefix.len()) >= 1
}

/// The release tag that follows the prefix at `position`: the longest run
/// of digits and dots.
pub open spec fn tag_text(buffer: Seq<u8>, prefix: Seq<u8>, position: int) -> Seq<char> {
    let start = position + prefix.len();
    ascii_chars(buffer.subrange(start, start + tag_len_from(buffer, start)))
}

/// The first release tag that follows `prefix` at or after `from`.
pub open spec fn first_tag_from(buffer: Seq<u8>, prefix: Seq<u8>, from: int) -> Option<Seq<char>>
    decreases buffer.len() - from,
{
    if from < 0 || from >= buffer.len() {
        None
    } else if tag_at(buffer, prefix, from) {
        Some(tag_text(buffer, prefix, from))
    } else {
        first_tag_from(buffer, prefix, from + 1)
    }
}

/// The first release tag of a page.
pub open spec fn first_tag(buffer: Seq<u8>, prefix: Seq<u8>) -> Option<Seq<char>> {
    first_tag_from(buffer, prefix, 0)
}

/// The last release tag that follows `prefix` before position `end`.
pub open spec fn last_tag_before(buffer: Seq<u8>, prefix: Seq<u8>, end: int) -> Option<Seq<char>>
    decreases end,
{
    if end <= 0 {
        None
    } else if tag_at(buffer, prefix, end - 1) {
        Some(tag_text(buffer, prefix, end - 1))
    } else {
        last_tag_before(buffer, prefix, end - 1)
    }
}

/// The last release tag of a page.
pub open spec fn last_tag(buffer: Seq<u8>, prefix: Seq<u8>) -> Option<Seq<char>> {
    last_tag_before(buffer, prefix, buffer.len() as int)
}

/// The view of an optional string.
pub open spec fn optional_text(text: Option<String>) -> Option<Seq<char>> {
    match text {
        Some(found) => Some(found@),
        None => None,
    }
}

/// The release tag that follows `prefix` at `position`, if one does.
pub fn read_tag_at(buffer: &[u8], prefix: &[u8], position: usize) -> (tag: Option<String>)
    ensures
        optional_text(tag) == if tag_at(buffer@, prefix@, position as int) {
            Some(tag_text(buffer@, prefix@, position as int))
        } else {
            None
        },
{
    if !occurs_at_position(buffer, prefix, position) {
        return None;
    }
    let length: usize = buffer.len();
    assert(position + prefix@.len() <= length);
    let start: usize = position + prefix.len();
    let mut end: usize = start;
    proof {
        lemma_tag_len_from(buffer@, start as int);
    }
    while end < buffer.len() && (buffer[end] == 0x2E || (buffer[end] >= 0x30 && buffer[end]
        <= 0x39))
        invariant
            start <= end <= buffer@.len(),
            tag_len_from(buffer@, start as int) == end - start + tag_len_from(
                buffer@,
                end as int,
            ),
            forall|k: int| start <= k < end ==> is_tag_byte(#[trigger] buffer@[k]),
        decreases buffer@.len() - end,
    {
        end = end + 1;
    }
    if end == start {
        return None;
    }
    let run: &[u8] = slice_subrange(buffer, start, end);
    assert(is_ascii_bytes(run@)) by {
        assert forall|i: int| 0 <= i < run@.len() implies #[trigger] run@[i] < 0x80 by {
            assert(is_tag_byte(buffer@[start + i]));
        }
    }
    Some(ascii_string(run))
}

/// Finds the first release tag that follows `prefix` in a page.
pub fn find_first_tag(buffer: &[u8], prefix: &[u8]) -> (tag: Option<String>)
    ensures
        optional_text(tag) == first_tag(buffer@, prefix@),
{
    let mut position: usize = 0;
    while position < buffer.len()
        invariant
            position <= buffer@.len(),
            first_tag(buffer@, prefix@) == first_tag_from(buffer@, prefix@, position as int),
        decreases buffer@.len() - position,
    {
        let tag: Option<String> = read_tag_at(buffer, prefix, position);
        if tag.is_some() {
            return tag;
        }
        position = position + 1;
    }
    None
}

/// Finds the last release tag that follows `prefix` in a page.
pub fn find_last_tag(buffer: &[u8], prefix: &[u8]) -> (tag: Option<String>)
    ensures
        optional_text(tag) == last_tag(buffer@, prefix@),
{
    let mut last: Option<String> = None;
    let mut position: usize = 0;
    while position < buffer.len()
        invariant
            position <= buffer@.len(),
            optional_text(last) == last_tag_before(buffer@, prefix@, position as int),
        decreases buffer@.len() - position,
    {
        let tag: Option<String> = read_tag_at(buffer, prefix, position);
        if tag.is_some() {
            last = tag;
        }
        position = position + 1;
    }
    last
}

/// The release a compiler build resolves to: a tag found for it, or else
/// the tag to fall back on.
pub fn toolchain_tag(resolved: Option<String>, fallback: &str) -> (tag: String)
    ensures
        tag@ == match resolved {
            Some(found) => found@,
            None => fallback@,
        },
{
    match resolved {
        Some(found) => found,
        None => fallback.to_owned(),
    }
}

/// The release a compiler commit resolves to: the last release tag that the
/// page of the commit links to, or else the first release tag of the page
/// of all tags, or else the release to fall back on.
pub open spec fn resolved_tag(
    branch_commits_page: Seq<u8>,
    tags_page: Seq<u8>,
    default_tag: Seq<char>,
) -> Seq<char> {
    match last_tag(branch_commits_page, release_link_prefix()) {
        Some(tag) => tag,
        None => match first_tag(tags_page, release_path_prefix()) {
            Some(tag) => tag,
            None => default_tag,
        },
    }
}

impl CommitHash {
    /// The commit identifier, as text.
    pub closed spec fn text(&self) -> Seq<char> {
        self.hash@
    }

    /// The release tag known for the commit.
    pub closed spec fn known_tag(&self) -> Option<Seq<char>> {
        optional_text(self.tag)
    }

    /// The commit identifier.
    pub fn commit_hash_to_string(&self) -> (hash: &String)
        ensures
            hash@ == self.text(),
    {
        &self.hash
    }

    /// The address of the page that lists the branches and tags the commit
    /// belongs to.
    pub fn branch_commits_url(&self) -> (url: String)
        ensures
            url@ == "https://github.com/rust-lang/rust/branch_commits/"@ + self.text(),
    {
        let mut url: String = String::from_str(
            "https://github.com/rust-lang/rust/branch_commits/",
        );
        url.append(self.hash.as_str());
        url
    }

    /// Tells whether the page that lists all tags is needed to resolve the
    /// commit: it is where the page of the commit links to no release.
    pub fn needs_tags_page(&self, branch_commits_page: &[u8]) -> (needed: bool)
        ensures
            needed == (last_tag(branch_commits_page@, release_link_prefix()) is None),
    {
        find_last_tag(branch_commits_page, "href=\"/rust-lang/rust/releases/tag/".as_bytes())
            .is_none()
    }

    /// Resolves the commit to a release, given the page that lists the
    /// branches and tags of the commit, the page that lists all tags, and
    /// the release to fall back on: the last release tag the first page
    /// links to, or, where it links to none, the first release tag of the
    /// second page, or, where that page holds none either, the release to
    /// fall back on. There is always a release.
    pub fn search_rustc_version(
        &self,
        branch_commits_page: &[u8],
        tags_page: &[u8],
        default_tag: &str,
    ) -> (version: Option<String>)
        ensures
            optional_text(version) == Some(
                resolved_tag(branch_commits_page@, tags_page@, default_tag@),
            ),
    {
        let found: Option<String> = find_last_tag(
            branch_commits_page,
            "href=\"/rust-lang/rust/releases/tag/".as_bytes(),
        );
        let found: Option<String> = match found {
            Some(tag) => Some(tag),
            None => find_first_tag(tags_page, "/rust-lang/rust/releases/tag/".as_bytes()),
        };
        Some(toolchain_tag(found, default_tag))
    }
}

/// What a target tells of the compiler that built it.
#[derive(Clone, Debug, PartialEq, Eq)]
pub struct RustcInformation {
    hash: CommitHash,
}

impl RustcInformation {
    /// The commit the information holds.
    pub closed spec fn commit(&self) -> CommitHash {
        self.hash
    }

    /// The commit identifier of the compiler.
    pub fn get_commit_hash(&self) -> (hash: &CommitHash)
        ensures
            *hash == self.commit(),
    {
        &self.hash
    }

    /// Searches a buffer for the compiler fingerprint: the first place where
    /// `rustc/` is followed by forty hexadecimal digits. The digits are the
    /// commit identifier; no tag is known for it yet.
    pub fn from_buffer(buffer: &Vec<u8>) -> (information: Option<RustcInformation>)
        ensures
            match information {
                Some(found) => exists|position: int|
                    #[trigger] is_first_fingerprint(buffer@, position) && found.commit().text()
                        == ascii_chars(fingerprint_digits(buffer@, position))
                        && found.commit().known_tag() is None,
                None => forall|position: int| !fingerprint_at(buffer@, position),
            },
    {
        let prefix: &[u8] = "rustc/".as_bytes();
        let bytes: &[u8] = buffer.as_slice();
        let mut position: usize = 0;
        while position < bytes.len()
            invariant
                position <= bytes@.len(),
                bytes@ == buffer@,
                prefix@ == commit_prefix(),
                forall|earlier: int|
                    0 <= earlier < position ==> !fingerprint_at(buffer@, earlier),
            decreases bytes@.len() - position,
        {
            if occurs_at_position(bytes, prefix, position) {
                let length: usize = bytes.len();
                assert(position + prefix@.len() <= length);
                let start: usize = position + prefix.len();
                if COMMIT_HASH_LEN <= bytes.len() - start {
                    let mut count: usize = 0;
                    while count < COMMIT_HASH_LEN && ((bytes[start + count] >= 0x30 && bytes[start
                        + count] <= 0x39) || (bytes[start + count] >= 0x61 && bytes[start + count]
                        <= 0x66))
                        invariant
                            count <= COMMIT_HASH_LEN,
                            start + COMMIT_HASH_LEN <= bytes@.len(),
                            bytes@.len() <= usize::MAX,
                            forall|k: int|
                                0 <= k < count ==> is_hex_digit(#[trigger] bytes@[start + k]),
                        decreases COMMIT_HASH_LEN - count,
                    {
                        count = count + 1;
                    }
                    if count == COMMIT_HASH_LEN {
                        let digits: &[u8] = slice_subrange(bytes, start, start + COMMIT_HASH_LEN);
                        assert(is_ascii_bytes(digits@)) by {
                            assert forall|i: int| 0 <= i < digits@.len() implies
                                #[trigger] digits@[i] < 0x80 by {
                                assert(is_hex_digit(bytes@[start + i]));
                            }
                        }
                        let information = RustcInformation {
                            hash: CommitHash { hash: ascii_string(digits), tag: None },
                        };
                        assert(is_first_fingerprint(buffer@, position as int));
                        return Some(information);
                    } else {
                        assert(!is_hex_digit(bytes@[start + count]));
                    }
                }
            }
            position = position + 1;
        }
        assert forall|at: int| !fingerprint_at(buffer@, at) by {
            if fingerprint_at(buffer@, at) {
                assert(occurs_at(buffer@, commit_prefix(), at));
            }
        }
        None
    }
}

} // verus!
