//! Paths into the package registry that a target embeds: where they are,
//! which package they name and which directories of it they go through.

use vstd::prelude::*;
use vstd::slice::slice_subrange;
use vstd::utf8::encode_utf8;

use crate::utils::text::{occurs_at, occurs_at_position, occurs_in, occurs_within};

verus! {

/// Holds of the two bytes that part the components of a path.
pub open spec fn is_separator(byte: u8) -> bool {
    byte == 0x2F || byte == 0x5C
}

/// Holds of the bytes a path component is made of: ASCII letters and digits,
/// `-`, `_`, `.` and `+`.
pub open spec fn is_component_byte(byte: u8) -> bool {
    ||| 0x30 <= byte <= 0x39
    ||| 0x41 <= byte <= 0x5A
    ||| 0x61 <= byte <= 0x7A
    ||| byte == 0x2D
    ||| byte == 0x5F
    ||| byte == 0x2E
    ||| byte == 0x2B
}

/// Tells whether a byte parts the components of a path.
pub fn separates(byte: u8) -> (separator: bool)
    ensures
        separator == is_separator(byte),
{
    byte == 0x2F || byte == 0x5C
}

/// Tells whether a byte can stand in a path component.
pub fn stands_in_component(byte: u8) -> (component: bool)
    ensures
        component == is_component_byte(byte),
{
    (0x30 <= byte && byte <= 0x39) || (0x41 <= byte && byte <= 0x5A) || (0x61 <= byte && byte
        <= 0x7A) || byte == 0x2D || byte == 0x5F || byte == 0x2E || byte == 0x2B
}

/// The number of component bytes `buffer` holds in a row from `from` on.
pub open spec fn component_len_from(buffer: Seq<u8>, from: int) -> int
    decreases buffer.len() - from,
{
    if from < 0 || from >= buffer.len() || !is_component_byte(buffer[from]) {
        0
    } else {
        1 + component_len_from(buffer, from + 1)
    }
}

/// A run of component bytes is not negative in length, lies in the buffer
/// and holds component bytes only.
pub proof fn lemma_component_len_from(buffer: Seq<u8>, from: int)
    requires
        0 <= from,
    ensures
        0 <= component_len_from(buffer, from),
        from <= buffer.len() ==> from + component_len_from(buffer, from) <= buffer.len(),
        from >= buffer.len() ==> component_len_from(buffer, from) == 0,
        forall|k: int|
            from <= k < from + component_len_from(buffer, from) ==> is_component_byte(
                #[trigger] buffer[k],
            ),
        from + component_len_from(buffer, from) < buffer.len() ==> !is_component_byte(
            buffer[from + component_len_from(buffer, from)],
        ),
    decreases buffer.len() - from,
{
    if from < buffer.len() && is_component_byte(buffer[from]) {
        lemma_component_len_from(buffer, from + 1);
    }
}

/// Holds when every byte can stand in a path component.
pub open spec fn is_component(bytes: Seq<u8>) -> bool {
    forall|i: int| 0 <= i < bytes.len() ==> is_component_byte(#[trigger] bytes[i])
}

/// Holds when the bytes of each of the strings can stand in a path
/// component.
pub open spec fn are_components(list: Seq<Seq<u8>>) -> bool {
    forall|i: int| 0 <= i < list.len() ==> is_component(#[trigger] list[i])
}

/// Holds when the package and the directories of a reference are made of
/// component bytes.
pub open spec fn is_clean(reference: PathReferenceView) -> bool {
    is_component(reference.package) && are_components(reference.directories)
}

/// Measures the run of component bytes that starts at `from`.
pub fn component_len(buffer: &[u8], from: usize) -> (len: usize)
    ensures
        len == component_len_from(buffer@, from as int),
        from <= buffer@.len() ==> from + len <= buffer@.len(),
        from <= buffer@.len() ==> is_component(buffer@.subrange(from as int, from + len)),
{
    proof {
        lemma_component_len_from(buffer@, from as int);
    }
    if from >= buffer.len() {
        return 0;
    }
    let mut end: usize = from;
    while end < buffer.len() && stands_in_component(buffer[end])
        invariant
            from <= end <= buffer@.len(),
            component_len_from(buffer@, from as int) == end - from + component_len_from(
                buffer@,
                end as int,
            ),
        decreases buffer@.len() - end,
    {
        end = end + 1;
    }
    end - from
}

/// Holds when `segment` occurs at `position` and a separator follows it.
pub open spec fn segment_at(buffer: Seq<u8>, segment: Seq<u8>, position: int) -> bool {
    &&& occurs_at(buffer, segment, position)
    &&& position + segment.len() < buffer.len()
    &&& is_separator(buffer[position + segment.len()])
}

/// Tells whether `segment` occurs at `position` with a separator after it.
pub fn segment_occurs_at(buffer: &[u8], segment: &[u8], position: usize) -> (occurs: bool)
    ensures
        occurs == segment_at(buffer@, segment@, position as int),
{
    if !occurs_at_position(buffer, segment, position) {
        return false;
    }
    let length: usize = buffer.len();
    assert(position + segment@.len() <= length);
    let end: usize = position + segment.len();
    end < buffer.len() && separates(buffer[end])
}

/// The first directory of the registry.
pub open spec fn registry_root() -> Seq<u8> {
    encode_utf8("cargo"@)
}

/// The second directory of the registry.
pub open spec fn registry_directory() -> Seq<u8> {
    encode_utf8("registry"@)
}

/// The third directory of the registry.
pub open spec fn sources_directory() -> Seq<u8> {
    encode_utf8("src"@)
}

/// What ends the name of a source file.
pub open spec fn source_suffix() -> Seq<u8> {
    encode_utf8(".rs"@)
}

/// The position of the host component of a registry path that starts at
/// `position`.
pub open spec fn host_start(position: int) -> int {
    position + registry_root().len() + 1 + registry_directory().len() + 1
        + sources_directory().len() + 1
}

/// The position of the package component of a registry path that starts at
/// `position`.
pub open spec fn package_start(buffer: Seq<u8>, position: int) -> int {
    host_start(position) + component_len_from(buffer, host_start(position)) + 1
}

/// The position after the package component of a registry path that starts
/// at `position`.
pub open spec fn package_end(buffer: Seq<u8>, position: int) -> int {
    package_start(buffer, position) + component_len_from(buffer, package_start(buffer, position))
}

/// Holds when a registry path starts at `position`: the directories `cargo`,
/// `registry` and `src`, a host component and a package component, each
/// followed by a separator but for the last.
pub open spec fn registry_path_at(buffer: Seq<u8>, position: int) -> bool {
    let second = position + registry_root().len() + 1;
    let third = second + registry_directory().len() + 1;
    let host = host_start(position);
    let host_end = host + component_len_from(buffer, host);
    &&& segment_at(buffer, registry_root(), position)
    &&& segment_at(buffer, registry_directory(), second)
    &&& segment_at(buffer, sources_directory(), third)
    &&& component_len_from(buffer, host) >= 1
    &&& host_end < buffer.len()
    &&& is_separator(buffer[host_end])
    &&& component_len_from(buffer, host_end + 1) >= 1
}

/// The directories a path goes through from the separator at `position` on,
/// where it ends in a source file: each component that a separator follows
/// is a directory, and the first component that none follows must hold
/// `.rs`. `None` where the path does not lead to a source file.
pub open spec fn source_directories(buffer: Seq<u8>, position: int) -> Option<Seq<Seq<u8>>>
    decreases buffer.len() - position,
{
    if position < 0 || position >= buffer.len() || !is_separator(buffer[position]) {
        None
    } else {
        let len = component_len_from(buffer, position + 1);
        let end = position + 1 + len;
        let component = buffer.subrange(position + 1, end);
        if len < 1 || end > buffer.len() {
            None
        } else if end < buffer.len() && is_separator(buffer[end]) {
            match source_directories(buffer, end) {
                Some(rest) => Some(seq![component] + rest),
                None => None,
            }
        } else if occurs_within(component, source_suffix()) {
            Some(Seq::empty())
        } else {
            None
        }
    }
}

/// One registry path found in a target.
pub struct PathReference {
    /// The package component of the path.
    pub package: Vec<u8>,
    /// The directories of the package that the path goes through, where it
    /// leads to a source file; none otherwise.
    pub directories: Vec<Vec<u8>>,
}

/// What a `PathReference` stands for in contracts.
pub struct PathReferenceView {
    pub package: Seq<u8>,
    pub directories: Seq<Seq<u8>>,
}

/// The views of a list of byte strings, in order.
pub open spec fn byte_views(list: Seq<Vec<u8>>) -> Seq<Seq<u8>> {
    list.map_values(|bytes: Vec<u8>| bytes@)
}

impl View for PathReference {
    type V = PathReferenceView;

    open spec fn view(&self) -> PathReferenceView {
        PathReferenceView { package: self.package@, directories: byte_views(self.directories@) }
    }
}

/// The views of a list of path references, in order.
pub open spec fn reference_views(list: Seq<PathReference>) -> Seq<PathReferenceView> {
    list.map_values(|reference: PathReference| reference@)
}

/// The registry path that starts at `position`.
pub open spec fn reference_at(buffer: Seq<u8>, position: int) -> PathReferenceView {
    PathReferenceView {
        package: buffer.subrange(package_start(buffer, position), package_end(buffer, position)),
        directories: match source_directories(buffer, package_end(buffer, position)) {
            Some(directories) => directories,
            None => Seq::empty(),
        },
    }
}

/// The registry paths of a buffer from `from` on, in order. The search for
/// the next path goes on after the package component of the last.
pub open spec fn references_from(buffer: Seq<u8>, from: int) -> Seq<PathReferenceView>
    decreases buffer.len() - from,
{
    if from < 0 || from >= buffer.len() {
        Seq::empty()
    } else if registry_path_at(buffer, from) && from < package_end(buffer, from)
        <= buffer.len() {
        seq![reference_at(buffer, from)] + references_from(buffer, package_end(buffer, from))
    } else {
        references_from(buffer, from + 1)
    }
}

/// The registry paths of a buffer.
pub open spec fn references(buffer: Seq<u8>) -> Seq<PathReferenceView> {
    references_from(buffer, 0)
}

/// Copies bytes into a list of their own.
pub fn copy_bytes(bytes: &[u8]) -> (copy: Vec<u8>)
    ensures
        copy@ == bytes@,
{
    let mut copy: Vec<u8> = Vec::new();
    let mut index: usize = 0;
    while index < bytes.len()
        invariant
            index <= bytes@.len(),
            copy@ == bytes@.take(index as int),
        decreases bytes@.len() - index,
    {
        copy.push(bytes[index]);
        index = index + 1;
        assert(copy@ =~= bytes@.take(index as int));
    }
    assert(bytes@.take(bytes@.len() as int) =~= bytes@);
    copy
}

/// Reads the directories a path goes through from the separator at
/// `position` on.
pub fn read_source_directories(buffer: &[u8], position: usize) -> (directories: Option<
    Vec<Vec<u8>>,
>)
    ensures
        match directories {
            Some(list) => source_directories(buffer@, position as int) == Some(byte_views(list@))
                && are_components(byte_views(list@)),
            None => source_directories(buffer@, position as int) is None,
        },
{
    let mut list: Vec<Vec<u8>> = Vec::new();
    let mut at: usize = position;
    assert(byte_views(list@) =~= Seq::<Seq<u8>>::empty());
    loop
        invariant
            at <= buffer@.len() || source_directories(buffer@, at as int) is None,
            are_components(byte_views(list@)),
            match source_directories(buffer@, at as int) {
                Some(rest) => source_directories(buffer@, position as int) == Some(
                    byte_views(list@) + rest,
                ),
                None => source_directories(buffer@, position as int) is None,
            },
        decreases buffer@.len() - at,
    {
        if at >= buffer.len() || !separates(buffer[at]) {
            return None;
        }
        let len: usize = component_len(buffer, at + 1);
        let end: usize = at + 1 + len;
        if len < 1 {
            return None;
        }
        let component: &[u8] = slice_subrange(buffer, at + 1, end);
        if end < buffer.len() && separates(buffer[end]) {
            let ghost before = byte_views(list@);
            list.push(copy_bytes(component));
            assert(byte_views(list@) =~= before.push(component@));
            proof {
                match source_directories(buffer@, end as int) {
                    Some(rest) => {
                        assert(before + (seq![component@] + rest) =~= byte_views(list@) + rest);
                    },
                    None => {},
                }
            }
            at = end;
        } else if occurs_in(component, ".rs".as_bytes()) {
            assert(byte_views(list@) + Seq::<Seq<u8>>::empty() =~= byte_views(list@));
            return Some(list);
        } else {
            return None;
        }
    }
}

/// Tells whether a registry path starts at `position`; where one does,
/// gives the bounds of its package component.
pub fn read_registry_path(buffer: &[u8], position: usize) -> (bounds: Option<(usize, usize)>)
    ensures
        match bounds {
            Some((start, end)) => {
                &&& registry_path_at(buffer@, position as int)
                &&& start == package_start(buffer@, position as int)
                &&& end == package_end(buffer@, position as int)
                &&& position < start < end <= buffer@.len()
                &&& is_component(buffer@.subrange(start as int, end as int))
            },
            None => !registry_path_at(buffer@, position as int),
        },
{
    let root: &[u8] = "cargo".as_bytes();
    let registry: &[u8] = "registry".as_bytes();
    let sources: &[u8] = "src".as_bytes();
    let length: usize = buffer.len();
    if !segment_occurs_at(buffer, root, position) {
        return None;
    }
    assert(position + root@.len() < length);
    let second: usize = position + root.len() + 1;
    if !segment_occurs_at(buffer, registry, second) {
        return None;
    }
    assert(second + registry@.len() < length);
    let third: usize = second + registry.len() + 1;
    if !segment_occurs_at(buffer, sources, third) {
        return None;
    }
    assert(third + sources@.len() < length);
    let host: usize = third + sources.len() + 1;
    let host_len: usize = component_len(buffer, host);
    let host_end: usize = host + host_len;
    if host_len < 1 || host_end >= buffer.len() || !separates(buffer[host_end]) {
        return None;
    }
    let package_len: usize = component_len(buffer, host_end + 1);
    if package_len < 1 {
        return None;
    }
    Some((host_end + 1, host_end + 1 + package_len))
}

/// Finds the registry paths a buffer embeds.
pub fn find_references(buffer: &[u8]) -> (found: Vec<PathReference>)
    ensures
        reference_views(found@) == references(buffer@),
        forall|i: int| 0 <= i < found@.len() ==> is_clean(#[trigger] reference_views(found@)[i]),
{
    let mut found: Vec<PathReference> = Vec::new();
    let mut position: usize = 0;
    assert(reference_views(found@) =~= Seq::<PathReferenceView>::empty());
    while position < buffer.len()
        invariant
            position <= buffer@.len(),
            forall|i: int|
                0 <= i < found@.len() ==> is_clean(#[trigger] reference_views(found@)[i]),
            references(buffer@) == reference_views(found@) + references_from(
                buffer@,
                position as int,
            ),
        decreases buffer@.len() - position,
    {
        let ghost before = reference_views(found@);
        match read_registry_path(buffer, position) {
            Some((start, end)) => {
                let directories: Vec<Vec<u8>> = match read_source_directories(buffer, end) {
                    Some(list) => list,
                    None => {
                        let list: Vec<Vec<u8>> = Vec::new();
                        assert(byte_views(list@) =~= Seq::<Seq<u8>>::empty());
                        list
                    },
                };
                let reference = PathReference {
                    package: copy_bytes(slice_subrange(buffer, start, end)),
                    directories,
                };
                assert(reference@ == reference_at(buffer@, position as int));
                assert(is_clean(reference@));
                found.push(reference);
                assert(reference_views(found@) =~= before.push(
                    reference_at(buffer@, position as int),
                ));
                assert(before + (seq![reference_at(buffer@, position as int)] + references_from(
                    buffer@,
                    end as int,
                )) =~= reference_views(found@) + references_from(buffer@, end as int));
                position = end;
            },
            None => {
                position = position + 1;
            },
        }
    }
    assert(reference_views(found@) + Seq::<PathReferenceView>::empty() =~= reference_views(
        found@,
    ));
    found
}

} // verus!
