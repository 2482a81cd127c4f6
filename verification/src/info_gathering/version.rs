//! Versions of packages, and the package names and versions that the
//! package component of a registry path spells.

use vstd::prelude::*;
use vstd::slice::slice_subrange;

use crate::info_gathering::paths::{byte_views, copy_bytes};
use crate::utils::text::{
    ascii_chars, ascii_string, decimal_digits, decimal_value, format_decimal, is_ascii_bytes,
    is_decimal, lemma_decimal_round_trip, parse_decimal,
};

verus! {

/// The byte that parts the numbers of a version.
pub const VERSION_SEPARATOR: u8 = 0x2E;

/// The byte that parts the name of a package from its version.
pub const PACKAGE_SEPARATOR: u8 = 0x2D;

/// The version of a package: three numbers.
#[derive(Clone, Copy, Debug, PartialEq, Eq, Structural)]
pub struct Version {
    pub major: u64,
    pub minor: u64,
    pub patch: u64,
}

/// The bytes a version is written with: its three numbers in decimal,
/// parted by dots.
pub open spec fn version_bytes(version: Version) -> Seq<u8> {
    decimal_digits(version.major as nat) + seq![VERSION_SEPARATOR] + decimal_digits(
        version.minor as nat,
    ) + seq![VERSION_SEPARATOR] + decimal_digits(version.patch as nat)
}

/// The text a version is written with.
pub open spec fn version_text(version: Version) -> Seq<char> {
    ascii_chars(version_bytes(version))
}

impl Version {
    /// The version made of three numbers.
    pub fn new(major: u64, minor: u64, patch: u64) -> (version: Version)
        ensures
            version == (Version { major, minor, patch }),
    {
        Version { major, minor, patch }
    }

    /// Writes the version as `major.minor.patch`.
    pub fn to_text(&self) -> (text: String)
        ensures
            text@ == version_text(*self),
    {
        let mut bytes: Vec<u8> = format_decimal(self.major);
        let mut minor: Vec<u8> = format_decimal(self.minor);
        let mut patch: Vec<u8> = format_decimal(self.patch);
        proof {
            lemma_decimal_round_trip(self.major as nat);
            lemma_decimal_round_trip(self.minor as nat);
            lemma_decimal_round_trip(self.patch as nat);
        }
        bytes.push(VERSION_SEPARATOR);
        bytes.append(&mut minor);
        bytes.push(VERSION_SEPARATOR);
        bytes.append(&mut patch);
        assert(bytes@ =~= version_bytes(*self));
        ascii_string(bytes.as_slice())
    }
}

/// The fields that `separator` parts `bytes` into. There is always one field
/// more than there are separators; a field may be empty.
pub open spec fn split_fields(bytes: Seq<u8>, separator: u8) -> Seq<Seq<u8>>
    decreases bytes.len(),
{
    if bytes.len() == 0 {
        seq![Seq::<u8>::empty()]
    } else {
        let fields = split_fields(bytes.drop_last(), separator);
        if bytes.last() == separator {
            fields.push(Seq::<u8>::empty())
        } else {
            fields.drop_last().push(fields.last().push(bytes.last()))
        }
    }
}

/// Parts `bytes` into the fields between the separators.
pub fn split(bytes: &[u8], separator: u8) -> (fields: Vec<Vec<u8>>)
    ensures
        byte_views(fields@) == split_fields(bytes@, separator),
{
    let mut done: Vec<Vec<u8>> = Vec::new();
    let mut current: Vec<u8> = Vec::new();
    let mut index: usize = 0;
    assert(bytes@.take(0) =~= Seq::<u8>::empty());
    assert(byte_views(done@).push(current@) =~= split_fields(bytes@.take(0), separator));
    while index < bytes.len()
        invariant
            index <= bytes@.len(),
            byte_views(done@).push(current@) == split_fields(bytes@.take(index as int), separator),
        decreases bytes@.len() - index,
    {
        let ghost done_before = byte_views(done@);
        let ghost current_before = current@;
        proof {
            assert(bytes@.take(index as int + 1).drop_last() =~= bytes@.take(index as int));
            assert(done_before.push(current_before).drop_last() =~= done_before);
        }
        if bytes[index] == separator {
            done.push(current);
            current = Vec::new();
            assert(byte_views(done@) =~= done_before.push(current_before));
        } else {
            current.push(bytes[index]);
        }
        index = index + 1;
    }
    assert(bytes@.take(bytes@.len() as int) =~= bytes@);
    let ghost done_before = byte_views(done@);
    let ghost last = current@;
    done.push(current);
    assert(byte_views(done@) =~= done_before.push(last));
    done
}

/// Holds of a field that spells a number of 64 bits.
pub open spec fn is_number(field: Seq<u8>) -> bool {
    is_decimal(field) && decimal_value(field) <= u64::MAX
}

/// The version a text spells: the text is made of three or more fields
/// parted by dots, every field spells a number, and the first three are the
/// version.
pub open spec fn version_of(text: Seq<u8>) -> Option<Version> {
    let fields = split_fields(text, VERSION_SEPARATOR);
    if fields.len() >= 3 && forall|i: int| 0 <= i < fields.len() ==> is_number(#[trigger] fields[i]) {
        Some(
            Version {
                major: decimal_value(fields[0]) as u64,
                minor: decimal_value(fields[1]) as u64,
                patch: decimal_value(fields[2]) as u64,
            },
        )
    } else {
        None
    }
}

/// Reads the version a text spells.
pub fn parse_version(text: &[u8]) -> (version: Option<Version>)
    ensures
        version == version_of(text@),
{
    let fields: Vec<Vec<u8>> = split(text, VERSION_SEPARATOR);
    let ghost views = byte_views(fields@);
    if fields.len() < 3 {
        return None;
    }
    let mut numbers: Vec<u64> = Vec::new();
    let mut index: usize = 0;
    while index < fields.len()
        invariant
            index <= fields@.len(),
            fields@.len() >= 3,
            views == byte_views(fields@),
            views == split_fields(text@, VERSION_SEPARATOR),
            numbers@.len() == index,
            forall|i: int| 0 <= i < index ==> is_number(#[trigger] views[i]),
            forall|i: int| 0 <= i < index ==> numbers@[i] == decimal_value(views[i]),
        decreases fields@.len() - index,
    {
        match parse_decimal(fields[index].as_slice()) {
            Some(number) => {
                numbers.push(number);
            },
            None => {
                assert(fields@[index as int]@ == views[index as int]);
                assert(!is_number(views[index as int]));
                return None;
            },
        }
        index = index + 1;
    }
    Some(Version { major: numbers[0], minor: numbers[1], patch: numbers[2] })
}

/// The position of the last `byte` of `bytes` before position `end`.
pub open spec fn last_position_before(bytes: Seq<u8>, byte: u8, end: int) -> Option<int>
    decreases end,
{
    if end <= 0 || end > bytes.len() {
        None
    } else if bytes[end - 1] == byte {
        Some(end - 1)
    } else {
        last_position_before(bytes, byte, end - 1)
    }
}

/// The position found lies before `end` and holds the byte.
pub proof fn lemma_last_position_before(bytes: Seq<u8>, byte: u8, end: int)
    ensures
        last_position_before(bytes, byte, end) matches Some(position) ==> 0 <= position < end
            && position < bytes.len() && bytes[position] == byte,
    decreases end,
{
    if !(end <= 0 || end > bytes.len()) && bytes[end - 1] != byte {
        lemma_last_position_before(bytes, byte, end - 1);
    }
}

/// A package name with its version.
pub struct Package {
    /// The name, as the bytes found.
    pub name: Vec<u8>,
    /// The version.
    pub version: Version,
}

/// What a `Package` stands for in contracts.
pub struct PackageView {
    pub name: Seq<u8>,
    pub version: Version,
}

impl View for Package {
    type V = PackageView;

    open spec fn view(&self) -> PackageView {
        PackageView { name: self.name@, version: self.version }
    }
}

/// The view of an optional package.
pub open spec fn optional_package_view(package: Option<Package>) -> Option<PackageView> {
    match package {
        Some(found) => Some(found@),
        None => None,
    }
}

/// The package a component spells: the part before the last `-` is the
/// name, the part after it must spell a version.
pub open spec fn package_of(component: Seq<u8>) -> Option<PackageView> {
    match last_position_before(component, PACKAGE_SEPARATOR, component.len() as int) {
        Some(dash) => match version_of(component.subrange(dash + 1, component.len() as int)) {
            Some(version) => Some(PackageView { name: component.subrange(0, dash), version }),
            None => None,
        },
        None => None,
    }
}

/// Reads the package a component spells.
pub fn parse_package(component: &[u8]) -> (package: Option<Package>)
    ensures
        optional_package_view(package) == package_of(component@),
{
    let mut end: usize = component.len();
    while end > 0 && component[end - 1] != PACKAGE_SEPARATOR
        invariant
            end <= component@.len(),
            last_position_before(component@, PACKAGE_SEPARATOR, component@.len() as int)
                == last_position_before(component@, PACKAGE_SEPARATOR, end as int),
        decreases end,
    {
        end = end - 1;
    }
    if end == 0 {
        return None;
    }
    let dash: usize = end - 1;
    match parse_version(slice_subrange(component, dash + 1, component.len())) {
        Some(version) => Some(
            Package { name: copy_bytes(slice_subrange(component, 0, dash)), version },
        ),
        None => None,
    }
}

} // verus!
