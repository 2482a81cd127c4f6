//! The members of a library archive.
//!
//! The archive is walked here, header by header, and `goblin` reads each
//! header. Its reader of whole archives, `goblin::archive::Archive::parse`,
//! is not called: beside the members it decodes the symbol index and the
//! table of long names, which nothing here uses, and it computes with what
//! they hold before it has tested it (it subtracts from the size of the
//! table of long names, and from each member number of the second index),
//! so that an archive with an empty table of long names would have to be
//! turned away unread. The walk passes those members over. Each other
//! member stands for itself, also where two bear one name.

use vstd::prelude::*;
use vstd::utf8::encode_utf8;

use crate::functions_utils::containers::{
    archive_member_at, is_wide_platform, parse_archive_member, MemberHeader, MemberRange,
};
use crate::functions_utils::objects::on_wide_platform;
use crate::utils::text::{bytes_eq, occurs_at, occurs_at_position};

verus! {

/// The number of bytes of a member header.
pub const MEMBER_HEADER_SIZE: usize = 60;

/// The number of bytes of the magic that starts an archive.
pub const MAGIC_SIZE: usize = 8;

/// The bytes that start an archive.
pub open spec fn archive_magic() -> Seq<u8> {
    encode_utf8("!<arch>\n"@)
}

/// The identifier of the member that holds the symbol index.
pub open spec fn symbol_index_name() -> Seq<u8> {
    encode_utf8("/               "@)
}

/// The identifier of the member that holds the long names.
pub open spec fn name_table_name() -> Seq<u8> {
    encode_utf8("//              "@)
}

/// What starts the identifier of a member whose name is stored after its
/// header.
pub open spec fn stored_name_prefix() -> Seq<u8> {
    encode_utf8("#1/"@)
}

/// The stored name of the member that holds the symbol definitions.
pub open spec fn symbol_definitions_name() -> Seq<u8> {
    encode_utf8("__.SYMDEF"@)
}

/// The stored name of the member that holds the sorted symbol definitions.
pub open spec fn sorted_symbol_definitions_name() -> Seq<u8> {
    encode_utf8("__.SYMDEF SORTED"@)
}

/// Holds of the members that hold an index of the archive and no file: the
/// symbol index, the table of long names, and the symbol definitions.
pub open spec fn is_index_member(header: MemberHeader) -> bool {
    ||| header.raw_name@ == symbol_index_name()
    ||| header.raw_name@ == name_table_name()
    ||| occurs_at(header.raw_name@, stored_name_prefix(), 0) && (header.extended_name@
        == symbol_definitions_name() || header.extended_name@ == sorted_symbol_definitions_name())
}

/// Tells whether a member holds an index of the archive and no file.
pub fn holds_index(header: &MemberHeader) -> (index: bool)
    ensures
        index == is_index_member(*header),
{
    let raw: &[u8] = header.raw_name.as_slice();
    let extended: &[u8] = header.extended_name.as_slice();
    if bytes_eq(raw, "/               ".as_bytes()) {
        return true;
    }
    if bytes_eq(raw, "//              ".as_bytes()) {
        return true;
    }
    occurs_at_position(raw, "#1/".as_bytes(), 0) && (bytes_eq(extended, "__.SYMDEF".as_bytes())
        || bytes_eq(extended, "__.SYMDEF SORTED".as_bytes()))
}

/// The position at which the member header at or after `offset` starts:
/// headers start at even positions.
pub open spec fn aligned(offset: int) -> int {
    if offset % 2 == 1 {
        offset + 1
    } else {
        offset
    }
}

/// The members that hold files, from `offset` on, in file order: the headers
/// are read one after the other, each at the even position that follows the
/// member before, until less than two bytes are left. `None` where a header
/// cannot be read, where a member would start before its header ends, or
/// where it would end beyond the addresses of the machine.
pub open spec fn members_from(bytes: Seq<u8>, offset: int) -> Option<Seq<MemberRange>>
    decreases bytes.len() - offset,
{
    if offset < 0 || offset + 1 >= bytes.len() {
        Some(Seq::empty())
    } else {
        match archive_member_at(bytes, aligned(offset)) {
            None => None,
            Some(header) => {
                let next = header.offset + header.size;
                let found = if is_index_member(header) {
                    Seq::<MemberRange>::empty()
                } else {
                    seq![MemberRange { offset: header.offset, size: header.size }]
                };
                if header.offset < aligned(offset) + MEMBER_HEADER_SIZE || next > usize::MAX {
                    None
                } else if next + 1 >= bytes.len() {
                    Some(found)
                } else {
                    match members_from(bytes, next) {
                        Some(rest) => Some(found + rest),
                        None => None,
                    }
                }
            },
        }
    }
}

/// The members of a library archive that hold files, in file order; `None`
/// where the bytes do not start with the magic of an archive or a header
/// cannot be read.
pub open spec fn archive_members(bytes: Seq<u8>) -> Option<Seq<MemberRange>> {
    if is_wide_platform() && occurs_at(bytes, archive_magic(), 0) {
        members_from(bytes, MAGIC_SIZE as int)
    } else {
        None
    }
}

/// Finds the members of a library archive that hold files.
pub fn find_archive_members(bytes: &[u8]) -> (members: Option<Vec<MemberRange>>)
    ensures
        match members {
            Some(list) => archive_members(bytes@) == Some(list@),
            None => archive_members(bytes@) is None,
        },
{
    if !on_wide_platform() {
        return None;
    }
    let magic: &[u8] = "!<arch>\n".as_bytes();
    if !occurs_at_position(bytes, magic, 0) {
        return None;
    }
    let length: usize = bytes.len();
    let mut members: Vec<MemberRange> = Vec::new();
    let mut offset: usize = MAGIC_SIZE;
    while offset < length && offset + 1 < length
        invariant
            is_wide_platform(),
            length == bytes@.len(),
            match members_from(bytes@, offset as int) {
                Some(rest) => members_from(bytes@, MAGIC_SIZE as int) == Some(members@ + rest),
                None => members_from(bytes@, MAGIC_SIZE as int) is None,
            },
        decreases bytes@.len() - offset,
    {
        let at: usize = if offset % 2 == 1 {
            offset + 1
        } else {
            offset
        };
        let header: MemberHeader = match parse_archive_member(bytes, at) {
            Some(header) => header,
            None => {
                return None;
            },
        };
        let next: usize = match header.offset.checked_add(header.size) {
            Some(next) => next,
            None => {
                return None;
            },
        };
        let ghost before = members@;
        let ghost found = if is_index_member(header) {
            Seq::<MemberRange>::empty()
        } else {
            seq![MemberRange { offset: header.offset, size: header.size }]
        };
        if !holds_index(&header) {
            members.push(MemberRange { offset: header.offset, size: header.size });
        }
        assert(members@ =~= before + found);
        proof {
            if next + 1 < bytes@.len() {
                match members_from(bytes@, next as int) {
                    Some(rest) => {
                        assert(before + (found + rest) =~= members@ + rest);
                    },
                    None => {},
                }
            } else {
                assert(before + found =~= members@ + Seq::<MemberRange>::empty());
            }
        }
        offset = if next < length {
            next
        } else {
            length
        };
    }
    assert(members@ + Seq::<MemberRange>::empty() =~= members@);
    Some(members)
}

} // verus!
