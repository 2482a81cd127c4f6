//! What must hold of the bytes of a debug database for it to be read, and
//! the section table and the symbols read from it.

use vstd::prelude::*;

use crate::functions_utils::containers::{
    is_wide_platform, parse_pdb_global_heads, parse_pdb_global_symbols, parse_pdb_module_count,
    parse_pdb_module_heads, parse_pdb_module_symbols, parse_pdb_sections, pdb_global_heads,
    pdb_global_symbols, pdb_module_count, pdb_module_heads, pdb_module_symbols, pdb_sections,
    pdb_stream, read_pdb_stream, DebugRecord, RecordHead,
};
use crate::functions_utils::objects::{le_u32, on_wide_platform, read_le_u32};
use crate::functions_utils::sections::Section;

verus! {

/// The number of the stream that holds the debug information.
pub const DEBUG_STREAM: u16 = 3;

/// The number of bytes of the head of the debug information stream.
pub const DEBUG_HEAD_SIZE: usize = 64;

/// The sum of the six sizes in the head of the debug information stream
/// that lie before the list of the other streams: those of the module list,
/// the section contributions, the section map, the file information, the
/// type server map and the edit-and-continue part.
pub open spec fn sizes_before_stream_list(stream: Seq<u8>) -> int {
    le_u32(stream, 24) + le_u32(stream, 28) + le_u32(stream, 32) + le_u32(stream, 36) + le_u32(
        stream,
        40,
    ) + le_u32(stream, 52)
}

/// Holds of a debug information stream whose head is cut short, or in which
/// the six sizes add up to a 32-bit number that, with the length of the
/// head, is still an offset.
pub open spec fn stream_is_safe(stream: Seq<u8>) -> bool {
    ||| stream.len() < DEBUG_HEAD_SIZE
    ||| {
        &&& sizes_before_stream_list(stream) <= u32::MAX
        &&& sizes_before_stream_list(stream) + DEBUG_HEAD_SIZE <= usize::MAX
    }
}

/// Holds of the bytes whose section headers can be looked for: addresses
/// are wide, and there is no debug information stream or it is safe.
pub open spec fn database_is_safe(pdb_bytes: Seq<u8>) -> bool {
    &&& is_wide_platform()
    &&& match pdb_stream(pdb_bytes, DEBUG_STREAM) {
        Some(stream) => stream_is_safe(stream),
        None => true,
    }
}

/// Tells whether a debug information stream is safe.
pub fn is_safe_stream(stream: &[u8]) -> (safe: bool)
    ensures
        safe == stream_is_safe(stream@),
{
    if stream.len() < DEBUG_HEAD_SIZE {
        return true;
    }
    let sum: u64 = read_le_u32(stream, 24) + read_le_u32(stream, 28) + read_le_u32(stream, 32)
        + read_le_u32(stream, 36) + read_le_u32(stream, 40) + read_le_u32(stream, 52);
    sum <= u32::MAX as u64 && sum + DEBUG_HEAD_SIZE as u64 <= usize::MAX as u64
}

/// Tells whether the section headers of a debug database can be looked for.
pub fn is_safe_database(pdb_bytes: &[u8]) -> (safe: bool)
    ensures
        safe == database_is_safe(pdb_bytes@),
{
    if !on_wide_platform() {
        return false;
    }
    match read_pdb_stream(pdb_bytes, DEBUG_STREAM) {
        Some(stream) => is_safe_stream(stream.as_slice()),
        None => true,
    }
}

/// The section headers of a debug database, in stream order; `None` where
/// the database cannot be read or has none.
pub open spec fn database_sections(pdb_bytes: Seq<u8>) -> Option<Seq<Section>> {
    if database_is_safe(pdb_bytes) {
        pdb_sections(pdb_bytes)
    } else {
        None
    }
}

/// Reads the section headers of a debug database.
pub fn read_database_sections(pdb_bytes: &[u8]) -> (sections: Option<Vec<Section>>)
    ensures
        match sections {
            Some(table) => database_sections(pdb_bytes@) == Some(table@),
            None => database_sections(pdb_bytes@) is None,
        },
{
    if is_safe_database(pdb_bytes) {
        parse_pdb_sections(pdb_bytes)
    } else {
        None
    }
}

/// The symbols a stream is read for.
#[derive(Clone, Copy, Debug, PartialEq, Eq, Structural)]
pub enum Sought {
    /// The public symbols, which the global stream holds.
    PublicSymbols,
    /// The procedures, which the stream of a module holds.
    Procedures,
}

/// Holds of the two kinds of record that describe a public symbol.
pub open spec fn is_public_kind(kind: u16) -> bool {
    kind == 0x110e || kind == 0x1009
}

/// Holds of the eight kinds of record that describe a procedure.
pub open spec fn is_procedure_kind(kind: u16) -> bool {
    ||| kind == 0x100a
    ||| kind == 0x100b
    ||| kind == 0x110f
    ||| kind == 0x1110
    ||| kind == 0x1146
    ||| kind == 0x1147
    ||| kind == 0x1155
    ||| kind == 0x1156
}

/// Holds of the kinds of record that describe what is sought.
pub open spec fn is_sought_kind(kind: u16, sought: Sought) -> bool {
    match sought {
        Sought::PublicSymbols => is_public_kind(kind),
        Sought::Procedures => is_procedure_kind(kind),
    }
}

/// Tells whether a record of this kind describes what is sought.
pub fn describes(kind: u16, sought: Sought) -> (found: bool)
    ensures
        found == is_sought_kind(kind, sought),
{
    match sought {
        Sought::PublicSymbols => kind == 0x110e || kind == 0x1009,
        Sought::Procedures => kind == 0x100a || kind == 0x100b || kind == 0x110f || kind == 0x1110
            || kind == 0x1146 || kind == 0x1147 || kind == 0x1155 || kind == 0x1156,
    }
}

/// The offset of a record that describes what is sought; none for another
/// record.
pub open spec fn sought_index(head: RecordHead, sought: Sought) -> Option<u32> {
    if is_sought_kind(head.kind, sought) {
        Some(head.index)
    } else {
        None
    }
}

/// The offsets of the records that describe what is sought, in stream
/// order.
pub open spec fn sought_indexes(heads: Seq<RecordHead>, sought: Sought) -> Seq<u32> {
    heads.filter_map(|head: RecordHead| sought_index(head, sought))
}

/// Holds of the offset of a record of the stream that describes what is
/// sought.
pub open spec fn names_sought(heads: Seq<RecordHead>, index: u32, sought: Sought) -> bool {
    exists|j: int|
        0 <= j < heads.len() && (#[trigger] heads[j]).index == index && is_sought_kind(
            heads[j].kind,
            sought,
        )
}

/// Picks the offsets of the records that describe what is sought.
pub fn select_indexes(heads: &Vec<RecordHead>, sought: Sought) -> (indexes: Vec<u32>)
    ensures
        indexes@ == sought_indexes(heads@, sought),
        forall|i: int|
            0 <= i < indexes@.len() ==> names_sought(heads@, #[trigger] indexes@[i], sought),
{
    let ghost pick = |head: RecordHead| sought_index(head, sought);
    let mut indexes: Vec<u32> = Vec::new();
    let mut position: usize = 0;
    assert(indexes@ =~= heads@.take(0).filter_map(pick));
    while position < heads.len()
        invariant
            position <= heads@.len(),
            pick == |head: RecordHead| sought_index(head, sought),
            indexes@ == heads@.take(position as int).filter_map(pick),
            forall|i: int|
                0 <= i < indexes@.len() ==> names_sought(heads@, #[trigger] indexes@[i], sought),
        decreases heads@.len() - position,
    {
        proof {
            heads@.lemma_filter_map_take_succ(pick, position as int);
        }
        let head: RecordHead = heads[position];
        if describes(head.kind, sought) {
            let ghost before = indexes@;
            indexes.push(head.index);
            assert forall|i: int| 0 <= i < indexes@.len() implies names_sought(
                heads@,
                #[trigger] indexes@[i],
                sought,
            ) by {
                if i < before.len() {
                    assert(indexes@[i] == before[i]);
                } else {
                    assert(heads@[position as int].index == indexes@[i]);
                }
            }
        }
        position = position + 1;
    }
    assert(heads@.take(heads@.len() as int) =~= heads@);
    indexes
}

/// The public symbols of the global stream of a debug database, in stream
/// order; `None` where the database or the stream cannot be read.
pub open spec fn global_symbols(pdb_bytes: Seq<u8>) -> Option<Seq<DebugRecord>> {
    if is_wide_platform() {
        match pdb_global_heads(pdb_bytes) {
            Some(heads) => pdb_global_symbols(
                pdb_bytes,
                sought_indexes(heads, Sought::PublicSymbols),
            ),
            None => None,
        }
    } else {
        None
    }
}

/// The number of modules of a debug database; `None` where the database or
/// the list of its modules cannot be read.
pub open spec fn module_count(pdb_bytes: Seq<u8>) -> Option<usize> {
    if is_wide_platform() {
        pdb_module_count(pdb_bytes)
    } else {
        None
    }
}

/// The procedures of the module at position `module` of a debug database,
/// in stream order; `None` where there is no such module, it has no stream,
/// or the stream cannot be read.
pub open spec fn module_symbols(pdb_bytes: Seq<u8>, module: int) -> Option<Seq<DebugRecord>> {
    if is_wide_platform() {
        match pdb_module_heads(pdb_bytes, module) {
            Some(heads) => pdb_module_symbols(
                pdb_bytes,
                module,
                sought_indexes(heads, Sought::Procedures),
            ),
            None => None,
        }
    } else {
        None
    }
}

/// Reads the public symbols of the global stream of a debug database: walks
/// the stream, and has only the records decoded that describe a public
/// symbol.
pub fn read_global_symbols(pdb_bytes: &[u8]) -> (records: Option<Vec<DebugRecord>>)
    ensures
        match records {
            Some(list) => global_symbols(pdb_bytes@) == Some(list@),
            None => global_symbols(pdb_bytes@) is None,
        },
{
    if !on_wide_platform() {
        return None;
    }
    match parse_pdb_global_heads(pdb_bytes) {
        Some(heads) => {
            let indexes: Vec<u32> = select_indexes(&heads, Sought::PublicSymbols);
            parse_pdb_global_symbols(pdb_bytes, &indexes)
        },
        None => None,
    }
}

/// Reads the number of modules of a debug database.
pub fn read_module_count(pdb_bytes: &[u8]) -> (count: Option<usize>)
    ensures
        count == module_count(pdb_bytes@),
{
    if on_wide_platform() {
        parse_pdb_module_count(pdb_bytes)
    } else {
        None
    }
}

/// Reads the procedures of the module at position `module` of a debug
/// database: walks the module's stream, and has only the records decoded
/// that describe a procedure.
pub fn read_module_symbols(pdb_bytes: &[u8], module: usize) -> (records: Option<Vec<DebugRecord>>)
    ensures
        match records {
            Some(list) => module_symbols(pdb_bytes@, module as int) == Some(list@),
            None => module_symbols(pdb_bytes@, module as int) is None,
        },
{
    if !on_wide_platform() {
        return None;
    }
    match parse_pdb_module_heads(pdb_bytes, module) {
        Some(heads) => {
            let indexes: Vec<u32> = select_indexes(&heads, Sought::Procedures);
            parse_pdb_module_symbols(pdb_bytes, module, &indexes)
        },
        None => None,
    }
}

} // verus!
