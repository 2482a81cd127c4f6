//! What must hold of the bytes of an object file for its symbol table to be
//! read.

use vstd::prelude::*;

use crate::functions_utils::containers::is_wide_platform;

verus! {

/// The number of bytes of the header of an object file.
pub const OBJECT_HEADER_SIZE: usize = 20;

/// The number of bytes of one record of a symbol table.
pub const SYMBOL_SIZE: u64 = 18;

/// The least value of a length or an offset that counts the four bytes of
/// the length field of a string table.
pub const LENGTH_FIELD_SIZE: u64 = 4;

/// The 32-bit number that the four bytes at `at` spell, lowest byte first.
pub open spec fn le_u32(bytes: Seq<u8>, at: int) -> int {
    bytes[at] + 256 * bytes[at + 1] + 65536 * bytes[at + 2] + 16777216 * bytes[at + 3]
}

/// Reads the 32-bit number that the four bytes at `at` spell, lowest byte
/// first.
pub fn read_le_u32(bytes: &[u8], at: usize) -> (value: u64)
    requires
        at + 4 <= bytes@.len(),
    ensures
        value == le_u32(bytes@, at as int),
        value <= u32::MAX,
{
    bytes[at] as u64 + 256 * (bytes[at + 1] as u64) + 65536 * (bytes[at + 2] as u64) + 16777216
        * (bytes[at + 3] as u64)
}

/// The offset of the symbol table, as the header gives it; zero where the
/// file has none.
pub open spec fn symbol_table_offset(bytes: Seq<u8>) -> int {
    le_u32(bytes, 8)
}

/// The number of records of the symbol table, as the header gives it.
pub open spec fn symbol_count(bytes: Seq<u8>) -> int {
    le_u32(bytes, 12)
}

/// The offset of the string table: it follows the symbol table.
pub open spec fn string_table_offset(bytes: Seq<u8>) -> int {
    symbol_table_offset(bytes) + SYMBOL_SIZE * symbol_count(bytes)
}

/// Holds when the symbol record at position `index` of the table can be
/// named: its name does not start with a zero byte, or its string offset is
/// four or more.
pub open spec fn symbol_name_is_safe(bytes: Seq<u8>, index: int) -> bool {
    let record = symbol_table_offset(bytes) + SYMBOL_SIZE * index;
    bytes[record] != 0 || le_u32(bytes, record + 4) >= LENGTH_FIELD_SIZE
}

/// The position of the record that the walk of the symbol table visits
/// after the record at `index`: the auxiliary records that follow a record
/// are passed over.
pub open spec fn next_symbol(bytes: Seq<u8>, index: int) -> int {
    index + 1 + bytes[symbol_table_offset(bytes) + SYMBOL_SIZE * index + 17]
}

/// Holds when every symbol record that the walk of the symbol table visits
/// from position `index` on can be named.
pub open spec fn symbol_names_are_safe_from(bytes: Seq<u8>, index: int) -> bool
    decreases symbol_count(bytes) - index,
{
    if index < 0 || index >= symbol_count(bytes) {
        true
    } else {
        symbol_name_is_safe(bytes, index) && (next_symbol(bytes, index) >= symbol_count(bytes)
            || symbol_names_are_safe_from(bytes, next_symbol(bytes, index)))
    }
}

/// Holds of the bytes whose symbol table can be read: addresses are wide,
/// and either the reading stops before it computes with a length or an
/// offset (the header is cut short, the file has no symbol table, the
/// symbol table or the length field of the string table lies outside the
/// file), or the length of the string table is four or more and every
/// symbol record that is visited can be named.
pub open spec fn object_is_safe(bytes: Seq<u8>) -> bool {
    &&& is_wide_platform()
    &&& {
        ||| bytes.len() < OBJECT_HEADER_SIZE
        ||| symbol_table_offset(bytes) == 0
        ||| string_table_offset(bytes) + LENGTH_FIELD_SIZE > bytes.len()
        ||| le_u32(bytes, string_table_offset(bytes)) >= LENGTH_FIELD_SIZE
            && symbol_names_are_safe_from(bytes, 0)
    }
}

/// Tells whether addresses are wide.
pub fn on_wide_platform() -> (wide: bool)
    ensures
        wide == is_wide_platform(),
{
    usize::MAX as u64 >= 0xFFFF_FFFF_FFFF
}

/// Tells whether the symbol table of an object file can be read.
pub fn is_safe_object(bytes: &[u8]) -> (safe: bool)
    ensures
        safe == object_is_safe(bytes@),
{
    if !on_wide_platform() {
        return false;
    }
    if bytes.len() < OBJECT_HEADER_SIZE {
        return true;
    }
    let table: u64 = read_le_u32(bytes, 8);
    let count: u64 = read_le_u32(bytes, 12);
    if table == 0 {
        return true;
    }
    let strings: u64 = table + SYMBOL_SIZE * count;
    if strings + LENGTH_FIELD_SIZE > bytes.len() as u64 {
        return true;
    }
    if read_le_u32(bytes, strings as usize) < LENGTH_FIELD_SIZE {
        return false;
    }
    let mut index: u64 = 0;
    while index < count
        invariant
            is_wide_platform(),
            bytes@.len() >= OBJECT_HEADER_SIZE,
            table != 0,
            le_u32(bytes@, string_table_offset(bytes@)) >= LENGTH_FIELD_SIZE,
            index <= count,
            table == symbol_table_offset(bytes@),
            count == symbol_count(bytes@),
            count <= u32::MAX,
            table <= u32::MAX,
            table + SYMBOL_SIZE * count + LENGTH_FIELD_SIZE <= bytes@.len(),
            bytes@.len() <= usize::MAX,
            symbol_names_are_safe_from(bytes@, 0) == symbol_names_are_safe_from(
                bytes@,
                index as int,
            ),
        decreases count - index,
    {
        let record: usize = (table + SYMBOL_SIZE * index) as usize;
        if bytes[record] == 0 && read_le_u32(bytes, record + 4) < LENGTH_FIELD_SIZE {
            return false;
        }
        let next: u64 = index + 1 + bytes[record + 17] as u64;
        index = if next < count {
            next
        } else {
            count
        };
    }
    true
}

} // verus!
