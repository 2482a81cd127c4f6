//! What must hold of the bytes of an executable image for it to be read, and
//! the tables read from it.

use vstd::prelude::*;

use crate::functions_utils::containers::{
    is_wide_platform, parse_pe_exports, parse_pe_sections, parse_pe_unwind_entries, pe_exports,
    pe_sections, pe_unwind_entries, ExportEntry, UnwindEntry,
};
use crate::functions_utils::objects::{le_u32, on_wide_platform, read_le_u32};
use crate::functions_utils::sections::Section;

verus! {

/// Where the first header holds the offset of the second.
pub const HEADER_POINTER_OFFSET: usize = 0x3c;

/// The number of bytes from the second header to the optional header: the
/// signature and the file header.
pub const FILE_HEADER_END: u64 = 24;

/// The number of bytes of one entry of the section table.
pub const SECTION_ENTRY_SIZE: u64 = 40;

/// The 16-bit number that the two bytes at `at` spell, lowest byte first.
pub open spec fn le_u16(bytes: Seq<u8>, at: int) -> int {
    bytes[at] + 256 * bytes[at + 1]
}

/// Reads the 16-bit number that the two bytes at `at` spell, lowest byte
/// first.
pub fn read_le_u16(bytes: &[u8], at: usize) -> (value: u64)
    requires
        at + 2 <= bytes@.len(),
    ensures
        value == le_u16(bytes@, at as int),
        value <= u16::MAX,
{
    bytes[at] as u64 + 256 * (bytes[at + 1] as u64)
}

/// The offset of the second header, as the first gives it.
pub open spec fn header_offset(bytes: Seq<u8>) -> int {
    le_u32(bytes, HEADER_POINTER_OFFSET as int)
}

/// The number of sections, as the file header gives it.
pub open spec fn section_count(bytes: Seq<u8>) -> int {
    le_u16(bytes, header_offset(bytes) + 6)
}

/// The offset of the section table: it follows the optional header.
pub open spec fn section_table_offset(bytes: Seq<u8>) -> int {
    header_offset(bytes) + FILE_HEADER_END + le_u16(bytes, header_offset(bytes) + 20)
}

/// Holds when the virtual range of the section at position `index` of the
/// table ends within 32 bits.
pub open spec fn section_range_is_safe(bytes: Seq<u8>, index: int) -> bool {
    let entry = section_table_offset(bytes) + SECTION_ENTRY_SIZE * index;
    le_u32(bytes, entry + 8) + le_u32(bytes, entry + 12) <= u32::MAX
}

/// Holds of the bytes that can be read as an image: addresses are wide, and
/// either the reading stops before the section table is complete (a header
/// or the table lies outside the file), or the virtual range of every
/// section ends within 32 bits.
pub open spec fn image_is_safe(bytes: Seq<u8>) -> bool {
    &&& is_wide_platform()
    &&& {
        ||| bytes.len() < HEADER_POINTER_OFFSET + 4
        ||| header_offset(bytes) + FILE_HEADER_END > bytes.len()
        ||| section_table_offset(bytes) + SECTION_ENTRY_SIZE * section_count(bytes) > bytes.len()
        ||| forall|index: int|
            0 <= index < section_count(bytes) ==> #[trigger] section_range_is_safe(bytes, index)
    }
}

/// Tells whether the bytes can be read as an image.
pub fn is_safe_image(bytes: &[u8]) -> (safe: bool)
    ensures
        safe == image_is_safe(bytes@),
{
    if !on_wide_platform() {
        return false;
    }
    if bytes.len() < HEADER_POINTER_OFFSET + 4 {
        return true;
    }
    let length: u64 = bytes.len() as u64;
    let header: u64 = read_le_u32(bytes, HEADER_POINTER_OFFSET);
    if header + FILE_HEADER_END > length {
        return true;
    }
    let count: u64 = read_le_u16(bytes, (header + 6) as usize);
    let table: u64 = header + FILE_HEADER_END + read_le_u16(bytes, (header + 20) as usize);
    if table + SECTION_ENTRY_SIZE * count > length {
        return true;
    }
    let mut index: u64 = 0;
    while index < count
        invariant
            index <= count,
            count == section_count(bytes@),
            table == section_table_offset(bytes@),
            table + SECTION_ENTRY_SIZE * count <= bytes@.len(),
            bytes@.len() <= usize::MAX,
            forall|i: int| 0 <= i < index ==> #[trigger] section_range_is_safe(bytes@, i),
        decreases count - index,
    {
        let entry: usize = (table + SECTION_ENTRY_SIZE * index) as usize;
        if read_le_u32(bytes, entry + 8) + read_le_u32(bytes, entry + 12) > u32::MAX as u64 {
            assert(!section_range_is_safe(bytes@, index as int));
            return false;
        }
        index = index + 1;
    }
    true
}

/// The section table of an image; `None` where the image cannot be read.
pub open spec fn image_sections(bytes: Seq<u8>) -> Option<Seq<Section>> {
    if image_is_safe(bytes) {
        pe_sections(bytes)
    } else {
        None
    }
}

/// The unwind entries of an image; `None` where the image cannot be read.
pub open spec fn image_unwind_entries(bytes: Seq<u8>) -> Option<Seq<UnwindEntry>> {
    if image_is_safe(bytes) {
        pe_unwind_entries(bytes)
    } else {
        None
    }
}

/// The export table of an image; `None` where the image cannot be read.
pub open spec fn image_exports(bytes: Seq<u8>) -> Option<Seq<ExportEntry>> {
    if image_is_safe(bytes) {
        pe_exports(bytes)
    } else {
        None
    }
}

/// Reads the section table of an image.
pub fn read_image_sections(bytes: &[u8]) -> (sections: Option<Vec<Section>>)
    ensures
        match sections {
            Some(table) => image_sections(bytes@) == Some(table@),
            None => image_sections(bytes@) is None,
        },
{
    if is_safe_image(bytes) {
        parse_pe_sections(bytes)
    } else {
        None
    }
}

/// Reads the unwind entries of an image.
pub fn read_image_unwind_entries(bytes: &[u8]) -> (entries: Option<Vec<UnwindEntry>>)
    ensures
        match entries {
            Some(table) => image_unwind_entries(bytes@) == Some(table@),
            None => image_unwind_entries(bytes@) is None,
        },
{
    if is_safe_image(bytes) {
        parse_pe_unwind_entries(bytes)
    } else {
        None
    }
}

/// Reads the export table of an image.
pub fn read_image_exports(bytes: &[u8]) -> (exports: Option<Vec<ExportEntry>>)
    ensures
        match exports {
            Some(table) => image_exports(bytes@) == Some(table@),
            None => image_exports(bytes@) is None,
        },
{
    if is_safe_image(bytes) {
        parse_pe_exports(bytes)
    } else {
        None
    }
}

} // verus!
