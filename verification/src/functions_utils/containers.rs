//! Readers of the container formats: the plain records the extraction works
//! on, and the calls into the parsing crates that produce them.
//!
//! Nothing is proved of the parsing crates. A container the crate cannot
//! read comes back as an error value, which is handed on as `None`. What a
//! call returns for given bytes is known to the proofs by a name only.
//! Where a crate computes with what it reads before it has tested it, the
//! caller tests the bytes first and the call requires that test.

use goblin::archive::Member;
use goblin::pe::{Coff, PE};
use pdb::{FallibleIterator, StreamIndex, SymbolData, SymbolIndex, PDB as Database};
use std::io::Cursor;
use vstd::prelude::*;

use crate::functions_utils::databases::{database_is_safe, names_sought, Sought};
use crate::functions_utils::images::image_is_safe;
use crate::functions_utils::objects::object_is_safe;
use crate::functions_utils::sections::Section;

verus! {

/// One entry of the exception directory: the address range of a function.
#[derive(Clone, Copy, Debug, PartialEq, Eq, Structural)]
pub struct UnwindEntry {
    /// Relative virtual address of the function's first byte.
    pub begin_address: u32,
    /// Relative virtual address of the byte after the function's last.
    pub end_address: u32,
}

/// The section table `goblin` reads from an executable image, in file order;
/// `None` where it rejects the image.
pub uninterp spec fn pe_sections(bytes: Seq<u8>) -> Option<Seq<Section>>;

/// The entries `goblin` reads from the exception directory of an executable
/// image, in table order; `None` where it rejects the image or an entry.
pub uninterp spec fn pe_unwind_entries(bytes: Seq<u8>) -> Option<Seq<UnwindEntry>>;

/// Calls `goblin::pe::PE::parse` and copies the five fields of each entry of
/// the parsed image's `sections`. Where it looks an address up, the call
/// adds the 32-bit fields of a section, and, where its log is on, the
/// virtual address and size of a section in 32 bits; `image_is_safe` holds
/// only where addresses are wide and every virtual range ends within 32
/// bits. The result is a function of the bytes alone and is known here only
/// by its name, `pe_sections`.
#[verifier::external_body]
pub(crate) fn parse_pe_sections(bytes: &[u8]) -> (sections: Option<Vec<Section>>)
    requires
        image_is_safe(bytes@),
    ensures
        match sections {
            Some(table) => pe_sections(bytes@) == Some(table@),
            None => pe_sections(bytes@) is None,
        },
{
    let pe = PE::parse(bytes).ok()?;
    Some(pe.sections.iter().map(|s| Section {
        virtual_address: s.virtual_address,
        virtual_size: s.virtual_size,
        pointer_to_raw_data: s.pointer_to_raw_data,
        size_of_raw_data: s.size_of_raw_data,
        characteristics: s.characteristics,
    }).collect())
}

/// Calls `goblin::pe::PE::parse` and, where the image has exception data,
/// `ExceptionData::get_function` for each index below `ExceptionData::len`,
/// copying the two addresses of each entry. An image without exception data
/// gives the empty list. `image_is_safe` is required for what
/// `PE::parse` computes, as for `parse_pe_sections`. The result is a function
/// of the bytes alone and is known here only by its name,
/// `pe_unwind_entries`.
#[verifier::external_body]
pub(crate) fn parse_pe_unwind_entries(bytes: &[u8]) -> (entries: Option<Vec<UnwindEntry>>)
    requires
        image_is_safe(bytes@),
    ensures
        match entries {
            Some(table) => pe_unwind_entries(bytes@) == Some(table@),
            None => pe_unwind_entries(bytes@) is None,
        },
{
    let pe = PE::parse(bytes).ok()?;
    let mut entries = Vec::new();
    if let Some(data) = pe.exception_data {
        for index in 0..data.len() {
            let function = data.get_function(index).ok()?;
            entries.push(UnwindEntry {
                begin_address: function.begin_address,
                end_address: function.end_address,
            });
        }
    }
    Some(entries)
}

/// One entry of the export table of an image.
#[derive(Clone, Debug, PartialEq, Eq)]
pub struct ExportEntry {
    /// Relative virtual address of the exported item.
    pub rva: usize,
    /// The name the item is exported under, where it has one.
    pub name: Option<String>,
}

/// The export table `goblin` reads from an executable image, in table order;
/// `None` where it rejects the image.
pub uninterp spec fn pe_exports(bytes: Seq<u8>) -> Option<Seq<ExportEntry>>;

/// Calls `goblin::pe::PE::parse` and copies `rva` and `name` of each entry of
/// the parsed image's `exports`. `image_is_safe` is required for what
/// `PE::parse` computes, as for `parse_pe_sections`. The result is a function
/// of the bytes alone and is known here only by its name, `pe_exports`.
#[verifier::external_body]
pub(crate) fn parse_pe_exports(bytes: &[u8]) -> (exports: Option<Vec<ExportEntry>>)
    requires
        image_is_safe(bytes@),
    ensures
        match exports {
            Some(table) => pe_exports(bytes@) == Some(table@),
            None => pe_exports(bytes@) is None,
        },
{
    let pe = PE::parse(bytes).ok()?;
    Some(pe.exports.iter().map(|e| ExportEntry {
        rva: e.rva,
        name: e.name.map(String::from),
    }).collect())
}

/// The place of a member in a library archive.
#[derive(Clone, Copy, Debug, PartialEq, Eq, Structural)]
pub struct MemberRange {
    /// Offset of the member's first byte in the archive.
    pub offset: usize,
    /// Number of bytes the member holds.
    pub size: usize,
}

/// One entry of the symbol table of an object file.
#[derive(Clone, Debug, PartialEq, Eq)]
pub struct ObjectSymbol {
    /// The symbol's name, where the object file gives it one that can be
    /// read.
    pub name: Option<String>,
    /// The position of the symbol's section in the section table, counted
    /// from one; zero or less for a symbol without a section.
    pub section_number: i16,
    /// Whether the symbol defines a function.
    pub is_function_definition: bool,
}

/// The header of a member of a library archive.
#[derive(Clone, Debug, PartialEq, Eq)]
pub struct MemberHeader {
    /// The sixteen bytes of the member's identifier, as the archive holds
    /// them.
    pub raw_name: Vec<u8>,
    /// The member's name: the name stored after the header, where the
    /// identifier points to one, and the identifier without its padding
    /// otherwise.
    pub extended_name: Vec<u8>,
    /// Offset of the member's first byte in the archive.
    pub offset: usize,
    /// Number of bytes the member holds.
    pub size: usize,
}

/// Holds where addresses have forty-eight bits or more, so that the sums of
/// the 32-bit fields of a container cannot overflow.
pub open spec fn is_wide_platform() -> bool {
    usize::MAX >= 0xFFFF_FFFF_FFFF
}

/// The member header `goblin` reads at `offset` of a library archive;
/// `None` where it finds none.
pub uninterp spec fn archive_member_at(bytes: Seq<u8>, offset: int) -> Option<MemberHeader>;

/// The section table `goblin` reads from an object file, in file order;
/// `None` where it rejects the file.
pub uninterp spec fn object_sections(bytes: Seq<u8>) -> Option<Seq<Section>>;

/// The symbol table `goblin` reads from an object file, in table order and
/// without auxiliary records; `None` where it rejects the file. A file
/// without a symbol table gives the empty list.
pub uninterp spec fn object_symbols(bytes: Seq<u8>) -> Option<Seq<ObjectSymbol>>;

/// Calls `goblin::archive::Member::parse` at `offset` and copies the
/// member's `raw_name`, `extended_name`, `offset` and `size()`. The call
/// reads the sixty bytes of the header before it moves on, so the member
/// starts sixty bytes or more after `offset`. It adds lengths of up to
/// thirteen decimal digits to offsets, which does not overflow where
/// addresses are wide. The result is a function of the bytes and the offset
/// alone and is known here only by its name, `archive_member_at`.
#[verifier::external_body]
pub(crate) fn parse_archive_member(bytes: &[u8], offset: usize) -> (member: Option<MemberHeader>)
    requires
        is_wide_platform(),
    ensures
        member == archive_member_at(bytes@, offset as int),
        member matches Some(header) ==> header.offset >= offset + 60,
{
    let mut cursor = offset;
    let member = Member::parse(bytes, &mut cursor).ok()?;
    Some(MemberHeader {
        raw_name: member.raw_name().as_bytes().to_vec(),
        extended_name: member.extended_name().as_bytes().to_vec(),
        offset: member.offset as usize,
        size: member.size(),
    })
}

/// Calls `goblin::pe::Coff::parse` and copies the five fields of each entry
/// of the parsed file's `sections`. The call subtracts four from the length
/// field of the string table; `object_is_safe` holds only where that field,
/// if the call gets to read it, is four or more. The result is a function of
/// the bytes alone and is known here only by its name, `object_sections`.
#[verifier::external_body]
pub(crate) fn parse_object_sections(bytes: &[u8]) -> (sections: Option<Vec<Section>>)
    requires
        object_is_safe(bytes@),
    ensures
        match sections {
            Some(table) => object_sections(bytes@) == Some(table@),
            None => object_sections(bytes@) is None,
        },
{
    let object = Coff::parse(bytes).ok()?;
    Some(object.sections.iter().map(|s| Section {
        virtual_address: s.virtual_address,
        virtual_size: s.virtual_size,
        pointer_to_raw_data: s.pointer_to_raw_data,
        size_of_raw_data: s.size_of_raw_data,
        characteristics: s.characteristics,
    }).collect())
}

/// Calls `goblin::pe::Coff::parse` and walks the parsed file's symbol table
/// with `SymbolTable::iter`, taking of each symbol its `name` in the file's
/// string table (none where the name cannot be read), its `section_number`
/// and what `Symbol::is_function_definition` says. Besides what
/// `Coff::parse` does, `Symbol::name` subtracts four from the string offset
/// of a symbol whose name starts with a zero byte; `object_is_safe` holds
/// only where that offset is four or more for every symbol the walk visits.
/// The result is a function of the bytes alone and is known here only by its
/// name, `object_symbols`.
#[verifier::external_body]
pub(crate) fn parse_object_symbols(bytes: &[u8]) -> (symbols: Option<Vec<ObjectSymbol>>)
    requires
        object_is_safe(bytes@),
    ensures
        match symbols {
            Some(table) => object_symbols(bytes@) == Some(table@),
            None => object_symbols(bytes@) is None,
        },
{
    let object = Coff::parse(bytes).ok()?;
    let mut symbols = Vec::new();
    if let (Some(table), Some(strings)) = (&object.symbols, &object.strings) {
        for (_, _, symbol) in table.iter() {
            symbols.push(ObjectSymbol {
                name: symbol.name(strings).ok().map(String::from),
                section_number: symbol.section_number,
                is_function_definition: symbol.is_function_definition(),
            });
        }
    }
    Some(symbols)
}

/// The place of one record in a symbol stream of a debug database.
#[derive(Clone, Copy, Debug, PartialEq, Eq, Structural)]
pub struct RecordHead {
    /// The offset of the record in its stream.
    pub index: u32,
    /// The number that tells what the record describes.
    pub kind: u16,
}

/// What a debug database says of one symbol.
#[derive(Clone, Debug, PartialEq, Eq)]
pub enum DebugRecord {
    /// The position of the symbol's section in the database's section list,
    /// counted from one, the symbol's offset from the start of that section,
    /// and its name.
    Symbol(u16, u32, String),
    /// A record the reader could not decode.
    Unreadable,
}

/// The bytes `pdb` finds in the stream of a debug database that bears the
/// number `index`; `None` where it rejects the database or finds no such
/// stream.
pub uninterp spec fn pdb_stream(pdb_bytes: Seq<u8>, index: u16) -> Option<Seq<u8>>;

/// The section headers `pdb` reads from a debug database, in stream order;
/// `None` where it rejects the database or the database has none.
pub uninterp spec fn pdb_sections(pdb_bytes: Seq<u8>) -> Option<Seq<Section>>;

/// The places of the records `pdb` walks in the global symbol stream of a
/// debug database, in stream order; `None` where it rejects the database or
/// the stream.
pub uninterp spec fn pdb_global_heads(pdb_bytes: Seq<u8>) -> Option<Seq<RecordHead>>;

/// What `pdb` reads as public symbols at the given offsets of the global
/// symbol stream of a debug database, in the order of the offsets; `None`
/// where it rejects the database or finds no record at an offset.
pub uninterp spec fn pdb_global_symbols(pdb_bytes: Seq<u8>, indexes: Seq<u32>) -> Option<
    Seq<DebugRecord>,
>;

/// The number of modules `pdb` lists in a debug database; `None` where it
/// rejects the database or the list.
pub uninterp spec fn pdb_module_count(pdb_bytes: Seq<u8>) -> Option<usize>;

/// The places of the records `pdb` walks in the symbol stream of the module
/// at position `module` of a debug database, in stream order; `None` where
/// there is no such module, the module has no symbol stream, or `pdb`
/// rejects the database or the stream.
pub uninterp spec fn pdb_module_heads(pdb_bytes: Seq<u8>, module: int) -> Option<
    Seq<RecordHead>,
>;

/// What `pdb` reads as procedure symbols at the given offsets of the symbol
/// stream of the module at position `module` of a debug database, in the
/// order of the offsets; `None` where there is no such module or stream, or
/// `pdb` finds no record at an offset.
pub uninterp spec fn pdb_module_symbols(pdb_bytes: Seq<u8>, module: int, indexes: Seq<u32>)
    -> Option<Seq<DebugRecord>>;

/// Calls `pdb::PDB::open` on the bytes and `PDB::raw_stream`, and copies the
/// bytes of the stream (`Stream::as_slice`). To find a stream, `pdb` counts
/// pages and bytes in machine words from 32-bit sizes, as it does in every
/// call made here; wide addresses are required for that. The result is a
/// function of the bytes and the number alone and is known here only by its
/// name, `pdb_stream`.
#[verifier::external_body]
pub(crate) fn read_pdb_stream(pdb_bytes: &[u8], index: u16) -> (stream: Option<Vec<u8>>)
    requires
        is_wide_platform(),
    ensures
        match stream {
            Some(content) => pdb_stream(pdb_bytes@, index) == Some(content@),
            None => pdb_stream(pdb_bytes@, index) is None,
        },
{
    let mut database = Database::open(Cursor::new(pdb_bytes)).ok()?;
    Some(database.raw_stream(StreamIndex(index)).ok()??.as_slice().to_vec())
}

/// Calls `pdb::PDB::open` on the bytes and `PDB::sections`, and copies the
/// five fields of each header. To find the stream of the headers, the call
/// adds six sizes of the head of the debug information stream in 32 bits
/// and the length of that head to their sum; `database_is_safe` holds only
/// where neither sum passes its limit. The result is a function of the
/// bytes alone and is known here only by its name, `pdb_sections`.
#[verifier::external_body]
pub(crate) fn parse_pdb_sections(pdb_bytes: &[u8]) -> (sections: Option<Vec<Section>>)
    requires
        database_is_safe(pdb_bytes@),
    ensures
        match sections {
            Some(table) => pdb_sections(pdb_bytes@) == Some(table@),
            None => pdb_sections(pdb_bytes@) is None,
        },
{
    let mut database = Database::open(Cursor::new(pdb_bytes)).ok()?;
    let headers = database.sections().ok()??;
    Some(headers.iter().map(|h| Section {
        virtual_address: h.virtual_address,
        virtual_size: h.virtual_size,
        pointer_to_raw_data: h.pointer_to_raw_data,
        size_of_raw_data: h.size_of_raw_data,
        characteristics: h.characteristics.0,
    }).collect())
}

/// Calls `pdb::PDB::open` on the bytes, `PDB::global_symbols`, and walks the
/// table with `SymbolIter::next`, copying `Symbol::index` and
/// `Symbol::raw_kind` of each item; no record is decoded. The result is a
/// function of the bytes alone and is known here only by its name,
/// `pdb_global_heads`.
#[verifier::external_body]
pub(crate) fn parse_pdb_global_heads(pdb_bytes: &[u8]) -> (heads: Option<Vec<RecordHead>>)
    requires
        is_wide_platform(),
    ensures
        match heads {
            Some(list) => pdb_global_heads(pdb_bytes@) == Some(list@),
            None => pdb_global_heads(pdb_bytes@) is None,
        },
{
    let mut database = Database::open(Cursor::new(pdb_bytes)).ok()?;
    let table = database.global_symbols().ok()?;
    let mut symbols = table.iter();
    let mut heads = Vec::new();
    while let Some(symbol) = symbols.next().ok()? {
        heads.push(RecordHead { index: symbol.index().0, kind: symbol.raw_kind() });
    }
    Some(heads)
}

/// Calls `pdb::PDB::open` on the bytes and `PDB::global_symbols`, and for
/// each offset takes the record there (`SymbolTable::iter_at`,
/// `SymbolIter::next`) and calls `Symbol::parse` on it. A public symbol
/// gives its section, offset and name; a record that does not parse gives
/// `Unreadable`. `Symbol::parse` is kept to records the walk of the stream
/// found with the kind of a public symbol: decoding such a record reads
/// three numbers and a name and nothing else. The result is a function of
/// the bytes and the offsets alone and is known here only by its name,
/// `pdb_global_symbols`.
#[verifier::external_body]
pub(crate) fn parse_pdb_global_symbols(pdb_bytes: &[u8], indexes: &Vec<u32>) -> (records: Option<
    Vec<DebugRecord>,
>)
    requires
        is_wide_platform(),
        pdb_global_heads(pdb_bytes@) is Some,
        forall|i: int|
            0 <= i < indexes@.len() ==> names_sought(
                pdb_global_heads(pdb_bytes@).unwrap(),
                #[trigger] indexes@[i],
                Sought::PublicSymbols,
            ),
    ensures
        match records {
            Some(list) => pdb_global_symbols(pdb_bytes@, indexes@) == Some(list@),
            None => pdb_global_symbols(pdb_bytes@, indexes@) is None,
        },
{
    let mut database = Database::open(Cursor::new(pdb_bytes)).ok()?;
    let table = database.global_symbols().ok()?;
    let mut records = Vec::new();
    for index in indexes.iter() {
        let symbol = table.iter_at(SymbolIndex(*index)).next().ok()??;
        records.push(match symbol.parse() {
            Ok(SymbolData::Public(s)) => DebugRecord::Symbol(s.offset.section, s.offset.offset, s.name.to_string().into()),
            _ => DebugRecord::Unreadable,
        });
    }
    Some(records)
}

/// Calls `pdb::PDB::open` on the bytes, `PDB::debug_information` and
/// `DebugInformation::modules`, and counts the items of the list. The result
/// is a function of the bytes alone and is known here only by its name,
/// `pdb_module_count`.
#[verifier::external_body]
pub(crate) fn parse_pdb_module_count(pdb_bytes: &[u8]) -> (count: Option<usize>)
    requires
        is_wide_platform(),
    ensures
        count == pdb_module_count(pdb_bytes@),
{
    let mut database = Database::open(Cursor::new(pdb_bytes)).ok()?;
    database.debug_information().ok()?.modules().ok()?.count().ok()
}

/// Calls `pdb::PDB::open` on the bytes, `PDB::debug_information` and
/// `DebugInformation::modules`, takes the module at position `module`, and
/// walks its stream (`PDB::module_info`, `ModuleInfo::symbols`) with
/// `SymbolIter::next`, copying `Symbol::index` and `Symbol::raw_kind` of
/// each item; no record is decoded. The result is a function of the bytes
/// and the position alone and is known here only by its name,
/// `pdb_module_heads`.
#[verifier::external_body]
pub(crate) fn parse_pdb_module_heads(pdb_bytes: &[u8], module: usize) -> (heads: Option<
    Vec<RecordHead>,
>)
    requires
        is_wide_platform(),
    ensures
        match heads {
            Some(list) => pdb_module_heads(pdb_bytes@, module as int) == Some(list@),
            None => pdb_module_heads(pdb_bytes@, module as int) is None,
        },
{
    let mut database = Database::open(Cursor::new(pdb_bytes)).ok()?;
    let information = database.debug_information().ok()?;
    let entry = information.modules().ok()?.nth(module).ok()??;
    let info = database.module_info(&entry).ok()??;
    let mut symbols = info.symbols().ok()?;
    let mut heads = Vec::new();
    while let Some(symbol) = symbols.next().ok()? {
        heads.push(RecordHead { index: symbol.index().0, kind: symbol.raw_kind() });
    }
    Some(heads)
}

/// Calls `pdb::PDB::open` on the bytes, `PDB::debug_information` and
/// `DebugInformation::modules`, takes the module at position `module` and
/// its stream (`PDB::module_info`), and for each offset takes the record
/// there (`ModuleInfo::symbols_at`, `SymbolIter::next`) and calls
/// `Symbol::parse` on it. A procedure symbol gives its section, offset and
/// name; a record that does not parse gives `Unreadable`. `Symbol::parse` is
/// kept to records the walk of the stream found with the kind of a
/// procedure: decoding such a record reads numbers and a name and nothing
/// else. The result is a function of the bytes, the position and the
/// offsets alone and is known here only by its name, `pdb_module_symbols`.
#[verifier::external_body]
pub(crate) fn parse_pdb_module_symbols(pdb_bytes: &[u8], module: usize, indexes: &Vec<u32>) -> (records:
    Option<Vec<DebugRecord>>)
    requires
        is_wide_platform(),
        pdb_module_heads(pdb_bytes@, module as int) is Some,
        forall|i: int|
            0 <= i < indexes@.len() ==> names_sought(
                pdb_module_heads(pdb_bytes@, module as int).unwrap(),
                #[trigger] indexes@[i],
                Sought::Procedures,
            ),
    ensures
        match records {
            Some(list) => pdb_module_symbols(pdb_bytes@, module as int, indexes@) == Some(list@),
            None => pdb_module_symbols(pdb_bytes@, module as int, indexes@) is None,
        },
{
    let mut database = Database::open(Cursor::new(pdb_bytes)).ok()?;
    let information = database.debug_information().ok()?;
    let entry = information.modules().ok()?.nth(module).ok()??;
    let info = database.module_info(&entry).ok()??;
    let mut records = Vec::new();
    for index in indexes.iter() {
        let symbol = info.symbols_at(SymbolIndex(*index)).ok()?.next().ok()??;
        records.push(match symbol.parse() {
            Ok(SymbolData::Procedure(s)) => DebugRecord::Symbol(s.offset.section, s.offset.offset, s.name.to_string().into()),
            _ => DebugRecord::Unreadable,
        });
    }
    Some(records)
}

} // verus!
