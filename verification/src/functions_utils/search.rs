//! Function extraction from a target image, a library archive and a debug
//! database.

use vstd::prelude::*;
use vstd::slice::slice_subrange;

use crate::functions_utils::archive::{archive_members, find_archive_members};
use crate::functions_utils::containers::{
    object_sections, object_symbols, parse_object_sections, parse_object_symbols, DebugRecord,
    MemberRange, ObjectSymbol, UnwindEntry,
};
use crate::functions_utils::databases::{
    database_sections, global_symbols, module_count, module_symbols, read_database_sections,
    read_global_symbols, read_module_count, read_module_symbols,
};
use crate::functions_utils::debug_symbols::{
    arrange_symbols, arranged, debug_functions, functions_from_debug_symbols, place_records,
    placements, PlacedSymbol,
};
use crate::functions_utils::images::{
    image_sections, image_unwind_entries, read_image_sections, read_image_unwind_entries,
};
use crate::functions_utils::objects::{is_safe_object, object_is_safe};
pub use crate::functions_utils::sections::rva_to_pa;
use crate::functions_utils::sections::{spec_rva_to_pa, Section};
use crate::ArianeError;

verus! {

/// Where a function body was found.
#[derive(Clone, Copy, Debug, PartialEq, Eq, PartialOrd, Ord, Structural)]
pub enum FunctionType {
    /// In a debug database built beside a library.
    Pdb,
    /// In a member of a library archive.
    Lib,
    /// In the target executable.
    Exe,
}

/// A function body, borrowed from the buffer it was found in.
#[derive(Clone, Debug, PartialEq, Eq, PartialOrd, Ord)]
pub struct Function<'data> {
    /// The bytes of the body.
    pub data: &'data [u8],
    /// The function's name, where one is known.
    pub name: Option<String>,
    /// The relative virtual address of the body. It is meaningful for
    /// `FunctionType::Exe` only.
    pub rva: u32,
    /// Where the body was found.
    pub fn_type: FunctionType,
}

/// What a `Function` stands for in contracts.
pub struct FunctionView {
    pub data: Seq<u8>,
    pub name: Option<Seq<char>>,
    pub rva: u32,
    pub fn_type: FunctionType,
}

/// The view of an optional name.
pub open spec fn name_view(name: Option<String>) -> Option<Seq<char>> {
    match name {
        Some(text) => Some(text@),
        None => None,
    }
}

impl<'data> View for Function<'data> {
    type V = FunctionView;

    open spec fn view(&self) -> FunctionView {
        FunctionView {
            data: self.data@,
            name: name_view(self.name),
            rva: self.rva,
            fn_type: self.fn_type,
        }
    }
}

impl<'data> Function<'data> {
    /// An equal function over the same bytes, with a name of its own.
    pub fn duplicate(&self) -> (copy: Function<'data>)
        ensures
            copy@ == self@,
    {
        Function {
            data: self.data,
            name: match &self.name {
                Some(text) => Some(text.clone()),
                None => None,
            },
            rva: self.rva,
            fn_type: self.fn_type,
        }
    }
}

/// The views of a list of functions, in order.
pub open spec fn function_views(functions: Seq<Function>) -> Seq<FunctionView> {
    functions.map_values(|f: Function| f@)
}

/// The byte compilers emit between functions.
pub const PADDING_BYTE: u8 = 0xCC;

/// The default for the smallest body worth keeping.
pub const DEFAULT_MIN_FUNCTION_SIZE: usize = 20;

/// Holds when the bytes of `s` from position `k` on look like inter-function
/// padding: up to three bytes follow `k`, and each of them is a padding byte.
pub open spec fn padding_from(s: Seq<u8>, k: int) -> bool {
    &&& 0 <= k <= s.len()
    &&& (k < s.len() ==> s[k] == PADDING_BYTE)
    &&& (k + 1 < s.len() ==> s[k + 1] == PADDING_BYTE)
    &&& (k + 2 < s.len() ==> s[k + 2] == PADDING_BYTE)
}

/// Holds when `size` is the size the padding rule gives to a candidate body:
/// the first position from which padding starts.
pub open spec fn is_trimmed_size(s: Seq<u8>, size: int) -> bool {
    &&& padding_from(s, size)
    &&& forall|k: int| 0 <= k < size ==> !padding_from(s, k)
}

/// The size the padding rule gives to a candidate body.
pub open spec fn trimmed_size(s: Seq<u8>) -> int {
    choose|size: int| is_trimmed_size(s, size)
}

/// Guesses the size of the function at the start of `function_bytes`: the
/// position of the first run of three padding bytes, or, where there is none,
/// the length of the slice less the padding bytes that end it.
pub fn guess_function_size(function_bytes: &[u8]) -> (size: usize)
    ensures
        size <= function_bytes@.len(),
        is_trimmed_size(function_bytes@, size as int),
        size == trimmed_size(function_bytes@),
{
    let mut padding_bytes: usize = 0;
    let mut position: usize = 0;
    while position < function_bytes.len()
        invariant
            position <= function_bytes@.len(),
            padding_bytes <= 2,
            padding_bytes <= position,
            forall|j: int|
                position - padding_bytes <= j < position ==> function_bytes@[j] == PADDING_BYTE,
            padding_bytes < position ==> function_bytes@[position - padding_bytes - 1]
                != PADDING_BYTE,
            forall|k: int| 0 <= k < position - padding_bytes ==> !padding_from(function_bytes@, k),
        decreases function_bytes@.len() - position,
    {
        if function_bytes[position] == PADDING_BYTE {
            padding_bytes = padding_bytes + 1;
        } else {
            padding_bytes = 0;
        }
        position = position + 1;
        if padding_bytes > 2 {
            proof {
                assert(is_trimmed_size(function_bytes@, position - 3));
                lemma_trimmed_size_unique(
                    function_bytes@,
                    position - 3,
                    trimmed_size(function_bytes@),
                );
            }
            return position - 3;
        }
    }
    proof {
        assert(is_trimmed_size(function_bytes@, position - padding_bytes));
        lemma_trimmed_size_unique(
            function_bytes@,
            position - padding_bytes,
            trimmed_size(function_bytes@),
        );
    }
    position - padding_bytes
}

/// A body made of padding bytes alone has size zero.
pub proof fn lemma_padding_only_body_is_empty(s: Seq<u8>, size: int)
    requires
        is_trimmed_size(s, size),
        forall|i: int| 0 <= i < s.len() ==> s[i] == PADDING_BYTE,
    ensures
        size == 0,
{
    assert(padding_from(s, 0));
}

/// The size the padding rule reports is unique, never negative and never more
/// than the body holds.
pub proof fn lemma_trimmed_size_unique(s: Seq<u8>, a: int, b: int)
    requires
        is_trimmed_size(s, a),
        is_trimmed_size(s, b),
    ensures
        a == b,
        0 <= a <= s.len(),
{
}

/// The file range of an unwind entry: both ends translate, the sum of the
/// two offsets is below the file size, and the range is not inverted.
pub open spec fn unwind_entry_range(
    sections: Seq<Section>,
    file_len: int,
    entry: UnwindEntry,
) -> Option<(int, int)> {
    match (
        spec_rva_to_pa(sections, entry.begin_address),
        spec_rva_to_pa(sections, entry.end_address),
    ) {
        (Some(start_pa), Some(end_pa)) => if start_pa + end_pa < file_len && start_pa <= end_pa {
            Some((start_pa as int, end_pa as int))
        } else {
            None
        },
        _ => None,
    }
}

/// The function an unwind entry stands for, where it has a file range.
pub open spec fn unwind_entry_function(
    file: Seq<u8>,
    sections: Seq<Section>,
    entry: UnwindEntry,
) -> Option<FunctionView> {
    match unwind_entry_range(sections, file.len() as int, entry) {
        Some((start_pa, end_pa)) => Some(
            FunctionView {
                data: file.subrange(start_pa, end_pa),
                name: None,
                rva: entry.begin_address,
                fn_type: FunctionType::Exe,
            },
        ),
        None => None,
    }
}

/// The functions the unwind entries of a target stand for, in table order.
pub open spec fn unwind_functions(
    file: Seq<u8>,
    sections: Seq<Section>,
    entries: Seq<UnwindEntry>,
) -> Seq<FunctionView> {
    entries.filter_map(|entry: UnwindEntry| unwind_entry_function(file, sections, entry))
}

/// Turns the unwind entries of a target into functions. An entry is kept
/// where both of its ends translate to file offsets, the sum of the two
/// offsets is below the file size and the start is not after the end; the
/// function then starts at the entry's begin address and holds the bytes
/// between the two offsets. Other entries are passed over.
pub fn functions_from_unwind_entries<'data>(
    file: &'data [u8],
    sections: &Vec<Section>,
    entries: &Vec<UnwindEntry>,
) -> (functions: Vec<Function<'data>>)
    ensures
        function_views(functions@) == unwind_functions(file@, sections@, entries@),
{
    let ghost keep = |entry: UnwindEntry| unwind_entry_function(file@, sections@, entry);
    let mut functions: Vec<Function<'data>> = Vec::new();
    let mut index: usize = 0;
    while index < entries.len()
        invariant
            index <= entries@.len(),
            keep == |entry: UnwindEntry| unwind_entry_function(file@, sections@, entry),
            function_views(functions@) == entries@.take(index as int).filter_map(keep),
        decreases entries@.len() - index,
    {
        let entry: UnwindEntry = entries[index];
        proof {
            entries@.lemma_filter_map_take_succ(keep, index as int);
        }
        let ghost before = functions@;
        if let Some(start_pa) = rva_to_pa(sections, entry.begin_address) {
            if let Some(end_pa) = rva_to_pa(sections, entry.end_address) {
                if (start_pa as u64) + (end_pa as u64) < file.len() as u64 && start_pa <= end_pa {
                    functions.push(
                        Function {
                            rva: entry.begin_address,
                            data: slice_subrange(file, start_pa as usize, end_pa as usize),
                            name: None,
                            fn_type: FunctionType::Exe,
                        },
                    );
                    assert(function_views(functions@) =~= function_views(before).push(
                        keep(entry).unwrap(),
                    ));
                }
            }
        }
        index = index + 1;
    }
    assert(entries@.take(entries@.len() as int) =~= entries@);
    functions
}

/// The functions of `functions` whose body holds at least `min_fn_size`
/// bytes, in order.
pub open spec fn of_min_size(functions: Seq<FunctionView>, min_fn_size: usize) -> Seq<
    FunctionView,
> {
    functions.filter(|f: FunctionView| f.data.len() >= min_fn_size)
}

/// Keeps the functions whose body holds at least `min_fn_size` bytes.
pub fn retain_min_size<'data>(functions: &Vec<Function<'data>>, min_fn_size: usize) -> (kept: Vec<
    Function<'data>,
>)
    ensures
        function_views(kept@) == of_min_size(function_views(functions@), min_fn_size),
{
    let ghost large = |f: FunctionView| f.data.len() >= min_fn_size;
    let ghost views = function_views(functions@);
    let mut kept: Vec<Function<'data>> = Vec::new();
    let mut index: usize = 0;
    while index < functions.len()
        invariant
            index <= functions@.len(),
            views == function_views(functions@),
            large == |f: FunctionView| f.data.len() >= min_fn_size,
            function_views(kept@) == views.take(index as int).filter(large),
        decreases functions@.len() - index,
    {
        let ghost before = kept@;
        proof {
            assert(views.take(index as int + 1) =~= views.take(index as int).push(
                views[index as int],
            ));
            views.take(index as int).lemma_filter_push(views[index as int], large);
        }
        if functions[index].data.len() >= min_fn_size {
            kept.push(functions[index].duplicate());
            assert(function_views(kept@) =~= function_views(before).push(views[index as int]));
        }
        index = index + 1;
    }
    assert(views.take(views.len() as int) =~= views);
    kept
}

/// The functions of a target image: those its unwind entries stand for,
/// without the ones whose body is below `min_fn_size` bytes.
pub open spec fn target_functions(
    file: Seq<u8>,
    sections: Seq<Section>,
    entries: Seq<UnwindEntry>,
    min_fn_size: usize,
) -> Seq<FunctionView> {
    of_min_size(unwind_functions(file, sections, entries), min_fn_size)
}

/// Extracts the functions of a target executable from its exception
/// directory. The image is rejected with `InvalidInput` where its container
/// cannot be read; otherwise every unwind entry with a file range gives a
/// function, and the functions of at least `min_fn_size` bytes are returned
/// in table order.
pub fn get_functions_from_bin<'data>(exe_bytes: &'data [u8], min_fn_size: usize) -> (result:
    Result<Vec<Function<'data>>, ArianeError>)
    ensures
        match result {
            Ok(functions) => {
                &&& image_sections(exe_bytes@) is Some
                &&& image_unwind_entries(exe_bytes@) is Some
                &&& function_views(functions@) == target_functions(
                    exe_bytes@,
                    image_sections(exe_bytes@).unwrap(),
                    image_unwind_entries(exe_bytes@).unwrap(),
                    min_fn_size,
                )
            },
            Err(error) => {
                &&& error == ArianeError::InvalidInput
                &&& (image_sections(exe_bytes@) is None || image_unwind_entries(exe_bytes@) is None)
            },
        },
{
    let sections: Vec<Section> = match read_image_sections(exe_bytes) {
        Some(table) => table,
        None => {
            return Err(ArianeError::InvalidInput);
        },
    };
    let entries: Vec<UnwindEntry> = match read_image_unwind_entries(exe_bytes) {
        Some(table) => table,
        None => {
            return Err(ArianeError::InvalidInput);
        },
    };
    let functions: Vec<Function<'data>> = functions_from_unwind_entries(
        exe_bytes,
        &sections,
        &entries,
    );
    Ok(retain_min_size(&functions, min_fn_size))
}

/// Holds when the reader could not decode one of the records.
pub open spec fn has_unreadable(records: Seq<DebugRecord>) -> bool {
    exists|i: int| 0 <= i < records.len() && #[trigger] records[i] is Unreadable
}

/// The procedures of the first `count` modules of a debug database, module
/// after module; a module without a readable stream adds nothing.
pub open spec fn module_records_up_to(pdb_bytes: Seq<u8>, count: int) -> Seq<DebugRecord>
    decreases count,
{
    if count <= 0 {
        Seq::empty()
    } else {
        module_records_up_to(pdb_bytes, count - 1) + match module_symbols(pdb_bytes, count - 1) {
            Some(records) => records,
            None => Seq::empty(),
        }
    }
}

/// The records of a debug database that symbols are taken from: the public
/// symbols of the global stream, then the procedures of the modules. There
/// are none where the database cannot be read or a public symbol of the
/// global stream cannot be decoded.
pub open spec fn debug_records(pdb_bytes: Seq<u8>) -> Option<Seq<DebugRecord>> {
    match (global_symbols(pdb_bytes), module_count(pdb_bytes)) {
        (Some(globals), Some(count)) => if has_unreadable(globals) {
            None
        } else {
            Some(globals + module_records_up_to(pdb_bytes, count as int))
        },
        _ => None,
    }
}

/// Tells whether the reader could not decode one of the records.
pub fn any_unreadable(records: &Vec<DebugRecord>) -> (found: bool)
    ensures
        found == has_unreadable(records@),
{
    let mut index: usize = 0;
    while index < records.len()
        invariant
            index <= records@.len(),
            forall|i: int| 0 <= i < index ==> !(#[trigger] records@[i] is Unreadable),
        decreases records@.len() - index,
    {
        if let DebugRecord::Unreadable = records[index] {
            return true;
        }
        index = index + 1;
    }
    false
}

/// Reads the records of a debug database that symbols are taken from.
pub fn collect_debug_records(pdb_bytes: &[u8]) -> (records: Option<Vec<DebugRecord>>)
    ensures
        match records {
            Some(list) => debug_records(pdb_bytes@) == Some(list@),
            None => debug_records(pdb_bytes@) is None,
        },
{
    let mut records: Vec<DebugRecord> = match read_global_symbols(pdb_bytes) {
        Some(list) => list,
        None => {
            return None;
        },
    };
    if any_unreadable(&records) {
        return None;
    }
    let count: usize = match read_module_count(pdb_bytes) {
        Some(count) => count,
        None => {
            return None;
        },
    };
    let ghost globals = records@;
    let mut index: usize = 0;
    while index < count
        invariant
            index <= count,
            records@ == globals + module_records_up_to(pdb_bytes@, index as int),
        decreases count - index,
    {
        let ghost before = records@;
        if let Some(mut list) = read_module_symbols(pdb_bytes, index) {
            let ghost added = list@;
            records.append(&mut list);
            assert(records@ =~= before + added);
        }
        assert(records@ =~= globals + module_records_up_to(pdb_bytes@, index as int + 1));
        index = index + 1;
    }
    Some(records)
}

/// Extracts the functions a debug database describes from the image built
/// beside it. The public symbols of the global stream and the procedure
/// symbols of the modules are placed in the image, arranged by file offset
/// (the first symbol at an offset stays), and each body runs from its symbol
/// to the next, trimmed by the padding rule; empty bodies are dropped. Of
/// the records of the database only public symbols and procedures are
/// decoded. The database is rejected with `InvalidInput` where it cannot be
/// read.
pub fn get_functions_from_pdb<'data>(exe_bytes: &'data [u8], pdb_bytes: &[u8]) -> (result: Result<
    Vec<Function<'data>>,
    ArianeError,
>)
    ensures
        match result {
            Ok(functions) => {
                &&& database_sections(pdb_bytes@) is Some
                &&& debug_records(pdb_bytes@) is Some
                &&& function_views(functions@) == debug_functions(
                    exe_bytes@,
                    arranged(
                        placements(
                            database_sections(pdb_bytes@).unwrap(),
                            exe_bytes@.len() as int,
                            debug_records(pdb_bytes@).unwrap(),
                        ),
                    ),
                )
            },
            Err(error) => {
                &&& error == ArianeError::InvalidInput
                &&& (database_sections(pdb_bytes@) is None || debug_records(pdb_bytes@) is None)
            },
        },
{
    let sections: Vec<Section> = match read_database_sections(pdb_bytes) {
        Some(table) => table,
        None => {
            return Err(ArianeError::InvalidInput);
        },
    };
    let records: Vec<DebugRecord> = match collect_debug_records(pdb_bytes) {
        Some(list) => list,
        None => {
            return Err(ArianeError::InvalidInput);
        },
    };
    let mut placed: Vec<PlacedSymbol> = Vec::new();
    place_records(&sections, exe_bytes.len(), &records, &mut placed);
    assert(placed@ =~= placements(sections@, exe_bytes@.len() as int, records@));
    let arrangement: Vec<PlacedSymbol> = arrange_symbols(&placed);
    Ok(functions_from_debug_symbols(exe_bytes, &arrangement))
}

/// The function a symbol of an object file stands for: a symbol that
/// defines a function, bears a name and lies in a section of the table whose
/// raw bytes lie in the file stands for a function with that name and those
/// bytes. Other symbols stand for none.
pub open spec fn symbol_function(member: Seq<u8>, sections: Seq<Section>, symbol: ObjectSymbol)
    -> Option<FunctionView> {
    if symbol.is_function_definition && 1 <= symbol.section_number <= sections.len()
        && symbol.name is Some {
        let section = sections[symbol.section_number - 1];
        let start = section.pointer_to_raw_data as int;
        let end = start + section.size_of_raw_data;
        if end <= member.len() {
            Some(
                FunctionView {
                    data: member.subrange(start, end),
                    name: Some(symbol.name.unwrap()@),
                    rva: 0,
                    fn_type: FunctionType::Lib,
                },
            )
        } else {
            None
        }
    } else {
        None
    }
}

/// The functions the symbols of an object file stand for, in table order.
pub open spec fn symbol_functions(
    member: Seq<u8>,
    sections: Seq<Section>,
    symbols: Seq<ObjectSymbol>,
) -> Seq<FunctionView> {
    symbols.filter_map(|symbol: ObjectSymbol| symbol_function(member, sections, symbol))
}

/// Turns the symbols of an object file into functions: each symbol that
/// defines a function gives a function with the symbol's name and the raw
/// bytes of the symbol's section.
pub fn functions_from_symbols<'data>(
    member: &'data [u8],
    sections: &Vec<Section>,
    symbols: &Vec<ObjectSymbol>,
) -> (functions: Vec<Function<'data>>)
    ensures
        function_views(functions@) == symbol_functions(member@, sections@, symbols@),
{
    let ghost keep = |symbol: ObjectSymbol| symbol_function(member@, sections@, symbol);
    let mut functions: Vec<Function<'data>> = Vec::new();
    let mut index: usize = 0;
    while index < symbols.len()
        invariant
            index <= symbols@.len(),
            keep == |symbol: ObjectSymbol| symbol_function(member@, sections@, symbol),
            function_views(functions@) == symbols@.take(index as int).filter_map(keep),
        decreases symbols@.len() - index,
    {
        proof {
            symbols@.lemma_filter_map_take_succ(keep, index as int);
        }
        let ghost before = functions@;
        let symbol: &ObjectSymbol = &symbols[index];
        if symbol.is_function_definition && symbol.section_number >= 1
            && symbol.section_number as usize <= sections.len() {
            if let Some(name) = &symbol.name {
                let section: Section = sections[symbol.section_number as usize - 1];
                let start: u64 = section.pointer_to_raw_data as u64;
                let end: u64 = start + section.size_of_raw_data as u64;
                if end <= member.len() as u64 {
                    functions.push(
                        Function {
                            data: slice_subrange(member, start as usize, end as usize),
                            name: Some(name.clone()),
                            rva: 0,
                            fn_type: FunctionType::Lib,
                        },
                    );
                    assert(function_views(functions@) =~= function_views(before).push(
                        keep(*symbol).unwrap(),
                    ));
                }
            }
        }
        index = index + 1;
    }
    assert(symbols@.take(symbols@.len() as int) =~= symbols@);
    functions
}

/// The functions of one member of a library archive: those its symbols
/// stand for, where the member is an object file whose symbol table can be
/// read; none otherwise.
pub open spec fn member_functions(member: Seq<u8>) -> Seq<FunctionView> {
    if object_is_safe(member) {
        match (object_sections(member), object_symbols(member)) {
            (Some(sections), Some(symbols)) => symbol_functions(member, sections, symbols),
            _ => Seq::empty(),
        }
    } else {
        Seq::empty()
    }
}

/// The bytes of a member, where its range lies in the archive.
pub open spec fn member_bytes(archive: Seq<u8>, range: MemberRange) -> Option<Seq<u8>> {
    if range.offset + range.size <= archive.len() {
        Some(archive.subrange(range.offset as int, range.offset + range.size))
    } else {
        None
    }
}

/// The functions of the first `count` members of a library archive, member
/// after member.
pub open spec fn archive_functions_up_to(archive: Seq<u8>, members: Seq<MemberRange>, count: int)
    -> Seq<FunctionView>
    decreases count,
{
    if count <= 0 || count > members.len() {
        Seq::empty()
    } else {
        archive_functions_up_to(archive, members, count - 1) + match member_bytes(
            archive,
            members[count - 1],
        ) {
            Some(member) => member_functions(member),
            None => Seq::empty(),
        }
    }
}

/// The functions of a library archive; none where the archive cannot be
/// read.
pub open spec fn library_functions(archive: Seq<u8>) -> Seq<FunctionView> {
    match archive_members(archive) {
        Some(members) => archive_functions_up_to(archive, members, members.len() as int),
        None => Seq::empty(),
    }
}

/// Extracts the functions of the members of a library archive. A member
/// whose range lies in the archive and that is an object file gives the
/// functions its symbols stand for; the other members give none.
pub fn functions_from_members<'data>(lib_bytes: &'data [u8], members: &Vec<MemberRange>)
    -> (functions: Vec<Function<'data>>)
    ensures
        function_views(functions@) == archive_functions_up_to(
            lib_bytes@,
            members@,
            members@.len() as int,
        ),
{
    let mut functions: Vec<Function<'data>> = Vec::new();
    let mut index: usize = 0;
    assert(function_views(functions@) =~= Seq::<FunctionView>::empty());
    while index < members.len()
        invariant
            index <= members@.len(),
            function_views(functions@) == archive_functions_up_to(
                lib_bytes@,
                members@,
                index as int,
            ),
        decreases members@.len() - index,
    {
        let ghost before = function_views(functions@);
        let range: MemberRange = members[index];
        if range.offset as u128 + range.size as u128 <= lib_bytes.len() as u128 {
            let member: &'data [u8] = slice_subrange(
                lib_bytes,
                range.offset,
                range.offset + range.size,
            );
            if is_safe_object(member) {
                if let Some(sections) = parse_object_sections(member) {
                    if let Some(symbols) = parse_object_symbols(member) {
                        let mut found: Vec<Function<'data>> = functions_from_symbols(
                            member,
                            &sections,
                            &symbols,
                        );
                        let ghost added = function_views(found@);
                        functions.append(&mut found);
                        assert(function_views(functions@) =~= before + added);
                    }
                }
            }
        }
        assert(function_views(functions@) =~= archive_functions_up_to(
            lib_bytes@,
            members@,
            index as int + 1,
        ));
        index = index + 1;
    }
    functions
}

/// Extracts the named functions of a library archive. An archive that
/// cannot be read gives no function.
pub fn get_functions_from_lib<'data>(lib_bytes: &'data [u8]) -> (functions: Vec<Function<'data>>)
    ensures
        function_views(functions@) == library_functions(lib_bytes@),
{
    match find_archive_members(lib_bytes) {
        Some(members) => functions_from_members(lib_bytes, &members),
        None => {
            let functions: Vec<Function<'data>> = Vec::new();
            assert(function_views(functions@) =~= Seq::<FunctionView>::empty());
            functions
        },
    }
}

} // verus!
