//! Symbols of a debug database: their place in the image the database
//! describes, their order in the file, and the function bodies between them.

use vstd::prelude::*;
use vstd::slice::slice_subrange;

use crate::functions_utils::containers::DebugRecord;
use crate::functions_utils::search::{
    guess_function_size, trimmed_size, Function, FunctionType, FunctionView, function_views,
};
use crate::functions_utils::sections::Section;

verus! {

/// A symbol of a debug database, placed in the image.
#[derive(Clone, Debug, PartialEq, Eq)]
pub struct PlacedSymbol {
    /// Offset of the symbol in the file.
    pub file_offset: usize,
    /// Relative virtual address of the symbol.
    pub virtual_address: u32,
    /// The symbol's name.
    pub name: String,
}

impl PlacedSymbol {
    /// An equal symbol with a name of its own.
    pub fn duplicate(&self) -> (copy: PlacedSymbol)
        ensures
            copy == *self,
    {
        PlacedSymbol {
            file_offset: self.file_offset,
            virtual_address: self.virtual_address,
            name: self.name.clone(),
        }
    }
}

/// The place of a record in an image of `file_len` bytes: a symbol record
/// whose section the table knows is placed at its offset past the section's
/// file offset, with its offset past the section's virtual address as its
/// address, where the place lies in the file and the address fits in 32
/// bits. Other records have no place.
pub open spec fn record_placement(sections: Seq<Section>, file_len: int, record: DebugRecord)
    -> Option<PlacedSymbol> {
    match record {
        DebugRecord::Symbol(section, offset, name) => {
            if 1 <= section <= sections.len() {
                let header = sections[section - 1];
                let file_offset = offset + header.pointer_to_raw_data;
                let address = offset + header.virtual_address;
                if file_offset < file_len && address <= u32::MAX {
                    Some(
                        PlacedSymbol {
                            file_offset: file_offset as usize,
                            virtual_address: address as u32,
                            name,
                        },
                    )
                } else {
                    None
                }
            } else {
                None
            }
        },
        _ => None,
    }
}

/// The places of the records of a stream, in stream order.
pub open spec fn placements(sections: Seq<Section>, file_len: int, records: Seq<DebugRecord>)
    -> Seq<PlacedSymbol> {
    records.filter_map(|record: DebugRecord| record_placement(sections, file_len, record))
}

/// Places one record in an image of `file_len` bytes.
pub fn place_record(sections: &Vec<Section>, file_len: usize, record: &DebugRecord) -> (placed:
    Option<PlacedSymbol>)
    ensures
        placed == record_placement(sections@, file_len as int, *record),
{
    match record {
        DebugRecord::Symbol(section, offset, name) => {
            let section: usize = *section as usize;
            if 1 <= section && section <= sections.len() {
                let header: Section = sections[section - 1];
                let file_offset: u64 = *offset as u64 + header.pointer_to_raw_data as u64;
                let address: u64 = *offset as u64 + header.virtual_address as u64;
                if file_offset < file_len as u64 && address <= u32::MAX as u64 {
                    Some(
                        PlacedSymbol {
                            file_offset: file_offset as usize,
                            virtual_address: address as u32,
                            name: name.clone(),
                        },
                    )
                } else {
                    None
                }
            } else {
                None
            }
        },
        _ => None,
    }
}

/// Places the records of a stream and appends the places to `placed`.
pub fn place_records(
    sections: &Vec<Section>,
    file_len: usize,
    records: &Vec<DebugRecord>,
    placed: &mut Vec<PlacedSymbol>,
)
    ensures
        final(placed)@ == old(placed)@ + placements(sections@, file_len as int, records@),
{
    let ghost place = |record: DebugRecord| record_placement(sections@, file_len as int, record);
    let mut index: usize = 0;
    while index < records.len()
        invariant
            index <= records@.len(),
            place == |record: DebugRecord| record_placement(sections@, file_len as int, record),
            placed@ == old(placed)@ + records@.take(index as int).filter_map(place),
        decreases records@.len() - index,
    {
        proof {
            records@.lemma_filter_map_take_succ(place, index as int);
        }
        if let Some(symbol) = place_record(sections, file_len, &records[index]) {
            placed.push(symbol);
        }
        index = index + 1;
    }
    assert(records@.take(records@.len() as int) =~= records@);
}

/// Holds when the file offsets of `symbols` grow strictly along the list.
pub open spec fn strictly_ordered(symbols: Seq<PlacedSymbol>) -> bool {
    forall|i: int, j: int|
        0 <= i < j < symbols.len() ==> symbols[i].file_offset < symbols[j].file_offset
}

/// Holds when `symbols[index]` is the first symbol of the list at its file
/// offset.
pub open spec fn is_first_at_offset(symbols: Seq<PlacedSymbol>, index: int) -> bool {
    &&& 0 <= index < symbols.len()
    &&& forall|k: int| 0 <= k < index ==> symbols[k].file_offset != symbols[index].file_offset
}

/// Holds when `symbol` is, among the first `count` symbols of `symbols`, the
/// first at its file offset.
pub open spec fn is_first_among(symbols: Seq<PlacedSymbol>, count: int, symbol: PlacedSymbol)
    -> bool {
    exists|j: int|
        0 <= j < count && #[trigger] is_first_at_offset(symbols, j) && symbols[j] == symbol
}

/// Holds when one of `arranged` lies at `file_offset`.
pub open spec fn holds_offset(arranged: Seq<PlacedSymbol>, file_offset: usize) -> bool {
    exists|i: int| 0 <= i < arranged.len() && (#[trigger] arranged[i]).file_offset == file_offset
}

/// Holds when `arranged` holds, in growing order of file offset, the first
/// symbol that the first `count` symbols of `symbols` have at each file
/// offset, and nothing else.
pub open spec fn is_arranged_up_to(
    symbols: Seq<PlacedSymbol>,
    count: int,
    arranged: Seq<PlacedSymbol>,
) -> bool {
    &&& strictly_ordered(arranged)
    &&& forall|i: int|
        0 <= i < arranged.len() ==> #[trigger] is_first_among(symbols, count, arranged[i])
    &&& forall|j: int|
        0 <= j < count ==> #[trigger] holds_offset(arranged, symbols[j].file_offset)
}

/// Holds when `arranged` holds, in growing order of file offset, the first
/// symbol `symbols` has at each file offset, and nothing else.
pub open spec fn is_arranged(symbols: Seq<PlacedSymbol>, arranged: Seq<PlacedSymbol>) -> bool {
    is_arranged_up_to(symbols, symbols.len() as int, arranged)
}

/// Two strictly ordered lists that lie at the same file offsets lie at the
/// same offset at each position.
proof fn lemma_same_offsets(a: Seq<PlacedSymbol>, b: Seq<PlacedSymbol>, index: int)
    requires
        strictly_ordered(a),
        strictly_ordered(b),
        forall|i: int| 0 <= i < a.len() ==> #[trigger] holds_offset(b, a[i].file_offset),
        forall|i: int| 0 <= i < b.len() ==> #[trigger] holds_offset(a, b[i].file_offset),
        0 <= index < a.len(),
    ensures
        index < b.len(),
        a[index].file_offset == b[index].file_offset,
    decreases index,
{
    assert forall|k: int| 0 <= k < index implies k < b.len() && a[k].file_offset
        == b[k].file_offset by {
        lemma_same_offsets(a, b, k);
    }
    assert(holds_offset(b, a[index].file_offset));
    let m = choose|m: int|
        0 <= m < b.len() && (#[trigger] b[m]).file_offset == a[index].file_offset;
    if m < index {
        assert(a[m].file_offset == b[m].file_offset);
        assert(a[m].file_offset < a[index].file_offset);
    }
    assert(index < b.len());
    assert(holds_offset(a, b[index].file_offset));
    let n = choose|n: int|
        0 <= n < a.len() && (#[trigger] a[n]).file_offset == b[index].file_offset;
    if n < index {
        assert(a[n].file_offset == b[n].file_offset);
        assert(b[n].file_offset < b[index].file_offset);
    }
    if index < m {
        assert(b[index].file_offset < b[m].file_offset);
    }
    if index < n {
        assert(a[index].file_offset < a[n].file_offset);
    }
}

/// A list of symbols has one arrangement only.
pub proof fn lemma_arrangement_is_unique(
    symbols: Seq<PlacedSymbol>,
    a: Seq<PlacedSymbol>,
    b: Seq<PlacedSymbol>,
)
    requires
        is_arranged(symbols, a),
        is_arranged(symbols, b),
    ensures
        a == b,
{
    let count = symbols.len() as int;
    assert forall|i: int| 0 <= i < a.len() implies #[trigger] holds_offset(
        b,
        a[i].file_offset,
    ) by {
        assert(is_first_among(symbols, count, a[i]));
        let j = choose|j: int|
            0 <= j < count && #[trigger] is_first_at_offset(symbols, j) && symbols[j] == a[i];
        assert(holds_offset(b, symbols[j].file_offset));
    }
    assert forall|i: int| 0 <= i < b.len() implies #[trigger] holds_offset(
        a,
        b[i].file_offset,
    ) by {
        assert(is_first_among(symbols, count, b[i]));
        let j = choose|j: int|
            0 <= j < count && #[trigger] is_first_at_offset(symbols, j) && symbols[j] == b[i];
        assert(holds_offset(a, symbols[j].file_offset));
    }
    if a.len() > 0 {
        lemma_same_offsets(a, b, a.len() - 1);
    }
    if b.len() > 0 {
        lemma_same_offsets(b, a, b.len() - 1);
    }
    assert(a.len() == b.len());
    assert forall|i: int| 0 <= i < a.len() implies a[i] == b[i] by {
        lemma_same_offsets(a, b, i);
        assert(is_first_among(symbols, count, a[i]));
        assert(is_first_among(symbols, count, b[i]));
        let j = choose|j: int|
            0 <= j < count && #[trigger] is_first_at_offset(symbols, j) && symbols[j] == a[i];
        let k = choose|k: int|
            0 <= k < count && #[trigger] is_first_at_offset(symbols, k) && symbols[k] == b[i];
        if j < k {
            assert(symbols[j].file_offset != symbols[k].file_offset);
        }
        if k < j {
            assert(symbols[k].file_offset != symbols[j].file_offset);
        }
    }
    assert(a =~= b);
}

/// The arrangement of a list of symbols: in growing order of file offset,
/// the first symbol the list has at each file offset.
pub open spec fn arranged(symbols: Seq<PlacedSymbol>) -> Seq<PlacedSymbol> {
    choose|arrangement: Seq<PlacedSymbol>| is_arranged(symbols, arrangement)
}

/// The position at which a symbol at `file_offset` belongs in a strictly
/// ordered list: after the symbols at lower offsets, before the others.
fn insertion_point(ordered: &Vec<PlacedSymbol>, file_offset: usize) -> (position: usize)
    requires
        strictly_ordered(ordered@),
    ensures
        position <= ordered@.len(),
        forall|i: int| 0 <= i < position ==> ordered@[i].file_offset < file_offset,
        forall|i: int| position <= i < ordered@.len() ==> ordered@[i].file_offset >= file_offset,
{
    let mut low: usize = 0;
    let mut high: usize = ordered.len();
    while low < high
        invariant
            low <= high <= ordered@.len(),
            strictly_ordered(ordered@),
            forall|i: int| 0 <= i < low ==> ordered@[i].file_offset < file_offset,
            forall|i: int| high <= i < ordered@.len() ==> ordered@[i].file_offset >= file_offset,
        decreases high - low,
    {
        let middle: usize = low + (high - low) / 2;
        if ordered[middle].file_offset < file_offset {
            low = middle + 1;
        } else {
            high = middle;
        }
    }
    low
}

/// A symbol at an offset the arranged list already holds leaves the list as
/// it is.
proof fn lemma_arrange_skip(
    symbols: Seq<PlacedSymbol>,
    count: int,
    arranged: Seq<PlacedSymbol>,
    position: int,
)
    requires
        0 <= count < symbols.len(),
        is_arranged_up_to(symbols, count, arranged),
        0 <= position < arranged.len(),
        arranged[position].file_offset == symbols[count].file_offset,
    ensures
        is_arranged_up_to(symbols, count + 1, arranged),
{
    assert forall|i: int| 0 <= i < arranged.len() implies #[trigger] is_first_among(
        symbols,
        count + 1,
        arranged[i],
    ) by {
        assert(is_first_among(symbols, count, arranged[i]));
        let j = choose|j: int|
            0 <= j < count && #[trigger] is_first_at_offset(symbols, j) && symbols[j]
                == arranged[i];
        assert(0 <= j < count + 1 && is_first_at_offset(symbols, j) && symbols[j] == arranged[i]);
    }
    assert forall|j: int| 0 <= j < count + 1 implies #[trigger] holds_offset(
        arranged,
        symbols[j].file_offset,
    ) by {
        if j < count {
            assert(holds_offset(arranged, symbols[j].file_offset));
        } else {
            assert(arranged[position].file_offset == symbols[j].file_offset);
        }
    }
}

/// A symbol at an offset the arranged list does not hold yet enters the list
/// at the position its offset gives it.
proof fn lemma_arrange_insert(
    symbols: Seq<PlacedSymbol>,
    count: int,
    before: Seq<PlacedSymbol>,
    position: int,
)
    requires
        0 <= count < symbols.len(),
        is_arranged_up_to(symbols, count, before),
        0 <= position <= before.len(),
        forall|i: int| 0 <= i < position ==> before[i].file_offset < symbols[count].file_offset,
        forall|i: int|
            position <= i < before.len() ==> before[i].file_offset > symbols[count].file_offset,
    ensures
        is_arranged_up_to(symbols, count + 1, before.insert(position, symbols[count])),
{
    let after = before.insert(position, symbols[count]);
    assert(after.len() == before.len() + 1);
    assert(after[position] == symbols[count]);
    assert forall|i: int| 0 <= i < position implies after[i] == before[i] by {}
    assert forall|i: int| position < i < after.len() implies after[i] == before[i - 1] by {}
    assert(is_first_at_offset(symbols, count)) by {
        assert forall|k: int| 0 <= k < count implies symbols[k].file_offset
            != symbols[count].file_offset by {
            assert(holds_offset(before, symbols[k].file_offset));
            let i = choose|i: int|
                0 <= i < before.len() && (#[trigger] before[i]).file_offset
                    == symbols[k].file_offset;
            assert(before[i].file_offset == symbols[k].file_offset);
        }
    }
    assert forall|i: int| 0 <= i < after.len() implies #[trigger] is_first_among(
        symbols,
        count + 1,
        after[i],
    ) by {
        if i == position {
            assert(0 <= count < count + 1 && is_first_at_offset(symbols, count) && symbols[count]
                == after[i]);
        } else {
            let source = if i < position {
                i
            } else {
                i - 1
            };
            assert(after[i] == before[source]);
            assert(is_first_among(symbols, count, before[source]));
            let j = choose|j: int|
                0 <= j < count && #[trigger] is_first_at_offset(symbols, j) && symbols[j]
                    == before[source];
            assert(0 <= j < count + 1 && is_first_at_offset(symbols, j) && symbols[j] == after[i]);
        }
    }
    assert forall|j: int| 0 <= j < count + 1 implies #[trigger] holds_offset(
        after,
        symbols[j].file_offset,
    ) by {
        if j < count {
            assert(holds_offset(before, symbols[j].file_offset));
            let i = choose|i: int|
                0 <= i < before.len() && (#[trigger] before[i]).file_offset
                    == symbols[j].file_offset;
            if i < position {
                assert(after[i] == before[i]);
            } else {
                assert(after[i + 1] == before[i]);
            }
        } else {
            assert(after[position].file_offset == symbols[j].file_offset);
        }
    }
    assert forall|i: int, j: int| 0 <= i < j < after.len() implies after[i].file_offset
        < after[j].file_offset by {
        if i < position {
            assert(after[i] == before[i]);
        } else if i > position {
            assert(after[i] == before[i - 1]);
        }
        if j < position {
            assert(after[j] == before[j]);
        } else if j > position {
            assert(after[j] == before[j - 1]);
        }
    }
}

/// Arranges symbols by file offset: where several symbols share an offset
/// the first of them stays, and the symbols that stay come out in growing
/// order of offset.
pub fn arrange_symbols(symbols: &Vec<PlacedSymbol>) -> (arrangement: Vec<PlacedSymbol>)
    ensures
        is_arranged(symbols@, arrangement@),
        arrangement@ == arranged(symbols@),
{
    let mut kept: Vec<PlacedSymbol> = Vec::new();
    let mut index: usize = 0;
    while index < symbols.len()
        invariant
            index <= symbols@.len(),
            is_arranged_up_to(symbols@, index as int, kept@),
        decreases symbols@.len() - index,
    {
        let symbol: PlacedSymbol = symbols[index].duplicate();
        let position: usize = insertion_point(&kept, symbol.file_offset);
        if position < kept.len() && kept[position].file_offset == symbol.file_offset {
            proof {
                lemma_arrange_skip(symbols@, index as int, kept@, position as int);
            }
        } else {
            proof {
                lemma_arrange_insert(symbols@, index as int, kept@, position as int);
            }
            kept.insert(position, symbol);
        }
        index = index + 1;
    }
    proof {
        assert(is_arranged(symbols@, kept@));
        lemma_arrangement_is_unique(symbols@, kept@, arranged(symbols@));
    }
    kept
}

/// The function the symbol at position `index` of an arranged list stands
/// for: its body runs from the symbol's file offset to the next symbol's, or
/// to the end of the buffer after the last symbol, trimmed by the padding
/// rule. A symbol whose trimmed body is empty stands for no function, and so
/// does one whose range does not lie in the buffer.
pub open spec fn debug_function_at(exe: Seq<u8>, arranged: Seq<PlacedSymbol>, index: int)
    -> Option<FunctionView> {
    let start = arranged[index].file_offset as int;
    let end = if index + 1 < arranged.len() {
        arranged[index + 1].file_offset as int
    } else {
        exe.len() as int
    };
    if 0 <= index < arranged.len() && start <= end <= exe.len() {
        let size = trimmed_size(exe.subrange(start, end));
        if size != 0 {
            Some(
                FunctionView {
                    data: exe.subrange(start, start + size),
                    name: Some(arranged[index].name@),
                    rva: arranged[index].virtual_address,
                    fn_type: FunctionType::Pdb,
                },
            )
        } else {
            None
        }
    } else {
        None
    }
}

/// The functions the first `count` symbols of an arranged list stand for.
pub open spec fn debug_functions_up_to(exe: Seq<u8>, arranged: Seq<PlacedSymbol>, count: int)
    -> Seq<FunctionView>
    decreases count,
{
    if count <= 0 {
        Seq::empty()
    } else {
        match debug_function_at(exe, arranged, count - 1) {
            Some(function) => debug_functions_up_to(exe, arranged, count - 1).push(function),
            None => debug_functions_up_to(exe, arranged, count - 1),
        }
    }
}

/// The functions the symbols of an arranged list stand for, in list order.
pub open spec fn debug_functions(exe: Seq<u8>, arranged: Seq<PlacedSymbol>) -> Seq<FunctionView> {
    debug_functions_up_to(exe, arranged, arranged.len() as int)
}

/// Cuts the function bodies between the symbols of an arranged list out of
/// the image.
pub fn functions_from_debug_symbols<'data>(exe_bytes: &'data [u8], arranged: &Vec<PlacedSymbol>)
    -> (functions: Vec<Function<'data>>)
    ensures
        function_views(functions@) == debug_functions(exe_bytes@, arranged@),
{
    let mut functions: Vec<Function<'data>> = Vec::new();
    let mut index: usize = 0;
    while index < arranged.len()
        invariant
            index <= arranged@.len(),
            function_views(functions@) == debug_functions_up_to(
                exe_bytes@,
                arranged@,
                index as int,
            ),
        decreases arranged@.len() - index,
    {
        let start: usize = arranged[index].file_offset;
        let end: usize = if index + 1 < arranged.len() {
            arranged[index + 1].file_offset
        } else {
            exe_bytes.len()
        };
        let ghost before = functions@;
        if start <= end && end <= exe_bytes.len() {
            let size: usize = guess_function_size(slice_subrange(exe_bytes, start, end));
            if size != 0 {
                functions.push(
                    Function {
                        rva: arranged[index].virtual_address,
                        data: slice_subrange(exe_bytes, start, start + size),
                        name: Some(arranged[index].name.clone()),
                        fn_type: FunctionType::Pdb,
                    },
                );
                assert(function_views(functions@) =~= function_views(before).push(
                    debug_function_at(exe_bytes@, arranged@, index as int).unwrap(),
                ));
            }
        }
        index = index + 1;
    }
    functions
}

} // verus!
