//! Names of exported functions.

use vstd::prelude::*;

use crate::functions_utils::containers::ExportEntry;
use crate::functions_utils::images::{
    image_exports, image_sections, read_image_exports, read_image_sections,
};
use crate::functions_utils::sections::{rva_to_pa, spec_rva_to_pa, Section};

verus! {

/// Holds when the export lies at the file offset `start`.
pub open spec fn export_lies_at(sections: Seq<Section>, export: ExportEntry, start: u32) -> bool {
    export.rva <= u32::MAX && spec_rva_to_pa(sections, export.rva as u32) == Some(start)
}

/// The position of the first export, at or after `from`, that lies at the
/// file offset `start`.
pub open spec fn export_at_from(
    sections: Seq<Section>,
    exports: Seq<ExportEntry>,
    start: u32,
    from: int,
) -> Option<int>
    decreases exports.len() - from,
{
    if from < 0 || from >= exports.len() {
        None
    } else if export_lies_at(sections, exports[from], start) {
        Some(from)
    } else {
        export_at_from(sections, exports, start, from + 1)
    }
}

/// The name of the function exported at the file offset `start`: that of
/// the first export whose address translates to the offset, where that
/// export bears a name.
pub open spec fn exported_name(sections: Seq<Section>, exports: Seq<ExportEntry>, start: u32)
    -> Option<Seq<char>> {
    match export_at_from(sections, exports, start, 0) {
        Some(index) => match exports[index].name {
            Some(name) => Some(name@),
            None => None,
        },
        None => None,
    }
}

/// The view of an optional name.
pub open spec fn optional_text(text: Option<String>) -> Option<Seq<char>> {
    match text {
        Some(found) => Some(found@),
        None => None,
    }
}

/// Finds, among the exports of an image, the name of the function at the
/// file offset `start`.
pub fn find_exported_name(sections: &Vec<Section>, exports: &Vec<ExportEntry>, start: u32)
    -> (name: Option<String>)
    ensures
        optional_text(name) == exported_name(sections@, exports@, start),
{
    let mut index: usize = 0;
    while index < exports.len()
        invariant
            index <= exports@.len(),
            export_at_from(sections@, exports@, start, 0) == export_at_from(
                sections@,
                exports@,
                start,
                index as int,
            ),
        decreases exports@.len() - index,
    {
        let export: &ExportEntry = &exports[index];
        if export.rva <= u32::MAX as usize {
            if let Some(pa) = rva_to_pa(sections, export.rva as u32) {
                if pa == start {
                    return match &export.name {
                        Some(name) => Some(name.clone()),
                        None => None,
                    };
                }
            }
        }
        index = index + 1;
    }
    None
}

/// Finds the name under which an image exports the function at the file
/// offset `start`. An image that cannot be read exports nothing.
pub fn find_fn_name(start: u32, dll_bytes: &[u8]) -> (name: Option<String>)
    ensures
        optional_text(name) == match (image_sections(dll_bytes@), image_exports(dll_bytes@)) {
            (Some(sections), Some(exports)) => exported_name(sections, exports, start),
            _ => None,
        },
{
    let sections: Vec<Section> = match read_image_sections(dll_bytes) {
        Some(table) => table,
        None => {
            return None;
        },
    };
    match read_image_exports(dll_bytes) {
        Some(exports) => find_exported_name(&sections, &exports, start),
        None => None,
    }
}

} // verus!
