//! The section table of an image and the translation between relative
//! virtual addresses and file offsets.

use vstd::prelude::*;

use crate::ArianeError;

verus! {

/// The flag a section's characteristics carry when its contents may be
/// executed.
pub const SECTION_EXECUTABLE: u32 = 0x2000_0000;

/// One entry of a section table, reduced to what address translation reads.
#[derive(Clone, Copy, Debug, PartialEq, Eq, Structural)]
pub struct Section {
    /// Address of the section's first byte, relative to the image base.
    pub virtual_address: u32,
    /// Size of the section once loaded.
    pub virtual_size: u32,
    /// Offset of the section's first byte in the file.
    pub pointer_to_raw_data: u32,
    /// Size of the section in the file.
    pub size_of_raw_data: u32,
    /// The section's flags.
    pub characteristics: u32,
}

impl Section {
    /// Holds when `rva` lies in `[virtual_address, virtual_address + virtual_size)`.
    pub open spec fn contains_rva(self, rva: u32) -> bool {
        self.virtual_address <= rva < self.virtual_address + self.virtual_size
    }

    /// Holds when `pa` lies in the file range the section's loaded bytes come
    /// from, `[pointer_to_raw_data, pointer_to_raw_data + virtual_size)`.
    pub open spec fn contains_pa(self, pa: u32) -> bool {
        self.pointer_to_raw_data <= pa < self.pointer_to_raw_data + self.virtual_size
    }

    /// The file offset of `rva`, where the section holds it and the offset
    /// fits in 32 bits.
    pub open spec fn spec_rva_to_pa(self, rva: u32) -> Option<u32> {
        if self.contains_rva(rva) && rva - self.virtual_address + self.pointer_to_raw_data
            <= u32::MAX {
            Some((rva - self.virtual_address + self.pointer_to_raw_data) as u32)
        } else {
            None
        }
    }

    /// The relative virtual address of the file offset `pa`, where the
    /// section holds it and the address fits in 32 bits.
    pub open spec fn spec_pa_to_rva(self, pa: u32) -> Option<u32> {
        if self.contains_pa(pa) && pa - self.pointer_to_raw_data + self.virtual_address
            <= u32::MAX {
            Some((pa - self.pointer_to_raw_data + self.virtual_address) as u32)
        } else {
            None
        }
    }

    /// Holds when the section's contents may be executed.
    pub open spec fn spec_is_executable(self) -> bool {
        self.characteristics & SECTION_EXECUTABLE != 0
    }

    /// Tells whether `rva` lies in the section.
    pub fn holds_rva(&self, rva: u32) -> (held: bool)
        ensures
            held == self.contains_rva(rva),
    {
        rva >= self.virtual_address && (rva as u64) < self.virtual_address as u64
            + self.virtual_size as u64
    }

    /// Translates a relative virtual address of this section to a file offset.
    pub fn rva_to_pa(&self, rva: u32) -> (pa: Option<u32>)
        ensures
            pa == self.spec_rva_to_pa(rva),
    {
        if self.holds_rva(rva) {
            let offset: u64 = (rva - self.virtual_address) as u64 + self.pointer_to_raw_data as u64;
            if offset <= u32::MAX as u64 {
                Some(offset as u32)
            } else {
                None
            }
        } else {
            None
        }
    }

    /// Translates a file offset of this section to a relative virtual address.
    pub fn pa_to_rva(&self, pa: u32) -> (rva: Option<u32>)
        ensures
            rva == self.spec_pa_to_rva(pa),
    {
        if pa >= self.pointer_to_raw_data && (pa as u64) < self.pointer_to_raw_data as u64
            + self.virtual_size as u64 {
            let address: u64 = (pa - self.pointer_to_raw_data) as u64 + self.virtual_address as u64;
            if address <= u32::MAX as u64 {
                Some(address as u32)
            } else {
                None
            }
        } else {
            None
        }
    }

    /// Tells whether the section's contents may be executed.
    pub fn is_executable(&self) -> (executable: bool)
        ensures
            executable == self.spec_is_executable(),
    {
        self.characteristics & SECTION_EXECUTABLE != 0
    }
}

/// The position of the first section, at or after `from`, that holds `rva`.
pub open spec fn section_of_rva_from(sections: Seq<Section>, rva: u32, from: int) -> Option<int>
    decreases sections.len() - from,
{
    if from < 0 || from >= sections.len() {
        None
    } else if sections[from].contains_rva(rva) {
        Some(from)
    } else {
        section_of_rva_from(sections, rva, from + 1)
    }
}

/// The position of the first section of the table that holds `rva`.
pub open spec fn section_of_rva(sections: Seq<Section>, rva: u32) -> Option<int> {
    section_of_rva_from(sections, rva, 0)
}

/// The file offset of `rva`: that which the first section holding `rva`
/// gives it.
pub open spec fn spec_rva_to_pa(sections: Seq<Section>, rva: u32) -> Option<u32> {
    match section_of_rva(sections, rva) {
        Some(index) => sections[index].spec_rva_to_pa(rva),
        None => None,
    }
}

/// What `section_of_rva_from` finds is the first section from `from` on that
/// holds the address, and it finds nothing only where no section holds it.
pub proof fn lemma_section_of_rva_from(sections: Seq<Section>, rva: u32, from: int)
    requires
        0 <= from,
    ensures
        match section_of_rva_from(sections, rva, from) {
            Some(index) => {
                &&& from <= index < sections.len()
                &&& sections[index].contains_rva(rva)
                &&& forall|j: int| from <= j < index ==> !sections[j].contains_rva(rva)
            },
            None => forall|j: int| from <= j < sections.len() ==> !sections[j].contains_rva(rva),
        },
    decreases sections.len() - from,
{
    if from < sections.len() && !sections[from].contains_rva(rva) {
        lemma_section_of_rva_from(sections, rva, from + 1);
    }
}

/// Within one section, translating an address to a file offset and back
/// gives the address again, and translating a file offset to an address and
/// back gives the offset again.
pub proof fn lemma_translation_round_trip(section: Section, rva: u32, pa: u32)
    ensures
        section.spec_rva_to_pa(rva) == Some(pa) ==> section.spec_pa_to_rva(pa) == Some(rva),
        section.spec_pa_to_rva(pa) == Some(rva) ==> section.spec_rva_to_pa(rva) == Some(pa),
{
}

/// Two addresses that the same section is the first to hold lie as far
/// apart in the file as in memory, wherever the later one has a file offset:
/// the earlier one then has one too, the order of the two is kept, and two
/// addresses with one offset are one address.
pub proof fn lemma_translation_keeps_distances(sections: Seq<Section>, first: u32, second: u32)
    requires
        first <= second,
        section_of_rva(sections, first) is Some,
        section_of_rva(sections, first) == section_of_rva(sections, second),
        spec_rva_to_pa(sections, second) is Some,
    ensures
        spec_rva_to_pa(sections, first) is Some,
        spec_rva_to_pa(sections, second).unwrap() - spec_rva_to_pa(sections, first).unwrap()
            == second - first,
        spec_rva_to_pa(sections, first).unwrap() <= spec_rva_to_pa(sections, second).unwrap(),
        spec_rva_to_pa(sections, first) == spec_rva_to_pa(sections, second) ==> first == second,
{
    lemma_section_of_rva_from(sections, first, 0);
    lemma_section_of_rva_from(sections, second, 0);
}

/// Every address has a file offset whose first section in the table ends,
/// in the file, within 32 bits.
pub proof fn lemma_translation_is_total(sections: Seq<Section>, rva: u32)
    requires
        section_of_rva(sections, rva) matches Some(index) && sections[index].pointer_to_raw_data
            + sections[index].virtual_size <= u32::MAX + 1,
    ensures
        spec_rva_to_pa(sections, rva) is Some,
{
    lemma_section_of_rva_from(sections, rva, 0);
}

/// Translates a relative virtual address to a file offset: finds the first
/// section whose virtual range holds `rva` and returns
/// `rva - virtual_address + pointer_to_raw_data`. Returns `None` where no
/// section holds the address, or where the offset does not fit in 32 bits.
pub fn rva_to_pa(sections: &Vec<Section>, rva: u32) -> (pa: Option<u32>)
    ensures
        pa == spec_rva_to_pa(sections@, rva),
{
    let mut index: usize = 0;
    while index < sections.len()
        invariant
            index <= sections@.len(),
            section_of_rva(sections@, rva) == section_of_rva_from(sections@, rva, index as int),
        decreases sections@.len() - index,
    {
        if sections[index].holds_rva(rva) {
            return sections[index].rva_to_pa(rva);
        }
        index = index + 1;
    }
    None
}

/// Translates a relative virtual address to a file offset, and fails with
/// `AddressNotInAnySection` where `rva_to_pa` finds none.
pub fn translate_rva(sections: &Vec<Section>, rva: u32) -> (result: Result<u32, ArianeError>)
    ensures
        match result {
            Ok(pa) => spec_rva_to_pa(sections@, rva) == Some(pa),
            Err(error) => error == ArianeError::AddressNotInAnySection && spec_rva_to_pa(
                sections@,
                rva,
            ) is None,
        },
{
    match rva_to_pa(sections, rva) {
        Some(pa) => Ok(pa),
        None => Err(ArianeError::AddressNotInAnySection),
    }
}

} // verus!
