//! Function ranges given by the user in place of the target's own tables.

use vstd::prelude::*;
use vstd::slice::slice_subrange;

use crate::functions_utils::images::{image_sections, read_image_sections};
use crate::functions_utils::search::{function_views, Function, FunctionType, FunctionView};
use crate::functions_utils::sections::{rva_to_pa, spec_rva_to_pa, Section};
use crate::ArianeError;

verus! {

/// A function of the target as the user describes it: a name and the
/// relative virtual addresses that bound the body.
#[derive(Clone, Debug, PartialEq, Eq)]
pub struct InputFunction {
    /// The name to give the function.
    pub name: String,
    /// Relative virtual address of the body's first byte.
    pub start: u32,
    /// Relative virtual address of the byte after the body's last.
    pub end: u32,
}

/// The functions of a target as the user describes them.
#[derive(Clone, Debug, PartialEq, Eq)]
pub struct InputFunctions {
    /// The functions, in the order given.
    pub functions: Vec<InputFunction>,
}

/// The function a described range stands for: both ends translate to file
/// offsets, the start is not after the end, and the end lies in the file.
pub open spec fn described_function(file: Seq<u8>, sections: Seq<Section>, input: InputFunction)
    -> Option<FunctionView> {
    match (spec_rva_to_pa(sections, input.start), spec_rva_to_pa(sections, input.end)) {
        (Some(start_pa), Some(end_pa)) => if start_pa <= end_pa <= file.len() {
            Some(
                FunctionView {
                    data: file.subrange(start_pa as int, end_pa as int),
                    name: Some(input.name@),
                    rva: input.start,
                    fn_type: FunctionType::Exe,
                },
            )
        } else {
            None
        },
        _ => None,
    }
}

/// The functions a list of described ranges stands for, in order.
pub open spec fn described_functions(
    file: Seq<u8>,
    sections: Seq<Section>,
    inputs: Seq<InputFunction>,
) -> Seq<FunctionView> {
    inputs.filter_map(|input: InputFunction| described_function(file, sections, input))
}

impl InputFunctions {
    /// Cuts the described functions out of the image, given its section
    /// table. A range that does not translate to a range of the file is
    /// passed over.
    pub fn to_functions_in<'data>(&self, file_content: &'data [u8], sections: &Vec<Section>)
        -> (functions: Vec<Function<'data>>)
        ensures
            function_views(functions@) == described_functions(
                file_content@,
                sections@,
                self.functions@,
            ),
    {
        let ghost keep = |input: InputFunction|
            described_function(file_content@, sections@, input);
        let mut functions: Vec<Function<'data>> = Vec::new();
        let mut index: usize = 0;
        while index < self.functions.len()
            invariant
                index <= self.functions@.len(),
                keep == |input: InputFunction|
                    described_function(file_content@, sections@, input),
                function_views(functions@) == self.functions@.take(index as int).filter_map(
                    keep,
                ),
            decreases self.functions@.len() - index,
        {
            proof {
                self.functions@.lemma_filter_map_take_succ(keep, index as int);
            }
            let ghost before = functions@;
            let input: &InputFunction = &self.functions[index];
            if let Some(start_pa) = rva_to_pa(sections, input.start) {
                if let Some(end_pa) = rva_to_pa(sections, input.end) {
                    if start_pa <= end_pa && end_pa as u64 <= file_content.len() as u64 {
                        functions.push(
                            Function {
                                rva: input.start,
                                data: slice_subrange(
                                    file_content,
                                    start_pa as usize,
                                    end_pa as usize,
                                ),
                                name: Some(input.name.clone()),
                                fn_type: FunctionType::Exe,
                            },
                        );
                        assert(function_views(functions@) =~= function_views(before).push(
                            keep(*input).unwrap(),
                        ));
                    }
                }
            }
            index = index + 1;
        }
        assert(self.functions@.take(self.functions@.len() as int) =~= self.functions@);
        functions
    }

    /// Cuts the described functions out of the image. The image is rejected
    /// with `InvalidInput` where its container cannot be read.
    pub fn to_functions<'data>(&self, file_content: &'data [u8]) -> (result: Result<
        Vec<Function<'data>>,
        ArianeError,
    >)
        ensures
            match result {
                Ok(functions) => {
                    &&& image_sections(file_content@) is Some
                    &&& function_views(functions@) == described_functions(
                        file_content@,
                        image_sections(file_content@).unwrap(),
                        self.functions@,
                    )
                },
                Err(error) => error == ArianeError::InvalidInput && image_sections(file_content@)
                    is None,
            },
    {
        match read_image_sections(file_content) {
            Some(sections) => Ok(self.to_functions_in(file_content, &sections)),
            None => Err(ArianeError::InvalidInput),
        }
    }
}

} // verus!
