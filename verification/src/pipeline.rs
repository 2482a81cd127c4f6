//! The recovery pipeline: its stages, what a failure does to it, and the
//! matching of extracted functions.

use vstd::prelude::*;

use crate::functions_utils::containers::UnwindEntry;
use crate::functions_utils::search::{
    function_views, target_functions, unwind_entry_function, unwind_functions, Function,
    FunctionView,
};
use crate::functions_utils::sections::{
    lemma_section_of_rva_from, section_of_rva, spec_rva_to_pa, Section,
};
use crate::info_gathering::krate::KrateError;
use crate::sig::comparaison::{
    all_matches, compare, entry_candidate, index_of, is_sorted, matches_for, scores_in_range,
    symbol_views, EntryView, NameIndex, Symbol, SymbolView,
};
use crate::sig::sig_generation::{
    fuzzy_views, hash_functions, signature_of, signatures_of, FuzzyFunc, FuzzyFuncView,
};
use crate::ArianeError;

verus! {

/// The stages of the pipeline, in the order they are gone through.
#[derive(Clone, Copy, Debug, PartialEq, Eq, Structural)]
pub enum Stage {
    /// The compiler fingerprint is searched for.
    FingerprintPending,
    /// The pinned toolchain is installed.
    ToolchainInstalling,
    /// The dependencies are inferred.
    DepsInferring,
    /// The dependencies are rebuilt, one after the other.
    DepsRebuilding,
    /// The functions of the target are extracted.
    TargetExtracting,
    /// The functions are hashed.
    Hashing,
    /// The signatures are matched.
    Matching,
    /// The result is written.
    Emitting,
}

/// What becomes of the pipeline after a piece of work.
#[derive(Clone, Copy, Debug, PartialEq, Eq, Structural)]
pub enum Transition {
    /// The stage is done; the pipeline goes on with the next.
    Advance(Stage),
    /// The piece of work is given up and the stage goes on with the next
    /// piece.
    Skip,
    /// The pipeline stops with the error.
    Abort(ArianeError),
    /// The last stage is done.
    Finish,
}

/// Holds of the errors that hit one dependency only.
pub open spec fn hits_one_dependency(error: ArianeError) -> bool {
    ||| error is DownloadFailed
    ||| error is NoMetadata
    ||| error is NonExistentVersion
    ||| error is CompileFailed
}

/// Holds of the errors that a stage recovers from: one that hits one
/// dependency only, while the dependencies are rebuilt; an address in no
/// section, while the functions of the target are extracted.
pub open spec fn is_recovered(stage: Stage, error: ArianeError) -> bool {
    ||| stage is DepsRebuilding && hits_one_dependency(error)
    ||| stage is TargetExtracting && error is AddressNotInAnySection
}

/// The stage that follows a stage, where one does.
pub open spec fn next_stage(stage: Stage) -> Option<Stage> {
    match stage {
        Stage::FingerprintPending => Some(Stage::ToolchainInstalling),
        Stage::ToolchainInstalling => Some(Stage::DepsInferring),
        Stage::DepsInferring => Some(Stage::DepsRebuilding),
        Stage::DepsRebuilding => Some(Stage::TargetExtracting),
        Stage::TargetExtracting => Some(Stage::Hashing),
        Stage::Hashing => Some(Stage::Matching),
        Stage::Matching => Some(Stage::Emitting),
        Stage::Emitting => None,
    }
}

/// What becomes of the pipeline when a stage reports `outcome`: success
/// leads to the next stage, or to the end after the last; an error the
/// stage recovers from skips the piece of work; any other error stops the
/// pipeline.
pub open spec fn transition(stage: Stage, outcome: Result<(), ArianeError>) -> Transition {
    match outcome {
        Ok(()) => match next_stage(stage) {
            Some(next) => Transition::Advance(next),
            None => Transition::Finish,
        },
        Err(error) => if is_recovered(stage, error) {
            Transition::Skip
        } else {
            Transition::Abort(error)
        },
    }
}

impl ArianeError {
    /// Tells whether the error hits one dependency only.
    pub fn hits_one_dependency(&self) -> (recoverable: bool)
        ensures
            recoverable == hits_one_dependency(*self),
    {
        match self {
            ArianeError::DownloadFailed => true,
            ArianeError::NoMetadata => true,
            ArianeError::NonExistentVersion => true,
            ArianeError::CompileFailed => true,
            _ => false,
        }
    }

    /// The error of the pipeline that stands for an error of one dependency.
    pub fn from_krate_error(error: KrateError) -> (result: ArianeError)
        ensures
            result == krate_error_kind(error),
            error is NonExistantVersion ==> hits_one_dependency(result),
    {
        match error {
            KrateError::CursorError => ArianeError::IOError,
            KrateError::DownloadError => ArianeError::DownloadFailed,
            KrateError::FileCreationError => ArianeError::IOError,
            KrateError::NoMetadataError => ArianeError::NoMetadata,
            KrateError::NonExistantVersion => ArianeError::NonExistentVersion,
        }
    }
}

/// The error of the pipeline that stands for an error of one dependency.
pub open spec fn krate_error_kind(error: KrateError) -> ArianeError {
    match error {
        KrateError::CursorError => ArianeError::IOError,
        KrateError::DownloadError => ArianeError::DownloadFailed,
        KrateError::FileCreationError => ArianeError::IOError,
        KrateError::NoMetadataError => ArianeError::NoMetadata,
        KrateError::NonExistantVersion => ArianeError::NonExistentVersion,
    }
}

impl Stage {
    /// The first stage.
    pub fn first() -> (stage: Stage)
        ensures
            stage == Stage::FingerprintPending,
    {
        Stage::FingerprintPending
    }

    /// The stage that follows this one, where one does.
    pub fn next(&self) -> (next: Option<Stage>)
        ensures
            next == next_stage(*self),
    {
        match self {
            Stage::FingerprintPending => Some(Stage::ToolchainInstalling),
            Stage::ToolchainInstalling => Some(Stage::DepsInferring),
            Stage::DepsInferring => Some(Stage::DepsRebuilding),
            Stage::DepsRebuilding => Some(Stage::TargetExtracting),
            Stage::TargetExtracting => Some(Stage::Hashing),
            Stage::Hashing => Some(Stage::Matching),
            Stage::Matching => Some(Stage::Emitting),
            Stage::Emitting => None,
        }
    }

    /// Decides what becomes of the pipeline when this stage reports
    /// `outcome`.
    pub fn step(&self, outcome: Result<(), ArianeError>) -> (decision: Transition)
        ensures
            decision == transition(*self, outcome),
    {
        match outcome {
            Ok(()) => match self.next() {
                Some(next) => Transition::Advance(next),
                None => Transition::Finish,
            },
            Err(error) => {
                let recovered: bool = match self {
                    Stage::DepsRebuilding => error.hits_one_dependency(),
                    Stage::TargetExtracting => match error {
                        ArianeError::AddressNotInAnySection => true,
                        _ => false,
                    },
                    _ => false,
                };
                if recovered {
                    Transition::Skip
                } else {
                    Transition::Abort(error)
                }
            },
        }
    }
}

/// No failure of one dependency stops the pipeline, and every stage that
/// succeeds leads on: the stages are gone through in order.
pub proof fn lemma_dependency_failures_are_skipped(error: ArianeError)
    requires
        hits_one_dependency(error),
    ensures
        transition(Stage::DepsRebuilding, Err(error)) == Transition::Skip,
        transition(Stage::DepsRebuilding, Ok(())) == Transition::Advance(Stage::TargetExtracting),
{
}

/// The symbols that the functions of a target match among the functions of
/// the rebuilt libraries.
pub open spec fn recovered_symbols(target: Seq<FunctionView>, library: Seq<FunctionView>) -> Seq<
    SymbolView,
> {
    all_matches(signatures_of(target), index_of(signatures_of(library)))
}

/// Matches the functions of a target against the functions of the rebuilt
/// libraries: both sides are given signatures, the library signatures are
/// indexed by name (the first signature under a name stays), and every
/// score above the threshold gives a symbol. The symbols come out sorted by
/// address, then by name, then by score.
pub fn match_functions(target: &Vec<Function>, library: &Vec<Function>) -> (symbols: Vec<Symbol>)
    ensures
        is_sorted(symbol_views(symbols@)),
        symbol_views(symbols@).to_multiset() == recovered_symbols(
            function_views(target@),
            function_views(library@),
        ).to_multiset(),
        scores_in_range(symbol_views(symbols@)),
{
    let library_signatures: Vec<FuzzyFunc> = hash_functions(library);
    let index: NameIndex = NameIndex::from_functions(&library_signatures);
    let target_signatures: Vec<FuzzyFunc> = hash_functions(target);
    compare(&target_signatures, &index)
}

/// A symbol matched for a list of signatures bears the address of one of
/// them.
pub proof fn lemma_match_bears_address_of_target(
    targets: Seq<FuzzyFuncView>,
    entries: Seq<EntryView>,
    symbol: SymbolView,
)
    requires
        all_matches(targets, entries).contains(symbol),
    ensures
        exists|i: int| 0 <= i < targets.len() && (#[trigger] targets[i]).rva == symbol.rva,
    decreases targets.len(),
{
    if targets.len() > 0 {
        let head = all_matches(targets.drop_last(), entries);
        let tail = matches_for(targets.last(), entries);
        let k = choose|k: int|
            0 <= k < all_matches(targets, entries).len() && all_matches(targets, entries)[k] == symbol;
        if k < head.len() {
            assert(head[k] == symbol);
            assert(head.contains(symbol));
            lemma_match_bears_address_of_target(targets.drop_last(), entries, symbol);
            let i = choose|i: int|
                0 <= i < targets.drop_last().len() && (#[trigger] targets.drop_last()[i]).rva
                    == symbol.rva;
            assert(targets[i].rva == symbol.rva);
        } else {
            assert(tail[k - head.len()] == symbol);
            assert(tail.contains(symbol));
            entries.lemma_filter_map_contains(entry_candidate(targets.last()), symbol);
            assert(targets[targets.len() - 1].rva == symbol.rva);
        }
    }
}

/// Holds when the section that holds `rva`, if one does, may be executed.
pub open spec fn is_executable_where_held(sections: Seq<Section>, rva: u32) -> bool {
    match section_of_rva(sections, rva) {
        Some(index) => sections[index].spec_is_executable(),
        None => true,
    }
}

/// Holds when every unwind entry whose start lies in a section starts in an
/// executable one.
pub open spec fn entries_start_in_code(sections: Seq<Section>, entries: Seq<UnwindEntry>) -> bool {
    forall|i: int|
        0 <= i < entries.len() ==> is_executable_where_held(
            sections,
            (#[trigger] entries[i]).begin_address,
        )
}

/// Every symbol recovered for a target bears an address that lies in a
/// section of the target: the section that holds the start of the unwind
/// entry the symbol's function was cut from. Where the unwind entries start
/// in executable sections, that section is executable.
pub proof fn lemma_symbols_lie_in_sections(
    file: Seq<u8>,
    sections: Seq<Section>,
    entries: Seq<UnwindEntry>,
    min_fn_size: usize,
    library: Seq<FunctionView>,
    symbol: SymbolView,
)
    requires
        recovered_symbols(
            target_functions(file, sections, entries, min_fn_size),
            library,
        ).contains(symbol),
    ensures
        section_of_rva(sections, symbol.rva) is Some,
        0 <= section_of_rva(sections, symbol.rva).unwrap() < sections.len(),
        sections[section_of_rva(sections, symbol.rva).unwrap()].contains_rva(symbol.rva),
        entries_start_in_code(sections, entries) ==> sections[section_of_rva(
            sections,
            symbol.rva,
        ).unwrap()].spec_is_executable(),
{
    let functions = target_functions(file, sections, entries, min_fn_size);
    let signatures = signatures_of(functions);
    lemma_match_bears_address_of_target(signatures, index_of(signatures_of(library)), symbol);
    let s = choose|s: int|
        0 <= s < signatures.len() && (#[trigger] signatures[s]).rva == symbol.rva;
    assert(signatures.contains(signatures[s]));
    functions.lemma_filter_map_contains(
        |function: FunctionView| signature_of(function),
        signatures[s],
    );
    let function = choose|function: FunctionView| #[trigger]
        functions.contains(function) && signature_of(function) == Some(signatures[s]);
    assert(function.rva == symbol.rva);
    let extracted = unwind_functions(file, sections, entries);
    extracted.lemma_filter_contains_rev(
        |f: FunctionView| f.data.len() >= min_fn_size,
        function,
    );
    entries.lemma_filter_map_contains(
        |entry: UnwindEntry| unwind_entry_function(file, sections, entry),
        function,
    );
    let entry = choose|entry: UnwindEntry| #[trigger]
        entries.contains(entry) && unwind_entry_function(file, sections, entry) == Some(function);
    assert(entry.begin_address == symbol.rva);
    assert(spec_rva_to_pa(sections, entry.begin_address) is Some);
    lemma_section_of_rva_from(sections, symbol.rva, 0);
    let e = choose|e: int| 0 <= e < entries.len() && entries[e] == entry;
    assert(entries[e].begin_address == symbol.rva);
    if entries_start_in_code(sections, entries) {
        assert(is_executable_where_held(sections, entries[e].begin_address));
    }
}

} // verus!
