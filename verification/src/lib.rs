//! Recovery of function symbols in stripped, statically linked executables.
//!
//! The library fingerprints the compiler that built a target, infers the
//! third-party dependencies linked into it, extracts function bodies from the
//! target and from rebuilt libraries, hashes them in a relocation-tolerant way
//! and matches the two sides by fuzzy-hash similarity.

use vstd::prelude::*;

pub mod compilation;
pub mod functions_utils;
pub mod info_gathering;
pub mod pipeline;
pub mod sig;
pub mod utils;

verus! {

/// The failures the recovery pipeline distinguishes.
#[derive(Debug, Clone, Copy, PartialEq, Eq, Structural)]
pub enum ArianeError {
    /// The container could not be parsed.
    InvalidInput,
    /// A read, write or network operation failed at the operating-system level.
    IOError,
    /// The target embeds no compiler fingerprint.
    NoCompilerFingerprint,
    /// The compiler fingerprint could not be resolved to a release.
    NoToolchainResolution,
    /// The pinned toolchain could not be installed.
    ToolchainInstallFailed,
    /// The source archive of a dependency could not be downloaded.
    DownloadFailed,
    /// The registry returned no metadata for a dependency.
    NoMetadata,
    /// The registry does not know the inferred version of a dependency.
    NonExistentVersion,
    /// The build of a dependency failed.
    CompileFailed,
    /// A relative virtual address lies in no section.
    AddressNotInAnySection,
}

} // verus!
