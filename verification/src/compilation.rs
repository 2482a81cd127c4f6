//! The rebuild of a dependency with the toolchain of the target.

pub mod compile;
