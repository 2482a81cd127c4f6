//! Helpers shared by the components.

pub mod export;
pub mod lexical;
pub mod text;
pub mod toml_utils;
