//! Discovery of function bodies in executables, archives and debug databases.

pub mod archive;
pub mod containers;
pub mod databases;
pub mod debug_symbols;
pub mod images;
pub mod input;
pub mod objects;
pub mod search;
pub mod sections;
