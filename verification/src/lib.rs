//! Locates the exported functions of a shared library (ELF or Mach-O) and
//! works out the byte range that each of them occupies in the file.
//!
//! The container format itself is decoded by `goblin`; this crate holds the
//! rules applied to the decoded symbol tables, and the checks made before any
//! byte range is cut out of the file.

pub mod config;
pub mod elf;
pub mod errors;
pub mod macho;
pub mod object;
pub mod symbols;
