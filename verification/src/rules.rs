//! The rule catalogues, one module for each language.

pub mod en;
pub mod ko;
