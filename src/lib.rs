//! Translates an Intel/MSVC-style compiler command line into a `rustc`
//! invocation, and classifies the diagnostic lines that `rustc` writes.

pub mod cli;
pub mod diagnostics;
pub mod path;
pub mod text;
pub mod translator;
