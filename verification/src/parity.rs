//! PAR2 parity handling: output parsing, metadata parsing and handlers.
pub mod parser;
pub mod traits;
pub mod par2_metadata;
pub mod cli;
pub mod noop;
