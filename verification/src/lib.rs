//! Backend library logic for a Usenet download application: PAR2 metadata
//! and output parsing, archive handling rules, post-processing decisions
//! and error classification.
pub mod parity;
pub mod text;
pub mod error;
pub mod paths;
pub mod extraction;
pub mod post_processing;
pub mod folder_watcher;
pub mod downloader;
