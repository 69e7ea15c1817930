//! Result types of PAR2 verification and repair, and handler capabilities.
use vstd::prelude::*;
use crate::error::Error;
use crate::parity::parser::ExitStatus;

verus! {

/// Result of PAR2 verification.
#[derive(Debug, Clone)]
pub struct VerifyResult {
    /// Whether all files are intact.
    pub is_complete: bool,
    /// Number of damaged/missing blocks.
    pub damaged_blocks: u32,
    /// Number of recovery blocks available.
    pub recovery_blocks_available: u32,
    /// Whether repair is possible with available recovery data.
    pub repairable: bool,
    /// List of damaged files.
    pub damaged_files: Vec<String>,
    /// List of missing files.
    pub missing_files: Vec<String>,
}

/// Result of PAR2 repair.
#[derive(Debug, Clone)]
pub struct RepairResult {
    /// Whether repair was successful.
    pub success: bool,
    /// Files that were repaired.
    pub repaired_files: Vec<String>,
    /// Files that could not be repaired.
    pub failed_files: Vec<String>,
    /// Error message if repair failed.
    pub error: Option<String>,
}

/// Capabilities of a parity handler implementation.
#[derive(Debug, Clone, Copy)]
pub struct ParityCapabilities {
    /// Can verify file integrity.
    pub can_verify: bool,
    /// Can repair damaged files.
    pub can_repair: bool,
}

/// The character view of an optional string.
pub open spec fn opt_view(o: Option<String>) -> Option<Seq<char>> {
    match o {
        Some(s) => Some(s@),
        None => None,
    }
}

/// A command to run: a program and its arguments.
#[derive(Debug, Clone)]
pub struct ToolCommand {
    /// The program to run.
    pub program: String,
    /// Its arguments.
    pub args: Vec<String>,
}

/// What running an external tool gave.
#[derive(Debug)]
pub enum ToolRun {
    /// The tool ran to completion.
    Completed {
        /// What it wrote to standard output.
        stdout: Vec<u8>,
        /// What it wrote to standard error.
        stderr: Vec<u8>,
        /// How it exited.
        status: ExitStatus,
    },
    /// The tool could not be started; the reason.
    SpawnFailed(String),
}

/// PAR2 verification and repair.
///
/// A handler names the command that verifies or repairs a PAR2 set (or
/// refuses with an error before anything runs), and reads the result from
/// what running that command gave.
pub trait ParityHandler {
    /// The command that verifies the files of `par2_file`.
    fn verify_command(&self, par2_file: &str) -> Result<ToolCommand, Error>;

    /// The command that repairs the files of `par2_file`.
    fn repair_command(&self, par2_file: &str) -> Result<ToolCommand, Error>;

    /// The verification result, given what running the verify command gave.
    fn verify(&self, run: ToolRun) -> Result<VerifyResult, Error>;

    /// The repair result, given what running the repair command gave.
    fn repair(&self, run: ToolRun) -> Result<RepairResult, Error>;

    /// What this handler supports.
    fn capabilities(&self) -> ParityCapabilities;

    /// Human-readable name of the handler.
    fn name(&self) -> &'static str;
}

} // verus!
