//! PAR2 handler used when no PAR2 support is available.
use vstd::prelude::*;
use crate::error::Error;
use crate::parity::traits::{
    ParityCapabilities, ParityHandler, RepairResult, ToolCommand, ToolRun, VerifyResult,
};

verus! {

/// No-op PAR2 handler: verification and repair are not supported, which lets
/// post-processing continue without PAR2.
pub struct NoOpParityHandler;

/// The message for unsupported verification.
pub open spec fn noop_verify_message() -> Seq<char> {
    "PAR2 verification requires external par2 binary. Configure par2_path in config or ensure par2 is in PATH."@
}

/// The message for unsupported repair.
pub open spec fn noop_repair_message() -> Seq<char> {
    "PAR2 repair requires external par2 binary. Configure par2_path in config or ensure par2 is in PATH."@
}

/// `r` is a `NotSupported` error with the given message.
pub open spec fn is_not_supported<T>(r: Result<T, Error>, msg: Seq<char>) -> bool {
    r matches Err(Error::NotSupported(m)) && m@ == msg
}

fn verify_unsupported<T>() -> (r: Result<T, Error>)
    ensures
        is_not_supported(r, noop_verify_message()),
{
    Err(Error::NotSupported("PAR2 verification requires external par2 binary. Configure par2_path in config or ensure par2 is in PATH.".to_string()))
}

fn repair_unsupported<T>() -> (r: Result<T, Error>)
    ensures
        is_not_supported(r, noop_repair_message()),
{
    Err(Error::NotSupported("PAR2 repair requires external par2 binary. Configure par2_path in config or ensure par2 is in PATH.".to_string()))
}

impl ParityHandler for NoOpParityHandler {
    /// Verification is not supported: nothing is run.
    fn verify_command(&self, par2_file: &str) -> (r: Result<ToolCommand, Error>)
        ensures
            is_not_supported(r, noop_verify_message()),
    {
        verify_unsupported()
    }

    /// Repair is not supported: nothing is run.
    fn repair_command(&self, par2_file: &str) -> (r: Result<ToolCommand, Error>)
        ensures
            is_not_supported(r, noop_repair_message()),
    {
        repair_unsupported()
    }

    /// Verification is not supported, whatever ran.
    fn verify(&self, run: ToolRun) -> (r: Result<VerifyResult, Error>)
        ensures
            is_not_supported(r, noop_verify_message()),
    {
        verify_unsupported()
    }

    /// Repair is not supported, whatever ran.
    fn repair(&self, run: ToolRun) -> (r: Result<RepairResult, Error>)
        ensures
            is_not_supported(r, noop_repair_message()),
    {
        repair_unsupported()
    }

    /// Neither verification nor repair.
    fn capabilities(&self) -> (r: ParityCapabilities)
        ensures
            !r.can_verify && !r.can_repair,
    {
        ParityCapabilities { can_verify: false, can_repair: false }
    }

    /// "noop".
    fn name(&self) -> (r: &'static str)
        ensures
            r@ == "noop"@,
    {
        "noop"
    }
}

} // verus!
