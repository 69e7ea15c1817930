//! PAR2 handler running an external `par2` binary.
use vstd::prelude::*;
use crate::error::Error;
use crate::parity::parser::{
    output_lines, parse_par2_repair_output, parse_par2_verify_output, repair_error, verify_outcome,
    ExitStatus, first_error_line, repair_named_files,
};
use crate::parity::traits::{
    ParityCapabilities, ParityHandler, RepairResult, ToolCommand, ToolRun, VerifyResult, opt_view,
};
use crate::text::{concat_str, dedup, str_views};

verus! {

/// PAR2 handler running an external `par2` binary: `par2 v <file>` to
/// verify and `par2 r <file>` to repair.
pub struct CliParityHandler {
    binary_path: String,
}

/// The command `binary arg par2_file`.
pub open spec fn is_command(c: ToolCommand, binary: Seq<char>, arg: Seq<char>, par2_file: Seq<char>) -> bool {
    c.program@ == binary && c.args@.len() == 2 && c.args@[0]@ == arg && c.args@[1]@ == par2_file
}

/// `r` is an external-tool error "Failed to execute par2: {reason}".
pub open spec fn is_spawn_failure<T>(r: Result<T, Error>, reason: Seq<char>) -> bool {
    r matches Err(Error::ExternalTool(m)) && m@ == "Failed to execute par2: "@ + reason
}

/// The verification result read from a completed run.
pub open spec fn is_verify_result(v: VerifyResult, stdout: Seq<u8>, stderr: Seq<u8>, status: ExitStatus) -> bool {
    let o = verify_outcome(stdout, stderr, status);
    &&& v.is_complete == o.0
    &&& v.damaged_blocks == o.1
    &&& v.recovery_blocks_available == o.2
    &&& v.repairable == o.3
    &&& str_views(v.damaged_files@) == o.4
    &&& str_views(v.missing_files@) == o.5
}

/// The repair result read from a completed run.
pub open spec fn is_repair_result(v: RepairResult, stdout: Seq<u8>, stderr: Seq<u8>, status: ExitStatus) -> bool {
    let lines = output_lines(stdout, stderr);
    &&& v.success == (status == ExitStatus::Success)
    &&& str_views(v.repaired_files@) == dedup(repair_named_files(lines, false))
    &&& str_views(v.failed_files@) == dedup(repair_named_files(lines, true))
    &&& opt_view(v.error) == repair_error(stdout, stderr, status)
}

impl CliParityHandler {
    /// A handler running the par2 binary at `binary_path`.
    pub fn new(binary_path: String) -> (r: Self)
        ensures
            r.binary()@ == binary_path@,
    {
        CliParityHandler { binary_path }
    }

    /// The path of the par2 binary.
    pub closed spec fn binary(&self) -> String {
        self.binary_path
    }

    /// The path of the par2 binary.
    pub fn binary_path(&self) -> (r: &str)
        ensures
            r@ == self.binary()@,
    {
        self.binary_path.as_str()
    }

    fn command(&self, arg: &str, par2_file: &str) -> (r: ToolCommand)
        ensures
            is_command(r, self.binary()@, arg@, par2_file@),
    {
        let mut args: Vec<String> = Vec::new();
        args.push(arg.to_string());
        args.push(par2_file.to_string());
        ToolCommand { program: self.binary_path.clone(), args }
    }
}

impl ParityHandler for CliParityHandler {
    /// `par2 v <par2_file>`.
    fn verify_command(&self, par2_file: &str) -> (r: Result<ToolCommand, Error>)
        ensures
            r matches Ok(c) && is_command(c, self.binary()@, "v"@, par2_file@),
    {
        Ok(self.command("v", par2_file))
    }

    /// `par2 r <par2_file>`.
    fn repair_command(&self, par2_file: &str) -> (r: Result<ToolCommand, Error>)
        ensures
            r matches Ok(c) && is_command(c, self.binary()@, "r"@, par2_file@),
    {
        Ok(self.command("r", par2_file))
    }

    /// The parsed output of a completed run; "Failed to execute par2:
    /// {reason}" when the binary could not be started.
    fn verify(&self, run: ToolRun) -> (r: Result<VerifyResult, Error>)
        ensures
            match run {
                ToolRun::Completed { stdout, stderr, status } => r matches Ok(v)
                    && is_verify_result(v, stdout@, stderr@, status),
                ToolRun::SpawnFailed(reason) => is_spawn_failure(r, reason@),
            },
    {
        match run {
            ToolRun::Completed { stdout, stderr, status } => parse_par2_verify_output(
                stdout.as_slice(),
                stderr.as_slice(),
                status,
            ),
            ToolRun::SpawnFailed(reason) => Err(
                Error::ExternalTool(concat_str("Failed to execute par2: ", reason.as_str())),
            ),
        }
    }

    /// The parsed output of a completed run; "Failed to execute par2:
    /// {reason}" when the binary could not be started.
    fn repair(&self, run: ToolRun) -> (r: Result<RepairResult, Error>)
        ensures
            match run {
                ToolRun::Completed { stdout, stderr, status } => r matches Ok(v)
                    && is_repair_result(v, stdout@, stderr@, status),
                ToolRun::SpawnFailed(reason) => is_spawn_failure(r, reason@),
            },
    {
        match run {
            ToolRun::Completed { stdout, stderr, status } => parse_par2_repair_output(
                stdout.as_slice(),
                stderr.as_slice(),
                status,
            ),
            ToolRun::SpawnFailed(reason) => Err(
                Error::ExternalTool(concat_str("Failed to execute par2: ", reason.as_str())),
            ),
        }
    }

    /// Both verification and repair.
    fn capabilities(&self) -> (r: ParityCapabilities)
        ensures
            r.can_verify && r.can_repair,
    {
        ParityCapabilities { can_verify: true, can_repair: true }
    }

    /// "cli-par2".
    fn name(&self) -> (r: &'static str)
        ensures
            r@ == "cli-par2"@,
    {
        "cli-par2"
    }
}

} // verus!
