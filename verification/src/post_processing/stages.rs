//! What the verify, repair, extract and move stages decide.
use vstd::prelude::*;
use crate::error::{Error, PostProcessError};
use crate::extraction::password_list::{password_candidates, PasswordList};
use crate::extraction::rar::RarExtractor;
use crate::extraction::sevenz::SevenZipExtractor;
use crate::extraction::shared::{DirEntry, files_with_ext};
use crate::extraction::zip::ZipExtractor;
use crate::parity::traits::{RepairResult, VerifyResult};
use crate::paths::{
    extension, file_name, file_stem, join, parent, spec_extension, spec_file_name, spec_join,
    spec_parent, spec_stem,
};
use crate::text::{append_str, decimal_u64, dedup, spec_decimal, str_views};

verus! {

/// An event a stage reports to subscribers.
#[derive(Debug, Clone, PartialEq, Eq)]
pub enum StageEvent {
    /// Verification started.
    Verifying,
    /// Verification ended; whether damage was found.
    VerifyComplete {
        /// Damage was found.
        damaged: bool,
    },
    /// Repair started.
    Repairing {
        /// Damaged blocks.
        blocks_needed: u32,
        /// Recovery blocks available.
        blocks_available: u32,
    },
    /// Repair was skipped.
    RepairSkipped {
        /// Why.
        reason: String,
    },
    /// Repair ended.
    RepairComplete {
        /// Whether it succeeded.
        success: bool,
    },
    /// Extraction ended.
    ExtractComplete,
    /// Moving to the destination started.
    Moving {
        /// The destination.
        destination: String,
    },
    /// Cleanup started.
    Cleaning,
}

/// How a stage ends: the event it reports last, if any, and its result.
#[derive(Debug)]
pub struct StageEnd {
    /// The event reported at the end of the stage.
    pub event: Option<StageEvent>,
    /// The stage's result.
    pub result: Result<(), Error>,
}

/// The PAR2 file a stage works with: the first of the sorted PAR2 files,
/// none when there is none.
pub fn first_par2(par2_files: &[String]) -> (r: Option<String>)
    ensures
        par2_files@.len() == 0 ==> r is None,
        par2_files@.len() > 0 ==> r == Some(par2_files@[0]),
{
    if par2_files.len() == 0 {
        None
    } else {
        Some(par2_files[0].clone())
    }
}

/// How the verify stage ends when there is no PAR2 file: no damage is
/// reported and the stage succeeds.
pub fn verify_without_par2() -> (r: StageEnd)
    ensures
        r.event == Some(StageEvent::VerifyComplete { damaged: false }),
        r.result is Ok,
{
    StageEnd { event: Some(StageEvent::VerifyComplete { damaged: false }), result: Ok(()) }
}

/// `a - b`, or 0 when `b` is larger.
pub open spec fn saturating_sub(a: nat, b: nat) -> nat {
    if a > b {
        (a - b) as nat
    } else {
        0
    }
}

/// The reason verification fails for damage that cannot be repaired.
pub open spec fn unrepairable_reason(damaged: u32, recovery: u32) -> Seq<char> {
    "files are damaged ("@ + spec_decimal(damaged as nat) + " blocks) but cannot be repaired (need "@
        + spec_decimal(saturating_sub(damaged as nat, recovery as nat))
        + " more recovery blocks)"@
}

/// The error for a verification failure.
pub open spec fn is_verification_failed(e: Error, id: i64, reason: Seq<char>) -> bool {
    e matches Error::PostProcess(PostProcessError::VerificationFailed { id: i, reason: r }) && i
        == id && r@ == reason
}

/// The error for a repair failure.
pub open spec fn is_repair_failed(e: Error, id: i64, reason: Seq<char>) -> bool {
    e matches Error::PostProcess(PostProcessError::RepairFailed { id: i, reason: r }) && i == id
        && r@ == reason
}

/// How the verify stage ends for what verification gave: the damage found
/// is reported; damage that cannot be repaired fails the stage with
/// `VerificationFailed`; a handler that does not support verification lets
/// the stage succeed as if nothing were damaged; any other error fails the
/// stage with no further event.
pub fn verify_stage_end(download_id: i64, verified: Result<VerifyResult, Error>) -> (r: StageEnd)
    ensures
        match verified {
            Ok(v) => r.event == Some(StageEvent::VerifyComplete { damaged: !v.is_complete }) && if !v.is_complete && !v.repairable {
                r.result matches Err(e) && is_verification_failed(
                    e,
                    download_id,
                    unrepairable_reason(v.damaged_blocks, v.recovery_blocks_available),
                )
            } else {
                r.result is Ok
            },
            Err(Error::NotSupported(_)) => r.event == Some(
                StageEvent::VerifyComplete { damaged: false },
            ) && r.result is Ok,
            Err(e) => r.event is None && r.result == Err::<(), Error>(e),
        },
{
    match verified {
        Ok(v) => {
            let event = Some(StageEvent::VerifyComplete { damaged: !v.is_complete });
            if !v.is_complete && !v.repairable {
                let missing = if v.damaged_blocks > v.recovery_blocks_available {
                    v.damaged_blocks - v.recovery_blocks_available
                } else {
                    0
                };
                let mut reason = "files are damaged (".to_string();
                append_str(&mut reason, decimal_u64(v.damaged_blocks as u64).as_str());
                append_str(&mut reason, " blocks) but cannot be repaired (need ");
                append_str(&mut reason, decimal_u64(missing as u64).as_str());
                append_str(&mut reason, " more recovery blocks)");
                StageEnd {
                    event,
                    result: Err(
                        Error::PostProcess(
                            PostProcessError::VerificationFailed { id: download_id, reason },
                        ),
                    ),
                }
            } else {
                StageEnd { event, result: Ok(()) }
            }
        },
        Err(Error::NotSupported(_)) => verify_without_par2(),
        Err(e) => StageEnd { event: None, result: Err(e) },
    }
}

/// What the repair stage does after its own verification.
#[derive(Debug)]
pub enum RepairPlan {
    /// Skip repair, reporting this reason; the stage succeeds.
    Skip {
        /// Why repair is skipped.
        reason: String,
    },
    /// The stage fails with this error.
    Fail(Error),
    /// Report the block counts and run the repair.
    Repair {
        /// Damaged blocks.
        blocks_needed: u32,
        /// Recovery blocks available.
        blocks_available: u32,
    },
}

/// What the repair stage does for what its verification gave: repair,
/// reporting the block counts; skip when verification is not supported
/// ("PAR2 verification not supported: {message}"); fail on any other error.
pub fn repair_plan(verified: Result<VerifyResult, Error>) -> (r: RepairPlan)
    ensures
        match verified {
            Ok(v) => r == RepairPlan::Repair {
                blocks_needed: v.damaged_blocks,
                blocks_available: v.recovery_blocks_available,
            },
            Err(Error::NotSupported(m)) => r matches RepairPlan::Skip { reason } && reason@
                == "PAR2 verification not supported: "@ + m@,
            Err(e) => r == RepairPlan::Fail(e),
        },
{
    match verified {
        Ok(v) => RepairPlan::Repair {
            blocks_needed: v.damaged_blocks,
            blocks_available: v.recovery_blocks_available,
        },
        Err(Error::NotSupported(m)) => {
            let mut reason = "PAR2 verification not supported: ".to_string();
            append_str(&mut reason, m.as_str());
            RepairPlan::Skip { reason }
        },
        Err(e) => RepairPlan::Fail(e),
    }
}

/// The strings joined with a separator.
pub open spec fn joined(items: Seq<Seq<char>>, sep: Seq<char>) -> Seq<char>
    decreases items.len(),
{
    if items.len() == 0 {
        seq![]
    } else if items.len() == 1 {
        items[0]
    } else {
        joined(items.drop_last(), sep) + sep + items.last()
    }
}

/// The strings joined with a separator, as `[String]::join`.
pub fn join_strings(items: &[String], sep: &str) -> (r: String)
    ensures
        r@ == joined(str_views(items@), sep@),
{
    let ghost v = str_views(items@);
    let mut out = String::new();
    let mut i: usize = 0;
    while i < items.len()
        invariant
            i <= items@.len(),
            v == str_views(items@),
            out@ == joined(v.take(i as int), sep@),
        decreases items@.len() - i,
    {
        assert(v.take(i + 1).drop_last() =~= v.take(i as int));
        if i > 0 {
            append_str(&mut out, sep);
        }
        append_str(&mut out, items[i].as_str());
        i += 1;
        assert(out@ =~= joined(v.take(i as int), sep@));
    }
    assert(v.take(items@.len() as int) =~= v);
    out
}

/// The reason of a failed repair that gave no error message.
pub open spec fn failed_files_reason(failed: Seq<Seq<char>>) -> Seq<char> {
    "repair failed for "@ + spec_decimal(failed.len()) + " file(s): "@ + joined(failed, ", "@)
}

/// How the repair stage ends for what the repair gave: the result is
/// reported; an unsuccessful repair fails the stage with `RepairFailed`,
/// whose reason is the repair's error message, or else "repair failed for
/// {n} file(s): {files}"; a handler that does not support repair skips it
/// with its message as reason; any other error fails the stage.
pub fn repair_stage_end(download_id: i64, repaired: Result<RepairResult, Error>) -> (r: StageEnd)
    ensures
        match repaired {
            Ok(v) => r.event == Some(StageEvent::RepairComplete { success: v.success }) && if v.success {
                r.result is Ok
            } else {
                r.result matches Err(e) && is_repair_failed(
                    e,
                    download_id,
                    match v.error {
                        Some(m) => m@,
                        None => failed_files_reason(str_views(v.failed_files@)),
                    },
                )
            },
            Err(Error::NotSupported(m)) => (r.event matches Some(
                StageEvent::RepairSkipped { reason },
            ) && reason@ == m@) && r.result is Ok,
            Err(e) => r.event is None && r.result == Err::<(), Error>(e),
        },
{
    match repaired {
        Ok(v) => {
            let event = Some(StageEvent::RepairComplete { success: v.success });
            if v.success {
                StageEnd { event, result: Ok(()) }
            } else {
                let reason = match v.error {
                    Some(m) => m,
                    None => {
                        let mut s = "repair failed for ".to_string();
                        append_str(&mut s, decimal_u64(v.failed_files.len() as u64).as_str());
                        append_str(&mut s, " file(s): ");
                        append_str(&mut s, join_strings(v.failed_files.as_slice(), ", ").as_str());
                        s
                    },
                };
                StageEnd {
                    event,
                    result: Err(
                        Error::PostProcess(
                            PostProcessError::RepairFailed { id: download_id, reason },
                        ),
                    ),
                }
            }
        },
        Err(Error::NotSupported(m)) => StageEnd {
            event: Some(StageEvent::RepairSkipped { reason: m }),
            result: Ok(()),
        },
        Err(e) => StageEnd { event: None, result: Err(e) },
    }
}

// ---------------------------------------------------------------------------
// Extraction
// ---------------------------------------------------------------------------

/// The archives of a download directory: its RAR archives, then its 7z
/// archives, then its ZIP archives, each in listing order.
pub open spec fn spec_all_archives(entries: Seq<DirEntry>) -> Seq<Seq<char>> {
    files_with_ext(entries, seq!["rar"@, "r00"@]) + files_with_ext(entries, seq!["7z"@, "7z"@])
        + files_with_ext(entries, seq!["zip"@, "zip"@])
}

/// The archives of a download directory listing: RAR, then 7z, then ZIP.
pub fn detect_all_archives(entries: &[DirEntry]) -> (r: Vec<String>)
    ensures
        str_views(r@) == spec_all_archives(entries@),
{
    let mut all = RarExtractor::detect_rar_files(entries);
    let mut sevenz = SevenZipExtractor::detect_7z_files(entries);
    let mut zips = ZipExtractor::detect_zip_files(entries);
    let ghost a = all@;
    let ghost b = sevenz@;
    let ghost c = zips@;
    all.append(&mut sevenz);
    all.append(&mut zips);
    assert(all@ == a + b + c);
    assert(str_views(all@) =~= str_views(a) + str_views(b) + str_views(c));
    all
}

/// The directory the extract stage extracts into: `extracted` under the
/// download directory.
pub open spec fn spec_extract_dest(download_path: Seq<char>) -> Seq<char> {
    spec_join(download_path, "extracted"@)
}

/// The directory the extract stage extracts into.
pub fn extract_destination(download_path: &str) -> (r: String)
    ensures
        r@ == spec_extract_dest(download_path@),
{
    join(download_path, "extracted")
}

/// The path the extract stage ends with: the download directory itself when
/// it holds no archive, else the extraction directory.
pub fn extract_stage_path(download_path: &str, archives: &[String]) -> (r: String)
    ensures
        archives@.len() == 0 ==> r@ == download_path@,
        archives@.len() > 0 ==> r@ == spec_extract_dest(download_path@),
{
    if archives.len() == 0 {
        download_path.to_string()
    } else {
        extract_destination(download_path)
    }
}

/// The passwords the extract stage tries: the download's cached correct
/// password, if any, then the empty password.
pub fn stage_passwords(cached_correct: Option<&str>) -> (r: PasswordList)
    ensures
        r@ == dedup(password_candidates(cached_correct, None, None, None, true)),
{
    PasswordList::collect(cached_correct, None, None, None, true)
}

/// The name an archive is reported under: its file name, or "unknown".
pub fn archive_display_name(archive_path: &str) -> (r: String)
    ensures
        r@ == match spec_file_name(archive_path@) {
            Some(n) => n,
            None => "unknown"@,
        },
{
    match file_name(archive_path) {
        Some(n) => n,
        None => "unknown".to_string(),
    }
}

// ---------------------------------------------------------------------------
// Moving
// ---------------------------------------------------------------------------

/// What the source of a move is on disk.
#[derive(Debug, Clone, Copy, PartialEq, Eq, Structural)]
pub enum SourceKind {
    /// Nothing is there.
    Missing,
    /// A regular file.
    File,
    /// A directory.
    Directory,
    /// Something else (a socket, a device, ...).
    Other,
}

/// How to move a source.
#[derive(Debug)]
pub enum MovePlan {
    /// Move the file itself.
    MoveFile,
    /// Move the directory's contents.
    MoveContents,
    /// The move fails with this error.
    Fail(Error),
}

/// The error for a source that cannot be moved.
pub open spec fn is_invalid_path(e: Error, path: Seq<char>, reason: Seq<char>) -> bool {
    e matches Error::PostProcess(PostProcessError::InvalidPath { path: p, reason: r }) && p@
        == path && r@ == reason
}

/// How to move a source of the given kind: a file is moved, a directory's
/// contents are moved; a missing source fails with "Source path does not
/// exist", anything else with "Source is neither a file nor a directory".
pub fn move_plan(source_path: &str, kind: SourceKind) -> (r: MovePlan)
    ensures
        kind == SourceKind::File ==> r is MoveFile,
        kind == SourceKind::Directory ==> r is MoveContents,
        kind == SourceKind::Missing ==> (r matches MovePlan::Fail(e) && is_invalid_path(
            e,
            source_path@,
            "Source path does not exist"@,
        )),
        kind == SourceKind::Other ==> (r matches MovePlan::Fail(e) && is_invalid_path(
            e,
            source_path@,
            "Source is neither a file nor a directory"@,
        )),
{
    match kind {
        SourceKind::File => MovePlan::MoveFile,
        SourceKind::Directory => MovePlan::MoveContents,
        SourceKind::Missing => MovePlan::Fail(
            Error::PostProcess(
                PostProcessError::InvalidPath {
                    path: source_path.to_string(),
                    reason: "Source path does not exist".to_string(),
                },
            ),
        ),
        SourceKind::Other => MovePlan::Fail(
            Error::PostProcess(
                PostProcessError::InvalidPath {
                    path: source_path.to_string(),
                    reason: "Source is neither a file nor a directory".to_string(),
                },
            ),
        ),
    }
}

/// What to do with an entry of a directory whose contents are moved.
#[derive(Debug)]
pub enum EntryMove {
    /// Move the file to this path.
    File(String),
    /// Move the subdirectory's contents to this path, then remove it.
    Directory(String),
    /// Leave the entry.
    Skip,
}

/// What to do with an entry named `name` of a directory moved to
/// `destination`: files and subdirectories go to `destination/name`;
/// anything else stays.
pub fn entry_move(destination: &str, name: &str, is_file: bool, is_dir: bool) -> (r: EntryMove)
    ensures
        is_file ==> (r matches EntryMove::File(p) && p@ == spec_join(destination@, name@)),
        !is_file && is_dir ==> (r matches EntryMove::Directory(p) && p@ == spec_join(
            destination@,
            name@,
        )),
        !is_file && !is_dir ==> r is Skip,
{
    if is_file {
        EntryMove::File(join(destination, name))
    } else if is_dir {
        EntryMove::Directory(join(destination, name))
    } else {
        EntryMove::Skip
    }
}


// ---------------------------------------------------------------------------
// File collisions
// ---------------------------------------------------------------------------

/// What to do when the destination of a moved file already exists.
#[derive(Debug, Clone, Copy, PartialEq, Eq, Structural)]
pub enum FileCollisionAction {
    /// Move under the first free name "stem (n).ext", n = 1, 2, ...
    Rename,
    /// Replace the existing file.
    Overwrite,
    /// Fail and leave both files as they are.
    Skip,
}

/// The next step of choosing where a moved file goes.
#[derive(Debug)]
pub enum CollisionStep {
    /// Move the file to this path.
    Use(String),
    /// Check whether this path exists, then ask again with the next attempt.
    Try(String),
    /// The move fails with this error.
    Fail(Error),
}

/// The file name "stem (n)" followed by ".ext" when there is an extension.
pub open spec fn numbered_name(stem: Seq<char>, ext: Option<Seq<char>>, n: nat) -> Seq<char> {
    stem + " ("@ + spec_decimal(n) + ")"@ + match ext {
        Some(e) => "."@ + e,
        None => seq![],
    }
}

/// The `n`-th renamed form of a destination: its parent joined with
/// "stem (n).ext".
pub open spec fn spec_numbered(dest: Seq<char>, n: nat) -> Seq<char> {
    let dir = match spec_parent(dest) {
        Some(p) => p,
        None => seq![],
    };
    let stem = match spec_stem(dest) {
        Some(s) => s,
        None => seq![],
    };
    spec_join(dir, numbered_name(stem, spec_extension(dest), n))
}

/// The path checked at an attempt: the destination itself first, then its
/// numbered forms.
pub open spec fn collision_candidate(dest: Seq<char>, attempt: nat) -> Seq<char> {
    if attempt == 0 {
        dest
    } else {
        spec_numbered(dest, attempt)
    }
}

/// The error for a destination that exists when collisions are skipped.
pub open spec fn is_file_collision(e: Error, path: Seq<char>, reason: Seq<char>) -> bool {
    e matches Error::PostProcess(PostProcessError::FileCollision { path: p, reason: r }) && p@
        == path && r@ == reason
}

/// What [`collision_step`] answers at attempt `attempt` for a destination
/// and whether the path of that attempt exists.
pub open spec fn collision_contract(
    dest: Seq<char>,
    action: FileCollisionAction,
    attempt: nat,
    exists: bool,
    r: CollisionStep,
) -> bool {
    &&& !exists ==> (r matches CollisionStep::Use(p) && p@ == collision_candidate(dest, attempt))
    &&& exists && action == FileCollisionAction::Overwrite ==> (r matches CollisionStep::Use(p)
        && p@ == dest)
    &&& exists && action == FileCollisionAction::Skip ==> (r matches CollisionStep::Fail(e)
        && is_file_collision(e, dest, "file already exists"@))
    &&& exists && action == FileCollisionAction::Rename ==> (r matches CollisionStep::Try(p) && p@
        == spec_numbered(dest, attempt + 1))
}

/// `exists[i]` tells whether the path of attempt `i` existed and `steps[i]`
/// is what [`collision_step`] answered; the checks go on while it answers
/// `Try`.
pub open spec fn collision_run(
    dest: Seq<char>,
    action: FileCollisionAction,
    exists: Seq<bool>,
    steps: Seq<CollisionStep>,
) -> bool {
    &&& exists.len() == steps.len()
    &&& forall|i: int|
        0 <= i < steps.len() ==> collision_contract(dest, action, i as nat, exists[i], #[trigger] steps[i])
    &&& forall|i: int| 0 <= i < steps.len() - 1 ==> #[trigger] steps[i] is Try
}

/// Renaming never replaces a file: the file goes to the first of the
/// destination, "stem (1).ext", "stem (2).ext", ... that does not exist,
/// every earlier one having existed.
pub proof fn lemma_rename_uses_first_free(
    dest: Seq<char>,
    exists: Seq<bool>,
    steps: Seq<CollisionStep>,
)
    requires
        steps.len() > 0,
        collision_run(dest, FileCollisionAction::Rename, exists, steps),
        !(steps.last() is Try),
    ensures
        forall|i: int| 0 <= i < steps.len() - 1 ==> #[trigger] exists[i],
        !exists.last(),
        steps.last() matches CollisionStep::Use(p) && p@ == collision_candidate(
            dest,
            (steps.len() - 1) as nat,
        ),
{
    let n = steps.len() as int;
    assert forall|i: int| 0 <= i < n - 1 implies #[trigger] exists[i] by {
        assert(steps[i] is Try);
        assert(collision_contract(dest, FileCollisionAction::Rename, i as nat, exists[i], steps[i]));
    }
    assert(collision_contract(dest, FileCollisionAction::Rename, (n - 1) as nat, exists[n - 1], steps[n - 1]));
}

/// The `n`-th renamed form of a destination: "stem (n).ext" next to it.
pub fn numbered_path(destination: &str, n: u32) -> (r: String)
    ensures
        r@ == spec_numbered(destination@, n as nat),
{
    let dir = match parent(destination) {
        Some(p) => p,
        None => String::new(),
    };
    assert(dir@ == match spec_parent(destination@) {
        Some(p) => p,
        None => Seq::<char>::empty(),
    });
    let mut name = match file_stem(destination) {
        Some(s) => s,
        None => String::new(),
    };
    let ghost stem = name@;
    assert(stem == match spec_stem(destination@) {
        Some(s) => s,
        None => Seq::<char>::empty(),
    });
    append_str(&mut name, " (");
    append_str(&mut name, decimal_u64(n as u64).as_str());
    append_str(&mut name, ")");
    match extension(destination) {
        Some(e) => {
            append_str(&mut name, ".");
            append_str(&mut name, e.as_str());
        },
        None => {},
    }
    assert(name@ =~= numbered_name(stem, spec_extension(destination@), n as nat));
    join(dir.as_str(), name.as_str())
}

/// One step of choosing where a file moved to `destination` goes, after
/// checking whether the path of this attempt exists: a free path is used;
/// an existing one is replaced under `Overwrite`, fails the move under
/// `Skip` ("file already exists"), and under `Rename` leads to the next
/// numbered name.
pub fn collision_step(
    destination: &str,
    action: FileCollisionAction,
    attempt: u32,
    candidate_exists: bool,
) -> (r: CollisionStep)
    requires
        attempt < u32::MAX,
    ensures
        collision_contract(destination@, action, attempt as nat, candidate_exists, r),
{
    if !candidate_exists {
        if attempt == 0 {
            CollisionStep::Use(destination.to_string())
        } else {
            CollisionStep::Use(numbered_path(destination, attempt))
        }
    } else {
        match action {
            FileCollisionAction::Overwrite => CollisionStep::Use(destination.to_string()),
            FileCollisionAction::Skip => CollisionStep::Fail(
                Error::PostProcess(
                    PostProcessError::FileCollision {
                        path: destination.to_string(),
                        reason: "file already exists".to_string(),
                    },
                ),
            ),
            FileCollisionAction::Rename => CollisionStep::Try(numbered_path(destination, attempt + 1)),
        }
    }
}

} // verus!
