use usenet_dl::error::{Error, PostProcessError};
use usenet_dl::extraction::shared::DirEntry;
use usenet_dl::parity::traits::{RepairResult, VerifyResult};
use usenet_dl::post_processing::cleanup::{
    cleanup_entry, cleanup_extensions, is_cleanup_target, is_sample_folder, CleanupConfig,
    CleanupEntry,
};
use usenet_dl::post_processing::par2_files::find_par2_files;
use usenet_dl::post_processing::stages::{
    archive_display_name, detect_all_archives, entry_move, extract_destination,
    extract_stage_path, first_par2, join_strings, move_plan, repair_plan, repair_stage_end,
    stage_passwords, collision_step, numbered_path, CollisionStep, FileCollisionAction,
    verify_stage_end, verify_without_par2, EntryMove, MovePlan, RepairPlan, SourceKind,
    StageEvent,
};
use usenet_dl::post_processing::{
    pipeline_stages, Pipeline, PipelineAction, PostProcess, Stage, StageResult,
};

fn file(path: &str) -> DirEntry {
    DirEntry { path: path.to_string(), is_dir: false, is_file: true }
}

fn dir(path: &str) -> DirEntry {
    DirEntry { path: path.to_string(), is_dir: true, is_file: false }
}

fn verify_result(is_complete: bool, damaged: u32, recovery: u32, repairable: bool) -> VerifyResult {
    VerifyResult {
        is_complete,
        damaged_blocks: damaged,
        recovery_blocks_available: recovery,
        repairable,
        damaged_files: vec![],
        missing_files: vec![],
    }
}

fn cleanup_config() -> CleanupConfig {
    CleanupConfig {
        enabled: true,
        target_extensions: ["par2", "nzb", "sfv", "srr", "nfo"].iter().map(|s| s.to_string()).collect(),
        archive_extensions: ["rar", "zip", "7z"].iter().map(|s| s.to_string()).collect(),
        delete_samples: true,
        sample_folder_names: ["sample", "samples"].iter().map(|s| s.to_string()).collect(),
    }
}

// ---------------------------------------------------------------------------
// Pipeline
// ---------------------------------------------------------------------------

#[test]
fn stages_of_each_mode() {
    assert!(pipeline_stages(PostProcess::Off).is_empty());
    assert_eq!(pipeline_stages(PostProcess::Verify), vec![Stage::Verify]);
    assert_eq!(pipeline_stages(PostProcess::Repair), vec![Stage::Verify, Stage::Repair]);
    assert_eq!(
        pipeline_stages(PostProcess::Unpack),
        vec![Stage::Verify, Stage::Repair, Stage::Extract]
    );
    assert_eq!(
        pipeline_stages(PostProcess::UnpackAndCleanup),
        vec![Stage::Verify, Stage::Repair, Stage::Extract, Stage::Move, Stage::Cleanup]
    );
}

#[test]
fn pipeline_without_stages_returns_download_path() {
    let (_, action) = Pipeline::start_post_processing("/dl/job", PostProcess::Off, "/dest");
    assert!(matches!(action, PipelineAction::Finish(p) if p == "/dl/job"));
}

#[test]
fn full_pipeline_ends_at_the_moved_path() {
    let (mut p, a) = Pipeline::start_post_processing("/dl/job", PostProcess::UnpackAndCleanup, "/dest");
    assert!(matches!(a, PipelineAction::Verify(ref d) if d == "/dl/job"));
    assert!(matches!(p.step(StageResult::Done), PipelineAction::Repair(ref d) if d == "/dl/job"));
    assert!(matches!(p.step(StageResult::Done), PipelineAction::Extract(ref d) if d == "/dl/job"));
    match p.step(StageResult::Produced("/dl/job/extracted".to_string())) {
        PipelineAction::Move { source, destination } => {
            assert_eq!(source, "/dl/job/extracted");
            assert_eq!(destination, "/dest");
        }
        other => panic!("unexpected {:?}", other),
    }
    assert!(matches!(
        p.step(StageResult::Produced("/dest".to_string())),
        PipelineAction::Cleanup(ref d) if d == "/dl/job"
    ));
    assert!(matches!(p.step(StageResult::Done), PipelineAction::Finish(ref f) if f == "/dest"));
}

#[test]
fn unpack_pipeline_ends_at_the_extraction_directory() {
    let (mut p, _) = Pipeline::start_post_processing("/dl/job", PostProcess::Unpack, "/dest");
    p.step(StageResult::Done);
    p.step(StageResult::Done);
    assert!(matches!(
        p.step(StageResult::Produced("/dl/job/extracted".to_string())),
        PipelineAction::Finish(ref f) if f == "/dl/job/extracted"
    ));
}

#[test]
fn failing_stage_ends_the_pipeline_with_its_error() {
    let (mut p, _) = Pipeline::start_post_processing("/dl/job", PostProcess::Repair, "/dest");
    let action = p.step(StageResult::Failed(Error::ShuttingDown));
    assert!(matches!(action, PipelineAction::Fail(Error::ShuttingDown)));
    assert_eq!(p.next, p.stages.len());
}

#[test]
fn reextract_runs_extract_then_move() {
    let (mut p, a) = Pipeline::reextract("/dl/job", "/dest");
    assert!(matches!(a, PipelineAction::Extract(ref d) if d == "/dl/job"));
    assert!(matches!(
        p.step(StageResult::Produced("/dl/job".to_string())),
        PipelineAction::Move { ref source, .. } if source == "/dl/job"
    ));
    assert!(matches!(
        p.step(StageResult::Produced("/dest".to_string())),
        PipelineAction::Finish(ref f) if f == "/dest"
    ));
}

// ---------------------------------------------------------------------------
// Verify and repair stages
// ---------------------------------------------------------------------------

#[test]
fn verify_without_par2_reports_no_damage() {
    let end = verify_without_par2();
    assert_eq!(end.event, Some(StageEvent::VerifyComplete { damaged: false }));
    assert!(end.result.is_ok());
    assert_eq!(first_par2(&[]), None);
    assert_eq!(first_par2(&["a.par2".to_string(), "b.par2".to_string()]), Some("a.par2".to_string()));
}

#[test]
fn test_verify_stage_handles_not_supported() {
    let end = verify_stage_end(1, Err(Error::NotSupported("no par2".into())));
    assert!(end.result.is_ok());
    assert_eq!(end.event, Some(StageEvent::VerifyComplete { damaged: false }));
}

#[test]
fn verify_stage_fails_on_unrepairable_damage() {
    let end = verify_stage_end(7, Ok(verify_result(false, 12, 5, false)));
    assert_eq!(end.event, Some(StageEvent::VerifyComplete { damaged: true }));
    match end.result {
        Err(Error::PostProcess(PostProcessError::VerificationFailed { id, reason })) => {
            assert_eq!(id, 7);
            assert_eq!(
                reason,
                "files are damaged (12 blocks) but cannot be repaired (need 7 more recovery blocks)"
            );
        }
        other => panic!("unexpected {:?}", other),
    }
    let end = verify_stage_end(7, Ok(verify_result(false, 3, 5, false)));
    match end.result {
        Err(Error::PostProcess(PostProcessError::VerificationFailed { reason, .. })) => assert_eq!(
            reason,
            "files are damaged (3 blocks) but cannot be repaired (need 0 more recovery blocks)"
        ),
        other => panic!("unexpected {:?}", other),
    }
}

#[test]
fn verify_stage_accepts_complete_or_repairable() {
    let end = verify_stage_end(1, Ok(verify_result(true, 0, 0, false)));
    assert_eq!(end.event, Some(StageEvent::VerifyComplete { damaged: false }));
    assert!(end.result.is_ok());
    let end = verify_stage_end(1, Ok(verify_result(false, 3, 5, true)));
    assert_eq!(end.event, Some(StageEvent::VerifyComplete { damaged: true }));
    assert!(end.result.is_ok());
    let end = verify_stage_end(1, Err(Error::Io("x".into())));
    assert_eq!(end.event, None);
    assert!(matches!(end.result, Err(Error::Io(_))));
}

#[test]
fn test_repair_stage_handles_not_supported() {
    match repair_plan(Err(Error::NotSupported("noop handler".into()))) {
        RepairPlan::Skip { reason } => {
            assert_eq!(reason, "PAR2 verification not supported: noop handler")
        }
        other => panic!("unexpected {:?}", other),
    }
    let end = repair_stage_end(1, Err(Error::NotSupported("no repair".into())));
    assert!(end.result.is_ok());
    assert_eq!(end.event, Some(StageEvent::RepairSkipped { reason: "no repair".into() }));
}

#[test]
fn repair_plan_reports_block_counts() {
    assert!(matches!(
        repair_plan(Ok(verify_result(false, 4, 9, true))),
        RepairPlan::Repair { blocks_needed: 4, blocks_available: 9 }
    ));
    assert!(matches!(repair_plan(Err(Error::Io("x".into()))), RepairPlan::Fail(Error::Io(_))));
}

#[test]
fn repair_failure_reasons() {
    let failed = RepairResult {
        success: false,
        repaired_files: vec![],
        failed_files: vec!["a.bin".into(), "b.bin".into()],
        error: None,
    };
    let end = repair_stage_end(3, Ok(failed));
    assert_eq!(end.event, Some(StageEvent::RepairComplete { success: false }));
    match end.result {
        Err(Error::PostProcess(PostProcessError::RepairFailed { id, reason })) => {
            assert_eq!(id, 3);
            assert_eq!(reason, "repair failed for 2 file(s): a.bin, b.bin");
        }
        other => panic!("unexpected {:?}", other),
    }
    let with_error = RepairResult {
        success: false,
        repaired_files: vec![],
        failed_files: vec![],
        error: Some("Error: not enough blocks".into()),
    };
    match repair_stage_end(3, Ok(with_error)).result {
        Err(Error::PostProcess(PostProcessError::RepairFailed { reason, .. })) => {
            assert_eq!(reason, "Error: not enough blocks")
        }
        other => panic!("unexpected {:?}", other),
    }
    let ok = RepairResult { success: true, repaired_files: vec![], failed_files: vec![], error: None };
    let end = repair_stage_end(3, Ok(ok));
    assert_eq!(end.event, Some(StageEvent::RepairComplete { success: true }));
    assert!(end.result.is_ok());
}

#[test]
fn join_strings_with_separator() {
    assert_eq!(join_strings(&[], ", "), "");
    assert_eq!(join_strings(&["a".to_string()], ", "), "a");
    assert_eq!(join_strings(&["a".to_string(), "b".to_string(), "c".to_string()], "-"), "a-b-c");
}

// ---------------------------------------------------------------------------
// PAR2 files
// ---------------------------------------------------------------------------

#[test]
fn par2_files_base_first_then_by_name() {
    let entries = vec![
        file("/d/movie.vol03+04.par2"),
        file("/d/movie.PAR2"),
        file("/d/video.mkv"),
        dir("/d/folder.par2"),
        file("/d/movie.vol00+01.par2"),
        file("/d/another.par2"),
    ];
    assert_eq!(
        find_par2_files(&entries),
        vec![
            "/d/another.par2",
            "/d/movie.PAR2",
            "/d/movie.vol00+01.par2",
            "/d/movie.vol03+04.par2"
        ]
    );
    assert!(find_par2_files(&[]).is_empty());
}

// ---------------------------------------------------------------------------
// Extraction and moving
// ---------------------------------------------------------------------------

#[test]
fn archives_of_a_directory_by_kind() {
    let entries = vec![file("/d/c.zip"), file("/d/b.7z"), file("/d/a.rar"), file("/d/a.r00")];
    assert_eq!(detect_all_archives(&entries), vec!["/d/a.rar", "/d/a.r00", "/d/b.7z", "/d/c.zip"]);
}

#[test]
fn extraction_paths() {
    assert_eq!(extract_destination("/dl/job"), "/dl/job/extracted");
    assert_eq!(extract_stage_path("/dl/job", &[]), "/dl/job");
    assert_eq!(extract_stage_path("/dl/job", &["/dl/job/a.rar".to_string()]), "/dl/job/extracted");
    assert_eq!(archive_display_name("/dl/job/a.rar"), "a.rar");
    assert_eq!(archive_display_name("/"), "unknown");
}

#[test]
fn move_plans() {
    assert!(matches!(move_plan("/s", SourceKind::File), MovePlan::MoveFile));
    assert!(matches!(move_plan("/s", SourceKind::Directory), MovePlan::MoveContents));
    assert!(matches!(
        move_plan("/s", SourceKind::Missing),
        MovePlan::Fail(Error::PostProcess(PostProcessError::InvalidPath { path, reason }))
            if path == "/s" && reason == "Source path does not exist"
    ));
    assert!(matches!(
        move_plan("/s", SourceKind::Other),
        MovePlan::Fail(Error::PostProcess(PostProcessError::InvalidPath { reason, .. }))
            if reason == "Source is neither a file nor a directory"
    ));
    assert!(matches!(entry_move("/d", "f", true, false), EntryMove::File(ref p) if p == "/d/f"));
    assert!(matches!(entry_move("/d", "s", false, true), EntryMove::Directory(ref p) if p == "/d/s"));
    assert!(matches!(entry_move("/d", "x", false, false), EntryMove::Skip));
}

// ---------------------------------------------------------------------------
// Cleanup
// ---------------------------------------------------------------------------

#[test]
fn cleanup_targets_by_extension_any_case() {
    let config = cleanup_config();
    let exts = cleanup_extensions(&config);
    assert_eq!(exts.len(), 8);
    for name in ["file.par2", "file.nzb", "file.sfv", "file.srr", "file.nfo", "file.rar", "file.zip", "file.7z"] {
        assert!(is_cleanup_target(name, &exts), "{name}");
    }
    for name in ["file.PAR2", "file.NZB", "file.RAR"] {
        assert!(is_cleanup_target(name, &exts), "{name}");
    }
    for name in ["video.mkv", "readme.txt", "noext"] {
        assert!(!is_cleanup_target(name, &exts), "{name}");
    }
}

#[test]
fn sample_folders_any_case_when_enabled() {
    let config = cleanup_config();
    assert!(is_sample_folder("/d/sample", &config));
    assert!(is_sample_folder("/d/Samples", &config));
    assert!(!is_sample_folder("/d/content", &config));
    let keep = CleanupConfig { delete_samples: false, ..cleanup_config() };
    assert!(!is_sample_folder("/d/sample", &keep));
}

#[test]
fn cleanup_entry_decisions() {
    let exts = cleanup_extensions(&cleanup_config());
    assert_eq!(cleanup_entry("/d/a.par2", true, false, &exts), CleanupEntry::RemoveFile);
    assert_eq!(cleanup_entry("/d/a.mkv", true, false, &exts), CleanupEntry::Keep);
    assert_eq!(cleanup_entry("/d/sub", false, true, &exts), CleanupEntry::Visit);
    assert_eq!(cleanup_entry("/d/sock", false, false, &exts), CleanupEntry::Keep);
}

#[test]
fn extract_stage_tries_cached_then_empty_password() {
    let p: Vec<String> = stage_passwords(Some("secret")).iter().cloned().collect();
    assert_eq!(p, vec!["secret", ""]);
    let p: Vec<String> = stage_passwords(None).iter().cloned().collect();
    assert_eq!(p, vec![""]);
}

// ---------------------------------------------------------------------------
// File collisions
// ---------------------------------------------------------------------------

/// Where a file moved to `dest` goes when the paths in `existing` exist.
fn resolve(dest: &str, action: FileCollisionAction, existing: &[&str]) -> Result<String, Error> {
    let mut attempt = 0u32;
    let mut candidate = dest.to_string();
    loop {
        let exists = existing.contains(&candidate.as_str());
        match collision_step(dest, action, attempt, exists) {
            CollisionStep::Use(p) => return Ok(p),
            CollisionStep::Try(p) => {
                candidate = p;
                attempt += 1;
            }
            CollisionStep::Fail(e) => return Err(e),
        }
    }
}

#[test]
fn test_move_files_single_file_no_collision() {
    for action in [FileCollisionAction::Rename, FileCollisionAction::Overwrite, FileCollisionAction::Skip] {
        assert_eq!(resolve("/t/dest.txt", action, &[]).unwrap(), "/t/dest.txt");
    }
}

#[test]
fn test_move_files_collision_rename() {
    let final_dest = resolve("/t/dest.txt", FileCollisionAction::Rename, &["/t/dest.txt"]).unwrap();
    assert_ne!(final_dest, "/t/dest.txt");
    assert!(final_dest.contains("dest (1).txt"));
    assert_eq!(
        resolve("/t/dest.txt", FileCollisionAction::Rename, &["/t/dest.txt", "/t/dest (1).txt"]).unwrap(),
        "/t/dest (2).txt"
    );
}

#[test]
fn test_move_files_collision_overwrite() {
    assert_eq!(
        resolve("/t/dest.txt", FileCollisionAction::Overwrite, &["/t/dest.txt"]).unwrap(),
        "/t/dest.txt"
    );
}

#[test]
fn test_move_files_collision_skip() {
    match resolve("/t/dest.txt", FileCollisionAction::Skip, &["/t/dest.txt"]) {
        Err(Error::PostProcess(PostProcessError::FileCollision { path, reason })) => {
            assert_eq!(path, "/t/dest.txt");
            assert_eq!(reason, "file already exists");
        }
        other => panic!("unexpected {:?}", other),
    }
}

#[test]
fn test_move_directory_with_collision_rename() {
    let target = match entry_move("/t/dest", "file.txt", true, false) {
        EntryMove::File(p) => p,
        other => panic!("unexpected {:?}", other),
    };
    assert_eq!(
        resolve(&target, FileCollisionAction::Rename, &["/t/dest/file.txt"]).unwrap(),
        "/t/dest/file (1).txt"
    );
}

#[test]
fn numbered_paths_without_extension_or_parent() {
    assert_eq!(numbered_path("/t/README", 3), "/t/README (3)");
    assert_eq!(numbered_path("notes.md", 1), "notes (1).md");
    assert_eq!(numbered_path("/t/archive.tar.gz", 2), "/t/archive.tar (2).gz");
}
