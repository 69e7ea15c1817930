use usenet_dl::error::{Error, PostProcessError};
use usenet_dl::extraction::password_list::PasswordList;
use usenet_dl::extraction::rar::{RarEntryAction, RarExtractor};
use usenet_dl::extraction::sevenz::{SevenZipExtractor, WalkedEntry};
use usenet_dl::extraction::shared::{
    archive_type_for_extraction, combine_nested_results, detect_archive_type, is_archive,
    nested_extraction_plan, outcome_of, ArchiveType, AttemptOutcome, AttemptStep, DirEntry,
    ExtractionConfig, PasswordAttempts,
};
use usenet_dl::extraction::zip::{ZipEntryAction, ZipExtractor};

fn passwords_of(list: &PasswordList) -> Vec<String> {
    list.iter().cloned().collect()
}

fn file(path: &str) -> DirEntry {
    DirEntry { path: path.to_string(), is_dir: false, is_file: true }
}

fn dir(path: &str) -> DirEntry {
    DirEntry { path: path.to_string(), is_dir: true, is_file: false }
}

// ---------------------------------------------------------------------------
// Password lists
// ---------------------------------------------------------------------------

#[test]
fn extraction_test_password_list_collect_empty() {
    let passwords = PasswordList::collect(None, None, None, None, false);
    assert!(passwords.is_empty());
    assert_eq!(passwords.len(), 0);
}

#[test]
fn extraction_test_password_list_collect_single() {
    let passwords = PasswordList::collect(Some("test123"), None, None, None, false);
    assert_eq!(passwords.len(), 1);
    assert_eq!(passwords_of(&passwords)[0], "test123");
}

#[test]
fn extraction_test_password_list_collect_multiple_sources() {
    let passwords = PasswordList::collect(Some("cached"), Some("download"), Some("nzb"), None, false);
    let p = passwords_of(&passwords);
    assert_eq!(passwords.len(), 3);
    assert_eq!(p[0], "cached");
    assert_eq!(p[1], "download");
    assert_eq!(p[2], "nzb");
}

#[test]
fn extraction_test_password_list_collect_deduplication() {
    let passwords =
        PasswordList::collect(Some("duplicate"), Some("duplicate"), Some("unique"), None, false);
    let p = passwords_of(&passwords);
    assert_eq!(passwords.len(), 2);
    assert_eq!(p[0], "duplicate");
    assert_eq!(p[1], "unique");
}

#[test]
fn extraction_test_password_list_collect_with_empty() {
    let passwords = PasswordList::collect(Some("test"), None, None, None, true);
    let p = passwords_of(&passwords);
    assert_eq!(passwords.len(), 2);
    assert_eq!(p[0], "test");
    assert_eq!(p[1], "");
}

#[test]
fn extraction_test_password_list_priority_order() {
    let passwords = PasswordList::collect(Some("cached"), Some("download"), Some("nzb"), None, true);
    let p = passwords_of(&passwords);
    assert_eq!(passwords.len(), 4);
    assert_eq!(p[0], "cached");
    assert_eq!(p[1], "download");
    assert_eq!(p[2], "nzb");
    assert_eq!(p[3], "");
}

#[test]
fn password_file_lines_are_trimmed_and_deduplicated() {
    let content = "  alpha  \n\nbeta\r\ncached\n   \nalpha\n";
    let passwords = PasswordList::collect(Some("cached"), None, None, Some(content), true);
    assert_eq!(passwords_of(&passwords), vec!["cached", "alpha", "beta", ""]);
}

#[test]
fn empty_password_from_a_source_is_not_repeated() {
    let passwords = PasswordList::collect(None, Some(""), None, None, true);
    assert_eq!(passwords_of(&passwords), vec![""]);
}

// ---------------------------------------------------------------------------
// Archive types
// ---------------------------------------------------------------------------

#[test]
fn extraction_test_detect_archive_type_rar() {
    assert_eq!(detect_archive_type("test.rar"), Some(ArchiveType::Rar));
    assert_eq!(detect_archive_type("TEST.RAR"), Some(ArchiveType::Rar));
}

#[test]
fn extraction_test_detect_archive_type_rar_split() {
    assert_eq!(detect_archive_type("test.r00"), Some(ArchiveType::Rar));
    assert_eq!(detect_archive_type("TEST.R00"), Some(ArchiveType::Rar));
}

#[test]
fn extraction_test_detect_archive_type_7z() {
    assert_eq!(detect_archive_type("test.7z"), Some(ArchiveType::SevenZip));
    assert_eq!(detect_archive_type("TEST.7Z"), Some(ArchiveType::SevenZip));
}

#[test]
fn extraction_test_detect_archive_type_zip() {
    assert_eq!(detect_archive_type("test.zip"), Some(ArchiveType::Zip));
    assert_eq!(detect_archive_type("TEST.ZIP"), Some(ArchiveType::Zip));
}

#[test]
fn extraction_test_detect_archive_type_unknown() {
    assert_eq!(detect_archive_type("test.txt"), None);
    assert_eq!(detect_archive_type("test.nzb"), None);
    assert_eq!(detect_archive_type("test.par2"), None);
    assert_eq!(detect_archive_type("test"), None);
}

#[test]
fn extraction_test_detect_archive_type_with_path() {
    assert_eq!(detect_archive_type("/path/to/archive.rar"), Some(ArchiveType::Rar));
    assert_eq!(detect_archive_type("/another/path/file.7z"), Some(ArchiveType::SevenZip));
    assert_eq!(detect_archive_type("relative/path/file.zip"), Some(ArchiveType::Zip));
}

#[test]
fn mod_test_detect_archive_type_rar() {
    assert_eq!(detect_archive_type("test.rar"), Some(ArchiveType::Rar));
    assert_eq!(detect_archive_type("TEST.RAR"), Some(ArchiveType::Rar));
}

#[test]
fn mod_test_detect_archive_type_rar_split() {
    assert_eq!(detect_archive_type("test.r00"), Some(ArchiveType::Rar));
    assert_eq!(detect_archive_type("TEST.R00"), Some(ArchiveType::Rar));
}

#[test]
fn mod_test_detect_archive_type_7z() {
    assert_eq!(detect_archive_type("test.7z"), Some(ArchiveType::SevenZip));
    assert_eq!(detect_archive_type("TEST.7Z"), Some(ArchiveType::SevenZip));
}

#[test]
fn mod_test_detect_archive_type_zip() {
    assert_eq!(detect_archive_type("test.zip"), Some(ArchiveType::Zip));
    assert_eq!(detect_archive_type("TEST.ZIP"), Some(ArchiveType::Zip));
}

#[test]
fn mod_test_detect_archive_type_unknown() {
    assert_eq!(detect_archive_type("test.txt"), None);
    assert_eq!(detect_archive_type("test.nzb"), None);
    assert_eq!(detect_archive_type("test.par2"), None);
    assert_eq!(detect_archive_type("test"), None);
}

#[test]
fn mod_test_detect_archive_type_with_path() {
    assert_eq!(detect_archive_type("/path/to/archive.rar"), Some(ArchiveType::Rar));
    assert_eq!(detect_archive_type("/another/path/file.7z"), Some(ArchiveType::SevenZip));
    assert_eq!(detect_archive_type("relative/path/file.zip"), Some(ArchiveType::Zip));
}

#[test]
fn detect_archive_type_no_extension_returns_none() {
    assert_eq!(detect_archive_type("no_extension"), None);
}

#[test]
fn detect_archive_type_double_extension_uses_last() {
    assert_eq!(
        detect_archive_type("file.tar.zip"),
        Some(ArchiveType::Zip),
        "should detect based on last extension"
    );
}

#[test]
fn unknown_archive_type_is_an_extraction_failure() {
    match archive_type_for_extraction("test.txt") {
        Err(Error::PostProcess(PostProcessError::ExtractionFailed { archive, reason })) => {
            assert_eq!(archive, "test.txt");
            assert_eq!(reason, "unknown archive type for file: test.txt");
        }
        other => panic!("unexpected {:?}", other),
    }
    assert!(matches!(archive_type_for_extraction("a.7z"), Ok(ArchiveType::SevenZip)));
}

// ---------------------------------------------------------------------------
// Archives by configured extension
// ---------------------------------------------------------------------------

#[test]
fn test_is_archive_rar() {
    let extensions = ExtractionConfig::default().archive_extensions;
    assert!(is_archive("file.rar", &extensions));
    assert!(is_archive("file.RAR", &extensions));
    assert!(is_archive("/path/to/file.rar", &extensions));
}

#[test]
fn test_is_archive_7z() {
    let extensions = ExtractionConfig::default().archive_extensions;
    assert!(is_archive("file.7z", &extensions));
    assert!(is_archive("FILE.7Z", &extensions));
}

#[test]
fn test_is_archive_zip() {
    let extensions = ExtractionConfig::default().archive_extensions;
    assert!(is_archive("file.zip", &extensions));
    assert!(is_archive("file.ZIP", &extensions));
}

#[test]
fn test_is_archive_non_archive() {
    let extensions = ExtractionConfig::default().archive_extensions;
    assert!(!is_archive("file.txt", &extensions));
    assert!(!is_archive("file.nzb", &extensions));
    assert!(!is_archive("file.par2", &extensions));
    assert!(!is_archive("file", &extensions));
}

#[test]
fn test_is_archive_custom_extensions() {
    let custom_extensions = vec!["rar".to_string(), "custom".to_string()];
    assert!(is_archive("file.rar", &custom_extensions));
    assert!(is_archive("file.custom", &custom_extensions));
    assert!(!is_archive("file.zip", &custom_extensions));
    assert!(!is_archive("file.7z", &custom_extensions));
}

#[test]
fn test_is_archive_no_extension() {
    let extensions = ExtractionConfig::default().archive_extensions;
    assert!(!is_archive("file_no_ext", &extensions));
    assert!(!is_archive("/path/to/file", &extensions));
}

#[test]
fn test_is_archive_case_insensitive() {
    let extensions = ExtractionConfig::default().archive_extensions;
    assert!(is_archive("file.RaR", &extensions));
    assert!(is_archive("file.ZiP", &extensions));
    assert!(is_archive("file.7Z", &extensions));
}

#[test]
fn test_extraction_config_default() {
    let config = ExtractionConfig::default();

    assert_eq!(config.max_recursion_depth, 2);
    assert!(!config.archive_extensions.is_empty());

    let exts = &config.archive_extensions;
    assert!(exts.contains(&"rar".to_string()));
    assert!(exts.contains(&"zip".to_string()));
    assert!(exts.contains(&"7z".to_string()));
}

#[test]
fn test_is_archive_all_default_extensions() {
    let extensions = ExtractionConfig::default().archive_extensions;
    for ext in &extensions {
        let filename = format!("test.{}", ext);
        assert!(
            is_archive(&filename, &extensions),
            "Extension {} should be recognized as archive",
            ext
        );
    }
}

#[test]
fn is_archive_empty_extensions_list_never_matches() {
    let extensions: Vec<String> = vec![];
    assert!(!is_archive("file.rar", &extensions));
    assert!(!is_archive("file.zip", &extensions));
}

#[test]
fn is_archive_dotfile_without_extension_returns_false() {
    let extensions = vec!["hidden".to_string()];
    assert!(
        !is_archive(".hidden", &extensions),
        "dotfile with no extension should not match"
    );
}

// ---------------------------------------------------------------------------
// RAR
// ---------------------------------------------------------------------------

#[test]
fn rar_is_password_error_returns_true_for_password_keyword() {
    assert!(
        RarExtractor::is_password_error_pub("wrong password supplied"),
        "should detect 'password' keyword"
    );
}

#[test]
fn rar_is_password_error_returns_true_for_encrypted_keyword() {
    assert!(
        RarExtractor::is_password_error_pub("file is encrypted"),
        "should detect 'encrypted' keyword"
    );
}

#[test]
fn rar_is_password_error_returns_true_for_erar_bad_password() {
    assert!(
        RarExtractor::is_password_error_pub("ERAR_BAD_PASSWORD"),
        "should detect ERAR_BAD_PASSWORD code"
    );
}

#[test]
fn rar_is_password_error_returns_false_for_crc_error() {
    assert!(
        !RarExtractor::is_password_error_pub("CRC check failed"),
        "CRC error is not a password error"
    );
}

#[test]
fn rar_is_password_error_returns_false_for_generic_io_error() {
    assert!(
        !RarExtractor::is_password_error_pub("no such file or directory"),
        "IO error is not a password error"
    );
}

#[test]
fn rar_is_password_error_returns_false_for_empty_string() {
    assert!(
        !RarExtractor::is_password_error_pub(""),
        "empty string should not be a password error"
    );
}

#[test]
fn rar_errors_are_classified() {
    assert!(matches!(
        RarExtractor::convert_unrar_error("ERAR_BAD_PASSWORD", "a.rar"),
        Error::PostProcess(PostProcessError::WrongPassword { archive }) if archive == "a.rar"
    ));
    assert!(matches!(
        RarExtractor::convert_unrar_error("CRC failed", "a.rar"),
        Error::PostProcess(PostProcessError::ExtractionFailed { archive, reason })
            if archive == "a.rar" && reason == "CRC failed"
    ));
    assert!(matches!(
        RarExtractor::skip_error(true, "boom", "a.rar"),
        Error::PostProcess(PostProcessError::ExtractionFailed { reason, .. })
            if reason == "failed to skip unsafe entry: boom"
    ));
    assert!(matches!(
        RarExtractor::skip_error(false, "boom", "a.rar"),
        Error::PostProcess(PostProcessError::ExtractionFailed { reason, .. })
            if reason == "failed to skip directory: boom"
    ));
}

#[test]
fn rar_entries_stay_inside_the_destination() {
    match RarExtractor::entry_action("/dest", "../../etc/passwd", false) {
        RarEntryAction::ExtractTo(p) => assert_eq!(p, "/dest/etc/passwd"),
        other => panic!("unexpected {:?}", other),
    }
    match RarExtractor::entry_action("/dest", "/abs/./file.txt", false) {
        RarEntryAction::ExtractTo(p) => assert_eq!(p, "/dest/abs/file.txt"),
        other => panic!("unexpected {:?}", other),
    }
    assert!(matches!(RarExtractor::entry_action("/dest", "..", false), RarEntryAction::SkipUnsafe));
    assert!(matches!(RarExtractor::entry_action("/dest", "sub", true), RarEntryAction::SkipDirectory));
}

#[test]
fn rar_detection_from_a_listing() {
    let entries = vec![
        file("/d/a.rar"),
        file("/d/b.R00"),
        file("/d/c.r01"),
        dir("/d/dir.rar"),
        file("/d/d.txt"),
    ];
    assert_eq!(RarExtractor::detect_rar_files(&entries), vec!["/d/a.rar", "/d/b.R00"]);
    assert!(RarExtractor::detect_rar_files(&[]).is_empty());
}

// ---------------------------------------------------------------------------
// 7z
// ---------------------------------------------------------------------------

#[test]
fn sevenz_detection_and_errors() {
    let entries = vec![file("/d/a.7z"), file("/d/b.7Z"), dir("/d/c.7z"), file("/d/e.zip")];
    assert_eq!(SevenZipExtractor::detect_7z_files(&entries), vec!["/d/a.7z", "/d/b.7Z"]);
    assert!(matches!(
        SevenZipExtractor::convert_error("Wrong password", "x.7z"),
        Error::PostProcess(PostProcessError::WrongPassword { .. })
    ));
    assert!(matches!(
        SevenZipExtractor::convert_error("bad header", "x.7z"),
        Error::PostProcess(PostProcessError::ExtractionFailed { reason, .. })
            if reason == "failed to extract 7z archive: bad header"
    ));
}

#[test]
fn sevenz_validation_rejects_paths_outside_destination() {
    let inside = vec![
        WalkedEntry { dir: "/dest".into(), canonical: "/dest/a.txt".into() },
        WalkedEntry { dir: "/dest".into(), canonical: "/dest/sub".into() },
    ];
    assert!(SevenZipExtractor::validate_extracted_paths_pub("/dest", &inside).is_ok());

    let outside = vec![
        WalkedEntry { dir: "/dest".into(), canonical: "/dest/a.txt".into() },
        WalkedEntry { dir: "/dest/sub".into(), canonical: "/destination/x".into() },
        WalkedEntry { dir: "/dest".into(), canonical: "/etc/passwd".into() },
    ];
    match SevenZipExtractor::validate_extracted_paths_pub("/dest", &outside) {
        Err(Error::PostProcess(PostProcessError::ExtractionFailed { archive, reason })) => {
            assert_eq!(archive, "/dest/sub");
            assert_eq!(
                reason,
                "path traversal detected: extracted file \"/destination/x\" is outside destination"
            );
        }
        other => panic!("unexpected {:?}", other),
    }
}

#[test]
fn sevenz_collects_files_not_directories() {
    let walk = vec![dir("/d/sub"), file("/d/sub/a"), file("/d/b"), dir("/d/sub2")];
    assert_eq!(SevenZipExtractor::collect_extracted_files_pub(&walk), vec!["/d/sub/a", "/d/b"]);
    assert!(SevenZipExtractor::collect_extracted_files_pub(&[]).is_empty());
}

// ---------------------------------------------------------------------------
// ZIP
// ---------------------------------------------------------------------------

#[test]
fn zip_errors_are_classified() {
    assert!(ZipExtractor::is_password_error("invalid password for file"));
    assert!(!ZipExtractor::is_password_error("invalid Zip archive"));
    assert!(matches!(
        ZipExtractor::entry_error("encrypted file", "a.zip"),
        Error::PostProcess(PostProcessError::WrongPassword { .. })
    ));
    assert!(matches!(
        ZipExtractor::entry_error("bad", "a.zip"),
        Error::PostProcess(PostProcessError::ExtractionFailed { reason, .. })
            if reason == "failed to read ZIP entry: bad"
    ));
    assert!(matches!(
        ZipExtractor::copy_error("bad", "a.zip"),
        Error::Io(m) if m == "failed to extract file: bad"
    ));
    assert!(matches!(
        ZipExtractor::archive_error("bad", "a.zip"),
        Error::PostProcess(PostProcessError::ExtractionFailed { reason, .. })
            if reason == "failed to read ZIP archive: bad"
    ));
    assert!(matches!(
        ZipExtractor::decrypt_error("a.zip"),
        Error::PostProcess(PostProcessError::WrongPassword { archive }) if archive == "a.zip"
    ));
}

#[test]
fn zip_entry_actions() {
    assert!(matches!(ZipExtractor::entry_action("/d", None, false), ZipEntryAction::Skip));
    match ZipExtractor::entry_action("/d", Some("sub".to_string()), true) {
        ZipEntryAction::CreateDir(p) => assert_eq!(p, "/d/sub"),
        other => panic!("unexpected {:?}", other),
    }
    match ZipExtractor::entry_action("/d", Some("sub/f.txt".to_string()), false) {
        ZipEntryAction::ExtractFile(p) => assert_eq!(p, "/d/sub/f.txt"),
        other => panic!("unexpected {:?}", other),
    }
    let entries = vec![file("/d/a.zip"), file("/d/b.ZIP"), file("/d/c.7z")];
    assert_eq!(ZipExtractor::detect_zip_files(&entries), vec!["/d/a.zip", "/d/b.ZIP"]);
}

// ---------------------------------------------------------------------------
// Nested extraction and password attempts
// ---------------------------------------------------------------------------

#[test]
fn nested_plan_respects_depth_and_names_directories() {
    let config = ExtractionConfig::default();
    let files = vec![
        "/x/inner.zip".to_string(),
        "/x/readme.txt".to_string(),
        "/x/more.RAR".to_string(),
    ];
    let plan = nested_extraction_plan(&files, "/x", &config, 0);
    assert_eq!(plan.len(), 2);
    assert_eq!(plan[0].archive, "/x/inner.zip");
    assert_eq!(plan[0].dest, "/x/nested_inner_1");
    assert_eq!(plan[1].archive, "/x/more.RAR");
    assert_eq!(plan[1].dest, "/x/nested_more_1");
    assert!(nested_extraction_plan(&files, "/x", &config, 2).is_empty());
    let shallow = ExtractionConfig { max_recursion_depth: 0, ..ExtractionConfig::default() };
    assert!(nested_extraction_plan(&files, "/x", &shallow, 0).is_empty());
}

#[test]
fn nested_results_are_combined_in_order() {
    let own = vec!["a".to_string(), "b".to_string()];
    let nested = vec![
        Ok(vec!["c".to_string()]),
        Err(Error::Other("bad".into())),
        Ok(vec!["d".to_string(), "e".to_string()]),
    ];
    assert_eq!(combine_nested_results(own, &nested), vec!["a", "b", "c", "d", "e"]);
}

#[test]
fn password_attempts_try_each_password_then_fail() {
    let passwords = PasswordList::collect(Some("one"), Some("two"), None, None, false);
    let (mut attempts, step) = PasswordAttempts::start("a.rar", &passwords);
    assert!(matches!(step, AttemptStep::Try(0)));
    assert!(matches!(attempts.next(AttemptOutcome::WrongPassword), AttemptStep::Try(1)));
    match attempts.next(AttemptOutcome::WrongPassword) {
        AttemptStep::Failed(Error::PostProcess(PostProcessError::AllPasswordsFailed { archive, count })) => {
            assert_eq!(archive, "a.rar");
            assert_eq!(count, 2);
        }
        other => panic!("unexpected {:?}", other),
    }
}

#[test]
fn password_attempts_stop_at_success_or_other_error() {
    let passwords = PasswordList::collect(Some("one"), Some("two"), None, None, true);
    let (mut attempts, _) = PasswordAttempts::start("a.zip", &passwords);
    assert!(matches!(attempts.next(AttemptOutcome::WrongPassword), AttemptStep::Try(1)));
    match attempts.next(AttemptOutcome::Extracted(vec!["f".to_string()])) {
        AttemptStep::Succeeded { index, files } => {
            assert_eq!(index, 1);
            assert_eq!(files, vec!["f"]);
        }
        other => panic!("unexpected {:?}", other),
    }
    let (mut attempts, _) = PasswordAttempts::start("a.zip", &passwords);
    assert!(matches!(
        attempts.next(AttemptOutcome::Failed(Error::Io("disk full".into()))),
        AttemptStep::Failed(Error::Io(m)) if m == "disk full"
    ));
    let (mut attempts, _) = PasswordAttempts::start("a.zip", &passwords);
    assert!(matches!(
        attempts.next(AttemptOutcome::Aborted("boom".into())),
        AttemptStep::Failed(Error::PostProcess(PostProcessError::ExtractionFailed { reason, .. }))
            if reason == "extraction task panicked: boom"
    ));
}

#[test]
fn password_attempts_without_passwords_fail_at_once() {
    let passwords = PasswordList::collect(None, None, None, None, false);
    let (_, step) = PasswordAttempts::start("a.7z", &passwords);
    assert!(matches!(
        step,
        AttemptStep::Failed(Error::PostProcess(PostProcessError::NoPasswordsAvailable { archive }))
            if archive == "a.7z"
    ));
}

#[test]
fn extractor_results_become_outcomes() {
    assert!(matches!(outcome_of(Ok(vec!["f".to_string()])), AttemptOutcome::Extracted(ref v) if v == &vec!["f".to_string()]));
    assert!(matches!(
        outcome_of(Err(Error::PostProcess(PostProcessError::WrongPassword { archive: "a".into() }))),
        AttemptOutcome::WrongPassword
    ));
    assert!(matches!(outcome_of(Err(Error::Io("x".into()))), AttemptOutcome::Failed(Error::Io(_))));
}

#[test]
fn retry_loop_stops_at_first_non_wrong_password() {
    let passwords = PasswordList::collect(Some("a"), Some("b"), Some("c"), None, false);
    let (mut attempts, step) = PasswordAttempts::start("x.rar", &passwords);
    assert!(matches!(step, AttemptStep::Try(0)));
    assert!(matches!(attempts.next(outcome_of(Err(Error::PostProcess(PostProcessError::WrongPassword { archive: "x.rar".into() })))), AttemptStep::Try(1)));
    assert!(matches!(
        attempts.next(outcome_of(Err(Error::Io("disk".into())))),
        AttemptStep::Failed(Error::Io(ref m)) if m == "disk"
    ));
}
