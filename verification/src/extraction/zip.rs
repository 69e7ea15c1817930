//! ZIP archives: which files are ZIP archives and what the errors of reading
//! them mean.
use vstd::prelude::*;
use crate::error::{Error, PostProcessError, is_extraction_failed, is_io_error, is_wrong_password};
use crate::extraction::shared::{DirEntry, files_with_ext, select_archives};
use crate::paths::{join, spec_join};
use crate::text::{chars_of, concat_str, contains_str, has_substring, str_views};

verus! {

/// Archive extractor for ZIP files.
pub struct ZipExtractor;

/// What to do with an entry of a ZIP archive.
#[derive(Debug)]
pub enum ZipEntryAction {
    /// Skip an entry whose name would leave the destination.
    Skip,
    /// Create this directory.
    CreateDir(String),
    /// Write the entry's data to this file (creating its parent
    /// directories).
    ExtractFile(String),
}

/// A ZIP error message that means a wrong or missing password.
pub open spec fn spec_is_zip_password_error(msg: Seq<char>) -> bool {
    has_substring(msg, "password"@) || has_substring(msg, "encrypted"@)
}

impl ZipExtractor {
    /// The ZIP archives of a directory listing: files (not directories) with
    /// extension `.zip`, compared case-insensitively, in listing order.
    pub fn detect_zip_files(entries: &[DirEntry]) -> (r: Vec<String>)
        ensures
            str_views(r@) == files_with_ext(entries@, seq!["zip"@, "zip"@]),
    {
        select_archives(entries, "zip", "zip")
    }

    /// Whether a ZIP error message indicates a password problem.
    pub fn is_password_error(error_msg: &str) -> (r: bool)
        ensures
            r == spec_is_zip_password_error(error_msg@),
    {
        let m = chars_of(error_msg);
        contains_str(m.as_slice(), "password") || contains_str(m.as_slice(), "encrypted")
    }

    /// The error for failing to open an entry of the archive: `WrongPassword`
    /// for a password problem, else `ExtractionFailed` with reason "failed to
    /// read ZIP entry: {message}".
    pub fn entry_error(error_msg: &str, archive_path: &str) -> (r: Error)
        ensures
            spec_is_zip_password_error(error_msg@) ==> is_wrong_password(r, archive_path@),
            !spec_is_zip_password_error(error_msg@) ==> is_extraction_failed(
                r,
                archive_path@,
                "failed to read ZIP entry: "@ + error_msg@,
            ),
    {
        if Self::is_password_error(error_msg) {
            Error::PostProcess(PostProcessError::WrongPassword { archive: archive_path.to_string() })
        } else {
            Error::PostProcess(
                PostProcessError::ExtractionFailed {
                    archive: archive_path.to_string(),
                    reason: concat_str("failed to read ZIP entry: ", error_msg),
                },
            )
        }
    }

    /// The error for an entry whose decryption check failed: a wrong
    /// password.
    pub fn decrypt_error(archive_path: &str) -> (r: Error)
        ensures
            is_wrong_password(r, archive_path@),
    {
        Error::PostProcess(PostProcessError::WrongPassword { archive: archive_path.to_string() })
    }

    /// The error for failing to copy an entry's data out: `WrongPassword` for
    /// a password problem, else an I/O error "failed to extract file:
    /// {message}".
    pub fn copy_error(error_msg: &str, archive_path: &str) -> (r: Error)
        ensures
            spec_is_zip_password_error(error_msg@) ==> is_wrong_password(r, archive_path@),
            !spec_is_zip_password_error(error_msg@) ==> is_io_error(
                r,
                "failed to extract file: "@ + error_msg@,
            ),
    {
        if Self::is_password_error(error_msg) {
            Error::PostProcess(PostProcessError::WrongPassword { archive: archive_path.to_string() })
        } else {
            Error::Io(concat_str("failed to extract file: ", error_msg))
        }
    }

    /// The error for failing to read the archive itself: `ExtractionFailed`
    /// with reason "failed to read ZIP archive: {message}".
    pub fn archive_error(error_msg: &str, archive_path: &str) -> (r: Error)
        ensures
            is_extraction_failed(r, archive_path@, "failed to read ZIP archive: "@ + error_msg@),
    {
        Error::PostProcess(
            PostProcessError::ExtractionFailed {
                archive: archive_path.to_string(),
                reason: concat_str("failed to read ZIP archive: ", error_msg),
            },
        )
    }

    /// Where an entry of a ZIP archive goes, given its enclosed name (none
    /// when the name would leave the destination): skipped without a name;
    /// a directory entry is created under `dest_path`; a file is written
    /// under `dest_path`.
    pub fn entry_action(dest_path: &str, enclosed_name: Option<String>, is_dir: bool) -> (r:
        ZipEntryAction)
        ensures
            enclosed_name is None ==> r is Skip,
            enclosed_name matches Some(n) ==> if is_dir {
                r matches ZipEntryAction::CreateDir(p) && p@ == spec_join(dest_path@, n@)
            } else {
                r matches ZipEntryAction::ExtractFile(p) && p@ == spec_join(dest_path@, n@)
            },
    {
        match enclosed_name {
            None => ZipEntryAction::Skip,
            Some(n) => {
                let p = join(dest_path, n.as_str());
                if is_dir {
                    ZipEntryAction::CreateDir(p)
                } else {
                    ZipEntryAction::ExtractFile(p)
                }
            },
        }
    }
}

} // verus!
