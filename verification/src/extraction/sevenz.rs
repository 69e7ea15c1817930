//! 7z archives: which files are 7z archives and which decompression errors
//! mean a wrong password.
use vstd::prelude::*;
use crate::error::{Error, PostProcessError, is_extraction_failed, is_wrong_password};
use crate::extraction::shared::{DirEntry, files_with_ext, select_archives};
use crate::text::append_str;
use crate::text::{chars_of, concat_str, contains_str, has_substring, str_views};

verus! {

/// Archive extractor for 7z files.
pub struct SevenZipExtractor;

/// `Path::new(path).starts_with(base)`: the components of `base` are a
/// prefix of those of `path`.
pub uninterp spec fn spec_path_starts_with(path: Seq<char>, base: Seq<char>) -> bool;

/// `format!("{:?}", Path::new(path))`: the quoted, escaped form of a path.
pub uninterp spec fn spec_debug_path(path: Seq<char>) -> Seq<char>;

/// `Path::starts_with`.
#[verifier::external_body]
fn path_starts_with(path: &str, base: &str) -> (r: bool)
    ensures
        r == spec_path_starts_with(path@, base@),
{
    std::path::Path::new(path).starts_with(base)
}

/// The `Debug` text of a path.
#[verifier::external_body]
fn debug_path(path: &str) -> (r: String)
    ensures
        r@ == spec_debug_path(path@),
{
    format!("{:?}", std::path::Path::new(path))
}

/// An entry met while walking an extraction directory: the directory being
/// read and the entry's canonical path.
#[derive(Debug, Clone)]
pub struct WalkedEntry {
    /// The directory whose listing holds the entry.
    pub dir: String,
    /// The entry's canonical path.
    pub canonical: String,
}

/// The reason for an extracted file outside the destination.
pub open spec fn traversal_reason(canonical: Seq<char>) -> Seq<char> {
    "path traversal detected: extracted file "@ + spec_debug_path(canonical)
        + " is outside destination"@
}

/// The index of the first walked entry outside the destination.
pub open spec fn first_outside(entries: Seq<WalkedEntry>, canonical_dest: Seq<char>) -> Option<int>
    decreases entries.len(),
{
    if entries.len() == 0 {
        None
    } else {
        match first_outside(entries.drop_last(), canonical_dest) {
            Some(i) => Some(i),
            None => if !spec_path_starts_with(entries.last().canonical@, canonical_dest) {
                Some(entries.len() - 1)
            } else {
                None
            },
        }
    }
}

/// The paths of the entries that are not directories, in order.
pub open spec fn walked_files(entries: Seq<DirEntry>) -> Seq<Seq<char>>
    decreases entries.len(),
{
    if entries.len() == 0 {
        seq![]
    } else {
        walked_files(entries.drop_last()) + if entries.last().is_dir {
            seq![]
        } else {
            seq![entries.last().path@]
        }
    }
}

/// A first offending entry in a prefix is the first of the whole walk.
proof fn lemma_first_outside_extends(
    entries: Seq<WalkedEntry>,
    canonical_dest: Seq<char>,
    n: int,
    i: int,
)
    requires
        0 <= n <= entries.len(),
        first_outside(entries.take(n), canonical_dest) == Some(i),
    ensures
        first_outside(entries, canonical_dest) == Some(i),
    decreases entries.len() - n,
{
    if n < entries.len() {
        assert(entries.take(n + 1).drop_last() =~= entries.take(n));
        lemma_first_outside_extends(entries, canonical_dest, n + 1, i);
    } else {
        assert(entries.take(n) =~= entries);
    }
}

/// A 7z error message that means a wrong or missing password.
pub open spec fn spec_is_7z_password_error(msg: Seq<char>) -> bool {
    has_substring(msg, "password"@) || has_substring(msg, "encrypted"@) || has_substring(
        msg,
        "Wrong password"@,
    )
}

impl SevenZipExtractor {
    /// The 7z archives of a directory listing: files (not directories) with
    /// extension `.7z`, compared case-insensitively, in listing order.
    pub fn detect_7z_files(entries: &[DirEntry]) -> (r: Vec<String>)
        ensures
            str_views(r@) == files_with_ext(entries@, seq!["7z"@, "7z"@]),
    {
        select_archives(entries, "7z", "7z")
    }

    /// The error for a failed 7z decompression with the given message:
    /// `WrongPassword` for a password problem, else `ExtractionFailed` with
    /// reason "failed to extract 7z archive: {message}".
    pub fn convert_error(error_msg: &str, archive_path: &str) -> (r: Error)
        ensures
            spec_is_7z_password_error(error_msg@) ==> is_wrong_password(r, archive_path@),
            !spec_is_7z_password_error(error_msg@) ==> is_extraction_failed(
                r,
                archive_path@,
                "failed to extract 7z archive: "@ + error_msg@,
            ),
    {
        let m = chars_of(error_msg);
        if contains_str(m.as_slice(), "password") || contains_str(m.as_slice(), "encrypted")
            || contains_str(m.as_slice(), "Wrong password") {
            Error::PostProcess(PostProcessError::WrongPassword { archive: archive_path.to_string() })
        } else {
            Error::PostProcess(
                PostProcessError::ExtractionFailed {
                    archive: archive_path.to_string(),
                    reason: concat_str("failed to extract 7z archive: ", error_msg),
                },
            )
        }
    }

    /// Checks one extracted entry: its canonical path must lie inside the
    /// canonical destination; otherwise extraction fails for the directory
    /// being read with "path traversal detected: extracted file {path:?} is
    /// outside destination".
    pub fn check_extracted_path(dir: &str, canonical_dest: &str, canonical: &str) -> (r: Result<
        (),
        Error,
    >)
        ensures
            spec_path_starts_with(canonical@, canonical_dest@) ==> r is Ok,
            !spec_path_starts_with(canonical@, canonical_dest@) ==> (r matches Err(e)
                && is_extraction_failed(e, dir@, traversal_reason(canonical@))),
    {
        if path_starts_with(canonical, canonical_dest) {
            Ok(())
        } else {
            let mut reason = "path traversal detected: extracted file ".to_string();
            append_str(&mut reason, debug_path(canonical).as_str());
            append_str(&mut reason, " is outside destination");
            Err(
                Error::PostProcess(
                    PostProcessError::ExtractionFailed { archive: dir.to_string(), reason },
                ),
            )
        }
    }

    /// Checks a depth-first walk of an extraction directory: fails for the
    /// first entry whose canonical path lies outside the canonical
    /// destination (a path traversal through the archive's names or links).
    pub fn validate_extracted_paths(canonical_dest: &str, entries: &[WalkedEntry]) -> (r: Result<
        (),
        Error,
    >)
        ensures
            match first_outside(entries@, canonical_dest@) {
                None => r is Ok,
                Some(i) => r matches Err(e) && is_extraction_failed(
                    e,
                    entries@[i].dir@,
                    traversal_reason(entries@[i].canonical@),
                ),
            },
    {
        let mut i: usize = 0;
        assert(entries@.take(0) =~= Seq::<WalkedEntry>::empty());
        while i < entries.len()
            invariant
                i <= entries@.len(),
                first_outside(entries@.take(i as int), canonical_dest@) is None,
            decreases entries@.len() - i,
        {
            assert(entries@.take(i + 1).drop_last() =~= entries@.take(i as int));
            let r = Self::check_extracted_path(
                entries[i].dir.as_str(),
                canonical_dest,
                entries[i].canonical.as_str(),
            );
            if r.is_err() {
                proof {
                    assert(first_outside(entries@.take(i + 1), canonical_dest@) == Some(i as int));
                    lemma_first_outside_extends(entries@, canonical_dest@, i + 1, i as int);
                }
                return r;
            }
            i += 1;
        }
        assert(entries@.take(entries@.len() as int) =~= entries@);
        Ok(())
    }

    /// Checks a depth-first walk of an extraction directory (the accessor
    /// the tests use).
    pub fn validate_extracted_paths_pub(canonical_dest: &str, entries: &[WalkedEntry]) -> (r:
        Result<(), Error>)
        ensures
            match first_outside(entries@, canonical_dest@) {
                None => r is Ok,
                Some(i) => r matches Err(e) && is_extraction_failed(
                    e,
                    entries@[i].dir@,
                    traversal_reason(entries@[i].canonical@),
                ),
            },
    {
        Self::validate_extracted_paths(canonical_dest, entries)
    }

    /// The extracted files of a depth-first walk of the extraction
    /// directory: every entry that is not a directory, in walk order.
    pub fn collect_extracted_files(entries: &[DirEntry]) -> (r: Vec<String>)
        ensures
            str_views(r@) == walked_files(entries@),
    {
        let mut out: Vec<String> = Vec::new();
        let mut i: usize = 0;
        assert(entries@.take(0) =~= Seq::<DirEntry>::empty());
        while i < entries.len()
            invariant
                i <= entries@.len(),
                str_views(out@) == walked_files(entries@.take(i as int)),
            decreases entries@.len() - i,
        {
            assert(entries@.take(i + 1).drop_last() =~= entries@.take(i as int));
            assert(entries@.take(i + 1).last() == entries@[i as int]);
            if !entries[i].is_dir {
                let ghost prev = out@;
                out.push(entries[i].path.clone());
                assert(str_views(out@) =~= str_views(prev).push(entries@[i as int].path@));
            }
            assert(str_views(out@) =~= walked_files(entries@.take(i + 1)));
            i += 1;
        }
        assert(entries@.take(entries@.len() as int) =~= entries@);
        out
    }

    /// The extracted files of a depth-first walk (the accessor the tests
    /// use).
    pub fn collect_extracted_files_pub(entries: &[DirEntry]) -> (r: Vec<String>)
        ensures
            str_views(r@) == walked_files(entries@),
    {
        Self::collect_extracted_files(entries)
    }
}

} // verus!
