//! RAR archives: which files are RAR archives, which unrar errors mean a
//! wrong password, and where entries are extracted.
use vstd::prelude::*;
use crate::error::{Error, PostProcessError, is_extraction_failed, is_wrong_password};
use crate::extraction::shared::{DirEntry, files_with_ext, select_archives};
use crate::paths::{join, spec_join};
use crate::parity::traits::opt_view;
use crate::text::{chars_of, concat_str, contains_str, has_substring, str_views};

verus! {

/// Archive extractor for RAR files.
pub struct RarExtractor;

/// What `Path::components` yields for a name: the text of each normal
/// component, and `None` for any other component (root, prefix, `.`, `..`).
pub uninterp spec fn spec_components(name: Seq<char>) -> Seq<Option<Seq<char>>>;

/// The path made of the normal components, joined in order (the empty path
/// when there is none).
pub open spec fn normal_path(comps: Seq<Option<Seq<char>>>) -> Seq<char>
    decreases comps.len(),
{
    if comps.len() == 0 {
        seq![]
    } else {
        match comps.last() {
            Some(c) => spec_join(normal_path(comps.drop_last()), c),
            None => normal_path(comps.drop_last()),
        }
    }
}

/// An error message of unrar that means a wrong or missing password.
pub open spec fn spec_is_rar_password_error(msg: Seq<char>) -> bool {
    has_substring(msg, "password"@) || has_substring(msg, "encrypted"@) || has_substring(
        msg,
        "ERAR_BAD_PASSWORD"@,
    )
}

/// What to do with an entry of a RAR archive.
#[derive(Debug)]
pub enum RarEntryAction {
    /// Skip an entry whose name keeps no normal component.
    SkipUnsafe,
    /// Skip a directory entry.
    SkipDirectory,
    /// Extract the entry to this path.
    ExtractTo(String),
}

/// `Path::components` of a name, each normal component by its text.
#[verifier::external_body]
fn path_components(name: &str) -> (r: Vec<Option<String>>)
    ensures
        r@.map_values(|c: Option<String>| opt_view(c)) == spec_components(name@),
{
    std::path::Path::new(name).components().map(|c| match c {
        std::path::Component::Normal(s) => Some(s.to_string_lossy().into_owned()),
        _ => None,
    }).collect()
}

/// The path made of the normal components of a name: what is left of an
/// entry name once roots, prefixes, `.` and `..` are dropped.
pub fn sanitized_name(name: &str) -> (r: String)
    ensures
        r@ == normal_path(spec_components(name@)),
{
    let comps = path_components(name);
    let ghost cv = comps@.map_values(|c: Option<String>| opt_view(c));
    let mut out = String::new();
    let mut i: usize = 0;
    assert(cv.take(0) =~= Seq::<Option<Seq<char>>>::empty());
    while i < comps.len()
        invariant
            i <= comps@.len(),
            cv == comps@.map_values(|c: Option<String>| opt_view(c)),
            out@ == normal_path(cv.take(i as int)),
        decreases comps@.len() - i,
    {
        assert(cv.take(i + 1).drop_last() =~= cv.take(i as int));
        assert(cv.take(i + 1).last() == opt_view(comps@[i as int]));
        match &comps[i] {
            Some(c) => {
                out = join(out.as_str(), c.as_str());
            },
            None => {},
        }
        i += 1;
    }
    assert(cv.take(comps@.len() as int) =~= cv);
    out
}

impl RarExtractor {
    /// The RAR archives of a directory listing: files (not directories)
    /// with extension `.rar` or `.r00` (the main file or first part of a
    /// split archive), compared case-insensitively, in listing order.
    pub fn detect_rar_files(entries: &[DirEntry]) -> (r: Vec<String>)
        ensures
            str_views(r@) == files_with_ext(entries@, seq!["rar"@, "r00"@]),
    {
        select_archives(entries, "rar", "r00")
    }

    /// Whether an unrar error message indicates a password problem.
    pub fn is_password_error(error_msg: &str) -> (r: bool)
        ensures
            r == spec_is_rar_password_error(error_msg@),
    {
        let m = chars_of(error_msg);
        contains_str(m.as_slice(), "password") || contains_str(m.as_slice(), "encrypted")
            || contains_str(m.as_slice(), "ERAR_BAD_PASSWORD")
    }

    /// Whether an unrar error message indicates a password problem (the
    /// accessor the tests use).
    pub fn is_password_error_pub(error_msg: &str) -> (r: bool)
        ensures
            r == spec_is_rar_password_error(error_msg@),
    {
        Self::is_password_error(error_msg)
    }

    /// The error for an unrar error message: `WrongPassword` for a password
    /// problem, else `ExtractionFailed` with the message as reason.
    pub fn convert_unrar_error(error_msg: &str, archive_path: &str) -> (r: Error)
        ensures
            spec_is_rar_password_error(error_msg@) ==> is_wrong_password(r, archive_path@),
            !spec_is_rar_password_error(error_msg@) ==> is_extraction_failed(
                r,
                archive_path@,
                error_msg@,
            ),
    {
        if Self::is_password_error(error_msg) {
            Error::PostProcess(PostProcessError::WrongPassword { archive: archive_path.to_string() })
        } else {
            Error::PostProcess(
                PostProcessError::ExtractionFailed {
                    archive: archive_path.to_string(),
                    reason: error_msg.to_string(),
                },
            )
        }
    }

    /// Where an entry of a RAR archive goes: an entry whose name keeps no
    /// normal component (such as a pure `..`) is skipped as unsafe; a
    /// directory entry is skipped; a file is extracted to `dest_path` joined
    /// with its name's normal components, which keeps it inside `dest_path`.
    pub fn entry_action(dest_path: &str, entry_name: &str, is_directory: bool) -> (r:
        RarEntryAction)
        ensures
            normal_path(spec_components(entry_name@)).len() == 0 ==> r is SkipUnsafe,
            normal_path(spec_components(entry_name@)).len() > 0 && is_directory ==> r is SkipDirectory,
            normal_path(spec_components(entry_name@)).len() > 0 && !is_directory ==> (r matches RarEntryAction::ExtractTo(p) && p@ == spec_join(
                dest_path@,
                normal_path(spec_components(entry_name@)),
            )),
    {
        let sanitized = sanitized_name(entry_name);
        if sanitized.as_str().is_empty() {
            RarEntryAction::SkipUnsafe
        } else if is_directory {
            RarEntryAction::SkipDirectory
        } else {
            RarEntryAction::ExtractTo(join(dest_path, sanitized.as_str()))
        }
    }

    /// The error for failing to skip an entry: "failed to skip unsafe entry:
    /// {message}" for an unsafe entry, "failed to skip directory: {message}"
    /// for a directory.
    pub fn skip_error(unsafe_entry: bool, error_msg: &str, archive_path: &str) -> (r: Error)
        ensures
            unsafe_entry ==> is_extraction_failed(
                r,
                archive_path@,
                "failed to skip unsafe entry: "@ + error_msg@,
            ),
            !unsafe_entry ==> is_extraction_failed(
                r,
                archive_path@,
                "failed to skip directory: "@ + error_msg@,
            ),
    {
        let reason = if unsafe_entry {
            concat_str("failed to skip unsafe entry: ", error_msg)
        } else {
            concat_str("failed to skip directory: ", error_msg)
        };
        Error::PostProcess(
            PostProcessError::ExtractionFailed { archive: archive_path.to_string(), reason },
        )
    }
}

} // verus!
