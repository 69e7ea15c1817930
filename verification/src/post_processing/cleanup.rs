//! What cleanup removes from a download directory: files whose extension is
//! one of the configured intermediate or archive extensions, and sample
//! folders.
use vstd::prelude::*;
use crate::paths::{eq_ignore_ascii_case, eq_ignore_ascii_case_exec, extension, file_name, spec_extension, spec_file_name};
use crate::text::{chars_of, str_views};

verus! {

/// Configuration of the cleanup stage.
#[derive(Debug, Clone)]
pub struct CleanupConfig {
    /// Whether cleanup runs at all.
    pub enabled: bool,
    /// Extensions (without dots) of intermediate files to remove.
    pub target_extensions: Vec<String>,
    /// Extensions (without dots) of archives to remove after extraction.
    pub archive_extensions: Vec<String>,
    /// Whether sample folders are removed.
    pub delete_samples: bool,
    /// Names of sample folders.
    pub sample_folder_names: Vec<String>,
}

/// Some string of the list equals `s` up to ASCII case.
pub open spec fn listed_ignoring_case(s: Seq<char>, list: Seq<Seq<char>>) -> bool {
    exists|i: int| 0 <= i < list.len() && eq_ignore_ascii_case(#[trigger] list[i], s)
}

/// Whether some string of the list equals `s` up to ASCII case.
fn in_list_ignoring_case(s: &str, list: &[String]) -> (r: bool)
    ensures
        r == listed_ignoring_case(s@, str_views(list@)),
{
    let sv = chars_of(s);
    let ghost l = str_views(list@);
    let mut i: usize = 0;
    while i < list.len()
        invariant
            i <= list@.len(),
            l == str_views(list@),
            sv@ == s@,
            forall|j: int| 0 <= j < i ==> !eq_ignore_ascii_case(#[trigger] l[j], s@),
        decreases list@.len() - i,
    {
        let lv = chars_of(list[i].as_str());
        assert(l[i as int] == list@[i as int]@);
        if eq_ignore_ascii_case_exec(lv.as_slice(), sv.as_slice()) {
            return true;
        }
        i += 1;
    }
    false
}

/// The extensions cleanup removes: the intermediate ones, then the archive
/// ones.
pub fn cleanup_extensions(config: &CleanupConfig) -> (r: Vec<String>)
    ensures
        str_views(r@) == str_views(config.target_extensions@) + str_views(
            config.archive_extensions@,
        ),
{
    let mut r: Vec<String> = Vec::new();
    let mut i: usize = 0;
    while i < config.target_extensions.len()
        invariant
            i <= config.target_extensions@.len(),
            str_views(r@) == str_views(config.target_extensions@.take(i as int)),
        decreases config.target_extensions@.len() - i,
    {
        let ghost prev = r@;
        let x = config.target_extensions[i].clone();
        r.push(x);
        assert(str_views(r@) =~= str_views(prev).push(config.target_extensions@[i as int]@));
        assert(config.target_extensions@.take(i + 1) =~= config.target_extensions@.take(
            i as int,
        ).push(config.target_extensions@[i as int]));
        assert(str_views(r@) =~= str_views(config.target_extensions@.take(i + 1)));
        i += 1;
    }
    assert(config.target_extensions@.take(i as int) =~= config.target_extensions@);
    let mut k: usize = 0;
    let ghost head = str_views(r@);
    while k < config.archive_extensions.len()
        invariant
            k <= config.archive_extensions@.len(),
            head == str_views(config.target_extensions@),
            str_views(r@) == head + str_views(config.archive_extensions@.take(k as int)),
        decreases config.archive_extensions@.len() - k,
    {
        let ghost prev = r@;
        let x = config.archive_extensions[k].clone();
        r.push(x);
        assert(str_views(r@) =~= str_views(prev).push(config.archive_extensions@[k as int]@));
        assert(config.archive_extensions@.take(k + 1) =~= config.archive_extensions@.take(
            k as int,
        ).push(config.archive_extensions@[k as int]));
        assert(str_views(r@) =~= head + str_views(config.archive_extensions@.take(k + 1)));
        k += 1;
    }
    assert(config.archive_extensions@.take(k as int) =~= config.archive_extensions@);
    r
}

/// A file is removed when its extension is one of `exts`, up to ASCII case.
pub open spec fn spec_is_cleanup_target(path: Seq<char>, exts: Seq<Seq<char>>) -> bool {
    match spec_extension(path) {
        Some(e) => listed_ignoring_case(e, exts),
        None => false,
    }
}

/// Whether cleanup removes the file at `path`.
pub fn is_cleanup_target(path: &str, exts: &[String]) -> (r: bool)
    ensures
        r == spec_is_cleanup_target(path@, str_views(exts@)),
{
    match extension(path) {
        Some(e) => in_list_ignoring_case(e.as_str(), exts),
        None => false,
    }
}

/// A directory is removed whole when sample folders are removed and its
/// name is one of the sample folder names, up to ASCII case.
pub open spec fn spec_is_sample_folder(path: Seq<char>, config: CleanupConfig) -> bool {
    config.delete_samples && match spec_file_name(path) {
        Some(n) => listed_ignoring_case(n, str_views(config.sample_folder_names@)),
        None => false,
    }
}

/// Whether cleanup removes the directory at `path` whole (and does not look
/// inside it).
pub fn is_sample_folder(path: &str, config: &CleanupConfig) -> (r: bool)
    ensures
        r == spec_is_sample_folder(path@, *config),
{
    if !config.delete_samples {
        return false;
    }
    match file_name(path) {
        Some(n) => in_list_ignoring_case(n.as_str(), config.sample_folder_names.as_slice()),
        None => false,
    }
}

/// What cleanup does with an entry of a directory it walks.
#[derive(Debug, Clone, Copy, PartialEq, Eq, Structural)]
pub enum CleanupEntry {
    /// Remove the file.
    RemoveFile,
    /// Walk the subdirectory.
    Visit,
    /// Leave the entry.
    Keep,
}

/// What cleanup does with an entry: files with a removed extension are
/// removed, subdirectories are walked, everything else stays.
pub fn cleanup_entry(path: &str, is_file: bool, is_dir: bool, exts: &[String]) -> (r:
    CleanupEntry)
    ensures
        is_file ==> (r == if spec_is_cleanup_target(path@, str_views(exts@)) {
            CleanupEntry::RemoveFile
        } else {
            CleanupEntry::Keep
        }),
        !is_file && is_dir ==> r == CleanupEntry::Visit,
        !is_file && !is_dir ==> r == CleanupEntry::Keep,
{
    if is_file {
        if is_cleanup_target(path, exts) {
            CleanupEntry::RemoveFile
        } else {
            CleanupEntry::Keep
        }
    } else if is_dir {
        CleanupEntry::Visit
    } else {
        CleanupEntry::Keep
    }
}

} // verus!
