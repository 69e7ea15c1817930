//! Watch folders for NZB import: which files are imported, which folder's
//! configuration applies to a file, and what happens to the file after
//! import.
use vstd::prelude::*;
use crate::error::Error;
use crate::paths::{eq_ignore_ascii_case, eq_ignore_ascii_case_exec, extension, file_name, join, parent, spec_extension, spec_file_name, spec_join, spec_parent};
use crate::text::{append_str, chars_of};

verus! {

/// `Path::new(a) == Path::new(b)`: the paths have the same components.
pub uninterp spec fn spec_path_eq(a: Seq<char>, b: Seq<char>) -> bool;

/// `Path::new(a) == Path::new(b)`.
#[verifier::external_body]
fn paths_equal(a: &str, b: &str) -> (r: bool)
    ensures
        r == spec_path_eq(a@, b@),
{
    std::path::Path::new(a) == std::path::Path::new(b)
}

/// What happens to an NZB file after it was added to the queue.
#[derive(Debug, Clone, Copy, PartialEq, Eq, Structural)]
pub enum WatchFolderAction {
    /// Delete the file.
    Delete,
    /// Move the file into a `processed` subfolder.
    MoveToProcessed,
    /// Leave the file and record it as processed.
    Keep,
}

/// A watched folder.
#[derive(Debug, Clone)]
pub struct WatchFolderConfig {
    /// The folder.
    pub path: String,
    /// What happens to an NZB file after import.
    pub after_import: WatchFolderAction,
    /// Category given to downloads from this folder.
    pub category: Option<String>,
    /// How often the folder is scanned, in milliseconds.
    pub scan_interval_ms: u64,
}

/// A file is an NZB file when its extension is `nzb` in any case.
pub open spec fn spec_is_nzb_file(path: Seq<char>) -> bool {
    match spec_extension(path) {
        Some(e) => eq_ignore_ascii_case(e, "nzb"@),
        None => false,
    }
}

/// Whether the file is an NZB file (extension `nzb`, any case).
pub fn is_nzb_file(path: &str) -> (r: bool)
    ensures
        r == spec_is_nzb_file(path@),
{
    match extension(path) {
        Some(e) => {
            let ev = chars_of(e.as_str());
            let nv = chars_of("nzb");
            eq_ignore_ascii_case_exec(ev.as_slice(), nv.as_slice())
        },
        None => false,
    }
}

/// The kind of a filesystem event.
#[derive(Debug, Clone, Copy, PartialEq, Eq, Structural)]
pub enum WatchEventKind {
    /// Something was created.
    Create,
    /// Something was modified.
    Modify,
    /// Anything else (removal, access, ...).
    Other,
}

/// The NZB files among the paths, in order.
pub open spec fn nzb_paths(paths: Seq<Seq<char>>) -> Seq<Seq<char>>
    decreases paths.len(),
{
    if paths.len() == 0 {
        seq![]
    } else {
        nzb_paths(paths.drop_last()) + if spec_is_nzb_file(paths.last()) {
            seq![paths.last()]
        } else {
            seq![]
        }
    }
}

/// The files of an event to import: for a creation or a modification, its
/// NZB files in order; none for any other event.
pub fn files_to_import(kind: WatchEventKind, paths: &[String]) -> (r: Vec<String>)
    ensures
        kind == WatchEventKind::Other ==> r@.len() == 0,
        kind != WatchEventKind::Other ==> crate::text::str_views(r@) == nzb_paths(
            crate::text::str_views(paths@),
        ),
{
    let mut out: Vec<String> = Vec::new();
    if kind == WatchEventKind::Other {
        return out;
    }
    let ghost v = crate::text::str_views(paths@);
    let mut i: usize = 0;
    assert(v.take(0) =~= Seq::<Seq<char>>::empty());
    while i < paths.len()
        invariant
            i <= paths@.len(),
            v == crate::text::str_views(paths@),
            crate::text::str_views(out@) == nzb_paths(v.take(i as int)),
        decreases paths@.len() - i,
    {
        assert(v.take(i + 1).drop_last() =~= v.take(i as int));
        assert(v.take(i + 1).last() == paths@[i as int]@);
        if is_nzb_file(paths[i].as_str()) {
            let ghost prev = out@;
            out.push(paths[i].clone());
            assert(crate::text::str_views(out@) =~= crate::text::str_views(prev).push(
                paths@[i as int]@,
            ));
        }
        assert(crate::text::str_views(out@) =~= nzb_paths(v.take(i + 1)));
        i += 1;
    }
    assert(v.take(paths@.len() as int) =~= v);
    out
}

/// The index of the first configuration whose folder is `folder`.
pub open spec fn first_config_for(configs: Seq<WatchFolderConfig>, folder: Seq<char>) -> Option<
    int,
>
    decreases configs.len(),
{
    if configs.len() == 0 {
        None
    } else {
        match first_config_for(configs.drop_last(), folder) {
            Some(i) => Some(i),
            None => if spec_path_eq(configs.last().path@, folder) {
                Some(configs.len() - 1)
            } else {
                None
            },
        }
    }
}

/// The error for a watch folder problem with the given message.
pub open spec fn is_folder_watch_error(e: Error, message: Seq<char>) -> bool {
    e matches Error::FolderWatch(m) && m@ == message
}

/// The configuration of the folder holding `path`: the first one whose
/// folder is the file's parent. Fails with "File has no parent directory"
/// for a path without parent, and with "No watch folder config found for:
/// {parent}" when no folder matches.
pub fn find_config_for_path<'a>(configs: &'a [WatchFolderConfig], path: &str) -> (r: Result<
    &'a WatchFolderConfig,
    Error,
>)
    ensures
        match spec_parent(path@) {
            None => r matches Err(e) && is_folder_watch_error(e, "File has no parent directory"@),
            Some(p) => match first_config_for(configs@, p) {
                Some(i) => r == Ok::<&WatchFolderConfig, Error>(&configs@[i]),
                None => r matches Err(e) && is_folder_watch_error(
                    e,
                    "No watch folder config found for: "@ + p,
                ),
            },
        },
{
    let folder = match parent(path) {
        Some(p) => p,
        None => {
            return Err(Error::FolderWatch("File has no parent directory".to_string()));
        },
    };
    let mut i: usize = 0;
    assert(configs@.take(0) =~= Seq::<WatchFolderConfig>::empty());
    while i < configs.len()
        invariant
            i <= configs@.len(),
            spec_parent(path@) == Some(folder@),
            first_config_for(configs@.take(i as int), folder@) is None,
        decreases configs@.len() - i,
    {
        assert(configs@.take(i + 1).drop_last() =~= configs@.take(i as int));
        if paths_equal(configs[i].path.as_str(), folder.as_str()) {
            proof {
                lemma_first_config_prefix(configs@, folder@, i as int);
            }
            return Ok(&configs[i]);
        }
        i += 1;
    }
    assert(configs@.take(configs@.len() as int) =~= configs@);
    let mut m = "No watch folder config found for: ".to_string();
    append_str(&mut m, folder.as_str());
    Err(Error::FolderWatch(m))
}

/// When no configuration before `i` matches and the one at `i` does, `i` is
/// the first match.
proof fn lemma_first_config_prefix(configs: Seq<WatchFolderConfig>, folder: Seq<char>, i: int)
    requires
        0 <= i < configs.len(),
        first_config_for(configs.take(i), folder) is None,
        spec_path_eq(configs[i].path@, folder),
    ensures
        first_config_for(configs, folder) == Some(i),
    decreases configs.len() - i,
{
    assert(configs.take(i + 1).drop_last() =~= configs.take(i));
    assert(first_config_for(configs.take(i + 1), folder) == Some(i));
    lemma_first_config_extends(configs, folder, i + 1, i);
}

/// A first match in a prefix is the first match of the whole sequence.
proof fn lemma_first_config_extends(
    configs: Seq<WatchFolderConfig>,
    folder: Seq<char>,
    n: int,
    i: int,
)
    requires
        0 <= n <= configs.len(),
        first_config_for(configs.take(n), folder) == Some(i),
    ensures
        first_config_for(configs, folder) == Some(i),
    decreases configs.len() - n,
{
    if n < configs.len() {
        assert(configs.take(n + 1).drop_last() =~= configs.take(n));
        lemma_first_config_extends(configs, folder, n + 1, i);
    } else {
        assert(configs.take(n) =~= configs);
    }
}

/// What to do with an imported NZB file.
#[derive(Debug)]
pub enum AfterImport {
    /// Delete the file.
    Delete,
    /// Create `processed_dir` if it is missing and move the file to `dest`.
    Move {
        /// The `processed` folder next to the file.
        processed_dir: String,
        /// The file's new path.
        dest: String,
    },
    /// Leave the file and record it as processed.
    MarkProcessed,
}

/// What to do with an imported NZB file under the folder's action: delete
/// it; move it to `processed/{file name}` next to it (failing with "File has
/// no parent directory" or "File has no filename" when the path lacks
/// either); or leave it and record it as processed.
pub fn after_import_plan(path: &str, action: WatchFolderAction) -> (r: Result<AfterImport, Error>)
    ensures
        action == WatchFolderAction::Delete ==> r matches Ok(AfterImport::Delete),
        action == WatchFolderAction::Keep ==> r matches Ok(AfterImport::MarkProcessed),
        action == WatchFolderAction::MoveToProcessed ==> match spec_parent(path@) {
            None => r matches Err(e) && is_folder_watch_error(e, "File has no parent directory"@),
            Some(p) => match spec_file_name(path@) {
                None => r matches Err(e) && is_folder_watch_error(e, "File has no filename"@),
                Some(n) => r matches Ok(AfterImport::Move { processed_dir, dest })
                    && processed_dir@ == spec_join(p, "processed"@) && dest@ == spec_join(
                    spec_join(p, "processed"@),
                    n,
                ),
            },
        },
{
    match action {
        WatchFolderAction::Delete => Ok(AfterImport::Delete),
        WatchFolderAction::Keep => Ok(AfterImport::MarkProcessed),
        WatchFolderAction::MoveToProcessed => {
            let folder = match parent(path) {
                Some(p) => p,
                None => {
                    return Err(Error::FolderWatch("File has no parent directory".to_string()));
                },
            };
            let processed_dir = join(folder.as_str(), "processed");
            let name = match file_name(path) {
                Some(n) => n,
                None => {
                    return Err(Error::FolderWatch("File has no filename".to_string()));
                },
            };
            let dest = join(processed_dir.as_str(), name.as_str());
            Ok(AfterImport::Move { processed_dir, dest })
        },
    }
}

/// The error for a failed filesystem operation of the watcher: "{what}:
/// {message}".
pub fn folder_watch_failure(what: &str, message: &str) -> (r: Error)
    ensures
        is_folder_watch_error(r, what@ + ": "@ + message@),
{
    let mut m = what.to_string();
    append_str(&mut m, ": ");
    append_str(&mut m, message);
    Error::FolderWatch(m)
}

} // verus!
