//! Archive types, nested extraction plans and password attempts.
use vstd::prelude::*;
use crate::error::{Error, PostProcessError};
use crate::extraction::password_list::PasswordList;
use crate::paths::{extension, file_stem, join, spec_extension, spec_join, spec_stem};
use crate::text::{
    append_str, chars_eq, chars_eq_str, chars_of, concat_str, decimal_u64, spec_decimal,
    spec_to_lowercase, str_views, to_lowercase,
};

verus! {

/// Archive formats the library extracts.
#[derive(Debug, Clone, Copy, PartialEq, Eq, Structural)]
pub enum ArchiveType {
    /// RAR archive (`.rar`, `.r00`).
    Rar,
    /// 7-Zip archive (`.7z`).
    SevenZip,
    /// ZIP archive (`.zip`).
    Zip,
}

/// The archive type of a lowercase extension.
pub open spec fn archive_type_of_ext(ext: Seq<char>) -> Option<ArchiveType> {
    if ext == "rar"@ || ext == "r00"@ {
        Some(ArchiveType::Rar)
    } else if ext == "7z"@ {
        Some(ArchiveType::SevenZip)
    } else if ext == "zip"@ {
        Some(ArchiveType::Zip)
    } else {
        None
    }
}

/// The archive type of a path: that of its lowercased extension.
pub open spec fn spec_detect_archive_type(path: Seq<char>) -> Option<ArchiveType> {
    match spec_extension(path) {
        Some(e) => archive_type_of_ext(spec_to_lowercase(e)),
        None => None,
    }
}

/// Detects the archive type of a path by its extension, case-insensitively:
/// RAR (`.rar`, `.r00`), 7z (`.7z`) and ZIP (`.zip`).
pub fn detect_archive_type(path: &str) -> (r: Option<ArchiveType>)
    ensures
        r == spec_detect_archive_type(path@),
{
    let ext = match extension(path) {
        Some(e) => e,
        None => {
            return None;
        },
    };
    let ev = chars_of(ext.as_str());
    let lower = to_lowercase(ev.as_slice());
    let l = lower.as_slice();
    if chars_eq_str(l, "rar") || chars_eq_str(l, "r00") {
        Some(ArchiveType::Rar)
    } else if chars_eq_str(l, "7z") {
        Some(ArchiveType::SevenZip)
    } else if chars_eq_str(l, "zip") {
        Some(ArchiveType::Zip)
    } else {
        None
    }
}

/// Some extension of the list equals `ext`, both lowercased.
pub open spec fn ext_listed(ext: Seq<char>, exts: Seq<Seq<char>>) -> bool {
    exists|i: int| 0 <= i < exts.len() && spec_to_lowercase(exts[i]) == spec_to_lowercase(ext)
}

/// A path is an archive when its extension is one of the configured ones,
/// compared in lowercase.
pub open spec fn spec_is_archive(path: Seq<char>, exts: Seq<Seq<char>>) -> bool {
    match spec_extension(path) {
        Some(e) => ext_listed(e, exts),
        None => false,
    }
}

/// Whether a file is an archive according to the configured extensions
/// (without dots), compared case-insensitively.
pub fn is_archive(path: &str, archive_extensions: &[String]) -> (r: bool)
    ensures
        r == spec_is_archive(path@, str_views(archive_extensions@)),
{
    let ext = match extension(path) {
        Some(e) => e,
        None => {
            return false;
        },
    };
    let ev = chars_of(ext.as_str());
    let lower = to_lowercase(ev.as_slice());
    let ghost exts = str_views(archive_extensions@);
    let mut i: usize = 0;
    while i < archive_extensions.len()
        invariant
            i <= archive_extensions@.len(),
            exts == str_views(archive_extensions@),
            lower@ == spec_to_lowercase(ext@),
            spec_extension(path@) == Some(ext@),
            forall|j: int|
                0 <= j < i ==> spec_to_lowercase(#[trigger] exts[j]) != spec_to_lowercase(ext@),
        decreases archive_extensions@.len() - i,
    {
        let av = chars_of(archive_extensions[i].as_str());
        let al = to_lowercase(av.as_slice());
        assert(exts[i as int] == archive_extensions@[i as int]@);
        if chars_eq(al.as_slice(), lower.as_slice()) {
            assert(spec_to_lowercase(exts[i as int]) == spec_to_lowercase(ext@));
            assert(ext_listed(ext@, exts));
            return true;
        }
        i += 1;
    }
    false
}

/// Configuration of nested extraction.
#[derive(Debug, Clone)]
pub struct ExtractionConfig {
    /// Maximum nesting depth at which archives found inside archives are
    /// extracted.
    pub max_recursion_depth: u32,
    /// Extensions (without dots) of files treated as archives.
    pub archive_extensions: Vec<String>,
}

impl Default for ExtractionConfig {
    fn default() -> (r: Self)
        ensures
            r.max_recursion_depth == 2,
            str_views(r.archive_extensions@) == seq![
                "rar"@,
                "zip"@,
                "7z"@,
                "tar"@,
                "gz"@,
                "bz2"@,
            ],
    {
        let mut exts: Vec<String> = Vec::new();
        exts.push("rar".to_string());
        exts.push("zip".to_string());
        exts.push("7z".to_string());
        exts.push("tar".to_string());
        exts.push("gz".to_string());
        exts.push("bz2".to_string());
        let r = ExtractionConfig { max_recursion_depth: 2, archive_extensions: exts };
        assert(str_views(r.archive_extensions@) =~= seq![
            "rar"@,
            "zip"@,
            "7z"@,
            "tar"@,
            "gz"@,
            "bz2"@,
        ]);
        r
    }
}

// ---------------------------------------------------------------------------
// Nested extraction
// ---------------------------------------------------------------------------

/// An archive found among extracted files, with the directory it is to be
/// extracted into.
#[derive(Debug, Clone)]
pub struct NestedExtraction {
    /// The nested archive.
    pub archive: String,
    /// Its extraction directory.
    pub dest: String,
}

/// The name of the directory for a nested archive of the given stem at the
/// given depth: `nested_{stem}_{depth}`.
pub open spec fn nested_dir_name(stem: Seq<char>, depth: nat) -> Seq<char> {
    "nested_"@ + stem + "_"@ + spec_decimal(depth)
}

/// The stem used to name a nested archive's directory: the file stem, or
/// "archive" when it has none.
pub open spec fn stem_or_archive(path: Seq<char>) -> Seq<char> {
    match spec_stem(path) {
        Some(s) => s,
        None => "archive"@,
    }
}

/// The nested extractions for extracted files at a depth below the maximum:
/// each archive among them, in order, with its directory under `dest`.
pub open spec fn nested_plan_of(
    files: Seq<Seq<char>>,
    dest: Seq<char>,
    exts: Seq<Seq<char>>,
    next_depth: nat,
) -> Seq<(Seq<char>, Seq<char>)>
    decreases files.len(),
{
    if files.len() == 0 {
        seq![]
    } else {
        let f = files.last();
        nested_plan_of(files.drop_last(), dest, exts, next_depth) + if spec_is_archive(f, exts) {
            seq![(f, spec_join(dest, nested_dir_name(stem_or_archive(f), next_depth)))]
        } else {
            seq![]
        }
    }
}

/// Below the maximum depth, the plan holds exactly the extracted files that
/// are archives by the configured extensions: every planned archive is one
/// of the files and has a configured extension, goes to
/// `dest/nested_{stem}_{depth}`, and every such file is planned.
pub proof fn lemma_nested_plan_is_archives(
    files: Seq<Seq<char>>,
    dest: Seq<char>,
    exts: Seq<Seq<char>>,
    next_depth: nat,
)
    ensures
        ({
            let plan = nested_plan_of(files, dest, exts, next_depth);
            &&& plan.len() <= files.len()
            &&& forall|k: int|
                0 <= k < plan.len() ==> spec_is_archive(#[trigger] plan[k].0, exts)
                    && files.contains(plan[k].0) && plan[k].1 == spec_join(
                    dest,
                    nested_dir_name(stem_or_archive(plan[k].0), next_depth),
                )
            &&& forall|i: int|
                0 <= i < files.len() && spec_is_archive(#[trigger] files[i], exts) ==> exists|
                    k: int,
                | 0 <= k < plan.len() && plan[k].0 == files[i]
        }),
    decreases files.len(),
{
    if files.len() > 0 {
        let prev = files.drop_last();
        let f = files.last();
        lemma_nested_plan_is_archives(prev, dest, exts, next_depth);
        let pp = nested_plan_of(prev, dest, exts, next_depth);
        let plan = nested_plan_of(files, dest, exts, next_depth);
        assert forall|k: int| 0 <= k < plan.len() implies spec_is_archive(#[trigger] plan[k].0, exts)
            && files.contains(plan[k].0) && plan[k].1 == spec_join(
            dest,
            nested_dir_name(stem_or_archive(plan[k].0), next_depth),
        ) by {
            if k < pp.len() {
                assert(plan[k] == pp[k]);
                assert(spec_is_archive(pp[k].0, exts));
                let j = choose|j: int| 0 <= j < prev.len() && prev[j] == pp[k].0;
                assert(files[j] == prev[j]);
            } else {
                assert(files[files.len() - 1] == f);
            }
        }
        assert forall|i: int| 0 <= i < files.len() && spec_is_archive(#[trigger] files[i], exts)
            implies exists|k: int| 0 <= k < plan.len() && plan[k].0 == files[i] by {
            if i < prev.len() {
                assert(prev[i] == files[i]);
                assert(spec_is_archive(prev[i], exts));
                let k = choose|k: int| 0 <= k < pp.len() && pp[k].0 == prev[i];
                assert(plan[k] == pp[k]);
            } else {
                assert(plan[pp.len() as int].0 == f);
            }
        }
    }
}

/// The archive and directory of each planned nested extraction.
pub open spec fn nested_views(v: Seq<NestedExtraction>) -> Seq<(Seq<char>, Seq<char>)> {
    v.map_values(|n: NestedExtraction| (n.archive@, n.dest@))
}

/// The name of the directory of a nested archive: `nested_{stem}_{depth}`.
fn format_nested_dir_name(stem: &str, depth: u32) -> (r: String)
    ensures
        r@ == nested_dir_name(stem@, depth as nat),
{
    let mut s = "nested_".to_string();
    append_str(&mut s, stem);
    append_str(&mut s, "_");
    append_str(&mut s, decimal_u64(depth as u64).as_str());
    s
}

/// The nested archives to extract after extracting an archive at
/// `current_depth` into `dest_path`: none at or beyond the maximum depth;
/// otherwise each extracted file that is an archive, in order, with the
/// directory `dest_path/nested_{stem}_{current_depth + 1}`.
pub fn nested_extraction_plan(
    extracted: &[String],
    dest_path: &str,
    config: &ExtractionConfig,
    current_depth: u32,
) -> (r: Vec<NestedExtraction>)
    ensures
        current_depth >= config.max_recursion_depth ==> r@.len() == 0,
        current_depth < config.max_recursion_depth ==> nested_views(r@) == nested_plan_of(
            str_views(extracted@),
            dest_path@,
            str_views(config.archive_extensions@),
            (current_depth + 1) as nat,
        ),
        forall|k: int|
            0 <= k < r@.len() ==> spec_is_archive(
                (#[trigger] r@[k]).archive@,
                str_views(config.archive_extensions@),
            ) && str_views(extracted@).contains(r@[k].archive@),
        current_depth < config.max_recursion_depth ==> forall|i: int|
            0 <= i < extracted@.len() && spec_is_archive(
                (#[trigger] extracted@[i])@,
                str_views(config.archive_extensions@),
            ) ==> exists|k: int| 0 <= k < r@.len() && r@[k].archive@ == extracted@[i]@,
{
    let mut plan: Vec<NestedExtraction> = Vec::new();
    if current_depth >= config.max_recursion_depth {
        return plan;
    }
    let next_depth = current_depth + 1;
    let ghost files = str_views(extracted@);
    let ghost exts = str_views(config.archive_extensions@);
    let mut i: usize = 0;
    assert(files.take(0) =~= Seq::<Seq<char>>::empty());
    while i < extracted.len()
        invariant
            i <= extracted@.len(),
            files == str_views(extracted@),
            exts == str_views(config.archive_extensions@),
            next_depth == current_depth + 1,
            nested_views(plan@) == nested_plan_of(
                files.take(i as int),
                dest_path@,
                exts,
                next_depth as nat,
            ),
        decreases extracted@.len() - i,
    {
        let file = extracted[i].as_str();
        assert(files.take(i + 1).drop_last() =~= files.take(i as int));
        assert(files.take(i + 1).last() == file@);
        if is_archive(file, config.archive_extensions.as_slice()) {
            let stem = match file_stem(file) {
                Some(s) => s,
                None => "archive".to_string(),
            };
            let name = format_nested_dir_name(stem.as_str(), next_depth);
            let dest = join(dest_path, name.as_str());
            let ghost prev = plan@;
            plan.push(NestedExtraction { archive: extracted[i].clone(), dest });
            assert(nested_views(plan@) =~= nested_views(prev).push((file@, dest@)));
        }
        assert(nested_views(plan@) =~= nested_plan_of(
            files.take(i + 1),
            dest_path@,
            exts,
            next_depth as nat,
        ));
        i += 1;
    }
    assert(files.take(extracted@.len() as int) =~= files);
    proof {
        lemma_nested_plan_is_archives(files, dest_path@, exts, next_depth as nat);
        let pv = nested_views(plan@);
        assert forall|k: int| 0 <= k < plan@.len() implies spec_is_archive(
            (#[trigger] plan@[k]).archive@,
            exts,
        ) && files.contains(plan@[k].archive@) by {
            assert(pv[k].0 == plan@[k].archive@);
        }
        assert forall|i: int|
            0 <= i < extracted@.len() && spec_is_archive((#[trigger] extracted@[i])@, exts)
            implies exists|k: int| 0 <= k < plan@.len() && plan@[k].archive@ == extracted@[i]@ by {
            assert(files[i] == extracted@[i]@);
            let k = choose|k: int| 0 <= k < pv.len() && pv[k].0 == files[i];
            assert(pv[k].0 == plan@[k].archive@);
        }
    }
    plan
}

/// The archive type of an archive to extract, or the error for a file of
/// unknown type: "unknown archive type for file: {path}".
pub fn archive_type_for_extraction(archive_path: &str) -> (r: Result<ArchiveType, Error>)
    ensures
        match spec_detect_archive_type(archive_path@) {
            Some(t) => r == Ok::<ArchiveType, Error>(t),
            None => r matches Err(
                Error::PostProcess(PostProcessError::ExtractionFailed { archive, reason }),
            ) && archive@ == archive_path@ && reason@ == "unknown archive type for file: "@
                + archive_path@,
        },
{
    match detect_archive_type(archive_path) {
        Some(t) => Ok(t),
        None => Err(
            Error::PostProcess(
                PostProcessError::ExtractionFailed {
                    archive: archive_path.to_string(),
                    reason: concat_str("unknown archive type for file: ", archive_path),
                },
            ),
        ),
    }
}

// ---------------------------------------------------------------------------
// Password attempts
// ---------------------------------------------------------------------------

/// What one extraction attempt with a password reported.
#[derive(Debug)]
pub enum AttemptOutcome {
    /// The archive was extracted; the files extracted.
    Extracted(Vec<String>),
    /// The password was wrong.
    WrongPassword,
    /// Another error (corrupt archive, disk full, ...).
    Failed(Error),
    /// The attempt's task ended abnormally; its message.
    Aborted(String),
}

/// What to do next when extracting with passwords.
#[derive(Debug)]
pub enum AttemptStep {
    /// Try the password at this index of the list.
    Try(usize),
    /// Extraction succeeded with the password at this index: remember that
    /// password and return the files.
    Succeeded {
        /// Index of the password that worked.
        index: usize,
        /// The extracted files.
        files: Vec<String>,
    },
    /// Extraction failed with this error.
    Failed(Error),
}

/// The progress of extracting one archive with a list of passwords.
#[derive(Debug)]
pub struct PasswordAttempts {
    /// The archive being extracted.
    pub archive: String,
    /// Index of the password being tried.
    pub current: usize,
    /// Number of passwords in the list.
    pub total: usize,
}

/// The error for an archive for which every password was wrong.
pub open spec fn is_all_passwords_failed(step: AttemptStep, archive: Seq<char>, count: nat) -> bool {
    step matches AttemptStep::Failed(
        Error::PostProcess(PostProcessError::AllPasswordsFailed { archive: a, count: c }),
    ) && a@ == archive && c == count
}

/// The error for an archive with no password to try.
pub open spec fn is_no_passwords(step: AttemptStep, archive: Seq<char>) -> bool {
    step matches AttemptStep::Failed(
        Error::PostProcess(PostProcessError::NoPasswordsAvailable { archive: a }),
    ) && a@ == archive
}

/// What [`PasswordAttempts::next`] does: from `p`, the outcome of the
/// current attempt leads to the attempts `q` and the step `r`.
pub open spec fn next_contract(
    p: PasswordAttempts,
    outcome: AttemptOutcome,
    q: PasswordAttempts,
    r: AttemptStep,
) -> bool {
    &&& q.archive == p.archive
    &&& q.total == p.total
    &&& match outcome {
        AttemptOutcome::Extracted(files) => r == AttemptStep::Succeeded {
            index: p.current,
            files,
        } && q.current == p.current,
        AttemptOutcome::WrongPassword => if p.current + 1 < p.total {
            r == AttemptStep::Try((p.current + 1) as usize) && q.current == p.current + 1
        } else {
            is_all_passwords_failed(r, p.archive@, p.total as nat) && q.current == p.total
        },
        AttemptOutcome::Failed(e) => r == AttemptStep::Failed(e) && q.current == p.current,
        AttemptOutcome::Aborted(msg) => r matches AttemptStep::Failed(
            Error::PostProcess(PostProcessError::ExtractionFailed { archive, reason }),
        ) && archive@ == p.archive@ && reason@ == "extraction task panicked: "@ + msg@
            && q.current == p.current,
    }
}

/// The outcome an extractor's result stands for: the extracted files, a
/// wrong password, or another error.
pub open spec fn spec_outcome_of(result: Result<Vec<String>, Error>) -> AttemptOutcome {
    match result {
        Ok(files) => AttemptOutcome::Extracted(files),
        Err(Error::PostProcess(PostProcessError::WrongPassword { .. })) => AttemptOutcome::WrongPassword,
        Err(e) => AttemptOutcome::Failed(e),
    }
}

/// The outcome of one attempt, from what the extractor returned.
pub fn outcome_of(result: Result<Vec<String>, Error>) -> (r: AttemptOutcome)
    ensures
        r == spec_outcome_of(result),
        r is WrongPassword <==> result matches Err(
            Error::PostProcess(PostProcessError::WrongPassword { .. }),
        ),
        match result {
            Ok(files) => r == AttemptOutcome::Extracted(files),
            Err(e) => (e matches Error::PostProcess(PostProcessError::WrongPassword { .. }))
                || r == AttemptOutcome::Failed(e),
        },
{
    match result {
        Ok(files) => AttemptOutcome::Extracted(files),
        Err(Error::PostProcess(PostProcessError::WrongPassword { archive })) => AttemptOutcome::WrongPassword,
        Err(e) => AttemptOutcome::Failed(e),
    }
}

impl PasswordAttempts {
    /// The attempts are under way: a password of the list is being tried.
    pub open spec fn trying(&self) -> bool {
        self.current < self.total
    }

    /// Starts extracting `archive` with the passwords of the list: fails
    /// with `NoPasswordsAvailable` when the list is empty, else tries the
    /// first password.
    pub fn start(archive: &str, passwords: &PasswordList) -> (r: (PasswordAttempts, AttemptStep))
        ensures
            r.0.archive@ == archive@,
            r.0.total == passwords@.len(),
            r.0.current == 0,
            passwords@.len() == 0 ==> is_no_passwords(r.1, archive@),
            passwords@.len() > 0 ==> r.1 == AttemptStep::Try(0),
    {
        let total = passwords.len();
        let state = PasswordAttempts { archive: archive.to_string(), current: 0, total };
        if passwords.is_empty() {
            (
                state,
                AttemptStep::Failed(
                    Error::PostProcess(
                        PostProcessError::NoPasswordsAvailable { archive: archive.to_string() },
                    ),
                ),
            )
        } else {
            (state, AttemptStep::Try(0))
        }
    }

    /// Takes the outcome of trying the current password: success returns the
    /// files with the password's index; a wrong password moves to the next
    /// password, or fails with `AllPasswordsFailed` (counting every password)
    /// after the last; any other error ends the attempts with that error; an
    /// aborted attempt fails with "extraction task panicked: {message}".
    pub fn next(&mut self, outcome: AttemptOutcome) -> (r: AttemptStep)
        requires
            old(self).trying(),
        ensures
            next_contract(*old(self), outcome, *final(self), r),
    {
        match outcome {
            AttemptOutcome::Extracted(files) => AttemptStep::Succeeded {
                index: self.current,
                files,
            },
            AttemptOutcome::WrongPassword => {
                if self.current + 1 < self.total {
                    self.current = self.current + 1;
                    AttemptStep::Try(self.current)
                } else {
                    self.current = self.total;
                    AttemptStep::Failed(
                        Error::PostProcess(
                            PostProcessError::AllPasswordsFailed {
                                archive: self.archive.clone(),
                                count: self.total,
                            },
                        ),
                    )
                }
            },
            AttemptOutcome::Failed(e) => AttemptStep::Failed(e),
            AttemptOutcome::Aborted(msg) => AttemptStep::Failed(
                Error::PostProcess(
                    PostProcessError::ExtractionFailed {
                        archive: self.archive.clone(),
                        reason: concat_str("extraction task panicked: ", msg.as_str()),
                    },
                ),
            ),
        }
    }
}

/// What one attempt leads to, from what the extractor returned: files end
/// the attempts with success at the current password; a wrong password
/// moves on to the next password, or, after the last, fails with
/// `AllPasswordsFailed` counting every password; any other error ends the
/// attempts with that very error.
pub proof fn lemma_attempt_after_result(
    p: PasswordAttempts,
    result: Result<Vec<String>, Error>,
    q: PasswordAttempts,
    r: AttemptStep,
)
    requires
        p.trying(),
        next_contract(p, spec_outcome_of(result), q, r),
    ensures
        match result {
            Ok(files) => r == AttemptStep::Succeeded { index: p.current, files },
            Err(e) => if e matches Error::PostProcess(PostProcessError::WrongPassword { .. }) {
                if p.current + 1 < p.total {
                    r == AttemptStep::Try((p.current + 1) as usize)
                } else {
                    is_all_passwords_failed(r, p.archive@, p.total as nat)
                }
            } else {
                r == AttemptStep::Failed(e)
            },
        },
{
}

/// `ps` are the states of the attempts, `outcomes` what each attempt
/// reported and `steps` what [`PasswordAttempts::next`] answered; the
/// attempts go on while the answer is `Try`.
pub open spec fn attempt_run(
    ps: Seq<PasswordAttempts>,
    outcomes: Seq<AttemptOutcome>,
    steps: Seq<AttemptStep>,
) -> bool {
    &&& ps.len() == outcomes.len() + 1
    &&& steps.len() == outcomes.len()
    &&& forall|i: int|
        0 <= i < outcomes.len() ==> #[trigger] ps[i].trying() && next_contract(
            ps[i],
            outcomes[i],
            ps[i + 1],
            steps[i],
        )
    &&& forall|i: int| 0 <= i < outcomes.len() - 1 ==> #[trigger] steps[i] is Try
}

/// Extracting with a list of passwords: attempt `i` uses the `i`-th
/// password, in list order, each at most once; every attempt but the last
/// reported a wrong password; the run ends with the last attempt's files
/// (and that password's index, the one to remember), with its error, with
/// "extraction task panicked: {message}" for an aborted attempt, or, when
/// the last password was wrong too, with `AllPasswordsFailed` counting every
/// password.
pub proof fn lemma_password_retry_loop(
    ps: Seq<PasswordAttempts>,
    outcomes: Seq<AttemptOutcome>,
    steps: Seq<AttemptStep>,
)
    requires
        outcomes.len() > 0,
        ps.len() > 0,
        ps[0].current == 0,
        attempt_run(ps, outcomes, steps),
        !(steps.last() is Try),
    ensures
        outcomes.len() <= ps[0].total,
        forall|i: int| 0 <= i < outcomes.len() ==> (#[trigger] ps[i]).current == i,
        forall|i: int|
            0 <= i < outcomes.len() - 1 ==> #[trigger] outcomes[i] is WrongPassword && steps[i]
                == AttemptStep::Try((i + 1) as usize),
        ({
            let k = outcomes.len() - 1;
            match outcomes[k] {
                AttemptOutcome::Extracted(files) => steps[k] == AttemptStep::Succeeded {
                    index: k as usize,
                    files,
                },
                AttemptOutcome::WrongPassword => k + 1 == ps[0].total && is_all_passwords_failed(
                    steps[k],
                    ps[0].archive@,
                    ps[0].total as nat,
                ),
                AttemptOutcome::Failed(e) => steps[k] == AttemptStep::Failed(e),
                AttemptOutcome::Aborted(msg) => steps[k] matches AttemptStep::Failed(
                    Error::PostProcess(PostProcessError::ExtractionFailed { archive, reason }),
                ) && archive@ == ps[0].archive@ && reason@ == "extraction task panicked: "@
                    + msg@,
            }
        }),
{
    let n = outcomes.len() as int;
    assert forall|i: int| 0 <= i < n implies (#[trigger] ps[i]).current == i && ps[i].total
        == ps[0].total && ps[i].archive == ps[0].archive by {
        lemma_retry_prefix(ps, outcomes, steps, i);
    }
    assert forall|i: int| 0 <= i < n - 1 implies #[trigger] outcomes[i] is WrongPassword
        && steps[i] == AttemptStep::Try((i + 1) as usize) by {
        lemma_retry_prefix(ps, outcomes, steps, i);
        assert(ps[i].trying());
        assert(next_contract(ps[i], outcomes[i], ps[i + 1], steps[i]));
        assert(steps[i] is Try);
    }
    lemma_retry_prefix(ps, outcomes, steps, n - 1);
    assert(ps[n - 1].trying());
    assert(next_contract(ps[n - 1], outcomes[n - 1], ps[n], steps[n - 1]));
}

/// Before attempt `i`, the attempts are at password `i`.
proof fn lemma_retry_prefix(
    ps: Seq<PasswordAttempts>,
    outcomes: Seq<AttemptOutcome>,
    steps: Seq<AttemptStep>,
    i: int,
)
    requires
        ps.len() > 0,
        ps[0].current == 0,
        attempt_run(ps, outcomes, steps),
        0 <= i < outcomes.len(),
    ensures
        ps[i].current == i,
        ps[i].total == ps[0].total,
        ps[i].archive == ps[0].archive,
    decreases i,
{
    if i > 0 {
        lemma_retry_prefix(ps, outcomes, steps, i - 1);
        assert(ps[i - 1].trying());
        assert(next_contract(ps[i - 1], outcomes[i - 1], ps[i], steps[i - 1]));
        assert(steps[i - 1] is Try);
    }
}

// ---------------------------------------------------------------------------
// Archives in a directory listing
// ---------------------------------------------------------------------------

/// An entry of a directory listing.
#[derive(Debug, Clone)]
pub struct DirEntry {
    /// The entry's path.
    pub path: String,
    /// Whether the entry is a directory.
    pub is_dir: bool,
    /// Whether the entry is a regular file.
    pub is_file: bool,
}

/// The lowercased extension of a path is one of `names`.
pub open spec fn has_ext_in(path: Seq<char>, names: Seq<Seq<char>>) -> bool {
    match spec_extension(path) {
        Some(e) => names.contains(spec_to_lowercase(e)),
        None => false,
    }
}

/// The paths of the entries that are not directories and whose lowercased
/// extension is one of `names`, in order.
pub open spec fn files_with_ext(entries: Seq<DirEntry>, names: Seq<Seq<char>>) -> Seq<Seq<char>>
    decreases entries.len(),
{
    if entries.len() == 0 {
        seq![]
    } else {
        let e = entries.last();
        files_with_ext(entries.drop_last(), names) + if !e.is_dir && has_ext_in(e.path@, names) {
            seq![e.path@]
        } else {
            seq![]
        }
    }
}

/// The paths of the listed files (not directories) whose lowercased
/// extension is `first` or `second`, in listing order.
pub fn select_archives(entries: &[DirEntry], first: &str, second: &str) -> (r: Vec<String>)
    ensures
        str_views(r@) == files_with_ext(entries@, seq![first@, second@]),
{
    let ghost names = seq![first@, second@];
    let mut out: Vec<String> = Vec::new();
    let mut i: usize = 0;
    assert(entries@.take(0) =~= Seq::<DirEntry>::empty());
    while i < entries.len()
        invariant
            i <= entries@.len(),
            names == seq![first@, second@],
            str_views(out@) == files_with_ext(entries@.take(i as int), names),
        decreases entries@.len() - i,
    {
        assert(entries@.take(i + 1).drop_last() =~= entries@.take(i as int));
        assert(entries@.take(i + 1).last() == entries@[i as int]);
        let e = &entries[i];
        if !e.is_dir {
            match extension(e.path.as_str()) {
                Some(ext) => {
                    let ev = chars_of(ext.as_str());
                    let lower = to_lowercase(ev.as_slice());
                    let l = lower.as_slice();
                    let is_first = chars_eq_str(l, first);
                    let is_second = chars_eq_str(l, second);
                    proof {
                        if names.contains(lower@) {
                            let k = choose|k: int| 0 <= k < names.len() && names[k] == lower@;
                            assert(k == 0 || k == 1);
                        }
                        if is_first {
                            assert(names[0] == lower@);
                        }
                        if is_second {
                            assert(names[1] == lower@);
                        }
                    }
                    if is_first || is_second {
                        let ghost prev = out@;
                        out.push(e.path.clone());
                        assert(str_views(out@) =~= str_views(prev).push(e.path@));
                    }
                },
                None => {},
            }
        }
        assert(str_views(out@) =~= files_with_ext(entries@.take(i + 1), names));
        i += 1;
    }
    assert(entries@.take(entries@.len() as int) =~= entries@);
    out
}


/// The files an extraction ends with: the files extracted from the archive,
/// then those of each nested extraction that succeeded, in plan order; a
/// failed nested extraction adds nothing.
pub open spec fn combined_files(extracted: Seq<Seq<char>>, nested: Seq<Result<Vec<String>, Error>>) -> Seq<Seq<char>>
    decreases nested.len(),
{
    if nested.len() == 0 {
        extracted
    } else {
        combined_files(extracted, nested.drop_last()) + match nested.last() {
            Ok(v) => str_views(v@),
            Err(_) => seq![],
        }
    }
}

/// All files of a recursive extraction: the archive's own extracted files,
/// then the files of each nested extraction that succeeded, in order.
pub fn combine_nested_results(extracted: Vec<String>, nested: &[Result<Vec<String>, Error>]) -> (r:
    Vec<String>)
    ensures
        str_views(r@) == combined_files(str_views(extracted@), nested@),
{
    let mut all = extracted;
    let ghost base = str_views(all@);
    let mut i: usize = 0;
    assert(nested@.take(0) =~= Seq::<Result<Vec<String>, Error>>::empty());
    while i < nested.len()
        invariant
            i <= nested@.len(),
            str_views(all@) == combined_files(base, nested@.take(i as int)),
        decreases nested@.len() - i,
    {
        assert(nested@.take(i + 1).drop_last() =~= nested@.take(i as int));
        assert(nested@.take(i + 1).last() == nested@[i as int]);
        match &nested[i] {
            Ok(files) => {
                let ghost head = str_views(all@);
                let mut k: usize = 0;
                while k < files.len()
                    invariant
                        k <= files@.len(),
                        str_views(all@) == head + str_views(files@.take(k as int)),
                    decreases files@.len() - k,
                {
                    let ghost prev = all@;
                    all.push(files[k].clone());
                    assert(str_views(all@) =~= str_views(prev).push(files@[k as int]@));
                    assert(files@.take(k + 1) =~= files@.take(k as int).push(files@[k as int]));
                    assert(str_views(all@) =~= head + str_views(files@.take(k + 1)));
                    k += 1;
                }
                assert(files@.take(files@.len() as int) =~= files@);
            },
            Err(_) => {},
        }
        assert(str_views(all@) =~= combined_files(base, nested@.take(i + 1)));
        i += 1;
    }
    assert(nested@.take(nested@.len() as int) =~= nested@);
    all
}

} // verus!
