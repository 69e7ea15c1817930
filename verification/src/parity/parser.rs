//! Parser for the output of the `par2` command-line tool.
use vstd::prelude::*;
use vstd::utf8::*;
use crate::error::Error;
use crate::parity::traits::{RepairResult, VerifyResult, opt_view};
use crate::text::{
    decode_utf8_bytes, contains_str,
    chars_of, colon_field, dedup, has_prefix, has_substring, lemma_dedup_push, lines,
    parse_u32, push_unique, quoted, spec_colon_field, spec_lines, spec_parse_u32, spec_quoted,
    spec_to_lowercase, spec_trim, spec_words, starts_with, str_views, string_of, to_lowercase,
    trim, views, words, lemma_lines_push_newline, occurs_at, is_ascii, spec_is_whitespace,
    lemma_substring_push, lemma_words_push, lemma_colon_field_push, lemma_quoted_push,
    lemma_lines_concat, lemma_lines_nonempty, lemma_lines_push_newline_after_cr,
};

verus! {

/// Exit status of an external command.
#[derive(Debug, Clone, Copy, PartialEq, Eq, Structural)]
pub enum ExitStatus {
    /// The command exited successfully (exit code 0).
    Success,
    /// The command exited with a non-zero exit code.
    Failure,
}

impl ExitStatus {
    /// Returns `true` if the exit status represents success.
    pub fn is_success(self) -> (r: bool)
        ensures
            r == (self == ExitStatus::Success),
    {
        matches!(self, ExitStatus::Success)
    }
}

impl From<bool> for ExitStatus {
    fn from(success: bool) -> (r: Self) {
        if success {
            ExitStatus::Success
        } else {
            ExitStatus::Failure
        }
    }
}

impl vstd::std_specs::convert::FromSpecImpl<bool> for ExitStatus {
    open spec fn obeys_from_spec() -> bool {
        true
    }

    open spec fn from_spec(v: bool) -> Self {
        if v {
            ExitStatus::Success
        } else {
            ExitStatus::Failure
        }
    }
}

// ---------------------------------------------------------------------------
// The meaning of the tool's output
// ---------------------------------------------------------------------------

/// Bytes decoded as UTF-8, or nothing when they are not valid UTF-8.
pub open spec fn decode_or_empty(b: Seq<u8>) -> Seq<char> {
    if valid_utf8(b) {
        decode_utf8(b)
    } else {
        Seq::empty()
    }
}

/// The lines of standard output followed by those of standard error.
pub open spec fn output_lines(stdout: Seq<u8>, stderr: Seq<u8>) -> Seq<Seq<char>> {
    spec_lines(decode_or_empty(stdout) + seq!['\n'] + decode_or_empty(stderr))
}

/// The nearest word before index `i` that reads as a `u32`.
pub open spec fn number_before(words: Seq<Seq<char>>, i: int) -> Option<u32>
    decreases i,
{
    if i <= 0 {
        None
    } else {
        match spec_parse_u32(words[i - 1]) {
            Some(n) => Some(n),
            None => number_before(words, i - 1),
        }
    }
}

/// Among the first `n` words: for the first word starting with "block" that
/// has a number somewhere before it, the nearest such number.
pub open spec fn block_number_upto(words: Seq<Seq<char>>, n: int) -> Option<u32>
    decreases n,
{
    if n <= 0 {
        None
    } else {
        let prev = block_number_upto(words, n - 1);
        if prev is Some {
            prev
        } else if has_prefix(words[n - 1], "block"@) {
            number_before(words, n - 1)
        } else {
            None
        }
    }
}

/// Once a block count is found among the first `m` words, later words do not
/// change it.
pub proof fn lemma_block_number_stable(words: Seq<Seq<char>>, m: int, k: int)
    requires
        0 <= m <= k,
        block_number_upto(words, m) is Some,
    ensures
        block_number_upto(words, k) == block_number_upto(words, m),
    decreases k - m,
{
    if k > m {
        lemma_block_number_stable(words, m, k - 1);
    }
}

/// The number that a line gives for a count of blocks.
pub open spec fn spec_number_before_blocks(line: Seq<char>) -> Option<u32> {
    block_number_upto(spec_words(line), spec_words(line).len() as int)
}

/// The filename a line names: the first quoted text, else the trimmed text
/// after the first colon when it is not empty.
pub open spec fn spec_filename_from_line(line: Seq<char>) -> Option<Seq<char>> {
    match spec_quoted(line) {
        Some(q) => Some(q),
        None => match spec_colon_field(line) {
            Some(f) => if spec_trim(f).len() > 0 {
                Some(spec_trim(f))
            } else {
                None
            },
            None => None,
        },
    }
}

/// The trimmed text after the first colon, when it is not empty.
pub open spec fn trimmed_field(line: Seq<char>) -> Option<Seq<char>> {
    match spec_colon_field(line) {
        Some(f) => if spec_trim(f).len() > 0 {
            Some(spec_trim(f))
        } else {
            None
        },
        None => None,
    }
}

/// An optional value as a sequence of zero or one element.
pub open spec fn opt_seq<T>(o: Option<T>) -> Seq<T> {
    match o {
        Some(x) => seq![x],
        None => seq![],
    }
}

/// A count of damaged or missing blocks that a line reports.
pub open spec fn line_damage_count(line: Seq<char>) -> Option<u32> {
    let low = spec_to_lowercase(line);
    if has_substring(low, "damaged"@) || has_substring(low, "missing"@) {
        spec_number_before_blocks(low)
    } else {
        None
    }
}

/// A count of recovery blocks that a line reports.
pub open spec fn line_recovery_count(line: Seq<char>) -> Option<u32> {
    let low = spec_to_lowercase(line);
    if has_substring(low, "recovery"@) && has_substring(low, "block"@) {
        spec_number_before_blocks(low)
    } else {
        None
    }
}

/// The damaged filenames that a line names, in order.
pub open spec fn line_damaged_files(line: Seq<char>) -> Seq<Seq<char>> {
    let low = spec_to_lowercase(line);
    let by_colon = if has_substring(low, "damaged:"@) || has_substring(low, "corrupt:"@) {
        opt_seq(trimmed_field(line))
    } else {
        seq![]
    };
    let by_target = if has_substring(low, "- damaged"@) {
        opt_seq(spec_filename_from_line(line))
    } else {
        seq![]
    };
    by_colon + by_target
}

/// The missing filenames that a line names, in order.
pub open spec fn line_missing_files(line: Seq<char>) -> Seq<Seq<char>> {
    let low = spec_to_lowercase(line);
    let by_colon = if has_substring(low, "missing:"@) {
        opt_seq(trimmed_field(line))
    } else {
        seq![]
    };
    let by_target = if has_substring(low, "- missing"@) {
        opt_seq(spec_filename_from_line(line))
    } else {
        seq![]
    };
    by_colon + by_target
}

/// The largest count reported by the lines (0 when none is).
pub open spec fn max_count(lines: Seq<Seq<char>>, recovery: bool) -> u32
    decreases lines.len(),
{
    if lines.len() == 0 {
        0
    } else {
        let m = max_count(lines.drop_last(), recovery);
        let c = if recovery {
            line_recovery_count(lines.last())
        } else {
            line_damage_count(lines.last())
        };
        match c {
            Some(n) => if n > m {
                n
            } else {
                m
            },
            None => m,
        }
    }
}

/// All filenames the lines name as damaged (`missing == false`) or missing.
pub open spec fn named_files(lines: Seq<Seq<char>>, missing: bool) -> Seq<Seq<char>>
    decreases lines.len(),
{
    if lines.len() == 0 {
        seq![]
    } else {
        named_files(lines.drop_last(), missing) + if missing {
            line_missing_files(lines.last())
        } else {
            line_damaged_files(lines.last())
        }
    }
}

/// What a verification run reports, given the tool's output.
pub open spec fn verify_outcome(stdout: Seq<u8>, stderr: Seq<u8>, exit_status: ExitStatus) -> (
    bool,
    u32,
    u32,
    bool,
    Seq<Seq<char>>,
    Seq<Seq<char>>,
) {
    let lines = output_lines(stdout, stderr);
    let damaged = max_count(lines, false);
    let recovery = max_count(lines, true);
    let damaged_files = dedup(named_files(lines, false));
    let missing_files = dedup(named_files(lines, true));
    let is_complete = exit_status == ExitStatus::Success && damaged == 0 && missing_files.len()
        == 0;
    let repairable = (damaged > 0 || missing_files.len() > 0) && recovery > 0;
    (is_complete, damaged, recovery, repairable, damaged_files, missing_files)
}

// ---------------------------------------------------------------------------
// Executable parsing
// ---------------------------------------------------------------------------

/// The number before the first word starting with "block" that has one.
fn number_before_blocks(line: &[char]) -> (r: Option<u32>)
    ensures
        r == spec_number_before_blocks(line@),
{
    let ws = words(line);
    let ghost w = views(ws@);
    assert(w == spec_words(line@));
    let block = chars_of("block");
    let mut i: usize = 0;
    while i < ws.len()
        invariant
            i <= ws@.len(),
            w == views(ws@),
            w == spec_words(line@),
            block@ == "block"@,
            block_number_upto(w, i as int) is None,
        decreases ws@.len() - i,
    {
        assert(w[i as int] == ws@[i as int]@);
        if starts_with(ws[i].as_slice(), block.as_slice()) {
            let mut j: usize = i;
            while j > 0
                invariant
                    j <= i < ws@.len(),
                    w == views(ws@),
                    w == spec_words(line@),
                    number_before(w, i as int) == number_before(w, j as int),
                    has_prefix(w[i as int], "block"@),
                    block_number_upto(w, i as int) is None,
                decreases j,
            {
                assert(w[j - 1] == ws@[j - 1]@);
                match parse_u32(ws[j - 1].as_slice()) {
                    Some(n) => {
                        proof {
                            assert(block_number_upto(w, i + 1) == Some(n));
                            lemma_block_number_stable(w, i + 1, w.len() as int);
                            assert(w.len() == ws@.len());
                            assert(block_number_upto(w, w.len() as int) == Some(n));
                        }
                        return Some(n);
                    },
                    None => {},
                }
                j -= 1;
            }
        }
        i += 1;
    }
    None
}

/// Extracts the number that appears before the word "block" or "blocks"
/// (possibly with other words between) in a line.
pub fn extract_number_before_blocks(line: &str) -> (r: Option<u32>)
    ensures
        r == spec_number_before_blocks(line@),
{
    let v = chars_of(line);
    number_before_blocks(v.as_slice())
}

/// The filename a line names (characters).
fn filename_from_line(line: &[char]) -> (r: Option<Vec<char>>)
    ensures
        match r {
            Some(v) => spec_filename_from_line(line@) == Some(v@),
            None => spec_filename_from_line(line@) is None,
        },
{
    match quoted(line) {
        Some(q) => Some(q),
        None => field_after_colon(line),
    }
}

/// The trimmed text after the first colon, when it is not empty.
fn field_after_colon(line: &[char]) -> (r: Option<Vec<char>>)
    ensures
        match r {
            Some(v) => trimmed_field(line@) == Some(v@),
            None => trimmed_field(line@) is None,
        },
{
    match colon_field(line) {
        Some(f) => {
            let t = trim(f.as_slice());
            if t.len() > 0 {
                Some(t)
            } else {
                None
            }
        },
        None => None,
    }
}

/// Extracts a filename from a line: the first quoted text, else the trimmed
/// text after the first colon.
pub fn extract_filename_from_line(line: &str) -> (r: Option<String>)
    ensures
        opt_view(r) == spec_filename_from_line(line@),
{
    let v = chars_of(line);
    match filename_from_line(v.as_slice()) {
        Some(f) => Some(string_of(f.as_slice())),
        None => None,
    }
}

/// The characters of an optional vector.
pub open spec fn opt_chars(o: Option<Vec<char>>) -> Option<Seq<char>> {
    match o {
        Some(v) => Some(v@),
        None => None,
    }
}

/// Appends the given name, if any, to `v` unless present, where `v` holds the
/// names of `s` without repetition.
fn push_candidate(v: &mut Vec<String>, cand: Option<Vec<char>>, Ghost(s): Ghost<Seq<Seq<char>>>)
    requires
        str_views(old(v)@) == dedup(s),
    ensures
        str_views(final(v)@) == dedup(s + opt_seq(opt_chars(cand))),
{
    match cand {
        Some(a) => {
            proof {
                lemma_dedup_push(s, a@);
                assert(s + opt_seq(opt_chars(cand)) =~= s.push(a@));
            }
            push_unique(v, a);
        },
        None => {
            assert(s + opt_seq(opt_chars(cand)) =~= s);
        },
    }
}

/// Appends the given names (zero to two) to `v`, each unless present, where
/// `v` holds the names of `s` without repetition.
fn push_candidates(
    v: &mut Vec<String>,
    first: Option<Vec<char>>,
    second: Option<Vec<char>>,
    Ghost(s): Ghost<Seq<Seq<char>>>,
)
    requires
        str_views(old(v)@) == dedup(s),
    ensures
        str_views(final(v)@) == dedup(s + opt_seq(opt_chars(first)) + opt_seq(opt_chars(second))),
{
    let ghost s1 = s + opt_seq(opt_chars(first));
    match first {
        Some(a) => {
            proof {
                lemma_dedup_push(s, a@);
                assert(s1 =~= s.push(a@));
            }
            push_unique(v, a);
        },
        None => {
            assert(s1 =~= s);
        },
    }
    let ghost s2 = s1 + opt_seq(opt_chars(second));
    match second {
        Some(b) => {
            proof {
                lemma_dedup_push(s1, b@);
                assert(s2 =~= s1.push(b@));
            }
            push_unique(v, b);
        },
        None => {
            assert(s2 =~= s1);
        },
    }
}

/// The block counts a line reports: damaged or missing, and recovery.
fn verify_line_counts(line: &[char], low: &[char]) -> (r: (Option<u32>, Option<u32>))
    requires
        low@ == spec_to_lowercase(line@),
    ensures
        r.0 == line_damage_count(line@),
        r.1 == line_recovery_count(line@),
{
    let dc = if contains_str(low, "damaged") || contains_str(low, "missing") {
        number_before_blocks(low)
    } else {
        None
    };
    let rc = if contains_str(low, "recovery") && contains_str(low, "block") {
        number_before_blocks(low)
    } else {
        None
    };
    (dc, rc)
}

/// The filenames a line names: two candidates for damaged files, then two
/// for missing files.
fn verify_line_files(line: &[char], low: &[char]) -> (r: (
    Option<Vec<char>>,
    Option<Vec<char>>,
    Option<Vec<char>>,
    Option<Vec<char>>,
))
    requires
        low@ == spec_to_lowercase(line@),
    ensures
        opt_seq(opt_chars(r.0)) + opt_seq(opt_chars(r.1)) == line_damaged_files(line@),
        opt_seq(opt_chars(r.2)) + opt_seq(opt_chars(r.3)) == line_missing_files(line@),
{
    let d1 = if contains_str(low, "damaged:") || contains_str(low, "corrupt:") {
        field_after_colon(line)
    } else {
        None
    };
    let d2 = if contains_str(low, "- damaged") {
        filename_from_line(line)
    } else {
        None
    };
    let m1 = if contains_str(low, "missing:") {
        field_after_colon(line)
    } else {
        None
    };
    let m2 = if contains_str(low, "- missing") {
        filename_from_line(line)
    } else {
        None
    };
    assert(opt_seq(opt_chars(d1)) + opt_seq(opt_chars(d2)) =~= line_damaged_files(line@));
    assert(opt_seq(opt_chars(m1)) + opt_seq(opt_chars(m2)) =~= line_missing_files(line@));
    (d1, d2, m1, m2)
}

/// The characters of the tool's standard output, a newline, and those of its
/// standard error; an output that is not UTF-8 counts as empty.
fn combined_output(stdout: &[u8], stderr: &[u8]) -> (r: (Vec<char>, Vec<char>))
    ensures
        r.0@ == decode_or_empty(stdout@) + seq!['\n'] + decode_or_empty(stderr@),
        r.1@ == decode_or_empty(stderr@),
{
    let out = match decode_utf8_bytes(stdout) {
        Some(v) => v,
        None => Vec::new(),
    };
    let err = match decode_utf8_bytes(stderr) {
        Some(v) => v,
        None => Vec::new(),
    };
    let mut combined = out;
    combined.push('\n');
    let ghost head = combined@;
    let mut i: usize = 0;
    while i < err.len()
        invariant
            i <= err@.len(),
            combined@ =~= head + err@.subrange(0, i as int),
        decreases err@.len() - i,
    {
        combined.push(err[i]);
        i += 1;
    }
    assert(err@.subrange(0, err@.len() as int) =~= err@);
    (combined, err)
}

/// Parses the output of `par2 v` (verify): block counts, damaged and missing
/// files, completeness and whether repair is possible.
pub fn parse_par2_verify_output(stdout: &[u8], stderr: &[u8], exit_status: ExitStatus) -> (r:
    Result<VerifyResult, Error>)
    ensures
        r matches Ok(v) && {
            let o = verify_outcome(stdout@, stderr@, exit_status);
            &&& v.is_complete == o.0
            &&& v.damaged_blocks == o.1
            &&& v.recovery_blocks_available == o.2
            &&& v.repairable == o.3
            &&& str_views(v.damaged_files@) == o.4
            &&& str_views(v.missing_files@) == o.5
            &&& v.is_complete == (exit_status == ExitStatus::Success && v.damaged_blocks == 0
                && v.missing_files@.len() == 0)
            &&& v.repairable == ((v.damaged_blocks > 0 || v.missing_files@.len() > 0)
                && v.recovery_blocks_available > 0)
        },
{
    let (combined, _err) = combined_output(stdout, stderr);
    let ls = lines(combined.as_slice());
    let ghost all = views(ls@);
    assert(all == output_lines(stdout@, stderr@));
    let mut damaged_blocks: u32 = 0;
    let mut recovery_blocks_available: u32 = 0;
    let mut damaged_files: Vec<String> = Vec::new();
    let mut missing_files: Vec<String> = Vec::new();
    let mut i: usize = 0;
    assert(all.take(0) =~= Seq::<Seq<char>>::empty());
    while i < ls.len()
        invariant
            i <= ls@.len(),
            all == views(ls@),
            damaged_blocks == max_count(all.take(i as int), false),
            recovery_blocks_available == max_count(all.take(i as int), true),
            str_views(damaged_files@) == dedup(named_files(all.take(i as int), false)),
            str_views(missing_files@) == dedup(named_files(all.take(i as int), true)),
        decreases ls@.len() - i,
    {
        let line = ls[i].as_slice();
        let ghost prefix = all.take(i as int);
        assert(all.take(i + 1).drop_last() =~= prefix);
        assert(all.take(i + 1).last() == line@);
        let low_v = to_lowercase(line);
        let low = low_v.as_slice();
        let (dc, rc) = verify_line_counts(line, low);
        match dc {
            Some(count) => {
                if count > damaged_blocks {
                    damaged_blocks = count;
                }
            },
            None => {},
        }
        match rc {
            Some(count) => {
                if count > recovery_blocks_available {
                    recovery_blocks_available = count;
                }
            },
            None => {},
        }
        let (d1, d2, m1, m2) = verify_line_files(line, low);
        push_candidates(&mut damaged_files, d1, d2, Ghost(named_files(prefix, false)));
        assert(named_files(all.take(i + 1), false) =~= named_files(prefix, false) + opt_seq(
            opt_chars(d1),
        ) + opt_seq(opt_chars(d2)));
        push_candidates(&mut missing_files, m1, m2, Ghost(named_files(prefix, true)));
        assert(named_files(all.take(i + 1), true) =~= named_files(prefix, true) + opt_seq(
            opt_chars(m1),
        ) + opt_seq(opt_chars(m2)));
        i += 1;
    }
    assert(all.take(ls@.len() as int) =~= all);
    let is_complete = exit_status.is_success() && damaged_blocks == 0 && missing_files.len() == 0;
    let repairable = (damaged_blocks > 0 || missing_files.len() > 0) && recovery_blocks_available
        > 0;
    Ok(
        VerifyResult {
            is_complete,
            damaged_blocks,
            recovery_blocks_available,
            repairable,
            damaged_files,
            missing_files,
        },
    )
}

/// The repaired filenames that a line names.
pub open spec fn line_repaired_files(line: Seq<char>) -> Seq<Seq<char>> {
    let low = spec_to_lowercase(line);
    if has_substring(low, "repaired"@) || has_substring(low, "restored"@) {
        opt_seq(spec_filename_from_line(line))
    } else {
        seq![]
    }
}

/// The filenames that a line names as failed.
pub open spec fn line_failed_files(line: Seq<char>) -> Seq<Seq<char>> {
    let low = spec_to_lowercase(line);
    if has_substring(low, "failed"@) || has_substring(low, "could not repair"@) {
        opt_seq(spec_filename_from_line(line))
    } else {
        seq![]
    }
}

/// All filenames the lines name as repaired (`failed == false`) or failed.
pub open spec fn repair_named_files(lines: Seq<Seq<char>>, failed: bool) -> Seq<Seq<char>>
    decreases lines.len(),
{
    if lines.len() == 0 {
        seq![]
    } else {
        repair_named_files(lines.drop_last(), failed) + if failed {
            line_failed_files(lines.last())
        } else {
            line_repaired_files(lines.last())
        }
    }
}

/// The first line mentioning "error" (in any case), trimmed.
pub open spec fn first_error_line(lines: Seq<Seq<char>>) -> Option<Seq<char>>
    decreases lines.len(),
{
    if lines.len() == 0 {
        None
    } else {
        let prev = first_error_line(lines.drop_last());
        if prev is Some {
            prev
        } else if has_substring(spec_to_lowercase(lines.last()), "error"@) {
            Some(spec_trim(lines.last()))
        } else {
            None
        }
    }
}

/// The error message of a repair run: the first line mentioning an error,
/// else, when the tool failed, its trimmed standard error if not empty.
pub open spec fn repair_error(stdout: Seq<u8>, stderr: Seq<u8>, exit_status: ExitStatus) -> Option<
    Seq<char>,
> {
    match first_error_line(output_lines(stdout, stderr)) {
        Some(e) => Some(e),
        None => if exit_status != ExitStatus::Success && decode_or_empty(stderr).len() > 0 {
            Some(spec_trim(decode_or_empty(stderr)))
        } else {
            None
        },
    }
}

/// The filenames a line names as repaired and as failed.
fn repair_line_files(line: &[char], low: &[char]) -> (r: (Option<Vec<char>>, Option<Vec<char>>))
    requires
        low@ == spec_to_lowercase(line@),
    ensures
        opt_seq(opt_chars(r.0)) == line_repaired_files(line@),
        opt_seq(opt_chars(r.1)) == line_failed_files(line@),
{
    let rep = if contains_str(low, "repaired") || contains_str(low, "restored") {
        filename_from_line(line)
    } else {
        None
    };
    let fail = if contains_str(low, "failed") || contains_str(low, "could not repair") {
        filename_from_line(line)
    } else {
        None
    };
    (rep, fail)
}

/// Parses the output of `par2 r` (repair): success follows the exit status;
/// repaired and failed files and an error message are read from the output.
pub fn parse_par2_repair_output(stdout: &[u8], stderr: &[u8], exit_status: ExitStatus) -> (r:
    Result<RepairResult, Error>)
    ensures
        r matches Ok(v) && {
            let lines = output_lines(stdout@, stderr@);
            &&& v.success == (exit_status == ExitStatus::Success)
            &&& str_views(v.repaired_files@) == dedup(repair_named_files(lines, false))
            &&& str_views(v.failed_files@) == dedup(repair_named_files(lines, true))
            &&& opt_view(v.error) == repair_error(stdout@, stderr@, exit_status)
        },
{
    let (combined, err) = combined_output(stdout, stderr);
    let ls = lines(combined.as_slice());
    let ghost all = views(ls@);
    assert(all == output_lines(stdout@, stderr@));
    let mut repaired_files: Vec<String> = Vec::new();
    let mut failed_files: Vec<String> = Vec::new();
    let mut error: Option<String> = None;
    let mut i: usize = 0;
    assert(all.take(0) =~= Seq::<Seq<char>>::empty());
    while i < ls.len()
        invariant
            i <= ls@.len(),
            all == views(ls@),
            str_views(repaired_files@) == dedup(repair_named_files(all.take(i as int), false)),
            str_views(failed_files@) == dedup(repair_named_files(all.take(i as int), true)),
            opt_view(error) == first_error_line(all.take(i as int)),
        decreases ls@.len() - i,
    {
        let line = ls[i].as_slice();
        let ghost prefix = all.take(i as int);
        assert(all.take(i + 1).drop_last() =~= prefix);
        assert(all.take(i + 1).last() == line@);
        let low_v = to_lowercase(line);
        let low = low_v.as_slice();
        let (rep, fail) = repair_line_files(line, low);
        push_candidate(&mut repaired_files, rep, Ghost(repair_named_files(prefix, false)));
        assert(repair_named_files(all.take(i + 1), false) == repair_named_files(prefix, false)
            + opt_seq(opt_chars(rep)));
        push_candidate(&mut failed_files, fail, Ghost(repair_named_files(prefix, true)));
        assert(repair_named_files(all.take(i + 1), true) == repair_named_files(prefix, true)
            + opt_seq(opt_chars(fail)));
        if contains_str(low, "error") && error.is_none() {
            let t = trim(line);
            error = Some(string_of(t.as_slice()));
        }
        assert(opt_view(error) == first_error_line(all.take(i + 1)));
        i += 1;
    }
    assert(all.take(ls@.len() as int) =~= all);
    if !exit_status.is_success() && error.is_none() && err.len() > 0 {
        let t = trim(err.as_slice());
        error = Some(string_of(t.as_slice()));
    }
    Ok(RepairResult { success: exit_status.is_success(), repaired_files, failed_files, error })
}


/// A complete verification finds nothing to repair: no damaged block, no
/// missing file, hence nothing repairable; a verify command that failed
/// never reports the files complete; and the listed damaged and missing
/// files hold no name twice.
pub proof fn lemma_verify_outcome_consistent(stdout: Seq<u8>, stderr: Seq<u8>, exit_status: ExitStatus)
    ensures
        ({
            let o = verify_outcome(stdout, stderr, exit_status);
            &&& o.0 ==> o.1 == 0 && o.5.len() == 0 && !o.3
            &&& exit_status == ExitStatus::Failure ==> !o.0
            &&& o.3 ==> o.2 > 0
            &&& o.4.no_duplicates()
            &&& o.5.no_duplicates()
        }),
{
    let lines = output_lines(stdout, stderr);
    crate::text::lemma_dedup_unique(named_files(lines, false));
    crate::text::lemma_dedup_unique(named_files(lines, true));
}



/// Whether a verification run finds the files complete, and whether they
/// can be repaired, follows from the other things it reports: complete
/// exactly when the tool succeeded, no damaged or missing block was
/// reported and no file was named missing, whatever number of recovery
/// blocks was mentioned; repairable exactly when something is damaged or
/// missing and recovery blocks are there.
pub proof fn lemma_verify_complete_iff(stdout: Seq<u8>, stderr: Seq<u8>, exit_status: ExitStatus)
    ensures
        ({
            let o = verify_outcome(stdout, stderr, exit_status);
            &&& o.0 <==> (exit_status == ExitStatus::Success && o.1 == 0 && o.5.len() == 0)
            &&& o.3 <==> ((o.1 > 0 || o.5.len() > 0) && o.2 > 0)
        }),
{
}

/// Two verification runs that end alike and report the same damaged count
/// and missing files agree on completeness, whatever recovery blocks each
/// of them mentions.
pub proof fn lemma_verify_complete_ignores_recovery(
    stdout1: Seq<u8>,
    stderr1: Seq<u8>,
    stdout2: Seq<u8>,
    stderr2: Seq<u8>,
    exit_status: ExitStatus,
)
    requires
        verify_outcome(stdout1, stderr1, exit_status).1 == verify_outcome(
            stdout2,
            stderr2,
            exit_status,
        ).1,
        verify_outcome(stdout1, stderr1, exit_status).5 == verify_outcome(
            stdout2,
            stderr2,
            exit_status,
        ).5,
    ensures
        verify_outcome(stdout1, stderr1, exit_status).0 == verify_outcome(
            stdout2,
            stderr2,
            exit_status,
        ).0,
{
    lemma_verify_complete_iff(stdout1, stderr1, exit_status);
    lemma_verify_complete_iff(stdout2, stderr2, exit_status);
}

/// The line a repair run's error comes from is the first that mentions
/// "error" in any letter case: no such line, no error line.
proof fn lemma_first_error_line_first(lines: Seq<Seq<char>>)
    ensures
        (forall|j: int|
            0 <= j < lines.len() ==> !has_substring(
                spec_to_lowercase(#[trigger] lines[j]),
                "error"@,
            )) ==> first_error_line(lines) is None,
        forall|i: int|
            0 <= i < lines.len() && has_substring(spec_to_lowercase(#[trigger] lines[i]), "error"@)
                && (forall|j: int|
                0 <= j < i ==> !has_substring(spec_to_lowercase(#[trigger] lines[j]), "error"@))
                ==> first_error_line(lines) == Some(spec_trim(lines[i])),
    decreases lines.len(),
{
    if lines.len() > 0 {
        let prev = lines.drop_last();
        lemma_first_error_line_first(prev);
        assert forall|j: int| 0 <= j < prev.len() implies prev[j] == lines[j] by {}
        let n = lines.len() - 1;
        assert forall|i: int|
            0 <= i < lines.len() && has_substring(spec_to_lowercase(#[trigger] lines[i]), "error"@)
                && (forall|j: int|
                0 <= j < i ==> !has_substring(spec_to_lowercase(#[trigger] lines[j]), "error"@))
                implies first_error_line(lines) == Some(spec_trim(lines[i])) by {
            if i < n {
                assert(prev[i] == lines[i]);
                assert forall|j: int| 0 <= j < i implies !has_substring(
                    spec_to_lowercase(#[trigger] prev[j]),
                    "error"@,
                ) by {
                    assert(prev[j] == lines[j]);
                }
            } else {
                assert forall|j: int| 0 <= j < prev.len() implies !has_substring(
                    spec_to_lowercase(#[trigger] prev[j]),
                    "error"@,
                ) by {
                    assert(prev[j] == lines[j]);
                }
                assert(lines.last() == lines[i]);
            }
        }
        if forall|j: int|
            0 <= j < lines.len() ==> !has_substring(
                spec_to_lowercase(#[trigger] lines[j]),
                "error"@,
            ) {
            assert forall|j: int| 0 <= j < prev.len() implies !has_substring(
                spec_to_lowercase(#[trigger] prev[j]),
                "error"@,
            ) by {
                assert(prev[j] == lines[j]);
            }
            assert(!has_substring(spec_to_lowercase(lines[n]), "error"@));
        }
    }
}

/// The error a repair run reports is the first output line that mentions
/// "error" in any letter case, trimmed; when no line does, it is the
/// trimmed standard error of a failed run, if there is any.
pub proof fn lemma_repair_error_is_first_error_line(
    stdout: Seq<u8>,
    stderr: Seq<u8>,
    exit_status: ExitStatus,
)
    ensures
        ({
            let lines = output_lines(stdout, stderr);
            &&& forall|i: int|
                0 <= i < lines.len() && has_substring(
                    spec_to_lowercase(#[trigger] lines[i]),
                    "error"@,
                ) && (forall|j: int|
                    0 <= j < i ==> !has_substring(spec_to_lowercase(#[trigger] lines[j]), "error"@))
                    ==> repair_error(stdout, stderr, exit_status) == Some(spec_trim(lines[i]))
            &&& (forall|j: int|
                0 <= j < lines.len() ==> !has_substring(
                    spec_to_lowercase(#[trigger] lines[j]),
                    "error"@,
                )) ==> repair_error(stdout, stderr, exit_status) == if exit_status
                != ExitStatus::Success && decode_or_empty(stderr).len() > 0 {
                Some(spec_trim(decode_or_empty(stderr)))
            } else {
                None
            }
        }),
{
    lemma_first_error_line_first(output_lines(stdout, stderr));
}

/// Lowercasing ASCII text keeps an occurrence of an ASCII pattern, as an
/// occurrence of the lowercased pattern: a line saying "Error" or "ERROR"
/// mentions "error".
pub proof fn lemma_lowercase_keeps_occurrence(s: Seq<char>, p: Seq<char>)
    requires
        is_ascii(s),
        is_ascii(p),
        has_substring(s, p),
    ensures
        has_substring(spec_to_lowercase(s), spec_to_lowercase(p)),
{
    let k = choose|k: int| occurs_at(s, p, k);
    let ls = spec_to_lowercase(s);
    let lp = spec_to_lowercase(p);
    assert(ls.subrange(k, k + lp.len()) =~= lp) by {
        assert forall|i: int| 0 <= i < lp.len() implies ls.subrange(k, k + lp.len())[i]
            == lp[i] by {
            assert(s.subrange(k, k + p.len())[i] == p[i]);
            assert(s[k + i] == p[i]);
        }
    }
    assert(occurs_at(ls, lp, k));
}

/// UTF-8 encoding of two texts one after the other is the encodings one
/// after the other.
proof fn lemma_encode_concat(x: Seq<char>, y: Seq<char>)
    ensures
        encode_utf8(x + y) == encode_utf8(x) + encode_utf8(y),
    decreases x.len(),
{
    if x.len() > 0 {
        lemma_encode_concat(x.drop_first(), y);
        assert((x + y).drop_first() =~= x.drop_first() + y);
        assert((x + y)[0] == x[0]);
        assert(encode_utf8(x + y) =~= encode_utf8(x) + encode_utf8(y));
    } else {
        assert(x + y =~= y);
    }
}

/// Two valid UTF-8 byte sequences one after the other are valid UTF-8 and
/// decode to the two texts one after the other.
proof fn lemma_decode_concat(b1: Seq<u8>, b2: Seq<u8>)
    requires
        valid_utf8(b1),
        valid_utf8(b2),
    ensures
        valid_utf8(b1 + b2),
        decode_utf8(b1 + b2) == decode_utf8(b1) + decode_utf8(b2),
{
    let d1 = decode_utf8(b1);
    let d2 = decode_utf8(b2);
    decode_utf8_encode_utf8(b1);
    decode_utf8_encode_utf8(b2);
    lemma_encode_concat(d1, d2);
    encode_utf8_valid_utf8(d1 + d2);
    encode_utf8_decode_utf8(d1 + d2);
}

/// The newline byte is valid UTF-8 and decodes to a newline.
proof fn lemma_newline_byte()
    ensures
        valid_utf8(seq![10u8]),
        decode_utf8(seq![10u8]) == seq!['\n'],
{
    let nl = seq!['\n'];
    assert(('\n' as u32) == 10u32);
    assert(10u32 & 0x7Fu32 == 10u32) by (bit_vector);
    assert(encode_utf8(nl.drop_first()) =~= Seq::<u8>::empty());
    assert(encode_utf8(nl) =~= seq![10u8]);
    encode_utf8_valid_utf8(nl);
    encode_utf8_decode_utf8(nl);
}

/// An empty line reports no count and names no file.
proof fn lemma_empty_line_silent()
    ensures
        line_damage_count(Seq::<char>::empty()) is None,
        line_recovery_count(Seq::<char>::empty()) is None,
        line_damaged_files(Seq::<char>::empty()) == Seq::<Seq<char>>::empty(),
        line_missing_files(Seq::<char>::empty()) == Seq::<Seq<char>>::empty(),
{
    let e = Seq::<char>::empty();
    assert(spec_to_lowercase(e) =~= e);
    assert forall|p: Seq<char>| p.len() > 0 implies !has_substring(e, p) by {
        if has_substring(e, p) {
            let k = choose|k: int| occurs_at(e, p, k);
        }
    }
    assert(!has_substring(e, "damaged"@)) by { reveal_strlit("damaged"); }
    assert(!has_substring(e, "missing"@)) by { reveal_strlit("missing"); }
    assert(!has_substring(e, "recovery"@)) by { reveal_strlit("recovery"); }
    assert(!has_substring(e, "damaged:"@)) by { reveal_strlit("damaged:"); }
    assert(!has_substring(e, "corrupt:"@)) by { reveal_strlit("corrupt:"); }
    assert(!has_substring(e, "- damaged"@)) by { reveal_strlit("- damaged"); }
    assert(!has_substring(e, "missing:"@)) by { reveal_strlit("missing:"); }
    assert(!has_substring(e, "- missing"@)) by { reveal_strlit("- missing"); }
    assert(line_damaged_files(e) =~= Seq::<Seq<char>>::empty());
    assert(line_missing_files(e) =~= Seq::<Seq<char>>::empty());
}

/// A final empty line changes no count and names no further file.
proof fn lemma_push_empty_line(lines: Seq<Seq<char>>)
    ensures
        max_count(lines.push(Seq::<char>::empty()), false) == max_count(lines, false),
        max_count(lines.push(Seq::<char>::empty()), true) == max_count(lines, true),
        named_files(lines.push(Seq::<char>::empty()), false) == named_files(lines, false),
        named_files(lines.push(Seq::<char>::empty()), true) == named_files(lines, true),
{
    let l = lines.push(Seq::<char>::empty());
    lemma_empty_line_silent();
    assert(l.drop_last() =~= lines);
    assert(named_files(l, false) =~= named_files(lines, false));
    assert(named_files(l, true) =~= named_files(lines, true));
}

/// A carriage return at the end of an ASCII line changes nothing that the
/// line reports.
proof fn lemma_line_trailing_cr(w: Seq<char>)
    requires
        is_ascii(w),
    ensures
        line_damage_count(w.push('\r')) == line_damage_count(w),
        line_recovery_count(w.push('\r')) == line_recovery_count(w),
        line_damaged_files(w.push('\r')) == line_damaged_files(w),
        line_missing_files(w.push('\r')) == line_missing_files(w),
{
    let cr = '\r';
    let v = w.push(cr);
    assert((cr as u32) == 13u32);
    assert(spec_is_whitespace(cr));
    assert(is_ascii(v)) by {
        assert forall|i: int| 0 <= i < v.len() implies (v[i] as u32) < 128 by {
            if i < w.len() {
                assert(v[i] == w[i]);
            }
        }
    }
    let low0 = spec_to_lowercase(w);
    let low1 = spec_to_lowercase(v);
    assert(crate::paths::ascii_lower(cr) == cr);
    assert(low1 =~= low0.push(cr));
    reveal_strlit("damaged");
    reveal_strlit("missing");
    reveal_strlit("recovery");
    reveal_strlit("block");
    reveal_strlit("damaged:");
    reveal_strlit("corrupt:");
    reveal_strlit("- damaged");
    reveal_strlit("missing:");
    reveal_strlit("- missing");
    lemma_substring_push(low0, cr, "damaged"@);
    lemma_substring_push(low0, cr, "missing"@);
    lemma_substring_push(low0, cr, "recovery"@);
    lemma_substring_push(low0, cr, "block"@);
    lemma_substring_push(low0, cr, "damaged:"@);
    lemma_substring_push(low0, cr, "corrupt:"@);
    lemma_substring_push(low0, cr, "- damaged"@);
    lemma_substring_push(low0, cr, "missing:"@);
    lemma_substring_push(low0, cr, "- missing"@);
    lemma_words_push(low0, cr);
    assert(spec_number_before_blocks(low1) == spec_number_before_blocks(low0));
    lemma_colon_field_push(w, cr);
    assert(trimmed_field(v) == trimmed_field(w));
    lemma_quoted_push(w, cr);
    assert(spec_filename_from_line(v) == spec_filename_from_line(w));
}

/// Lines whose last line loses a final carriage return report the same
/// counts and name the same files, when that line is ASCII.
proof fn lemma_last_line_without_cr(lines: Seq<Seq<char>>, w: Seq<char>)
    requires
        lines.len() > 0,
        lines.last() == w.push('\r'),
        is_ascii(w),
    ensures
        max_count(lines.drop_last().push(w), false) == max_count(lines, false),
        max_count(lines.drop_last().push(w), true) == max_count(lines, true),
        named_files(lines.drop_last().push(w), false) == named_files(lines, false),
        named_files(lines.drop_last().push(w), true) == named_files(lines, true),
{
    let m = lines.drop_last().push(w);
    lemma_line_trailing_cr(w);
    assert(m.drop_last() =~= lines.drop_last());
    assert(m.last() == w);
    assert(named_files(m, false) =~= named_files(lines, false));
    assert(named_files(m, true) =~= named_files(lines, true));
}

/// How standard output and standard error are read: output that is not
/// valid UTF-8 is read as empty; and when both are valid UTF-8,
/// verification reads them as it reads the output followed by a newline and
/// the error output, with no error output. Where the error output ends with
/// a carriage return, this is stated for a last line of ASCII text.
pub proof fn lemma_verify_output_combined(stdout: Seq<u8>, stderr: Seq<u8>, exit_status: ExitStatus)
    ensures
        !valid_utf8(stdout) ==> verify_outcome(stdout, stderr, exit_status) == verify_outcome(
            Seq::<u8>::empty(),
            stderr,
            exit_status,
        ),
        valid_utf8(stdout) && valid_utf8(stderr) && (!(decode_utf8(stderr).len() > 0
            && decode_utf8(stderr).last() == '\r') || is_ascii(
            spec_lines(decode_utf8(stderr)).last(),
        )) ==> verify_outcome(stdout, stderr, exit_status) == verify_outcome(
            stdout + seq![10u8] + stderr,
            Seq::<u8>::empty(),
            exit_status,
        ),
{
    let empty = Seq::<u8>::empty();
    assert(valid_utf8(empty));
    assert(decode_utf8(empty) =~= Seq::<char>::empty());
    if !valid_utf8(stdout) {
        assert(output_lines(stdout, stderr) =~= output_lines(empty, stderr));
    }
    if valid_utf8(stdout) && valid_utf8(stderr) {
        lemma_newline_byte();
        lemma_decode_concat(stdout, seq![10u8]);
        lemma_decode_concat(stdout + seq![10u8], stderr);
        let x = decode_utf8(stdout) + seq!['\n'] + decode_utf8(stderr);
        assert(decode_or_empty(stdout + seq![10u8] + stderr) == x);
        assert(output_lines(stdout + seq![10u8] + stderr, empty) == spec_lines(
            x + seq!['\n'] + Seq::<char>::empty(),
        ));
        assert(x + seq!['\n'] + Seq::<char>::empty() =~= x + seq!['\n']);
        assert(output_lines(stdout, stderr) == spec_lines(x));
        lemma_lines_push_newline(x);
        let e = decode_utf8(stderr);
        if e.len() == 0 {
            assert(x.last() == '\n');
        } else {
            assert(x.last() == e.last());
        }
        if x.last() == '\n' {
            lemma_push_empty_line(spec_lines(x));
        }
        if e.len() > 0 && e.last() == '\r' && is_ascii(spec_lines(e).last()) {
            let a = decode_utf8(stdout);
            assert(x =~= a + seq!['\n'] + e);
            lemma_lines_concat(a, e);
            lemma_lines_nonempty(e);
            assert(spec_lines(x).last() == spec_lines(e).last());
            lemma_lines_push_newline_after_cr(x);
            let last = spec_lines(x).last();
            let w = last.drop_last();
            assert(last =~= w.push('\r'));
            assert(is_ascii(w)) by {
                assert forall|i: int| 0 <= i < w.len() implies (w[i] as u32) < 128 by {
                    assert(w[i] == last[i]);
                }
            }
            lemma_last_line_without_cr(spec_lines(x), w);
        }
    }
}

} // verus!
