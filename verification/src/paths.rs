//! Paths held as strings, with the parts of `std::path` the library uses:
//! file names, extensions, stems, parents and joins.
use vstd::prelude::*;
use crate::parity::traits::opt_view;

verus! {

/// What `Path::file_name` returns: the final component, unless the path
/// ends in `..` or has none.
pub uninterp spec fn spec_file_name(path: Seq<char>) -> Option<Seq<char>>;

/// What `Path::parent` returns: the path without its final component, if
/// it has one.
pub uninterp spec fn spec_parent(path: Seq<char>) -> Option<Seq<char>>;

/// What `Path::join` returns for a base path and a path to adjoin.
pub uninterp spec fn spec_join(base: Seq<char>, rel: Seq<char>) -> Seq<char>;

/// Index of the last `c` in `s`, or -1.
pub open spec fn last_index(s: Seq<char>, c: char) -> int
    decreases s.len(),
{
    if s.len() == 0 {
        -1
    } else if s.last() == c {
        s.len() - 1
    } else {
        last_index(s.drop_last(), c)
    }
}

/// `last_index` is -1 or an index holding `c` with no `c` after it.
pub proof fn lemma_last_index(s: Seq<char>, c: char)
    ensures
        -1 <= last_index(s, c) < s.len(),
        last_index(s, c) >= 0 ==> s[last_index(s, c)] == c,
        forall|j: int| last_index(s, c) < j < s.len() ==> s[j] != c,
    decreases s.len(),
{
    if s.len() > 0 && s.last() != c {
        lemma_last_index(s.drop_last(), c);
        assert forall|j: int| last_index(s, c) < j < s.len() implies s[j] != c by {
            if j < s.len() - 1 {
                assert(s[j] == s.drop_last()[j]);
            }
        }
    }
}

/// The extension of a file name, as `Path::extension` documents it: none
/// without a `.` or when the only `.` begins the name; otherwise the part
/// after the final `.`.
pub open spec fn name_extension(name: Seq<char>) -> Option<Seq<char>> {
    let k = last_index(name, '.');
    if k <= 0 {
        None
    } else {
        Some(name.skip(k + 1))
    }
}

/// The stem of a file name, as `Path::file_stem` documents it: the whole
/// name without a `.` or when the only `.` begins the name; otherwise the
/// part before the final `.`.
pub open spec fn name_stem(name: Seq<char>) -> Seq<char> {
    let k = last_index(name, '.');
    if k <= 0 {
        name
    } else {
        name.take(k)
    }
}

/// The extension of a path: that of its file name.
pub open spec fn spec_extension(path: Seq<char>) -> Option<Seq<char>> {
    match spec_file_name(path) {
        Some(n) => name_extension(n),
        None => None,
    }
}

/// The stem of a path: that of its file name.
pub open spec fn spec_stem(path: Seq<char>) -> Option<Seq<char>> {
    match spec_file_name(path) {
        Some(n) => Some(name_stem(n)),
        None => None,
    }
}

/// `Path::file_name`.
#[verifier::external_body]
pub(crate) fn file_name(path: &str) -> (r: Option<String>)
    ensures
        opt_view(r) == spec_file_name(path@),
{
    std::path::Path::new(path).file_name().map(|n| n.to_string_lossy().into_owned())
}

/// `Path::extension`: the extension of the file name, as documented.
#[verifier::external_body]
pub(crate) fn extension(path: &str) -> (r: Option<String>)
    ensures
        opt_view(r) == spec_extension(path@),
{
    std::path::Path::new(path).extension().map(|e| e.to_string_lossy().into_owned())
}

/// `Path::file_stem`: the stem of the file name, as documented.
#[verifier::external_body]
pub(crate) fn file_stem(path: &str) -> (r: Option<String>)
    ensures
        opt_view(r) == spec_stem(path@),
{
    std::path::Path::new(path).file_stem().map(|e| e.to_string_lossy().into_owned())
}

/// `Path::parent`.
#[verifier::external_body]
pub(crate) fn parent(path: &str) -> (r: Option<String>)
    ensures
        opt_view(r) == spec_parent(path@),
{
    std::path::Path::new(path).parent().map(|p| p.to_string_lossy().into_owned())
}

/// `Path::join`.
#[verifier::external_body]
pub(crate) fn join(base: &str, rel: &str) -> (r: String)
    ensures
        r@ == spec_join(base@, rel@),
{
    std::path::Path::new(base).join(rel).to_string_lossy().into_owned()
}

/// ASCII case-insensitive equality, as `str::eq_ignore_ascii_case`.
pub open spec fn ascii_lower(c: char) -> char {
    if 'A' <= c <= 'Z' {
        ((c as u32) + 32) as char
    } else {
        c
    }
}

/// Two strings are equal up to ASCII case.
pub open spec fn eq_ignore_ascii_case(a: Seq<char>, b: Seq<char>) -> bool {
    a.len() == b.len() && forall|i: int| 0 <= i < a.len() ==> ascii_lower(a[i]) == ascii_lower(
        b[i],
    )
}

/// The ASCII lowercase of one character.
fn ascii_lower_exec(c: char) -> (r: char)
    ensures
        r == ascii_lower(c),
{
    if 'A' <= c && c <= 'Z' {
        let u = (c as u32) + 32;
        assert(0x61 <= u <= 0x7a);
        char_from_ascii(u)
    } else {
        c
    }
}

/// The character of an ASCII code point.
fn char_from_ascii(u: u32) -> (r: char)
    requires
        u < 128,
    ensures
        r == u as char,
{
    (u as u8) as char
}

/// `str::eq_ignore_ascii_case` over characters.
pub fn eq_ignore_ascii_case_exec(a: &[char], b: &[char]) -> (r: bool)
    ensures
        r == eq_ignore_ascii_case(a@, b@),
{
    if a.len() != b.len() {
        return false;
    }
    let mut i: usize = 0;
    while i < a.len()
        invariant
            a@.len() == b@.len(),
            i <= a@.len(),
            forall|j: int| 0 <= j < i ==> ascii_lower(a@[j]) == ascii_lower(b@[j]),
        decreases a@.len() - i,
    {
        if ascii_lower_exec(a[i]) != ascii_lower_exec(b[i]) {
            return false;
        }
        i += 1;
    }
    true
}

} // verus!
