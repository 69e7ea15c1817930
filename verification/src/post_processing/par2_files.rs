//! The PAR2 files of a download directory, base files first.
//!
//! A PAR2 set has a base file (`name.par2`) and volume files
//! (`name.vol00+01.par2`); verification and repair use the first file of the
//! sorted list, so base files come before volume files, and files of the
//! same kind come in the order of their paths.
use vstd::prelude::*;
use crate::extraction::shared::DirEntry;
use crate::paths::{eq_ignore_ascii_case, eq_ignore_ascii_case_exec, extension, file_name, spec_extension, spec_file_name};
use crate::text::{chars_of, contains_str, has_substring, str_views};

verus! {

broadcast use vstd::seq_lib::group_to_multiset_ensures;

/// `a` comes strictly before `b` in lexicographic order of characters.
pub open spec fn lex_lt(a: Seq<char>, b: Seq<char>) -> bool
    decreases a.len(),
{
    if a.len() == 0 {
        b.len() > 0
    } else if b.len() == 0 {
        false
    } else if a[0] != b[0] {
        a[0] < b[0]
    } else {
        lex_lt(a.drop_first(), b.drop_first())
    }
}

/// No string comes before itself.
pub proof fn lemma_lex_irreflexive(a: Seq<char>)
    ensures
        !lex_lt(a, a),
    decreases a.len(),
{
    if a.len() > 0 {
        lemma_lex_irreflexive(a.drop_first());
    }
}

/// Lexicographic order is transitive.
pub proof fn lemma_lex_transitive(a: Seq<char>, b: Seq<char>, c: Seq<char>)
    requires
        lex_lt(a, b),
        lex_lt(b, c),
    ensures
        lex_lt(a, c),
    decreases a.len(),
{
    if a.len() > 0 && b.len() > 0 && c.len() > 0 && a[0] == b[0] && b[0] == c[0] {
        lemma_lex_transitive(a.drop_first(), b.drop_first(), c.drop_first());
    }
}

/// Of two different strings, one comes before the other.
pub proof fn lemma_lex_total(a: Seq<char>, b: Seq<char>)
    ensures
        a == b || lex_lt(a, b) || lex_lt(b, a),
    decreases a.len(),
{
    if a.len() > 0 && b.len() > 0 && a[0] == b[0] {
        lemma_lex_total(a.drop_first(), b.drop_first());
        if a.drop_first() == b.drop_first() {
            assert(a =~= seq![a[0]] + a.drop_first());
            assert(b =~= seq![b[0]] + b.drop_first());
        }
    } else if a.len() == 0 && b.len() == 0 {
        assert(a =~= b);
    }
}

/// The path names a PAR2 volume file: its file name contains ".vol".
pub open spec fn is_vol(path: Seq<char>) -> bool {
    match spec_file_name(path) {
        Some(n) => has_substring(n, ".vol"@),
        None => false,
    }
}

/// `a` may come before `b`: a base file before a volume file, and files of
/// the same kind by their paths.
pub open spec fn par2_le(a: Seq<char>, b: Seq<char>) -> bool {
    (!is_vol(a) && is_vol(b)) || (is_vol(a) == is_vol(b) && !lex_lt(b, a))
}

/// Any two PAR2 paths are ordered one way or the other.
pub proof fn lemma_par2_total(a: Seq<char>, b: Seq<char>)
    ensures
        par2_le(a, b) || par2_le(b, a),
{
    if lex_lt(a, b) && lex_lt(b, a) {
        lemma_lex_transitive(a, b, a);
        lemma_lex_irreflexive(a);
    }
}

/// The order of PAR2 paths is transitive.
pub proof fn lemma_par2_transitive(a: Seq<char>, b: Seq<char>, c: Seq<char>)
    requires
        par2_le(a, b),
        par2_le(b, c),
    ensures
        par2_le(a, c),
{
    if is_vol(a) == is_vol(c) && lex_lt(c, a) {
        lemma_lex_total(a, b);
        if lex_lt(a, b) {
            lemma_lex_transitive(c, a, b);
        }
    }
}

/// Every pair of elements is in order.
pub open spec fn par2_sorted(s: Seq<Seq<char>>) -> bool {
    forall|i: int, j: int| 0 <= i < j < s.len() ==> par2_le(#[trigger] s[i], #[trigger] s[j])
}

/// The entry is a regular file with extension `par2` in any case.
pub open spec fn is_par2_entry(e: DirEntry) -> bool {
    e.is_file && match spec_extension(e.path@) {
        Some(x) => eq_ignore_ascii_case(x, "par2"@),
        None => false,
    }
}

/// The PAR2 files of a listing, in listing order.
pub open spec fn par2_candidates(entries: Seq<DirEntry>) -> Seq<Seq<char>>
    decreases entries.len(),
{
    if entries.len() == 0 {
        seq![]
    } else {
        par2_candidates(entries.drop_last()) + if is_par2_entry(entries.last()) {
            seq![entries.last().path@]
        } else {
            seq![]
        }
    }
}

/// Whether `a` comes before `b` in lexicographic order of characters.
fn lex_less(a: &[char], b: &[char]) -> (r: bool)
    ensures
        r == lex_lt(a@, b@),
{
    let mut i: usize = 0;
    assert(a@.skip(0) =~= a@);
    assert(b@.skip(0) =~= b@);
    loop
        invariant
            i <= a@.len(),
            i <= b@.len(),
            lex_lt(a@, b@) == lex_lt(a@.skip(i as int), b@.skip(i as int)),
        decreases a@.len() - i,
    {
        if i == a.len() {
            return i < b.len();
        }
        if i == b.len() {
            return false;
        }
        let x = a[i];
        let y = b[i];
        if x != y {
            return x < y;
        }
        assert(a@.skip(i as int).drop_first() =~= a@.skip(i + 1));
        assert(b@.skip(i as int).drop_first() =~= b@.skip(i + 1));
        i += 1;
    }
}

/// Whether the path names a PAR2 volume file.
fn is_vol_path(path: &str) -> (r: bool)
    ensures
        r == is_vol(path@),
{
    match file_name(path) {
        Some(n) => {
            let nv = chars_of(n.as_str());
            contains_str(nv.as_slice(), ".vol")
        },
        None => false,
    }
}

/// Whether `a` comes strictly before `b` among PAR2 paths.
fn par2_before(a: &str, b: &str) -> (r: bool)
    ensures
        r == !par2_le(b@, a@),
{
    let va = is_vol_path(a);
    let vb = is_vol_path(b);
    if va != vb {
        !va
    } else {
        let av = chars_of(a);
        let bv = chars_of(b);
        lex_less(av.as_slice(), bv.as_slice())
    }
}

/// Inserting an element after everything that may come before it and before
/// what follows it keeps a sequence sorted.
proof fn lemma_insert_sorted(s: Seq<Seq<char>>, j: int, x: Seq<char>)
    requires
        par2_sorted(s),
        0 <= j <= s.len(),
        forall|m: int| 0 <= m < j ==> par2_le(#[trigger] s[m], x),
        j < s.len() ==> par2_le(x, s[j]),
    ensures
        par2_sorted(s.insert(j, x)),
{
    let t = s.insert(j, x);
    assert forall|p: int, q: int| 0 <= p < q < t.len() implies par2_le(
        #[trigger] t[p],
        #[trigger] t[q],
    ) by {
        if q < j {
            assert(t[p] == s[p] && t[q] == s[q]);
        } else if q == j {
            assert(t[p] == s[p]);
        } else if p == j {
            assert(t[q] == s[q - 1]);
            if q - 1 > j {
                assert(par2_le(s[j], s[q - 1]));
                lemma_par2_transitive(x, s[j], s[q - 1]);
            }
        } else if p < j {
            assert(t[p] == s[p] && t[q] == s[q - 1]);
        } else {
            assert(t[p] == s[p - 1] && t[q] == s[q - 1]);
        }
    }
}

/// The PAR2 files of a listing in listing order.
fn par2_in_listing(entries: &[DirEntry]) -> (r: Vec<String>)
    ensures
        str_views(r@) == par2_candidates(entries@),
{
    let mut out: Vec<String> = Vec::new();
    let mut i: usize = 0;
    assert(entries@.take(0) =~= Seq::<DirEntry>::empty());
    while i < entries.len()
        invariant
            i <= entries@.len(),
            str_views(out@) == par2_candidates(entries@.take(i as int)),
        decreases entries@.len() - i,
    {
        assert(entries@.take(i + 1).drop_last() =~= entries@.take(i as int));
        assert(entries@.take(i + 1).last() == entries@[i as int]);
        let e = &entries[i];
        let mut keep = false;
        if e.is_file {
            match extension(e.path.as_str()) {
                Some(x) => {
                    let xv = chars_of(x.as_str());
                    let pv = chars_of("par2");
                    keep = eq_ignore_ascii_case_exec(xv.as_slice(), pv.as_slice());
                },
                None => {},
            }
        }
        if keep {
            let ghost prev = out@;
            out.push(e.path.clone());
            assert(str_views(out@) =~= str_views(prev).push(e.path@));
        }
        assert(str_views(out@) =~= par2_candidates(entries@.take(i + 1)));
        i += 1;
    }
    assert(entries@.take(entries@.len() as int) =~= entries@);
    out
}

/// The PAR2 files of a directory listing (regular files with extension
/// `par2` in any case), sorted: base files before volume files (whose file
/// name contains ".vol"), files of the same kind by their paths. The paths
/// of one listing share their directory, so this is the order of their
/// file names.
pub fn find_par2_files(entries: &[DirEntry]) -> (r: Vec<String>)
    ensures
        par2_sorted(str_views(r@)),
        str_views(r@).to_multiset() == par2_candidates(entries@).to_multiset(),
{
    let cands = par2_in_listing(entries);
    let ghost cv = str_views(cands@);
    let mut out: Vec<String> = Vec::new();
    let mut k: usize = 0;
    assert(cv.take(0) =~= Seq::<Seq<char>>::empty());
    while k < cands.len()
        invariant
            k <= cands@.len(),
            cv == str_views(cands@),
            par2_sorted(str_views(out@)),
            str_views(out@).to_multiset() == cv.take(k as int).to_multiset(),
        decreases cands@.len() - k,
    {
        let x = &cands[k];
        let mut j: usize = 0;
        while j < out.len() && !par2_before(x.as_str(), out[j].as_str())
            invariant
                j <= out@.len(),
                forall|m: int| 0 <= m < j ==> par2_le(#[trigger] str_views(out@)[m], x@),
            decreases out@.len() - j,
        {
            j += 1;
        }
        let ghost s = str_views(out@);
        proof {
            if j < out@.len() {
                lemma_par2_total(x@, s[j as int]);
            }
            lemma_insert_sorted(s, j as int, x@);
        }
        out.insert(j, x.clone());
        assert(str_views(out@) =~= s.insert(j as int, x@));
        assert(cv.take(k + 1) =~= cv.take(k as int).push(x@));
        k += 1;
    }
    assert(cv.take(cands@.len() as int) =~= cv);
    out
}

} // verus!
