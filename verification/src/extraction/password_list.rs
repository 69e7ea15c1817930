//! Passwords to try on an encrypted archive, from several sources in
//! priority order, each once.
use vstd::prelude::*;
use crate::text::{
    dedup, lemma_dedup_contains, lemma_dedup_first, lemma_dedup_push, lemma_dedup_unique, lines,
    push_unique, spec_lines, spec_trim, str_views, trim, views, chars_of,
};

verus! {

/// An optional string slice as a sequence of zero or one element.
pub open spec fn opt_str(o: Option<&str>) -> Seq<Seq<char>> {
    match o {
        Some(s) => seq![s@],
        None => seq![],
    }
}

/// The passwords a password file holds: its lines, trimmed, without the
/// empty ones.
pub open spec fn file_passwords(lines: Seq<Seq<char>>) -> Seq<Seq<char>>
    decreases lines.len(),
{
    if lines.len() == 0 {
        seq![]
    } else {
        let t = spec_trim(lines.last());
        file_passwords(lines.drop_last()) + if t.len() > 0 {
            seq![t]
        } else {
            seq![]
        }
    }
}

/// The passwords of an optional password file's content.
pub open spec fn content_passwords(content: Option<&str>) -> Seq<Seq<char>> {
    match content {
        Some(c) => file_passwords(spec_lines(c@)),
        None => seq![],
    }
}

/// The candidate passwords in priority order, before repetitions are removed:
/// the cached correct password, the download's password, the NZB's password,
/// those of the password file, then the empty password when asked for.
pub open spec fn password_candidates(
    cached_correct: Option<&str>,
    download_password: Option<&str>,
    nzb_meta_password: Option<&str>,
    file_content: Option<&str>,
    try_empty: bool,
) -> Seq<Seq<char>> {
    opt_str(cached_correct) + opt_str(download_password) + opt_str(nzb_meta_password)
        + content_passwords(file_content) + if try_empty {
        seq![Seq::<char>::empty()]
    } else {
        seq![]
    }
}

/// Password list for archive extraction, in priority order, each password
/// once.
#[derive(Debug)]
pub struct PasswordList {
    passwords: Vec<String>,
}

impl View for PasswordList {
    type V = Seq<Seq<char>>;

    closed spec fn view(&self) -> Seq<Seq<char>> {
        str_views(self.passwords@)
    }
}

impl PasswordList {
    /// Collects passwords from all sources, without repetition, in priority
    /// order: cached correct password, per-download password, NZB metadata
    /// password, the lines of the global password file (trimmed, empty ones
    /// skipped; `file_content` is the file's text when it could be read),
    /// then the empty password if `try_empty`.
    pub fn collect(
        cached_correct: Option<&str>,
        download_password: Option<&str>,
        nzb_meta_password: Option<&str>,
        file_content: Option<&str>,
        try_empty: bool,
    ) -> (r: Self)
        ensures
            r@ == dedup(
                password_candidates(
                    cached_correct,
                    download_password,
                    nzb_meta_password,
                    file_content,
                    try_empty,
                ),
            ),
            match file_content {
                Some(c) => forall|i: int|
                    0 <= i < spec_lines(c@).len() && spec_trim(#[trigger] spec_lines(c@)[i]).len()
                        > 0 ==> r@.contains(spec_trim(spec_lines(c@)[i])),
                None => true,
            },
    {
        let mut passwords: Vec<String> = Vec::new();
        let ghost mut seen: Seq<Seq<char>> = seq![];
        assert(str_views(passwords@) =~= dedup(seen));
        match cached_correct {
            Some(pw) => {
                proof {
                    lemma_dedup_push(seen, pw@);
                    seen = seen.push(pw@);
                }
                push_unique(&mut passwords, chars_of(pw));
            },
            None => {},
        }
        match download_password {
            Some(pw) => {
                proof {
                    lemma_dedup_push(seen, pw@);
                    seen = seen.push(pw@);
                }
                push_unique(&mut passwords, chars_of(pw));
            },
            None => {},
        }
        match nzb_meta_password {
            Some(pw) => {
                proof {
                    lemma_dedup_push(seen, pw@);
                    seen = seen.push(pw@);
                }
                push_unique(&mut passwords, chars_of(pw));
            },
            None => {},
        }
        assert(seen =~= opt_str(cached_correct) + opt_str(download_password) + opt_str(
            nzb_meta_password,
        ));
        let ghost sources = seen;
        match file_content {
            Some(content) => {
                let cv = chars_of(content);
                let ls = lines(cv.as_slice());
                let ghost all = views(ls@);
                let mut i: usize = 0;
                assert(all.take(0) =~= Seq::<Seq<char>>::empty());
                assert(seen =~= sources + file_passwords(all.take(0)));
                while i < ls.len()
                    invariant
                        i <= ls@.len(),
                        all == views(ls@),
                        seen == sources + file_passwords(all.take(i as int)),
                        str_views(passwords@) == dedup(seen),
                    decreases ls@.len() - i,
                {
                    assert(all.take(i + 1).drop_last() =~= all.take(i as int));
                    let t = trim(ls[i].as_slice());
                    if t.len() > 0 {
                        proof {
                            lemma_dedup_push(seen, t@);
                            seen = seen.push(t@);
                        }
                        push_unique(&mut passwords, t);
                    }
                    assert(seen =~= sources + file_passwords(all.take(i + 1)));
                    i += 1;
                }
                assert(all.take(ls@.len() as int) =~= all);
            },
            None => {},
        }
        assert(seen =~= sources + content_passwords(file_content));
        if try_empty {
            proof {
                lemma_dedup_push(seen, Seq::<char>::empty());
                seen = seen.push(Seq::<char>::empty());
            }
            push_unique(&mut passwords, Vec::new());
        }
        assert(seen =~= password_candidates(
            cached_correct,
            download_password,
            nzb_meta_password,
            file_content,
            try_empty,
        ));
        proof {
            lemma_collected_file_lines(
                cached_correct,
                download_password,
                nzb_meta_password,
                file_content,
                try_empty,
            );
        }
        PasswordList { passwords }
    }

    /// An iterator over the passwords, in order.
    pub fn iter(&self) -> (r: std::slice::Iter<'_, String>)
        ensures
            vstd::std_specs::iter::IteratorSpec::remaining(&r).map_values(|s: &String| s@) == self@,
    {
        let r = self.passwords.iter();
        assert(vstd::std_specs::iter::IteratorSpec::remaining(&r).map_values(|s: &String| s@) =~= self@);
        r
    }

    /// Whether there are no passwords to try.
    pub fn is_empty(&self) -> (r: bool)
        ensures
            r == (self@.len() == 0),
    {
        self.passwords.len() == 0
    }

    /// The number of passwords.
    pub fn len(&self) -> (r: usize)
        ensures
            r == self@.len(),
    {
        self.passwords.len()
    }
}


/// The passwords collected from the sources: no password twice; exactly the
/// passwords the sources give; the cached correct password, when there is
/// one, first; the empty password, when asked for and no source gave it,
/// last.
pub proof fn lemma_collected_passwords(
    cached_correct: Option<&str>,
    download_password: Option<&str>,
    nzb_meta_password: Option<&str>,
    file_content: Option<&str>,
    try_empty: bool,
)
    ensures
        ({
            let c = password_candidates(
                cached_correct,
                download_password,
                nzb_meta_password,
                file_content,
                try_empty,
            );
            let d = dedup(c);
            &&& d.no_duplicates()
            &&& forall|x: Seq<char>| d.contains(x) <==> c.contains(x)
            &&& (cached_correct matches Some(pw) ==> d.len() > 0 && d[0] == pw@)
            &&& (try_empty && !c.drop_last().contains(Seq::<char>::empty()) ==> d.len() > 0
                && d.last() == Seq::<char>::empty())
        }),
{
    let c = password_candidates(
        cached_correct,
        download_password,
        nzb_meta_password,
        file_content,
        try_empty,
    );
    lemma_dedup_unique(c);
    assert forall|x: Seq<char>| dedup(c).contains(x) <==> c.contains(x) by {
        lemma_dedup_contains(c, x);
    }
    if cached_correct is Some {
        assert(c[0] == opt_str(cached_correct)[0]);
        lemma_dedup_first(c);
    }
    if try_empty && !c.drop_last().contains(Seq::<char>::empty()) {
        let e = Seq::<char>::empty();
        assert(c =~= c.drop_last().push(e));
        lemma_dedup_contains(c.drop_last(), e);
        lemma_dedup_push(c.drop_last(), e);
    }
}

/// A text is among the passwords of a password file exactly when it is the
/// trimmed text of one of its lines, and not empty.
proof fn lemma_file_passwords_contains(lines: Seq<Seq<char>>, x: Seq<char>)
    ensures
        file_passwords(lines).contains(x) <==> exists|i: int|
            0 <= i < lines.len() && spec_trim(#[trigger] lines[i]) == x && x.len() > 0,
    decreases lines.len(),
{
    if lines.len() > 0 {
        let prev = lines.drop_last();
        let t = spec_trim(lines.last());
        lemma_file_passwords_contains(prev, x);
        let fp = file_passwords(prev);
        let tail: Seq<Seq<char>> = if t.len() > 0 {
            seq![t]
        } else {
            seq![]
        };
        let all = file_passwords(lines);
        assert(all == fp + tail);
        if all.contains(x) {
            let k = choose|k: int| 0 <= k < all.len() && all[k] == x;
            if k < fp.len() {
                assert(fp[k] == x);
                let i = choose|i: int| 0 <= i < prev.len() && spec_trim(prev[i]) == x && x.len() > 0;
                assert(lines[i] == prev[i]);
            } else {
                assert(tail[k - fp.len()] == x);
                assert(spec_trim(lines[lines.len() - 1]) == x);
            }
        }
        if exists|i: int| 0 <= i < lines.len() && spec_trim(#[trigger] lines[i]) == x && x.len() > 0 {
            let i = choose|i: int|
                0 <= i < lines.len() && spec_trim(#[trigger] lines[i]) == x && x.len() > 0;
            if i < prev.len() {
                assert(prev[i] == lines[i]);
                assert(fp.contains(x));
                let k = choose|k: int| 0 <= k < fp.len() && fp[k] == x;
                assert(all[k] == x);
            } else {
                assert(lines.last() == lines[i]);
                assert(all[fp.len() as int] == x);
            }
        }
    }
}

/// The collected passwords hold every line of the password file whose
/// trimmed text is not empty, trimmed, the last line included; and every
/// collected password is the cached, download or NZB password, such a line
/// of the password file, or the empty password when it was asked for.
pub proof fn lemma_collected_file_lines(
    cached_correct: Option<&str>,
    download_password: Option<&str>,
    nzb_meta_password: Option<&str>,
    file_content: Option<&str>,
    try_empty: bool,
)
    ensures
        ({
            let d = dedup(
                password_candidates(
                    cached_correct,
                    download_password,
                    nzb_meta_password,
                    file_content,
                    try_empty,
                ),
            );
            &&& match file_content {
                Some(c) => forall|i: int|
                    0 <= i < spec_lines(c@).len() && spec_trim(#[trigger] spec_lines(c@)[i]).len()
                        > 0 ==> d.contains(spec_trim(spec_lines(c@)[i])),
                None => true,
            }
            &&& forall|x: Seq<char>|
                #[trigger] d.contains(x) ==> opt_str(cached_correct).contains(x) || opt_str(
                    download_password,
                ).contains(x) || opt_str(nzb_meta_password).contains(x) || (
                file_content matches Some(c) && exists|i: int|
                    0 <= i < spec_lines(c@).len() && spec_trim(#[trigger] spec_lines(c@)[i]) == x
                        && x.len() > 0) || (try_empty && x.len() == 0)
        }),
{
    let a = opt_str(cached_correct);
    let b = opt_str(download_password);
    let n = opt_str(nzb_meta_password);
    let f = content_passwords(file_content);
    let e: Seq<Seq<char>> = if try_empty {
        seq![Seq::<char>::empty()]
    } else {
        seq![]
    };
    let c = password_candidates(
        cached_correct,
        download_password,
        nzb_meta_password,
        file_content,
        try_empty,
    );
    let d = dedup(c);
    assert(c == a + b + n + f + e);
    let pre = a + b + n;
    match file_content {
        Some(content) => {
            let ls = spec_lines(content@);
            assert forall|i: int|
                0 <= i < ls.len() && spec_trim(#[trigger] ls[i]).len() > 0 implies d.contains(
                spec_trim(ls[i]),
            ) by {
                let x = spec_trim(ls[i]);
                lemma_file_passwords_contains(ls, x);
                let k = choose|k: int| 0 <= k < f.len() && f[k] == x;
                assert(c[pre.len() + k] == x);
                lemma_dedup_contains(c, x);
            }
        },
        None => {},
    }
    assert forall|x: Seq<char>| #[trigger] d.contains(x) implies a.contains(x) || b.contains(x)
        || n.contains(x) || (file_content matches Some(cc) && exists|i: int|
        0 <= i < spec_lines(cc@).len() && spec_trim(#[trigger] spec_lines(cc@)[i]) == x && x.len()
            > 0) || (try_empty && x.len() == 0) by {
        lemma_dedup_contains(c, x);
        let k = choose|k: int| 0 <= k < c.len() && c[k] == x;
        if k < a.len() {
            assert(a[k] == x);
        } else if k < a.len() + b.len() {
            assert(b[k - a.len()] == x);
        } else if k < pre.len() {
            assert(n[k - a.len() - b.len()] == x);
        } else if k < pre.len() + f.len() {
            assert(f[k - pre.len()] == x);
            match file_content {
                Some(cc) => {
                    lemma_file_passwords_contains(spec_lines(cc@), x);
                },
                None => {},
            }
        } else {
            assert(e[k - pre.len() - f.len()] == x);
        }
    }
}

} // verus!
