//! Text handling over sequences of characters: substring search, line
//! splitting, trimming and word splitting, with the few calls into std that
//! have no specification in vstd.
use vstd::prelude::*;
use vstd::utf8::*;

verus! {

// ---------------------------------------------------------------------------
// Names for what std computes
// ---------------------------------------------------------------------------

/// What `char::is_whitespace` returns: the Unicode `White_Space` property,
/// which holds of U+0009 to U+000D, U+0020, U+0085, U+00A0, U+1680, U+2000
/// to U+200A, U+2028, U+2029, U+202F, U+205F and U+3000.
pub open spec fn spec_is_whitespace(c: char) -> bool {
    let u = c as u32;
    ||| 0x09 <= u <= 0x0d
    ||| u == 0x20
    ||| u == 0x85
    ||| u == 0xa0
    ||| u == 0x1680
    ||| 0x2000 <= u <= 0x200a
    ||| u == 0x2028
    ||| u == 0x2029
    ||| u == 0x202f
    ||| u == 0x205f
    ||| u == 0x3000
}

/// Every character is ASCII.
pub open spec fn is_ascii(s: Seq<char>) -> bool {
    forall|i: int| 0 <= i < s.len() ==> (s[i] as u32) < 128
}

/// What `str::to_lowercase` returns for a string that is not all ASCII
/// (the Unicode lowercase mapping).
pub uninterp spec fn spec_unicode_lowercase(s: Seq<char>) -> Seq<char>;

/// What `str::to_lowercase` returns: for ASCII text, each letter `A`-`Z`
/// mapped to `a`-`z` and every other character kept; otherwise the Unicode
/// lowercase mapping.
pub open spec fn spec_to_lowercase(s: Seq<char>) -> Seq<char> {
    if is_ascii(s) {
        s.map_values(|c: char| crate::paths::ascii_lower(c))
    } else {
        spec_unicode_lowercase(s)
    }
}

/// What `String::from_utf8_lossy` returns for a byte sequence.
pub uninterp spec fn spec_utf8_lossy(bytes: Seq<u8>) -> Seq<char>;

/// Whether `c` has the Unicode `White_Space` property, as
/// `char::is_whitespace` decides.
pub(crate) fn is_whitespace(c: char) -> (r: bool)
    ensures
        r == spec_is_whitespace(c),
{
    let u = c as u32;
    (0x09 <= u && u <= 0x0d) || u == 0x20 || u == 0x85 || u == 0xa0 || u == 0x1680 || (0x2000
        <= u && u <= 0x200a) || u == 0x2028 || u == 0x2029 || u == 0x202f || u == 0x205f || u
        == 0x3000
}

/// `str::to_lowercase`, taking and giving characters.
#[verifier::external_body]
pub(crate) fn to_lowercase(s: &[char]) -> (r: Vec<char>)
    ensures
        r@ == spec_to_lowercase(s@),
        !is_ascii(s@) ==> r@ == spec_unicode_lowercase(s@),
{
    let st: String = s.iter().collect();
    st.to_lowercase().chars().collect()
}

/// `std::str::from_utf8`: `Some` exactly when the bytes are valid UTF-8,
/// holding the decoded characters.
#[verifier::external_body]
pub(crate) fn decode_utf8_bytes(bytes: &[u8]) -> (r: Option<Vec<char>>)
    ensures
        r is Some <==> valid_utf8(bytes@),
        r matches Some(v) ==> v@ == decode_utf8(bytes@),
{
    match std::str::from_utf8(bytes) {
        Ok(s) => Some(s.chars().collect()),
        Err(_) => None,
    }
}

/// `String::from_utf8_lossy`: invalid sequences are replaced by U+FFFD; valid
/// UTF-8 is decoded unchanged.
#[verifier::external_body]
pub(crate) fn utf8_lossy(bytes: &[u8]) -> (r: Vec<char>)
    ensures
        r@ == spec_utf8_lossy(bytes@),
        valid_utf8(bytes@) ==> r@ == decode_utf8(bytes@),
{
    String::from_utf8_lossy(bytes).chars().collect()
}

/// The characters of a string slice.
#[verifier::external_body]
pub(crate) fn chars_of(s: &str) -> (r: Vec<char>)
    ensures
        r@ == s@,
{
    s.chars().collect()
}

/// A `String` made of the given characters.
#[verifier::external_body]
pub(crate) fn string_of(v: &[char]) -> (r: String)
    ensures
        r@ == v@,
{
    v.iter().collect()
}

/// What `str::parse::<u32>` accepts: an optional `+` followed by one or more
/// ASCII digits whose value fits in a `u32`.
pub open spec fn spec_parse_u32(s: Seq<char>) -> Option<u32> {
    let digits = if s.len() > 0 && s[0] == '+' {
        s.drop_first()
    } else {
        s
    };
    if digits.len() > 0 && all_ascii_digits(digits) && decimal_value(digits) <= u32::MAX {
        Some(decimal_value(digits) as u32)
    } else {
        None
    }
}

/// Every character is an ASCII digit.
pub open spec fn all_ascii_digits(s: Seq<char>) -> bool {
    forall|i: int| 0 <= i < s.len() ==> '0' <= #[trigger] s[i] <= '9'
}

/// The value of a sequence of ASCII digits read in base 10.
pub open spec fn decimal_value(s: Seq<char>) -> nat
    decreases s.len(),
{
    if s.len() == 0 {
        0
    } else {
        decimal_value(s.drop_last()) * 10 + ((s.last() as int - '0' as int) as nat)
    }
}

/// The value of an ASCII digit.
fn digit_value(c: char) -> (r: u64)
    requires
        '0' <= c <= '9',
    ensures
        r == c as int - '0' as int,
{
    (c as u32 - '0' as u32) as u64
}

/// `str::parse::<u32>`, keeping only the value when it succeeds: an
/// optional `+`, then one or more ASCII digits whose value fits in a `u32`.
pub(crate) fn parse_u32(word: &[char]) -> (r: Option<u32>)
    ensures
        r == spec_parse_u32(word@),
{
    let start: usize = if word.len() > 0 && word[0] == '+' { 1 } else { 0 };
    let ghost digits = if word@.len() > 0 && word@[0] == '+' { word@.drop_first() } else { word@ };
    assert(digits =~= word@.skip(start as int));
    if start == word.len() {
        return None;
    }
    let mut acc: u64 = 0;
    let mut over = false;
    let mut i: usize = start;
    assert(digits.take(0) =~= Seq::<char>::empty());
    while i < word.len()
        invariant
            start <= i <= word@.len(),
            digits =~= word@.skip(start as int),
            digits == (if word@.len() > 0 && word@[0] == '+' {
                word@.drop_first()
            } else {
                word@
            }),
            all_ascii_digits(digits.take(i - start)),
            !over ==> acc == decimal_value(digits.take(i - start)) && acc <= u32::MAX,
            over ==> decimal_value(digits.take(i - start)) > u32::MAX,
        decreases word@.len() - i,
    {
        let c = word[i];
        if !('0' <= c && c <= '9') {
            assert(digits[i - start] == c);
            assert(!all_ascii_digits(digits));
            return None;
        }
        let ghost k = (i - start) as int;
        assert(digits.take(k + 1).drop_last() =~= digits.take(k));
        assert(digits.take(k + 1).last() == c);
        let d = digit_value(c);
        if !over {
            acc = acc * 10 + d;
            if acc > 0xffff_ffff {
                over = true;
            }
        }
        i += 1;
    }
    assert(digits.take(digits.len() as int) =~= digits);
    if over {
        None
    } else {
        Some(acc as u32)
    }
}

// ---------------------------------------------------------------------------
// Substrings and prefixes
// ---------------------------------------------------------------------------

/// `p` occurs in `s` at index `k`.
pub open spec fn occurs_at(s: Seq<char>, p: Seq<char>, k: int) -> bool {
    0 <= k && k + p.len() <= s.len() && s.subrange(k, k + p.len()) == p
}

/// `p` occurs somewhere in `s` (`str::contains`).
pub open spec fn has_substring(s: Seq<char>, p: Seq<char>) -> bool {
    exists|k: int| occurs_at(s, p, k)
}

/// `s` starts with `p` (`str::starts_with`).
pub open spec fn has_prefix(s: Seq<char>, p: Seq<char>) -> bool {
    p.len() <= s.len() && s.subrange(0, p.len() as int) == p
}

/// Whether `p` occurs in `s` at index `k`.
pub fn occurs_at_exec(s: &[char], p: &[char], k: usize) -> (r: bool)
    ensures
        r == occurs_at(s@, p@, k as int),
{
    if k > s.len() || p.len() > s.len() - k {
        return false;
    }
    let mut j: usize = 0;
    while j < p.len()
        invariant
            k + p@.len() <= s@.len(),
            k + p.len() <= s.len(),
            j <= p@.len(),
            forall|m: int| 0 <= m < j ==> s@[k + m] == p@[m],
        decreases p@.len() - j,
    {
        if s[k + j] != p[j] {
            assert(s@.subrange(k as int, k + p@.len())[j as int] != p@[j as int]);
            return false;
        }
        j += 1;
    }
    assert(s@.subrange(k as int, k + p@.len()) =~= p@);
    true
}

/// `str::contains` over characters.
pub fn contains(s: &[char], p: &[char]) -> (r: bool)
    ensures
        r == has_substring(s@, p@),
{
    if p.len() > s.len() {
        return false;
    }
    let last = s.len() - p.len();
    let mut k: usize = 0;
    loop
        invariant
            k <= last,
            last + p@.len() == s@.len(),
            forall|m: int| 0 <= m < k ==> !occurs_at(s@, p@, m),
        ensures
            forall|m: int| 0 <= m <= last ==> !occurs_at(s@, p@, m),
        decreases last - k,
    {
        if occurs_at_exec(s, p, k) {
            return true;
        }
        if k == last {
            break;
        }
        k += 1;
    }
    assert forall|m: int| !occurs_at(s@, p@, m) by {
        if 0 <= m < k {
        } else {
        }
    }
    false
}

/// `str::contains` with a string-slice pattern.
pub fn contains_str(s: &[char], p: &str) -> (r: bool)
    ensures
        r == has_substring(s@, p@),
{
    let pv = chars_of(p);
    contains(s, pv.as_slice())
}

/// `str::starts_with` over characters.
pub fn starts_with(s: &[char], p: &[char]) -> (r: bool)
    ensures
        r == has_prefix(s@, p@),
{
    if occurs_at_exec(s, p, 0) {
        true
    } else {
        false
    }
}

// ---------------------------------------------------------------------------
// Trimming
// ---------------------------------------------------------------------------

/// `s` with leading whitespace removed.
pub open spec fn spec_trim_start(s: Seq<char>) -> Seq<char>
    decreases s.len(),
{
    if s.len() > 0 && spec_is_whitespace(s[0]) {
        spec_trim_start(s.drop_first())
    } else {
        s
    }
}

/// `s` with trailing whitespace removed.
pub open spec fn spec_trim_end(s: Seq<char>) -> Seq<char>
    decreases s.len(),
{
    if s.len() > 0 && spec_is_whitespace(s.last()) {
        spec_trim_end(s.drop_last())
    } else {
        s
    }
}

/// `str::trim`: leading and trailing whitespace removed.
pub open spec fn spec_trim(s: Seq<char>) -> Seq<char> {
    spec_trim_end(spec_trim_start(s))
}

/// `str::trim` over characters.
pub fn trim(s: &[char]) -> (r: Vec<char>)
    ensures
        r@ == spec_trim(s@),
{
    let n = s.len();
    let mut a: usize = 0;
    assert(s@.subrange(0, n as int) =~= s@);
    while a < n && is_whitespace(s[a])
        invariant
            a <= n,
            n == s@.len(),
            spec_trim_start(s@) == spec_trim_start(s@.subrange(a as int, n as int)),
        decreases n - a,
    {
        assert(s@.subrange(a as int, n as int).drop_first() =~= s@.subrange(a + 1, n as int));
        a += 1;
    }
    let ghost t = s@.subrange(a as int, n as int);
    assert(spec_trim_start(s@) == t);
    let mut b: usize = n;
    while b > a && is_whitespace(s[b - 1])
        invariant
            a <= b <= n,
            n == s@.len(),
            t == s@.subrange(a as int, n as int),
            spec_trim_end(t) == spec_trim_end(s@.subrange(a as int, b as int)),
        decreases b - a,
    {
        assert(s@.subrange(a as int, b as int).drop_last() =~= s@.subrange(a as int, b - 1));
        b -= 1;
    }
    let mut r: Vec<char> = Vec::new();
    let mut i: usize = a;
    while i < b
        invariant
            a <= i <= b <= n,
            n == s@.len(),
            r@ =~= s@.subrange(a as int, i as int),
        decreases b - i,
    {
        r.push(s[i]);
        i += 1;
    }
    r
}

// ---------------------------------------------------------------------------
// Searching for a character
// ---------------------------------------------------------------------------

/// The views of a sequence of character vectors.
pub open spec fn views(v: Seq<Vec<char>>) -> Seq<Seq<char>> {
    v.map_values(|x: Vec<char>| x@)
}

/// Index of the first `c` in `s`, or `s.len()` when `c` does not occur.
pub open spec fn first_index(s: Seq<char>, c: char) -> nat
    decreases s.len(),
{
    if s.len() == 0 {
        0
    } else if s[0] == c {
        0
    } else {
        1 + first_index(s.drop_first(), c)
    }
}

/// `first_index` is the smallest index holding `c`, or the length.
pub proof fn lemma_first_index(s: Seq<char>, c: char)
    ensures
        first_index(s, c) <= s.len(),
        first_index(s, c) < s.len() ==> s[first_index(s, c) as int] == c,
        forall|j: int| 0 <= j < first_index(s, c) ==> s[j] != c,
    decreases s.len(),
{
    if s.len() > 0 && s[0] != c {
        lemma_first_index(s.drop_first(), c);
        assert forall|j: int| 0 <= j < first_index(s, c) implies s[j] != c by {
            if j > 0 {
                assert(s[j] == s.drop_first()[j - 1]);
            }
        }
    }
}

/// A characterisation of `first_index` by its defining properties.
pub proof fn lemma_first_index_is(s: Seq<char>, c: char, k: int)
    requires
        0 <= k <= s.len(),
        k < s.len() ==> s[k] == c,
        forall|j: int| 0 <= j < k ==> s[j] != c,
    ensures
        first_index(s, c) == k,
{
    lemma_first_index(s, c);
    let f = first_index(s, c) as int;
    if f < k {
        assert(s[f] == c);
    } else if k < f {
        assert(s[k] != c);
    }
}

/// Index of the first `c` at or after `from`, or the length.
pub fn find_char(s: &[char], from: usize, c: char) -> (r: usize)
    requires
        from <= s@.len(),
    ensures
        from <= r <= s@.len(),
        r < s@.len() ==> s@[r as int] == c,
        forall|j: int| from <= j < r ==> s@[j] != c,
        r - from == first_index(s@.subrange(from as int, s@.len() as int), c),
{
    let mut i = from;
    while i < s.len() && s[i] != c
        invariant
            from <= i <= s@.len(),
            forall|j: int| from <= j < i ==> s@[j] != c,
        decreases s@.len() - i,
    {
        i += 1;
    }
    proof {
        let t = s@.subrange(from as int, s@.len() as int);
        lemma_first_index_is(t, c, i - from);
    }
    i
}

/// The characters `s[a..b]` as a new vector.
pub fn slice_chars(s: &[char], a: usize, b: usize) -> (r: Vec<char>)
    requires
        a <= b <= s@.len(),
    ensures
        r@ == s@.subrange(a as int, b as int),
{
    let mut r: Vec<char> = Vec::new();
    let mut i = a;
    while i < b
        invariant
            a <= i <= b <= s@.len(),
            r@ =~= s@.subrange(a as int, i as int),
        decreases b - i,
    {
        r.push(s[i]);
        i += 1;
    }
    r
}

// ---------------------------------------------------------------------------
// Lines
// ---------------------------------------------------------------------------

/// A line without its trailing carriage return, if it has one.
pub open spec fn strip_cr(l: Seq<char>) -> Seq<char> {
    if l.len() > 0 && l.last() == '\r' {
        l.drop_last()
    } else {
        l
    }
}

/// `str::lines`: the text split at `\n`, a `\r` before a `\n` removed, and
/// no empty line after a final `\n`.
pub open spec fn spec_lines(s: Seq<char>) -> Seq<Seq<char>>
    decreases s.len(),
{
    if s.len() == 0 {
        seq![]
    } else {
        let k = first_index(s, '\n');
        if k < s.len() {
            seq![strip_cr(s.take(k as int))] + spec_lines(s.skip(k + 1 as int))
        } else {
            seq![s]
        }
    }
}

/// Adding a `\n` to text that is empty or ends with `\n` adds one empty
/// line; adding it to text ending with another character than `\n` or
/// `\r` changes no line.
pub proof fn lemma_lines_push_newline(x: Seq<char>)
    ensures
        (x.len() == 0 || x.last() == '\n') ==> spec_lines(x + seq!['\n']) == spec_lines(x).push(
            Seq::<char>::empty(),
        ),
        (x.len() > 0 && x.last() != '\n' && x.last() != '\r') ==> spec_lines(x + seq!['\n'])
            == spec_lines(x),
    decreases x.len(),
{
    let y = x + seq!['\n'];
    if x.len() == 0 {
        assert(y =~= seq!['\n']);
        assert(first_index(y, '\n') == 0);
        assert(y.take(0) =~= Seq::<char>::empty());
        assert(y.skip(1) =~= Seq::<char>::empty());
        assert(spec_lines(Seq::<char>::empty()) == Seq::<Seq<char>>::empty());
        assert(strip_cr(Seq::<char>::empty()) == Seq::<char>::empty());
        assert(spec_lines(y) == seq![strip_cr(y.take(0))] + spec_lines(y.skip(1)));
        assert(spec_lines(y) =~= spec_lines(x).push(Seq::<char>::empty()));
    } else {
        lemma_first_index(x, '\n');
        let k = first_index(x, '\n') as int;
        if k < x.len() {
            lemma_first_index_is(y, '\n', k);
            assert(y.take(k) =~= x.take(k));
            let z = x.skip(k + 1);
            assert(y.skip(k + 1) =~= z + seq!['\n']);
            if z.len() > 0 {
                assert(z.last() == x.last());
            }
            lemma_lines_push_newline(z);
            assert(spec_lines(y) == seq![strip_cr(y.take(k))] + spec_lines(y.skip(k + 1)));
            assert(spec_lines(x) == seq![strip_cr(x.take(k))] + spec_lines(z));
            if x.last() == '\n' {
                assert(spec_lines(y) =~= spec_lines(x).push(Seq::<char>::empty()));
            }
        } else {
            assert(x[x.len() - 1] != '\n');
            lemma_first_index_is(y, '\n', x.len() as int);
            assert(y.take(x.len() as int) =~= x);
            assert(y.skip(x.len() + 1 as int) =~= Seq::<char>::empty());
            assert(spec_lines(Seq::<char>::empty()) == Seq::<Seq<char>>::empty());
            assert(spec_lines(y) == seq![strip_cr(y.take(x.len() as int))] + spec_lines(
                y.skip(x.len() + 1 as int),
            ));
            if x.last() != '\r' {
                assert(strip_cr(x) == x);
                assert(spec_lines(y) =~= seq![x]);
                assert(spec_lines(x) == seq![x]);
            }
        }
    }
}

/// Adding a `\n` to text ending with `\r` turns the final `\r` into part of
/// a line ending: the last line loses it, the other lines stay.
pub proof fn lemma_lines_push_newline_after_cr(x: Seq<char>)
    requires
        x.len() > 0,
        x.last() == '\r',
    ensures
        spec_lines(x).len() > 0,
        spec_lines(x).last().len() > 0,
        spec_lines(x).last().last() == '\r',
        spec_lines(x + seq!['\n']) == spec_lines(x).drop_last().push(
            spec_lines(x).last().drop_last(),
        ),
    decreases x.len(),
{
    let y = x + seq!['\n'];
    lemma_first_index(x, '\n');
    let k = first_index(x, '\n') as int;
    if k < x.len() {
        lemma_first_index_is(y, '\n', k);
        assert(y.take(k) =~= x.take(k));
        let z = x.skip(k + 1);
        assert(y.skip(k + 1) =~= z + seq!['\n']);
        assert(k < x.len() - 1);
        assert(z.last() == x.last());
        lemma_lines_push_newline_after_cr(z);
        assert(spec_lines(y) == seq![strip_cr(y.take(k))] + spec_lines(y.skip(k + 1)));
        assert(spec_lines(x) == seq![strip_cr(x.take(k))] + spec_lines(z));
        assert(spec_lines(x).last() == spec_lines(z).last());
        assert(spec_lines(y) =~= spec_lines(x).drop_last().push(spec_lines(x).last().drop_last()));
    } else {
        lemma_first_index_is(y, '\n', x.len() as int);
        assert(y.take(x.len() as int) =~= x);
        assert(y.skip(x.len() + 1 as int) =~= Seq::<char>::empty());
        assert(spec_lines(Seq::<char>::empty()) == Seq::<Seq<char>>::empty());
        assert(spec_lines(y) == seq![strip_cr(y.take(x.len() as int))] + spec_lines(
            y.skip(x.len() + 1 as int),
        ));
        assert(spec_lines(x) == seq![x]);
        assert(spec_lines(y) =~= spec_lines(x).drop_last().push(x.drop_last()));
    }
}

/// Where a character first occurs once one more character is added at the
/// end of the text.
pub proof fn lemma_first_index_push(s: Seq<char>, c: char, x: char)
    ensures
        first_index(s, x) < s.len() ==> first_index(s.push(c), x) == first_index(s, x),
        first_index(s, x) == s.len() && c != x ==> first_index(s.push(c), x) == s.len() + 1,
{
    lemma_first_index(s, x);
    let k = first_index(s, x) as int;
    if k < s.len() {
        assert(s.push(c)[k] == x);
        assert forall|j: int| 0 <= j < k implies s.push(c)[j] != x by {
            assert(s.push(c)[j] == s[j]);
        }
        lemma_first_index_is(s.push(c), x, k);
    } else if c != x {
        assert forall|j: int| 0 <= j < s.len() + 1 implies s.push(c)[j] != x by {
            if j < s.len() {
                assert(s.push(c)[j] == s[j]);
            }
        }
        lemma_first_index_is(s.push(c), x, s.len() + 1 as int);
    }
}

/// A character added at the end creates no occurrence of a pattern that
/// does not end with it.
pub proof fn lemma_substring_push(s: Seq<char>, c: char, p: Seq<char>)
    requires
        p.len() > 0,
        p.last() != c,
    ensures
        has_substring(s.push(c), p) == has_substring(s, p),
{
    if has_substring(s.push(c), p) {
        let k = choose|k: int| occurs_at(s.push(c), p, k);
        if k + p.len() == s.len() + 1 {
            assert(s.push(c).subrange(k, k + p.len())[p.len() - 1] == c);
        } else {
            assert(s.subrange(k, k + p.len()) =~= s.push(c).subrange(k, k + p.len()));
            assert(occurs_at(s, p, k));
        }
    }
    if has_substring(s, p) {
        let k = choose|k: int| occurs_at(s, p, k);
        assert(s.push(c).subrange(k, k + p.len()) =~= s.subrange(k, k + p.len()));
        assert(occurs_at(s.push(c), p, k));
    }
}

/// A whitespace character added at the end leaves a word's length alone.
proof fn lemma_word_len_push(s: Seq<char>, c: char)
    requires
        spec_is_whitespace(c),
    ensures
        word_len(s.push(c)) == word_len(s),
    decreases s.len(),
{
    if s.len() > 0 && !spec_is_whitespace(s[0]) {
        assert(s.push(c).drop_first() =~= s.drop_first().push(c));
        lemma_word_len_push(s.drop_first(), c);
    }
}

/// A whitespace character added at the end leaves the words alone.
pub proof fn lemma_words_push(s: Seq<char>, c: char)
    requires
        spec_is_whitespace(c),
    ensures
        spec_words(s.push(c)) == spec_words(s),
    decreases s.len(),
{
    if s.len() == 0 {
        assert(s.push(c).drop_first() =~= Seq::<char>::empty());
        assert(spec_words(Seq::<char>::empty()) == Seq::<Seq<char>>::empty());
        assert(spec_words(s.push(c)) == spec_words(s.push(c).drop_first()));
    } else if spec_is_whitespace(s[0]) {
        assert(s.push(c).drop_first() =~= s.drop_first().push(c));
        lemma_words_push(s.drop_first(), c);
        assert(spec_words(s.push(c)) == spec_words(s.push(c).drop_first()));
    } else {
        lemma_word_len_push(s, c);
        lemma_word_len(s);
        let k = word_len(s) as int;
        assert(s.push(c).take(k) =~= s.take(k));
        if k < s.len() {
            assert(s.push(c).skip(k) =~= s.skip(k).push(c));
            lemma_words_push(s.skip(k), c);
        } else {
            assert(s.push(c).skip(k) =~= seq![c]);
            assert(seq![c].drop_first() =~= Seq::<char>::empty());
            assert(spec_words(Seq::<char>::empty()) == Seq::<Seq<char>>::empty());
            assert(spec_words(seq![c]) == spec_words(Seq::<char>::empty()));
            assert(s.skip(k) =~= Seq::<char>::empty());
        }
        assert(spec_words(s.push(c)) == seq![s.push(c).take(k)] + spec_words(s.push(c).skip(k)));
        assert(spec_words(s) == seq![s.take(k)] + spec_words(s.skip(k)));
    }
}

/// Trimming the start of text with a whitespace character added at the end.
proof fn lemma_trim_start_push(s: Seq<char>, c: char)
    requires
        spec_is_whitespace(c),
    ensures
        spec_trim_start(s).len() > 0 ==> spec_trim_start(s.push(c)) == spec_trim_start(s).push(c),
        spec_trim_start(s).len() == 0 ==> spec_trim_start(s.push(c)).len() == 0,
    decreases s.len(),
{
    if s.len() == 0 {
        assert(s.push(c) =~= seq![c]);
        assert(seq![c].drop_first() =~= Seq::<char>::empty());
        assert(spec_trim_start(Seq::<char>::empty()) == Seq::<char>::empty());
        assert(spec_trim_start(seq![c]) == spec_trim_start(Seq::<char>::empty()));
    } else if spec_is_whitespace(s[0]) {
        assert(s.push(c).drop_first() =~= s.drop_first().push(c));
        lemma_trim_start_push(s.drop_first(), c);
    } else {
        assert(spec_trim_start(s.push(c)) == s.push(c));
    }
}

/// A whitespace character added at the end is trimmed away.
pub proof fn lemma_trim_push(s: Seq<char>, c: char)
    requires
        spec_is_whitespace(c),
    ensures
        spec_trim(s.push(c)) == spec_trim(s),
{
    lemma_trim_start_push(s, c);
    let t = spec_trim_start(s);
    if t.len() > 0 {
        assert(t.push(c).drop_last() =~= t);
    } else {
        assert(t =~= Seq::<char>::empty());
        assert(spec_trim_start(s.push(c)) =~= Seq::<char>::empty());
    }
}

/// The colon field of text with a character other than `:` added at the
/// end, once trimmed, is that of the text.
pub proof fn lemma_colon_field_push(s: Seq<char>, c: char)
    requires
        spec_is_whitespace(c),
        c != ':',
    ensures
        match (spec_colon_field(s.push(c)), spec_colon_field(s)) {
            (Some(f1), Some(f2)) => spec_trim(f1) == spec_trim(f2),
            (None, None) => true,
            _ => false,
        },
{
    lemma_first_index_push(s, c, ':');
    lemma_first_index(s, ':');
    let a = first_index(s, ':') as int;
    if a < s.len() {
        let rest = s.skip(a + 1);
        assert(s.push(c).skip(a + 1) =~= rest.push(c));
        lemma_first_index_push(rest, c, ':');
        lemma_first_index(rest, ':');
        let b = first_index(rest, ':') as int;
        if b < rest.len() {
            assert(rest.push(c).take(b) =~= rest.take(b));
        } else {
            assert(rest.push(c).take(rest.len() + 1 as int) =~= rest.push(c));
            assert(rest.take(b) =~= rest);
            lemma_trim_push(rest, c);
        }
    }
}

/// The first quoted text is unchanged by a character other than `"` added
/// at the end.
pub proof fn lemma_quoted_push(s: Seq<char>, c: char)
    requires
        c != '"',
    ensures
        spec_quoted(s.push(c)) == spec_quoted(s),
{
    lemma_first_index_push(s, c, '"');
    lemma_first_index(s, '"');
    let a = first_index(s, '"') as int;
    if a < s.len() {
        let rest = s.skip(a + 1);
        assert(s.push(c).skip(a + 1) =~= rest.push(c));
        lemma_first_index_push(rest, c, '"');
        lemma_first_index(rest, '"');
        let b = first_index(rest, '"') as int;
        if b < rest.len() {
            assert(rest.push(c).take(b) =~= rest.take(b));
        }
    }
}

/// The lines of text, a `\n` and more text are the lines of the first text
/// and then those of the second.
pub proof fn lemma_lines_concat(a: Seq<char>, b: Seq<char>)
    ensures
        spec_lines(a + seq!['\n'] + b) == spec_lines(a + seq!['\n']) + spec_lines(b),
    decreases a.len(),
{
    let x = a + seq!['\n'] + b;
    let y = a + seq!['\n'];
    lemma_first_index(a, '\n');
    let k = first_index(a, '\n') as int;
    if k < a.len() {
        lemma_first_index_is(x, '\n', k);
        lemma_first_index_is(y, '\n', k);
        assert(x.take(k) =~= a.take(k));
        assert(y.take(k) =~= a.take(k));
        let z = a.skip(k + 1);
        assert(x.skip(k + 1) =~= z + seq!['\n'] + b);
        assert(y.skip(k + 1) =~= z + seq!['\n']);
        lemma_lines_concat(z, b);
        assert(spec_lines(x) == seq![strip_cr(x.take(k))] + spec_lines(x.skip(k + 1)));
        assert(spec_lines(y) == seq![strip_cr(y.take(k))] + spec_lines(y.skip(k + 1)));
        assert(spec_lines(x) =~= spec_lines(y) + spec_lines(b));
    } else {
        lemma_first_index_is(x, '\n', a.len() as int);
        lemma_first_index_is(y, '\n', a.len() as int);
        assert(x.take(a.len() as int) =~= a);
        assert(y.take(a.len() as int) =~= a);
        assert(x.skip(a.len() + 1 as int) =~= b);
        assert(y.skip(a.len() + 1 as int) =~= Seq::<char>::empty());
        assert(spec_lines(Seq::<char>::empty()) == Seq::<Seq<char>>::empty());
        assert(spec_lines(x) == seq![strip_cr(x.take(a.len() as int))] + spec_lines(
            x.skip(a.len() + 1 as int),
        ));
        assert(spec_lines(y) == seq![strip_cr(y.take(a.len() as int))] + spec_lines(
            y.skip(a.len() + 1 as int),
        ));
        assert(spec_lines(x) =~= spec_lines(y) + spec_lines(b));
    }
}

/// Non-empty text has at least one line.
pub proof fn lemma_lines_nonempty(s: Seq<char>)
    requires
        s.len() > 0,
    ensures
        spec_lines(s).len() > 0,
{
}

/// `str::lines` over characters.
pub fn lines(s: &[char]) -> (r: Vec<Vec<char>>)
    ensures
        views(r@) == spec_lines(s@),
{
    let n = s.len();
    let mut res: Vec<Vec<char>> = Vec::new();
    let mut start: usize = 0;
    assert(s@.skip(0) =~= s@);
    while start < n
        invariant
            n == s@.len(),
            start <= n,
            spec_lines(s@) == views(res@) + spec_lines(s@.skip(start as int)),
        decreases n - start,
    {
        let k = find_char(s, start, '\n');
        let ghost rest = s@.skip(start as int);
        assert(rest =~= s@.subrange(start as int, n as int));
        if k < n {
            let mut end = k;
            if end > start && s[end - 1] == '\r' {
                end = end - 1;
            }
            let line = slice_chars(s, start, end);
            assert(line@ =~= strip_cr(rest.take(k - start)));
            assert(rest.skip(k - start + 1) =~= s@.skip(k + 1));
            let ghost prev = res@;
            res.push(line);
            assert(views(res@) =~= views(prev).push(line@));
            start = k + 1;
        } else {
            let line = slice_chars(s, start, n);
            assert(line@ =~= rest);
            let ghost prev = res@;
            res.push(line);
            assert(views(res@) =~= views(prev).push(line@));
            start = n;
        }
    }
    assert(s@.skip(n as int) =~= Seq::<char>::empty());
    assert(views(res@) + spec_lines(Seq::<char>::empty()) =~= views(res@));
    res
}

// ---------------------------------------------------------------------------
// Words
// ---------------------------------------------------------------------------

/// Number of leading characters of `s` that are not whitespace.
pub open spec fn word_len(s: Seq<char>) -> nat
    decreases s.len(),
{
    if s.len() == 0 || spec_is_whitespace(s[0]) {
        0
    } else {
        1 + word_len(s.drop_first())
    }
}

/// `word_len` is bounded by the length and stops at the first whitespace.
pub proof fn lemma_word_len(s: Seq<char>)
    ensures
        word_len(s) <= s.len(),
        word_len(s) < s.len() ==> spec_is_whitespace(s[word_len(s) as int]),
        forall|j: int| 0 <= j < word_len(s) ==> !spec_is_whitespace(s[j]),
    decreases s.len(),
{
    if s.len() > 0 && !spec_is_whitespace(s[0]) {
        lemma_word_len(s.drop_first());
        assert forall|j: int| 0 <= j < word_len(s) implies !spec_is_whitespace(s[j]) by {
            if j > 0 {
                assert(s[j] == s.drop_first()[j - 1]);
            }
        }
    }
}

/// A characterisation of `word_len` by its defining properties.
pub proof fn lemma_word_len_is(s: Seq<char>, k: int)
    requires
        0 <= k <= s.len(),
        k < s.len() ==> spec_is_whitespace(s[k]),
        forall|j: int| 0 <= j < k ==> !spec_is_whitespace(s[j]),
    ensures
        word_len(s) == k,
{
    lemma_word_len(s);
    let f = word_len(s) as int;
    if f < k {
        assert(!spec_is_whitespace(s[f]));
    } else if k < f {
        assert(spec_is_whitespace(s[k]));
    }
}

/// `str::split_whitespace`: the maximal runs of non-whitespace characters.
pub open spec fn spec_words(s: Seq<char>) -> Seq<Seq<char>>
    decreases s.len(),
{
    if s.len() == 0 {
        seq![]
    } else if spec_is_whitespace(s[0]) {
        spec_words(s.drop_first())
    } else {
        let k = word_len(s);
        if 0 < k <= s.len() {
            seq![s.take(k as int)] + spec_words(s.skip(k as int))
        } else {
            seq![]
        }
    }
}

/// `str::split_whitespace` over characters.
pub fn words(s: &[char]) -> (r: Vec<Vec<char>>)
    ensures
        views(r@) == spec_words(s@),
{
    let n = s.len();
    let mut res: Vec<Vec<char>> = Vec::new();
    let mut i: usize = 0;
    assert(s@.skip(0) =~= s@);
    while i < n
        invariant
            n == s@.len(),
            i <= n,
            spec_words(s@) == views(res@) + spec_words(s@.skip(i as int)),
        decreases n - i,
    {
        let ghost rest = s@.skip(i as int);
        if is_whitespace(s[i]) {
            assert(rest.drop_first() =~= s@.skip(i + 1));
            i += 1;
        } else {
            let mut j = i;
            while j < n && !is_whitespace(s[j])
                invariant
                    i <= j <= n,
                    n == s@.len(),
                    forall|m: int| i <= m < j ==> !spec_is_whitespace(s@[m]),
                decreases n - j,
            {
                j += 1;
            }
            proof {
                lemma_word_len_is(rest, j - i);
            }
            let w = slice_chars(s, i, j);
            assert(w@ =~= rest.take(j - i));
            assert(rest.skip(j - i) =~= s@.skip(j as int));
            let ghost prev = res@;
            res.push(w);
            assert(views(res@) =~= views(prev).push(w@));
            i = j;
        }
    }
    assert(s@.skip(n as int) =~= Seq::<char>::empty());
    assert(views(res@) + spec_words(Seq::<char>::empty()) =~= views(res@));
    res
}

// ---------------------------------------------------------------------------
// Fields
// ---------------------------------------------------------------------------

/// `s.split(':').nth(1)`: the text between the first `:` and the next `:` (or
/// the end), if `s` holds a `:`.
pub open spec fn spec_colon_field(s: Seq<char>) -> Option<Seq<char>> {
    let a = first_index(s, ':');
    if a < s.len() {
        let rest = s.skip(a + 1 as int);
        Some(rest.take(first_index(rest, ':') as int))
    } else {
        None
    }
}

/// `s.split(':').nth(1)` over characters.
pub fn colon_field(s: &[char]) -> (r: Option<Vec<char>>)
    ensures
        match r {
            Some(v) => spec_colon_field(s@) == Some(v@),
            None => spec_colon_field(s@) is None,
        },
{
    let n = s.len();
    let a = find_char(s, 0, ':');
    assert(s@.subrange(0, n as int) =~= s@);
    if a < n {
        let b = find_char(s, a + 1, ':');
        let ghost rest = s@.skip(a + 1 as int);
        assert(rest =~= s@.subrange(a + 1, n as int));
        let f = slice_chars(s, a + 1, b);
        assert(f@ =~= rest.take(b - a - 1));
        Some(f)
    } else {
        None
    }
}

/// The text between the first two `"` in `s`, if there are two.
pub open spec fn spec_quoted(s: Seq<char>) -> Option<Seq<char>> {
    let a = first_index(s, '"');
    if a < s.len() {
        let rest = s.skip(a + 1 as int);
        let b = first_index(rest, '"');
        if b < rest.len() {
            Some(rest.take(b as int))
        } else {
            None
        }
    } else {
        None
    }
}

/// The text between the first two `"` in `s`, if there are two.
pub fn quoted(s: &[char]) -> (r: Option<Vec<char>>)
    ensures
        match r {
            Some(v) => spec_quoted(s@) == Some(v@),
            None => spec_quoted(s@) is None,
        },
{
    let n = s.len();
    let a = find_char(s, 0, '"');
    assert(s@.subrange(0, n as int) =~= s@);
    if a < n {
        let b = find_char(s, a + 1, '"');
        let ghost rest = s@.skip(a + 1 as int);
        assert(rest =~= s@.subrange(a + 1, n as int));
        if b < n {
            let f = slice_chars(s, a + 1, b);
            assert(f@ =~= rest.take(b - a - 1));
            Some(f)
        } else {
            None
        }
    } else {
        None
    }
}

// ---------------------------------------------------------------------------
// Lists without repetition
// ---------------------------------------------------------------------------

/// The elements of `s` in order of first appearance, each once.
pub open spec fn dedup<T>(s: Seq<T>) -> Seq<T>
    decreases s.len(),
{
    if s.len() == 0 {
        seq![]
    } else {
        let d = dedup(s.drop_last());
        if d.contains(s.last()) {
            d
        } else {
            d.push(s.last())
        }
    }
}

/// Appending one element to a list that is then made repetition-free.
pub proof fn lemma_dedup_push<T>(s: Seq<T>, x: T)
    ensures
        dedup(s.push(x)) == (if dedup(s).contains(x) {
            dedup(s)
        } else {
            dedup(s).push(x)
        }),
{
    assert(s.push(x).drop_last() =~= s);
}

/// A list made repetition-free holds no element twice.
pub proof fn lemma_dedup_unique<T>(s: Seq<T>)
    ensures
        dedup(s).no_duplicates(),
    decreases s.len(),
{
    if s.len() > 0 {
        lemma_dedup_unique(s.drop_last());
        let d = dedup(s.drop_last());
        if !d.contains(s.last()) {
            assert forall|i: int, j: int|
                0 <= i < d.push(s.last()).len() && 0 <= j < d.push(s.last()).len() && i != j
                implies d.push(s.last())[i] != d.push(s.last())[j] by {
                if i == d.len() {
                    assert(d[j] == d.push(s.last())[j]);
                } else if j == d.len() {
                    assert(d[i] == d.push(s.last())[i]);
                }
            }
        }
    }
}

/// A list made repetition-free holds exactly the elements of the list.
pub proof fn lemma_dedup_contains<T>(s: Seq<T>, x: T)
    ensures
        dedup(s).contains(x) <==> s.contains(x),
    decreases s.len(),
{
    if s.len() > 0 {
        let t = s.drop_last();
        let y = s.last();
        let d = dedup(t);
        lemma_dedup_contains(t, x);
        lemma_dedup_contains(t, y);
        assert(s =~= t.push(y));
        lemma_push_contains(t, y, x);
        lemma_push_contains(d, y, x);
    }
}

/// What a sequence with one more element at its end contains.
pub proof fn lemma_push_contains<T>(s: Seq<T>, y: T, x: T)
    ensures
        s.push(y).contains(x) <==> (s.contains(x) || y == x),
{
    if s.contains(x) {
        let k = choose|k: int| 0 <= k < s.len() && s[k] == x;
        assert(s.push(y)[k] == x);
    }
    if y == x {
        assert(s.push(y)[s.len() as int] == x);
    }
    if s.push(y).contains(x) {
        let k = choose|k: int| 0 <= k < s.push(y).len() && s.push(y)[k] == x;
        if k < s.len() {
            assert(s[k] == x);
        }
    }
}

/// The first element of a list stays first once repetitions are removed.
pub proof fn lemma_dedup_first<T>(s: Seq<T>)
    requires
        s.len() > 0,
    ensures
        dedup(s).len() > 0,
        dedup(s)[0] == s[0],
    decreases s.len(),
{
    if s.len() == 1 {
        assert(s.drop_last() =~= Seq::<T>::empty());
        assert(dedup(s.drop_last()) =~= Seq::<T>::empty());
    } else {
        lemma_dedup_first(s.drop_last());
    }
}

/// The character views of a sequence of strings.
pub open spec fn str_views(v: Seq<String>) -> Seq<Seq<char>> {
    v.map_values(|s: String| s@)
}

/// Whether some string of `v` has the characters `x`.
pub fn contains_chars(v: &Vec<String>, x: &Vec<char>) -> (r: bool)
    ensures
        r == str_views(v@).contains(x@),
{
    let xs = string_of(x.as_slice());
    let mut i: usize = 0;
    while i < v.len()
        invariant
            i <= v@.len(),
            xs@ == x@,
            forall|j: int| 0 <= j < i ==> v@[j]@ != x@,
        decreases v@.len() - i,
    {
        if v[i] == xs {
            assert(str_views(v@)[i as int] == x@);
            return true;
        }
        i += 1;
    }
    assert forall|j: int| 0 <= j < str_views(v@).len() implies str_views(v@)[j] != x@ by {
        assert(str_views(v@)[j] == v@[j]@);
    }
    false
}

/// Appends `x` to `v` unless `v` already holds it.
pub fn push_unique(v: &mut Vec<String>, x: Vec<char>)
    ensures
        str_views(final(v)@) == (if str_views(old(v)@).contains(x@) {
            str_views(old(v)@)
        } else {
            str_views(old(v)@).push(x@)
        }),
{
    if !contains_chars(v, &x) {
        let s = string_of(x.as_slice());
        v.push(s);
        assert(str_views(v@) =~= str_views(old(v)@).push(x@));
    }
}

// ---------------------------------------------------------------------------
// Equality and numbers
// ---------------------------------------------------------------------------

/// Whether two character sequences are equal.
pub fn chars_eq(a: &[char], b: &[char]) -> (r: bool)
    ensures
        r == (a@ == b@),
{
    if a.len() != b.len() {
        return false;
    }
    let r = occurs_at_exec(a, b, 0);
    if r {
        assert(a@.subrange(0, b@.len() as int) =~= a@);
    } else {
        assert(a@.subrange(0, b@.len() as int) =~= a@);
    }
    r
}

/// Whether a character sequence equals a string slice.
pub fn chars_eq_str(a: &[char], b: &str) -> (r: bool)
    ensures
        r == (a@ == b@),
{
    let bv = chars_of(b);
    chars_eq(a, bv.as_slice())
}

/// The decimal digits of a number, as `Display` writes an integer.
pub open spec fn spec_decimal(n: nat) -> Seq<char>
    decreases n,
{
    if n < 10 {
        seq![(('0' as nat) + n) as char]
    } else {
        spec_decimal(n / 10) + seq![(('0' as nat) + n % 10) as char]
    }
}

/// Appends a string slice to a string.
pub fn append_str(s: &mut String, t: &str)
    ensures
        final(s)@ == old(s)@ + t@,
{
    let tv = chars_of(t);
    let mut v = chars_of(s.as_str());
    let mut i: usize = 0;
    let ghost head = v@;
    while i < tv.len()
        invariant
            i <= tv@.len(),
            v@ =~= head + tv@.subrange(0, i as int),
        decreases tv@.len() - i,
    {
        v.push(tv[i]);
        i += 1;
    }
    assert(tv@.subrange(0, tv@.len() as int) =~= tv@);
    *s = string_of(v.as_slice());
}

/// The concatenation of two string slices.
pub fn concat_str(a: &str, b: &str) -> (r: String)
    ensures
        r@ == a@ + b@,
{
    let mut s = a.to_string();
    append_str(&mut s, b);
    s
}


/// The decimal text of a signed number, as `Display` writes it.
pub open spec fn spec_signed_decimal(n: int) -> Seq<char> {
    if n < 0 {
        seq!['-'] + spec_decimal((-n) as nat)
    } else {
        spec_decimal(n as nat)
    }
}

/// The character of a decimal digit.
fn digit_char(d: u64) -> (r: char)
    requires
        d < 10,
    ensures
        r == (('0' as nat) + d) as char,
{
    if d == 0 { '0' } else if d == 1 { '1' } else if d == 2 { '2' } else if d == 3 { '3' }
    else if d == 4 { '4' } else if d == 5 { '5' } else if d == 6 { '6' } else if d == 7 { '7' }
    else if d == 8 { '8' } else { '9' }
}

/// Appends the decimal digits of `n`.
fn push_decimal(v: &mut Vec<char>, n: u64)
    ensures
        final(v)@ == old(v)@ + spec_decimal(n as nat),
    decreases n,
{
    if n >= 10 {
        push_decimal(v, n / 10);
    }
    v.push(digit_char(n % 10));
    assert(final(v)@ =~= old(v)@ + spec_decimal(n as nat));
}

/// The decimal text of an unsigned number.
pub fn decimal_u64(n: u64) -> (r: String)
    ensures
        r@ == spec_decimal(n as nat),
{
    let mut v: Vec<char> = Vec::new();
    push_decimal(&mut v, n);
    assert(v@ =~= spec_decimal(n as nat));
    string_of(v.as_slice())
}

/// The decimal text of a signed number.
pub fn decimal_i64(n: i64) -> (r: String)
    ensures
        r@ == spec_signed_decimal(n as int),
{
    let mut v: Vec<char> = Vec::new();
    if n < 0 {
        v.push('-');
        let m: u64 = (-(n as i128)) as u64;
        push_decimal(&mut v, m);
    } else {
        push_decimal(&mut v, n as u64);
    }
    assert(v@ =~= spec_signed_decimal(n as int));
    string_of(v.as_slice())
}

} // verus!
