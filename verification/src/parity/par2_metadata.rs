//! Parser for PAR2 file metadata (File Description packets).
//!
//! Every PAR2 packet starts with a 64-byte header:
//! - 8 bytes: magic "PAR2\0PKT"
//! - 8 bytes: packet length (little-endian u64, header included)
//! - 16 bytes: packet hash
//! - 16 bytes: recovery set ID
//! - 16 bytes: packet type signature
//!
//! A File Description packet (type "PAR 2.0\0FileDesc") has a body of
//! - 16 bytes: file ID
//! - 16 bytes: MD5 hash of the entire file
//! - 16 bytes: MD5 hash of the first 16KB of the file
//! - 8 bytes: file length
//! - the filename (UTF-8, null-padded to a 4-byte boundary).
use vstd::prelude::*;
use vstd::bytes::{
    lemma_auto_spec_u64_to_from_le_bytes, spec_u64_from_le_bytes, spec_u64_to_le_bytes,
    u64_from_le_bytes,
};
use crate::text::{spec_utf8_lossy, utf8_lossy, string_of};

verus! {

/// A file entry parsed from a PAR2 File Description packet.
#[derive(Debug, Clone)]
pub struct Par2FileEntry {
    /// The real filename from the PAR2 metadata.
    pub filename: String,
    /// MD5 hash of the first 16KB of the file.
    pub hash_16k: [u8; 16],
}

/// Size of the fixed packet header (magic, length, hash, set ID, type).
pub const HEADER_SIZE: usize = 64;

/// Offset of the packet type field within the header.
pub const TYPE_OFFSET: usize = 48;

/// Size of the File Description body before the filename.
pub const FILE_DESC_FIXED_BODY: usize = 56;

/// Offset of the 16KB MD5 hash within the File Description body.
pub const MD5_16K_OFFSET: usize = 32;

/// The packet magic "PAR2\0PKT".
pub open spec fn par2_magic() -> Seq<u8> {
    seq![0x50u8, 0x41u8, 0x52u8, 0x32u8, 0x00u8, 0x50u8, 0x4bu8, 0x54u8]
}

/// The File Description packet type "PAR 2.0\0FileDesc".
pub open spec fn file_desc_type() -> Seq<u8> {
    seq![
        0x50u8, 0x41u8, 0x52u8, 0x20u8, 0x32u8, 0x2eu8, 0x30u8, 0x00u8,
        0x46u8, 0x69u8, 0x6cu8, 0x65u8, 0x44u8, 0x65u8, 0x73u8, 0x63u8,
    ]
}

/// The packet magic starts at index `i`.
pub open spec fn magic_at(data: Seq<u8>, i: int) -> bool {
    0 <= i && i + 8 <= data.len() && data.subrange(i, i + 8) == par2_magic()
}

/// The first index at or after `start` where the magic starts.
pub open spec fn spec_find_magic(data: Seq<u8>, start: int) -> Option<int>
    decreases data.len() - start,
{
    if start < 0 || start + 8 > data.len() {
        None
    } else if magic_at(data, start) {
        Some(start)
    } else {
        spec_find_magic(data, start + 1)
    }
}

/// `spec_find_magic` gives the first magic at or after `start`.
pub proof fn lemma_find_magic(data: Seq<u8>, start: int)
    requires
        0 <= start,
    ensures
        spec_find_magic(data, start) matches Some(m) ==> start <= m && magic_at(data, m) && m + 8
            <= data.len() && forall|j: int| start <= j < m ==> !magic_at(data, j),
        spec_find_magic(data, start) is None ==> forall|j: int| start <= j ==> !magic_at(data, j),
    decreases data.len() - start,
{
    if start + 8 <= data.len() && !magic_at(data, start) {
        lemma_find_magic(data, start + 1);
        assert forall|j: int| start <= j && (spec_find_magic(data, start) matches Some(m) ==> j
            < m) implies !magic_at(data, j) by {
            if j > start {
            }
        }
    }
}

/// Index of the first zero byte, or the length.
pub open spec fn first_zero(s: Seq<u8>) -> nat
    decreases s.len(),
{
    if s.len() == 0 || s[0] == 0 {
        0
    } else {
        1 + first_zero(s.drop_first())
    }
}

/// `first_zero` is bounded and no zero byte comes before it.
pub proof fn lemma_first_zero(s: Seq<u8>)
    ensures
        first_zero(s) <= s.len(),
        first_zero(s) < s.len() ==> s[first_zero(s) as int] == 0,
        forall|j: int| 0 <= j < first_zero(s) ==> s[j] != 0,
    decreases s.len(),
{
    if s.len() > 0 && s[0] != 0 {
        lemma_first_zero(s.drop_first());
        assert forall|j: int| 0 <= j < first_zero(s) implies s[j] != 0 by {
            if j > 0 {
                assert(s[j] == s.drop_first()[j - 1]);
            }
        }
    }
}

/// A characterisation of `first_zero` by its defining properties.
pub proof fn lemma_first_zero_is(s: Seq<u8>, k: int)
    requires
        0 <= k <= s.len(),
        k < s.len() ==> s[k] == 0,
        forall|j: int| 0 <= j < k ==> s[j] != 0,
    ensures
        first_zero(s) == k,
{
    lemma_first_zero(s);
    let f = first_zero(s) as int;
    if f < k {
        assert(s[f] == 0);
    } else if k < f {
        assert(s[k] != 0);
    }
}

/// The filename held in null-padded bytes: the bytes before the first zero,
/// decoded as by `String::from_utf8_lossy`.
pub open spec fn spec_extract_filename(bytes: Seq<u8>) -> Seq<char> {
    spec_utf8_lossy(bytes.take(first_zero(bytes) as int))
}

/// The packet length field of a packet whose magic starts at `m`.
pub open spec fn packet_len_at(data: Seq<u8>, m: int) -> int {
    spec_u64_from_le_bytes(data.subrange(m + 8, m + 16)) as int
}

/// The entry held by a valid packet at `m` of length `plen`: present when it
/// is a File Description packet whose body holds a non-empty filename.
pub open spec fn file_desc_entry(data: Seq<u8>, m: int, plen: int) -> Option<(Seq<char>, Seq<u8>)> {
    if data.subrange(m + 48, m + 64) == file_desc_type() && plen > 120 {
        let filename = spec_extract_filename(data.subrange(m + 120, m + plen));
        if filename.len() > 0 {
            Some((filename, data.subrange(m + 96, m + 112)))
        } else {
            None
        }
    } else {
        None
    }
}

/// An optional value as a sequence of zero or one element.
pub open spec fn opt_entry(o: Option<(Seq<char>, Seq<u8>)>) -> Seq<(Seq<char>, Seq<u8>)> {
    match o {
        Some(e) => seq![e],
        None => seq![],
    }
}

/// The entries found scanning from `pos`: at each next magic, a packet whose
/// length is at least the header size and fits in the data contributes its
/// entry and is skipped as a whole; a packet with an impossible length is
/// skipped by the magic's 8 bytes.
pub open spec fn scan_entries(data: Seq<u8>, pos: int) -> Seq<(Seq<char>, Seq<u8>)>
    decreases data.len() - pos,
{
    if pos < 0 || pos + 64 > data.len() {
        seq![]
    } else {
        match spec_find_magic(data, pos) {
            None => seq![],
            Some(m) => {
                proof {
                    lemma_find_magic(data, pos);
                }
                if m + 64 > data.len() {
                    seq![]
                } else {
                    let plen = packet_len_at(data, m);
                    if plen < 64 || plen > data.len() - m {
                        scan_entries(data, m + 8)
                    } else {
                        opt_entry(file_desc_entry(data, m, plen)) + scan_entries(data, m + plen)
                    }
                }
            },
        }
    }
}

/// The filename and hash of an entry.
pub open spec fn entry_view(e: Par2FileEntry) -> (Seq<char>, Seq<u8>) {
    (e.filename@, e.hash_16k@)
}

/// The filenames and hashes of a list of entries.
pub open spec fn entry_views(v: Seq<Par2FileEntry>) -> Seq<(Seq<char>, Seq<u8>)> {
    v.map_values(|e: Par2FileEntry| entry_view(e))
}

/// Whether the packet magic starts at index `i`.
fn magic_at_exec(data: &[u8], i: usize) -> (r: bool)
    requires
        i + 8 <= data@.len(),
    ensures
        r == magic_at(data@, i as int),
{
    let r = data[i] == 0x50u8 && data[i + 1] == 0x41u8 && data[i + 2] == 0x52u8 && data[i + 3]
        == 0x32u8 && data[i + 4] == 0x00u8 && data[i + 5] == 0x50u8 && data[i + 6] == 0x4bu8
        && data[i + 7] == 0x54u8;
    assert(r == (data@.subrange(i as int, i + 8) =~= par2_magic()));
    r
}

/// Whether the packet at `m` is a File Description packet.
fn is_file_desc_exec(data: &[u8], m: usize) -> (r: bool)
    requires
        m + 64 <= data.len(),
    ensures
        r == (data@.subrange(m + 48, m + 64) == file_desc_type()),
{
    let t = m + 48;
    let r = data[t] == 0x50u8 && data[t + 1] == 0x41u8 && data[t + 2] == 0x52u8 && data[t + 3]
        == 0x20u8 && data[t + 4] == 0x32u8 && data[t + 5] == 0x2eu8 && data[t + 6] == 0x30u8
        && data[t + 7] == 0x00u8 && data[t + 8] == 0x46u8 && data[t + 9] == 0x69u8 && data[t
        + 10] == 0x6cu8 && data[t + 11] == 0x65u8 && data[t + 12] == 0x44u8 && data[t + 13]
        == 0x65u8 && data[t + 14] == 0x73u8 && data[t + 15] == 0x63u8;
    assert(r == (data@.subrange(m + 48, m + 64) =~= file_desc_type()));
    r
}

/// What `md5::compute` returns: the MD5 digest of the data.
pub uninterp spec fn spec_md5(data: Seq<u8>) -> Seq<u8>;

/// `md5::compute`: the MD5 digest of the data.
#[verifier::external_body]
fn md5_digest(data: &[u8]) -> (r: [u8; 16])
    ensures
        r@ == spec_md5(data@),
{
    md5::compute(data).0
}

/// Number of bytes hashed for the 16KB MD5 of a file.
pub const HASH_16K_LEN: usize = 16384;

/// The MD5 hash of the first 16KB of a file, given the bytes read from its
/// start (those past 16KB are ignored).
pub fn compute_16k_md5_of(data: &[u8]) -> (r: [u8; 16])
    ensures
        r@ == spec_md5(
            if data@.len() <= 16384 {
                data@
            } else {
                data@.take(16384)
            },
        ),
{
    if data.len() <= HASH_16K_LEN {
        md5_digest(data)
    } else {
        let head = vstd::slice::slice_subrange(data, 0, HASH_16K_LEN);
        assert(head@ =~= data@.take(16384));
        md5_digest(head)
    }
}

/// Finds the next occurrence of the PAR2 magic bytes at or after `start`.
pub fn find_magic(data: &[u8], start: usize) -> (r: Option<usize>)
    ensures
        match r {
            Some(m) => spec_find_magic(data@, start as int) == Some(m as int),
            None => spec_find_magic(data@, start as int) is None,
        },
{
    if start > data.len() || data.len() - start < 8 {
        return None;
    }
    let last = data.len() - 8;
    let mut i = start;
    loop
        invariant
            start <= i <= last,
            last + 8 == data@.len(),
            spec_find_magic(data@, start as int) == spec_find_magic(data@, i as int),
        decreases last - i,
    {
        if magic_at_exec(data, i) {
            return Some(i);
        }
        if i == last {
            assert(spec_find_magic(data@, i + 1) is None);
            return None;
        }
        i += 1;
    }
}

/// Extracts a filename from null-padded bytes: the bytes before the first
/// zero, decoded as by `String::from_utf8_lossy`.
pub fn extract_filename(bytes: &[u8]) -> (r: String)
    ensures
        r@ == spec_extract_filename(bytes@),
{
    let mut end: usize = 0;
    while end < bytes.len() && bytes[end] != 0
        invariant
            end <= bytes@.len(),
            forall|j: int| 0 <= j < end ==> bytes@[j] != 0,
        decreases bytes@.len() - end,
    {
        end += 1;
    }
    proof {
        lemma_first_zero_is(bytes@, end as int);
    }
    let name = vstd::slice::slice_subrange(bytes, 0, end);
    assert(name@ =~= bytes@.take(end as int));
    let chars = utf8_lossy(name);
    string_of(chars.as_slice())
}

/// Parses the File Description packets of raw PAR2 bytes, in order.
pub fn parse_par2_file_entries_from_bytes(data: &[u8]) -> (r: Vec<Par2FileEntry>)
    ensures
        entry_views(r@) == scan_entries(data@, 0),
{
    let mut entries: Vec<Par2FileEntry> = Vec::new();
    let mut pos: usize = 0;
    while pos <= data.len() && data.len() - pos >= HEADER_SIZE
        invariant
            pos <= data@.len(),
            entry_views(entries@) + scan_entries(data@, pos as int) == scan_entries(data@, 0),
        ensures
            scan_entries(data@, pos as int) == Seq::<(Seq<char>, Seq<u8>)>::empty(),
        decreases data@.len() - pos,
    {
        proof {
            lemma_find_magic(data@, pos as int);
        }
        let m = match find_magic(data, pos) {
            Some(m) => m,
            None => {
                break;
            },
        };
        if data.len() - m < HEADER_SIZE {
            break;
        }
        let len_bytes = vstd::slice::slice_subrange(data, m + 8, m + 16);
        let packet_len = u64_from_le_bytes(len_bytes);
        assert(packet_len as int == packet_len_at(data@, m as int));
        if packet_len < 64 || packet_len > (data.len() - m) as u64 {
            pos = m + 8;
            continue;
        }
        let plen = packet_len as usize;
        let ghost prev = entries@;
        if is_file_desc_exec(data, m) && plen > 120 {
            let name_bytes = vstd::slice::slice_subrange(data, m + 120, m + plen);
            let filename = extract_filename(name_bytes);
            if !filename.as_str().is_empty() {
                let mut hash_16k = [0u8; 16];
                let mut k: usize = 0;
                while k < 16
                    invariant
                        k <= 16,
                        m + 112 <= data.len(),
                        forall|j: int| 0 <= j < k ==> hash_16k@[j] == data@[m + 96 + j],
                    decreases 16 - k,
                {
                    hash_16k.set(k, data[m + 96 + k]);
                    k += 1;
                }
                assert(hash_16k@ =~= data@.subrange(m + 96, m + 112));
                entries.push(Par2FileEntry { filename, hash_16k });
                assert(entry_views(entries@) =~= entry_views(prev).push(
                    (filename@, hash_16k@),
                ));
            }
        }
        assert(entry_views(entries@) =~= entry_views(prev) + opt_entry(
            file_desc_entry(data@, m as int, plen as int),
        ));
        pos = m + plen;
    }
    assert(entry_views(entries@) + Seq::<(Seq<char>, Seq<u8>)>::empty() =~= entry_views(
        entries@,
    ));
    entries
}

// ---------------------------------------------------------------------------
// Packets as they are written, and what parsing gives back of them
// ---------------------------------------------------------------------------

/// `n` zero bytes.
pub open spec fn zeros(n: nat) -> Seq<u8> {
    Seq::new(n, |i: int| 0u8)
}

/// The number of zero bytes that pad a filename of `n` bytes to a multiple
/// of four.
pub open spec fn pad_len(n: nat) -> nat {
    ((4 - (n % 4) as int) % 4) as nat
}

/// A File Description packet as written: header (magic, length, packet
/// hash, recovery set ID, type) and body (file ID, full MD5, 16KB MD5, file
/// length, null-padded filename).
pub open spec fn spec_file_desc_packet(
    name: Seq<u8>,
    hash_16k: Seq<u8>,
    packet_hash: Seq<u8>,
    set_id: Seq<u8>,
    file_id: Seq<u8>,
    md5_full: Seq<u8>,
    file_length: u64,
) -> Seq<u8> {
    let padded = name + zeros(pad_len(name.len()));
    let plen = 120 + padded.len();
    par2_magic() + spec_u64_to_le_bytes(plen as u64) + packet_hash + set_id + file_desc_type()
        + file_id + md5_full + hash_16k + spec_u64_to_le_bytes(file_length) + padded
}

/// Searching for the magic past a prefix is searching in what follows it.
pub proof fn lemma_find_magic_shift(p: Seq<u8>, r: Seq<u8>, k: int)
    requires
        0 <= k,
    ensures
        spec_find_magic(p + r, p.len() + k) == (match spec_find_magic(r, k) {
            Some(m) => Some(m + p.len()),
            None => None,
        }),
    decreases r.len() - k,
{
    let d = p + r;
    if k + 8 <= r.len() {
        assert(d.subrange(p.len() + k, p.len() + k + 8) =~= r.subrange(k, k + 8));
        if !magic_at(r, k) {
            lemma_find_magic_shift(p, r, k + 1);
            assert(p.len() + k + 1 == p.len() + (k + 1));
        }
    }
}

/// Scanning past a prefix is scanning what follows it.
pub proof fn lemma_scan_shift(p: Seq<u8>, r: Seq<u8>, k: int)
    requires
        0 <= k,
    ensures
        scan_entries(p + r, p.len() + k) == scan_entries(r, k),
    decreases r.len() - k,
{
    let d = p + r;
    let s = p.len() as int;
    if k + 64 <= r.len() {
        lemma_find_magic_shift(p, r, k);
        lemma_find_magic(r, k);
        match spec_find_magic(r, k) {
            None => {},
            Some(m) => {
                if m + 64 <= r.len() {
                    assert(d.subrange(s + m + 8, s + m + 16) =~= r.subrange(m + 8, m + 16));
                    assert(packet_len_at(d, s + m) == packet_len_at(r, m));
                    let plen = packet_len_at(r, m);
                    if plen < 64 || plen > r.len() - m {
                        lemma_scan_shift(p, r, m + 8);
                        assert(s + m + 8 == s + (m + 8));
                    } else {
                        assert(d.subrange(s + m + 48, s + m + 64) =~= r.subrange(m + 48, m + 64));
                        if plen > 120 {
                            assert(d.subrange(s + m + 96, s + m + 112) =~= r.subrange(
                                m + 96,
                                m + 112,
                            ));
                            assert(d.subrange(s + m + 120, s + m + plen) =~= r.subrange(
                                m + 120,
                                m + plen,
                            ));
                        }
                        assert(file_desc_entry(d, s + m, plen) == file_desc_entry(r, m, plen));
                        lemma_scan_shift(p, r, m + plen);
                        assert(s + m + plen == s + (m + plen));
                    }
                }
            },
        }
    }
}

/// Reading back a written File Description packet: parsing the packet
/// followed by any bytes gives the packet's filename (decoded as by
/// `String::from_utf8_lossy`) and 16KB hash, unless the decoded filename is
/// empty, then what parsing those bytes alone gives. The filename is
/// non-empty and holds no zero byte; the fixed-size fields have their sizes.
pub proof fn lemma_file_desc_packet_roundtrip(
    name: Seq<u8>,
    hash_16k: Seq<u8>,
    packet_hash: Seq<u8>,
    set_id: Seq<u8>,
    file_id: Seq<u8>,
    md5_full: Seq<u8>,
    file_length: u64,
    rest: Seq<u8>,
)
    requires
        name.len() > 0,
        name.len() < 0x1_0000_0000,
        forall|i: int| 0 <= i < name.len() ==> name[i] != 0,
        hash_16k.len() == 16,
        packet_hash.len() == 16,
        set_id.len() == 16,
        file_id.len() == 16,
        md5_full.len() == 16,
    ensures
        scan_entries(
            spec_file_desc_packet(
                name,
                hash_16k,
                packet_hash,
                set_id,
                file_id,
                md5_full,
                file_length,
            ) + rest,
            0,
        ) == (if spec_utf8_lossy(name).len() > 0 {
            seq![(spec_utf8_lossy(name), hash_16k)]
        } else {
            seq![]
        }) + scan_entries(rest, 0),
{
    lemma_auto_spec_u64_to_from_le_bytes();
    let pkt = spec_file_desc_packet(name, hash_16k, packet_hash, set_id, file_id, md5_full, file_length);
    let padded = name + zeros(pad_len(name.len()));
    let plen = 120 + padded.len();
    let lenb = spec_u64_to_le_bytes(plen as u64);
    let flenb = spec_u64_to_le_bytes(file_length);
    let d = pkt + rest;
    assert(pkt.len() == plen);
    assert(d.subrange(0, 8) =~= par2_magic());
    assert(magic_at(d, 0));
    assert(spec_find_magic(d, 0) == Some(0int));
    assert(d.subrange(8, 16) =~= lenb);
    assert(packet_len_at(d, 0) == plen);
    assert(d.subrange(48, 64) =~= file_desc_type());
    assert(d.subrange(96, 112) =~= hash_16k);
    assert(d.subrange(120, plen as int) =~= padded);
    lemma_first_zero_is(padded, name.len() as int);
    assert(padded.take(name.len() as int) =~= name);
    assert(spec_extract_filename(d.subrange(120, plen as int)) == spec_utf8_lossy(name));
    lemma_scan_shift(pkt, rest, 0);
    assert(pkt.len() + 0 == plen);
    if spec_utf8_lossy(name).len() > 0 {
        assert(opt_entry(file_desc_entry(d, 0, plen as int)) =~= seq![
            (spec_utf8_lossy(name), hash_16k),
        ]);
    } else {
        assert(opt_entry(file_desc_entry(d, 0, plen as int)) =~= Seq::<(Seq<char>, Seq<u8>)>::empty());
    }
}


/// A well-formed packet: it starts with the magic and its length field is
/// its own length, at least the header's.
pub open spec fn well_formed_packet(p: Seq<u8>) -> bool {
    p.len() >= 64 && magic_at(p, 0) && packet_len_at(p, 0) == p.len()
}

/// The packets written one after the other.
pub open spec fn concat_packets(ps: Seq<Seq<u8>>) -> Seq<u8>
    decreases ps.len(),
{
    if ps.len() == 0 {
        seq![]
    } else {
        ps[0] + concat_packets(ps.drop_first())
    }
}

/// The entries the packets hold, in order: one for each File Description
/// packet with a non-empty filename.
pub open spec fn packets_entries(ps: Seq<Seq<u8>>) -> Seq<(Seq<char>, Seq<u8>)>
    decreases ps.len(),
{
    if ps.len() == 0 {
        seq![]
    } else {
        opt_entry(file_desc_entry(ps[0], 0, ps[0].len() as int)) + packets_entries(ps.drop_first())
    }
}

/// Scanning a well-formed packet followed by any bytes gives the packet's
/// entry, then what scanning those bytes alone gives.
proof fn lemma_scan_packet(p: Seq<u8>, r: Seq<u8>)
    requires
        well_formed_packet(p),
    ensures
        scan_entries(p + r, 0) == opt_entry(file_desc_entry(p, 0, p.len() as int)) + scan_entries(r, 0),
{
    let d = p + r;
    let plen = p.len() as int;
    assert(d.subrange(0, 8) =~= p.subrange(0, 8));
    assert(magic_at(d, 0));
    assert(spec_find_magic(d, 0) == Some(0int));
    assert(d.subrange(8, 16) =~= p.subrange(8, 16));
    assert(packet_len_at(d, 0) == plen);
    assert(d.subrange(48, 64) =~= p.subrange(48, 64));
    if plen > 120 {
        assert(d.subrange(96, 112) =~= p.subrange(96, 112));
        assert(d.subrange(120, plen) =~= p.subrange(120, plen));
    }
    assert(file_desc_entry(d, 0, plen) == file_desc_entry(p, 0, plen));
    lemma_scan_shift(p, r, 0);
    assert(p.len() + 0 == plen);
}

/// Scanning well-formed packets followed by any bytes gives the packets'
/// entries, then what scanning those bytes alone gives.
pub proof fn lemma_scan_packets(ps: Seq<Seq<u8>>, r: Seq<u8>)
    requires
        forall|i: int| 0 <= i < ps.len() ==> well_formed_packet(#[trigger] ps[i]),
    ensures
        scan_entries(concat_packets(ps) + r, 0) == packets_entries(ps) + scan_entries(r, 0),
    decreases ps.len(),
{
    if ps.len() > 0 {
        let rest = ps.drop_first();
        assert forall|i: int| 0 <= i < rest.len() implies well_formed_packet(#[trigger] rest[i]) by {
            assert(rest[i] == ps[i + 1]);
        }
        lemma_scan_packets(rest, r);
        assert(well_formed_packet(ps[0]));
        assert(concat_packets(ps) + r =~= ps[0] + (concat_packets(rest) + r));
        lemma_scan_packet(ps[0], concat_packets(rest) + r);
        assert(packets_entries(ps) + scan_entries(r, 0) =~= opt_entry(
            file_desc_entry(ps[0], 0, ps[0].len() as int),
        ) + (packets_entries(rest) + scan_entries(r, 0)));
    }
}

/// Parsing well-formed packets followed by other data gives the packets'
/// entries followed by what parsing that data alone gives.
pub proof fn lemma_parse_concatenation(ps: Seq<Seq<u8>>, b: Seq<u8>)
    requires
        forall|i: int| 0 <= i < ps.len() ==> well_formed_packet(#[trigger] ps[i]),
    ensures
        scan_entries(concat_packets(ps), 0) == packets_entries(ps),
        scan_entries(concat_packets(ps) + b, 0) == scan_entries(concat_packets(ps), 0) + scan_entries(b, 0),
{
    lemma_scan_packets(ps, b);
    lemma_scan_packets(ps, Seq::<u8>::empty());
    assert(concat_packets(ps) + Seq::<u8>::empty() =~= concat_packets(ps));
    assert(scan_entries(Seq::<u8>::empty(), 0) =~= Seq::<(Seq<char>, Seq<u8>)>::empty());
    assert(packets_entries(ps) + Seq::<(Seq<char>, Seq<u8>)>::empty() =~= packets_entries(ps));
}

} // verus!
