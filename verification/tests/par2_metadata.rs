use usenet_dl::parity::par2_metadata::{
    compute_16k_md5_of, extract_filename, find_magic, parse_par2_file_entries_from_bytes,
    HEADER_SIZE,
};

const PAR2_MAGIC: &[u8; 8] = b"PAR2\0PKT";
const FILE_DESC_TYPE: &[u8; 16] = b"PAR 2.0\0FileDesc";

/// Builds a File Description packet for `filename` with the given 16KB hash.
fn build_file_desc_packet(filename: &str, hash_16k: [u8; 16]) -> Vec<u8> {
    let name_bytes = filename.as_bytes();
    let padded_len = (name_bytes.len() + 3) & !3;
    let mut padded_name = name_bytes.to_vec();
    padded_name.resize(padded_len, 0);

    let body_len = 56 + padded_name.len();
    let packet_len = (HEADER_SIZE + body_len) as u64;

    let mut packet = Vec::with_capacity(packet_len as usize);
    packet.extend_from_slice(PAR2_MAGIC);
    packet.extend_from_slice(&packet_len.to_le_bytes());
    packet.extend_from_slice(&[0u8; 16]);
    packet.extend_from_slice(&[0u8; 16]);
    packet.extend_from_slice(FILE_DESC_TYPE);
    packet.extend_from_slice(&[0u8; 16]);
    packet.extend_from_slice(&[0u8; 16]);
    packet.extend_from_slice(&hash_16k);
    packet.extend_from_slice(&1024u64.to_le_bytes());
    packet.extend_from_slice(&padded_name);
    packet
}

#[test]
fn parse_single_file_desc_packet() {
    let hash = [1u8; 16];
    let data = build_file_desc_packet("movie.mkv", hash);

    let entries = parse_par2_file_entries_from_bytes(&data);

    assert_eq!(entries.len(), 1);
    assert_eq!(entries[0].filename, "movie.mkv");
    assert_eq!(entries[0].hash_16k, hash);
}

#[test]
fn parse_multiple_file_desc_packets() {
    let hash1 = [1u8; 16];
    let hash2 = [2u8; 16];

    let mut data = build_file_desc_packet("file1.rar", hash1);
    data.extend_from_slice(&build_file_desc_packet("file2.rar", hash2));

    let entries = parse_par2_file_entries_from_bytes(&data);

    assert_eq!(entries.len(), 2);
    assert_eq!(entries[0].filename, "file1.rar");
    assert_eq!(entries[0].hash_16k, hash1);
    assert_eq!(entries[1].filename, "file2.rar");
    assert_eq!(entries[1].hash_16k, hash2);
}

#[test]
fn parse_empty_data_returns_no_entries() {
    let entries = parse_par2_file_entries_from_bytes(&[]);
    assert!(entries.is_empty());
}

#[test]
fn parse_garbage_data_returns_no_entries() {
    let garbage = vec![0xFFu8; 1024];
    let entries = parse_par2_file_entries_from_bytes(&garbage);
    assert!(entries.is_empty());
}

#[test]
fn parse_truncated_packet_returns_no_entries() {
    let full = build_file_desc_packet("test.bin", [3u8; 16]);
    let truncated = &full[..HEADER_SIZE];
    let entries = parse_par2_file_entries_from_bytes(truncated);
    assert!(entries.is_empty());
}

#[test]
fn extract_filename_handles_null_padding() {
    let bytes = b"hello.txt\0\0\0";
    assert_eq!(extract_filename(bytes), "hello.txt");
}

#[test]
fn extract_filename_handles_no_null() {
    let bytes = b"hello.txt";
    assert_eq!(extract_filename(bytes), "hello.txt");
}

#[test]
fn non_file_desc_packets_are_skipped() {
    let mut data = Vec::new();

    const BODY_LEN: usize = 16;
    let packet_len = (HEADER_SIZE + BODY_LEN) as u64;
    data.extend_from_slice(PAR2_MAGIC);
    data.extend_from_slice(&packet_len.to_le_bytes());
    data.extend_from_slice(&[0u8; 16]);
    data.extend_from_slice(&[0u8; 16]);
    data.extend_from_slice(b"PAR 2.0\0Main\0\0\0\0");
    data.extend_from_slice(&[0u8; BODY_LEN]);

    data.extend_from_slice(&build_file_desc_packet("real.rar", [5u8; 16]));

    let entries = parse_par2_file_entries_from_bytes(&data);
    assert_eq!(entries.len(), 1);
    assert_eq!(entries[0].filename, "real.rar");
}

// ---------------------------------------------------------------------------
// Further cases
// ---------------------------------------------------------------------------

#[test]
fn packets_after_leading_garbage_are_found() {
    let mut data = vec![0x11u8; 37];
    data.extend_from_slice(&build_file_desc_packet("after.bin", [9u8; 16]));
    let entries = parse_par2_file_entries_from_bytes(&data);
    assert_eq!(entries.len(), 1);
    assert_eq!(entries[0].filename, "after.bin");
    assert_eq!(entries[0].hash_16k, [9u8; 16]);
}

#[test]
fn packet_with_empty_name_gives_no_entry() {
    let data = build_file_desc_packet("", [4u8; 16]);
    let entries = parse_par2_file_entries_from_bytes(&data);
    assert!(entries.is_empty());
}

#[test]
fn packet_with_length_past_the_end_stops_parsing() {
    let mut data = build_file_desc_packet("x.bin", [6u8; 16]);
    data[8..16].copy_from_slice(&u64::MAX.to_le_bytes());
    let entries = parse_par2_file_entries_from_bytes(&data);
    assert!(entries.is_empty());
}

#[test]
fn find_magic_locates_first_occurrence() {
    let mut data = vec![0u8; 5];
    data.extend_from_slice(PAR2_MAGIC);
    data.extend_from_slice(PAR2_MAGIC);
    assert_eq!(find_magic(&data, 0), Some(5));
    assert_eq!(find_magic(&data, 6), Some(13));
    assert_eq!(find_magic(&data, 14), None);
    assert_eq!(find_magic(&data, 100), None);
}

#[test]
fn extract_filename_replaces_invalid_utf8() {
    let bytes = [b'a', 0xFF, b'b', 0];
    assert_eq!(extract_filename(&bytes), "a\u{FFFD}b");
}

#[test]
fn md5_of_known_inputs() {
    // RFC 1321 test vectors.
    assert_eq!(
        compute_16k_md5_of(b""),
        [
            0xd4, 0x1d, 0x8c, 0xd9, 0x8f, 0x00, 0xb2, 0x04, 0xe9, 0x80, 0x09, 0x98, 0xec, 0xf8,
            0x42, 0x7e
        ]
    );
    assert_eq!(
        compute_16k_md5_of(b"abc"),
        [
            0x90, 0x01, 0x50, 0x98, 0x3c, 0xd2, 0x4f, 0xb0, 0xd6, 0x96, 0x3f, 0x7d, 0x28, 0xe1,
            0x7f, 0x72
        ]
    );
}

#[test]
fn md5_ignores_bytes_past_16k() {
    let mut long = vec![7u8; 16384];
    let head = compute_16k_md5_of(&long);
    long.extend_from_slice(&[1u8; 100]);
    assert_eq!(compute_16k_md5_of(&long), head);
    assert_ne!(compute_16k_md5_of(&long[..100]), head);
}

#[test]
fn parsing_concatenated_packets_concatenates_entries() {
    let a = [build_file_desc_packet("a.bin", [1u8; 16]), build_file_desc_packet("b.bin", [2u8; 16])].concat();
    let b = build_file_desc_packet("c.bin", [3u8; 16]);
    let both = parse_par2_file_entries_from_bytes(&[a.clone(), b.clone()].concat());
    let first = parse_par2_file_entries_from_bytes(&a);
    let second = parse_par2_file_entries_from_bytes(&b);
    let names: Vec<String> = both.iter().map(|e| e.filename.clone()).collect();
    let expected: Vec<String> = first.iter().chain(second.iter()).map(|e| e.filename.clone()).collect();
    assert_eq!(names, expected);
    assert_eq!(names, vec!["a.bin", "b.bin", "c.bin"]);
}
