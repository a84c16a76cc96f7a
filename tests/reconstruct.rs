use psf_expand::digest::{check_hash, digest_matches};
use psf_expand::engine::{
    finish_file, has_declared_length, prepare_file, reconstruct_file, slice_payload, Checks, Decoding, FileError,
    RunSummary,
};
use psf_expand::filetime::{file_time_parts, file_time_to_unix};
use psf_expand::manifest::{FileEntry, HashValue, Source, SourceType};
use psf_expand::paths::{first_shared_output, output_components};
use sha2::Digest;

const HELLO_SHA256: &str = "2cf24dba5fb0a30e26e83b2ac5b9e29e1b161e5c1fa7425e73043362938b9824";

fn hex(bytes: &[u8]) -> String {
    bytes.iter().map(|b| format!("{:02x}", b)).collect()
}

fn sha256_hex(bytes: &[u8]) -> String {
    hex(&sha2::Sha256::digest(bytes))
}

fn blob() -> Vec<u8> {
    let mut b: Vec<u8> = (0..100u8).collect();
    b[10..15].copy_from_slice(b"hello");
    b
}

fn entry(name: &str, kind: SourceType, offset: u64, length: u64) -> FileEntry {
    FileEntry {
        id: 1,
        name: name.to_string(),
        length,
        time: 116444736000000000,
        attr: 0,
        hash: HashValue { alg: "SHA256".to_string(), value: HELLO_SHA256.to_string() },
        source: Source {
            source_type: kind,
            offset,
            length,
            hash: HashValue { alg: "SHA256".to_string(), value: HELLO_SHA256.to_string() },
        },
    }
}

const ALL: Checks = Checks { payload_hash: true, output_hash: true };
const NONE: Checks = Checks { payload_hash: false, output_hash: false };

fn ready(r: Result<Decoding, FileError>) -> Vec<u8> {
    match r {
        Ok(Decoding::Ready(v)) => v,
        other => panic!("expected raw content, got {:?}", other),
    }
}

#[test]
fn hex_digest_comparison() {
    let d = sha2::Sha256::digest(b"hello");
    assert!(digest_matches(HELLO_SHA256, &d));
    assert!(digest_matches(&HELLO_SHA256.to_uppercase(), &d));
    assert!(!digest_matches(&HELLO_SHA256[..62], &d));
    assert!(!digest_matches("zz", &[0]));
    assert!(digest_matches("00ff", &[0, 255]));
    assert!(digest_matches("", &[]));
}

#[test]
fn hash_algorithms() {
    let h = HashValue { alg: "SHA256".to_string(), value: HELLO_SHA256.to_string() };
    assert_eq!(check_hash(&h, b"hello"), Some(true));
    assert_eq!(check_hash(&h, b"hellp"), Some(false));
    let lower = HashValue { alg: "sha256".to_string(), value: sha256_hex(b"") };
    assert_eq!(check_hash(&lower, b""), Some(true));
    let md5 = HashValue { alg: "MD5".to_string(), value: HELLO_SHA256.to_string() };
    assert_eq!(check_hash(&md5, b"hello"), None);
}

#[test]
fn path_components() {
    assert_eq!(output_components("a.txt"), Some(vec!["a.txt".to_string()]));
    assert_eq!(
        output_components("dir\\sub/./f.dll"),
        Some(vec!["dir".to_string(), "sub".to_string(), "f.dll".to_string()])
    );
    assert_eq!(output_components("a//b/"), Some(vec!["a".to_string(), "b".to_string()]));
    assert_eq!(output_components("..."), Some(vec!["...".to_string()]));
    assert_eq!(output_components("../../evil.txt"), None);
    assert_eq!(output_components("a/../b"), None);
    assert_eq!(output_components("a/.."), None);
    assert_eq!(output_components("/etc/passwd"), None);
    assert_eq!(output_components("\\x"), None);
    assert_eq!(output_components("C:\\x"), None);
    assert_eq!(output_components(""), None);
    assert_eq!(output_components("./."), None);
}

#[test]
fn payload_slices() {
    let b = blob();
    assert_eq!(slice_payload(&b, 10, 5), Some(b"hello".to_vec()));
    assert_eq!(slice_payload(&b, 100, 0), Some(vec![]));
    assert_eq!(slice_payload(&b, 96, 5), None);
    assert_eq!(slice_payload(&b, u64::MAX, 2), None);
}

#[test]
fn raw_file_end_to_end() {
    let b = blob();
    let e = entry("a.txt", SourceType::Raw, 10, 5);
    assert_eq!(output_components(&e.name), Some(vec!["a.txt".to_string()]));
    let payload = ready(prepare_file(&e, &b, ALL));
    assert_eq!(payload, b"hello".to_vec());
    assert_eq!(finish_file(&e, Some(payload), ALL), Ok(b"hello".to_vec()));
    assert_eq!(file_time_to_unix(e.time), (0, 0));
}

#[test]
fn raw_round_trip_every_range() {
    let b = blob();
    for (off, len) in [(0u64, 0u64), (0, 100), (37, 11), (99, 1)] {
        let e = entry("x/y.bin", SourceType::Raw, off, len);
        let out = reconstruct_file(&e, &b, NONE, |_| panic!("no decoder for raw data"));
        assert_eq!(out, Ok(b[off as usize..(off + len) as usize].to_vec()));
    }
}

#[test]
fn corruption_detected() {
    let e = entry("a.txt", SourceType::Raw, 10, 5);
    for k in 10..15 {
        let mut b = blob();
        b[k] ^= 0x01;
        assert_eq!(prepare_file(&e, &b, ALL).err(), Some(FileError::PayloadHashMismatch));
        let only_output = Checks { payload_hash: false, output_hash: true };
        let payload = ready(prepare_file(&e, &b, only_output));
        assert_eq!(finish_file(&e, Some(payload), only_output), Err(FileError::OutputHashMismatch));
    }
}

#[test]
fn escaping_path_rejected() {
    let e = entry("../../evil.txt", SourceType::Raw, 10, 5);
    assert_eq!(prepare_file(&e, &blob(), ALL).err(), Some(FileError::PathEscape));
    assert_eq!(
        reconstruct_file(&e, &blob(), NONE, |_| panic!("not reached")),
        Err(FileError::PathEscape)
    );
}

#[test]
fn reversible_delta_fails_closed() {
    let e = entry("a.txt", SourceType::ReversibleDelta, 10, 5);
    assert_eq!(prepare_file(&e, &blob(), NONE).err(), Some(FileError::UnsupportedSourceType));
    let bad = entry("../x", SourceType::ReversibleDelta, 1000, 5);
    assert_eq!(
        reconstruct_file(&bad, &blob(), ALL, |_| panic!("decoder must not run")),
        Err(FileError::UnsupportedSourceType)
    );
}

#[test]
fn truncated_payload() {
    let e = entry("a.txt", SourceType::Raw, 98, 5);
    assert_eq!(prepare_file(&e, &blob(), NONE).err(), Some(FileError::TruncatedPayload));
}

#[test]
fn unsupported_hash_algorithm() {
    let mut e = entry("a.txt", SourceType::Raw, 10, 5);
    e.source.hash.alg = "CRC32".to_string();
    assert_eq!(prepare_file(&e, &blob(), ALL).err(), Some(FileError::UnsupportedHashAlgorithm));
    let only_output = Checks { payload_hash: false, output_hash: true };
    e.hash.alg = "MD5".to_string();
    assert_eq!(
        finish_file(&e, Some(b"hello".to_vec()), only_output),
        Err(FileError::UnsupportedHashAlgorithm)
    );
}

#[test]
fn full_delta_goes_through_decoder() {
    let b = blob();
    let mut e = entry("d/b.dll", SourceType::FullDelta, 10, 5);
    match prepare_file(&e, &b, ALL) {
        Ok(Decoding::ApplyDelta(p)) => assert_eq!(p, b"hello".to_vec()),
        other => panic!("expected a delta payload, got {:?}", other),
    }
    e.hash.value = sha256_hex(b"HELLO");
    let out = reconstruct_file(&e, &b, ALL, |p: Vec<u8>| Some(p.to_ascii_uppercase()));
    assert_eq!(out, Ok(b"HELLO".to_vec()));
    assert_eq!(reconstruct_file(&e, &b, ALL, |_| None), Err(FileError::DeltaApplyFailed));
    assert_eq!(
        reconstruct_file(&e, &b, ALL, |p: Vec<u8>| Some(p)),
        Err(FileError::OutputHashMismatch)
    );
}

#[test]
fn order_does_not_matter() {
    let b = blob();
    let entries = vec![
        entry("a.txt", SourceType::Raw, 10, 5),
        entry("b.txt", SourceType::Raw, 0, 100),
        entry("../c.txt", SourceType::Raw, 0, 1),
        entry("d.txt", SourceType::Raw, 95, 10),
        entry("e.txt", SourceType::ReversibleDelta, 0, 1),
    ];
    let forward: Vec<_> =
        entries.iter().map(|e| reconstruct_file(e, &b, NONE, |p: Vec<u8>| Some(p))).collect();
    let mut backward: Vec<_> =
        entries.iter().rev().map(|e| reconstruct_file(e, &b, NONE, |p: Vec<u8>| Some(p))).collect();
    backward.reverse();
    assert_eq!(forward, backward);
}

#[test]
fn file_time_conversions() {
    assert_eq!(file_time_parts(0x0000_0001_0000_0002), (2, 1));
    assert_eq!(file_time_parts(u64::MAX), (u32::MAX, u32::MAX));
    assert_eq!(file_time_to_unix(116444736000000000), (0, 0));
    assert_eq!(file_time_to_unix(116444736000000001), (0, 100));
    assert_eq!(file_time_to_unix(133210000000000000), (1676526400, 0));
    assert_eq!(file_time_to_unix(0), (-11644473600, 0));
}

#[test]
fn shared_output_paths() {
    let n: Vec<String> = ["a/b.txt", "c.txt", "../x", "a\\.\\b.txt", "c.txt"]
        .iter()
        .map(|s| s.to_string())
        .collect();
    assert_eq!(first_shared_output(&n), Some((0, 3)));
    let n: Vec<String> = ["../x", "../x", "a", "a/b"].iter().map(|s| s.to_string()).collect();
    assert_eq!(first_shared_output(&n), None);
    assert_eq!(first_shared_output(&[]), None);
}

#[test]
fn run_summary_records() {
    let mut s = RunSummary::new();
    assert!(s.all_succeeded());
    s.record(7, None);
    s.record(8, Some(FileError::TruncatedPayload));
    s.record(9, None);
    assert_eq!(s.succeeded, vec![7, 9]);
    assert_eq!(s.failed, vec![(8, FileError::TruncatedPayload)]);
    assert!(!s.all_succeeded());
}

#[test]
fn only_escape_aborts() {
    assert!(FileError::PathEscape.aborts_run());
    assert!(!FileError::TruncatedPayload.aborts_run());
    assert!(!FileError::UnsupportedSourceType.aborts_run());
    assert!(!FileError::OutputHashMismatch.aborts_run());
}

#[test]
fn stop_after_failures() {
    let mut s = RunSummary::new();
    assert!(!s.should_stop(None));
    assert!(s.should_stop(Some(0)));
    assert!(!s.should_stop(Some(1)));
    s.record(1, Some(FileError::DeltaApplyFailed));
    assert!(s.should_stop(Some(1)));
    assert!(!s.should_stop(Some(2)));
    assert!(!s.should_stop(None));
}

#[test]
fn declared_length_advisory() {
    let e = entry("a.txt", SourceType::Raw, 10, 5);
    assert!(has_declared_length(&e, b"hello"));
    assert!(!has_declared_length(&e, b"hell"));
}
