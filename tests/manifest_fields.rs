use psf_expand::manifest::{
    parse_file, parse_location, parse_manifest, parse_source_type, Field, FileFields, HashValue,
    LocationFields, ManifestFields, ParseError, SourceType,
};
use psf_expand::text::{parse_i64, parse_u64};

fn hash(alg: &str, value: &str) -> HashValue {
    HashValue { alg: alg.to_string(), value: value.to_string() }
}

fn file_fields(id: &str, name: &str, kind: &str, offset: &str, length: &str) -> FileFields {
    FileFields {
        id: id.to_string(),
        name: name.to_string(),
        length: length.to_string(),
        time: "133210000000000000".to_string(),
        attr: "32".to_string(),
        hash: hash("SHA256", "00"),
        source_type: kind.to_string(),
        offset: offset.to_string(),
        source_length: length.to_string(),
        source_hash: hash("SHA256", "11"),
    }
}

fn manifest_fields(files: Vec<FileFields>) -> ManifestFields {
    ManifestFields {
        name: "express.psf".to_string(),
        kind: "PSF".to_string(),
        length: "100".to_string(),
        version: "1.0".to_string(),
        xmlns: "urn:ContainerIndex".to_string(),
        locations: vec![LocationFields {
            id: "1".to_string(),
            path: "$(runtime.system32)".to_string(),
            flags: "0".to_string(),
        }],
        files,
    }
}

#[test]
fn unsigned_fields() {
    assert_eq!(parse_u64("0"), Some(0));
    assert_eq!(parse_u64("123"), Some(123));
    assert_eq!(parse_u64("18446744073709551615"), Some(u64::MAX));
    assert_eq!(parse_u64("18446744073709551616"), None);
    assert_eq!(parse_u64(""), None);
    assert_eq!(parse_u64("12a"), None);
    assert_eq!(parse_u64("-1"), None);
}

#[test]
fn signed_fields() {
    assert_eq!(parse_i64("-5"), Some(-5));
    assert_eq!(parse_i64("42"), Some(42));
    assert_eq!(parse_i64("-9223372036854775808"), Some(i64::MIN));
    assert_eq!(parse_i64("9223372036854775807"), Some(i64::MAX));
    assert_eq!(parse_i64("9223372036854775808"), None);
    assert_eq!(parse_i64("-"), None);
    assert_eq!(parse_i64(""), None);
}

#[test]
fn source_type_names() {
    assert_eq!(parse_source_type("PA30"), Some(SourceType::FullDelta));
    assert_eq!(parse_source_type("PA19"), Some(SourceType::ReversibleDelta));
    assert_eq!(parse_source_type("RAW"), Some(SourceType::Raw));
    assert_eq!(parse_source_type("raw"), None);
    assert_eq!(parse_source_type("PA31"), None);
}

#[test]
fn location_fields() {
    let l = parse_location(LocationFields {
        id: "-3".to_string(),
        path: "p".to_string(),
        flags: "7".to_string(),
    })
    .unwrap();
    assert_eq!((l.id, l.path.as_str(), l.flags), (-3, "p", 7));
    let bad = parse_location(LocationFields {
        id: "1".to_string(),
        path: "p".to_string(),
        flags: "x".to_string(),
    });
    assert_eq!(bad.err(), Some(Field::LocationFlags));
}

#[test]
fn file_fields_read() {
    let f = parse_file(file_fields("9", "a.txt", "RAW", "10", "5")).unwrap();
    assert_eq!(f.id, 9);
    assert_eq!(f.name, "a.txt");
    assert_eq!(f.length, 5);
    assert_eq!(f.time, 133210000000000000);
    assert_eq!(f.attr, 32);
    assert_eq!(f.hash.value, "00");
    assert_eq!(f.source.source_type, SourceType::Raw);
    assert_eq!(f.source.offset, 10);
    assert_eq!(f.source.length, 5);
    assert_eq!(f.source.hash.value, "11");
}

#[test]
fn file_fields_first_error() {
    let mut f = file_fields("9", "a.txt", "RAW", "10", "5");
    f.time = "soon".to_string();
    f.offset = "x".to_string();
    assert_eq!(parse_file(f).err(), Some(Field::FileTime));
    let f = file_fields("9", "a.txt", "PA99", "x", "5");
    assert_eq!(parse_file(f).err(), Some(Field::SourceType));
}

#[test]
fn whole_manifest() {
    let m = parse_manifest(manifest_fields(vec![
        file_fields("1", "a.txt", "RAW", "10", "5"),
        file_fields("2", "b.dll", "PA30", "15", "20"),
    ]))
    .unwrap();
    assert_eq!(m.length, 100);
    assert_eq!(m.locations.len(), 1);
    assert_eq!(m.files.len(), 2);
    assert_eq!(m.files[1].name, "b.dll");
    assert_eq!(m.files[1].source.source_type, SourceType::FullDelta);
}

#[test]
fn manifest_errors() {
    let mut m = manifest_fields(vec![]);
    m.length = "big".to_string();
    assert_eq!(
        parse_manifest(m).err(),
        Some(ParseError { field: Field::ContainerLength, index: 0 })
    );
    let m = manifest_fields(vec![
        file_fields("1", "a.txt", "RAW", "10", "5"),
        file_fields("2", "b.dll", "PA30", "-15", "20"),
        file_fields("x", "c.dll", "PA30", "15", "20"),
    ]);
    assert_eq!(
        parse_manifest(m).err(),
        Some(ParseError { field: Field::SourceOffset, index: 1 })
    );
}
