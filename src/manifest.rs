//! The manifest model, and its construction from the textual attribute
//! values that the manifest document carries.
use vstd::prelude::*;
use crate::text::{chars_of, parse_i64, parse_u64, same_chars, spec_parse_i64, spec_parse_u64};

verus! {

/// How a file's payload turns into the file's content.
#[derive(Clone, Copy, Debug, PartialEq, Eq, Structural)]
pub enum SourceType {
    /// A self-contained binary delta (`PA30`).
    FullDelta,
    /// A delta against a basis file (`PA19`); not reconstructed here.
    ReversibleDelta,
    /// The payload is the file's content (`RAW`).
    Raw,
}

/// A content hash: an algorithm name and the digest in hexadecimal.
#[derive(Clone, Debug)]
pub struct HashValue {
    pub alg: String,
    pub value: String,
}

/// A place where basis files may be found.
#[derive(Clone, Debug)]
pub struct Location {
    pub id: i64,
    pub path: String,
    pub flags: u64,
}

/// Where a file's encoded payload lies in the patch blob, and how to decode it.
#[derive(Clone, Debug)]
pub struct Source {
    pub source_type: SourceType,
    pub offset: u64,
    pub length: u64,
    /// Hash of the encoded payload.
    pub hash: HashValue,
}

/// One output file.
#[derive(Clone, Debug)]
pub struct FileEntry {
    pub id: u64,
    /// Path of the output file relative to the output root.
    pub name: String,
    /// Advisory size of the reconstructed file.
    pub length: u64,
    /// Modification time in 100-nanosecond ticks since 1601-01-01.
    pub time: u64,
    /// Attribute bits, passed through unchanged.
    pub attr: u64,
    /// HashValue of the reconstructed content.
    pub hash: HashValue,
    pub source: Source,
}

/// A parsed manifest.
#[derive(Clone, Debug)]
pub struct Manifest {
    pub name: String,
    pub kind: String,
    pub length: u64,
    pub version: String,
    pub xmlns: String,
    pub locations: Vec<Location>,
    pub files: Vec<FileEntry>,
}

/// The attribute values of a `Location` element, as text.
#[derive(Clone, Debug)]
pub struct LocationFields {
    pub id: String,
    pub path: String,
    pub flags: String,
}

/// The attribute values of a `File` element and its nested elements, as text.
#[derive(Clone, Debug)]
pub struct FileFields {
    pub id: String,
    pub name: String,
    pub length: String,
    pub time: String,
    pub attr: String,
    pub hash: HashValue,
    pub source_type: String,
    pub offset: String,
    pub source_length: String,
    pub source_hash: HashValue,
}

/// The attribute values of the root element and its children, as text.
#[derive(Clone, Debug)]
pub struct ManifestFields {
    pub name: String,
    pub kind: String,
    pub length: String,
    pub version: String,
    pub xmlns: String,
    pub locations: Vec<LocationFields>,
    pub files: Vec<FileFields>,
}

/// A field whose text could not be read.
#[derive(Clone, Copy, Debug, PartialEq, Eq, Structural)]
pub enum Field {
    ContainerLength,
    LocationId,
    LocationFlags,
    FileId,
    FileLength,
    FileTime,
    FileAttr,
    SourceType,
    SourceOffset,
    SourceLength,
}

/// The first invalid field of a manifest; `index` is the position of the
/// location or file that holds it (0 for the root's own fields).
#[derive(Clone, Copy, Debug, PartialEq, Eq, Structural)]
pub struct ParseError {
    pub field: Field,
    pub index: usize,
}

pub open spec fn spec_source_type(s: Seq<char>) -> Option<SourceType> {
    if s == seq!['P', 'A', '3', '0'] {
        Some(SourceType::FullDelta)
    } else if s == seq!['P', 'A', '1', '9'] {
        Some(SourceType::ReversibleDelta)
    } else if s == seq!['R', 'A', 'W'] {
        Some(SourceType::Raw)
    } else {
        None
    }
}

/// Reads a source type name: `PA30`, `PA19` or `RAW`.
pub fn parse_source_type(s: &str) -> (r: Option<SourceType>)
    ensures
        r == spec_source_type(s@),
{
    let cs = chars_of(s);
    let pa30 = ['P', 'A', '3', '0'];
    let pa19 = ['P', 'A', '1', '9'];
    let raw = ['R', 'A', 'W'];
    assert(pa30@ =~= seq!['P', 'A', '3', '0']);
    assert(pa19@ =~= seq!['P', 'A', '1', '9']);
    assert(raw@ =~= seq!['R', 'A', 'W']);
    if same_chars(cs.as_slice(), pa30.as_slice()) {
        Some(SourceType::FullDelta)
    } else if same_chars(cs.as_slice(), pa19.as_slice()) {
        Some(SourceType::ReversibleDelta)
    } else if same_chars(cs.as_slice(), raw.as_slice()) {
        Some(SourceType::Raw)
    } else {
        None
    }
}

/// The first unreadable field of a location, if any.
pub open spec fn location_error(f: LocationFields) -> Option<Field> {
    if spec_parse_i64(f.id@) is None {
        Some(Field::LocationId)
    } else if spec_parse_u64(f.flags@) is None {
        Some(Field::LocationFlags)
    } else {
        None
    }
}

pub open spec fn location_of(f: LocationFields) -> Location {
    Location { id: spec_parse_i64(f.id@)->0, path: f.path, flags: spec_parse_u64(f.flags@)->0 }
}

/// The first unreadable field of a file, if any.
pub open spec fn file_error(f: FileFields) -> Option<Field> {
    if spec_parse_u64(f.id@) is None {
        Some(Field::FileId)
    } else if spec_parse_u64(f.length@) is None {
        Some(Field::FileLength)
    } else if spec_parse_u64(f.time@) is None {
        Some(Field::FileTime)
    } else if spec_parse_u64(f.attr@) is None {
        Some(Field::FileAttr)
    } else if spec_source_type(f.source_type@) is None {
        Some(Field::SourceType)
    } else if spec_parse_u64(f.offset@) is None {
        Some(Field::SourceOffset)
    } else if spec_parse_u64(f.source_length@) is None {
        Some(Field::SourceLength)
    } else {
        None
    }
}

pub open spec fn file_of(f: FileFields) -> FileEntry {
    FileEntry {
        id: spec_parse_u64(f.id@)->0,
        name: f.name,
        length: spec_parse_u64(f.length@)->0,
        time: spec_parse_u64(f.time@)->0,
        attr: spec_parse_u64(f.attr@)->0,
        hash: f.hash,
        source: Source {
            source_type: spec_source_type(f.source_type@)->0,
            offset: spec_parse_u64(f.offset@)->0,
            length: spec_parse_u64(f.source_length@)->0,
            hash: f.source_hash,
        },
    }
}

/// Reads the fields of one location.
pub fn parse_location(f: LocationFields) -> (r: Result<Location, Field>)
    ensures
        r == (match location_error(f) {
            Some(e) => Err(e),
            None => Ok(location_of(f)),
        }),
{
    let id = match parse_i64(f.id.as_str()) {
        Some(v) => v,
        None => return Err(Field::LocationId),
    };
    let flags = match parse_u64(f.flags.as_str()) {
        Some(v) => v,
        None => return Err(Field::LocationFlags),
    };
    Ok(Location { id, path: f.path, flags })
}

/// Reads the fields of one file.
pub fn parse_file(f: FileFields) -> (r: Result<FileEntry, Field>)
    ensures
        r == (match file_error(f) {
            Some(e) => Err(e),
            None => Ok(file_of(f)),
        }),
{
    let id = match parse_u64(f.id.as_str()) {
        Some(v) => v,
        None => return Err(Field::FileId),
    };
    let length = match parse_u64(f.length.as_str()) {
        Some(v) => v,
        None => return Err(Field::FileLength),
    };
    let time = match parse_u64(f.time.as_str()) {
        Some(v) => v,
        None => return Err(Field::FileTime),
    };
    let attr = match parse_u64(f.attr.as_str()) {
        Some(v) => v,
        None => return Err(Field::FileAttr),
    };
    let source_type = match parse_source_type(f.source_type.as_str()) {
        Some(v) => v,
        None => return Err(Field::SourceType),
    };
    let offset = match parse_u64(f.offset.as_str()) {
        Some(v) => v,
        None => return Err(Field::SourceOffset),
    };
    let source_length = match parse_u64(f.source_length.as_str()) {
        Some(v) => v,
        None => return Err(Field::SourceLength),
    };
    Ok(FileEntry {
        id,
        name: f.name,
        length,
        time,
        attr,
        hash: f.hash,
        source: Source { source_type, offset, length: source_length, hash: f.source_hash },
    })
}

/// The first invalid location at or after position `i`.
pub open spec fn first_location_error(ls: Seq<LocationFields>, i: int) -> Option<ParseError>
    decreases ls.len() - i,
{
    if i < 0 || i >= ls.len() {
        None
    } else if let Some(e) = location_error(ls[i]) {
        Some(ParseError { field: e, index: i as usize })
    } else {
        first_location_error(ls, i + 1)
    }
}

/// The first invalid file at or after position `i`.
pub open spec fn first_file_error(fs: Seq<FileFields>, i: int) -> Option<ParseError>
    decreases fs.len() - i,
{
    if i < 0 || i >= fs.len() {
        None
    } else if let Some(e) = file_error(fs[i]) {
        Some(ParseError { field: e, index: i as usize })
    } else {
        first_file_error(fs, i + 1)
    }
}

/// The first invalid field of a manifest: the root's length, then the
/// locations in order, then the files in order.
pub open spec fn manifest_error(m: ManifestFields) -> Option<ParseError> {
    if spec_parse_u64(m.length@) is None {
        Some(ParseError { field: Field::ContainerLength, index: 0 })
    } else if first_location_error(m.locations@, 0) is Some {
        first_location_error(m.locations@, 0)
    } else {
        first_file_error(m.files@, 0)
    }
}

proof fn lemma_no_location_error(ls: Seq<LocationFields>, i: int)
    requires
        0 <= i <= ls.len(),
        first_location_error(ls, i) is None,
    ensures
        forall|j: int| i <= j < ls.len() ==> location_error(#[trigger] ls[j]) is None,
    decreases ls.len() - i,
{
    if i < ls.len() {
        lemma_no_location_error(ls, i + 1);
    }
}

proof fn lemma_no_file_error(fs: Seq<FileFields>, i: int)
    requires
        0 <= i <= fs.len(),
        first_file_error(fs, i) is None,
    ensures
        forall|j: int| i <= j < fs.len() ==> file_error(#[trigger] fs[j]) is None,
    decreases fs.len() - i,
{
    if i < fs.len() {
        lemma_no_file_error(fs, i + 1);
    }
}

/// Builds the manifest model from the document's attribute text. Fails
/// with the first field that is not a valid integer or source type.
pub fn parse_manifest(m: ManifestFields) -> (r: Result<Manifest, ParseError>)
    ensures
        match r {
            Err(e) => manifest_error(m) == Some(e),
            Ok(out) => {
                &&& manifest_error(m) is None
                &&& out.name == m.name
                &&& out.kind == m.kind
                &&& out.length == spec_parse_u64(m.length@)->0
                &&& out.version == m.version
                &&& out.xmlns == m.xmlns
                &&& out.locations@ == m.locations@.map_values(|l: LocationFields| location_of(l))
                &&& out.files@ == m.files@.map_values(|f: FileFields| file_of(f))
            },
        },
{
    let ghost gm = m;
    let length = match parse_u64(m.length.as_str()) {
        Some(v) => v,
        None => return Err(ParseError { field: Field::ContainerLength, index: 0 }),
    };
    assert(spec_parse_u64(gm.length@) is Some);
    let n_locations = m.locations.len();
    let n_files = m.files.len();
    let mut locs: Vec<Location> = Vec::new();
    let mut i: usize = 0;
    for l in it: m.locations.into_iter()
        invariant
            it.seq() == gm.locations@,
            m == gm,
            spec_parse_u64(gm.length@) is Some,
            i == it.index(),
            i <= gm.locations@.len(),
            n_locations == gm.locations@.len(),
            first_location_error(gm.locations@, 0) == first_location_error(gm.locations@, i as int),
            locs@ == gm.locations@.take(i as int).map_values(|l: LocationFields| location_of(l)),
    {
        assert(l == gm.locations@[i as int]);
        match parse_location(l) {
            Ok(loc) => {
                locs.push(loc);
                proof {
                    assert(locs@ =~= gm.locations@.take(i + 1).map_values(|l: LocationFields| location_of(l)));
                }
            },
            Err(e) => {
                return Err(ParseError { field: e, index: i });
            },
        }
        i = i + 1;
    }
    proof {
        assert(gm.locations@.take(gm.locations@.len() as int) =~= gm.locations@);
    }
    let mut entries: Vec<FileEntry> = Vec::new();
    let mut k: usize = 0;
    for f in it: m.files.into_iter()
        invariant
            it.seq() == gm.files@,
            m == gm,
            k == it.index(),
            k <= gm.files@.len(),
            n_files == gm.files@.len(),
            spec_parse_u64(gm.length@) is Some,
            first_location_error(gm.locations@, 0) is None,
            first_file_error(gm.files@, 0) == first_file_error(gm.files@, k as int),
            entries@ == gm.files@.take(k as int).map_values(|f: FileFields| file_of(f)),
    {
        assert(f == gm.files@[k as int]);
        match parse_file(f) {
            Ok(e) => {
                entries.push(e);
                proof {
                    assert(entries@ =~= gm.files@.take(k + 1).map_values(|f: FileFields| file_of(f)));
                }
            },
            Err(e) => {
                return Err(ParseError { field: e, index: k });
            },
        }
        k = k + 1;
    }
    proof {
        assert(gm.files@.take(gm.files@.len() as int) =~= gm.files@);
    }
    Ok(
        Manifest {
            name: m.name,
            kind: m.kind,
            length,
            version: m.version,
            xmlns: m.xmlns,
            locations: locs,
            files: entries,
        },
    )
}

} // verus!
