//! Per-file reconstruction: slicing a file's payload out of the patch blob,
//! dispatching on its source type, and verifying payload and output hashes.
use vstd::prelude::*;
use crate::digest::{check_hash, hash_verdict, hex_denotes, lemma_hex_denotes_unique, sha256_of};
use crate::manifest::{FileEntry, SourceType};
use crate::paths::{output_components, path_confined};

verus! {

/// Why one file could not be reconstructed.
#[derive(Clone, Copy, Debug, PartialEq, Eq, Structural)]
pub enum FileError {
    /// The file's path leaves the output root.
    PathEscape,
    /// The payload range extends past the end of the patch blob.
    TruncatedPayload,
    /// A hash to be checked names an algorithm that is not supported.
    UnsupportedHashAlgorithm,
    /// The payload does not match its declared hash.
    PayloadHashMismatch,
    /// The source type is not reconstructed here.
    UnsupportedSourceType,
    /// The delta decoder rejected the payload.
    DeltaApplyFailed,
    /// The reconstructed content does not match its declared hash.
    OutputHashMismatch,
}

impl FileError {
    /// Whether the failure stops the whole run rather than only its file:
    /// only a path that leaves the output root does.
    pub fn aborts_run(&self) -> (r: bool)
        ensures
            r == (*self == FileError::PathEscape),
    {
        match self {
            FileError::PathEscape => true,
            _ => false,
        }
    }
}

/// Which hashes are verified.
#[derive(Clone, Copy, Debug, PartialEq, Eq, Structural)]
pub struct Checks {
    /// Verify the encoded payload against the source hash.
    pub payload_hash: bool,
    /// Verify the reconstructed content against the file's hash.
    pub output_hash: bool,
}

/// What remains to be done with a file's payload.
#[derive(Clone, Debug)]
pub enum Decoding {
    /// The payload is the file's content.
    Ready(Vec<u8>),
    /// The payload is a self-contained delta that the decoder expands.
    ApplyDelta(Vec<u8>),
}

/// The files of a run that were reconstructed and those that failed, by id,
/// in the order they were recorded.
#[derive(Clone, Debug)]
pub struct RunSummary {
    pub succeeded: Vec<u64>,
    pub failed: Vec<(u64, FileError)>,
}

impl RunSummary {
    /// A summary with nothing recorded.
    pub fn new() -> (r: RunSummary)
        ensures
            r.succeeded@ == Seq::<u64>::empty(),
            r.failed@ == Seq::<(u64, FileError)>::empty(),
    {
        RunSummary { succeeded: Vec::new(), failed: Vec::new() }
    }

    /// Records the outcome of file `id`: `None` when it was written.
    pub fn record(&mut self, id: u64, outcome: Option<FileError>)
        ensures
            match outcome {
                None => {
                    &&& final(self).succeeded@ == old(self).succeeded@.push(id)
                    &&& final(self).failed@ == old(self).failed@
                },
                Some(e) => {
                    &&& final(self).succeeded@ == old(self).succeeded@
                    &&& final(self).failed@ == old(self).failed@.push((id, e))
                },
            },
    {
        match outcome {
            None => self.succeeded.push(id),
            Some(e) => self.failed.push((id, e)),
        }
    }

    /// Whether the run stops here: when at least `max_failures` files have
    /// failed, if such a limit is set.
    pub fn should_stop(&self, max_failures: Option<usize>) -> (r: bool)
        ensures
            r == (max_failures matches Some(n) && self.failed@.len() >= n),
    {
        match max_failures {
            Some(n) => self.failed.len() >= n,
            None => false,
        }
    }

    /// Whether every recorded file was written.
    pub fn all_succeeded(&self) -> (r: bool)
        ensures
            r == (self.failed@.len() == 0),
    {
        self.failed.len() == 0
    }
}

/// `(needs the delta decoder, payload)` of a decoding.
pub open spec fn decoding_model(d: Decoding) -> (bool, Seq<u8>) {
    match d {
        Decoding::Ready(b) => (false, b@),
        Decoding::ApplyDelta(b) => (true, b@),
    }
}

pub open spec fn prepared_model(r: Result<Decoding, FileError>) -> Result<(bool, Seq<u8>), FileError> {
    match r {
        Ok(d) => Ok(decoding_model(d)),
        Err(e) => Err(e),
    }
}

pub open spec fn bytes_model(d: Option<Vec<u8>>) -> Option<Seq<u8>> {
    match d {
        Some(v) => Some(v@),
        None => None,
    }
}

pub open spec fn content_model(r: Result<Vec<u8>, FileError>) -> Result<Seq<u8>, FileError> {
    match r {
        Ok(v) => Ok(v@),
        Err(e) => Err(e),
    }
}

/// The payload range of `e` lies inside a blob of `len` bytes.
pub open spec fn payload_in_range(e: FileEntry, len: nat) -> bool {
    e.source.offset + e.source.length <= len
}

/// The bytes `[offset, offset + length)` of the blob.
pub open spec fn payload_of(e: FileEntry, blob: Seq<u8>) -> Seq<u8> {
    blob.subrange(e.source.offset as int, e.source.offset + e.source.length)
}

/// The first phase of reconstructing `e`: fail closed on an unsupported
/// source type, confine the path, slice the payload, verify its hash if
/// asked, and say whether the delta decoder must run on it.
pub open spec fn plan(e: FileEntry, blob: Seq<u8>, checks: Checks) -> Result<(bool, Seq<u8>), FileError> {
    if e.source.source_type == SourceType::ReversibleDelta {
        Err(FileError::UnsupportedSourceType)
    } else if !path_confined(e.name@) {
        Err(FileError::PathEscape)
    } else if !payload_in_range(e, blob.len()) {
        Err(FileError::TruncatedPayload)
    } else if checks.payload_hash && hash_verdict(e.source.hash, payload_of(e, blob)) is None {
        Err(FileError::UnsupportedHashAlgorithm)
    } else if checks.payload_hash && hash_verdict(e.source.hash, payload_of(e, blob)) == Some(
        false,
    ) {
        Err(FileError::PayloadHashMismatch)
    } else {
        Ok((e.source.source_type == SourceType::FullDelta, payload_of(e, blob)))
    }
}

/// The second phase: what the decoded content (`None` when the decoder
/// failed) becomes once its hash is verified if asked.
pub open spec fn finish(e: FileEntry, decoded: Option<Seq<u8>>, checks: Checks) -> Result<Seq<u8>, FileError> {
    match decoded {
        None => Err(FileError::DeltaApplyFailed),
        Some(d) => {
            if checks.output_hash && hash_verdict(e.hash, d) is None {
                Err(FileError::UnsupportedHashAlgorithm)
            } else if checks.output_hash && hash_verdict(e.hash, d) == Some(false) {
                Err(FileError::OutputHashMismatch)
            } else {
                Ok(d)
            }
        },
    }
}

/// The content reconstructed for `e`, with `decode` standing for the delta decoder.
pub open spec fn reconstruct(
    e: FileEntry,
    blob: Seq<u8>,
    checks: Checks,
    decode: spec_fn(Seq<u8>) -> Option<Seq<u8>>,
) -> Result<Seq<u8>, FileError> {
    match plan(e, blob, checks) {
        Err(x) => Err(x),
        Ok((false, p)) => finish(e, Some(p), checks),
        Ok((true, p)) => finish(e, decode(p), checks),
    }
}

/// Copies the bytes `[offset, offset + length)` of `blob`.
pub fn slice_payload(blob: &[u8], offset: u64, length: u64) -> (r: Option<Vec<u8>>)
    ensures
        r is Some <==> offset + length <= blob@.len(),
        r matches Some(v) ==> v@ == blob@.subrange(offset as int, offset + length),
{
    if offset as u128 + length as u128 > blob.len() as u128 {
        return None;
    }
    let start = offset as usize;
    let end = start + length as usize;
    let mut v: Vec<u8> = Vec::new();
    let mut i: usize = start;
    while i < end
        invariant
            start <= i <= end,
            end <= blob@.len(),
            start == offset,
            end == offset + length,
            v@ == blob@.subrange(start as int, i as int),
        decreases end - i,
    {
        v.push(blob[i]);
        i = i + 1;
        assert(v@ =~= blob@.subrange(start as int, i as int));
    }
    Some(v)
}

/// Whether the reconstructed content has the file's declared length; the
/// length is advisory, so a mismatch is reported, not rejected.
pub fn has_declared_length(entry: &FileEntry, content: &[u8]) -> (r: bool)
    ensures
        r == (content@.len() == entry.length),
{
    content.len() as u64 == entry.length
}

/// The first phase of reconstructing one file (see `plan`).
pub fn prepare_file(entry: &FileEntry, blob: &[u8], checks: Checks) -> (r: Result<Decoding, FileError>)
    ensures
        prepared_model(r) == plan(*entry, blob@, checks),
{
    if entry.source.source_type == SourceType::ReversibleDelta {
        return Err(FileError::UnsupportedSourceType);
    }
    if output_components(entry.name.as_str()).is_none() {
        return Err(FileError::PathEscape);
    }
    let payload = match slice_payload(blob, entry.source.offset, entry.source.length) {
        Some(p) => p,
        None => return Err(FileError::TruncatedPayload),
    };
    if checks.payload_hash {
        match check_hash(&entry.source.hash, payload.as_slice()) {
            None => return Err(FileError::UnsupportedHashAlgorithm),
            Some(false) => return Err(FileError::PayloadHashMismatch),
            Some(true) => {},
        }
    }
    if entry.source.source_type == SourceType::FullDelta {
        Ok(Decoding::ApplyDelta(payload))
    } else {
        Ok(Decoding::Ready(payload))
    }
}

/// The second phase of reconstructing one file (see `finish`).
pub fn finish_file(entry: &FileEntry, decoded: Option<Vec<u8>>, checks: Checks) -> (r: Result<Vec<u8>, FileError>)
    ensures
        content_model(r) == finish(*entry, bytes_model(decoded), checks),
{
    let content = match decoded {
        Some(d) => d,
        None => return Err(FileError::DeltaApplyFailed),
    };
    if checks.output_hash {
        match check_hash(&entry.hash, content.as_slice()) {
            None => return Err(FileError::UnsupportedHashAlgorithm),
            Some(false) => return Err(FileError::OutputHashMismatch),
            Some(true) => {},
        }
    }
    Ok(content)
}

/// Reconstructs one file from the patch blob, running `decode` on the
/// payload exactly when the file is a self-contained delta that passed the
/// first phase. For every decoder, the result is what `reconstruct` says of
/// the decoder's answer.
pub fn reconstruct_file<F: FnOnce(Vec<u8>) -> Option<Vec<u8>>>(
    entry: &FileEntry,
    blob: &[u8],
    checks: Checks,
    decode: F,
) -> (r: Result<Vec<u8>, FileError>)
    requires
        forall|p: Vec<u8>| decode.requires((p,)),
    ensures
        match plan(*entry, blob@, checks) {
            Err(x) => r == Err::<Vec<u8>, FileError>(x),
            Ok((false, p)) => content_model(r) == finish(*entry, Some(p), checks),
            Ok((true, p)) => exists|v: Vec<u8>, d: Option<Vec<u8>>|
                v@ == p && decode.ensures((v,), d) && content_model(r) == finish(
                    *entry,
                    bytes_model(d),
                    checks,
                ),
        },
{
    match prepare_file(entry, blob, checks) {
        Err(x) => Err(x),
        Ok(Decoding::Ready(p)) => finish_file(entry, Some(p), checks),
        Ok(Decoding::ApplyDelta(p)) => {
            let ghost gp = p;
            let d = decode(p);
            let r = finish_file(entry, d, checks);
            assert(decode.ensures((gp,), d));
            r
        },
    }
}

/// A file of raw source type, once reconstructed, holds exactly the bytes
/// `[offset, offset + length)` of the patch blob; with no hash checks
/// asked, it is reconstructed whenever its path is confined and its range
/// lies inside the blob.
pub proof fn lemma_raw_round_trip(
    e: FileEntry,
    blob: Seq<u8>,
    checks: Checks,
    decode: spec_fn(Seq<u8>) -> Option<Seq<u8>>,
)
    requires
        e.source.source_type == SourceType::Raw,
    ensures
        reconstruct(e, blob, checks, decode) matches Ok(out) ==> out == payload_of(e, blob),
        !checks.payload_hash && !checks.output_hash && path_confined(e.name@) && payload_in_range(
            e,
            blob.len(),
        ) ==> reconstruct(e, blob, checks, decode) == Ok::<Seq<u8>, FileError>(payload_of(e, blob)),
{
}

/// A file whose source type is the reversible delta always fails with
/// `UnsupportedSourceType`, whatever the blob, the checks and the decoder.
pub proof fn lemma_reversible_fails_closed(
    e: FileEntry,
    blob: Seq<u8>,
    checks: Checks,
    decode: spec_fn(Seq<u8>) -> Option<Seq<u8>>,
)
    requires
        e.source.source_type == SourceType::ReversibleDelta,
    ensures
        plan(e, blob, checks) == Err::<(bool, Seq<u8>), FileError>(FileError::UnsupportedSourceType),
        reconstruct(e, blob, checks, decode) == Err::<Seq<u8>, FileError>(
            FileError::UnsupportedSourceType,
        ),
{
}

/// With the payload check on, changing a byte inside a file's payload range
/// so that the payload's digest changes turns an accepted payload into
/// `PayloadHashMismatch`, whatever the decoder.
pub proof fn lemma_corruption_detected(
    e: FileEntry,
    blob: Seq<u8>,
    checks: Checks,
    k: int,
    x: u8,
    decode: spec_fn(Seq<u8>) -> Option<Seq<u8>>,
)
    requires
        checks.payload_hash,
        plan(e, blob, checks) is Ok,
        e.source.offset <= k < e.source.offset + e.source.length,
        sha256_of(payload_of(e, blob.update(k, x))) != sha256_of(payload_of(e, blob)),
    ensures
        plan(e, blob.update(k, x), checks) == Err::<(bool, Seq<u8>), FileError>(
            FileError::PayloadHashMismatch,
        ),
        reconstruct(e, blob.update(k, x), checks, decode) == Err::<Seq<u8>, FileError>(
            FileError::PayloadHashMismatch,
        ),
{
    let b2 = blob.update(k, x);
    let v = e.source.hash.value@;
    if hex_denotes(v, sha256_of(payload_of(e, b2))) {
        lemma_hex_denotes_unique(v, sha256_of(payload_of(e, b2)), sha256_of(payload_of(e, blob)));
    }
}

/// For a raw file reconstructed with the output check on, changing a byte
/// inside its payload range so that the payload's digest changes makes the
/// reconstruction fail: with `PayloadHashMismatch` when that check is on
/// too, else with `OutputHashMismatch`.
pub proof fn lemma_raw_corruption_detected(
    e: FileEntry,
    blob: Seq<u8>,
    checks: Checks,
    k: int,
    x: u8,
    decode: spec_fn(Seq<u8>) -> Option<Seq<u8>>,
)
    requires
        e.source.source_type == SourceType::Raw,
        checks.output_hash,
        reconstruct(e, blob, checks, decode) is Ok,
        e.source.offset <= k < e.source.offset + e.source.length,
        sha256_of(payload_of(e, blob.update(k, x))) != sha256_of(payload_of(e, blob)),
    ensures
        reconstruct(e, blob.update(k, x), checks, decode) == Err::<Seq<u8>, FileError>(
            if checks.payload_hash {
                FileError::PayloadHashMismatch
            } else {
                FileError::OutputHashMismatch
            },
        ),
{
    let b2 = blob.update(k, x);
    if checks.payload_hash {
        lemma_corruption_detected(e, blob, checks, k, x, decode);
    } else {
        let v = e.hash.value@;
        if hex_denotes(v, sha256_of(payload_of(e, b2))) {
            lemma_hex_denotes_unique(v, sha256_of(payload_of(e, b2)), sha256_of(payload_of(e, blob)));
        }
    }
}

/// The outcomes of reconstructing `files` one by one.
pub open spec fn outcomes(
    files: Seq<FileEntry>,
    blob: Seq<u8>,
    checks: Checks,
    decode: spec_fn(Seq<u8>) -> Option<Seq<u8>>,
) -> Seq<Result<Seq<u8>, FileError>> {
    files.map_values(|f: FileEntry| reconstruct(f, blob, checks, decode))
}

/// Each file's outcome depends on its own entry and the blob alone: taking
/// the files in reverse order yields the same outcomes in reverse order.
pub proof fn lemma_order_independent(
    files: Seq<FileEntry>,
    blob: Seq<u8>,
    checks: Checks,
    decode: spec_fn(Seq<u8>) -> Option<Seq<u8>>,
)
    ensures
        outcomes(files.reverse(), blob, checks, decode) == outcomes(files, blob, checks, decode).reverse(),
{
    assert(outcomes(files.reverse(), blob, checks, decode) =~= outcomes(files, blob, checks, decode).reverse());
}

} // verus!
