//! Content hashes: computing a digest and comparing it with the
//! hexadecimal value a manifest declares.
use vstd::prelude::*;
use crate::manifest::HashValue;
use crate::text::chars_of;

verus! {

/// The SHA-256 digest of `data`.
pub uninterp spec fn sha256_of(data: Seq<u8>) -> Seq<u8>;

/// Relies on sha2::Sha256::digest: the SHA-256 digest of the input bytes.
#[verifier::external_body]
fn sha256(data: &[u8]) -> (r: Vec<u8>)
    ensures
        r@ == sha256_of(data@),
{
    <sha2::Sha256 as sha2::Digest>::digest(data).to_vec()
}

/// The value of a hexadecimal digit, either case.
pub open spec fn hex_value(c: char) -> Option<nat> {
    if '0' <= c && c <= '9' {
        Some((c as nat - '0' as nat) as nat)
    } else if 'a' <= c && c <= 'f' {
        Some((c as nat - 'a' as nat + 10) as nat)
    } else if 'A' <= c && c <= 'F' {
        Some((c as nat - 'A' as nat + 10) as nat)
    } else {
        None
    }
}

/// The byte that the digit pair `hi`, `lo` spells.
pub open spec fn hex_pair(hi: char, lo: char) -> Option<nat> {
    match (hex_value(hi), hex_value(lo)) {
        (Some(h), Some(l)) => Some(h * 16 + l),
        _ => None,
    }
}

/// `text` spells `bytes` in hexadecimal, two digits per byte, high digit first.
pub open spec fn hex_denotes(text: Seq<char>, bytes: Seq<u8>) -> bool {
    &&& text.len() == 2 * bytes.len()
    &&& forall|i: int|
        0 <= i < bytes.len() ==> hex_pair(text[2 * i], text[2 * i + 1]) == Some(
            #[trigger] bytes[i] as nat,
        )
}

/// The algorithm names accepted for SHA-256.
pub open spec fn is_sha256_name(alg: Seq<char>) -> bool {
    alg == seq!['S', 'H', 'A', '2', '5', '6'] || alg == seq!['s', 'h', 'a', '2', '5', '6']
}

/// Whether `data` matches the hash `h`; `None` when its algorithm is not supported.
pub open spec fn hash_verdict(h: HashValue, data: Seq<u8>) -> Option<bool> {
    if is_sha256_name(h.alg@) {
        Some(hex_denotes(h.value@, sha256_of(data)))
    } else {
        None
    }
}

/// Two hexadecimal spellings of digests that agree denote the same digest.
pub proof fn lemma_hex_denotes_unique(text: Seq<char>, a: Seq<u8>, b: Seq<u8>)
    requires
        hex_denotes(text, a),
        hex_denotes(text, b),
    ensures
        a == b,
{
    assert(a.len() == b.len());
    assert forall|i: int| 0 <= i < a.len() implies a[i] == b[i] by {
        assert(hex_pair(text[2 * i], text[2 * i + 1]) == Some(a[i] as nat));
        assert(hex_pair(text[2 * i], text[2 * i + 1]) == Some(b[i] as nat));
    }
    assert(a =~= b);
}

fn hex_digit(c: char) -> (r: Option<u32>)
    ensures
        r matches Some(v) ==> hex_value(c) == Some(v as nat) && v < 16,
        r is None ==> hex_value(c) is None,
{
    if '0' <= c && c <= '9' {
        Some(c as u32 - '0' as u32)
    } else if 'a' <= c && c <= 'f' {
        Some(c as u32 - 'a' as u32 + 10)
    } else if 'A' <= c && c <= 'F' {
        Some(c as u32 - 'A' as u32 + 10)
    } else {
        None
    }
}

/// Whether the hexadecimal text `value` spells `digest`.
pub fn digest_matches(value: &str, digest: &[u8]) -> (r: bool)
    ensures
        r == hex_denotes(value@, digest@),
{
    let cs = chars_of(value);
    if cs.len() as u128 != 2 * (digest.len() as u128) {
        return false;
    }
    let n = cs.len();
    let mut i: usize = 0;
    while i < digest.len()
        invariant
            i <= digest@.len(),
            n == cs@.len(),
            cs@ == value@,
            cs@.len() == 2 * digest@.len(),
            forall|j: int|
                0 <= j < i ==> hex_pair(cs@[2 * j], cs@[2 * j + 1]) == Some(
                    #[trigger] digest@[j] as nat,
                ),
        decreases digest@.len() - i,
    {
        assert(2 * i + 1 < cs@.len());
        let hi = hex_digit(cs[2 * i]);
        let lo = hex_digit(cs[2 * i + 1]);
        match (hi, lo) {
            (Some(h), Some(l)) => {
                assert(hex_pair(cs@[2 * i], cs@[2 * i + 1]) == Some((h * 16 + l) as nat));
                if digest[i] as u32 != h * 16 + l {
                    assert(hex_pair(cs@[2 * i], cs@[2 * i + 1]) != Some(digest@[i as int] as nat));
                    assert(!hex_denotes(value@, digest@)) by {
                        if hex_denotes(value@, digest@) {
                            let k = i as int;
                            assert(hex_pair(value@[2 * k], value@[2 * k + 1]) == Some(
                                digest@[k] as nat,
                            ));
                        }
                    }
                    return false;
                }
            },
            _ => {
                assert(hex_pair(cs@[2 * i], cs@[2 * i + 1]) is None);
                assert(!hex_denotes(value@, digest@)) by {
                    if hex_denotes(value@, digest@) {
                        let k = i as int;
                        assert(hex_pair(value@[2 * k], value@[2 * k + 1]) == Some(
                            digest@[k] as nat,
                        ));
                    }
                }
                return false;
            },
        }
        i = i + 1;
    }
    true
}

/// Checks `data` against the hash `h`: `None` when the algorithm is not
/// supported, else whether the digest of `data` is the declared value.
pub fn check_hash(h: &HashValue, data: &[u8]) -> (r: Option<bool>)
    ensures
        r == hash_verdict(*h, data@),
{
    let alg = chars_of(h.alg.as_str());
    let upper = ['S', 'H', 'A', '2', '5', '6'];
    let lower = ['s', 'h', 'a', '2', '5', '6'];
    assert(upper@ =~= seq!['S', 'H', 'A', '2', '5', '6']);
    assert(lower@ =~= seq!['s', 'h', 'a', '2', '5', '6']);
    if crate::text::same_chars(alg.as_slice(), upper.as_slice()) || crate::text::same_chars(
        alg.as_slice(),
        lower.as_slice(),
    ) {
        let d = sha256(data);
        Some(digest_matches(h.value.as_str(), d.as_slice()))
    } else {
        None
    }
}

} // verus!
