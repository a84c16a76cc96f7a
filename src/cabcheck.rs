//! Which cabinet archives the archive reader handles without fault: a read
//! positioned inside a data block relies on the block holding at least the
//! bytes its header declares, which only MSZIP folders check.
use vstd::prelude::*;

verus! {

pub open spec fn le16(b: Seq<u8>, i: nat) -> nat {
    b[i as int] as nat + 256 * (b[i + 1int] as nat)
}

pub open spec fn le32(b: Seq<u8>, i: nat) -> nat {
    le16(b, i) + 65536 * le16(b, (i + 2) as nat)
}

/// `n` data blocks of a stored (uncompressed) folder, the first at `off`,
/// each of whose headers lies inside `b` and declares no more bytes than
/// the block holds.
pub open spec fn stored_blocks_whole(b: Seq<u8>, off: nat, n: nat, data_reserve: nat) -> bool
    decreases n,
{
    if n == 0 {
        true
    } else {
        &&& off + 8 <= b.len()
        &&& le16(b, off + 6) <= le16(b, off + 4)
        &&& stored_blocks_whole(b, off + 8 + data_reserve + le16(b, off + 4), (n - 1) as nat, data_reserve)
    }
}

/// The folder entry at `fo` lies inside `b` and its folder is either
/// MSZIP-compressed or stored with whole data blocks.
pub open spec fn folder_readable(b: Seq<u8>, fo: nat, data_reserve: nat) -> bool {
    &&& fo + 8 <= b.len()
    &&& le16(b, fo + 6) % 16 == 1 || (le16(b, fo + 6) % 16 == 0 && stored_blocks_whole(
        b,
        le32(b, fo),
        le16(b, fo + 4),
        data_reserve,
    ))
}

/// The `n` folder entries from `fo` on, `stride` bytes apart, are readable.
pub open spec fn folders_readable(b: Seq<u8>, fo: nat, stride: nat, data_reserve: nat, n: nat) -> bool
    decreases n,
{
    if n == 0 {
        true
    } else {
        folder_readable(b, fo, data_reserve) && folders_readable(
            b,
            fo + stride,
            stride,
            data_reserve,
            (n - 1) as nat,
        )
    }
}

/// `b` is an archive that is not part of a spanned set and all of whose
/// folders are readable (see `folder_readable`).
pub open spec fn cab_reads_safely(b: Seq<u8>) -> bool {
    &&& b.len() >= 36
    &&& le16(b, 30) % 4 == 0
    &&& if (le16(b, 30) / 4) % 2 == 1 {
        &&& b.len() >= 40
        &&& folders_readable(b, 40 + le16(b, 36), 8 + b[38] as nat, b[39] as nat, le16(b, 26))
    } else {
        folders_readable(b, 36, 8, 0, le16(b, 26))
    }
}

fn read16(b: &[u8], i: u128) -> (r: u128)
    requires
        i + 1 < b@.len(),
        b@.len() <= usize::MAX,
    ensures
        r == le16(b@, i as nat),
{
    b[i as usize] as u128 + 256 * (b[(i + 1) as usize] as u128)
}

fn read32(b: &[u8], i: u128) -> (r: u128)
    requires
        i + 3 < b@.len(),
        b@.len() <= usize::MAX,
    ensures
        r == le32(b@, i as nat),
{
    read16(b, i) + 65536 * read16(b, i + 2)
}

fn stored_blocks_ok(b: &[u8], off: u128, n: u128, data_reserve: u128) -> (r: bool)
    requires
        b@.len() <= usize::MAX,
        off < 0x1_0000_0000,
        n < 0x1_0000,
        data_reserve < 0x100,
    ensures
        r == stored_blocks_whole(b@, off as nat, n as nat, data_reserve as nat),
{
    let len = b.len() as u128;
    let mut o = off;
    let mut k = n;
    while k > 0
        invariant
            len == b@.len(),
            len <= usize::MAX,
            o < len + 0x2_0000 || o < 0x1_0000_0000,
            data_reserve < 0x100,
            stored_blocks_whole(b@, off as nat, n as nat, data_reserve as nat) == stored_blocks_whole(
                b@,
                o as nat,
                k as nat,
                data_reserve as nat,
            ),
        decreases k,
    {
        if o + 8 > len {
            return false;
        }
        let cs = read16(b, o + 4);
        if read16(b, o + 6) > cs {
            return false;
        }
        o = o + 8 + data_reserve + cs;
        k = k - 1;
    }
    true
}

/// Whether the archive `b` is one the archive reader handles without fault
/// (see `cab_reads_safely`).
pub fn cab_safe(b: &[u8]) -> (r: bool)
    ensures
        r == cab_reads_safely(b@),
{
    let len = b.len() as u128;
    if len < 36 {
        return false;
    }
    let flags = read16(b, 30);
    if flags % 4 != 0 {
        return false;
    }
    let (mut fo, stride, data_reserve) = if (flags / 4) % 2 == 1 {
        if len < 40 {
            return false;
        }
        (40 + read16(b, 36), 8 + b[38] as u128, b[39] as u128)
    } else {
        (36u128, 8u128, 0u128)
    };
    let n = read16(b, 26);
    let mut k = n;
    while k > 0
        invariant
            len == b@.len(),
            len <= usize::MAX,
            stride < 0x200,
            data_reserve < 0x100,
            k <= n,
            n < 0x1_0000,
            fo <= len + 0x200 || fo <= 0x1_0000 + 40,
            cab_reads_safely(b@) == folders_readable(
                b@,
                fo as nat,
                stride as nat,
                data_reserve as nat,
                k as nat,
            ),
        decreases k,
    {
        if fo + 8 > len {
            return false;
        }
        let ct = read16(b, fo + 6) % 16;
        if ct == 0 {
            if !stored_blocks_ok(b, read32(b, fo), read16(b, fo + 4), data_reserve) {
                return false;
            }
        } else if ct != 1 {
            return false;
        }
        assert(folder_readable(b@, fo as nat, data_reserve as nat));
        fo = fo + stride;
        k = k - 1;
    }
    true
}

} // verus!
