//! Numbers as bytes.

use vstd::prelude::*;

verus! {

/// The number of a sequence of bytes, lowest byte first.
pub open spec fn le_num(s: Seq<u8>) -> nat
    decreases s.len(),
{
    if s.len() == 0 {
        0
    } else {
        (s[0] + 256 * le_num(s.drop_first())) as nat
    }
}

/// The number of a sequence of bytes, highest byte first.
pub open spec fn be_num(s: Seq<u8>) -> nat
    decreases s.len(),
{
    if s.len() == 0 {
        0
    } else {
        (be_num(s.drop_last()) * 256 + s.last()) as nat
    }
}

/// The `n` lowest bytes of a number, lowest byte first.
pub open spec fn le_bytes(v: nat, n: nat) -> Seq<u8>
    decreases n,
{
    if n == 0 {
        Seq::empty()
    } else {
        seq![(v % 256) as u8] + le_bytes(v / 256, (n - 1) as nat)
    }
}

/// 256 to a power.
pub open spec fn pow256(n: nat) -> nat
    decreases n,
{
    if n == 0 {
        1
    } else {
        256 * pow256((n - 1) as nat)
    }
}

/// A number that fits is read back from its bytes.
pub proof fn bytes_roundtrip(v: nat, n: nat)
    requires
        v < pow256(n),
    ensures
        le_bytes(v, n).len() == n,
        le_num(le_bytes(v, n)) == v,
    decreases n,
{
    if n > 0 {
        bytes_roundtrip(v / 256, (n - 1) as nat);
        let s = le_bytes(v, n);
        assert(s.drop_first() =~= le_bytes(v / 256, (n - 1) as nat));
    }
}

/// The numbers of two and of eight bytes.
pub proof fn byte_limits()
    ensures
        pow256(2) == 0x1_0000,
        pow256(8) == 0x1_0000_0000_0000_0000,
{
    reveal_with_fuel(pow256, 9);
}

/// A number of `n` bytes is below 256 to that power.
proof fn le_num_bound(s: Seq<u8>)
    ensures
        le_num(s) < pow256(s.len()),
    decreases s.len(),
{
    if s.len() > 0 {
        le_num_bound(s.drop_first());
    }
}

pub(crate) proof fn be_num_bound(s: Seq<u8>)
    ensures
        be_num(s) < pow256(s.len()),
    decreases s.len(),
{
    if s.len() > 0 {
        be_num_bound(s.drop_last());
    }
}

pub fn read_le(d: &[u8], off: usize, n: usize) -> (v: u64)
    requires
        n <= 8,
        off + n <= d@.len(),
    ensures
        v == le_num(d@.subrange(off as int, off + n)),
{
    let len: usize = d.len();
    let mut v: u64 = 0;
    let mut i: usize = n;
    let ghost end = off + n;
    assert(d@.subrange(end, end) =~= Seq::empty());
    while i > 0
        invariant
            n <= 8,
            i <= n,
            off + n <= len,
            len == d@.len(),
            end == off + n,
            v == le_num(d@.subrange(off + i, end)),
        decreases i,
    {
        let ghost s = d@.subrange(off + i - 1, end);
        proof {
            assert(s.drop_first() =~= d@.subrange(off + i, end));
            le_num_bound(s);
            le_num_bound(s.drop_first());
            reveal_with_fuel(pow256, 9);
        }
        i = i - 1;
        v = v * 256 + d[off + i] as u64;
    }
    v
}

pub fn read_be(d: &[u8], off: usize, n: usize) -> (v: u64)
    requires
        n <= 8,
        off + n <= d@.len(),
    ensures
        v == be_num(d@.subrange(off as int, off + n)),
{
    let len: usize = d.len();
    let mut v: u64 = 0;
    let mut i: usize = 0;
    assert(d@.subrange(off as int, off as int) =~= Seq::empty());
    while i < n
        invariant
            n <= 8,
            i <= n,
            off + n <= len,
            len == d@.len(),
            v == be_num(d@.subrange(off as int, off + i)),
        decreases n - i,
    {
        let ghost s = d@.subrange(off as int, off + i + 1);
        proof {
            assert(s.drop_last() =~= d@.subrange(off as int, off + i));
            be_num_bound(s);
            be_num_bound(s.drop_last());
            reveal_with_fuel(pow256, 9);
        }
        v = v * 256 + d[off + i] as u64;
        i = i + 1;
    }
    v
}

/// Appends the `n` lowest bytes of a number, lowest first.
pub fn push_le(out: &mut Vec<u8>, v: u64, n: usize)
    ensures
        final(out)@ == old(out)@ + le_bytes(v as nat, n as nat),
    decreases n,
{
    if n == 0 {
        assert(out@ =~= old(out)@ + le_bytes(v as nat, 0));
        return ;
    }
    out.push((v % 256) as u8);
    let ghost mid = out@;
    push_le(out, v / 256, n - 1);
    assert(out@ =~= old(out)@ + le_bytes(v as nat, n as nat));
}

/// The signed number with the bits of an unsigned one.
pub open spec fn signed16(v: int) -> int {
    if v >= 32768 {
        v - 65536
    } else {
        v
    }
}

/// The unsigned number with the bits of a signed one.
pub open spec fn unsigned16(v: int) -> int {
    if v < 0 {
        v + 65536
    } else {
        v
    }
}

pub fn to_signed16(v: u64) -> (s: i16)
    requires
        v < 65536,
    ensures
        s == signed16(v as int),
{
    if v >= 32768 {
        (v as i64 - 65536) as i16
    } else {
        v as i16
    }
}

pub fn to_unsigned16(v: i16) -> (u: u64)
    ensures
        u == unsigned16(v as int),
        u < 65536,
{
    if v < 0 {
        (v as i64 + 65536) as u64
    } else {
        v as u64
    }
}

/// A number of two bytes.
pub fn read_le16(d: &[u8], off: usize) -> (v: u16)
    requires
        off + 2 <= d@.len(),
    ensures
        v == le_num(d@.subrange(off as int, off + 2)),
{
    proof {
        le_num_bound(d@.subrange(off as int, off + 2));
        byte_limits();
    }
    read_le(d, off, 2) as u16
}

/// A signed number of two bytes.
pub fn read_le_i16(d: &[u8], off: usize) -> (v: i16)
    requires
        off + 2 <= d@.len(),
    ensures
        v == signed16(le_num(d@.subrange(off as int, off + 2)) as int),
{
    to_signed16(read_le16(d, off) as u64)
}

/// A number of two bytes, highest first.
pub fn read_be16(d: &[u8], off: usize) -> (v: u16)
    requires
        off + 2 <= d@.len(),
    ensures
        v == be_num(d@.subrange(off as int, off + 2)),
{
    proof {
        be_num_bound(d@.subrange(off as int, off + 2));
        byte_limits();
    }
    read_be(d, off, 2) as u16
}

} // verus!
