//! Byte-level helpers: big-endian integers, appending, and hash comparison.

use vstd::prelude::*;

verus! {

/// The eight bytes of `x`, most significant first.
pub open spec fn be_bytes(x: u64) -> Seq<u8> {
    seq![
        (x / 0x100_0000_0000_0000) as u8,
        (x / 0x1_0000_0000_0000 % 256) as u8,
        (x / 0x100_0000_0000 % 256) as u8,
        (x / 0x1_0000_0000 % 256) as u8,
        (x / 0x100_0000 % 256) as u8,
        (x / 0x1_0000 % 256) as u8,
        (x / 0x100 % 256) as u8,
        (x % 256) as u8,
    ]
}

/// Appends the big-endian bytes of `x` to `buf`.
pub fn push_be_bytes(buf: &mut Vec<u8>, x: u64)
    ensures
        final(buf)@ == old(buf)@ + be_bytes(x),
{
    buf.push((x / 0x100_0000_0000_0000) as u8);
    buf.push((x / 0x1_0000_0000_0000 % 256) as u8);
    buf.push((x / 0x100_0000_0000 % 256) as u8);
    buf.push((x / 0x1_0000_0000 % 256) as u8);
    buf.push((x / 0x100_0000 % 256) as u8);
    buf.push((x / 0x1_0000 % 256) as u8);
    buf.push((x / 0x100 % 256) as u8);
    buf.push((x % 256) as u8);
    assert(buf@ =~= old(buf)@ + be_bytes(x));
}

/// Appends `bytes` to `buf`.
pub fn push_bytes(buf: &mut Vec<u8>, bytes: &[u8])
    ensures
        final(buf)@ == old(buf)@ + bytes@,
{
    let mut i: usize = 0;
    while i < bytes.len()
        invariant
            i <= bytes@.len(),
            buf@ == old(buf)@ + bytes@.take(i as int),
        decreases bytes@.len() - i,
    {
        buf.push(bytes[i]);
        assert(bytes@.take(i + 1) =~= bytes@.take(i as int).push(bytes@[i as int]));
        i += 1;
        assert(buf@ =~= old(buf)@ + bytes@.take(i as int));
    }
    assert(bytes@.take(i as int) =~= bytes@);
}

/// Whether two digests hold the same bytes.
pub fn same_hash(a: &[u8; 32], b: &[u8; 32]) -> (same: bool)
    ensures
        same == (a@ == b@),
{
    let mut i: usize = 0;
    while i < 32
        invariant
            i <= 32,
            forall|k: int| 0 <= k < i ==> a@[k] == b@[k],
        decreases 32 - i,
    {
        if a[i] != b[i] {
            return false;
        }
        i += 1;
    }
    assert(a@ =~= b@);
    true
}

} // verus!
