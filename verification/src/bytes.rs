//! Byte-level building blocks: appending byte strings and big-endian
//! integers to an output buffer.
use vstd::prelude::*;

verus! {

/// The big-endian encoding of a 16-bit number.
pub open spec fn be16(n: u16) -> Seq<u8> {
    seq![(n / 256) as u8, (n % 256) as u8]
}

/// The big-endian encoding of a 32-bit number.
pub open spec fn be32(n: u32) -> Seq<u8> {
    seq![
        (n / 0x100_0000) as u8,
        ((n / 0x1_0000) % 256) as u8,
        ((n / 0x100) % 256) as u8,
        (n % 256) as u8,
    ]
}

/// The bytes that an optional byte string contributes: nothing when
/// it is absent.
pub open spec fn opt_bytes(o: Option<Vec<u8>>) -> Seq<u8> {
    match o {
        Some(v) => v@,
        None => Seq::empty(),
    }
}

/// Appends `data[start..end]` to `o`.
pub fn append_range(o: &mut Vec<u8>, data: &[u8], start: usize, end: usize)
    requires
        start <= end <= data@.len(),
    ensures
        final(o)@ == old(o)@ + data@.subrange(start as int, end as int),
{
    let mut i: usize = start;
    while i < end
        invariant
            start <= i <= end <= data@.len(),
            o@ == old(o)@ + data@.subrange(start as int, i as int),
        decreases end - i,
    {
        o.push(data[i]);
        assert(data@.subrange(start as int, i + 1) =~= data@.subrange(start as int, i as int).push(
            data@[i as int],
        ));
        i = i + 1;
    }
}

/// Appends all of `data` to `o`.
pub fn append_bytes(o: &mut Vec<u8>, data: &[u8])
    ensures
        final(o)@ == old(o)@ + data@,
{
    append_range(o, data, 0, data.len());
    assert(data@.subrange(0, data@.len() as int) =~= data@);
}

/// Appends one byte to `o`.
pub fn write_byte(o: &mut Vec<u8>, b: u8)
    ensures
        final(o)@ == old(o)@ + seq![b],
{
    o.push(b);
    assert(old(o)@.push(b) =~= old(o)@ + seq![b]);
}

/// Appends `n` to `o` in big-endian order.
pub fn write_be_u16(o: &mut Vec<u8>, n: u16)
    ensures
        final(o)@ == old(o)@ + be16(n),
{
    let hi: u8 = ((n >> 8) & 0xFF) as u8;
    let lo: u8 = (n & 0xFF) as u8;
    assert(((n >> 8) & 0xFF) == n / 256) by (bit_vector);
    assert((n & 0xFF) == n % 256) by (bit_vector);
    o.push(hi);
    o.push(lo);
    assert(o@ =~= old(o)@ + be16(n));
}

/// Appends `n` to `o` in big-endian order.
pub fn write_be_u32(o: &mut Vec<u8>, n: u32)
    ensures
        final(o)@ == old(o)@ + be32(n),
{
    let b0: u8 = (n >> 24) as u8;
    let b1: u8 = ((n >> 16) & 0xFF) as u8;
    let b2: u8 = ((n >> 8) & 0xFF) as u8;
    let b3: u8 = (n & 0xFF) as u8;
    assert((n >> 24) == n / 0x100_0000) by (bit_vector);
    assert(((n >> 16) & 0xFF) == (n / 0x1_0000) % 256) by (bit_vector);
    assert(((n >> 8) & 0xFF) == (n / 0x100) % 256) by (bit_vector);
    assert((n & 0xFF) == n % 256) by (bit_vector);
    o.push(b0);
    o.push(b1);
    o.push(b2);
    o.push(b3);
    assert(o@ =~= old(o)@ + be32(n));
}

} // verus!
