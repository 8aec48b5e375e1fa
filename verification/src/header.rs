//! Packet headers: packet tags, cipher type bytes (CTBs) in the new and
//! the old format, body length encodings, and the partial body framing
//! used for streamed packet bodies.
use vstd::prelude::*;
use crate::bytes::{append_range, be16, be32, write_be_u16, write_be_u32, write_byte};
use vstd::arithmetic::power2::pow2;

verus! {

/// The type of an OpenPGP packet.
#[derive(PartialEq, Eq, Structural, Clone, Copy, Debug)]
pub enum Tag {
    Reserved,
    PKESK,
    Signature,
    SKESK,
    OnePassSig,
    SecretKey,
    PublicKey,
    SecretSubkey,
    CompressedData,
    SED,
    Marker,
    Literal,
    Trust,
    UserID,
    PublicSubkey,
    UserAttribute,
    SEIP,
    MDC,
    /// A tag from the private range; the number is given.
    Private(u8),
    /// A tag that is not assigned; the number is given.
    Unknown(u8),
}

impl Tag {
    /// The tag's number on the wire.
    pub open spec fn spec_numeric(self) -> u8 {
        match self {
            Tag::Reserved => 0,
            Tag::PKESK => 1,
            Tag::Signature => 2,
            Tag::SKESK => 3,
            Tag::OnePassSig => 4,
            Tag::SecretKey => 5,
            Tag::PublicKey => 6,
            Tag::SecretSubkey => 7,
            Tag::CompressedData => 8,
            Tag::SED => 9,
            Tag::Marker => 10,
            Tag::Literal => 11,
            Tag::Trust => 12,
            Tag::UserID => 13,
            Tag::PublicSubkey => 14,
            Tag::UserAttribute => 17,
            Tag::SEIP => 18,
            Tag::MDC => 19,
            Tag::Private(n) => n,
            Tag::Unknown(n) => n,
        }
    }

    /// Returns the tag's number on the wire.
    pub fn to_numeric(self) -> (n: u8)
        ensures
            n == self.spec_numeric(),
    {
        match self {
            Tag::Reserved => 0,
            Tag::PKESK => 1,
            Tag::Signature => 2,
            Tag::SKESK => 3,
            Tag::OnePassSig => 4,
            Tag::SecretKey => 5,
            Tag::PublicKey => 6,
            Tag::SecretSubkey => 7,
            Tag::CompressedData => 8,
            Tag::SED => 9,
            Tag::Marker => 10,
            Tag::Literal => 11,
            Tag::Trust => 12,
            Tag::UserID => 13,
            Tag::PublicSubkey => 14,
            Tag::UserAttribute => 17,
            Tag::SEIP => 18,
            Tag::MDC => 19,
            Tag::Private(n) => n,
            Tag::Unknown(n) => n,
        }
    }
}

/// The length of a packet body, as a packet header states it.
#[derive(PartialEq, Eq, Structural, Clone, Copy, Debug)]
pub enum BodyLength {
    /// The body has the given length.
    Full(u32),
    /// The body is split into chunks; this chunk has the given length.
    Partial(u32),
    /// The body extends to the end of the input (old format only).
    Indeterminate,
}

/// The new format encoding of a full body length (RFC 4880, 4.2.2):
/// one octet up to 191, two octets below 8383, else 0xFF and four
/// octets.
pub open spec fn new_format_length(l: u32) -> Seq<u8> {
    if l <= 191 {
        seq![l as u8]
    } else if l < 8383 {
        be16((l - 192 + 0xC000) as u16)
    } else {
        seq![0xFFu8] + be32(l)
    }
}

/// The old format encoding of a body length: one, two or four octets
/// for a full length, none for an indeterminate one.
pub open spec fn old_format_length(l: BodyLength) -> Seq<u8> {
    match l {
        BodyLength::Full(n) => if n <= 0xFF {
            seq![n as u8]
        } else if n <= 0xFFFF {
            be16(n as u16)
        } else {
            be32(n)
        },
        _ => Seq::empty(),
    }
}

/// The number of octets of the new format encoding of `l`.
pub open spec fn new_format_length_size(l: u32) -> nat {
    if l <= 191 {
        1
    } else if l < 8383 {
        2
    } else {
        5
    }
}

/// Returns a new format body length header appropriate for the given
/// body length.
///
/// Note: the returned byte stream does not include a ctb header.
pub fn body_length_new_format(l: BodyLength) -> (buffer: Vec<u8>)
    requires
        l is Full,
    ensures
        buffer@ == new_format_length(l->Full_0),
{
    let mut buffer: Vec<u8> = Vec::with_capacity(5);
    match l {
        BodyLength::Full(l) => {
            if l <= 191 {
                write_byte(&mut buffer, l as u8);
            } else if l < 8383 {
                let v: u32 = l - 192;
                assert((192u32 << 8u32) == 0xC000) by (bit_vector);
                let v: u32 = v + (192 << 8);
                write_be_u16(&mut buffer, v as u16);
            } else {
                write_byte(&mut buffer, 0xFF);
                write_be_u32(&mut buffer, l);
            }
        },
        _ => {},
    }
    assert(buffer@ =~= new_format_length(l->Full_0));
    buffer
}

/// Returns the number of octets `body_length_new_format` produces for a
/// full body length of `l`.
pub fn new_format_length_len(l: u32) -> (n: usize)
    ensures
        n == new_format_length_size(l),
        n == new_format_length(l).len(),
{
    if l <= 191 {
        1
    } else if l < 8383 {
        2
    } else {
        5
    }
}

/// Returns an old format body length header appropriate for the given
/// body length.
///
/// Note: the returned byte stream does not include a ctb header.
pub fn body_length_old_format(l: BodyLength) -> (buffer: Vec<u8>)
    requires
        !(l is Partial),
    ensures
        buffer@ == old_format_length(l),
{
    let mut buffer: Vec<u8> = Vec::with_capacity(4);
    match l {
        BodyLength::Full(l) => {
            if l <= 0xFF {
                write_byte(&mut buffer, l as u8);
            } else if l <= 0xFFFF {
                write_be_u16(&mut buffer, l as u16);
            } else {
                write_be_u32(&mut buffer, l);
            }
        },
        _ => {},
    }
    assert(buffer@ =~= old_format_length(l));
    buffer
}

/// The number of octets of the old format encoding of a full length.
pub open spec fn old_format_length_size(n: u32) -> nat {
    if n <= 0xFF {
        1
    } else if n <= 0xFFFF {
        2
    } else {
        4
    }
}

/// Returns the number of octets `body_length_old_format` produces for a
/// full body length of `n`.
pub fn old_format_length_len(n: u32) -> (r: usize)
    ensures
        r == old_format_length_size(n),
        r == old_format_length(BodyLength::Full(n)).len(),
{
    if n <= 0xFF {
        1
    } else if n <= 0xFFFF {
        2
    } else {
        4
    }
}

/// The new format CTB for a tag.
pub open spec fn spec_ctb_new(tag: Tag) -> u8 {
    0b1100_0000u8 | tag.spec_numeric()
}

/// Returns a new format CTB.
pub fn ctb_new(tag: Tag) -> (ctb: u8)
    ensures
        ctb == spec_ctb_new(tag),
{
    0b1100_0000u8 | Tag::to_numeric(tag)
}

/// The length type of an old format CTB: 0, 1 and 2 for one, two and
/// four octet lengths, 3 for an indeterminate length.
pub open spec fn old_length_type(l: BodyLength) -> u8 {
    match l {
        BodyLength::Full(n) => if n <= 0xFF {
            0
        } else if n <= 0xFFFF {
            1
        } else {
            2
        },
        _ => 3,
    }
}

/// The old format CTB for a tag and a body length.
pub open spec fn spec_ctb_old(tag: Tag, l: BodyLength) -> u8 {
    0b1000_0000u8 | (tag.spec_numeric() << 2u8) | old_length_type(l)
}

/// Returns an old format CTB.
///
/// Only tags 0 to 15 have one, and partial body lengths are not
/// possible in the old format.
pub fn ctb_old(tag: Tag, l: BodyLength) -> (ctb: u8)
    requires
        tag.spec_numeric() < 16,
        !(l is Partial),
    ensures
        ctb == spec_ctb_old(tag, l),
{
    let len_encoding: u8 = match l {
        BodyLength::Full(l) => {
            if l <= 0xFF {
                0
            } else if l <= 0xFFFF {
                1
            } else {
                2
            }
        },
        _ => 3,
    };
    let tag: u8 = Tag::to_numeric(tag);
    0b1000_0000u8 | (tag << 2u8) | len_encoding
}


/// The size of the chunks into which a long streamed body is split, and
/// the largest body written with a single full length header (4 MiB).
pub const PARTIAL_CHUNK_SIZE: usize = 4194304;

/// The new format length octet of a partial chunk of
/// `PARTIAL_CHUNK_SIZE` octets: 224 plus the chunk size's binary
/// logarithm (22).
pub const PARTIAL_CHUNK_HEADER: u8 = 246;

/// The framing of a streamed packet body: as long as more than
/// `PARTIAL_CHUNK_SIZE` octets remain, a partial chunk of that size;
/// then the rest under a full length header, which RFC 4880 requires
/// to end the body (even if it is empty).
pub open spec fn partial_frame(d: Seq<u8>) -> Seq<u8>
    decreases d.len(),
{
    if d.len() <= PARTIAL_CHUNK_SIZE {
        new_format_length(d.len() as u32) + d
    } else {
        seq![PARTIAL_CHUNK_HEADER] + d.take(PARTIAL_CHUNK_SIZE as int) + partial_frame(
            d.skip(PARTIAL_CHUNK_SIZE as int),
        )
    }
}

/// Appends the framed body `data` to `o`, splitting it into partial
/// chunks where it is long.
pub fn write_partial_body(o: &mut Vec<u8>, data: &[u8])
    ensures
        final(o)@ == old(o)@ + partial_frame(data@),
{
    let mut pos: usize = 0;
    assert(data@.skip(0) =~= data@);
    while data.len() - pos > PARTIAL_CHUNK_SIZE
        invariant
            pos <= data@.len(),
            o@ + partial_frame(data@.skip(pos as int)) == old(o)@ + partial_frame(data@),
        decreases data@.len() - pos,
    {
        let ghost rest = data@.skip(pos as int);
        write_byte(o, PARTIAL_CHUNK_HEADER);
        append_range(o, data, pos, pos + PARTIAL_CHUNK_SIZE);
        assert(rest.take(PARTIAL_CHUNK_SIZE as int) =~= data@.subrange(
            pos as int,
            pos + PARTIAL_CHUNK_SIZE,
        ));
        assert(rest.skip(PARTIAL_CHUNK_SIZE as int) =~= data@.skip(pos + PARTIAL_CHUNK_SIZE));
        pos = pos + PARTIAL_CHUNK_SIZE;
    }
    let rest_len: usize = data.len() - pos;
    let header: Vec<u8> = body_length_new_format(BodyLength::Full(rest_len as u32));
    append_range(o, header.as_slice(), 0, header.len());
    assert(header@.subrange(0, header@.len() as int) =~= header@);
    append_range(o, data, pos, data.len());
    assert(data@.subrange(pos as int, data@.len() as int) =~= data@.skip(pos as int));
    assert(o@ =~= old(o)@ + partial_frame(data@));
}

/// The value of a big-endian four octet number.
pub open spec fn be32_value(b0: u8, b1: u8, b2: u8, b3: u8) -> int {
    b0 * 0x100_0000 + b1 * 0x1_0000 + b2 * 0x100 + b3
}

/// Reads a new format body length from the front of `b` (RFC 4880,
/// 4.2.2): the length and the number of octets it took.
pub open spec fn decode_new_format_length(b: Seq<u8>) -> Option<(BodyLength, nat)> {
    if b.len() >= 1 && b[0] < 192 {
        Some((BodyLength::Full(b[0] as u32), 1))
    } else if b.len() >= 2 && 192 <= b[0] < 224 {
        Some((BodyLength::Full(((b[0] - 192) * 256 + b[1] + 192) as u32), 2))
    } else if b.len() >= 1 && 224 <= b[0] < 255 {
        Some((BodyLength::Partial(pow2((b[0] - 224) as nat) as u32), 1))
    } else if b.len() >= 5 && b[0] == 255 {
        Some((BodyLength::Full(be32_value(b[1], b[2], b[3], b[4]) as u32), 5))
    } else {
        None
    }
}

/// Reads a framed body from the front of `b`: the partial chunks and
/// the final chunk, concatenated.
pub open spec fn unframe(b: Seq<u8>) -> Seq<u8>
    decreases b.len(),
{
    match decode_new_format_length(b) {
        Some((BodyLength::Full(n), h)) => if h + n <= b.len() {
            b.subrange(h as int, h + n)
        } else {
            Seq::empty()
        },
        Some((BodyLength::Partial(n), h)) => if h + n <= b.len() {
            b.subrange(h as int, h + n) + unframe(b.skip(h + n))
        } else {
            Seq::empty()
        },
        _ => Seq::empty(),
    }
}

proof fn lemma_be32_value(n: u32)
    ensures
        be32_value(be32(n)[0], be32(n)[1], be32(n)[2], be32(n)[3]) == n,
{
    let b = be32(n);
    assert(b[0] * 0x100_0000 + b[1] * 0x1_0000 + b[2] * 0x100 + b[3] == n) by (nonlinear_arith)
        requires
            b[0] == n / 0x100_0000,
            b[1] == (n / 0x1_0000) % 256,
            b[2] == (n / 0x100) % 256,
            b[3] == n % 256,
            0 <= n < 0x1_0000_0000,
    ;
}

/// The new format length header encodes the length it is given: read
/// back from the front of any byte string that starts with it, it gives
/// that length and its own size.
pub proof fn lemma_new_format_length_decodes(l: u32, rest: Seq<u8>)
    ensures
        decode_new_format_length(new_format_length(l) + rest) == Some(
            (BodyLength::Full(l), new_format_length_size(l)),
        ),
{
    let b = new_format_length(l) + rest;
    if l <= 191 {
    } else if l < 8383 {
        let v: u16 = (l - 192 + 0xC000) as u16;
        assert(b[0] == v / 256);
        assert(b[1] == v % 256);
        assert((b[0] - 192) * 256 + b[1] + 192 == l);
    } else {
        lemma_be32_value(l);
        assert(b[1] == be32(l)[0]);
        assert(b[2] == be32(l)[1]);
        assert(b[3] == be32(l)[2]);
        assert(b[4] == be32(l)[3]);
    }
}

/// The partial chunk size is a power of two: 2 to the 22nd.
pub proof fn lemma_pow2_chunk()
    ensures
        pow2(22) == PARTIAL_CHUNK_SIZE,
{
    vstd::arithmetic::power2::lemma2_to64();
}

/// The partial body framing loses nothing: reading the chunks back
/// gives the body that was framed.
pub proof fn lemma_partial_frame_unframes(d: Seq<u8>)
    requires
        d.len() <= u32::MAX,
    ensures
        unframe(partial_frame(d)) == d,
    decreases d.len(),
{
    let f = partial_frame(d);
    if d.len() <= PARTIAL_CHUNK_SIZE {
        lemma_new_format_length_decodes(d.len() as u32, d);
        let h = new_format_length_size(d.len() as u32);
        assert(new_format_length(d.len() as u32).len() == h);
        assert(f.subrange(h as int, (h + d.len()) as int) =~= d);
    } else {
        let rest = d.skip(PARTIAL_CHUNK_SIZE as int);
        lemma_partial_frame_unframes(rest);
        lemma_pow2_chunk();
        assert(f[0] == PARTIAL_CHUNK_HEADER);
        assert(decode_new_format_length(f) == Some(
            (BodyLength::Partial(PARTIAL_CHUNK_SIZE as u32), 1nat),
        ));
        assert(f.subrange(1, 1 + PARTIAL_CHUNK_SIZE) =~= d.take(PARTIAL_CHUNK_SIZE as int));
        assert(f.skip(1 + PARTIAL_CHUNK_SIZE) =~= partial_frame(rest));
        assert(d.take(PARTIAL_CHUNK_SIZE as int) + rest =~= d);
    }
}

/// A new format CTB carries the marker bits 11 and, for tags below 64,
/// the tag's number.
pub proof fn lemma_ctb_new_fields(tag: Tag)
    requires
        tag.spec_numeric() < 64,
    ensures
        spec_ctb_new(tag) & 0xC0 == 0xC0,
        spec_ctb_new(tag) & 0x3F == tag.spec_numeric(),
{
    let n = tag.spec_numeric();
    assert((0xC0u8 | n) & 0xC0 == 0xC0) by (bit_vector);
    assert(n < 64 ==> (0xC0u8 | n) & 0x3F == n) by (bit_vector);
}

/// An old format CTB carries the marker bits 10, the tag's number in
/// bits 2 to 5, and the length type in bits 0 and 1; the length type
/// says how many length octets follow.
pub proof fn lemma_ctb_old_fields(tag: Tag, l: BodyLength)
    requires
        tag.spec_numeric() < 16,
        !(l is Partial),
    ensures
        spec_ctb_old(tag, l) & 0xC0 == 0x80,
        (spec_ctb_old(tag, l) >> 2u8) & 0x0F == tag.spec_numeric(),
        spec_ctb_old(tag, l) & 0x03 == old_length_type(l),
        old_format_length(l).len() == (if old_length_type(l) == 0 {
            1nat
        } else if old_length_type(l) == 1 {
            2
        } else if old_length_type(l) == 2 {
            4
        } else {
            0
        }),
{
    let n = tag.spec_numeric();
    let t = old_length_type(l);
    assert(t <= 3);
    assert(n < 16 && t <= 3 ==> (0x80u8 | (n << 2u8) | t) & 0xC0 == 0x80) by (bit_vector);
    assert(n < 16 && t <= 3 ==> ((0x80u8 | (n << 2u8) | t) >> 2u8) & 0x0F == n) by (bit_vector);
    assert(n < 16 && t <= 3 ==> (0x80u8 | (n << 2u8) | t) & 0x03 == t) by (bit_vector);
}


/// The size of the new format length header is its length.
pub proof fn lemma_new_format_length_size(l: u32)
    ensures
        new_format_length(l).len() == new_format_length_size(l),
{
}


/// Reads an old format body length of length type `t` from the front of
/// `b` (RFC 4880, 4.2.1): the length and the number of octets it took;
/// type 3 is an indeterminate length and takes none.
pub open spec fn decode_old_format_length(t: u8, b: Seq<u8>) -> Option<(BodyLength, nat)> {
    if t == 0 && b.len() >= 1 {
        Some((BodyLength::Full(b[0] as u32), 1))
    } else if t == 1 && b.len() >= 2 {
        Some((BodyLength::Full((b[0] * 256 + b[1]) as u32), 2))
    } else if t == 2 && b.len() >= 4 {
        Some((BodyLength::Full(be32_value(b[0], b[1], b[2], b[3]) as u32), 4))
    } else if t == 3 {
        Some((BodyLength::Indeterminate, 0))
    } else {
        None
    }
}

/// The old format length header, read back with the length type that
/// the old format CTB carries, gives the length it encodes and its own
/// size.
pub proof fn lemma_old_format_length_decodes(l: BodyLength, rest: Seq<u8>)
    requires
        !(l is Partial),
    ensures
        decode_old_format_length(old_length_type(l), old_format_length(l) + rest) == Some(
            (l, old_format_length(l).len()),
        ),
{
    let b = old_format_length(l) + rest;
    match l {
        BodyLength::Full(n) => {
            if n <= 0xFF {
            } else if n <= 0xFFFF {
                let v = n as u16;
                assert(b[0] == v / 256);
                assert(b[1] == v % 256);
                assert(b[0] * 256 + b[1] == n);
            } else {
                lemma_be32_value(n);
                assert(b[0] == be32(n)[0]);
                assert(b[1] == be32(n)[1]);
                assert(b[2] == be32(n)[2]);
                assert(b[3] == be32(n)[3]);
            }
        },
        _ => {},
    }
}

} // verus!
