//! OpenPGP packets and their serialization.
use vstd::prelude::*;
use crate::bytes::{append_bytes, be16, be32, opt_bytes, write_be_u16, write_be_u32, write_byte};
use crate::compression::{compress, compressed_body};
use crate::header::{
    body_length_new_format, body_length_old_format, ctb_new, ctb_old, new_format_length,
    old_format_length, partial_frame, spec_ctb_new, spec_ctb_old, write_partial_body, BodyLength,
    Tag,
};

verus! {

/// Returns the bytes of an optional byte string, nothing where it is
/// absent.
pub fn opt_slice(o: &Option<Vec<u8>>) -> (s: &[u8])
    ensures
        s@ == opt_bytes(*o),
{
    match o {
        Some(v) => v.as_slice(),
        None => &[],
    }
}

/// A new format packet: its CTB, the new format length of its body, and
/// the body.
pub open spec fn new_packet(tag: Tag, body: Seq<u8>) -> Seq<u8> {
    seq![spec_ctb_new(tag)] + new_format_length(body.len() as u32) + body
}

/// Appends a new format CTB for `tag` and the new format length header
/// for a body of `len` octets.
pub fn write_new_header(o: &mut Vec<u8>, tag: Tag, len: usize)
    ensures
        final(o)@ == old(o)@ + seq![spec_ctb_new(tag)] + new_format_length(len as u32),
{
    write_byte(o, ctb_new(tag));
    let hdr: Vec<u8> = body_length_new_format(BodyLength::Full(len as u32));
    append_bytes(o, hdr.as_slice());
}

/// A packet that this library does not interpret: its tag and its body.
pub struct Unknown {
    pub tag: Tag,
    pub body: Option<Vec<u8>>,
}

impl Unknown {
    /// The serialized packet.
    pub open spec fn spec_bytes(&self) -> Seq<u8> {
        new_packet(self.tag, opt_bytes(self.body))
    }

    /// Writes a serialized version of the specified `Unknown` packet
    /// to `o`.
    pub fn serialize(&self, o: &mut Vec<u8>)
        ensures
            final(o)@ == old(o)@ + self.spec_bytes(),
    {
        let body: &[u8] = opt_slice(&self.body);
        write_new_header(o, self.tag, body.len());
        append_bytes(o, body);
        assert(o@ =~= old(o)@ + self.spec_bytes());
    }

    /// Serializes the packet to a vector.
    pub fn to_vec(&self) -> (o: Vec<u8>)
        ensures
            o@ == self.spec_bytes(),
    {
        let mut o: Vec<u8> = Vec::with_capacity(4096);
        self.serialize(&mut o);
        assert(o@ =~= self.spec_bytes());
        o
    }
}

/// A signature packet (version 4).  The subpacket areas and the MPIs
/// are held in their serialized form.
pub struct Signature {
    pub version: u8,
    pub sigtype: u8,
    pub pk_algo: u8,
    pub hash_algo: u8,
    pub hashed_area: Vec<u8>,
    pub unhashed_area: Vec<u8>,
    pub hash_prefix: [u8; 2],
    pub mpis: Vec<u8>,
}

impl Signature {
    /// The length of the packet body.
    pub open spec fn spec_body_len(&self) -> nat {
        10 + self.hashed_area@.len() + self.unhashed_area@.len() + self.mpis@.len()
    }

    /// The signatures that can be written: version 4, subpacket areas
    /// whose lengths fit in two octets, and a body length that fits in
    /// a `usize`.
    pub open spec fn wf(&self) -> bool {
        &&& self.version == 4
        &&& self.hashed_area@.len() <= 0xFFFF
        &&& self.unhashed_area@.len() <= 0xFFFF
        &&& self.spec_body_len() <= usize::MAX
    }

    /// The packet body.
    pub open spec fn spec_body(&self) -> Seq<u8> {
        seq![self.version, self.sigtype, self.pk_algo, self.hash_algo] + be16(
            self.hashed_area@.len() as u16,
        ) + self.hashed_area@ + be16(self.unhashed_area@.len() as u16) + self.unhashed_area@
            + seq![self.hash_prefix[0], self.hash_prefix[1]] + self.mpis@
    }

    /// The serialized packet.
    pub open spec fn spec_bytes(&self) -> Seq<u8> {
        seq![spec_ctb_new(Tag::Signature)] + new_format_length(self.spec_body_len() as u32)
            + self.spec_body()
    }

    /// Writes a serialized version of the specified `Signature`
    /// packet to `o`.
    ///
    /// Note: this function does not compute the signature (which
    /// would require access to the private key); it assumes that
    /// the MPIs are up to date.
    pub fn serialize(&self, o: &mut Vec<u8>)
        requires
            self.wf(),
        ensures
            final(o)@ == old(o)@ + self.spec_bytes(),
    {
        let len: usize = 1 + 1 + 1 + 1 + 2 + self.hashed_area.len() + 2 + self.unhashed_area.len()
            + 2 + self.mpis.len();
        write_new_header(o, Tag::Signature, len);
        write_byte(o, self.version);
        write_byte(o, self.sigtype);
        write_byte(o, self.pk_algo);
        write_byte(o, self.hash_algo);
        write_be_u16(o, self.hashed_area.len() as u16);
        append_bytes(o, self.hashed_area.as_slice());
        write_be_u16(o, self.unhashed_area.len() as u16);
        append_bytes(o, self.unhashed_area.as_slice());
        write_byte(o, self.hash_prefix[0]);
        write_byte(o, self.hash_prefix[1]);
        append_bytes(o, self.mpis.as_slice());
        assert(o@ =~= old(o)@ + self.spec_bytes());
    }

    /// Returns whether the signature can be written.
    pub fn is_writable(&self) -> (b: bool)
        ensures
            b == self.wf(),
    {
        let h: usize = self.hashed_area.len();
        let u: usize = self.unhashed_area.len();
        self.version == 4 && h <= 0xFFFF && u <= 0xFFFF && self.mpis.len() <= usize::MAX - 10 - h
            - u
    }

    /// Returns the length of the serialized packet.
    pub fn serialized_len(&self) -> (n: usize)
        requires
            self.wf(),
            self.spec_bytes().len() <= usize::MAX,
        ensures
            n == self.spec_bytes().len(),
    {
        let len: usize = 1 + 1 + 1 + 1 + 2 + self.hashed_area.len() + 2 + self.unhashed_area.len()
            + 2 + self.mpis.len();
        1 + crate::header::new_format_length_len(len as u32) + len
    }

    /// Serializes the packet to a vector.
    pub fn to_vec(&self) -> (o: Vec<u8>)
        requires
            self.wf(),
        ensures
            o@ == self.spec_bytes(),
    {
        let mut o: Vec<u8> = Vec::with_capacity(4096);
        self.serialize(&mut o);
        assert(o@ =~= self.spec_bytes());
        o
    }
}

/// Whether `tag` is one of the four tags of key packets.
pub open spec fn is_key_tag(tag: Tag) -> bool {
    tag == Tag::PublicKey || tag == Tag::PublicSubkey || tag == Tag::SecretKey || tag
        == Tag::SecretSubkey
}

/// Whether `tag` is one of the two tags of secret key packets.
pub open spec fn is_secret_tag(tag: Tag) -> bool {
    tag == Tag::SecretKey || tag == Tag::SecretSubkey
}

/// A key (version 4): the public MPIs in their serialized form and,
/// where the secret is held, the serialized secret key material (from
/// the S2K usage octet on).
pub struct Key {
    pub version: u8,
    pub creation_time: u32,
    pub pk_algo: u8,
    pub mpis: Vec<u8>,
    pub secret: Option<Vec<u8>>,
}

impl Key {
    /// The keys that can be written: version 4, and a body length,
    /// secret included, that fits in a `usize`.
    pub open spec fn wf(&self) -> bool {
        &&& self.version == 4
        &&& 6 + self.mpis@.len() + opt_bytes(self.secret).len() <= usize::MAX
    }

    /// Returns whether the key can be written.
    pub fn is_writable(&self) -> (b: bool)
        ensures
            b == self.wf(),
    {
        let secret: &[u8] = opt_slice(&self.secret);
        self.version == 4 && self.mpis.len() <= usize::MAX - 6 && secret.len() <= usize::MAX - 6
            - self.mpis.len()
    }

    /// Whether the key holds secret key material.
    pub open spec fn spec_has_secret(&self) -> bool {
        self.secret is Some
    }

    /// Returns whether the key holds secret key material.
    pub fn has_secret(&self) -> (b: bool)
        ensures
            b == self.spec_has_secret(),
    {
        self.secret.is_some()
    }

    /// The public part of the packet body.
    pub open spec fn spec_public_body(&self) -> Seq<u8> {
        seq![self.version] + be32(self.creation_time) + seq![self.pk_algo] + self.mpis@
    }

    /// The packet with tag `tag` whose body is the public part followed
    /// by `secret`.
    pub open spec fn spec_bytes_with_secret(&self, tag: Tag, secret: Seq<u8>) -> Seq<u8> {
        new_packet(tag, self.spec_public_body() + secret)
    }

    /// The serialized packet with tag `tag`: a secret key packet holds
    /// the secret key material where the key has it, a public key
    /// packet never does.
    pub open spec fn spec_bytes(&self, tag: Tag) -> Seq<u8> {
        self.spec_bytes_with_secret(
            tag,
            if is_secret_tag(tag) {
                opt_bytes(self.secret)
            } else {
                Seq::empty()
            },
        )
    }

    /// Writes the packet with tag `tag` whose body is the key's public
    /// part followed by `secret`.
    pub fn serialize_with_secret(&self, o: &mut Vec<u8>, tag: Tag, secret: &[u8])
        requires
            6 + self.mpis@.len() + secret@.len() <= usize::MAX,
        ensures
            final(o)@ == old(o)@ + self.spec_bytes_with_secret(tag, secret@),
    {
        let len: usize = 1 + 4 + 1 + self.mpis.len() + secret.len();
        write_new_header(o, tag, len);
        write_byte(o, self.version);
        write_be_u32(o, self.creation_time);
        write_byte(o, self.pk_algo);
        append_bytes(o, self.mpis.as_slice());
        append_bytes(o, secret);
        assert(o@ =~= old(o)@ + self.spec_bytes_with_secret(tag, secret@));
    }

    /// Writes a serialized version of the specified `Key` packet to
    /// `o`, as a packet of type `tag`.
    pub fn serialize(&self, o: &mut Vec<u8>, tag: Tag)
        requires
            is_key_tag(tag),
            self.wf(),
        ensures
            final(o)@ == old(o)@ + self.spec_bytes(tag),
    {
        let is_secret: bool = match tag {
            Tag::SecretKey => true,
            Tag::SecretSubkey => true,
            _ => false,
        };
        if is_secret {
            let secret: &[u8] = opt_slice(&self.secret);
            self.serialize_with_secret(o, tag, secret);
        } else {
            let none: &[u8] = &[];
            assert(none@ =~= Seq::<u8>::empty());
            self.serialize_with_secret(o, tag, none);
        }
    }

    /// Returns the length of the packet with tag `tag` whose body is
    /// the key's public part followed by `secret_len` octets.
    pub fn serialized_len_with_secret(&self, tag: Tag, secret_len: usize) -> (n: usize)
        requires
            6 + self.mpis@.len() + secret_len <= usize::MAX,
            1 + crate::header::new_format_length_size((6 + self.mpis@.len() + secret_len) as u32)
                + 6 + self.mpis@.len() + secret_len <= usize::MAX,
        ensures
            forall|s: Seq<u8>|
                s.len() == secret_len ==> n == #[trigger] self.spec_bytes_with_secret(tag, s).len(),
    {
        let len: usize = 1 + 4 + 1 + self.mpis.len() + secret_len;
        1 + crate::header::new_format_length_len(len as u32) + len
    }

    /// Serializes the packet to a vector.
    pub fn to_vec(&self, tag: Tag) -> (o: Vec<u8>)
        requires
            is_key_tag(tag),
            self.wf(),
        ensures
            o@ == self.spec_bytes(tag),
    {
        let mut o: Vec<u8> = Vec::with_capacity(4096);
        self.serialize(&mut o, tag);
        assert(o@ =~= self.spec_bytes(tag));
        o
    }
}

/// A user ID packet.
pub struct UserID {
    pub value: Vec<u8>,
}

impl UserID {
    /// The serialized packet: an old format CTB and length.
    pub open spec fn spec_bytes(&self) -> Seq<u8> {
        let len = self.value@.len() as u32;
        seq![spec_ctb_old(Tag::UserID, BodyLength::Full(len))] + old_format_length(
            BodyLength::Full(len),
        ) + self.value@
    }

    /// Writes a serialized version of the specified `UserID` packet to
    /// `o`.
    pub fn serialize(&self, o: &mut Vec<u8>)
        ensures
            final(o)@ == old(o)@ + self.spec_bytes(),
    {
        let len: usize = self.value.len();
        write_byte(o, ctb_old(Tag::UserID, BodyLength::Full(len as u32)));
        let hdr: Vec<u8> = body_length_old_format(BodyLength::Full(len as u32));
        append_bytes(o, hdr.as_slice());
        append_bytes(o, self.value.as_slice());
        assert(o@ =~= old(o)@ + self.spec_bytes());
    }

    /// Returns the length of the serialized packet.
    pub fn serialized_len(&self) -> (n: usize)
        requires
            self.spec_bytes().len() <= usize::MAX,
        ensures
            n == self.spec_bytes().len(),
    {
        let len: usize = self.value.len();
        1 + crate::header::old_format_length_len(len as u32) + len
    }

    /// Serializes the packet to a vector.
    pub fn to_vec(&self) -> (o: Vec<u8>)
        ensures
            o@ == self.spec_bytes(),
    {
        let mut o: Vec<u8> = Vec::new();
        self.serialize(&mut o);
        assert(o@ =~= self.spec_bytes());
        o
    }
}

/// A user attribute packet.
pub struct UserAttribute {
    pub value: Vec<u8>,
}

impl UserAttribute {
    /// The serialized packet.  Its tag, 17, has no old format CTB, so it
    /// is written in the new format.
    pub open spec fn spec_bytes(&self) -> Seq<u8> {
        new_packet(Tag::UserAttribute, self.value@)
    }

    /// Writes a serialized version of the specified `UserAttribute`
    /// packet to `o`.
    pub fn serialize(&self, o: &mut Vec<u8>)
        ensures
            final(o)@ == old(o)@ + self.spec_bytes(),
    {
        let len: usize = self.value.len();
        write_new_header(o, Tag::UserAttribute, len);
        append_bytes(o, self.value.as_slice());
        assert(o@ =~= old(o)@ + self.spec_bytes());
    }

    /// Returns the length of the serialized packet.
    pub fn serialized_len(&self) -> (n: usize)
        requires
            self.spec_bytes().len() <= usize::MAX,
        ensures
            n == self.spec_bytes().len(),
    {
        let len: usize = self.value.len();
        1 + crate::header::new_format_length_len(len as u32) + len
    }

    /// Serializes the packet to a vector.
    pub fn to_vec(&self) -> (o: Vec<u8>)
        ensures
            o@ == self.spec_bytes(),
    {
        let mut o: Vec<u8> = Vec::new();
        self.serialize(&mut o);
        assert(o@ =~= self.spec_bytes());
        o
    }
}

/// A literal data packet.
pub struct Literal {
    pub format: u8,
    pub filename: Option<Vec<u8>>,
    pub date: u32,
    pub body: Option<Vec<u8>>,
}

impl Literal {
    /// The file name as written: at most its first 255 octets.
    pub open spec fn spec_filename(&self) -> Seq<u8> {
        let f = opt_bytes(self.filename);
        if f.len() <= 255 {
            f
        } else {
            f.take(255)
        }
    }

    /// The length of the packet body.
    pub open spec fn spec_body_len(&self) -> nat {
        1 + (1 + self.spec_filename().len()) + 4 + opt_bytes(self.body).len()
    }

    /// The literal packets that can be written: the body length fits in
    /// a `usize`.
    pub open spec fn wf(&self) -> bool {
        self.spec_body_len() <= usize::MAX
    }

    /// Returns whether the literal packet can be written.
    pub fn is_writable(&self) -> (b: bool)
        ensures
            b == self.wf(),
    {
        let name: &[u8] = opt_slice(&self.filename);
        let name_len: usize = if name.len() <= 255 {
            name.len()
        } else {
            255
        };
        opt_slice(&self.body).len() <= usize::MAX - 6 - name_len
    }

    /// The serialized packet: an old format CTB and length.
    pub open spec fn spec_bytes(&self) -> Seq<u8> {
        let len = self.spec_body_len() as u32;
        let fname = self.spec_filename();
        seq![spec_ctb_old(Tag::Literal, BodyLength::Full(len))] + old_format_length(
            BodyLength::Full(len),
        ) + seq![self.format, fname.len() as u8] + fname + be32(self.date) + opt_bytes(
            self.body,
        )
    }

    /// Writes a serialized version of the `Literal` data packet to `o`.
    pub fn serialize(&self, o: &mut Vec<u8>)
        requires
            self.wf(),
        ensures
            final(o)@ == old(o)@ + self.spec_bytes(),
    {
        let body: &[u8] = opt_slice(&self.body);
        let full_name: &[u8] = opt_slice(&self.filename);
        let name_len: usize = if full_name.len() <= 255 {
            full_name.len()
        } else {
            255
        };
        let len: usize = 1 + (1 + name_len) + 4 + body.len();
        write_byte(o, ctb_old(Tag::Literal, BodyLength::Full(len as u32)));
        let hdr: Vec<u8> = body_length_old_format(BodyLength::Full(len as u32));
        append_bytes(o, hdr.as_slice());
        write_byte(o, self.format);
        write_byte(o, name_len as u8);
        crate::bytes::append_range(o, full_name, 0, name_len);
        write_be_u32(o, self.date);
        append_bytes(o, body);
        assert(full_name@.subrange(0, name_len as int) =~= self.spec_filename());
        assert(o@ =~= old(o)@ + self.spec_bytes());
    }

    /// Serializes the packet to a vector.
    pub fn to_vec(&self) -> (o: Vec<u8>)
        requires
            self.wf(),
        ensures
            o@ == self.spec_bytes(),
    {
        let mut o: Vec<u8> = Vec::new();
        self.serialize(&mut o);
        assert(o@ =~= self.spec_bytes());
        o
    }
}


/// The packets in an optional list of packets: none where it is absent.
pub open spec fn opt_packets(o: Option<Vec<Packet>>) -> Seq<Packet> {
    match o {
        Some(v) => v@,
        None => Seq::empty(),
    }
}

/// A compressed data packet: the packets it contains, followed by raw
/// data, compressed with algorithm `algo`.
pub struct CompressedData {
    pub algo: u8,
    pub children: Option<Vec<Packet>>,
    pub body: Option<Vec<u8>>,
}

/// An OpenPGP packet.
pub enum Packet {
    Unknown(Unknown),
    Signature(Signature),
    PublicKey(Key),
    PublicSubkey(Key),
    SecretKey(Key),
    SecretSubkey(Key),
    UserID(UserID),
    UserAttribute(UserAttribute),
    Literal(Literal),
    CompressedData(CompressedData),
}

/// The serialized compressed data packet whose compressed data is
/// `compressed`: a new format CTB, then the framed body, which is the
/// algorithm octet followed by the compressed data.
pub open spec fn compressed_packet(algo: u8, compressed: Seq<u8>) -> Seq<u8> {
    seq![spec_ctb_new(Tag::CompressedData)] + partial_frame(seq![algo] + compressed)
}

/// The serialized packet.
pub open spec fn packet_bytes(p: Packet) -> Seq<u8>
    decreases p,
{
    match p {
        Packet::Unknown(u) => u.spec_bytes(),
        Packet::Signature(s) => s.spec_bytes(),
        Packet::PublicKey(k) => k.spec_bytes(Tag::PublicKey),
        Packet::PublicSubkey(k) => k.spec_bytes(Tag::PublicSubkey),
        Packet::SecretKey(k) => k.spec_bytes(Tag::SecretKey),
        Packet::SecretSubkey(k) => k.spec_bytes(Tag::SecretSubkey),
        Packet::UserID(u) => u.spec_bytes(),
        Packet::UserAttribute(u) => u.spec_bytes(),
        Packet::Literal(l) => l.spec_bytes(),
        Packet::CompressedData(c) => compressed_packet(
            c.algo,
            compressed_body(
                c.algo,
                match c.children {
                    Some(v) => packets_bytes(v@),
                    None => Seq::empty(),
                } + opt_bytes(c.body),
            ),
        ),
    }
}

/// The serialized packets, one after the other.
pub open spec fn packets_bytes(s: Seq<Packet>) -> Seq<u8>
    decreases s,
{
    if s.len() == 0 {
        Seq::empty()
    } else {
        packets_bytes(s.drop_last()) + packet_bytes(s.last())
    }
}

/// The packets that can be written: signatures and keys of version 4
/// whose lengths fit, compression algorithms 0 to 3, and the same of
/// every packet a compressed data packet contains.
pub open spec fn packet_wf(p: Packet) -> bool
    decreases p,
{
    match p {
        Packet::Unknown(_) => true,
        Packet::Signature(s) => s.wf(),
        Packet::PublicKey(k) => k.wf(),
        Packet::PublicSubkey(k) => k.wf(),
        Packet::SecretKey(k) => k.wf(),
        Packet::SecretSubkey(k) => k.wf(),
        Packet::UserID(_) => true,
        Packet::UserAttribute(_) => true,
        Packet::Literal(l) => l.wf(),
        Packet::CompressedData(c) => c.algo <= 3 && match c.children {
            Some(v) => packets_wf(v@),
            None => true,
        },
    }
}

/// Every packet of `s` can be written.
pub open spec fn packets_wf(s: Seq<Packet>) -> bool
    decreases s,
{
    if s.len() == 0 {
        true
    } else {
        packets_wf(s.drop_last()) && packet_wf(s.last())
    }
}

/// Every packet of a list of writable packets is writable.
pub proof fn lemma_packets_wf_index(s: Seq<Packet>, i: int)
    requires
        packets_wf(s),
        0 <= i < s.len(),
    ensures
        packet_wf(s[i]),
    decreases s.len(),
{
    if i < s.len() - 1 {
        lemma_packets_wf_index(s.drop_last(), i);
    }
}

/// Appends the serialized compressed data packet whose compression
/// algorithm is `algo` and whose compressed data is `compressed`.
pub fn write_compressed_packet(o: &mut Vec<u8>, algo: u8, compressed: &[u8])
    ensures
        final(o)@ == old(o)@ + compressed_packet(algo, compressed@),
{
    write_byte(o, ctb_new(Tag::CompressedData));
    let mut body: Vec<u8> = Vec::new();
    write_byte(&mut body, algo);
    append_bytes(&mut body, compressed);
    write_partial_body(o, body.as_slice());
    assert(o@ =~= old(o)@ + compressed_packet(algo, compressed@));
}

/// Appends the serialized packets of `packets`, one after the other.
fn serialize_packets(packets: &Vec<Packet>, o: &mut Vec<u8>)
    requires
        packets_wf(packets@),
    ensures
        final(o)@ == old(o)@ + packets_bytes(packets@),
    decreases packets@, 0nat,
{
    let n: usize = packets.len();
    let mut i: usize = 0;
    assert(packets@.take(0) =~= Seq::<Packet>::empty());
    while i < n
        invariant
            n == packets@.len(),
            i <= n,
            packets_wf(packets@),
            o@ == old(o)@ + packets_bytes(packets@.take(i as int)),
        decreases n - i,
    {
        proof {
            lemma_packets_wf_index(packets@, i as int);
        }
        assert(decreases_to!(packets@ => packets@[i as int]));
        packets[i].serialize(o);
        assert(packets@.take(i + 1).drop_last() =~= packets@.take(i as int));
        i = i + 1;
    }
    assert(packets@.take(n as int) =~= packets@);
}

/// Returns whether every packet of `packets` can be written.
pub fn packets_writable(packets: &Vec<Packet>) -> (b: bool)
    ensures
        b == packets_wf(packets@),
    decreases packets@, 0nat,
{
    let n: usize = packets.len();
    let mut i: usize = 0;
    assert(packets@.take(0) =~= Seq::<Packet>::empty());
    while i < n
        invariant
            n == packets@.len(),
            i <= n,
            packets_wf(packets@.take(i as int)),
        decreases n - i,
    {
        assert(decreases_to!(packets@ => packets@[i as int]));
        let ok: bool = packets[i].is_writable();
        proof {
            assert(packets@.take(i + 1).drop_last() =~= packets@.take(i as int));
            assert(packets@.take(i + 1).last() == packets@[i as int]);
        }
        if !ok {
            proof {
                if packets_wf(packets@) {
                    lemma_packets_wf_prefix(packets@, i + 1);
                }
            }
            return false;
        }
        i = i + 1;
    }
    assert(packets@.take(n as int) =~= packets@);
    true
}

/// A list of writable packets has only writable prefixes.
proof fn lemma_packets_wf_prefix(s: Seq<Packet>, i: int)
    requires
        0 <= i <= s.len(),
        packets_wf(s),
    ensures
        packets_wf(s.take(i)),
    decreases s.len() - i,
{
    if i < s.len() {
        lemma_packets_wf_prefix(s, i + 1);
        assert(s.take(i + 1).drop_last() =~= s.take(i));
    } else {
        assert(s.take(i) =~= s);
    }
}

impl CompressedData {
    /// The data that gets compressed: the contained packets, then the
    /// raw data.
    pub open spec fn spec_content(&self) -> Seq<u8> {
        packets_bytes(opt_packets(self.children)) + opt_bytes(self.body)
    }

    /// The serialized packet.
    pub open spec fn spec_bytes(&self) -> Seq<u8> {
        compressed_packet(self.algo, compressed_body(self.algo, self.spec_content()))
    }

    /// The compressed data packets that can be written.
    pub open spec fn wf(&self) -> bool {
        self.algo <= 3 && packets_wf(opt_packets(self.children))
    }

    /// Writes a serialized version of the specified `CompressedData`
    /// packet to `o`.
    ///
    /// This function works recursively: if the `CompressedData` packet
    /// contains any packets, they are also serialized.
    pub fn serialize(&self, o: &mut Vec<u8>)
        requires
            self.wf(),
        ensures
            final(o)@ == old(o)@ + self.spec_bytes(),
        decreases self, 2nat,
    {
        let mut content: Vec<u8> = Vec::new();
        match &self.children {
            Some(children) => {
                serialize_packets(children, &mut content);
            },
            None => {},
        }
        append_bytes(&mut content, opt_slice(&self.body));
        assert(content@ =~= self.spec_content());
        let compressed: Vec<u8> = compress(self.algo, content.as_slice());
        write_compressed_packet(o, self.algo, compressed.as_slice());
    }

    /// Serializes the packet to a vector.
    pub fn to_vec(&self) -> (o: Vec<u8>)
        requires
            self.wf(),
        ensures
            o@ == self.spec_bytes(),
    {
        let mut o: Vec<u8> = Vec::new();
        self.serialize(&mut o);
        assert(o@ =~= self.spec_bytes());
        o
    }
}

impl Packet {
    /// The packet's tag.
    pub open spec fn spec_tag(&self) -> Tag {
        match self {
            Packet::Unknown(u) => u.tag,
            Packet::Signature(_) => Tag::Signature,
            Packet::PublicKey(_) => Tag::PublicKey,
            Packet::PublicSubkey(_) => Tag::PublicSubkey,
            Packet::SecretKey(_) => Tag::SecretKey,
            Packet::SecretSubkey(_) => Tag::SecretSubkey,
            Packet::UserID(_) => Tag::UserID,
            Packet::UserAttribute(_) => Tag::UserAttribute,
            Packet::Literal(_) => Tag::Literal,
            Packet::CompressedData(_) => Tag::CompressedData,
        }
    }

    /// Returns the packet's tag.
    pub fn tag(&self) -> (t: Tag)
        ensures
            t == self.spec_tag(),
    {
        match self {
            Packet::Unknown(u) => u.tag,
            Packet::Signature(_) => Tag::Signature,
            Packet::PublicKey(_) => Tag::PublicKey,
            Packet::PublicSubkey(_) => Tag::PublicSubkey,
            Packet::SecretKey(_) => Tag::SecretKey,
            Packet::SecretSubkey(_) => Tag::SecretSubkey,
            Packet::UserID(_) => Tag::UserID,
            Packet::UserAttribute(_) => Tag::UserAttribute,
            Packet::Literal(_) => Tag::Literal,
            Packet::CompressedData(_) => Tag::CompressedData,
        }
    }

    /// Returns whether the packet, and every packet it contains, can be
    /// written.
    pub fn is_writable(&self) -> (b: bool)
        ensures
            b == packet_wf(*self),
        decreases *self, 1nat,
    {
        match self {
            Packet::Unknown(_) => true,
            Packet::Signature(s) => s.is_writable(),
            Packet::PublicKey(k) => k.is_writable(),
            Packet::PublicSubkey(k) => k.is_writable(),
            Packet::SecretKey(k) => k.is_writable(),
            Packet::SecretSubkey(k) => k.is_writable(),
            Packet::UserID(_) => true,
            Packet::UserAttribute(_) => true,
            Packet::Literal(l) => l.is_writable(),
            Packet::CompressedData(c) => {
                if c.algo > 3 {
                    false
                } else {
                    match &c.children {
                        Some(v) => packets_writable(v),
                        None => true,
                    }
                }
            },
        }
    }

    /// Writes a serialized version of the specified `Packet` to `o`.
    ///
    /// This function works recursively: if the packet contains any
    /// packets, they are also serialized.
    pub(crate) fn serialize(&self, o: &mut Vec<u8>)
        requires
            packet_wf(*self),
        ensures
            final(o)@ == old(o)@ + packet_bytes(*self),
        decreases *self, 1nat,
    {
        let tag: Tag = self.tag();
        match self {
            Packet::Unknown(p) => p.serialize(o),
            Packet::Signature(p) => p.serialize(o),
            Packet::PublicKey(p) => p.serialize(o, tag),
            Packet::PublicSubkey(p) => p.serialize(o, tag),
            Packet::SecretKey(p) => p.serialize(o, tag),
            Packet::SecretSubkey(p) => p.serialize(o, tag),
            Packet::UserID(p) => p.serialize(o),
            Packet::UserAttribute(p) => p.serialize(o),
            Packet::Literal(p) => p.serialize(o),
            Packet::CompressedData(p) => p.serialize(o),
        }
    }

    /// Serializes the packet to a vector.
    pub fn to_vec(&self) -> (o: Vec<u8>)
        requires
            packet_wf(*self),
        ensures
            o@ == packet_bytes(*self),
    {
        let mut o: Vec<u8> = Vec::new();
        self.serialize(&mut o);
        assert(o@ =~= packet_bytes(*self));
        o
    }
}

/// An OpenPGP message: a sequence of packets.
pub struct Message {
    pub packets: Vec<Packet>,
}

impl Message {
    /// The serialized message: its packets, one after the other.
    pub open spec fn spec_bytes(&self) -> Seq<u8> {
        packets_bytes(self.packets@)
    }

    /// The messages that can be written.
    pub open spec fn wf(&self) -> bool {
        packets_wf(self.packets@)
    }

    /// Writes a serialized version of the specified `Message` to `o`.
    pub fn serialize(&self, o: &mut Vec<u8>)
        requires
            self.wf(),
        ensures
            final(o)@ == old(o)@ + self.spec_bytes(),
    {
        serialize_packets(&self.packets, o);
    }

    /// Serializes the message to a vector.
    pub fn to_vec(&self) -> (o: Vec<u8>)
        requires
            self.wf(),
        ensures
            o@ == self.spec_bytes(),
    {
        let mut o: Vec<u8> = Vec::new();
        self.serialize(&mut o);
        assert(o@ =~= self.spec_bytes());
        o
    }
}

} // verus!
