//! Reading serialized packets back (RFC 4880, 4.2): the framing of a
//! packet into its tag and body, and the proofs that every packet this
//! library writes reads back as its tag and body, and every message as
//! its packets.
use vstd::prelude::*;
use crate::bytes::{be32, opt_bytes};
use crate::compression::compressed_body;
use crate::header::{
    decode_new_format_length, decode_old_format_length, lemma_ctb_new_fields,
    lemma_ctb_old_fields, lemma_new_format_length_decodes, lemma_old_format_length_decodes,
    new_format_length, new_format_length_size, old_format_length,
    partial_frame, spec_ctb_new, spec_ctb_old, BodyLength, Tag, PARTIAL_CHUNK_HEADER,
    PARTIAL_CHUNK_SIZE,
};
use crate::cert::{
    bundle_exported, bundle_out, bundle_sigs, bundles_out, cert_bytes, sig_out, sigs_out, Cert,
    Component, ComponentBundle,
};
use crate::tsk::{
    filter_allows, key_stub, tsk_bytes, tsk_key_bytes, tsk_subkey_out, tsk_subkeys_out,
};
use crate::packet::{
    compressed_packet, new_packet, packet_bytes, packets_bytes, CompressedData,
    Key, Packet, Signature,
};

verus! {

/// Reads a new format packet body from the front of `b`: its partial
/// chunks and its last chunk, concatenated, and the number of octets
/// the body took with its length headers.
pub open spec fn read_new_body(b: Seq<u8>) -> Option<(Seq<u8>, nat)>
    decreases b.len(),
{
    match decode_new_format_length(b) {
        Some((BodyLength::Full(n), h)) => if h + n <= b.len() {
            Some((b.subrange(h as int, (h + n) as int), (h + n) as nat))
        } else {
            None
        },
        Some((BodyLength::Partial(n), h)) => if 0 < h && h + n <= b.len() {
            match read_new_body(b.skip((h + n) as int)) {
                Some((more, m)) => Some((b.subrange(h as int, (h + n) as int) + more, (h + n + m) as nat)),
                None => None,
            }
        } else {
            None
        },
        _ => None,
    }
}

/// Reads the packet at the front of `b`: its tag number, its body, and
/// the number of octets it took.
pub open spec fn read_packet(b: Seq<u8>) -> Option<(u8, Seq<u8>, nat)> {
    if b.len() == 0 || b[0] & 0x80u8 == 0 {
        None
    } else if b[0] & 0x40u8 != 0 {
        match read_new_body(b.skip(1)) {
            Some((body, m)) => Some((b[0] & 0x3Fu8, body, 1 + m)),
            None => None,
        }
    } else {
        match decode_old_format_length(b[0] & 0x03u8, b.skip(1)) {
            Some((BodyLength::Full(n), h)) => if 1 + h + n <= b.len() {
                Some(((b[0] >> 2u8) & 0x0Fu8, b.subrange((1 + h) as int, (1 + h + n) as int), (1 + h + n) as nat))
            } else {
                None
            },
            Some((BodyLength::Indeterminate, _)) => Some(
                ((b[0] >> 2u8) & 0x0Fu8, b.skip(1), b.len()),
            ),
            _ => None,
        }
    }
}

/// Reads packets from `b` up to its end: the tag number and body of
/// each; nothing where `b` is not a sequence of whole packets.
pub open spec fn read_packets(b: Seq<u8>) -> Option<Seq<(u8, Seq<u8>)>>
    decreases b.len(),
{
    if b.len() == 0 {
        Some(Seq::empty())
    } else {
        match read_packet(b) {
            Some((t, body, n)) => if 0 < n <= b.len() {
                match read_packets(b.skip(n as int)) {
                    Some(more) => Some(seq![(t, body)] + more),
                    None => None,
                }
            } else {
                None
            },
            None => None,
        }
    }
}

/// The body of a packet as this library writes it.
pub open spec fn packet_body(p: Packet) -> Seq<u8> {
    match p {
        Packet::Unknown(u) => opt_bytes(u.body),
        Packet::Signature(s) => s.spec_body(),
        Packet::PublicKey(k) => k.spec_public_body(),
        Packet::PublicSubkey(k) => k.spec_public_body(),
        Packet::SecretKey(k) => k.spec_public_body() + opt_bytes(k.secret),
        Packet::SecretSubkey(k) => k.spec_public_body() + opt_bytes(k.secret),
        Packet::UserID(u) => u.value@,
        Packet::UserAttribute(u) => u.value@,
        Packet::Literal(l) => seq![l.format, l.spec_filename().len() as u8] + l.spec_filename()
            + be32(l.date) + opt_bytes(l.body),
        Packet::CompressedData(c) => seq![c.algo] + compressed_body(c.algo, c.spec_content()),
    }
}

/// The tag number and body of a packet.
pub open spec fn packet_fields(p: Packet) -> (u8, Seq<u8>) {
    (p.spec_tag().spec_numeric(), packet_body(p))
}

/// The packets whose header can say what they are: a body length that
/// fits in four octets (a compressed data packet's body is split into
/// chunks, so it always does), and a tag number below 64.
pub open spec fn packet_fits(p: Packet) -> bool {
    &&& p.spec_tag().spec_numeric() < 64
    &&& (p is CompressedData || packet_body(p).len() <= u32::MAX)
}

/// The new format packet written for `tag` and `body` reads back as
/// them.
pub proof fn lemma_read_new_packet(tag: Tag, body: Seq<u8>, rest: Seq<u8>)
    requires
        tag.spec_numeric() < 64,
        body.len() <= u32::MAX,
    ensures
        read_packet(new_packet(tag, body) + rest) == Some(
            (tag.spec_numeric(), body, new_packet(tag, body).len()),
        ),
{
    let b = new_packet(tag, body) + rest;
    let c = spec_ctb_new(tag);
    lemma_ctb_new_fields(tag);
    assert(c & 0xC0u8 == 0xC0u8 ==> c & 0x80u8 != 0 && c & 0x40u8 != 0) by (bit_vector);
    let l = body.len() as u32;
    let hdr = new_format_length(l);
    lemma_new_format_length_decodes(l, body + rest);
    assert(b.skip(1) =~= hdr + (body + rest));
    let h = new_format_length_size(l);
    assert(hdr.len() == h);
    assert(b.skip(1).subrange(h as int, (h + l) as int) =~= body);
}

/// The old format packet written for `tag` and `body` reads back as
/// them.
pub proof fn lemma_read_old_packet(tag: Tag, body: Seq<u8>, rest: Seq<u8>)
    requires
        tag.spec_numeric() < 16,
        body.len() <= u32::MAX,
    ensures
        ({
            let l = BodyLength::Full(body.len() as u32);
            let bytes = seq![spec_ctb_old(tag, l)] + old_format_length(l) + body;
            read_packet(bytes + rest) == Some((tag.spec_numeric(), body, bytes.len()))
        }),
{
    let l = BodyLength::Full(body.len() as u32);
    let hdr = old_format_length(l);
    let bytes = seq![spec_ctb_old(tag, l)] + hdr + body;
    let b = bytes + rest;
    let c = spec_ctb_old(tag, l);
    lemma_ctb_old_fields(tag, l);
    assert(c & 0xC0u8 == 0x80u8 ==> c & 0x80u8 != 0 && c & 0x40u8 == 0) by (bit_vector);
    lemma_old_format_length_decodes(l, body + rest);
    assert(b.skip(1) =~= hdr + (body + rest));
    assert(b[0] == c);
    let h = hdr.len();
    assert(b.subrange((1 + h) as int, (1 + h + body.len()) as int) =~= body);
}

/// A framed body reads back as the body, and its framing as the octets
/// it took.
pub proof fn lemma_read_partial_frame(d: Seq<u8>, rest: Seq<u8>)
    ensures
        read_new_body(partial_frame(d) + rest) == Some((d, partial_frame(d).len())),
    decreases d.len(),
{
    let f = partial_frame(d);
    let b = f + rest;
    if d.len() <= PARTIAL_CHUNK_SIZE {
        let l = d.len() as u32;
        lemma_new_format_length_decodes(l, d + rest);
        assert(b =~= new_format_length(l) + (d + rest));
        let h = new_format_length_size(l);
        assert(b.subrange(h as int, (h + d.len()) as int) =~= d);
    } else {
        let tail = d.skip(PARTIAL_CHUNK_SIZE as int);
        lemma_read_partial_frame(tail, rest);
        crate::header::lemma_pow2_chunk();
        assert(b[0] == PARTIAL_CHUNK_HEADER);
        assert(decode_new_format_length(b) == Some(
            (BodyLength::Partial(PARTIAL_CHUNK_SIZE as u32), 1nat),
        ));
        assert(b.subrange(1, 1 + PARTIAL_CHUNK_SIZE) =~= d.take(PARTIAL_CHUNK_SIZE as int));
        assert(b.skip(1 + PARTIAL_CHUNK_SIZE) =~= partial_frame(tail) + rest);
        assert(d.take(PARTIAL_CHUNK_SIZE as int) + tail =~= d);
    }
}

/// Every packet this library writes reads back as its tag number and
/// its body, whatever follows it.
pub proof fn lemma_read_packet_back(p: Packet, rest: Seq<u8>)
    requires
        packet_fits(p),
    ensures
        read_packet(packet_bytes(p) + rest) == Some(
            (packet_fields(p).0, packet_fields(p).1, packet_bytes(p).len()),
        ),
{
    match p {
        Packet::Unknown(u) => {
            lemma_read_new_packet(u.tag, opt_bytes(u.body), rest);
        },
        Packet::Signature(s) => {
            assert(s.spec_body().len() == s.spec_body_len());
            assert(s.spec_bytes() == new_packet(Tag::Signature, s.spec_body()));
            lemma_read_new_packet(Tag::Signature, s.spec_body(), rest);
        },
        Packet::PublicKey(k) => {
            assert(k.spec_public_body() + Seq::<u8>::empty() =~= k.spec_public_body());
            lemma_read_new_packet(Tag::PublicKey, k.spec_public_body(), rest);
        },
        Packet::PublicSubkey(k) => {
            assert(k.spec_public_body() + Seq::<u8>::empty() =~= k.spec_public_body());
            lemma_read_new_packet(Tag::PublicSubkey, k.spec_public_body(), rest);
        },
        Packet::SecretKey(k) => {
            lemma_read_new_packet(Tag::SecretKey, k.spec_public_body() + opt_bytes(k.secret), rest);
        },
        Packet::SecretSubkey(k) => {
            lemma_read_new_packet(
                Tag::SecretSubkey,
                k.spec_public_body() + opt_bytes(k.secret),
                rest,
            );
        },
        Packet::UserID(u) => {
            lemma_read_old_packet(Tag::UserID, u.value@, rest);
        },
        Packet::UserAttribute(u) => {
            lemma_read_new_packet(Tag::UserAttribute, u.value@, rest);
        },
        Packet::Literal(l) => {
            assert(packet_body(p).len() == l.spec_body_len());
            assert(l.spec_bytes() =~= seq![
                spec_ctb_old(Tag::Literal, BodyLength::Full(packet_body(p).len() as u32)),
            ] + old_format_length(BodyLength::Full(packet_body(p).len() as u32)) + packet_body(
                p,
            ));
            lemma_read_old_packet(Tag::Literal, packet_body(p), rest);
        },
        Packet::CompressedData(c) => {
            lemma_read_compressed_back(c, rest);
        },
    }
}

/// A compressed data packet reads back as its algorithm octet followed
/// by the compressed content.
proof fn lemma_read_compressed_back(c: CompressedData, rest: Seq<u8>)
    ensures
        ({
            let p = Packet::CompressedData(c);
            read_packet(packet_bytes(p) + rest) == Some(
                (packet_fields(p).0, packet_fields(p).1, packet_bytes(p).len()),
            )
        }),
{
    let p = Packet::CompressedData(c);
    let d = packet_body(p);
    assert(packet_bytes(p) == compressed_packet(c.algo, compressed_body(c.algo, c.spec_content())));
    let b = packet_bytes(p) + rest;
    lemma_read_partial_frame(d, rest);
    assert(spec_ctb_new(Tag::CompressedData) == 0xC8u8) by (bit_vector)
        requires spec_ctb_new(Tag::CompressedData) == (0xC0u8 | 8u8);
    assert(0xC8u8 & 0x80u8 != 0 && 0xC8u8 & 0x40u8 != 0 && 0xC8u8 & 0x3Fu8 == 8u8) by (bit_vector);
    assert(b.skip(1) =~= partial_frame(d) + rest);
}

/// Prepending one packet's bytes prepends that packet to a sequence.
proof fn lemma_packets_bytes_cons(x: Packet, t: Seq<Packet>)
    ensures
        packets_bytes(seq![x] + t) == packet_bytes(x) + packets_bytes(t),
    decreases t.len(),
{
    if t.len() == 0 {
        assert(seq![x] + t =~= seq![x]);
        assert(seq![x].drop_last() =~= Seq::<Packet>::empty());
        assert(packets_bytes(Seq::<Packet>::empty()) == Seq::<u8>::empty());
        assert(seq![x].last() == x);
        assert(packets_bytes(seq![x]) =~= packet_bytes(x));
    } else {
        lemma_packets_bytes_cons(x, t.drop_last());
        assert((seq![x] + t).drop_last() =~= seq![x] + t.drop_last());
        assert((seq![x] + t).last() == t.last());
    }
}

/// A message this library writes reads back, packet by packet, as the
/// tag number and body of each of its packets.
pub proof fn lemma_read_packets_back(s: Seq<Packet>)
    requires
        forall|i: int|
            0 <= i < s.len() ==> packet_fits(#[trigger] s[i]),
    ensures
        read_packets(packets_bytes(s)) == Some(s.map_values(|p: Packet| packet_fields(p))),
    decreases s.len(),
{
    if s.len() == 0 {
        assert(s.map_values(|p: Packet| packet_fields(p)) =~= Seq::<(u8, Seq<u8>)>::empty());
    } else {
        let x = s[0];
        let t = s.drop_first();
        assert(s =~= seq![x] + t);
        lemma_packets_bytes_cons(x, t);
        assert(packet_fits(s[0]));
        lemma_read_packet_back(x, packets_bytes(t));
        lemma_read_packets_back(t);
        let b = packets_bytes(s);
        let n = packet_bytes(x).len();
        assert(b.skip(n as int) =~= packets_bytes(t));
        assert(n > 0);
        assert(s.map_values(|p: Packet| packet_fields(p)) =~= seq![packet_fields(x)]
            + t.map_values(|p: Packet| packet_fields(p)));
    }
}

/// A stored compressed data packet (algorithm 0) without raw data reads
/// back as the algorithm octet followed by the packets it contains.
pub proof fn lemma_read_stored_compressed(c: CompressedData, rest: Seq<u8>)
    requires
        c.algo == 0,
        c.body is None,
        forall|i: int|
            0 <= i < crate::packet::opt_packets(c.children).len() ==> packet_fits(
                #[trigger] crate::packet::opt_packets(c.children)[i],
            ),
    ensures
        read_packet(packet_bytes(Packet::CompressedData(c)) + rest) matches Some((t, body, _))
            && t == 8 && body[0] == 0 && read_packets(body.skip(1)) == Some(
            crate::packet::opt_packets(c.children).map_values(|p: Packet| packet_fields(p)),
        ),
{
    let p = Packet::CompressedData(c);
    assert(packet_fits(p));
    lemma_read_packet_back(p, rest);
    let kids = crate::packet::opt_packets(c.children);
    lemma_read_packets_back(kids);
    assert(c.spec_content() =~= packets_bytes(kids));
    assert(packet_body(p).skip(1) =~= packets_bytes(kids));
}


/// A list of packets put in front of what was read after them.
pub open spec fn prepend(
    l: Seq<(u8, Seq<u8>)>,
    r: Option<Seq<(u8, Seq<u8>)>>,
) -> Option<Seq<(u8, Seq<u8>)>> {
    match r {
        Some(more) => Some(l + more),
        None => None,
    }
}

/// `x` consists of whole packets that read back as `l`, whatever
/// follows it.
pub open spec fn reads_as(x: Seq<u8>, l: Seq<(u8, Seq<u8>)>) -> bool {
    forall|rest: Seq<u8>| #[trigger] read_packets(x + rest) == prepend(l, read_packets(rest))
}

proof fn lemma_reads_as_empty()
    ensures
        reads_as(Seq::empty(), Seq::empty()),
{
    assert forall|rest: Seq<u8>|
        #[trigger] read_packets(Seq::<u8>::empty() + rest) == prepend(
            Seq::empty(),
            read_packets(rest),
        ) by {
        assert(Seq::<u8>::empty() + rest =~= rest);
        match read_packets(rest) {
            Some(more) => {
                assert(Seq::<(u8, Seq<u8>)>::empty() + more =~= more);
            },
            None => {},
        }
    }
}

proof fn lemma_reads_as_concat(
    a: Seq<u8>,
    la: Seq<(u8, Seq<u8>)>,
    b: Seq<u8>,
    lb: Seq<(u8, Seq<u8>)>,
)
    requires
        reads_as(a, la),
        reads_as(b, lb),
    ensures
        reads_as(a + b, la + lb),
{
    assert forall|rest: Seq<u8>|
        #[trigger] read_packets((a + b) + rest) == prepend(la + lb, read_packets(rest)) by {
        assert((a + b) + rest =~= a + (b + rest));
        assert(read_packets(a + (b + rest)) == prepend(la, read_packets(b + rest)));
        assert(read_packets(b + rest) == prepend(lb, read_packets(rest)));
        match read_packets(rest) {
            Some(more) => {
                assert(la + (lb + more) =~= (la + lb) + more);
            },
            None => {},
        }
    }
}

proof fn lemma_reads_as_one(x: Seq<u8>, t: u8, body: Seq<u8>)
    requires
        x.len() > 0,
        forall|rest: Seq<u8>| #[trigger] read_packet(x + rest) == Some((t, body, x.len())),
    ensures
        reads_as(x, seq![(t, body)]),
{
    assert forall|rest: Seq<u8>|
        #[trigger] read_packets(x + rest) == prepend(seq![(t, body)], read_packets(rest)) by {
        let b = x + rest;
        assert(read_packet(b) == Some((t, body, x.len())));
        assert(b.skip(x.len() as int) =~= rest);
    }
}

/// A new format packet reads back as its tag number and body.
pub proof fn lemma_reads_as_new_packet(tag: Tag, body: Seq<u8>)
    requires
        tag.spec_numeric() < 64,
        new_packet(tag, body).len() <= u32::MAX,
    ensures
        reads_as(new_packet(tag, body), seq![(tag.spec_numeric(), body)]),
{
    assert forall|rest: Seq<u8>|
        #[trigger] read_packet(new_packet(tag, body) + rest) == Some(
            (tag.spec_numeric(), body, new_packet(tag, body).len()),
        ) by {
        lemma_read_new_packet(tag, body, rest);
    }
    lemma_reads_as_one(new_packet(tag, body), tag.spec_numeric(), body);
}

/// An old format packet with a full length reads back as its tag number
/// and body.
pub proof fn lemma_reads_as_old_packet(tag: Tag, body: Seq<u8>)
    requires
        tag.spec_numeric() < 16,
        body.len() <= u32::MAX,
    ensures
        ({
            let l = BodyLength::Full(body.len() as u32);
            reads_as(
                seq![spec_ctb_old(tag, l)] + old_format_length(l) + body,
                seq![(tag.spec_numeric(), body)],
            )
        }),
{
    let l = BodyLength::Full(body.len() as u32);
    let x = seq![spec_ctb_old(tag, l)] + old_format_length(l) + body;
    assert forall|rest: Seq<u8>|
        #[trigger] read_packet(x + rest) == Some((tag.spec_numeric(), body, x.len())) by {
        lemma_read_old_packet(tag, body, rest);
    }
    lemma_reads_as_one(x, tag.spec_numeric(), body);
}

/// What a signature contributes to the packets read back.
pub open spec fn sig_fields(s: Signature, export: bool) -> Seq<(u8, Seq<u8>)> {
    if export && !s.spec_exportable() {
        Seq::empty()
    } else {
        seq![(2u8, s.spec_body())]
    }
}

/// What a list of signatures contributes to the packets read back.
pub open spec fn sigs_fields(s: Seq<Signature>, export: bool) -> Seq<(u8, Seq<u8>)>
    decreases s.len(),
{
    if s.len() == 0 {
        Seq::empty()
    } else {
        sigs_fields(s.drop_last(), export) + sig_fields(s.last(), export)
    }
}

proof fn lemma_sigs_read(s: Seq<Signature>, export: bool)
    requires
        sigs_out(s, export).len() <= u32::MAX,
    ensures
        reads_as(sigs_out(s, export), sigs_fields(s, export)),
    decreases s.len(),
{
    if s.len() == 0 {
        lemma_reads_as_empty();
    } else {
        lemma_sigs_read(s.drop_last(), export);
        let x = s.last();
        if export && !x.spec_exportable() {
            lemma_reads_as_empty();
        } else {
            assert(x.spec_body().len() == x.spec_body_len());
            assert(x.spec_bytes() == new_packet(Tag::Signature, x.spec_body()));
            lemma_reads_as_new_packet(Tag::Signature, x.spec_body());
        }
        lemma_reads_as_concat(
            sigs_out(s.drop_last(), export),
            sigs_fields(s.drop_last(), export),
            sig_out(x, export),
            sig_fields(x, export),
        );
    }
}

/// What the signatures of a bundle contribute to the packets read back.
pub open spec fn bundle_sigs_fields<C>(b: ComponentBundle<C>, export: bool) -> Seq<
    (u8, Seq<u8>),
> {
    sigs_fields(b.self_revocations@, export) + sigs_fields(b.self_signatures@, export)
        + sigs_fields(b.certifications@, export) + sigs_fields(b.other_revocations@, export)
}

proof fn lemma_bundle_sigs_read<C>(b: ComponentBundle<C>, export: bool)
    requires
        bundle_sigs(b, export).len() <= u32::MAX,
    ensures
        reads_as(bundle_sigs(b, export), bundle_sigs_fields(b, export)),
{
    let a1 = sigs_out(b.self_revocations@, export);
    let a2 = sigs_out(b.self_signatures@, export);
    let a3 = sigs_out(b.certifications@, export);
    let a4 = sigs_out(b.other_revocations@, export);
    lemma_sigs_read(b.self_revocations@, export);
    lemma_sigs_read(b.self_signatures@, export);
    lemma_sigs_read(b.certifications@, export);
    lemma_sigs_read(b.other_revocations@, export);
    let l1 = sigs_fields(b.self_revocations@, export);
    let l2 = sigs_fields(b.self_signatures@, export);
    let l3 = sigs_fields(b.certifications@, export);
    let l4 = sigs_fields(b.other_revocations@, export);
    lemma_reads_as_concat(a1, l1, a2, l2);
    lemma_reads_as_concat(a1 + a2, l1 + l2, a3, l3);
    lemma_reads_as_concat(a1 + a2 + a3, l1 + l2 + l3, a4, l4);
}

/// What a bundle contributes to the packets read back.
pub open spec fn bundle_fields<C: Component>(
    b: ComponentBundle<C>,
    export: bool,
    certs_only: bool,
) -> Seq<(u8, Seq<u8>)> {
    if export && !bundle_exported(b, certs_only) {
        Seq::empty()
    } else {
        seq![b.component.component_fields()] + bundle_sigs_fields(b, export)
    }
}

/// What a list of bundles contributes to the packets read back.
pub open spec fn bundles_fields<C: Component>(
    s: Seq<ComponentBundle<C>>,
    export: bool,
    certs_only: bool,
) -> Seq<(u8, Seq<u8>)>
    decreases s.len(),
{
    if s.len() == 0 {
        Seq::empty()
    } else {
        bundles_fields(s.drop_last(), export, certs_only) + bundle_fields(
            s.last(),
            export,
            certs_only,
        )
    }
}

/// Every component of the bundles has a tag its header can carry.
pub open spec fn bundles_tags_fit<C: Component>(s: Seq<ComponentBundle<C>>) -> bool {
    forall|i: int| 0 <= i < s.len() ==> (#[trigger] s[i]).component.component_tag_fits()
}

proof fn lemma_bundles_read<C: Component>(
    s: Seq<ComponentBundle<C>>,
    export: bool,
    certs_only: bool,
)
    requires
        bundles_tags_fit(s),
        bundles_out(s, export, certs_only).len() <= u32::MAX,
    ensures
        reads_as(bundles_out(s, export, certs_only), bundles_fields(s, export, certs_only)),
    decreases s.len(),
{
    if s.len() == 0 {
        lemma_reads_as_empty();
    } else {
        let t = s.drop_last();
        assert forall|i: int| 0 <= i < t.len() implies (#[trigger] t[i]).component.component_tag_fits() by {
            assert(t[i] == s[i]);
        }
        lemma_bundles_read(t, export, certs_only);
        let b = s.last();
        assert(b == s[s.len() - 1]);
        if export && !bundle_exported(b, certs_only) {
            lemma_reads_as_empty();
        } else {
            b.component.lemma_component_reads_back();
            lemma_bundle_sigs_read(b, export);
            lemma_reads_as_concat(
                b.component.component_bytes(),
                seq![b.component.component_fields()],
                bundle_sigs(b, export),
                bundle_sigs_fields(b, export),
            );
        }
        lemma_reads_as_concat(
            bundles_out(t, export, certs_only),
            bundles_fields(t, export, certs_only),
            bundle_out(b, export, certs_only),
            bundle_fields(b, export, certs_only),
        );
    }
}

/// The packets a certificate's serialization (or export) reads back as:
/// the primary key as a public key packet with its signatures, then the
/// user IDs, user attributes, subkeys and unknown components, each with
/// its signatures, then the signatures that could not be placed.
pub open spec fn cert_fields(c: Cert, export: bool) -> Seq<(u8, Seq<u8>)> {
    seq![(6u8, c.primary.component.spec_public_body())] + bundle_sigs_fields(c.primary, export)
        + bundles_fields(c.userids@, export, false) + bundles_fields(
        c.user_attributes@,
        export,
        false,
    ) + bundles_fields(c.subkeys@, export, false) + bundles_fields(c.unknowns@, export, true)
        + sigs_fields(c.bad_signatures@, export)
}

/// A serialized (or exported) certificate reads back, packet by packet,
/// as its primary key, components and signatures, in the order written.
pub proof fn lemma_cert_reads_back(c: Cert, export: bool)
    requires
        cert_bytes(c, export).len() <= u32::MAX,
        bundles_tags_fit(c.unknowns@),
    ensures
        read_packets(cert_bytes(c, export)) == Some(cert_fields(c, export)),
{
    assert(bundles_tags_fit(c.userids@));
    assert(bundles_tags_fit(c.user_attributes@));
    assert(bundles_tags_fit(c.subkeys@));
    let k = c.primary.component;
    assert(k.spec_public_body() + Seq::<u8>::empty() =~= k.spec_public_body());
    lemma_reads_as_new_packet(Tag::PublicKey, k.spec_public_body());
    let x1 = k.spec_bytes(Tag::PublicKey);
    let l1 = seq![(6u8, k.spec_public_body())];
    lemma_bundle_sigs_read(c.primary, export);
    lemma_reads_as_concat(x1, l1, bundle_sigs(c.primary, export), bundle_sigs_fields(c.primary, export));
    let x2 = x1 + bundle_sigs(c.primary, export);
    let l2 = l1 + bundle_sigs_fields(c.primary, export);
    lemma_bundles_read(c.userids@, export, false);
    lemma_reads_as_concat(x2, l2, bundles_out(c.userids@, export, false), bundles_fields(c.userids@, export, false));
    let x3 = x2 + bundles_out(c.userids@, export, false);
    let l3 = l2 + bundles_fields(c.userids@, export, false);
    lemma_bundles_read(c.user_attributes@, export, false);
    lemma_reads_as_concat(x3, l3, bundles_out(c.user_attributes@, export, false), bundles_fields(c.user_attributes@, export, false));
    let x4 = x3 + bundles_out(c.user_attributes@, export, false);
    let l4 = l3 + bundles_fields(c.user_attributes@, export, false);
    lemma_bundles_read(c.subkeys@, export, false);
    lemma_reads_as_concat(x4, l4, bundles_out(c.subkeys@, export, false), bundles_fields(c.subkeys@, export, false));
    let x5 = x4 + bundles_out(c.subkeys@, export, false);
    let l5 = l4 + bundles_fields(c.subkeys@, export, false);
    lemma_bundles_read(c.unknowns@, export, true);
    lemma_reads_as_concat(x5, l5, bundles_out(c.unknowns@, export, true), bundles_fields(c.unknowns@, export, true));
    let x6 = x5 + bundles_out(c.unknowns@, export, true);
    let l6 = l5 + bundles_fields(c.unknowns@, export, true);
    lemma_sigs_read(c.bad_signatures@, export);
    lemma_reads_as_concat(x6, l6, sigs_out(c.bad_signatures@, export), sigs_fields(c.bad_signatures@, export));
    let x7 = x6 + sigs_out(c.bad_signatures@, export);
    let l7 = l6 + sigs_fields(c.bad_signatures@, export);
    assert(x7 == cert_bytes(c, export));
    assert(read_packets(x7 + Seq::<u8>::empty()) == prepend(l7, read_packets(Seq::<u8>::empty())));
    assert(x7 + Seq::<u8>::empty() =~= x7);
    assert(l7 + Seq::<(u8, Seq<u8>)>::empty() =~= l7);
}


/// The packet a transferable secret key writes for a key, as it reads
/// back: a secret key packet with the secret or with a stub, or a public
/// key packet.
pub open spec fn tsk_key_fields(
    k: Key,
    tag_public: Tag,
    tag_secret: Tag,
    allowed: bool,
    stubs: bool,
) -> Seq<(u8, Seq<u8>)> {
    if k.spec_has_secret() && allowed {
        seq![(tag_secret.spec_numeric(), k.spec_public_body() + opt_bytes(k.secret))]
    } else if stubs {
        seq![(tag_secret.spec_numeric(), k.spec_public_body() + key_stub())]
    } else {
        seq![(tag_public.spec_numeric(), k.spec_public_body())]
    }
}

proof fn lemma_tsk_key_read(k: Key, tag_public: Tag, tag_secret: Tag, allowed: bool, stubs: bool)
    requires
        (tag_public == Tag::PublicKey && tag_secret == Tag::SecretKey) || (tag_public
            == Tag::PublicSubkey && tag_secret == Tag::SecretSubkey),
        tsk_key_bytes(k, tag_public, tag_secret, allowed, stubs).len() <= u32::MAX,
    ensures
        reads_as(
            tsk_key_bytes(k, tag_public, tag_secret, allowed, stubs),
            tsk_key_fields(k, tag_public, tag_secret, allowed, stubs),
        ),
{
    if k.spec_has_secret() && allowed {
        lemma_reads_as_new_packet(tag_secret, k.spec_public_body() + opt_bytes(k.secret));
    } else if stubs {
        lemma_reads_as_new_packet(tag_secret, k.spec_public_body() + key_stub());
    } else {
        assert(k.spec_public_body() + Seq::<u8>::empty() =~= k.spec_public_body());
        lemma_reads_as_new_packet(tag_public, k.spec_public_body());
    }
}

/// What the subkey bundle at position `i` contributes to the packets a
/// transferable secret key reads back as.
pub open spec fn tsk_subkey_fields(
    b: ComponentBundle<Key>,
    i: int,
    filter: Option<Seq<bool>>,
    stubs: bool,
    export: bool,
) -> Seq<(u8, Seq<u8>)> {
    if export && !bundle_exported(b, false) {
        Seq::empty()
    } else {
        tsk_key_fields(
            b.component,
            Tag::PublicSubkey,
            Tag::SecretSubkey,
            filter_allows(filter, i + 1),
            stubs,
        ) + bundle_sigs_fields(b, export)
    }
}

/// What the subkey bundles contribute, in order.
pub open spec fn tsk_subkeys_fields(
    s: Seq<ComponentBundle<Key>>,
    filter: Option<Seq<bool>>,
    stubs: bool,
    export: bool,
) -> Seq<(u8, Seq<u8>)>
    decreases s.len(),
{
    if s.len() == 0 {
        Seq::empty()
    } else {
        tsk_subkeys_fields(s.drop_last(), filter, stubs, export) + tsk_subkey_fields(
            s.last(),
            s.len() - 1,
            filter,
            stubs,
            export,
        )
    }
}

proof fn lemma_tsk_subkeys_read(
    s: Seq<ComponentBundle<Key>>,
    filter: Option<Seq<bool>>,
    stubs: bool,
    export: bool,
)
    requires
        tsk_subkeys_out(s, filter, stubs, export).len() <= u32::MAX,
    ensures
        reads_as(
            tsk_subkeys_out(s, filter, stubs, export),
            tsk_subkeys_fields(s, filter, stubs, export),
        ),
    decreases s.len(),
{
    if s.len() == 0 {
        lemma_reads_as_empty();
    } else {
        let t = s.drop_last();
        lemma_tsk_subkeys_read(t, filter, stubs, export);
        let b = s.last();
        let i = s.len() - 1;
        if export && !bundle_exported(b, false) {
            lemma_reads_as_empty();
        } else {
            let allowed = filter_allows(filter, i + 1);
            lemma_tsk_key_read(b.component, Tag::PublicSubkey, Tag::SecretSubkey, allowed, stubs);
            lemma_bundle_sigs_read(b, export);
            lemma_reads_as_concat(
                tsk_key_bytes(b.component, Tag::PublicSubkey, Tag::SecretSubkey, allowed, stubs),
                tsk_key_fields(b.component, Tag::PublicSubkey, Tag::SecretSubkey, allowed, stubs),
                bundle_sigs(b, export),
                bundle_sigs_fields(b, export),
            );
        }
        lemma_reads_as_concat(
            tsk_subkeys_out(t, filter, stubs, export),
            tsk_subkeys_fields(t, filter, stubs, export),
            tsk_subkey_out(b, i, filter, stubs, export),
            tsk_subkey_fields(b, i, filter, stubs, export),
        );
    }
}

/// The packets a transferable secret key's serialization (or export)
/// reads back as: as the certificate's, but each key as
/// `tsk_key_fields` says.
pub open spec fn tsk_fields(c: Cert, filter: Option<Seq<bool>>, stubs: bool, export: bool) -> Seq<
    (u8, Seq<u8>),
> {
    tsk_key_fields(
        c.primary.component,
        Tag::PublicKey,
        Tag::SecretKey,
        filter_allows(filter, 0),
        stubs,
    ) + bundle_sigs_fields(c.primary, export) + bundles_fields(c.userids@, export, false)
        + bundles_fields(c.user_attributes@, export, false) + tsk_subkeys_fields(
        c.subkeys@,
        filter,
        stubs,
        export,
    ) + bundles_fields(c.unknowns@, export, true) + sigs_fields(c.bad_signatures@, export)
}

/// A serialized (or exported) transferable secret key reads back, packet
/// by packet, as its keys (with the secrets and stubs written), its
/// components and its signatures, in the order written.
pub proof fn lemma_tsk_reads_back(c: Cert, filter: Option<Seq<bool>>, stubs: bool, export: bool)
    requires
        tsk_bytes(c, filter, stubs, export).len() <= u32::MAX,
        bundles_tags_fit(c.unknowns@),
    ensures
        read_packets(tsk_bytes(c, filter, stubs, export)) == Some(
            tsk_fields(c, filter, stubs, export),
        ),
{
    assert(bundles_tags_fit(c.userids@));
    assert(bundles_tags_fit(c.user_attributes@));
    let k = c.primary.component;
    let allowed = filter_allows(filter, 0);
    lemma_tsk_key_read(k, Tag::PublicKey, Tag::SecretKey, allowed, stubs);
    let x1 = tsk_key_bytes(k, Tag::PublicKey, Tag::SecretKey, allowed, stubs);
    let l1 = tsk_key_fields(k, Tag::PublicKey, Tag::SecretKey, allowed, stubs);
    lemma_bundle_sigs_read(c.primary, export);
    lemma_reads_as_concat(x1, l1, bundle_sigs(c.primary, export), bundle_sigs_fields(c.primary, export));
    let x2 = x1 + bundle_sigs(c.primary, export);
    let l2 = l1 + bundle_sigs_fields(c.primary, export);
    lemma_bundles_read(c.userids@, export, false);
    lemma_reads_as_concat(x2, l2, bundles_out(c.userids@, export, false), bundles_fields(c.userids@, export, false));
    let x3 = x2 + bundles_out(c.userids@, export, false);
    let l3 = l2 + bundles_fields(c.userids@, export, false);
    lemma_bundles_read(c.user_attributes@, export, false);
    lemma_reads_as_concat(x3, l3, bundles_out(c.user_attributes@, export, false), bundles_fields(c.user_attributes@, export, false));
    let x4 = x3 + bundles_out(c.user_attributes@, export, false);
    let l4 = l3 + bundles_fields(c.user_attributes@, export, false);
    lemma_tsk_subkeys_read(c.subkeys@, filter, stubs, export);
    lemma_reads_as_concat(x4, l4, tsk_subkeys_out(c.subkeys@, filter, stubs, export), tsk_subkeys_fields(c.subkeys@, filter, stubs, export));
    let x5 = x4 + tsk_subkeys_out(c.subkeys@, filter, stubs, export);
    let l5 = l4 + tsk_subkeys_fields(c.subkeys@, filter, stubs, export);
    lemma_bundles_read(c.unknowns@, export, true);
    lemma_reads_as_concat(x5, l5, bundles_out(c.unknowns@, export, true), bundles_fields(c.unknowns@, export, true));
    let x6 = x5 + bundles_out(c.unknowns@, export, true);
    let l6 = l5 + bundles_fields(c.unknowns@, export, true);
    lemma_sigs_read(c.bad_signatures@, export);
    lemma_reads_as_concat(x6, l6, sigs_out(c.bad_signatures@, export), sigs_fields(c.bad_signatures@, export));
    let x7 = x6 + sigs_out(c.bad_signatures@, export);
    let l7 = l6 + sigs_fields(c.bad_signatures@, export);
    assert(x7 == tsk_bytes(c, filter, stubs, export));
    assert(read_packets(x7 + Seq::<u8>::empty()) == prepend(l7, read_packets(Seq::<u8>::empty())));
    assert(x7 + Seq::<u8>::empty() =~= x7);
    assert(l7 + Seq::<(u8, Seq<u8>)>::empty() =~= l7);
}

} // verus!
