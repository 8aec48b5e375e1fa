//! What the library puts on the wire, stated octet by octet: the tag
//! number and body that a packet reader finds in each packet, and which
//! signatures and components a serialization and an export write, and
//! in which order.
use vstd::prelude::*;
use crate::bytes::opt_bytes;
use crate::cert::{
    bundle_exported, bundle_sigs, bundles_out, cert_bytes, sigs_out, Cert, Component,
    ComponentBundle,
};
use crate::compression::compressed_body;
use crate::header::Tag;
use crate::packet::{new_packet, opt_packets, packet_bytes, packet_wf, packets_bytes, Key, Packet, Signature};
use crate::subpacket::{
    exportable_certification, first_subpacket, has_sensitive_revocation_key, subpacket_length,
    subpackets, Subpacket,
};
use crate::tsk::{key_stub, tsk_bytes, tsk_key_bytes, tsk_subkeys_out};
use crate::reading::{lemma_read_packet_back, packet_body, packet_fits, read_packet};

verus! {

/// A signature packet reads back as tag 2 with the body: version 4, the
/// signature type, the public key and hash algorithms, the length of
/// the hashed area as two big-endian octets, the hashed area, the length
/// of the unhashed area as two big-endian octets, the unhashed area,
/// the two octets of the hash prefix, and the MPIs.
#[verifier::spinoff_prover]
pub proof fn lemma_signature_on_wire(s: Signature, rest: Seq<u8>)
    requires
        s.wf(),
        s.spec_body_len() <= u32::MAX,
    ensures
        read_packet(s.spec_bytes() + rest) == Some(
            (
                2u8,
                seq![4u8, s.sigtype, s.pk_algo, s.hash_algo] + two_octets(s.hashed_area@.len())
                    + s.hashed_area@ + two_octets(s.unhashed_area@.len()) + s.unhashed_area@
                    + seq![s.hash_prefix[0], s.hash_prefix[1]] + s.mpis@,
                s.spec_bytes().len(),
            ),
        ),
{
    let p = Packet::Signature(s);
    assert(packet_bytes(p) == s.spec_bytes());
    assert(packet_body(p).len() == s.spec_body_len());
    lemma_packet_kind_on_wire(p, rest);
}

/// The public part of a key packet's body: the version, the creation
/// time as four big-endian octets, the public key algorithm, the MPIs.
pub open spec fn key_public_octets(k: Key) -> Seq<u8> {
    let t = k.creation_time;
    seq![
        k.version,
        (t / 0x100_0000) as u8,
        ((t / 0x1_0000) % 256) as u8,
        ((t / 0x100) % 256) as u8,
        (t % 256) as u8,
        k.pk_algo,
    ] + k.mpis@
}

/// The tag number of each kind of packet (RFC 4880, 4.3): a signature
/// 2, a secret key 5, a public key 6, a secret subkey 7, compressed data
/// 8, literal data 11, a user ID 13, a public subkey 14, a user
/// attribute 17; an unknown packet carries its own.
pub open spec fn kind_number(p: Packet) -> u8 {
    match p {
        Packet::Unknown(u) => u.tag.spec_numeric(),
        Packet::Signature(_) => 2u8,
        Packet::SecretKey(_) => 5u8,
        Packet::PublicKey(_) => 6u8,
        Packet::SecretSubkey(_) => 7u8,
        Packet::CompressedData(_) => 8u8,
        Packet::Literal(_) => 11u8,
        Packet::UserID(_) => 13u8,
        Packet::PublicSubkey(_) => 14u8,
        Packet::UserAttribute(_) => 17u8,
    }
}

/// Two octets, most significant first.
pub open spec fn two_octets(n: nat) -> Seq<u8> {
    seq![(n / 256) as u8, (n % 256) as u8]
}

/// Four octets, most significant first.
pub open spec fn four_octets(n: u32) -> Seq<u8> {
    seq![
        (n / 0x100_0000) as u8,
        ((n / 0x1_0000) % 256) as u8,
        ((n / 0x100) % 256) as u8,
        (n % 256) as u8,
    ]
}

/// The body of each kind of packet (RFC 4880, 5): a signature holds
/// version, type, algorithms, the hashed and unhashed subpacket areas
/// each after its two-octet length, the hash prefix and the MPIs; a
/// public key packet the version, the creation time, the algorithm and
/// the MPIs, a secret key packet that followed by the secret key
/// material; literal data the format, the file name (at most 255
/// octets) after its one-octet length, the date and the data;
/// compressed data the algorithm octet and the compressed contained
/// packets and raw data; the others their contents.
pub open spec fn kind_body(p: Packet) -> Seq<u8> {
    match p {
        Packet::Unknown(u) => opt_bytes(u.body),
        Packet::Signature(s) => seq![s.version, s.sigtype, s.pk_algo, s.hash_algo] + two_octets(
            s.hashed_area@.len(),
        ) + s.hashed_area@ + two_octets(s.unhashed_area@.len()) + s.unhashed_area@ + seq![
            s.hash_prefix[0],
            s.hash_prefix[1],
        ] + s.mpis@,
        Packet::PublicKey(k) => key_public_octets(k),
        Packet::PublicSubkey(k) => key_public_octets(k),
        Packet::SecretKey(k) => key_public_octets(k) + opt_bytes(k.secret),
        Packet::SecretSubkey(k) => key_public_octets(k) + opt_bytes(k.secret),
        Packet::UserID(u) => u.value@,
        Packet::UserAttribute(u) => u.value@,
        Packet::Literal(l) => {
            let f = opt_bytes(l.filename);
            let name = if f.len() <= 255 {
                f
            } else {
                f.take(255)
            };
            seq![l.format, name.len() as u8] + name + four_octets(l.date) + opt_bytes(l.body)
        },
        Packet::CompressedData(c) => seq![c.algo] + compressed_body(
            c.algo,
            packets_bytes(opt_packets(c.children)) + opt_bytes(c.body),
        ),
    }
}

proof fn lemma_signature_body(s: Signature)
    requires
        s.wf(),
    ensures
        s.spec_body() == kind_body(Packet::Signature(s)),
{
    assert((s.hashed_area@.len() as u16) as int == s.hashed_area@.len());
    assert((s.unhashed_area@.len() as u16) as int == s.unhashed_area@.len());
    assert(s.spec_body() =~= kind_body(Packet::Signature(s)));
}

proof fn lemma_key_body(k: Key)
    ensures
        k.spec_public_body() == key_public_octets(k),
{
    assert(k.spec_public_body() =~= key_public_octets(k));
}

#[verifier::spinoff_prover]
proof fn lemma_kind_body(p: Packet)
    requires
        packet_wf(p),
    ensures
        packet_body(p) == kind_body(p),
{
    match p {
        Packet::Signature(s) => lemma_signature_body(s),
        Packet::PublicKey(k) => lemma_key_body(k),
        Packet::PublicSubkey(k) => lemma_key_body(k),
        Packet::SecretKey(k) => lemma_key_body(k),
        Packet::SecretSubkey(k) => lemma_key_body(k),
        Packet::Literal(l) => {
            assert(packet_body(p) =~= kind_body(p));
        },
        Packet::CompressedData(c) => {
            assert(c.spec_content() == packets_bytes(opt_packets(c.children)) + opt_bytes(c.body));
        },
        _ => {},
    }
}

/// Every packet is written under the tag number of its kind, and a
/// packet reader finds that number and the body the kind calls for;
/// `Packet::tag` gives the same tag.  A stored (algorithm 0) compressed
/// data packet holds its algorithm octet followed by the contained
/// packets and the raw data, uncompressed.
#[verifier::spinoff_prover]
pub proof fn lemma_packet_kind_on_wire(p: Packet, rest: Seq<u8>)
    requires
        packet_wf(p),
        packet_fits(p),
    ensures
        p.spec_tag().spec_numeric() == kind_number(p),
        read_packet(packet_bytes(p) + rest) == Some(
            (kind_number(p), kind_body(p), packet_bytes(p).len()),
        ),
        p matches Packet::CompressedData(c) ==> (c.algo == 0 ==> kind_body(p) == seq![0u8]
            + packets_bytes(opt_packets(c.children)) + opt_bytes(c.body)),
{
    lemma_read_packet_back(p, rest);
    lemma_kind_body(p);
    if let Packet::CompressedData(c) = p {
        if c.algo == 0 {
            assert(kind_body(p) =~= seq![0u8] + packets_bytes(opt_packets(c.children))
                + opt_bytes(c.body));
        }
    }
}

/// A serialization writes every signature of a list, one after the
/// other; an export writes, in the same order, those that may be
/// exported, and leaves out each one that may not.
pub proof fn lemma_signatures_written(s: Seq<Signature>, x: Signature)
    ensures
        sigs_out(Seq::empty(), false) == Seq::<u8>::empty(),
        sigs_out(Seq::empty(), true) == Seq::<u8>::empty(),
        sigs_out(s.push(x), false) == sigs_out(s, false) + x.spec_bytes(),
        x.spec_exportable() ==> sigs_out(s.push(x), true) == sigs_out(s, true) + x.spec_bytes(),
        !x.spec_exportable() ==> sigs_out(s.push(x), true) == sigs_out(s, true),
{
    assert(s.push(x).drop_last() =~= s);
}

/// What an export writes of a list of signatures is the serialization
/// of just those that may be exported.
pub proof fn lemma_export_writes_exportable(s: Seq<Signature>)
    ensures
        sigs_out(s, true) == sigs_out(s.filter(|y: Signature| y.spec_exportable()), false),
    decreases s.len(),
{
    let pred = |y: Signature| y.spec_exportable();
    reveal(Seq::filter);
    if s.len() > 0 {
        lemma_export_writes_exportable(s.drop_last());
        let f = s.drop_last().filter(pred);
        assert(s.filter(pred) == if pred(s.last()) {
            f.push(s.last())
        } else {
            f
        });
        if pred(s.last()) {
            lemma_signatures_written(f, s.last());
        }
    }
}

/// The signatures of a bundle, as written: the self revocations, the
/// self signatures, the certifications, then the other revocations.
pub open spec fn bundle_signatures_in_order<C>(b: ComponentBundle<C>, export: bool) -> Seq<u8> {
    sigs_out(b.self_revocations@, export) + sigs_out(b.self_signatures@, export) + sigs_out(
        b.certifications@,
        export,
    ) + sigs_out(b.other_revocations@, export)
}

/// Writing bundles writes each in turn: its component's packet, then
/// its signatures, self revocations first, then self signatures, then
/// certifications, then other revocations.  An export leaves out a
/// user ID, user attribute or subkey bundle exactly when none of its
/// self signatures and none of its self revocations may be exported,
/// and an unknown component's bundle exactly when none of its
/// certifications may.
pub proof fn lemma_bundles_written<C: Component>(
    s: Seq<ComponentBundle<C>>,
    b: ComponentBundle<C>,
    export: bool,
)
    ensures
        bundles_out(Seq::<ComponentBundle<C>>::empty(), export, false) == Seq::<u8>::empty(),
        bundles_out(Seq::<ComponentBundle<C>>::empty(), export, true) == Seq::<u8>::empty(),
        bundle_sigs(b, export) == bundle_signatures_in_order(b, export),
        bundles_out(s.push(b), export, false) == bundles_out(s, export, false) + if !export || (
        exists|i: int| 0 <= i < b.self_signatures@.len() && #[trigger] b.self_signatures@[i].spec_exportable())
            || (exists|i: int|
            0 <= i < b.self_revocations@.len() && #[trigger] b.self_revocations@[i].spec_exportable()) {
            b.component.component_bytes() + bundle_signatures_in_order(b, export)
        } else {
            Seq::empty()
        },
        bundles_out(s.push(b), export, true) == bundles_out(s, export, true) + if !export || (
        exists|i: int| 0 <= i < b.certifications@.len() && #[trigger] b.certifications@[i].spec_exportable()) {
            b.component.component_bytes() + bundle_signatures_in_order(b, export)
        } else {
            Seq::empty()
        },
{
    assert(s.push(b).drop_last() =~= s);
    lemma_bundle_exported_iff(b);
}

proof fn lemma_bundle_exported_iff<C>(b: ComponentBundle<C>)
    ensures
        bundle_exported(b, false) == ((exists|i: int|
            0 <= i < b.self_signatures@.len() && #[trigger] b.self_signatures@[i].spec_exportable())
            || (exists|i: int|
            0 <= i < b.self_revocations@.len() && #[trigger] b.self_revocations@[i].spec_exportable())),
{
    let s1 = b.self_signatures@;
    let s2 = b.self_revocations@;
    let t = s1 + s2;
    if exists|i: int| 0 <= i < t.len() && #[trigger] t[i].spec_exportable() {
        let i = choose|i: int| 0 <= i < t.len() && #[trigger] t[i].spec_exportable();
        if i < s1.len() {
            assert(s1[i] == t[i]);
        } else {
            assert(s2[i - s1.len()] == t[i]);
        }
    }
    if exists|i: int| 0 <= i < s1.len() && #[trigger] s1[i].spec_exportable() {
        let i = choose|i: int| 0 <= i < s1.len() && #[trigger] s1[i].spec_exportable();
        assert(t[i] == s1[i]);
    }
    if exists|i: int| 0 <= i < s2.len() && #[trigger] s2[i].spec_exportable() {
        let i = choose|i: int| 0 <= i < s2.len() && #[trigger] s2[i].spec_exportable();
        assert(t[i + s1.len()] == s2[i]);
    }
}

/// Each component is written as the packet of its kind: a user ID as a
/// user ID packet, a user attribute as a user attribute packet, a
/// subkey as a public subkey packet (never with its secret), an unknown
/// component as itself.
pub proof fn lemma_components_written(
    u: crate::packet::UserID,
    a: crate::packet::UserAttribute,
    k: Key,
    x: crate::packet::Unknown,
)
    ensures
        u.component_bytes() == packet_bytes(Packet::UserID(u)),
        a.component_bytes() == packet_bytes(Packet::UserAttribute(a)),
        k.component_bytes() == packet_bytes(Packet::PublicSubkey(k)),
        x.component_bytes() == packet_bytes(Packet::Unknown(x)),
{
}

/// A certificate is written as its primary key's public key packet,
/// the primary key's signatures (self revocations, self signatures,
/// certifications, other revocations), the user ID bundles, the user
/// attribute bundles, the subkey bundles, the unknown components'
/// bundles, and the signatures that could not be placed.
pub proof fn lemma_cert_written(c: Cert, export: bool)
    ensures
        cert_bytes(c, export) == packet_bytes(Packet::PublicKey(c.primary.component))
            + bundle_signatures_in_order(c.primary, export) + bundles_out(c.userids@, export, false)
            + bundles_out(c.user_attributes@, export, false) + bundles_out(
            c.subkeys@,
            export,
            false,
        ) + bundles_out(c.unknowns@, export, true) + sigs_out(c.bad_signatures@, export),
{
}

/// In a transferable secret key, a key is written as a secret key
/// packet holding its secret where it has one and the filter lets it
/// through; else, where stubs are written, as a secret key packet whose
/// secret key material is the GnuPG stub (S2K usage 255, algorithm 0,
/// private S2K 101 with "GNU" mode 1); else as a public key packet.
pub proof fn lemma_tsk_key_written(k: Key, allowed: bool, stubs: bool)
    ensures
        tsk_key_bytes(k, Tag::PublicKey, Tag::SecretKey, allowed, stubs) == if k.spec_has_secret()
            && allowed {
            packet_bytes(Packet::SecretKey(k))
        } else if stubs {
            new_packet(
                Tag::SecretKey,
                key_public_octets(k) + seq![0xFFu8, 0u8, 101u8, 0u8, 0x47u8, 0x4Eu8, 0x55u8, 1u8],
            )
        } else {
            packet_bytes(Packet::PublicKey(k))
        },
        tsk_key_bytes(k, Tag::PublicSubkey, Tag::SecretSubkey, allowed, stubs) == if k.spec_has_secret()
            && allowed {
            packet_bytes(Packet::SecretSubkey(k))
        } else if stubs {
            new_packet(
                Tag::SecretSubkey,
                key_public_octets(k) + seq![0xFFu8, 0u8, 101u8, 0u8, 0x47u8, 0x4Eu8, 0x55u8, 1u8],
            )
        } else {
            packet_bytes(Packet::PublicSubkey(k))
        },
{
    lemma_key_body(k);
    assert(key_stub() =~= seq![0xFFu8, 0u8, 101u8, 0u8, 0x47u8, 0x4Eu8, 0x55u8, 1u8]);
}

/// A transferable secret key is written as its certificate is, but
/// with each key written as `lemma_tsk_key_written` says: the primary
/// key, its signatures in the bundle order, the user ID, user attribute
/// bundles, then each subkey bundle (left out of an export exactly as
/// in a certificate's export), the unknown components and the
/// signatures that could not be placed.  The `i`th subkey's secret is
/// let through where the decisions say so for key `i + 1`, or always
/// where there are none.
pub proof fn lemma_tsk_written(
    c: Cert,
    d: Option<Seq<bool>>,
    stubs: bool,
    export: bool,
    s: Seq<ComponentBundle<Key>>,
    b: ComponentBundle<Key>,
)
    ensures
        tsk_bytes(c, d, stubs, export) == tsk_key_bytes(
            c.primary.component,
            Tag::PublicKey,
            Tag::SecretKey,
            match d {
                Some(v) => v[0],
                None => true,
            },
            stubs,
        ) + bundle_signatures_in_order(c.primary, export) + bundles_out(c.userids@, export, false)
            + bundles_out(c.user_attributes@, export, false) + tsk_subkeys_out(
            c.subkeys@,
            d,
            stubs,
            export,
        ) + bundles_out(c.unknowns@, export, true) + sigs_out(c.bad_signatures@, export),
        tsk_subkeys_out(Seq::empty(), d, stubs, export) == Seq::<u8>::empty(),
        tsk_subkeys_out(s.push(b), d, stubs, export) == tsk_subkeys_out(s, d, stubs, export)
            + if !export || (exists|i: int|
            0 <= i < b.self_signatures@.len() && #[trigger] b.self_signatures@[i].spec_exportable())
            || (exists|i: int|
            0 <= i < b.self_revocations@.len() && #[trigger] b.self_revocations@[i].spec_exportable()) {
            tsk_key_bytes(
                b.component,
                Tag::PublicSubkey,
                Tag::SecretSubkey,
                match d {
                    Some(v) => v[s.len() + 1int],
                    None => true,
                },
                stubs,
            ) + bundle_signatures_in_order(b, export)
        } else {
            Seq::empty()
        },
{
    assert(s.push(b).drop_last() =~= s);
    lemma_bundle_exported_iff(b);
}

/// A subpacket with a body below 191 octets is read as its type
/// (without the critical bit) and its body, and reading goes on right
/// after it.
pub proof fn lemma_short_subpacket_read(t: u8, body: Seq<u8>, rest: Seq<u8>)
    requires
        body.len() < 191,
    ensures
        subpackets(seq![(body.len() + 1) as u8, t] + body + rest) == seq![((t & 0x7Fu8), body)]
            + subpackets(rest),
{
    let a = seq![(body.len() + 1) as u8, t] + body + rest;
    let n = body.len() + 2;
    assert(subpacket_length(a) == Some(((body.len() + 1) as nat, 1nat)));
    assert(a.subrange(2, n as int) =~= body);
    assert(first_subpacket(a) == Some((((t & 0x7Fu8), body), n as nat)));
    assert(a.skip(n as int) =~= rest);
}

/// A non-exportable exportable-certification subpacket: type 4, one
/// octet of body, the octet zero.
pub open spec fn marks_local(sp: Subpacket) -> bool {
    sp.0 == 4 && sp.1.len() == 1 && sp.1[0] == 0
}

/// An exportable-certification subpacket that allows export: type 4,
/// one octet of body, the octet not zero.
pub open spec fn marks_exportable(sp: Subpacket) -> bool {
    sp.0 == 4 && sp.1.len() == 1 && sp.1[0] != 0
}

proof fn lemma_certification_flag(s: Seq<Subpacket>)
    ensures
        (exportable_certification(s) != Some(false)) <==> (forall|i: int|
            0 <= i < s.len() && marks_local(#[trigger] s[i]) ==> exists|j: int|
                i < j < s.len() && marks_exportable(#[trigger] s[j])),
    decreases s.len(),
{
    if s.len() > 0 {
        let s0 = s.drop_last();
        let x = s.last();
        let n = s.len() - 1;
        lemma_certification_flag(s0);
        assert(s[n] == x);
        assert forall|i: int| 0 <= i < n implies s0[i] == s[i] by {}
        if x.0 == 4 && x.1.len() == 1 {
            if x.1[0] != 0 {
                assert forall|i: int|
                    0 <= i < s.len() && marks_local(#[trigger] s[i]) implies exists|j: int|
                    i < j < s.len() && marks_exportable(#[trigger] s[j]) by {
                    assert(marks_exportable(s[n]));
                }
            } else {
                assert(marks_local(s[n]));
            }
        } else {
            assert(!marks_local(s[n]) && !marks_exportable(s[n]));
            if exportable_certification(s0) != Some(false) {
                assert forall|i: int|
                    0 <= i < s.len() && marks_local(#[trigger] s[i]) implies exists|j: int|
                    i < j < s.len() && marks_exportable(#[trigger] s[j]) by {
                    assert(s0[i] == s[i]);
                    let j = choose|j: int| i < j < s0.len() && marks_exportable(#[trigger] s0[j]);
                    assert(s[j] == s0[j]);
                }
            } else {
                let i = choose|i: int|
                    0 <= i < s0.len() && marks_local(#[trigger] s0[i]) && !(exists|j: int|
                        i < j < s0.len() && marks_exportable(#[trigger] s0[j]));
                assert(marks_local(s[i]));
                if exists|j: int| i < j < s.len() && marks_exportable(#[trigger] s[j]) {
                    let j = choose|j: int| i < j < s.len() && marks_exportable(#[trigger] s[j]);
                    assert(j != n);
                    assert(s0[j] == s[j]);
                }
            }
        }
    }
}

proof fn lemma_sensitive_key(s: Seq<Subpacket>)
    ensures
        has_sensitive_revocation_key(s) <==> exists|i: int|
            0 <= i < s.len() && #[trigger] s[i].0 == 12 && s[i].1.len() == 22 && (s[i].1[0]
                & 0x40u8) != 0,
    decreases s.len(),
{
    if s.len() > 0 {
        let s0 = s.drop_last();
        let n = s.len() - 1;
        lemma_sensitive_key(s0);
        if has_sensitive_revocation_key(s0) {
            let i = choose|i: int|
                0 <= i < s0.len() && #[trigger] s0[i].0 == 12 && s0[i].1.len() == 22 && (s0[i].1[0]
                    & 0x40u8) != 0;
            assert(s[i] == s0[i]);
        }
        if exists|i: int|
            0 <= i < s.len() && #[trigger] s[i].0 == 12 && s[i].1.len() == 22 && (s[i].1[0]
                & 0x40u8) != 0 {
            let i = choose|i: int|
                0 <= i < s.len() && #[trigger] s[i].0 == 12 && s[i].1.len() == 22 && (s[i].1[0]
                    & 0x40u8) != 0;
            if i < n {
                assert(s0[i] == s[i]);
            } else {
                assert(s[i] == s.last());
            }
        }
    }
}

/// A signature may be exported exactly when, among the subpackets of
/// its hashed area, no revocation key subpacket (type 12, 22 octets)
/// has the sensitive flag (0x40) set, and every exportable-certification
/// subpacket that says "local" (type 4, the octet zero) is followed by
/// one that says "exportable": what counts is the last one.
pub proof fn lemma_exportable_means(s: Signature)
    ensures
        s.spec_exportable() <==> ({
            let sp = subpackets(s.hashed_area@);
            &&& !(exists|i: int|
                0 <= i < sp.len() && #[trigger] sp[i].0 == 12 && sp[i].1.len() == 22 && (
                sp[i].1[0] & 0x40u8) != 0)
            &&& forall|i: int|
                0 <= i < sp.len() && marks_local(#[trigger] sp[i]) ==> exists|j: int|
                    i < j < sp.len() && marks_exportable(#[trigger] sp[j])
        }),
{
    lemma_certification_flag(subpackets(s.hashed_area@));
    lemma_sensitive_key(subpackets(s.hashed_area@));
}

} // verus!
