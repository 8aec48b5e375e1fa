//! Transferable secret keys: serializing a certificate together with
//! (some of) its secret key material.
use vstd::prelude::*;
use crate::cert::{
    bundle_exported, bundle_sigs, bundle_sigs_len, bundles_len, bundles_out, cert_bytes,
    cert_key, copy_into_buffer, into_buffer_result, is_bundle_exported,
    lemma_bundle_sigs_export_len, lemma_bundles_out_export_len,
    lemma_sigs_out_export_len, serialize_bundle_sigs, serialize_bundles, serialize_sigs, sigs_len,
    sigs_out, Cert, ComponentBundle, SerializeError,
};
use crate::bytes::opt_bytes;
use crate::header::{lemma_new_format_length_size, Tag};
use crate::packet::Key;

verus! {

/// A filter on the keys whose secrets a `TSK` writes.  Every closure
/// `Fn(&Key) -> bool` is one; `NoFilter` is the type of a `TSK` that has
/// none.
pub trait KeyFilter {
    /// Whether the filter may be asked about `key`.
    spec fn admits(&self, key: Key) -> bool;

    /// Whether `b` is an answer the filter may give about `key`.
    spec fn answers(&self, key: Key, b: bool) -> bool;

    /// Asks the filter whether the secret of `key` may be written.
    fn allows(&self, key: &Key) -> (b: bool)
        requires
            self.admits(*key),
        ensures
            self.answers(*key, b),
    ;
}

impl<P: Fn(&Key) -> bool> KeyFilter for P {
    open spec fn admits(&self, key: Key) -> bool {
        self.requires((&key,))
    }

    open spec fn answers(&self, key: Key, b: bool) -> bool {
        self.ensures((&key,), b)
    }

    fn allows(&self, key: &Key) -> (b: bool) {
        (*self)(key)
    }
}

/// The filter type of a `TSK` without a filter: it lets every secret
/// through.
pub struct NoFilter;

impl KeyFilter for NoFilter {
    open spec fn admits(&self, key: Key) -> bool {
        true
    }

    open spec fn answers(&self, key: Key, b: bool) -> bool {
        b
    }

    fn allows(&self, key: &Key) -> (b: bool) {
        true
    }
}

/// The secret key material of a GnuPG-style secret key stub: S2K usage
/// 255 (16-bit checksum), symmetric algorithm 0, and the private S2K
/// type 101 with the parameters 0, "GNU", 1 (mode 1: no secret key).
pub open spec fn key_stub() -> Seq<u8> {
    seq![0xFFu8, 0x00u8, 101u8, 0x00u8, 0x47u8, 0x4Eu8, 0x55u8, 0x01u8]
}

/// Returns the secret key material of a secret key stub.
fn key_stub_vec() -> (v: Vec<u8>)
    ensures
        v@ == key_stub(),
{
    let mut v: Vec<u8> = Vec::new();
    v.push(0xFF);
    v.push(0x00);
    v.push(101);
    v.push(0x00);
    v.push(0x47);
    v.push(0x4E);
    v.push(0x55);
    v.push(0x01);
    assert(v@ =~= key_stub());
    v
}

/// Whether the filter lets the secret of the certificate's `i`th key
/// (primary key first) be written: no filter lets every secret through.
pub open spec fn filter_allows(filter: Option<Seq<bool>>, i: int) -> bool {
    match filter {
        Some(d) => d[i],
        None => true,
    }
}

/// The filter has one decision per key of the certificate.
pub open spec fn filter_fits(c: Cert, filter: Option<Seq<bool>>) -> bool {
    match filter {
        Some(d) => d.len() == c.subkeys@.len() + 1,
        None => true,
    }
}

/// How a key is written: as a secret key packet with its secret where
/// it has one and the filter allows it; else as a public key packet, or,
/// with `stubs`, as a secret key packet holding a secret key stub.
pub open spec fn tsk_key_bytes(
    k: Key,
    tag_public: Tag,
    tag_secret: Tag,
    allowed: bool,
    stubs: bool,
) -> Seq<u8> {
    if k.spec_has_secret() && allowed {
        k.spec_bytes(tag_secret)
    } else if stubs {
        k.spec_bytes_with_secret(tag_secret, key_stub())
    } else {
        k.spec_bytes(tag_public)
    }
}

/// What a subkey bundle contributes at position `i` of the subkeys.
pub open spec fn tsk_subkey_out(
    b: ComponentBundle<Key>,
    i: int,
    filter: Option<Seq<bool>>,
    stubs: bool,
    export: bool,
) -> Seq<u8> {
    if export && !bundle_exported(b, false) {
        Seq::empty()
    } else {
        tsk_key_bytes(
            b.component,
            Tag::PublicSubkey,
            Tag::SecretSubkey,
            filter_allows(filter, i + 1),
            stubs,
        ) + bundle_sigs(b, export)
    }
}

/// What the subkey bundles contribute, in order.
pub open spec fn tsk_subkeys_out(
    s: Seq<ComponentBundle<Key>>,
    filter: Option<Seq<bool>>,
    stubs: bool,
    export: bool,
) -> Seq<u8>
    decreases s.len(),
{
    if s.len() == 0 {
        Seq::empty()
    } else {
        tsk_subkeys_out(s.drop_last(), filter, stubs, export) + tsk_subkey_out(
            s.last(),
            s.len() - 1,
            filter,
            stubs,
            export,
        )
    }
}

/// The serialized transferable secret key, or with `export` its export:
/// as the certificate's serialization, but each key written as
/// `tsk_key_bytes` says.
pub open spec fn tsk_bytes(c: Cert, filter: Option<Seq<bool>>, stubs: bool, export: bool) -> Seq<
    u8,
> {
    tsk_key_bytes(
        c.primary.component,
        Tag::PublicKey,
        Tag::SecretKey,
        filter_allows(filter, 0),
        stubs,
    ) + bundle_sigs(c.primary, export) + bundles_out(c.userids@, export, false) + bundles_out(
        c.user_attributes@,
        export,
        false,
    ) + tsk_subkeys_out(c.subkeys@, filter, stubs, export) + bundles_out(c.unknowns@, export, true)
        + sigs_out(c.bad_signatures@, export)
}

/// The key has room for the 8 octets of a secret key stub.
pub open spec fn key_fits_stub(k: Key) -> bool {
    14 + k.mpis@.len() <= usize::MAX
}

/// Every key of the certificate has room for a secret key stub.
pub open spec fn stub_room(c: Cert) -> bool {
    forall|i: int| 0 <= i <= c.subkeys@.len() ==> key_fits_stub(#[trigger] cert_key(c, i))
}

/// The certificate can be written as a transferable secret key: it can
/// be written, and where stubs are written, every key has room for one.
pub open spec fn tsk_wf(c: Cert, stubs: bool) -> bool {
    c.wf() && (stubs ==> stub_room(c))
}

/// Whether the certificate's `i`th key (primary key first) is written:
/// an export leaves out the subkeys that nothing exportable binds.
pub open spec fn key_written(c: Cert, i: int, export: bool) -> bool {
    i == 0 || !export || bundle_exported(c.subkeys@[i - 1], false)
}

/// Whether a filter is asked about the `i`th key: the key is written
/// and has a secret.
pub open spec fn filter_asked(c: Cert, i: int, export: bool) -> bool {
    key_written(c, i, export) && cert_key(c, i).spec_has_secret()
}

/// The filter may be asked about each key it is asked about when the
/// certificate is written (or, with `export`, exported).
pub open spec fn filter_admits<F: KeyFilter>(c: Cert, filter: Option<F>, export: bool) -> bool {
    match filter {
        Some(f) => forall|i: int|
            0 <= i <= c.subkeys@.len() && #[trigger] filter_asked(c, i, export) ==> f.admits(
                cert_key(c, i),
            ),
        None => true,
    }
}

/// `d` records the decisions of one writing of the certificate: with no
/// filter there are none; with a filter, `d[i]` is what the filter
/// answered about the `i`th key where it was asked, and `false` where it
/// was not.
pub open spec fn filter_answered<F: KeyFilter>(
    c: Cert,
    filter: Option<F>,
    export: bool,
    d: Option<Seq<bool>>,
) -> bool {
    match filter {
        None => d is None,
        Some(f) => match d {
            Some(s) => {
                &&& s.len() == c.subkeys@.len() + 1
                &&& forall|i: int|
                    0 <= i <= c.subkeys@.len() ==> if #[trigger] filter_asked(c, i, export) {
                        f.answers(cert_key(c, i), s[i])
                    } else {
                        !s[i]
                    }
            },
            None => false,
        },
    }
}

/// Whatever a filter answers, the serialized transferable secret key
/// has a length that fits in a `usize`.
pub open spec fn tsk_len_fits(c: Cert, stubs: bool) -> bool {
    forall|d: Option<Seq<bool>>|
        filter_fits(c, d) ==> (#[trigger] tsk_bytes(c, d, stubs, false)).len() <= usize::MAX
}

/// A filter that may be asked about every key a serialization asks it
/// about may be asked about every key an export asks it about.
proof fn lemma_filter_admits_export<F: KeyFilter>(c: Cert, filter: Option<F>)
    requires
        filter_admits(c, filter, false),
    ensures
        filter_admits(c, filter, true),
{
    if let Some(f) = filter {
        assert forall|i: int|
            0 <= i <= c.subkeys@.len() && #[trigger] filter_asked(c, i, true) implies f.admits(
                cert_key(c, i),
            ) by {
            assert(filter_asked(c, i, false));
        }
    }
}

/// One writing of a transferable secret key: the certificate, for each
/// key whether its secret is written (as the filter answered), and
/// whether secret key stubs are written.
struct TskPlan<'a> {
    cert: &'a Cert,
    filter: Option<Vec<bool>>,
    emit_stubs: bool,
}

impl<'a> TskPlan<'a> {
    #[verifier::type_invariant]
    spec fn filter_matches_keys(self) -> bool {
        match self.filter {
            Some(d) => d@.len() == self.cert.subkeys@.len() + 1,
            None => true,
        }
    }

    /// The certificate.
    spec fn spec_cert(&self) -> Cert {
        *self.cert
    }

    /// Whether each key's secret may be written (primary key first), if
    /// a filter decided it.
    spec fn spec_filter(&self) -> Option<Seq<bool>> {
        match self.filter {
            Some(d) => Some(d@),
            None => None,
        }
    }

    /// Whether secret key stubs are written in place of secrets that are
    /// not.
    spec fn spec_emit_stubs(&self) -> bool {
        self.emit_stubs
    }


    /// Returns whether the filter lets the secret of the `i`th key be
    /// written.
    fn allows(&self, i: usize) -> (b: bool)
        requires
            i <= self.spec_cert().subkeys@.len(),
        ensures
            b == filter_allows(self.spec_filter(), i as int),
    {
        proof {
            use_type_invariant(self);
        }
        match &self.filter {
            Some(d) => d[i],
            None => true,
        }
    }

    /// Writes a key as `tsk_key_bytes` says.
    fn serialize_key(&self, o: &mut Vec<u8>, key: &Key, tag_public: Tag, tag_secret: Tag, allowed: bool)
        requires
            key.wf(),
            self.spec_emit_stubs() ==> key_fits_stub(*key),
            (tag_public == Tag::PublicKey && tag_secret == Tag::SecretKey) || (tag_public
                == Tag::PublicSubkey && tag_secret == Tag::SecretSubkey),
        ensures
            final(o)@ == old(o)@ + tsk_key_bytes(
                *key,
                tag_public,
                tag_secret,
                allowed,
                self.spec_emit_stubs(),
            ),
    {
        if key.has_secret() && allowed {
            key.serialize(o, tag_secret);
        } else if self.emit_stubs {
            let stub: Vec<u8> = key_stub_vec();
            key.serialize_with_secret(o, tag_secret, stub.as_slice());
        } else {
            key.serialize(o, tag_public);
        }
    }

    /// Returns the length of what `serialize_key` writes.
    fn key_len(&self, key: &Key, tag_public: Tag, tag_secret: Tag, allowed: bool) -> (n: usize)
        requires
            key.wf(),
            self.spec_emit_stubs() ==> key_fits_stub(*key),
            (tag_public == Tag::PublicKey && tag_secret == Tag::SecretKey) || (tag_public
                == Tag::PublicSubkey && tag_secret == Tag::SecretSubkey),
            tsk_key_bytes(*key, tag_public, tag_secret, allowed, self.spec_emit_stubs()).len()
                <= usize::MAX,
        ensures
            n == tsk_key_bytes(*key, tag_public, tag_secret, allowed, self.spec_emit_stubs()).len(),
    {
        let ghost k = *key;
        if key.has_secret() && allowed {
            let secret: &[u8] = crate::packet::opt_slice(&key.secret);
            proof {
                lemma_new_format_length_size((6 + k.mpis@.len() + secret@.len()) as u32);
            }
            let n: usize = key.serialized_len_with_secret(tag_secret, secret.len());
            assert(n == k.spec_bytes_with_secret(tag_secret, secret@).len());
            n
        } else if self.emit_stubs {
            proof {
                lemma_new_format_length_size((6 + k.mpis@.len() + 8) as u32);
            }
            let n: usize = key.serialized_len_with_secret(tag_secret, 8);
            assert(n == k.spec_bytes_with_secret(tag_secret, key_stub()).len());
            n
        } else {
            proof {
                lemma_new_format_length_size((6 + k.mpis@.len()) as u32);
            }
            let n: usize = key.serialized_len_with_secret(tag_public, 0);
            assert(n == k.spec_bytes_with_secret(tag_public, Seq::<u8>::empty()).len());
            n
        }
    }

    /// Writes the subkey bundle at position `i`.
    fn serialize_subkey(
        &self,
        o: &mut Vec<u8>,
        b: &ComponentBundle<Key>,
        i: usize,
        allowed: bool,
        export: bool,
    )
        requires
            allowed == filter_allows(self.spec_filter(), i + 1),
            crate::cert::bundle_wf(*b),
            self.spec_emit_stubs() ==> key_fits_stub(b.component),
        ensures
            final(o)@ == old(o)@ + tsk_subkey_out(
                *b,
                i as int,
                self.spec_filter(),
                self.spec_emit_stubs(),
                export,
            ),
    {
        if !export || is_bundle_exported(b, false) {
            self.serialize_key(o, &b.component, Tag::PublicSubkey, Tag::SecretSubkey, allowed);
            serialize_bundle_sigs(b, export, o);
            assert(o@ =~= old(o)@ + tsk_subkey_out(
                *b,
                i as int,
                self.spec_filter(),
                self.spec_emit_stubs(),
                export,
            ));
        } else {
            assert(o@ =~= old(o)@ + tsk_subkey_out(
                *b,
                i as int,
                self.spec_filter(),
                self.spec_emit_stubs(),
                export,
            ));
        }
    }

    /// Writes the subkey bundles, each key as `tsk_key_bytes` says.
    fn serialize_subkeys(&self, o: &mut Vec<u8>, export: bool)
        requires
            tsk_wf(self.spec_cert(), self.spec_emit_stubs()),
        ensures
            final(o)@ == old(o)@ + tsk_subkeys_out(
                self.spec_cert().subkeys@,
                self.spec_filter(),
                self.spec_emit_stubs(),
                export,
            ),
    {
        let ghost c = self.spec_cert();
        let ghost f = self.spec_filter();
        let ghost st = self.spec_emit_stubs();
        let subkeys: &Vec<ComponentBundle<Key>> = &self.cert.subkeys;
        let n: usize = subkeys.len();
        let mut i: usize = 0;
        assert(c.subkeys@.take(0) =~= Seq::<ComponentBundle<Key>>::empty());
        while i < n
            invariant
                c == self.spec_cert(),
                f == self.spec_filter(),
                st == self.spec_emit_stubs(),
                subkeys@ == c.subkeys@,
                n == c.subkeys@.len(),
                crate::cert::bundles_wf(c.subkeys@),
                st ==> stub_room(c),
                i <= n,
                o@ == old(o)@ + tsk_subkeys_out(c.subkeys@.take(i as int), f, st, export),
            decreases n - i,
        {
            let b: &ComponentBundle<Key> = &subkeys[i];
            assert(crate::cert::bundle_wf(c.subkeys@[i as int]));
            assert(cert_key(c, i + 1) == c.subkeys@[i as int].component);
            let allowed: bool = self.allows(i + 1);
            self.serialize_subkey(o, b, i, allowed, export);
            proof {
                let t = c.subkeys@.take(i + 1);
                assert(t.drop_last() =~= c.subkeys@.take(i as int));
                assert(t.last() == c.subkeys@[i as int]);
                assert(tsk_subkeys_out(t, f, st, export) == tsk_subkeys_out(
                    c.subkeys@.take(i as int),
                    f,
                    st,
                    export,
                ) + tsk_subkey_out(c.subkeys@[i as int], i as int, f, st, export));
            }
            i = i + 1;
        }
        assert(c.subkeys@.take(n as int) =~= c.subkeys@);
    }

    /// Serializes or exports the Cert with its secret keys.
    ///
    /// If `export` is true, then non-exportable signatures are not
    /// written, and components without any exportable binding
    /// signature or revocation are not exported.
    fn serialize_common(&self, o: &mut Vec<u8>, export: bool)
        requires
            tsk_wf(self.spec_cert(), self.spec_emit_stubs()),
        ensures
            final(o)@ == old(o)@ + tsk_bytes(
                self.spec_cert(),
                self.spec_filter(),
                self.spec_emit_stubs(),
                export,
            ),
    {
        let ghost c = self.spec_cert();
        let ghost f = self.spec_filter();
        let ghost st = self.spec_emit_stubs();
        let ghost o0 = o@;
        let cert: &Cert = self.cert;
        let allowed: bool = self.allows(0);
        assert(cert_key(c, 0) == cert.primary.component);
        self.serialize_key(o, &cert.primary.component, Tag::PublicKey, Tag::SecretKey, allowed);
        let ghost p1 = tsk_key_bytes(
            c.primary.component,
            Tag::PublicKey,
            Tag::SecretKey,
            filter_allows(f, 0),
            st,
        );
        let ghost x2 = bundle_sigs(c.primary, export);
        serialize_bundle_sigs(&cert.primary, export, o);
        proof {
            vstd::seq_lib::lemma_concat_associative(o0, p1, x2);
        }
        let ghost p2 = p1 + x2;
        let ghost x3 = bundles_out(c.userids@, export, false);
        serialize_bundles(&cert.userids, export, false, o);
        proof {
            vstd::seq_lib::lemma_concat_associative(o0, p2, x3);
        }
        let ghost p3 = p2 + x3;
        let ghost x4 = bundles_out(c.user_attributes@, export, false);
        serialize_bundles(&cert.user_attributes, export, false, o);
        proof {
            vstd::seq_lib::lemma_concat_associative(o0, p3, x4);
        }
        let ghost p4 = p3 + x4;
        let ghost x5 = tsk_subkeys_out(c.subkeys@, f, st, export);
        self.serialize_subkeys(o, export);
        proof {
            vstd::seq_lib::lemma_concat_associative(o0, p4, x5);
        }
        let ghost p5 = p4 + x5;
        let ghost x6 = bundles_out(c.unknowns@, export, true);
        serialize_bundles(&cert.unknowns, export, true, o);
        proof {
            vstd::seq_lib::lemma_concat_associative(o0, p5, x6);
        }
        let ghost p6 = p5 + x6;
        let ghost x7 = sigs_out(c.bad_signatures@, export);
        serialize_sigs(&cert.bad_signatures, export, o);
        proof {
            vstd::seq_lib::lemma_concat_associative(o0, p6, x7);
        }
        let ghost p7 = p6 + x7;
        assert(p7 == tsk_bytes(c, f, st, export));
    }

    /// Returns the length of what `serialize_subkey` writes when nothing
    /// is left out.
    fn subkey_len(&self, b: &ComponentBundle<Key>, i: usize, allowed: bool) -> (l: usize)
        requires
            allowed == filter_allows(self.spec_filter(), i + 1),
            crate::cert::bundle_wf(*b),
            self.spec_emit_stubs() ==> key_fits_stub(b.component),
            tsk_subkey_out(*b, i as int, self.spec_filter(), self.spec_emit_stubs(), false).len()
                <= usize::MAX,
        ensures
            l == tsk_subkey_out(*b, i as int, self.spec_filter(), self.spec_emit_stubs(), false).len(),
    {
        let kl: usize = self.key_len(&b.component, Tag::PublicSubkey, Tag::SecretSubkey, allowed);
        kl + bundle_sigs_len(b)
    }

    /// Returns the length of what `serialize_subkeys` writes when
    /// nothing is left out.
    fn subkeys_len(&self) -> (l: usize)
        requires
            tsk_wf(self.spec_cert(), self.spec_emit_stubs()),
            tsk_subkeys_out(self.spec_cert().subkeys@, self.spec_filter(), self.spec_emit_stubs(), false).len()
                <= usize::MAX,
        ensures
            l == tsk_subkeys_out(
                self.spec_cert().subkeys@,
                self.spec_filter(),
                self.spec_emit_stubs(),
                false,
            ).len(),
    {
        let ghost c = self.spec_cert();
        let ghost f = self.spec_filter();
        let ghost st = self.spec_emit_stubs();
        let subkeys: &Vec<ComponentBundle<Key>> = &self.cert.subkeys;
        let n: usize = subkeys.len();
        let mut i: usize = 0;
        let mut l: usize = 0;
        assert(c.subkeys@.take(0) =~= Seq::<ComponentBundle<Key>>::empty());
        while i < n
            invariant
                c == self.spec_cert(),
                f == self.spec_filter(),
                st == self.spec_emit_stubs(),
                subkeys@ == c.subkeys@,
                n == c.subkeys@.len(),
                crate::cert::bundles_wf(c.subkeys@),
                st ==> stub_room(c),
                tsk_subkeys_out(c.subkeys@, f, st, false).len() <= usize::MAX,
                i <= n,
                l == tsk_subkeys_out(c.subkeys@.take(i as int), f, st, false).len(),
            decreases n - i,
        {
            let b: &ComponentBundle<Key> = &subkeys[i];
            assert(crate::cert::bundle_wf(c.subkeys@[i as int]));
            assert(cert_key(c, i + 1) == c.subkeys@[i as int].component);
            let allowed: bool = self.allows(i + 1);
            proof {
                lemma_tsk_subkeys_prefix_len(c.subkeys@, i + 1, f, st, false);
                let t = c.subkeys@.take(i + 1);
                assert(t.drop_last() =~= c.subkeys@.take(i as int));
                assert(t.last() == c.subkeys@[i as int]);
                assert(tsk_subkeys_out(t, f, st, false) == tsk_subkeys_out(
                    c.subkeys@.take(i as int),
                    f,
                    st,
                    false,
                ) + tsk_subkey_out(c.subkeys@[i as int], i as int, f, st, false));
            }
            l = l + self.subkey_len(b, i, allowed);
            i = i + 1;
        }
        assert(c.subkeys@.take(n as int) =~= c.subkeys@);
        l
    }

    /// Returns the length of the serialized certificate with its secret
    /// keys.
    fn serialized_len(&self) -> (l: usize)
        requires
            tsk_wf(self.spec_cert(), self.spec_emit_stubs()),
            tsk_bytes(self.spec_cert(), self.spec_filter(), self.spec_emit_stubs(), false).len()
                <= usize::MAX,
        ensures
            l == tsk_bytes(self.spec_cert(), self.spec_filter(), self.spec_emit_stubs(), false).len(),
    {
        let cert: &Cert = self.cert;
        let allowed: bool = self.allows(0);
        assert(cert_key(*cert, 0) == cert.primary.component);
        let mut l: usize = self.key_len(&cert.primary.component, Tag::PublicKey, Tag::SecretKey, allowed);
        l = l + bundle_sigs_len(&cert.primary);
        l = l + bundles_len(&cert.userids, false);
        l = l + bundles_len(&cert.user_attributes, false);
        l = l + self.subkeys_len();
        l = l + bundles_len(&cert.unknowns, true);
        l = l + sigs_len(&cert.bad_signatures);
        l
    }
}

/// A reference to a `Cert` that allows serialization of secret keys.
///
/// To avoid accidental leakage, secret keys are not serialized when
/// serializing a `Cert`.  To serialize a `Cert` with secret keys, use
/// `Cert::as_tsk()` to create a `TSK`, which is a shim on top of the
/// `Cert`, and serialize this.
///
/// The filter, where one is set, is asked during each serialization
/// (and each computation of the length) about each key that is written
/// and has secret key material, primary key first.
pub struct TSK<'a, F = NoFilter> {
    cert: &'a Cert,
    filter: Option<F>,
    emit_stubs: bool,
}

impl<'a> TSK<'a, NoFilter> {
    /// Creates a new view for the given `Cert`.
    fn new(cert: &'a Cert) -> (tsk: Self)
        ensures
            tsk.spec_cert() == *cert,
            tsk.spec_filter() is None,
            !tsk.spec_emit_stubs(),
    {
        TSK { cert, filter: None, emit_stubs: false }
    }
}

impl<'a, F: KeyFilter> TSK<'a, F> {
    /// The certificate.
    pub closed spec fn spec_cert(&self) -> Cert {
        *self.cert
    }

    /// The filter, if one is set.
    pub closed spec fn spec_filter(&self) -> Option<F> {
        self.filter
    }

    /// Whether secret key stubs are written in place of secrets that are
    /// not.
    pub closed spec fn spec_emit_stubs(&self) -> bool {
        self.emit_stubs
    }

    /// Returns whether the certificate can be written.
    pub fn is_writable(&self) -> (b: bool)
        ensures
            b == tsk_wf(self.spec_cert(), self.spec_emit_stubs()),
    {
        let cert: &Cert = self.cert;
        let ghost c = *cert;
        if !cert.is_writable() {
            return false;
        }
        if !self.emit_stubs {
            return true;
        }
        assert(cert_key(c, 0) == cert.primary.component);
        if cert.primary.component.mpis.len() > usize::MAX - 14 {
            assert(!key_fits_stub(cert_key(c, 0)));
            return false;
        }
        let n: usize = cert.subkeys.len();
        let mut i: usize = 0;
        while i < n
            invariant
                c == *cert,
                c == self.spec_cert(),
                self.spec_emit_stubs(),
                c.wf(),
                n == c.subkeys@.len(),
                i <= n,
                forall|j: int| 0 <= j <= i ==> key_fits_stub(#[trigger] cert_key(c, j)),
            decreases n - i,
        {
            assert(cert_key(c, i + 1) == c.subkeys@[i as int].component);
            if cert.subkeys[i].component.mpis.len() > usize::MAX - 14 {
                assert(!key_fits_stub(cert_key(c, i + 1)));
                return false;
            }
            i = i + 1;
        }
        true
    }

    /// Filters which secret keys to export using the given predicate.
    ///
    /// Note that the given filter replaces any existing filter.  The
    /// predicate is asked, each time the certificate is serialized or
    /// its length computed, about each key that is written and has
    /// secret key material.
    pub fn set_filter<P: Fn(&Key) -> bool>(self, predicate: P) -> (tsk: TSK<'a, P>)
        ensures
            tsk.spec_cert() == self.spec_cert(),
            tsk.spec_emit_stubs() == self.spec_emit_stubs(),
            tsk.spec_filter() == Some(predicate),
    {
        TSK { cert: self.cert, filter: Some(predicate), emit_stubs: self.emit_stubs }
    }

    /// Changes `TSK` to emit secret key stubs.
    ///
    /// Where a key's secret is not written (it has none, or the filter
    /// keeps it back), the default is to write a public key packet.
    /// With stubs, a secret key packet with a GnuPG-style placeholder
    /// is written instead, which GnuPG expects.
    pub fn emit_secret_key_stubs(self, emit_stubs: bool) -> (tsk: Self)
        ensures
            tsk.spec_cert() == self.spec_cert(),
            tsk.spec_filter() == self.spec_filter(),
            tsk.spec_emit_stubs() == emit_stubs,
    {
        TSK { cert: self.cert, filter: self.filter, emit_stubs }
    }

    /// Asks the filter, where one is set, about each key that is
    /// written (or, with `export`, exported) and has a secret, primary
    /// key first, and records the answers.
    fn plan(&self, export: bool) -> (p: TskPlan<'a>)
        requires
            filter_admits(self.spec_cert(), self.spec_filter(), export),
        ensures
            p.spec_cert() == self.spec_cert(),
            p.spec_emit_stubs() == self.spec_emit_stubs(),
            filter_answered(self.spec_cert(), self.spec_filter(), export, p.spec_filter()),
    {
        let cert: &'a Cert = self.cert;
        let ghost c = *cert;
        match &self.filter {
            None => TskPlan { cert, filter: None, emit_stubs: self.emit_stubs },
            Some(f) => {
                let n: usize = cert.subkeys.len();
                let mut d: Vec<bool> = Vec::new();
                let primary: &Key = &cert.primary.component;
                assert(cert_key(c, 0) == *primary);
                assert(filter_asked(c, 0, export) == primary.spec_has_secret());
                let a0: bool = if primary.has_secret() {
                    f.allows(primary)
                } else {
                    false
                };
                d.push(a0);
                let mut i: usize = 0;
                while i < n
                    invariant
                        c == *cert,
                        n == c.subkeys@.len(),
                        i <= n,
                        d@.len() == i + 1,
                        forall|j: int|
                            0 <= j <= n && #[trigger] filter_asked(c, j, export) ==> f.admits(
                                cert_key(c, j),
                            ),
                        forall|j: int|
                            0 <= j < d@.len() ==> if #[trigger] filter_asked(c, j, export) {
                                f.answers(cert_key(c, j), d@[j])
                            } else {
                                !d@[j]
                            },
                    decreases n - i,
                {
                    let b: &ComponentBundle<Key> = &cert.subkeys[i];
                    let k: &Key = &b.component;
                    assert(cert_key(c, i + 1) == *k);
                    let written: bool = !export || is_bundle_exported(b, false);
                    assert(filter_asked(c, i + 1, export) == (written && k.spec_has_secret()));
                    let a: bool = if written && k.has_secret() {
                        f.allows(k)
                    } else {
                        false
                    };
                    d.push(a);
                    i = i + 1;
                }
                TskPlan { cert, filter: Some(d), emit_stubs: self.emit_stubs }
            },
        }
    }

    /// Returns the length of the serialized certificate with its secret
    /// keys.
    pub fn serialized_len(&self) -> (l: usize)
        requires
            tsk_wf(self.spec_cert(), self.spec_emit_stubs()),
            filter_admits(self.spec_cert(), self.spec_filter(), false),
            tsk_len_fits(self.spec_cert(), self.spec_emit_stubs()),
        ensures
            exists|d: Option<Seq<bool>>|
                #[trigger] filter_answered(self.spec_cert(), self.spec_filter(), false, d) && l
                    == tsk_bytes(self.spec_cert(), d, self.spec_emit_stubs(), false).len(),
    {
        let p: TskPlan<'a> = self.plan(false);
        proof {
            use_type_invariant(&p);
            assert(filter_fits(p.spec_cert(), p.spec_filter()));
        }
        p.serialized_len()
    }

    /// Serializes the certificate with its secret keys into `buf`,
    /// returning the number of octets written, or an error where `buf`
    /// is too small.  The length is computed first, and then the
    /// certificate serialized: the filter is asked in each.
    pub fn serialize_into(&self, buf: &mut [u8]) -> (r: Result<usize, SerializeError>)
        requires
            tsk_wf(self.spec_cert(), self.spec_emit_stubs()),
            filter_admits(self.spec_cert(), self.spec_filter(), false),
            tsk_len_fits(self.spec_cert(), self.spec_emit_stubs()),
        ensures
            exists|d1: Option<Seq<bool>>, d2: Option<Seq<bool>>|
                #[trigger] filter_answered(self.spec_cert(), self.spec_filter(), false, d1)
                    && #[trigger] filter_answered(self.spec_cert(), self.spec_filter(), false, d2)
                    && into_buffer_result(
                    tsk_bytes(self.spec_cert(), d2, self.spec_emit_stubs(), false),
                    old(buf)@,
                    final(buf)@,
                    tsk_bytes(self.spec_cert(), d1, self.spec_emit_stubs(), false).len() as usize,
                    r,
                ),
    {
        let p1: TskPlan<'a> = self.plan(false);
        proof {
            use_type_invariant(&p1);
            assert(filter_fits(p1.spec_cert(), p1.spec_filter()));
        }
        let expected: usize = p1.serialized_len();
        let p2: TskPlan<'a> = self.plan(false);
        let mut bytes: Vec<u8> = Vec::new();
        p2.serialize_common(&mut bytes, false);
        let r = copy_into_buffer(buf, bytes.as_slice(), expected);
        assert(bytes@ =~= tsk_bytes(self.spec_cert(), p2.spec_filter(), self.spec_emit_stubs(), false));
        assert(filter_answered(self.spec_cert(), self.spec_filter(), false, p1.spec_filter()));
        assert(filter_answered(self.spec_cert(), self.spec_filter(), false, p2.spec_filter()));
        r
    }

    /// Exports the certificate with its secret keys into `buf`,
    /// returning the number of octets written, or an error where `buf`
    /// is too small.  The length of the serialization is computed
    /// first, and then the certificate exported: the filter is asked in
    /// each.
    pub fn export_into(&self, buf: &mut [u8]) -> (r: Result<usize, SerializeError>)
        requires
            tsk_wf(self.spec_cert(), self.spec_emit_stubs()),
            filter_admits(self.spec_cert(), self.spec_filter(), false),
            tsk_len_fits(self.spec_cert(), self.spec_emit_stubs()),
        ensures
            exists|d1: Option<Seq<bool>>, d2: Option<Seq<bool>>|
                #[trigger] filter_answered(self.spec_cert(), self.spec_filter(), false, d1)
                    && #[trigger] filter_answered(self.spec_cert(), self.spec_filter(), true, d2)
                    && into_buffer_result(
                    tsk_bytes(self.spec_cert(), d2, self.spec_emit_stubs(), true),
                    old(buf)@,
                    final(buf)@,
                    tsk_bytes(self.spec_cert(), d1, self.spec_emit_stubs(), false).len() as usize,
                    r,
                ),
    {
        let p1: TskPlan<'a> = self.plan(false);
        proof {
            use_type_invariant(&p1);
            assert(filter_fits(p1.spec_cert(), p1.spec_filter()));
            lemma_filter_admits_export(self.spec_cert(), self.spec_filter());
        }
        let expected: usize = p1.serialized_len();
        let p2: TskPlan<'a> = self.plan(true);
        let mut bytes: Vec<u8> = Vec::new();
        p2.serialize_common(&mut bytes, true);
        let r = copy_into_buffer(buf, bytes.as_slice(), expected);
        assert(bytes@ =~= tsk_bytes(self.spec_cert(), p2.spec_filter(), self.spec_emit_stubs(), true));
        assert(filter_answered(self.spec_cert(), self.spec_filter(), false, p1.spec_filter()));
        assert(filter_answered(self.spec_cert(), self.spec_filter(), true, p2.spec_filter()));
        r
    }

    /// Writes the certificate with its secret keys to `o`.
    pub fn serialize(&self, o: &mut Vec<u8>)
        requires
            tsk_wf(self.spec_cert(), self.spec_emit_stubs()),
            filter_admits(self.spec_cert(), self.spec_filter(), false),
        ensures
            exists|d: Option<Seq<bool>>|
                #[trigger] filter_answered(self.spec_cert(), self.spec_filter(), false, d)
                    && final(o)@ == old(o)@ + tsk_bytes(
                    self.spec_cert(),
                    d,
                    self.spec_emit_stubs(),
                    false,
                ),
    {
        let p: TskPlan<'a> = self.plan(false);
        p.serialize_common(o, false);
        assert(filter_answered(self.spec_cert(), self.spec_filter(), false, p.spec_filter()));
    }

    /// Writes the exported certificate with its secret keys to `o`:
    /// non-exportable signatures, and components that nothing
    /// exportable binds, are left out.
    pub fn export(&self, o: &mut Vec<u8>)
        requires
            tsk_wf(self.spec_cert(), self.spec_emit_stubs()),
            filter_admits(self.spec_cert(), self.spec_filter(), true),
        ensures
            exists|d: Option<Seq<bool>>|
                #[trigger] filter_answered(self.spec_cert(), self.spec_filter(), true, d)
                    && final(o)@ == old(o)@ + tsk_bytes(
                    self.spec_cert(),
                    d,
                    self.spec_emit_stubs(),
                    true,
                ),
    {
        let p: TskPlan<'a> = self.plan(true);
        p.serialize_common(o, true);
        assert(filter_answered(self.spec_cert(), self.spec_filter(), true, p.spec_filter()));
    }

    /// Returns the serialized certificate with its secret keys.
    pub fn to_vec(&self) -> (o: Vec<u8>)
        requires
            tsk_wf(self.spec_cert(), self.spec_emit_stubs()),
            filter_admits(self.spec_cert(), self.spec_filter(), false),
        ensures
            exists|d: Option<Seq<bool>>|
                #[trigger] filter_answered(self.spec_cert(), self.spec_filter(), false, d) && o@
                    == tsk_bytes(self.spec_cert(), d, self.spec_emit_stubs(), false),
    {
        let p: TskPlan<'a> = self.plan(false);
        let mut o: Vec<u8> = Vec::new();
        p.serialize_common(&mut o, false);
        assert(o@ =~= tsk_bytes(self.spec_cert(), p.spec_filter(), self.spec_emit_stubs(), false));
        assert(filter_answered(self.spec_cert(), self.spec_filter(), false, p.spec_filter()));
        o
    }

    /// Returns the exported certificate with its secret keys.
    pub fn export_to_vec(&self) -> (o: Vec<u8>)
        requires
            tsk_wf(self.spec_cert(), self.spec_emit_stubs()),
            filter_admits(self.spec_cert(), self.spec_filter(), true),
        ensures
            exists|d: Option<Seq<bool>>|
                #[trigger] filter_answered(self.spec_cert(), self.spec_filter(), true, d) && o@
                    == tsk_bytes(self.spec_cert(), d, self.spec_emit_stubs(), true),
    {
        let p: TskPlan<'a> = self.plan(true);
        let mut o: Vec<u8> = Vec::new();
        p.serialize_common(&mut o, true);
        assert(o@ =~= tsk_bytes(self.spec_cert(), p.spec_filter(), self.spec_emit_stubs(), true));
        assert(filter_answered(self.spec_cert(), self.spec_filter(), true, p.spec_filter()));
        o
    }
}

impl Cert {
    /// Derive a `TSK` object from this key.
    ///
    /// This object writes out secret keys during serialization.
    pub fn as_tsk<'a>(&'a self) -> (tsk: TSK<'a, NoFilter>)
        ensures
            tsk.spec_cert() == *self,
            tsk.spec_filter() is None,
            !tsk.spec_emit_stubs(),
    {
        TSK::new(self)
    }
}


proof fn lemma_tsk_subkeys_prefix_len(
    s: Seq<ComponentBundle<Key>>,
    i: int,
    filter: Option<Seq<bool>>,
    stubs: bool,
    export: bool,
)
    requires
        0 <= i <= s.len(),
    ensures
        tsk_subkeys_out(s.take(i), filter, stubs, export).len() <= tsk_subkeys_out(
            s,
            filter,
            stubs,
            export,
        ).len(),
    decreases s.len() - i,
{
    if i < s.len() {
        lemma_tsk_subkeys_prefix_len(s, i + 1, filter, stubs, export);
        assert(s.take(i + 1).drop_last() =~= s.take(i));
    } else {
        assert(s.take(i) =~= s);
    }
}

proof fn lemma_tsk_subkeys_export_len(
    s: Seq<ComponentBundle<Key>>,
    filter: Option<Seq<bool>>,
    stubs: bool,
)
    ensures
        tsk_subkeys_out(s, filter, stubs, true).len() <= tsk_subkeys_out(
            s,
            filter,
            stubs,
            false,
        ).len(),
    decreases s.len(),
{
    if s.len() > 0 {
        lemma_tsk_subkeys_export_len(s.drop_last(), filter, stubs);
        lemma_bundle_sigs_export_len(s.last());
    }
}

/// An export of a transferable secret key is never longer than its
/// serialization: a buffer of `TSK::serialized_len` octets always holds
/// the export.
pub proof fn lemma_tsk_export_fits(c: Cert, filter: Option<Seq<bool>>, stubs: bool)
    ensures
        tsk_bytes(c, filter, stubs, true).len() <= tsk_bytes(c, filter, stubs, false).len(),
{
    lemma_sigs_out_export_len(c.primary.self_signatures@);
    lemma_sigs_out_export_len(c.primary.self_revocations@);
    lemma_sigs_out_export_len(c.primary.certifications@);
    lemma_sigs_out_export_len(c.primary.other_revocations@);
    lemma_bundles_out_export_len(c.userids@, false);
    lemma_bundles_out_export_len(c.user_attributes@, false);
    lemma_tsk_subkeys_export_len(c.subkeys@, filter, stubs);
    lemma_bundles_out_export_len(c.unknowns@, true);
    lemma_sigs_out_export_len(c.bad_signatures@);
}

/// No key of the certificate has its secret written: it has none, or
/// the filter keeps it back.
pub open spec fn no_secret_written(c: Cert, filter: Option<Seq<bool>>) -> bool {
    forall|i: int|
        0 <= i <= c.subkeys@.len() ==> !((#[trigger] cert_key(c, i)).spec_has_secret()
            && filter_allows(filter, i))
}

proof fn lemma_tsk_subkeys_public(
    c: Cert,
    n: int,
    filter: Option<Seq<bool>>,
    export: bool,
)
    requires
        0 <= n <= c.subkeys@.len(),
        no_secret_written(c, filter),
    ensures
        tsk_subkeys_out(c.subkeys@.take(n), filter, false, export) == bundles_out(
            c.subkeys@.take(n),
            export,
            false,
        ),
    decreases n,
{
    if n > 0 {
        let s = c.subkeys@.take(n);
        assert(s.drop_last() =~= c.subkeys@.take(n - 1));
        lemma_tsk_subkeys_public(c, n - 1, filter, export);
        assert(cert_key(c, n) == s.last().component);
        assert(!(cert_key(c, n).spec_has_secret() && filter_allows(filter, n)));
    }
}

/// A transferable secret key that writes no secret (its keys have none,
/// or the filter keeps every one back) and no stubs gives the bytes of
/// the plain certificate.
pub proof fn lemma_tsk_reduces_to_cert(c: Cert, filter: Option<Seq<bool>>, export: bool)
    requires
        no_secret_written(c, filter),
    ensures
        tsk_bytes(c, filter, false, export) == cert_bytes(c, export),
{
    lemma_tsk_subkeys_public(c, c.subkeys@.len() as int, filter, export);
    assert(c.subkeys@.take(c.subkeys@.len() as int) =~= c.subkeys@);
    assert(cert_key(c, 0) == c.primary.component);
    assert(!(cert_key(c, 0).spec_has_secret() && filter_allows(filter, 0)));
}

/// A `TSK` whose filter rejects every secret, and that writes no stubs,
/// writes (or exports) exactly what its `Cert` does: whatever decisions
/// one writing records, they give the certificate's bytes.
pub proof fn lemma_rejecting_filter_is_cert<F: KeyFilter>(
    c: Cert,
    f: F,
    export: bool,
    d: Option<Seq<bool>>,
)
    requires
        filter_answered(c, Some(f), export, d),
        forall|k: Key, b: bool| #[trigger] f.answers(k, b) ==> !b,
    ensures
        tsk_bytes(c, d, false, export) == cert_bytes(c, export),
{
    let s = d->0;
    assert forall|i: int|
        0 <= i <= c.subkeys@.len() implies !((#[trigger] cert_key(c, i)).spec_has_secret()
        && filter_allows(d, i)) by {
        if filter_asked(c, i, export) {
            assert(f.answers(cert_key(c, i), s[i]));
        }
    }
    lemma_tsk_reduces_to_cert(c, d, export);
}

proof fn lemma_tsk_subkeys_full_filter(
    c: Cert,
    n: int,
    d: Seq<bool>,
    stubs: bool,
    export: bool,
)
    requires
        0 <= n <= c.subkeys@.len(),
        d.len() == c.subkeys@.len() + 1,
        forall|i: int|
            0 <= i <= c.subkeys@.len() && (#[trigger] cert_key(c, i)).spec_has_secret() ==> d[i],
    ensures
        tsk_subkeys_out(c.subkeys@.take(n), Some(d), stubs, export) == tsk_subkeys_out(
            c.subkeys@.take(n),
            None,
            stubs,
            export,
        ),
    decreases n,
{
    if n > 0 {
        let s = c.subkeys@.take(n);
        assert(s.drop_last() =~= c.subkeys@.take(n - 1));
        lemma_tsk_subkeys_full_filter(c, n - 1, d, stubs, export);
        assert(cert_key(c, n) == s.last().component);
    }
}

/// A filter that lets every secret through writes the same bytes as no
/// filter at all.
pub proof fn lemma_tsk_full_filter_is_default(c: Cert, d: Seq<bool>, stubs: bool, export: bool)
    requires
        d.len() == c.subkeys@.len() + 1,
        forall|i: int|
            0 <= i <= c.subkeys@.len() && (#[trigger] cert_key(c, i)).spec_has_secret() ==> d[i],
    ensures
        tsk_bytes(c, Some(d), stubs, export) == tsk_bytes(c, None, stubs, export),
{
    lemma_tsk_subkeys_full_filter(c, c.subkeys@.len() as int, d, stubs, export);
    assert(c.subkeys@.take(c.subkeys@.len() as int) =~= c.subkeys@);
    assert(cert_key(c, 0) == c.primary.component);
}


/// The secret key material that a transferable secret key writes for
/// the `i`th key: its secret where it has one that the filter lets
/// through, else a stub where stubs are written, else none.
pub open spec fn written_secret(c: Cert, filter: Option<Seq<bool>>, stubs: bool, i: int) -> Option<
    Seq<u8>,
> {
    let k = cert_key(c, i);
    if k.spec_has_secret() && filter_allows(filter, i) {
        Some(opt_bytes(k.secret))
    } else if stubs {
        Some(key_stub())
    } else {
        None
    }
}

/// The key holds exactly the secret key material `w`.
pub open spec fn holds_secret(k: Key, w: Option<Seq<u8>>) -> bool {
    match w {
        Some(s) => k.secret is Some && opt_bytes(k.secret) == s,
        None => k.secret is None,
    }
}

proof fn lemma_tsk_key_rewritten(
    k: Key,
    k2: Key,
    tag_public: Tag,
    tag_secret: Tag,
    allowed: bool,
    stubs: bool,
)
    requires
        crate::cert::same_public_key(k, k2),
        crate::packet::is_secret_tag(tag_secret),
        !crate::packet::is_secret_tag(tag_public),
        holds_secret(
            k2,
            if k.spec_has_secret() && allowed {
                Some(opt_bytes(k.secret))
            } else if stubs {
                Some(key_stub())
            } else {
                None
            },
        ),
    ensures
        tsk_key_bytes(k2, tag_public, tag_secret, true, false) == tsk_key_bytes(
            k,
            tag_public,
            tag_secret,
            allowed,
            stubs,
        ),
{
    assert(k2.spec_public_body() =~= k.spec_public_body());
}

proof fn lemma_tsk_subkeys_rewritten(
    c: Cert,
    c2: Cert,
    n: int,
    filter: Option<Seq<bool>>,
    stubs: bool,
    export: bool,
)
    requires
        0 <= n <= c.subkeys@.len(),
        crate::cert::same_public_cert(c, c2),
        forall|i: int|
            0 <= i <= c.subkeys@.len() ==> holds_secret(
                #[trigger] cert_key(c2, i),
                written_secret(c, filter, stubs, i),
            ),
    ensures
        tsk_subkeys_out(c2.subkeys@.take(n), None, false, export) == tsk_subkeys_out(
            c.subkeys@.take(n),
            filter,
            stubs,
            export,
        ),
    decreases n,
{
    if n > 0 {
        let s = c.subkeys@.take(n);
        let s2 = c2.subkeys@.take(n);
        assert(s.drop_last() =~= c.subkeys@.take(n - 1));
        assert(s2.drop_last() =~= c2.subkeys@.take(n - 1));
        lemma_tsk_subkeys_rewritten(c, c2, n - 1, filter, stubs, export);
        let b = c.subkeys@[n - 1];
        let b2 = c2.subkeys@[n - 1];
        assert(crate::cert::same_public_key_bundle(b, b2));
        assert(cert_key(c, n) == b.component);
        assert(cert_key(c2, n) == b2.component);
        assert(holds_secret(cert_key(c2, n), written_secret(c, filter, stubs, n)));
        lemma_tsk_key_rewritten(
            b.component,
            b2.component,
            Tag::PublicSubkey,
            Tag::SecretSubkey,
            filter_allows(filter, n),
            stubs,
        );
        assert(bundle_sigs(b, export) == bundle_sigs(b2, export));
        assert(bundle_exported(b, false) == bundle_exported(b2, false));
        assert(s.last() == b);
        assert(s2.last() == b2);
    }
}

/// What a transferable secret key writes is what the same certificate,
/// holding as secrets just the secret key material that was written
/// (secrets let through, stubs), writes with no filter and no stubs.
/// So reading the secrets and stubs back and writing the certificate
/// again preserves them byte for byte.
pub proof fn lemma_tsk_written_secrets_rewrite(
    c: Cert,
    c2: Cert,
    filter: Option<Seq<bool>>,
    stubs: bool,
    export: bool,
)
    requires
        crate::cert::same_public_cert(c, c2),
        forall|i: int|
            0 <= i <= c.subkeys@.len() ==> holds_secret(
                #[trigger] cert_key(c2, i),
                written_secret(c, filter, stubs, i),
            ),
    ensures
        tsk_bytes(c2, None, false, export) == tsk_bytes(c, filter, stubs, export),
{
    lemma_tsk_subkeys_rewritten(c, c2, c.subkeys@.len() as int, filter, stubs, export);
    assert(c.subkeys@.take(c.subkeys@.len() as int) =~= c.subkeys@);
    assert(c2.subkeys@.take(c2.subkeys@.len() as int) =~= c2.subkeys@);
    assert(cert_key(c, 0) == c.primary.component);
    assert(cert_key(c2, 0) == c2.primary.component);
    assert(holds_secret(cert_key(c2, 0), written_secret(c, filter, stubs, 0)));
    lemma_tsk_key_rewritten(
        c.primary.component,
        c2.primary.component,
        Tag::PublicKey,
        Tag::SecretKey,
        filter_allows(filter, 0),
        stubs,
    );
    assert(bundle_sigs(c.primary, export) == bundle_sigs(c2.primary, export));
}

} // verus!
