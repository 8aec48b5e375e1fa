//! Certificates: their serialization and export, and the `TSK` view that
//! also writes secret key material.
use vstd::prelude::*;
use crate::header::Tag;
use crate::packet::{Key, Signature, Unknown, UserAttribute, UserID};

verus! {

/// What a signature contributes to the output: itself, unless the
/// output is an export and the signature may not be exported.
pub open spec fn sig_out(s: Signature, export: bool) -> Seq<u8> {
    if export && !s.spec_exportable() {
        Seq::empty()
    } else {
        s.spec_bytes()
    }
}

/// What a list of signatures contributes to the output, in order.
pub open spec fn sigs_out(s: Seq<Signature>, export: bool) -> Seq<u8>
    decreases s.len(),
{
    if s.len() == 0 {
        Seq::empty()
    } else {
        sigs_out(s.drop_last(), export) + sig_out(s.last(), export)
    }
}

/// Every signature of `s` can be written.
pub open spec fn sigs_wf(s: Seq<Signature>) -> bool {
    forall|i: int| 0 <= i < s.len() ==> #[trigger] s[i].wf()
}

/// Some signature of `s` may be exported.
pub open spec fn any_exportable(s: Seq<Signature>) -> bool {
    exists|i: int| 0 <= i < s.len() && #[trigger] s[i].spec_exportable()
}

pub(crate) proof fn lemma_sigs_out_prefix_len(s: Seq<Signature>, i: int, export: bool)
    requires
        0 <= i <= s.len(),
    ensures
        sigs_out(s.take(i), export).len() <= sigs_out(s, export).len(),
    decreases s.len() - i,
{
    if i < s.len() {
        lemma_sigs_out_prefix_len(s, i + 1, export);
        assert(s.take(i + 1).drop_last() =~= s.take(i));
    } else {
        assert(s.take(i) =~= s);
    }
}

/// Appends the signatures of `sigs` that go into the output.
pub(crate) fn serialize_sigs(sigs: &Vec<Signature>, export: bool, o: &mut Vec<u8>)
    requires
        sigs_wf(sigs@),
    ensures
        final(o)@ == old(o)@ + sigs_out(sigs@, export),
{
    let n: usize = sigs.len();
    let mut i: usize = 0;
    assert(sigs@.take(0) =~= Seq::<Signature>::empty());
    while i < n
        invariant
            n == sigs@.len(),
            i <= n,
            sigs_wf(sigs@),
            o@ == old(o)@ + sigs_out(sigs@.take(i as int), export),
        decreases n - i,
    {
        let sig: &Signature = &sigs[i];
        assert(sig.wf());
        if export {
            if sig.exportable() {
                sig.serialize(o);
            }
        } else {
            sig.serialize(o);
        }
        assert(sigs@.take(i + 1).drop_last() =~= sigs@.take(i as int));
        assert(o@ =~= old(o)@ + sigs_out(sigs@.take(i + 1), export));
        i = i + 1;
    }
    assert(sigs@.take(n as int) =~= sigs@);
}

/// Returns the number of octets `serialize_sigs` writes when nothing is
/// left out.
pub(crate) fn sigs_len(sigs: &Vec<Signature>) -> (l: usize)
    requires
        sigs_wf(sigs@),
        sigs_out(sigs@, false).len() <= usize::MAX,
    ensures
        l == sigs_out(sigs@, false).len(),
{
    let n: usize = sigs.len();
    let mut i: usize = 0;
    let mut l: usize = 0;
    assert(sigs@.take(0) =~= Seq::<Signature>::empty());
    while i < n
        invariant
            n == sigs@.len(),
            i <= n,
            sigs_wf(sigs@),
            sigs_out(sigs@, false).len() <= usize::MAX,
            l == sigs_out(sigs@.take(i as int), false).len(),
        decreases n - i,
    {
        proof {
            lemma_sigs_out_prefix_len(sigs@, i + 1, false);
            assert(sigs@.take(i + 1).drop_last() =~= sigs@.take(i as int));
        }
        let sig: &Signature = &sigs[i];
        assert(sig.wf());
        l = l + sig.serialized_len();
        i = i + 1;
    }
    assert(sigs@.take(n as int) =~= sigs@);
    l
}

/// Returns whether every signature of `sigs` can be written.
pub(crate) fn sigs_writable(sigs: &Vec<Signature>) -> (b: bool)
    ensures
        b == sigs_wf(sigs@),
{
    let n: usize = sigs.len();
    let mut i: usize = 0;
    while i < n
        invariant
            n == sigs@.len(),
            i <= n,
            forall|j: int| 0 <= j < i ==> (#[trigger] sigs@[j]).wf(),
        decreases n - i,
    {
        if !sigs[i].is_writable() {
            return false;
        }
        i = i + 1;
    }
    true
}

/// Returns whether some signature of `sigs` may be exported.
fn any_exportable_sig(sigs: &Vec<Signature>) -> (b: bool)
    ensures
        b == any_exportable(sigs@),
{
    let n: usize = sigs.len();
    let mut i: usize = 0;
    while i < n
        invariant
            n == sigs@.len(),
            i <= n,
            forall|j: int| 0 <= j < i ==> !(#[trigger] sigs@[j]).spec_exportable(),
        decreases n - i,
    {
        if sigs[i].exportable() {
            return true;
        }
        i = i + 1;
    }
    false
}

/// A component of a certificate, as it is written into the
/// certificate's serialization.
pub trait Component {
    /// The component's serialized packet.
    spec fn component_bytes(&self) -> Seq<u8>;

    /// The components that can be written.
    spec fn component_wf(&self) -> bool;

    /// Appends the component's serialized packet.
    fn serialize_component(&self, o: &mut Vec<u8>)
        requires
            self.component_wf(),
        ensures
            final(o)@ == old(o)@ + self.component_bytes(),
    ;

    /// The tag number and body of the component's packet.
    spec fn component_fields(&self) -> (u8, Seq<u8>);

    /// The component's packet header can carry its tag.
    spec fn component_tag_fits(&self) -> bool;

    /// The component's packet reads back as its tag number and body.
    proof fn lemma_component_reads_back(&self)
        requires
            self.component_tag_fits(),
            self.component_bytes().len() <= u32::MAX,
        ensures
            crate::reading::reads_as(self.component_bytes(), seq![self.component_fields()]),
    ;

    /// Returns whether the component can be written.
    fn component_writable(&self) -> (b: bool)
        ensures
            b == self.component_wf(),
    ;

    /// Returns the length of the component's serialized packet.
    fn component_len(&self) -> (n: usize)
        requires
            self.component_wf(),
            self.component_bytes().len() <= usize::MAX,
        ensures
            n == self.component_bytes().len(),
    ;
}

impl Component for UserID {
    open spec fn component_bytes(&self) -> Seq<u8> {
        self.spec_bytes()
    }

    open spec fn component_fields(&self) -> (u8, Seq<u8>) {
        (13u8, self.value@)
    }

    open spec fn component_tag_fits(&self) -> bool {
        true
    }

    proof fn lemma_component_reads_back(&self) {
        crate::reading::lemma_reads_as_old_packet(Tag::UserID, self.value@);
    }

    open spec fn component_wf(&self) -> bool {
        true
    }

    fn component_writable(&self) -> (b: bool) {
        true
    }

    fn serialize_component(&self, o: &mut Vec<u8>) {
        self.serialize(o)
    }

    fn component_len(&self) -> (n: usize) {
        self.serialized_len()
    }
}

impl Component for UserAttribute {
    open spec fn component_bytes(&self) -> Seq<u8> {
        self.spec_bytes()
    }

    open spec fn component_fields(&self) -> (u8, Seq<u8>) {
        (17u8, self.value@)
    }

    open spec fn component_tag_fits(&self) -> bool {
        true
    }

    proof fn lemma_component_reads_back(&self) {
        crate::reading::lemma_reads_as_new_packet(Tag::UserAttribute, self.value@);
    }

    open spec fn component_wf(&self) -> bool {
        true
    }

    fn component_writable(&self) -> (b: bool) {
        true
    }

    fn serialize_component(&self, o: &mut Vec<u8>) {
        self.serialize(o)
    }

    fn component_len(&self) -> (n: usize) {
        self.serialized_len()
    }
}

impl Component for Unknown {
    open spec fn component_bytes(&self) -> Seq<u8> {
        self.spec_bytes()
    }

    open spec fn component_fields(&self) -> (u8, Seq<u8>) {
        (self.tag.spec_numeric(), crate::bytes::opt_bytes(self.body))
    }

    open spec fn component_tag_fits(&self) -> bool {
        self.tag.spec_numeric() < 64
    }

    proof fn lemma_component_reads_back(&self) {
        crate::reading::lemma_reads_as_new_packet(self.tag, crate::bytes::opt_bytes(self.body));
    }

    open spec fn component_wf(&self) -> bool {
        true
    }

    fn component_writable(&self) -> (b: bool) {
        true
    }

    fn serialize_component(&self, o: &mut Vec<u8>) {
        self.serialize(o)
    }

    fn component_len(&self) -> (n: usize) {
        let body: &[u8] = crate::packet::opt_slice(&self.body);
        let len: usize = body.len();
        1 + crate::header::new_format_length_len(len as u32) + len
    }
}

/// A subkey is written as a public subkey packet.
impl Component for Key {
    open spec fn component_bytes(&self) -> Seq<u8> {
        self.spec_bytes(Tag::PublicSubkey)
    }

    open spec fn component_fields(&self) -> (u8, Seq<u8>) {
        (14u8, self.spec_public_body())
    }

    open spec fn component_tag_fits(&self) -> bool {
        true
    }

    proof fn lemma_component_reads_back(&self) {
        assert(self.spec_public_body() + Seq::<u8>::empty() =~= self.spec_public_body());
        crate::reading::lemma_reads_as_new_packet(Tag::PublicSubkey, self.spec_public_body());
    }

    open spec fn component_wf(&self) -> bool {
        self.wf()
    }

    fn component_writable(&self) -> (b: bool) {
        self.is_writable()
    }

    fn serialize_component(&self, o: &mut Vec<u8>) {
        self.serialize(o, Tag::PublicSubkey)
    }

    fn component_len(&self) -> (n: usize) {
        let n: usize = self.serialized_len_with_secret(Tag::PublicSubkey, 0);
        assert(Seq::<u8>::empty().len() == 0);
        assert(n == self.spec_bytes_with_secret(Tag::PublicSubkey, Seq::<u8>::empty()).len());
        n
    }
}

/// A component of a certificate together with the signatures on it.
pub struct ComponentBundle<C> {
    pub component: C,
    pub self_signatures: Vec<Signature>,
    pub certifications: Vec<Signature>,
    pub self_revocations: Vec<Signature>,
    pub other_revocations: Vec<Signature>,
}

/// What the signatures of a bundle contribute to the output: self
/// revocations, self signatures, certifications by others, then
/// revocations by others.
pub open spec fn bundle_sigs<C>(b: ComponentBundle<C>, export: bool) -> Seq<u8> {
    sigs_out(b.self_revocations@, export) + sigs_out(b.self_signatures@, export) + sigs_out(
        b.certifications@,
        export,
    ) + sigs_out(b.other_revocations@, export)
}

/// Every signature of the bundle can be written.
pub open spec fn bundle_sigs_wf<C>(b: ComponentBundle<C>) -> bool {
    &&& sigs_wf(b.self_signatures@)
    &&& sigs_wf(b.certifications@)
    &&& sigs_wf(b.self_revocations@)
    &&& sigs_wf(b.other_revocations@)
}

/// The bundle can be written.
pub open spec fn bundle_wf<C: Component>(b: ComponentBundle<C>) -> bool {
    b.component.component_wf() && bundle_sigs_wf(b)
}

/// Whether an export keeps the bundle: some binding signature or self
/// revocation may be exported, or, where `certs_only`, some
/// certification may.
pub open spec fn bundle_exported<C>(b: ComponentBundle<C>, certs_only: bool) -> bool {
    if certs_only {
        any_exportable(b.certifications@)
    } else {
        any_exportable(b.self_signatures@ + b.self_revocations@)
    }
}

/// What a bundle contributes to the output: nothing when an export
/// leaves it out, else its component and its signatures.
pub open spec fn bundle_out<C: Component>(
    b: ComponentBundle<C>,
    export: bool,
    certs_only: bool,
) -> Seq<u8> {
    if export && !bundle_exported(b, certs_only) {
        Seq::empty()
    } else {
        b.component.component_bytes() + bundle_sigs(b, export)
    }
}

/// What a list of bundles contributes to the output, in order.
pub open spec fn bundles_out<C: Component>(
    s: Seq<ComponentBundle<C>>,
    export: bool,
    certs_only: bool,
) -> Seq<u8>
    decreases s.len(),
{
    if s.len() == 0 {
        Seq::empty()
    } else {
        bundles_out(s.drop_last(), export, certs_only) + bundle_out(s.last(), export, certs_only)
    }
}

/// Every bundle of `s` can be written.
pub open spec fn bundles_wf<C: Component>(s: Seq<ComponentBundle<C>>) -> bool {
    forall|i: int| 0 <= i < s.len() ==> #[trigger] bundle_wf(s[i])
}

pub(crate) proof fn lemma_bundles_out_prefix_len<C: Component>(
    s: Seq<ComponentBundle<C>>,
    i: int,
    export: bool,
    certs_only: bool,
)
    requires
        0 <= i <= s.len(),
    ensures
        bundles_out(s.take(i), export, certs_only).len() <= bundles_out(s, export, certs_only).len(),
    decreases s.len() - i,
{
    if i < s.len() {
        lemma_bundles_out_prefix_len(s, i + 1, export, certs_only);
        assert(s.take(i + 1).drop_last() =~= s.take(i));
    } else {
        assert(s.take(i) =~= s);
    }
}

/// Appends what the signatures of a bundle contribute.
pub(crate) fn serialize_bundle_sigs<C>(b: &ComponentBundle<C>, export: bool, o: &mut Vec<u8>)
    requires
        bundle_sigs_wf(*b),
    ensures
        final(o)@ == old(o)@ + bundle_sigs(*b, export),
{
    serialize_sigs(&b.self_revocations, export, o);
    serialize_sigs(&b.self_signatures, export, o);
    serialize_sigs(&b.certifications, export, o);
    serialize_sigs(&b.other_revocations, export, o);
    assert(o@ =~= old(o)@ + bundle_sigs(*b, export));
}

/// Returns the length of what the signatures of a bundle contribute
/// when nothing is left out.
pub(crate) fn bundle_sigs_len<C>(b: &ComponentBundle<C>) -> (l: usize)
    requires
        bundle_sigs_wf(*b),
        bundle_sigs(*b, false).len() <= usize::MAX,
    ensures
        l == bundle_sigs(*b, false).len(),
{
    sigs_len(&b.self_revocations) + sigs_len(&b.self_signatures) + sigs_len(&b.certifications)
        + sigs_len(&b.other_revocations)
}

/// Returns whether every signature of the bundle can be written.
pub(crate) fn bundle_sigs_writable<C>(b: &ComponentBundle<C>) -> (r: bool)
    ensures
        r == bundle_sigs_wf(*b),
{
    sigs_writable(&b.self_signatures) && sigs_writable(&b.certifications) && sigs_writable(
        &b.self_revocations,
    ) && sigs_writable(&b.other_revocations)
}

/// Returns whether every bundle of `bundles` can be written.
pub(crate) fn bundles_writable<C: Component>(bundles: &Vec<ComponentBundle<C>>) -> (r: bool)
    ensures
        r == bundles_wf(bundles@),
{
    let n: usize = bundles.len();
    let mut i: usize = 0;
    while i < n
        invariant
            n == bundles@.len(),
            i <= n,
            forall|j: int| 0 <= j < i ==> bundle_wf(#[trigger] bundles@[j]),
        decreases n - i,
    {
        let b: &ComponentBundle<C> = &bundles[i];
        if !(b.component.component_writable() && bundle_sigs_writable(b)) {
            assert(!bundle_wf(bundles@[i as int]));
            return false;
        }
        i = i + 1;
    }
    true
}

/// Returns whether an export keeps the bundle.
pub(crate) fn is_bundle_exported<C>(b: &ComponentBundle<C>, certs_only: bool) -> (r: bool)
    ensures
        r == bundle_exported(*b, certs_only),
{
    if certs_only {
        any_exportable_sig(&b.certifications)
    } else {
        let r: bool = any_exportable_sig(&b.self_signatures) || any_exportable_sig(
            &b.self_revocations,
        );
        proof {
            let s1 = b.self_signatures@;
            let s2 = b.self_revocations@;
            let s = s1 + s2;
            if any_exportable(s) {
                let i = choose|i: int| 0 <= i < s.len() && #[trigger] s[i].spec_exportable();
                if i < s1.len() {
                    assert(s1[i] == s[i]);
                } else {
                    assert(s2[i - s1.len()] == s[i]);
                }
            }
            if any_exportable(s1) {
                let i = choose|i: int| 0 <= i < s1.len() && #[trigger] s1[i].spec_exportable();
                assert(s[i] == s1[i]);
            }
            if any_exportable(s2) {
                let i = choose|i: int| 0 <= i < s2.len() && #[trigger] s2[i].spec_exportable();
                assert(s[i + s1.len()] == s2[i]);
            }
        }
        r
    }
}

/// Appends what the bundles of `bundles` contribute, in order.
pub(crate) fn serialize_bundles<C: Component>(
    bundles: &Vec<ComponentBundle<C>>,
    export: bool,
    certs_only: bool,
    o: &mut Vec<u8>,
)
    requires
        bundles_wf(bundles@),
    ensures
        final(o)@ == old(o)@ + bundles_out(bundles@, export, certs_only),
{
    let n: usize = bundles.len();
    let mut i: usize = 0;
    assert(bundles@.take(0) =~= Seq::<ComponentBundle<C>>::empty());
    while i < n
        invariant
            n == bundles@.len(),
            i <= n,
            bundles_wf(bundles@),
            o@ == old(o)@ + bundles_out(bundles@.take(i as int), export, certs_only),
        decreases n - i,
    {
        let b: &ComponentBundle<C> = &bundles[i];
        assert(bundle_wf(*b));
        let ghost before = o@;
        if !export || is_bundle_exported(b, certs_only) {
            b.component.serialize_component(o);
            serialize_bundle_sigs(b, export, o);
            assert(o@ =~= before + bundle_out(*b, export, certs_only));
        } else {
            assert(o@ =~= before + bundle_out(*b, export, certs_only));
        }
        proof {
            let t = bundles@.take(i + 1);
            assert(t.drop_last() =~= bundles@.take(i as int));
            assert(t.last() == bundles@[i as int]);
            assert(bundles_out(t, export, certs_only) == bundles_out(
                bundles@.take(i as int),
                export,
                certs_only,
            ) + bundle_out(bundles@[i as int], export, certs_only));
        }
        i = i + 1;
    }
    assert(bundles@.take(n as int) =~= bundles@);
}

/// Returns the length of what the bundles of `bundles` contribute when
/// nothing is left out.
pub(crate) fn bundles_len<C: Component>(bundles: &Vec<ComponentBundle<C>>, certs_only: bool) -> (l: usize)
    requires
        bundles_wf(bundles@),
        bundles_out(bundles@, false, certs_only).len() <= usize::MAX,
    ensures
        l == bundles_out(bundles@, false, certs_only).len(),
{
    let n: usize = bundles.len();
    let mut i: usize = 0;
    let mut l: usize = 0;
    assert(bundles@.take(0) =~= Seq::<ComponentBundle<C>>::empty());
    while i < n
        invariant
            n == bundles@.len(),
            i <= n,
            bundles_wf(bundles@),
            bundles_out(bundles@, false, certs_only).len() <= usize::MAX,
            l == bundles_out(bundles@.take(i as int), false, certs_only).len(),
        decreases n - i,
    {
        proof {
            lemma_bundles_out_prefix_len(bundles@, i + 1, false, certs_only);
            assert(bundles@.take(i + 1).drop_last() =~= bundles@.take(i as int));
        }
        let b: &ComponentBundle<C> = &bundles[i];
        assert(bundle_wf(*b));
        l = l + b.component.component_len();
        l = l + bundle_sigs_len(b);
        i = i + 1;
    }
    assert(bundles@.take(n as int) =~= bundles@);
    l
}


/// Why a serialization into a caller's buffer failed.
#[derive(Debug)]
pub enum SerializeError {
    /// The buffer is too small: the serialization needs up to
    /// `expected` octets, the buffer has `got`.
    InvalidBufferSize { expected: usize, got: usize },
}

/// What serializing `bytes` into a buffer of `old_buf` does: where the
/// bytes fit, they overwrite the front of the buffer and their number
/// is returned; else as many as fit are written and the buffer size is
/// refused against the `expected` size.
pub open spec fn into_buffer_result(
    bytes: Seq<u8>,
    old_buf: Seq<u8>,
    new_buf: Seq<u8>,
    expected: usize,
    r: Result<usize, SerializeError>,
) -> bool {
    if bytes.len() <= old_buf.len() {
        &&& r == Ok::<usize, SerializeError>(bytes.len() as usize)
        &&& new_buf == bytes + old_buf.skip(bytes.len() as int)
    } else {
        &&& r == Err::<usize, SerializeError>(
            SerializeError::InvalidBufferSize { expected, got: old_buf.len() as usize },
        )
        &&& new_buf == bytes.take(old_buf.len() as int)
    }
}

/// Copies `data` into the front of `buf`, as much of it as fits, as
/// `into_buffer_result` states.
pub(crate) fn copy_into_buffer(buf: &mut [u8], data: &[u8], expected: usize) -> (r: Result<
    usize,
    SerializeError,
>)
    ensures
        into_buffer_result(data@, old(buf)@, final(buf)@, expected, r),
{
    let buf_len: usize = buf.len();
    let n: usize = if data.len() <= buf_len {
        data.len()
    } else {
        buf_len
    };
    let mut i: usize = 0;
    while i < n
        invariant
            n <= data@.len(),
            n <= buf_len,
            buf_len == buf@.len() == old(buf)@.len(),
            i <= n,
            buf@ == data@.take(i as int) + old(buf)@.skip(i as int),
        decreases n - i,
    {
        buf[i] = data[i];
        assert(buf@ =~= data@.take(i + 1) + old(buf)@.skip(i + 1));
        i = i + 1;
    }
    if data.len() <= buf_len {
        assert(data@.take(n as int) =~= data@);
        Ok(data.len())
    } else {
        assert(buf@ =~= data@.take(buf_len as int));
        Err(SerializeError::InvalidBufferSize { expected, got: buf_len })
    }
}

/// An OpenPGP certificate: a primary key and its components, each with
/// the signatures on it, and the signatures that could not be placed.
pub struct Cert {
    pub primary: ComponentBundle<Key>,
    pub userids: Vec<ComponentBundle<UserID>>,
    pub user_attributes: Vec<ComponentBundle<UserAttribute>>,
    pub subkeys: Vec<ComponentBundle<Key>>,
    pub unknowns: Vec<ComponentBundle<Unknown>>,
    pub bad_signatures: Vec<Signature>,
}

/// The certificate's `i`th key: the primary key first, then the
/// subkeys.
pub open spec fn cert_key(c: Cert, i: int) -> Key {
    if i == 0 {
        c.primary.component
    } else {
        c.subkeys@[i - 1].component
    }
}

/// The serialized certificate, or with `export` its export: the primary
/// key as a public key packet with its signatures, then the user IDs,
/// the user attributes, the subkeys as public subkey packets, the
/// unknown components, and the signatures that could not be placed.
/// An export leaves out the signatures that may not be exported and
/// the components that no exportable binding signature or revocation
/// keeps.
pub open spec fn cert_bytes(c: Cert, export: bool) -> Seq<u8> {
    c.primary.component.spec_bytes(Tag::PublicKey) + bundle_sigs(c.primary, export)
        + bundles_out(c.userids@, export, false) + bundles_out(c.user_attributes@, export, false)
        + bundles_out(c.subkeys@, export, false) + bundles_out(c.unknowns@, export, true)
        + sigs_out(c.bad_signatures@, export)
}

impl Cert {
    /// The certificates that can be written: every key of version 4,
    /// every signature of version 4 with subpacket areas below 64 KiB.
    pub open spec fn wf(&self) -> bool {
        &&& self.primary.component.wf()
        &&& bundle_sigs_wf(self.primary)
        &&& bundles_wf(self.userids@)
        &&& bundles_wf(self.user_attributes@)
        &&& bundles_wf(self.subkeys@)
        &&& bundles_wf(self.unknowns@)
        &&& sigs_wf(self.bad_signatures@)
    }

    /// Returns whether the certificate can be written.
    pub fn is_writable(&self) -> (b: bool)
        ensures
            b == self.wf(),
    {
        self.primary.component.is_writable() && bundle_sigs_writable(&self.primary)
            && bundles_writable(&self.userids) && bundles_writable(&self.user_attributes)
            && bundles_writable(&self.subkeys) && bundles_writable(&self.unknowns)
            && sigs_writable(&self.bad_signatures)
    }

    /// Serializes or exports the Cert.
    ///
    /// If `export` is true, then non-exportable signatures are not
    /// written, and components without any exportable binding
    /// signature or revocation are not exported.
    ///
    /// The signatures are ordered from authenticated and most
    /// important to not authenticated and most likely to be abused:
    /// self revocations, self signatures, other signatures, other
    /// revocations.
    fn serialize_common(&self, o: &mut Vec<u8>, export: bool)
        requires
            self.wf(),
        ensures
            final(o)@ == old(o)@ + cert_bytes(*self, export),
    {
        let ghost o0 = o@;
        let ghost c = *self;
        self.primary.component.serialize(o, Tag::PublicKey);
        let ghost p1 = c.primary.component.spec_bytes(Tag::PublicKey);
        let ghost x2 = bundle_sigs(c.primary, export);
        serialize_bundle_sigs(&self.primary, export, o);
        proof {
            vstd::seq_lib::lemma_concat_associative(o0, p1, x2);
        }
        let ghost p2 = p1 + x2;
        let ghost x3 = bundles_out(c.userids@, export, false);
        serialize_bundles(&self.userids, export, false, o);
        proof {
            vstd::seq_lib::lemma_concat_associative(o0, p2, x3);
        }
        let ghost p3 = p2 + x3;
        let ghost x4 = bundles_out(c.user_attributes@, export, false);
        serialize_bundles(&self.user_attributes, export, false, o);
        proof {
            vstd::seq_lib::lemma_concat_associative(o0, p3, x4);
        }
        let ghost p4 = p3 + x4;
        let ghost x5 = bundles_out(c.subkeys@, export, false);
        serialize_bundles(&self.subkeys, export, false, o);
        proof {
            vstd::seq_lib::lemma_concat_associative(o0, p4, x5);
        }
        let ghost p5 = p4 + x5;
        let ghost x6 = bundles_out(c.unknowns@, export, true);
        serialize_bundles(&self.unknowns, export, true, o);
        proof {
            vstd::seq_lib::lemma_concat_associative(o0, p5, x6);
        }
        let ghost p6 = p5 + x6;
        let ghost x7 = sigs_out(c.bad_signatures@, export);
        serialize_sigs(&self.bad_signatures, export, o);
        proof {
            vstd::seq_lib::lemma_concat_associative(o0, p6, x7);
        }
        let ghost p7 = p6 + x7;
        assert(p7 == cert_bytes(c, export));
    }

    /// Writes the serialized certificate to `o`.  Secret key material
    /// is never written.
    pub fn serialize(&self, o: &mut Vec<u8>)
        requires
            self.wf(),
        ensures
            final(o)@ == old(o)@ + cert_bytes(*self, false),
    {
        self.serialize_common(o, false)
    }

    /// Writes the exported certificate to `o`: non-exportable
    /// signatures, and components that nothing exportable binds, are
    /// left out.
    pub fn export(&self, o: &mut Vec<u8>)
        requires
            self.wf(),
        ensures
            final(o)@ == old(o)@ + cert_bytes(*self, true),
    {
        self.serialize_common(o, true)
    }

    /// Returns the length of the serialized certificate.
    pub fn serialized_len(&self) -> (l: usize)
        requires
            self.wf(),
            cert_bytes(*self, false).len() <= usize::MAX,
        ensures
            l == cert_bytes(*self, false).len(),
    {
        let mut l: usize = self.primary.component.serialized_len_with_secret(Tag::PublicKey, 0);
        assert(l == self.primary.component.spec_bytes(Tag::PublicKey).len());
        l = l + bundle_sigs_len(&self.primary);
        l = l + bundles_len(&self.userids, false);
        l = l + bundles_len(&self.user_attributes, false);
        l = l + bundles_len(&self.subkeys, false);
        l = l + bundles_len(&self.unknowns, true);
        l = l + sigs_len(&self.bad_signatures);
        l
    }

    /// Serializes the certificate into `buf`, returning the number of
    /// octets written, or an error where `buf` is too small.
    pub fn serialize_into(&self, buf: &mut [u8]) -> (r: Result<usize, SerializeError>)
        requires
            self.wf(),
            cert_bytes(*self, false).len() <= usize::MAX,
        ensures
            into_buffer_result(
                cert_bytes(*self, false),
                old(buf)@,
                final(buf)@,
                cert_bytes(*self, false).len() as usize,
                r,
            ),
    {
        let expected: usize = self.serialized_len();
        let mut bytes: Vec<u8> = Vec::new();
        self.serialize_common(&mut bytes, false);
        assert(bytes@ =~= cert_bytes(*self, false));
        copy_into_buffer(buf, bytes.as_slice(), expected)
    }

    /// Exports the certificate into `buf`, returning the number of
    /// octets written, or an error where `buf` is too small.
    pub fn export_into(&self, buf: &mut [u8]) -> (r: Result<usize, SerializeError>)
        requires
            self.wf(),
            cert_bytes(*self, false).len() <= usize::MAX,
        ensures
            into_buffer_result(
                cert_bytes(*self, true),
                old(buf)@,
                final(buf)@,
                cert_bytes(*self, false).len() as usize,
                r,
            ),
    {
        let expected: usize = self.serialized_len();
        let mut bytes: Vec<u8> = Vec::new();
        self.serialize_common(&mut bytes, true);
        assert(bytes@ =~= cert_bytes(*self, true));
        copy_into_buffer(buf, bytes.as_slice(), expected)
    }

    /// Returns the exported certificate.
    pub fn export_to_vec(&self) -> (o: Vec<u8>)
        requires
            self.wf(),
        ensures
            o@ == cert_bytes(*self, true),
    {
        let mut o: Vec<u8> = Vec::new();
        self.serialize_common(&mut o, true);
        assert(o@ =~= cert_bytes(*self, true));
        o
    }
}


pub(crate) proof fn lemma_sigs_out_export_len(s: Seq<Signature>)
    ensures
        sigs_out(s, true).len() <= sigs_out(s, false).len(),
    decreases s.len(),
{
    if s.len() > 0 {
        lemma_sigs_out_export_len(s.drop_last());
    }
}

pub(crate) proof fn lemma_bundle_sigs_export_len<C>(b: ComponentBundle<C>)
    ensures
        bundle_sigs(b, true).len() <= bundle_sigs(b, false).len(),
{
    lemma_sigs_out_export_len(b.self_revocations@);
    lemma_sigs_out_export_len(b.self_signatures@);
    lemma_sigs_out_export_len(b.certifications@);
    lemma_sigs_out_export_len(b.other_revocations@);
}

pub(crate) proof fn lemma_bundles_out_export_len<C: Component>(s: Seq<ComponentBundle<C>>, certs_only: bool)
    ensures
        bundles_out(s, true, certs_only).len() <= bundles_out(s, false, certs_only).len(),
    decreases s.len(),
{
    if s.len() > 0 {
        lemma_bundles_out_export_len(s.drop_last(), certs_only);
        lemma_bundle_sigs_export_len(s.last());
    }
}

/// An export is never longer than the serialization: a buffer of
/// `Cert::serialized_len` octets always holds the export.
pub proof fn lemma_export_fits(c: Cert)
    ensures
        cert_bytes(c, true).len() <= cert_bytes(c, false).len(),
{
    lemma_bundle_sigs_export_len(c.primary);
    lemma_bundles_out_export_len(c.userids@, false);
    lemma_bundles_out_export_len(c.user_attributes@, false);
    lemma_bundles_out_export_len(c.subkeys@, false);
    lemma_bundles_out_export_len(c.unknowns@, true);
    lemma_sigs_out_export_len(c.bad_signatures@);
}

/// The two keys agree in everything but their secret key material.
pub open spec fn same_public_key(k1: Key, k2: Key) -> bool {
    &&& k1.version == k2.version
    &&& k1.creation_time == k2.creation_time
    &&& k1.pk_algo == k2.pk_algo
    &&& k1.mpis@ == k2.mpis@
}

/// The two bundles carry the same signatures.
pub open spec fn same_sigs<C>(b1: ComponentBundle<C>, b2: ComponentBundle<C>) -> bool {
    &&& b1.self_signatures@ == b2.self_signatures@
    &&& b1.certifications@ == b2.certifications@
    &&& b1.self_revocations@ == b2.self_revocations@
    &&& b1.other_revocations@ == b2.other_revocations@
}

/// The two key bundles agree in everything but the key's secret key
/// material.
pub open spec fn same_public_key_bundle(b1: ComponentBundle<Key>, b2: ComponentBundle<Key>) -> bool {
    same_public_key(b1.component, b2.component) && same_sigs(b1, b2)
}

/// The two certificates agree in everything but their keys' secret key
/// material.
pub open spec fn same_public_cert(c1: Cert, c2: Cert) -> bool {
    &&& same_public_key_bundle(c1.primary, c2.primary)
    &&& c1.userids@ == c2.userids@
    &&& c1.user_attributes@ == c2.user_attributes@
    &&& c1.subkeys@.len() == c2.subkeys@.len()
    &&& forall|i: int|
        0 <= i < c1.subkeys@.len() ==> same_public_key_bundle(
            #[trigger] c1.subkeys@[i],
            c2.subkeys@[i],
        )
    &&& c1.unknowns@ == c2.unknowns@
    &&& c1.bad_signatures@ == c2.bad_signatures@
}

proof fn lemma_subkeys_out_public(s1: Seq<ComponentBundle<Key>>, s2: Seq<ComponentBundle<Key>>, export: bool)
    requires
        s1.len() == s2.len(),
        forall|i: int| 0 <= i < s1.len() ==> same_public_key_bundle(#[trigger] s1[i], s2[i]),
    ensures
        bundles_out(s1, export, false) == bundles_out(s2, export, false),
    decreases s1.len(),
{
    if s1.len() > 0 {
        let n = s1.len() - 1;
        assert forall|i: int| 0 <= i < s1.drop_last().len() implies same_public_key_bundle(
            #[trigger] s1.drop_last()[i],
            s2.drop_last()[i],
        ) by {
            assert(same_public_key_bundle(s1[i], s2[i]));
        }
        lemma_subkeys_out_public(s1.drop_last(), s2.drop_last(), export);
        assert(same_public_key_bundle(s1[n], s2[n]));
        assert(s1.last().component.component_bytes() =~= s2.last().component.component_bytes());
        assert(bundle_sigs(s1.last(), export) == bundle_sigs(s2.last(), export));
        assert(bundle_exported(s1.last(), false) == bundle_exported(s2.last(), false));
    }
}

/// Serializing or exporting a certificate never reveals secret key
/// material: certificates that differ only in it give the same bytes.
pub proof fn lemma_cert_bytes_ignore_secrets(c1: Cert, c2: Cert, export: bool)
    requires
        same_public_cert(c1, c2),
    ensures
        cert_bytes(c1, export) == cert_bytes(c2, export),
{
    lemma_subkeys_out_public(c1.subkeys@, c2.subkeys@, export);
    assert(c1.primary.component.spec_bytes(Tag::PublicKey) =~= c2.primary.component.spec_bytes(
        Tag::PublicKey,
    ));
    assert(bundle_sigs(c1.primary, export) == bundle_sigs(c2.primary, export));
}

} // verus!
