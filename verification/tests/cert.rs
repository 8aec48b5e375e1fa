use std::cell::RefCell;

use openpgp_serialize::cert::{Cert, ComponentBundle, SerializeError};
use openpgp_serialize::header::Tag;
use openpgp_serialize::packet::{Key, Signature, Unknown, UserAttribute, UserID};

const STUB: [u8; 8] = [0xFF, 0x00, 101, 0x00, 0x47, 0x4E, 0x55, 0x01];

fn sig(sigtype: u8, exportable: bool) -> Signature {
    Signature {
        version: 4,
        sigtype,
        pk_algo: 22,
        hash_algo: 10,
        hashed_area: if exportable { vec![5, 2, 0x5F, 0, 0, 0] } else { vec![2, 4, 0] },
        unhashed_area: vec![],
        hash_prefix: [0x12, 0x34],
        mpis: vec![0, 8, 0xAA],
    }
}

fn key(seed: u8, secret: Option<Vec<u8>>) -> Key {
    Key { version: 4, creation_time: 0x5F00_0000, pk_algo: 22, mpis: vec![0, 8, seed], secret }
}

fn bundle<C>(component: C, self_signatures: Vec<Signature>) -> ComponentBundle<C> {
    ComponentBundle {
        component,
        self_signatures,
        certifications: vec![],
        self_revocations: vec![],
        other_revocations: vec![],
    }
}

/// A certificate with every kind of component, the binding signatures
/// exportable unless `exportable` is false.
fn sample_cert(secrets: bool, exportable: bool) -> Cert {
    let secret = |b: u8| if secrets { Some(vec![0, 1, b]) } else { None };
    let mut primary = bundle(key(1, secret(0x11)), vec![sig(0x1F, true)]);
    primary.self_revocations.push(sig(0x20, true));
    primary.certifications.push(sig(0x10, true));
    let mut uid = bundle(UserID { value: b"foo".to_vec() }, vec![sig(0x13, exportable)]);
    uid.other_revocations.push(sig(0x30, true));
    Cert {
        primary,
        userids: vec![uid],
        user_attributes: vec![bundle(
            UserAttribute { value: vec![1, 2, b'f', b'o', b'o'] },
            vec![sig(0x13, exportable)],
        )],
        subkeys: vec![bundle(key(2, secret(0x22)), vec![sig(0x18, exportable)])],
        unknowns: vec![ComponentBundle {
            component: Unknown { tag: Tag::Unknown(40), body: Some(vec![7]) },
            self_signatures: vec![],
            certifications: vec![sig(0x10, true)],
            self_revocations: vec![],
            other_revocations: vec![],
        }],
        bad_signatures: vec![sig(0x00, true)],
    }
}

fn is_tsk(cert: &Cert) -> bool {
    cert.primary.component.has_secret() || cert.subkeys.iter().any(|k| k.component.has_secret())
}

fn cat(parts: &[Vec<u8>]) -> Vec<u8> {
    parts.iter().flat_map(|p| p.iter().copied()).collect()
}

/// The serialization written out by hand: all components, public keys.
fn expected_cert_bytes(cert: &Cert) -> Vec<u8> {
    cat(&[
        cert.primary.component.to_vec(Tag::PublicKey),
        cert.primary.self_revocations[0].to_vec(),
        cert.primary.self_signatures[0].to_vec(),
        cert.primary.certifications[0].to_vec(),
        cert.userids[0].component.to_vec(),
        cert.userids[0].self_signatures[0].to_vec(),
        cert.userids[0].other_revocations[0].to_vec(),
        cert.user_attributes[0].component.to_vec(),
        cert.user_attributes[0].self_signatures[0].to_vec(),
        cert.subkeys[0].component.to_vec(Tag::PublicSubkey),
        cert.subkeys[0].self_signatures[0].to_vec(),
        cert.unknowns[0].component.to_vec(),
        cert.unknowns[0].certifications[0].to_vec(),
        cert.bad_signatures[0].to_vec(),
    ])
}

/// Demonstrates that public keys and all components are serialized.
#[test]
fn roundtrip_cert() {
    let cert = sample_cert(false, true);
    assert!(!is_tsk(&cert));
    let buf = cert.as_tsk().to_vec();
    assert_eq!(buf, expected_cert_bytes(&cert), "roundtripping failed");
    let mut plain = Vec::new();
    cert.serialize(&mut plain);
    assert_eq!(buf, plain);
}

/// Demonstrates that secret keys and all components are serialized.
#[test]
fn roundtrip_tsk() {
    let cert = sample_cert(true, true);
    assert!(is_tsk(&cert));

    let mut buf = Vec::new();
    cert.as_tsk().serialize(&mut buf);
    let expected = cat(&[
        cert.primary.component.to_vec(Tag::SecretKey),
        cert.primary.self_revocations[0].to_vec(),
        cert.primary.self_signatures[0].to_vec(),
        cert.primary.certifications[0].to_vec(),
        cert.userids[0].component.to_vec(),
        cert.userids[0].self_signatures[0].to_vec(),
        cert.userids[0].other_revocations[0].to_vec(),
        cert.user_attributes[0].component.to_vec(),
        cert.user_attributes[0].self_signatures[0].to_vec(),
        cert.subkeys[0].component.to_vec(Tag::SecretSubkey),
        cert.subkeys[0].self_signatures[0].to_vec(),
        cert.unknowns[0].component.to_vec(),
        cert.unknowns[0].certifications[0].to_vec(),
        cert.bad_signatures[0].to_vec(),
    ]);
    assert_eq!(buf, expected, "roundtripping failed");

    // This time, use a trivial filter.
    let mut buf2 = Vec::new();
    cert.as_tsk().set_filter(|_| true).serialize(&mut buf2);
    assert_eq!(buf, buf2, "roundtripping failed");
}

/// Demonstrates that TSK::serialize() with the right filter reduces to
/// Cert::serialize().
#[test]
fn reduce_to_cert_serialize() {
    let cert = sample_cert(true, true);
    assert!(is_tsk(&cert));

    // First, use Cert::serialize().
    let mut buf_cert = Vec::new();
    cert.serialize(&mut buf_cert);

    // When serializing using TSK::serialize, filter out all secret keys.
    let mut buf_tsk = Vec::new();
    cert.as_tsk().set_filter(|_| false).serialize(&mut buf_tsk);

    // Check for identity.
    assert_eq!(buf_cert, buf_tsk, "reducing failed: serialized identity");
    assert_eq!(buf_cert, expected_cert_bytes(&cert));
}

#[test]
fn export() {
    // The binding signatures of the user ID, the user attribute and
    // the subkey are not exportable.
    let cert = sample_cert(true, false);
    let exported = cat(&[
        cert.primary.component.to_vec(Tag::PublicKey),
        cert.primary.self_revocations[0].to_vec(),
        cert.primary.self_signatures[0].to_vec(),
        cert.primary.certifications[0].to_vec(),
        cert.unknowns[0].component.to_vec(),
        cert.unknowns[0].certifications[0].to_vec(),
        cert.bad_signatures[0].to_vec(),
    ]);

    let mut buf = Vec::new();
    cert.export(&mut buf);
    assert_eq!(buf, exported);

    let mut buf = vec![0; cert.serialized_len()];
    let l = cert.export_into(&mut buf).unwrap();
    buf.truncate(l);
    assert_eq!(buf, exported);

    assert_eq!(cert.export_to_vec(), exported);

    // Same, this time as TSKs.
    let exported_tsk = cat(&[
        cert.primary.component.to_vec(Tag::SecretKey),
        cert.primary.self_revocations[0].to_vec(),
        cert.primary.self_signatures[0].to_vec(),
        cert.primary.certifications[0].to_vec(),
        cert.unknowns[0].component.to_vec(),
        cert.unknowns[0].certifications[0].to_vec(),
        cert.bad_signatures[0].to_vec(),
    ]);
    let mut buf = Vec::new();
    cert.as_tsk().export(&mut buf);
    assert_eq!(buf, exported_tsk);

    let mut buf = vec![0; cert.as_tsk().serialized_len()];
    let l = cert.as_tsk().export_into(&mut buf).unwrap();
    buf.truncate(l);
    assert_eq!(buf, exported_tsk);

    assert_eq!(cert.as_tsk().export_to_vec(), exported_tsk);
}

/// Tests that GnuPG-style stubs are preserved when roundtripping.
#[test]
fn issue_613() {
    let cert = sample_cert(true, true);
    let primary_mpis = cert.primary.component.mpis.clone();

    // Only write out the subkey's secret, the primary key is "detached".
    let buf = cert
        .as_tsk()
        .set_filter(move |k| k.mpis != primary_mpis)
        .emit_secret_key_stubs(true)
        .to_vec();

    // The primary key is a secret key packet with an "encrypted" stub:
    // S2K usage 255, no cipher, the private S2K type 101, "GNU", mode 1.
    assert_eq!(buf[0], 0xC5);
    let public_len = cert.primary.component.to_vec(Tag::PublicKey).len() - 2;
    assert_eq!(buf[1] as usize, public_len + 8);
    let stub_at = 2 + public_len;
    assert_eq!(&buf[stub_at..stub_at + 8], &STUB);
    assert_eq!(buf[stub_at + 2], 101);

    // The subkey still carries its secret.
    let subkey = cert.subkeys[0].component.to_vec(Tag::SecretSubkey);
    assert!(buf.windows(subkey.len()).any(|w| w == &subkey[..]));

    // When roundtripping such a key, the stub should be preserved.
    let mut cert_ = sample_cert(true, true);
    cert_.primary.component.secret = Some(STUB.to_vec());
    let buf_ = cert_.as_tsk().to_vec();
    assert_eq!(buf, buf_);
}

#[test]
fn cert_serialization_hides_secrets() {
    let with = sample_cert(true, false);
    let without = sample_cert(false, false);
    let mut a = Vec::new();
    with.serialize(&mut a);
    let mut b = Vec::new();
    without.serialize(&mut b);
    assert_eq!(a, b);
    assert_eq!(with.export_to_vec(), without.export_to_vec());
}

#[test]
fn serialized_len_matches_output() {
    for (secrets, exportable) in [(false, false), (true, true), (true, false)] {
        let cert = sample_cert(secrets, exportable);
        let mut o = Vec::new();
        cert.serialize(&mut o);
        assert_eq!(cert.serialized_len(), o.len());
        assert!(cert.export_to_vec().len() <= o.len());
        for stubs in [false, true] {
            let tsk = cert.as_tsk().emit_secret_key_stubs(stubs);
            assert_eq!(tsk.serialized_len(), tsk.to_vec().len());
            assert!(tsk.export_to_vec().len() <= tsk.serialized_len());
        }
    }
}

#[test]
fn serialize_into_small_buffer() {
    let cert = sample_cert(false, true);
    let full = cert.as_tsk().to_vec();
    let mut buf = vec![0xEE; 10];
    match cert.serialize_into(&mut buf) {
        Err(SerializeError::InvalidBufferSize { expected, got }) => {
            assert_eq!(expected, full.len());
            assert_eq!(got, 10);
        }
        Ok(_) => panic!("the buffer is too small"),
    }
    assert_eq!(&buf[..], &full[..10]);

    let mut big = vec![0xEE; full.len() + 3];
    assert_eq!(cert.serialize_into(&mut big).unwrap(), full.len());
    assert_eq!(&big[..full.len()], &full[..]);
    assert_eq!(&big[full.len()..], &[0xEE, 0xEE, 0xEE]);

    let mut small = vec![0; 4];
    assert!(cert.as_tsk().serialize_into(&mut small).is_err());
    assert_eq!(&small[..], &full[..4]);
}

#[test]
fn stubs_for_keys_without_secret() {
    let cert = sample_cert(false, true);
    let buf = cert.as_tsk().emit_secret_key_stubs(true).to_vec();
    let mut primary = cert.primary.component.to_vec(Tag::PublicKey);
    primary[0] = 0xC5;
    primary[1] += 8;
    primary.extend_from_slice(&STUB);
    assert_eq!(&buf[..primary.len()], &primary[..]);
    let mut subkey = cert.subkeys[0].component.to_vec(Tag::PublicSubkey);
    subkey[0] = 0xC7;
    subkey[1] += 8;
    subkey.extend_from_slice(&STUB);
    assert!(buf.windows(subkey.len()).any(|w| w == &subkey[..]));
}

#[test]
fn tsk_primary_signature_order_matches_cert() {
    // Both write the primary key's self revocations first, then its self
    // signatures.
    let cert = sample_cert(false, true);
    let mut plain = Vec::new();
    cert.serialize(&mut plain);
    let tsk = cert.as_tsk().to_vec();
    assert_eq!(plain, tsk);
    let key_len = cert.primary.component.to_vec(Tag::PublicKey).len();
    let rev = cert.primary.self_revocations[0].to_vec();
    let selfsig = cert.primary.self_signatures[0].to_vec();
    assert_eq!(&tsk[key_len..key_len + rev.len()], &rev[..]);
    assert_eq!(&tsk[key_len + rev.len()..key_len + rev.len() + selfsig.len()], &selfsig[..]);
}

#[test]
fn set_filter_replaces_earlier_filter() {
    let cert = sample_cert(true, true);
    let twice = cert.as_tsk().set_filter(|_| true).set_filter(|_| false).to_vec();
    let once = cert.as_tsk().set_filter(|_| false).to_vec();
    assert_eq!(twice, once);
    let mut plain = Vec::new();
    cert.serialize(&mut plain);
    assert_eq!(twice, plain);
    let back = cert.as_tsk().set_filter(|_| false).set_filter(|_| true).to_vec();
    assert_eq!(back, cert.as_tsk().to_vec());
}

#[test]
fn filter_asked_at_each_writing() {
    // A primary key with a secret, a subkey with a secret whose binding
    // signature is not exportable, and a subkey without a secret.
    let mut cert = sample_cert(true, false);
    cert.subkeys.push(bundle(key(3, None), vec![sig(0x18, true)]));
    let asked: RefCell<Vec<u8>> = RefCell::new(Vec::new());
    let tsk = cert.as_tsk().set_filter(|k: &Key| {
        asked.borrow_mut().push(k.mpis[2]);
        k.mpis[2] != 1
    });
    // Setting the filter asks nothing.
    assert!(asked.borrow().is_empty());

    // A serialization asks about each key with a secret, primary first.
    let buf = tsk.to_vec();
    assert_eq!(*asked.borrow(), vec![1, 2]);
    let public = cert.primary.component.to_vec(Tag::PublicKey);
    assert_eq!(&buf[..public.len()], &public[..]);

    // Each writing asks again.
    tsk.serialized_len();
    assert_eq!(*asked.borrow(), vec![1, 2, 1, 2]);

    // An export does not ask about the subkey that it leaves out.
    asked.borrow_mut().clear();
    tsk.export_to_vec();
    assert_eq!(*asked.borrow(), vec![1]);
}
