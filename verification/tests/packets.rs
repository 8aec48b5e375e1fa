use std::io::Read;

use openpgp_serialize::header::{
    body_length_new_format, body_length_old_format, ctb_new, ctb_old, BodyLength, Tag,
};
use openpgp_serialize::packet::{
    packets_writable, CompressedData, Key, Literal, Message, Packet, Signature, Unknown, UserAttribute, UserID,
};

fn sample_signature() -> Signature {
    Signature {
        version: 4,
        sigtype: 0x13,
        pk_algo: 1,
        hash_algo: 8,
        hashed_area: vec![2, 4, 0],
        unhashed_area: vec![],
        hash_prefix: [0xAB, 0xCD],
        mpis: vec![1, 2, 3],
    }
}

fn sample_key() -> Key {
    Key {
        version: 4,
        creation_time: 0x0102_0304,
        pk_algo: 1,
        mpis: vec![9, 9],
        secret: Some(vec![0, 7, 7]),
    }
}

fn sample_literal() -> Literal {
    Literal {
        format: b'b',
        filename: Some(b"a.txt".to_vec()),
        date: 0x5B00_0000,
        body: Some(b"hi".to_vec()),
    }
}

#[test]
fn new_format_lengths() {
    assert_eq!(body_length_new_format(BodyLength::Full(0)), vec![0]);
    assert_eq!(body_length_new_format(BodyLength::Full(191)), vec![191]);
    assert_eq!(body_length_new_format(BodyLength::Full(192)), vec![0xC0, 0x00]);
    assert_eq!(body_length_new_format(BodyLength::Full(1723)), vec![0xC5, 0xFB]);
    assert_eq!(body_length_new_format(BodyLength::Full(8382)), vec![0xDF, 0xFE]);
    assert_eq!(
        body_length_new_format(BodyLength::Full(8383)),
        vec![0xFF, 0x00, 0x00, 0x20, 0xBF]
    );
    assert_eq!(
        body_length_new_format(BodyLength::Full(100000)),
        vec![0xFF, 0x00, 0x01, 0x86, 0xA0]
    );
    assert_eq!(
        body_length_new_format(BodyLength::Full(u32::MAX)),
        vec![0xFF, 0xFF, 0xFF, 0xFF, 0xFF]
    );
}

#[test]
fn old_format_lengths() {
    assert_eq!(body_length_old_format(BodyLength::Full(0)), vec![0]);
    assert_eq!(body_length_old_format(BodyLength::Full(0xFF)), vec![0xFF]);
    assert_eq!(body_length_old_format(BodyLength::Full(0x100)), vec![0x01, 0x00]);
    assert_eq!(body_length_old_format(BodyLength::Full(0xFFFF)), vec![0xFF, 0xFF]);
    assert_eq!(
        body_length_old_format(BodyLength::Full(0x1_0000)),
        vec![0x00, 0x01, 0x00, 0x00]
    );
    assert_eq!(body_length_old_format(BodyLength::Indeterminate), Vec::<u8>::new());
}

#[test]
fn ctbs() {
    assert_eq!(ctb_new(Tag::Signature), 0xC2);
    assert_eq!(ctb_new(Tag::UserAttribute), 0xD1);
    assert_eq!(ctb_new(Tag::Private(60)), 0xFC);
    assert_eq!(ctb_old(Tag::UserID, BodyLength::Full(3)), 0xB4);
    assert_eq!(ctb_old(Tag::Literal, BodyLength::Full(0x100)), 0xAD);
    assert_eq!(ctb_old(Tag::Literal, BodyLength::Full(0x1_0000)), 0xAE);
    assert_eq!(ctb_old(Tag::Literal, BodyLength::Indeterminate), 0xAF);
    assert_eq!(Tag::UserAttribute.to_numeric(), 17);
    assert_eq!(Tag::Unknown(42).to_numeric(), 42);
}

#[test]
fn unknown_packet_bytes() {
    let u = Unknown { tag: Tag::Unknown(60), body: Some(vec![1, 2]) };
    assert_eq!(u.to_vec(), vec![0xFC, 2, 1, 2]);
    let empty = Unknown { tag: Tag::Marker, body: None };
    assert_eq!(empty.to_vec(), vec![0xCA, 0]);
}

#[test]
fn signature_packet_bytes() {
    let s = sample_signature();
    assert_eq!(
        s.to_vec(),
        vec![0xC2, 16, 4, 0x13, 1, 8, 0, 3, 2, 4, 0, 0, 0, 0xAB, 0xCD, 1, 2, 3]
    );
    assert_eq!(s.serialized_len(), 18);
}

#[test]
fn key_packet_bytes() {
    let k = sample_key();
    assert_eq!(k.to_vec(Tag::PublicKey), vec![0xC6, 8, 4, 1, 2, 3, 4, 1, 9, 9]);
    assert_eq!(k.to_vec(Tag::PublicSubkey), vec![0xCE, 8, 4, 1, 2, 3, 4, 1, 9, 9]);
    assert_eq!(
        k.to_vec(Tag::SecretKey),
        vec![0xC5, 11, 4, 1, 2, 3, 4, 1, 9, 9, 0, 7, 7]
    );
    assert_eq!(
        k.to_vec(Tag::SecretSubkey),
        vec![0xC7, 11, 4, 1, 2, 3, 4, 1, 9, 9, 0, 7, 7]
    );
    let mut o = vec![0xEE];
    k.serialize(&mut o, Tag::PublicKey);
    assert_eq!(o, vec![0xEE, 0xC6, 8, 4, 1, 2, 3, 4, 1, 9, 9]);
}

#[test]
fn user_id_and_attribute_bytes() {
    let u = UserID { value: b"Foo".to_vec() };
    assert_eq!(u.to_vec(), vec![0xB4, 3, b'F', b'o', b'o']);
    let long = UserID { value: vec![b'x'; 300] };
    let bytes = long.to_vec();
    assert_eq!(&bytes[..3], &[0xB5, 0x01, 0x2C]);
    assert_eq!(bytes.len(), 303);
    let ua = UserAttribute { value: vec![1, 2, 3] };
    assert_eq!(ua.to_vec(), vec![0xD1, 3, 1, 2, 3]);
}

#[test]
fn literal_packet_bytes() {
    let l = sample_literal();
    assert_eq!(
        l.to_vec(),
        vec![0xAC, 13, b'b', 5, b'a', b'.', b't', b'x', b't', 0x5B, 0, 0, 0, b'h', b'i']
    );
    let bare = Literal { format: b't', filename: None, date: 0, body: None };
    assert_eq!(bare.to_vec(), vec![0xAC, 6, b't', 0, 0, 0, 0, 0]);
}

#[test]
fn literal_filename_is_cut_at_255() {
    let l = Literal {
        format: b'b',
        filename: Some(vec![b'n'; 300]),
        date: 1,
        body: Some(vec![7]),
    };
    let bytes = l.to_vec();
    // 1 + (1 + 255) + 4 + 1 = 262 octets of body: a two octet length.
    assert_eq!(&bytes[..5], &[0xAD, 0x01, 0x06, b'b', 255]);
    assert_eq!(bytes.len(), 3 + 262);
    assert_eq!(bytes[5 + 254], b'n');
    assert_eq!(&bytes[5 + 255..], &[0, 0, 0, 1, 7]);
}

#[test]
fn compressed_data_stored() {
    let lit = sample_literal().to_vec();
    let cd = CompressedData {
        algo: 0,
        children: Some(vec![Packet::Literal(sample_literal())]),
        body: None,
    };
    let mut expected = vec![0xC8, 16, 0];
    expected.extend_from_slice(&lit);
    assert_eq!(cd.to_vec(), expected);

    let nested = CompressedData {
        algo: 0,
        children: Some(vec![Packet::CompressedData(cd)]),
        body: Some(vec![5]),
    };
    let mut expected2 = vec![0xC8, 20, 0];
    expected2.extend_from_slice(&expected);
    expected2.push(5);
    assert_eq!(nested.to_vec(), expected2);
}

fn content_of_sample() -> Vec<u8> {
    let mut content = sample_literal().to_vec();
    content.extend_from_slice(b"trailing data trailing data trailing data");
    content
}

fn compressed_sample(algo: u8) -> Vec<u8> {
    let cd = CompressedData {
        algo,
        children: Some(vec![Packet::Literal(sample_literal())]),
        body: Some(b"trailing data trailing data trailing data".to_vec()),
    };
    let bytes = cd.to_vec();
    assert_eq!(bytes[0], 0xC8);
    let len = bytes[1] as usize;
    assert!(len < 192);
    assert_eq!(bytes.len(), 2 + len);
    assert_eq!(bytes[2], algo);
    bytes[3..].to_vec()
}

#[test]
fn compressed_data_deflate() {
    let payload = compressed_sample(1);
    assert_ne!(payload, content_of_sample());
    let mut out = Vec::new();
    flate2::read::DeflateDecoder::new(&payload[..]).read_to_end(&mut out).unwrap();
    assert_eq!(out, content_of_sample());
}

#[test]
fn compressed_data_zlib() {
    let payload = compressed_sample(2);
    assert_ne!(payload, content_of_sample());
    let mut out = Vec::new();
    flate2::read::ZlibDecoder::new(&payload[..]).read_to_end(&mut out).unwrap();
    assert_eq!(out, content_of_sample());
}

#[test]
fn compressed_data_bzip2() {
    let payload = compressed_sample(3);
    assert_ne!(payload, content_of_sample());
    let mut out = Vec::new();
    bzip2::read::BzDecoder::new(&payload[..]).read_to_end(&mut out).unwrap();
    assert_eq!(out, content_of_sample());
}

#[test]
fn compressed_data_long_body_is_chunked() {
    let n = 5 * 1024 * 1024 - 1;
    let data: Vec<u8> = (0..n).map(|i| (i % 251) as u8).collect();
    let cd = CompressedData { algo: 0, children: None, body: Some(data.clone()) };
    let bytes = cd.to_vec();
    // CTB, a partial chunk of 4 MiB (the algorithm octet and data),
    // then the last 1 MiB under a five octet length.
    assert_eq!(bytes[0], 0xC8);
    assert_eq!(bytes[1], 246);
    assert_eq!(bytes[2], 0);
    assert_eq!(&bytes[3..2 + 4194304], &data[..4194303]);
    let at = 2 + 4194304;
    assert_eq!(&bytes[at..at + 5], &[0xFF, 0x00, 0x10, 0x00, 0x00]);
    assert_eq!(&bytes[at + 5..], &data[4194303..]);
    assert_eq!(bytes.len(), 1 + 1 + 4194304 + 5 + 1048576);
}

#[test]
fn write_compressed_packet_frames_given_data() {
    let mut o = Vec::new();
    openpgp_serialize::packet::write_compressed_packet(&mut o, 2, &[9, 8, 7]);
    assert_eq!(o, vec![0xC8, 4, 2, 9, 8, 7]);
}

#[test]
fn packet_to_vec_dispatches_on_kind() {
    let k = sample_key();
    assert_eq!(Packet::SecretSubkey(sample_key()).to_vec(), k.to_vec(Tag::SecretSubkey));
    assert_eq!(Packet::PublicKey(sample_key()).to_vec(), k.to_vec(Tag::PublicKey));
    assert_eq!(Packet::Signature(sample_signature()).to_vec(), sample_signature().to_vec());
    assert_eq!(Packet::Literal(sample_literal()).tag(), Tag::Literal);
}

#[test]
fn message_is_its_packets_in_order() {
    let m = Message {
        packets: vec![
            Packet::UserID(UserID { value: b"Foo".to_vec() }),
            Packet::Signature(sample_signature()),
            Packet::Literal(sample_literal()),
        ],
    };
    let mut expected = UserID { value: b"Foo".to_vec() }.to_vec();
    expected.extend_from_slice(&sample_signature().to_vec());
    expected.extend_from_slice(&sample_literal().to_vec());
    assert_eq!(m.to_vec(), expected);
    let mut o = vec![1];
    m.serialize(&mut o);
    assert_eq!(&o[1..], &expected[..]);
    assert_eq!(Message { packets: vec![] }.to_vec(), Vec::<u8>::new());
}

#[test]
fn signature_exportability() {
    let mut s = sample_signature();
    // Exportable certification subpacket with value 0.
    assert!(!s.exportable());
    s.hashed_area = vec![2, 4, 1];
    assert!(s.exportable());
    // Critical bit set, value 0: still the exportable certification.
    s.hashed_area = vec![2, 0x84, 0];
    assert!(!s.exportable());
    // The last instance wins.
    s.hashed_area = vec![2, 4, 0, 2, 4, 1];
    assert!(s.exportable());
    s.hashed_area = vec![];
    assert!(s.exportable());
    // A sensitive revocation key.
    let mut rk = vec![23, 12, 0xC0, 1];
    rk.extend_from_slice(&[0x11; 20]);
    s.hashed_area = rk.clone();
    assert!(!s.exportable());
    rk[2] = 0x80;
    s.hashed_area = rk;
    assert!(s.exportable());
    // Other subpackets first, with a two octet length.
    let mut area = vec![192, 0, 20];
    area.extend_from_slice(&[0u8; 191]);
    area.extend_from_slice(&[2, 4, 0]);
    s.hashed_area = area;
    assert!(!s.exportable());
    // A truncated subpacket ends the area.
    s.hashed_area = vec![5, 4, 0];
    assert!(s.exportable());
}

fn text_literal(body: &[u8]) -> Packet {
    Packet::Literal(Literal { format: b't', filename: None, date: 0, body: Some(body.to_vec()) })
}

fn stored(children: Vec<Packet>) -> Packet {
    Packet::CompressedData(CompressedData { algo: 0, children: Some(children), body: None })
}

/// The bytes of a text literal packet without file name or date.
fn text_literal_bytes(body: &[u8]) -> Vec<u8> {
    let mut v = vec![0xAC, (6 + body.len()) as u8, b't', 0, 0, 0, 0, 0];
    v.extend_from_slice(body);
    v
}

/// The bytes of a stored (algorithm 0) compressed data packet around
/// `content`, which is short enough for a one-octet length.
fn stored_bytes(content: &[u8]) -> Vec<u8> {
    let mut v = vec![0xC8, (1 + content.len()) as u8, 0];
    v.extend_from_slice(content);
    v
}

fn cat_bytes(parts: &[Vec<u8>]) -> Vec<u8> {
    parts.concat()
}

#[test]
fn serialize_test_3() {
    let mut messages = Vec::new();

    // 1: CompressedData(algo 0): Literal "one", Literal "two"
    // 2: Literal "three"
    messages.push((
        vec![
            stored(vec![text_literal(b"one"), text_literal(b"two")]),
            text_literal(b"three"),
        ],
        cat_bytes(&[
            stored_bytes(&cat_bytes(&[text_literal_bytes(b"one"), text_literal_bytes(b"two")])),
            text_literal_bytes(b"three"),
        ]),
    ));

    // 1: CompressedData(algo 0)
    //  1: CompressedData(algo 0): Literal "one", Literal "two"
    //  2: CompressedData(algo 0): Literal "three", Literal "four"
    messages.push((
        vec![stored(vec![
            stored(vec![text_literal(b"one"), text_literal(b"two")]),
            stored(vec![text_literal(b"three"), text_literal(b"four")]),
        ])],
        stored_bytes(&cat_bytes(&[
            stored_bytes(&cat_bytes(&[text_literal_bytes(b"one"), text_literal_bytes(b"two")])),
            stored_bytes(&cat_bytes(&[text_literal_bytes(b"three"), text_literal_bytes(b"four")])),
        ])),
    ));

    // 1: CompressedData(algo 0)
    //  1: CompressedData(algo 0)
    //   1: CompressedData(algo 0)
    //    1: CompressedData(algo 0): Literal "one", Literal "two"
    //  2: CompressedData(algo 0)
    //   1: CompressedData(algo 0): Literal "three"
    //   2: Literal "four"
    messages.push((
        vec![stored(vec![
            stored(vec![stored(vec![stored(vec![
                text_literal(b"one"),
                text_literal(b"two"),
            ])])]),
            stored(vec![stored(vec![text_literal(b"three")]), text_literal(b"four")]),
        ])],
        stored_bytes(&cat_bytes(&[
            stored_bytes(&stored_bytes(&stored_bytes(&cat_bytes(&[
                text_literal_bytes(b"one"),
                text_literal_bytes(b"two"),
            ])))),
            stored_bytes(&cat_bytes(&[
                stored_bytes(&text_literal_bytes(b"three")),
                text_literal_bytes(b"four"),
            ])),
        ])),
    ));

    // 1: CompressedData(algo 0): Literal "one", Literal "two"
    // 2: Literal "three"
    // 3: Literal "four"
    // 4: CompressedData(algo 0): Literal "five", Literal "six"
    messages.push((
        vec![
            stored(vec![text_literal(b"one"), text_literal(b"two")]),
            text_literal(b"three"),
            text_literal(b"four"),
            stored(vec![text_literal(b"five"), text_literal(b"six")]),
        ],
        cat_bytes(&[
            stored_bytes(&cat_bytes(&[text_literal_bytes(b"one"), text_literal_bytes(b"two")])),
            text_literal_bytes(b"three"),
            text_literal_bytes(b"four"),
            stored_bytes(&cat_bytes(&[text_literal_bytes(b"five"), text_literal_bytes(b"six")])),
        ]),
    ));

    // 1: UserID "Foo"
    messages.push((
        vec![Packet::UserID(UserID { value: b"Foo".to_vec() })],
        vec![0xB4, 3, b'F', b'o', b'o'],
    ));

    for (packets, expected) in messages.into_iter() {
        let m = Message { packets };
        assert!(packets_writable(&m.packets));
        let mut buffer = Vec::new();
        m.serialize(&mut buffer);
        assert_eq!(buffer, expected);
        assert_eq!(m.to_vec(), expected);
    }
}
