use osc_relay::codec::{decode, encode, encode_each, DecodeError};
use osc_relay::crypto::{decrypt, plaintext_or_legacy, DecryptError, IV, KEY};
use osc_relay::keyfile::read_key_file;
use osc_relay::packet::{OscArg, OscBundle, OscMessage, OscTime, Packet};

use cbc::cipher::{BlockEncryptMut, KeyIvInit};

fn wire_message(addr: &str, args: Vec<rosc::OscType>) -> rosc::OscPacket {
    rosc::OscPacket::Message(rosc::OscMessage { addr: addr.to_string(), args })
}

fn encrypted(plain: &[u8]) -> Vec<u8> {
    cbc::Encryptor::<aes::Aes256>::new_from_slices(&KEY, &IV)
        .unwrap()
        .encrypt_padded_vec_mut::<cbc::cipher::block_padding::Pkcs7>(plain)
}

#[test]
fn a_message_decodes_with_its_arguments() {
    let bytes = rosc::encoder::encode(&wire_message(
        "/avatar/parameters/ParamA",
        vec![
            rosc::OscType::Float(1.5),
            rosc::OscType::Int(-7),
            rosc::OscType::String("hello".to_string()),
            rosc::OscType::Bool(true),
            rosc::OscType::Nil,
            rosc::OscType::Inf,
            rosc::OscType::Long(1 << 40),
            rosc::OscType::Double(2.5),
            rosc::OscType::Char('x'),
            rosc::OscType::Blob(vec![1, 2, 3]),
            rosc::OscType::Time(rosc::OscTime { seconds: 5, fractional: 6 }),
            rosc::OscType::Color(rosc::OscColor { red: 1, green: 2, blue: 3, alpha: 4 }),
            rosc::OscType::Midi(rosc::OscMidiMessage { port: 9, status: 8, data1: 7, data2: 6 }),
        ],
    ))
    .unwrap();
    let decoded = decode(&bytes).unwrap();
    assert_eq!(decoded.rest_len, 0);
    let m = match decoded.packet {
        Packet::Message(m) => m,
        Packet::Bundle(_) => panic!("a bundle where a message was expected"),
    };
    assert_eq!(m.addr, "/avatar/parameters/ParamA");
    assert_eq!(m.args.len(), 13);
    assert!(matches!(m.args[0], OscArg::Float(bits) if bits == 1.5f32.to_bits()));
    assert!(matches!(m.args[1], OscArg::Int(-7)));
    assert!(matches!(&m.args[2], OscArg::String(s) if s == "hello"));
    assert!(matches!(m.args[3], OscArg::Bool(true)));
    assert!(matches!(m.args[4], OscArg::Nil));
    assert!(matches!(m.args[5], OscArg::Inf));
    assert!(matches!(m.args[6], OscArg::Long(v) if v == 1 << 40));
    assert!(matches!(m.args[7], OscArg::Double(bits) if bits == 2.5f64.to_bits()));
    assert!(matches!(m.args[8], OscArg::Char('x')));
    assert!(matches!(&m.args[9], OscArg::Blob(b) if b == &vec![1, 2, 3]));
    assert!(matches!(m.args[10], OscArg::Time(OscTime { seconds: 5, fractional: 6 })));
    assert!(matches!(m.args[11], OscArg::Color(1, 2, 3, 4)));
    assert!(matches!(m.args[12], OscArg::Midi(9, 8, 7, 6)));
}

#[test]
fn an_array_argument_keeps_its_items() {
    let bytes = rosc::encoder::encode(&wire_message(
        "/a",
        vec![rosc::OscType::Array(rosc::OscArray {
            content: vec![rosc::OscType::Int(1), rosc::OscType::Array(rosc::OscArray { content: vec![rosc::OscType::Nil] })],
        })],
    ))
    .unwrap();
    let decoded = decode(&bytes).unwrap();
    match decoded.packet {
        Packet::Message(m) => match &m.args[0] {
            OscArg::Array(items) => {
                assert_eq!(items.len(), 2);
                assert!(matches!(items[0], OscArg::Int(1)));
                assert!(matches!(&items[1], OscArg::Array(inner) if matches!(inner.as_slice(), [OscArg::Nil])));
            }
            other => panic!("no array: {other:?}"),
        },
        Packet::Bundle(_) => panic!("a bundle where a message was expected"),
    }
}

#[test]
fn a_bundle_decodes_with_its_tree() {
    let inner = rosc::OscPacket::Bundle(rosc::OscBundle {
        timetag: rosc::OscTime { seconds: 0, fractional: 1 },
        content: vec![wire_message("/b", vec![rosc::OscType::Int(2)])],
    });
    let outer = rosc::OscPacket::Bundle(rosc::OscBundle {
        timetag: rosc::OscTime { seconds: 3_000_000_000, fractional: 77 },
        content: vec![wire_message("/a", vec![rosc::OscType::Int(1)]), inner],
    });
    let decoded = decode(&rosc::encoder::encode(&outer).unwrap()).unwrap();
    assert_eq!(decoded.rest_len, 0);
    match decoded.packet {
        Packet::Bundle(b) => {
            assert_eq!(b.timetag, OscTime { seconds: 3_000_000_000, fractional: 77 });
            assert_eq!(b.content.len(), 2);
            assert!(matches!(&b.content[0], Packet::Message(m) if m.addr == "/a"));
            match &b.content[1] {
                Packet::Bundle(i) => {
                    assert_eq!(i.timetag, OscTime { seconds: 0, fractional: 1 });
                    assert!(matches!(&i.content[0], Packet::Message(m) if m.addr == "/b"));
                }
                Packet::Message(_) => panic!("a message where a bundle was expected"),
            }
        }
        Packet::Message(_) => panic!("a message where a bundle was expected"),
    }
}

#[test]
fn bytes_after_a_packet_are_counted() {
    let mut bytes = rosc::encoder::encode(&wire_message("/a", vec![rosc::OscType::Int(1)])).unwrap();
    let first = bytes.len();
    bytes.extend_from_slice(&rosc::encoder::encode(&wire_message("/second", vec![])).unwrap());
    let decoded = decode(&bytes).unwrap();
    assert_eq!(decoded.rest_len, bytes.len() - first);
    assert!(matches!(&decoded.packet, Packet::Message(m) if m.addr == "/a"));
    let next = decode(&bytes[bytes.len() - decoded.rest_len..]).unwrap();
    assert_eq!(next.rest_len, 0);
    assert!(matches!(&next.packet, Packet::Message(m) if m.addr == "/second"));
}

#[test]
fn bytes_that_are_no_packet_are_refused_as_the_codec_refuses_them() {
    for bytes in [&b""[..], &b"x"[..], &b"/a"[..], &b"/abc\0\0\0\0,i\0\0\0\0"[..], &b"#bundle\0\0\0"[..], &b"\0\0\0\0"[..]] {
        let ours = decode(bytes).err();
        let theirs = rosc::decoder::decode_udp(bytes).err();
        let reason = theirs.as_ref().map(|e| e.to_string());
        assert_eq!(ours.as_ref().map(|f| f.reason.clone()), reason, "{bytes:?}");
        let ours = ours.map(|f| f.kind);
        let expected = theirs.map(|e| match e {
            rosc::OscError::StringError(_) => DecodeError::StringError,
            rosc::OscError::ReadError(nom::error::ErrorKind::Eof) => DecodeError::ReadEof,
            rosc::OscError::ReadError(_) => DecodeError::ReadError,
            rosc::OscError::BadChar(_) => DecodeError::BadChar,
            rosc::OscError::BadPacket(_) => DecodeError::BadPacket,
            rosc::OscError::BadMessage(_) => DecodeError::BadMessage,
            rosc::OscError::BadString(_) => DecodeError::BadString,
            rosc::OscError::BadArg(_) => DecodeError::BadArg,
            rosc::OscError::BadBundle(_) => DecodeError::BadBundle,
            rosc::OscError::BadAddressPattern(_) => DecodeError::BadAddressPattern,
            rosc::OscError::BadAddress(_) => DecodeError::BadAddress,
            rosc::OscError::RegexError(_) => DecodeError::RegexError,
            rosc::OscError::Unimplemented => DecodeError::Unimplemented,
        });
        assert_eq!(ours, expected, "{bytes:?}");
        assert!(ours.is_some(), "{bytes:?}");
    }
}

#[test]
fn an_encrypted_file_is_decrypted() {
    let plain = b"1.5|ParamA|0|ParamB".to_vec();
    let file = encrypted(&plain);
    assert_ne!(file, plain);
    assert_eq!(decrypt(file), (plain, None));
}

#[test]
fn a_file_that_does_not_decrypt_is_kept_as_it_is() {
    let legacy = b"1.5|ParamA|0|ParamB".to_vec();
    assert_eq!(decrypt(legacy.clone()), (legacy, Some(DecryptError::UnpadError)));
    let sixteen = b"0123456789abcdef".to_vec();
    let (chosen, failure) = decrypt(sixteen.clone());
    if failure.is_some() {
        assert_eq!(chosen, sixteen);
        assert_eq!(failure, Some(DecryptError::UnpadError));
    }
    assert_eq!(decrypt(Vec::new()), (Vec::new(), Some(DecryptError::UnpadError)));
}

#[test]
fn the_plaintext_is_chosen_by_how_decrypting_went() {
    assert_eq!(plaintext_or_legacy(vec![1, 2], Ok(vec![3])), (vec![3], None));
    assert_eq!(
        plaintext_or_legacy(vec![1, 2], Err(DecryptError::UnpadError)),
        (vec![1, 2], Some(DecryptError::UnpadError))
    );
    assert_eq!(
        plaintext_or_legacy(vec![1, 2], Err(DecryptError::InvalidLength)),
        (vec![1, 2], Some(DecryptError::InvalidLength))
    );
}

#[test]
fn a_key_file_is_read_encrypted_or_not() {
    let reading = read_key_file(encrypted(b"2,25|P"));
    assert_eq!(reading.decrypt_error, None);
    let key = reading.key.unwrap();
    assert_eq!(key.entries.len(), 1);
    assert_eq!(key.entries[0].name, "P");
    assert_eq!((key.entries[0].value.whole, key.entries[0].value.part, key.entries[0].value.part_digits), (2, 25, 2));
    let reading = read_key_file(b"2,25|P".to_vec());
    assert_eq!(reading.decrypt_error, Some(DecryptError::UnpadError));
    assert_eq!(reading.key.unwrap().entries[0].name, "P");
}

#[test]
fn what_was_decoded_encodes_to_the_same_bytes() {
    let nan = f32::from_bits(0x7fc0_1234);
    let inner = rosc::OscPacket::Bundle(rosc::OscBundle {
        timetag: rosc::OscTime { seconds: 0, fractional: 1 },
        content: vec![wire_message("/b", vec![rosc::OscType::Float(-0.0), rosc::OscType::Float(nan)])],
    });
    let samples = vec![
        wire_message("/a", vec![]),
        wire_message("/avatar/parameters/ParamA", vec![rosc::OscType::Float(1.5)]),
        wire_message(
            "/all",
            vec![
                rosc::OscType::Int(i32::MIN),
                rosc::OscType::String("\u{e9}t\u{e9}".to_string()),
                rosc::OscType::Blob(vec![0, 1, 2, 3, 4]),
                rosc::OscType::Long(i64::MAX),
                rosc::OscType::Double(f64::MIN_POSITIVE),
                rosc::OscType::Char('\u{1f600}'),
                rosc::OscType::Bool(false),
                rosc::OscType::Nil,
                rosc::OscType::Inf,
                rosc::OscType::Time(rosc::OscTime { seconds: u32::MAX, fractional: u32::MAX }),
                rosc::OscType::Color(rosc::OscColor { red: 255, green: 0, blue: 1, alpha: 2 }),
                rosc::OscType::Midi(rosc::OscMidiMessage { port: 1, status: 2, data1: 3, data2: 4 }),
                rosc::OscType::Array(rosc::OscArray { content: vec![rosc::OscType::Int(1), rosc::OscType::Nil] }),
            ],
        ),
        rosc::OscPacket::Bundle(rosc::OscBundle {
            timetag: rosc::OscTime { seconds: 3_900_000_000, fractional: 5 },
            content: vec![wire_message("/a", vec![rosc::OscType::Int(1)]), inner],
        }),
    ];
    for sample in samples {
        let bytes = rosc::encoder::encode(&sample).unwrap();
        let decoded = decode(&bytes).unwrap();
        assert_eq!(decoded.rest_len, 0);
        assert_eq!(encode(&decoded.packet), Ok(bytes), "{sample:?}");
    }
}

#[test]
fn a_packet_encodes_as_the_codec_encodes_it() {
    let ours = Packet::Bundle(OscBundle {
        timetag: OscTime { seconds: 0, fractional: 1 },
        content: vec![
            Packet::Message(OscMessage {
                addr: "/avatar/parameters/ParamA".to_string(),
                args: vec![OscArg::Float(1.5f32.to_bits()), OscArg::Double(2.5f64.to_bits()), OscArg::Nil],
            }),
            Packet::Message(OscMessage {
                addr: "/b".to_string(),
                args: vec![OscArg::Array(vec![OscArg::Int(1), OscArg::Color(1, 2, 3, 4)]), OscArg::Midi(5, 6, 7, 8)],
            }),
        ],
    });
    let theirs = rosc::OscPacket::Bundle(rosc::OscBundle {
        timetag: rosc::OscTime { seconds: 0, fractional: 1 },
        content: vec![
            wire_message(
                "/avatar/parameters/ParamA",
                vec![rosc::OscType::Float(1.5), rosc::OscType::Double(2.5), rosc::OscType::Nil],
            ),
            wire_message(
                "/b",
                vec![
                    rosc::OscType::Array(rosc::OscArray {
                        content: vec![
                            rosc::OscType::Int(1),
                            rosc::OscType::Color(rosc::OscColor { red: 1, green: 2, blue: 3, alpha: 4 }),
                        ],
                    }),
                    rosc::OscType::Midi(rosc::OscMidiMessage { port: 5, status: 6, data1: 7, data2: 8 }),
                ],
            ),
        ],
    });
    let expected = rosc::encoder::encode(&theirs).unwrap();
    assert_eq!(encode(&ours), Ok(expected.clone()));
    let message = Packet::Message(OscMessage { addr: "/x".to_string(), args: vec![] });
    let each = encode_each(&vec![ours, message]);
    assert_eq!(each.len(), 2);
    assert_eq!(each[0], Ok(expected));
    assert_eq!(each[1], Ok(b"/x\0\0,\0\0\0".to_vec()));
}
