use oblivious_transfer::connection::{Username, UsernameError};
use oblivious_transfer::crypto::CryptoError;
use oblivious_transfer::curve::{CurvePoint, Scalar};
use oblivious_transfer::message::{buffer, bytes_to_point, point_to_bytes, Message, MessageError};

fn name(text: &str) -> Username {
    Username::new(text.to_string()).unwrap()
}

fn scalar(last: u8) -> Scalar {
    let mut bytes = [0u8; 32];
    bytes[31] = last;
    Scalar::from_bytes(bytes)
}

fn frame(type_byte: u8, payload: &[u8]) -> Vec<u8> {
    let mut bytes = b"OTMP".to_vec();
    bytes.push(type_byte);
    bytes.push((payload.len() / 256) as u8);
    bytes.push((payload.len() % 256) as u8);
    bytes.extend_from_slice(payload);
    bytes
}

#[test]
fn buffer_builds_a_frame() {
    assert_eq!(buffer(2, &[]), vec![0x4F, 0x54, 0x4D, 0x50, 2, 0, 0]);
    assert_eq!(buffer(0, b"bob"), vec![0x4F, 0x54, 0x4D, 0x50, 0, 0, 3, b'b', b'o', b'b']);
    let long = vec![7u8; 300];
    let framed = buffer(5, &long);
    assert_eq!(framed.len(), 307);
    assert_eq!(&framed[4..7], &[5, 1, 44]);
    assert_eq!(&framed[7..], &long[..]);
}

#[test]
fn buffer_wraps_an_oversized_length() {
    let huge = vec![1u8; 65536 + 5];
    let framed = buffer(5, &huge);
    assert_eq!(framed.len(), 7 + 65536 + 5);
    assert_eq!(&framed[5..7], &[0, 5]);
    assert_eq!(Message::try_from(&framed), Err(MessageError::InvalidMessageLength));
}

#[test]
fn encodes_each_variant() {
    assert_eq!(Message::BroadcastGreet(name("alice")).into_bytes(), frame(0, b"alice"));
    assert_eq!(Message::BroadcastResponse(name("bob")).into_bytes(), frame(1, b"bob"));
    assert_eq!(Message::BroadcastBye.into_bytes(), frame(2, b""));
    let g = CurvePoint::generator();
    assert_eq!(Message::Greet(g.clone()).into_bytes(), frame(3, &g.to_sec1()));
    assert_eq!(Message::Response(g.clone()).into_bytes(), frame(4, &g.to_sec1()));
    assert_eq!(
        Message::Data(vec![1, 2, 3], vec![4, 5]).into_bytes(),
        frame(5, &[0, 3, 1, 2, 3, 4, 5])
    );
}

#[test]
fn round_trip_of_each_variant() {
    let g = CurvePoint::generator();
    let p = g.mul(&scalar(5));
    let long = "é".repeat(50);
    let messages = vec![
        Message::BroadcastGreet(name("alice")),
        Message::BroadcastGreet(name("x")),
        Message::BroadcastGreet(name(&long)),
        Message::BroadcastResponse(name("bob")),
        Message::BroadcastBye,
        Message::Greet(g.clone()),
        Message::Response(p.clone()),
        Message::Data(vec![], vec![]),
        Message::Data(vec![9; 16], vec![]),
        Message::Data(vec![], vec![9; 16]),
        Message::Data(vec![1; 1008], vec![2; 1008]),
        Message::Data(vec![3; 40000], vec![4; 25533]),
    ];
    for message in messages {
        let expected = format!("{:?}", message);
        let bytes = message.into_bytes();
        let decoded = Message::try_from(&bytes).unwrap();
        assert_eq!(format!("{:?}", decoded), expected);
        assert_eq!(decoded.into_bytes(), bytes);
    }
}

#[test]
fn frame_edge_bye_with_payload() {
    let bytes = [0x4F, 0x54, 0x4D, 0x50, 0x02, 0x00, 0x01, 0x00];
    assert_eq!(Message::try_from(&bytes), Err(MessageError::InvalidMessageLength));
}

#[test]
fn username_bound() {
    let too_long = frame(0, &[b'a'; 101]);
    assert_eq!(
        Message::try_from(&too_long),
        Err(MessageError::InvalidUsername(UsernameError::TooLong))
    );
    let empty = frame(0, b"");
    assert_eq!(
        Message::try_from(&empty),
        Err(MessageError::InvalidUsername(UsernameError::Empty))
    );
    let longest = frame(1, &[b'a'; 100]);
    assert_eq!(
        Message::try_from(&longest),
        Ok(Message::BroadcastResponse(name(&"a".repeat(100))))
    );
    let response_too_long = frame(1, &[b'a'; 101]);
    assert_eq!(
        Message::try_from(&response_too_long),
        Err(MessageError::InvalidUsername(UsernameError::TooLong))
    );
}

#[test]
fn rejects_missing_header_bytes() {
    assert_eq!(Message::try_from(&[]), Err(MessageError::MissingHeaderBytes));
    assert_eq!(Message::try_from(b"OTMP"), Err(MessageError::MissingHeaderBytes));
    assert_eq!(
        Message::try_from(&[0x4F, 0x54, 0x4D, 0x50, 2, 0]),
        Err(MessageError::MissingHeaderBytes)
    );
    assert_eq!(Message::try_from(b"XXXXXX"), Err(MessageError::MissingHeaderBytes));
}

#[test]
fn rejects_invalid_magic_number() {
    assert_eq!(
        Message::try_from(&[0x4F, 0x54, 0x4D, 0x51, 2, 0, 0]),
        Err(MessageError::InvalidMagicNumber)
    );
    assert_eq!(Message::try_from(b"otmp\x02\x00\x00"), Err(MessageError::InvalidMagicNumber));
    assert_eq!(
        Message::try_from(b"PMTO\x09\x00\x05"),
        Err(MessageError::InvalidMagicNumber)
    );
}

#[test]
fn rejects_invalid_message_length() {
    assert_eq!(
        Message::try_from(b"OTMP\x00\x00\x05bob"),
        Err(MessageError::InvalidMessageLength)
    );
    assert_eq!(
        Message::try_from(b"OTMP\x00\x00\x02bob"),
        Err(MessageError::InvalidMessageLength)
    );
    assert_eq!(
        Message::try_from(b"OTMP\x09\x00\x02bob"),
        Err(MessageError::InvalidMessageLength)
    );
}

#[test]
fn rejects_invalid_message_type() {
    assert_eq!(Message::try_from(b"OTMP\x06\x00\x00"), Err(MessageError::InvalidMessageType));
    assert_eq!(
        Message::try_from(b"OTMP\xff\x00\x03abc"),
        Err(MessageError::InvalidMessageType)
    );
}

#[test]
fn rejects_invalid_utf8() {
    assert_eq!(Message::try_from(&frame(0, &[0xff, 0xfe])), Err(MessageError::InvalidUtf8));
    assert_eq!(Message::try_from(&frame(1, &[b'a', 0x80])), Err(MessageError::InvalidUtf8));
    assert_eq!(Message::try_from(&frame(0, &[0xff; 101])), Err(MessageError::InvalidUtf8));
}

#[test]
fn rejects_invalid_point() {
    let invalid = Err(MessageError::InvalidCrypto(CryptoError::InvalidPoint));
    assert_eq!(Message::try_from(&frame(3, &[])), invalid);
    let mut beyond_the_field = vec![2u8];
    beyond_the_field.extend_from_slice(&[0xff; 32]);
    assert_eq!(Message::try_from(&frame(3, &beyond_the_field)), invalid);
    assert_eq!(Message::try_from(&frame(4, &[7; 33])), invalid);
    let mut short = CurvePoint::generator().to_sec1();
    short.pop();
    assert_eq!(Message::try_from(&frame(4, &short)), invalid);
    let mut off_curve = vec![4u8];
    off_curve.extend_from_slice(&[1; 64]);
    assert_eq!(Message::try_from(&frame(3, &off_curve)), invalid);
}

#[test]
fn rejects_the_identity() {
    let invalid = Err(MessageError::InvalidCrypto(CryptoError::InvalidPoint));
    assert_eq!(Message::try_from(&frame(3, &[0])), invalid);
    assert_eq!(Message::try_from(&frame(4, &[0])), invalid);
    assert_eq!(bytes_to_point(&[0]), Err(CryptoError::InvalidPoint));
    assert!(CurvePoint::from_sec1(&[0]).unwrap().is_identity());
}

#[test]
fn accepts_an_uncompressed_point() {
    let g = CurvePoint::generator();
    let uncompressed = g.to_uncompressed();
    assert_eq!(uncompressed.len(), 65);
    assert_eq!(uncompressed[0], 4);
    assert_eq!(Message::try_from(&frame(3, &uncompressed)), Ok(Message::Greet(g.clone())));
    assert_eq!(bytes_to_point(&uncompressed), Ok(g.clone()));
    assert_eq!(point_to_bytes(g.clone()), g.to_sec1());
}

#[test]
fn data_length_edges() {
    assert_eq!(Message::try_from(&frame(5, &[])), Err(MessageError::InvalidMessageLength));
    assert_eq!(Message::try_from(&frame(5, &[0])), Err(MessageError::InvalidMessageLength));
    assert_eq!(Message::try_from(&frame(5, &[0, 1])), Err(MessageError::InvalidMessageLength));
    assert_eq!(
        Message::try_from(&frame(5, &[0, 3, 1, 2])),
        Err(MessageError::InvalidMessageLength)
    );
    assert_eq!(Message::try_from(&frame(5, &[0, 0])), Ok(Message::Data(vec![], vec![])));
    assert_eq!(
        Message::try_from(&frame(5, &[0, 2, 1, 2])),
        Ok(Message::Data(vec![1, 2], vec![]))
    );
    assert_eq!(
        Message::try_from(&frame(5, &[0, 1, 1, 2, 3])),
        Ok(Message::Data(vec![1], vec![2, 3]))
    );
}

#[test]
fn length_check_comes_before_type_check() {
    assert_eq!(
        Message::try_from(b"OTMP\x09\x00\x01"),
        Err(MessageError::InvalidMessageLength)
    );
}
