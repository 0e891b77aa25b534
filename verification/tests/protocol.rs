use tspchat::protocol::{
    decode_announce, encode_announce, Announce, Status, PACKET_ANNOUNCE, PACKET_IMAGE, PACKET_TEXT,
};

#[test]
fn announce_encode_decode() {
    let announce = Announce {
        session_id: 123,
        nickname: "Artem".to_string(),
        tcp_port: 8080,
        status: 1,
    };

    let encoded = encode_announce(&announce);
    let decoded = decode_announce(&encoded).unwrap();

    assert_eq!(decoded.nickname, announce.nickname);
    assert_eq!(decoded.tcp_port, announce.tcp_port);
    assert_eq!(decoded.status, announce.status);
}

#[test]
fn announce_decoding() {
    let data = vec![
        0x01,
        123, 0, 0, 0, 0, 0, 0, 0,
        0x03, 0x00,
        b'B', b'o', b'b',
        0x90, 0x1F,
        0x02,
    ];

    let announce = decode_announce(&data).unwrap();

    assert_eq!(announce.session_id, 123);
    assert_eq!(announce.nickname, "Bob");
    assert_eq!(announce.tcp_port, 8080);
    assert_eq!(announce.status, 2);
}

#[test]
fn announce_encoding() {
    let announce = Announce {
        session_id: 123,
        nickname: "Bob".to_string(),
        tcp_port: 8080,
        status: 2,
    };

    let encoded = encode_announce(&announce);

    assert_eq!(
        encoded,
        vec![
            0x01,
            123, 0, 0, 0, 0, 0, 0, 0,
            0x03, 0x00,
            b'B', b'o', b'b',
            0x90, 0x1F,
            0x02,
        ]
    );
}

#[test]
fn announce_roundtrip_keeps_every_field() {
    let announce = Announce {
        session_id: 0x0102_0304_0506_0708,
        nickname: "Олена".to_string(),
        tcp_port: 65535,
        status: 0,
    };
    let encoded = encode_announce(&announce);
    // tag + id + length + 10 UTF-8 bytes + port + status
    assert_eq!(encoded.len(), 1 + 8 + 2 + 10 + 2 + 1);
    assert_eq!(&encoded[1..9], &[8, 7, 6, 5, 4, 3, 2, 1]);
    assert_eq!(&encoded[9..11], &[10, 0]);
    let decoded = decode_announce(&encoded).unwrap();
    assert_eq!(decoded.session_id, announce.session_id);
    assert_eq!(decoded.nickname, announce.nickname);
    assert_eq!(decoded.tcp_port, announce.tcp_port);
    assert_eq!(decoded.status, announce.status);
}

#[test]
fn announce_with_empty_nickname() {
    let announce = Announce { session_id: 0, nickname: String::new(), tcp_port: 1, status: 2 };
    let encoded = encode_announce(&announce);
    assert_eq!(encoded, vec![1, 0, 0, 0, 0, 0, 0, 0, 0, 0, 0, 1, 0, 2]);
    let decoded = decode_announce(&encoded).unwrap();
    assert_eq!(decoded.nickname, "");
    assert_eq!(decoded.tcp_port, 1);
}

#[test]
fn decode_ignores_trailing_bytes() {
    let mut data = encode_announce(&Announce {
        session_id: 9,
        nickname: "Ann".to_string(),
        tcp_port: 7,
        status: 1,
    });
    data.extend_from_slice(&[0xAA, 0xBB]);
    let decoded = decode_announce(&data).unwrap();
    assert_eq!(decoded.session_id, 9);
    assert_eq!(decoded.nickname, "Ann");
    assert_eq!(decoded.tcp_port, 7);
    assert_eq!(decoded.status, 1);
}

#[test]
fn decode_rejects_garbage() {
    assert!(decode_announce(&[0xFF, 0x01, 0x02]).is_none());
}

#[test]
fn decode_rejects_empty_and_wrong_tag() {
    assert!(decode_announce(&[]).is_none());
    let mut data = encode_announce(&Announce {
        session_id: 1,
        nickname: "x".to_string(),
        tcp_port: 2,
        status: 0,
    });
    data[0] = PACKET_TEXT;
    assert!(decode_announce(&data).is_none());
}

#[test]
fn decode_rejects_every_truncation() {
    let data = encode_announce(&Announce {
        session_id: 5,
        nickname: "Bob".to_string(),
        tcp_port: 8080,
        status: 2,
    });
    for cut in 0..data.len() {
        assert!(decode_announce(&data[..cut]).is_none(), "cut at {cut}");
    }
    assert!(decode_announce(&data).is_some());
}

#[test]
fn decode_rejects_invalid_utf8_nickname() {
    let data = vec![0x01, 0, 0, 0, 0, 0, 0, 0, 0, 0x02, 0x00, 0xC3, 0x28, 0x90, 0x1F, 0x00];
    assert!(decode_announce(&data).is_none());
}

#[test]
fn long_nickname_length_field_wraps() {
    let nickname = "a".repeat(65536 + 3);
    let encoded = encode_announce(&Announce { session_id: 0, nickname, tcp_port: 0, status: 0 });
    assert_eq!(&encoded[9..11], &[3, 0]);
    assert_eq!(encoded.len(), 14 + 65539);
}

#[test]
fn packet_tags() {
    assert_eq!(PACKET_ANNOUNCE, 1);
    assert_eq!(PACKET_TEXT, 2);
    assert_eq!(PACKET_IMAGE, 3);
}

#[test]
fn status_bytes() {
    assert_eq!(Status::Online.to_u8(), 0);
    assert_eq!(Status::Away.to_u8(), 1);
    assert_eq!(Status::Invisible.to_u8(), 2);
    assert_eq!(Status::from_u8(1), Status::Away);
    assert_eq!(Status::from_u8(2), Status::Invisible);
    assert_eq!(Status::from_u8(0), Status::Online);
    assert_eq!(Status::from_u8(200), Status::Online);
    for s in [Status::Online, Status::Away, Status::Invisible] {
        assert_eq!(Status::from_u8(s.to_u8()), s);
    }
}

#[test]
fn status_cycles() {
    assert_eq!(Status::Online.next(), Status::Away);
    assert_eq!(Status::Away.next(), Status::Invisible);
    assert_eq!(Status::Invisible.next(), Status::Online);
    for s in [Status::Online, Status::Away, Status::Invisible] {
        assert_eq!(s.next().next().next(), s);
        assert_ne!(s.next(), s);
    }
}
