use udd::mqtt::{
    ConnAck, Connect, ConnectReturnCode, Decode, DecodeError, Disconnect, Encode, MessageType,
    Packet, PingReq, PingResp, PubAck, Publish, QoS, SubAck, SubAckReturnCode, Subscribe,
    SubscribeFilter, UdpFrame,
};

#[test]
fn roundtrip_connect() {
    let connect = Connect {
        client_id: "test-client".into(),
        keep_alive: 120,
        clean_session: true,
        username: Some("user".into()),
        password: Some(b"pass".to_vec()),
    };

    let frame = UdpFrame::new(1, connect.clone());
    let encoded = frame.encode();
    let decoded = UdpFrame::decode(&encoded).unwrap();

    assert_eq!(decoded.msg_id, 1);
    if let Packet::Connect(c) = decoded.packet {
        assert_eq!(c, connect);
    } else {
        panic!("wrong packet type");
    }
}

#[test]
fn roundtrip_publish() {
    let publish = Publish::new("sensor/temp", b"25.5")
        .with_qos(QoS::AtLeastOnce)
        .with_retain(true);

    let frame = UdpFrame::new(42, publish.clone());
    let encoded = frame.encode();
    let decoded = UdpFrame::decode(&encoded).unwrap();

    assert_eq!(decoded.msg_id, 42);
    if let Packet::Publish(p) = decoded.packet {
        assert_eq!(p, publish);
    } else {
        panic!("wrong packet type");
    }
}

#[test]
fn roundtrip_subscribe() {
    let subscribe = Subscribe::new(vec![
        SubscribeFilter::new("home/+/temp", QoS::AtLeastOnce),
        SubscribeFilter::new("office/#", QoS::AtMostOnce),
    ]);

    let frame = UdpFrame::new(100, subscribe.clone());
    let encoded = frame.encode();
    let decoded = UdpFrame::decode(&encoded).unwrap();

    if let Packet::Subscribe(s) = decoded.packet {
        assert_eq!(s, subscribe);
    } else {
        panic!("wrong packet type");
    }
}

#[test]
fn invalid_message_type() {
    let buf = [4, 0xFF, 0, 0]; // Invalid type 0xFF
    let result = UdpFrame::decode(&buf);
    assert!(matches!(result, Err(DecodeError::InvalidMessageType(0xFF))));
}

#[test]
fn buffer_too_short() {
    let buf = [10, 0x01, 0, 0]; // Claims length 10, only 4 bytes
    let result = UdpFrame::decode(&buf);
    assert!(matches!(result, Err(DecodeError::BufferTooShort { .. })));
}

#[test]
fn buffer_too_short_reports_both_lengths() {
    let result = UdpFrame::decode(&[10, 0x01, 0, 0]);
    assert_eq!(result, Err(DecodeError::BufferTooShort { expected: 10, actual: 4 }));
}

#[test]
fn header_needs_four_bytes() {
    assert_eq!(
        UdpFrame::decode(&[]),
        Err(DecodeError::BufferTooShort { expected: 4, actual: 0 })
    );
    assert_eq!(
        UdpFrame::decode(&[4, 0x07, 0]),
        Err(DecodeError::BufferTooShort { expected: 4, actual: 3 })
    );
}

#[test]
fn length_below_header_is_malformed() {
    let result = UdpFrame::decode(&[2, 0x04, 0, 0]);
    assert!(matches!(result, Err(DecodeError::MalformedPacket(_))));
    let result = UdpFrame::decode(&[0, 0xFF, 0, 0]);
    assert!(matches!(result, Err(DecodeError::MalformedPacket(_))));
}

#[test]
fn publish_frame_bytes() {
    let publish = Publish::new("sensor/temp", b"25.5")
        .with_qos(QoS::AtLeastOnce)
        .with_retain(true);
    let encoded = UdpFrame::new(42, publish).encode();
    let mut expected = vec![22u8, 0x03, 0, 42, 0x03, 0, 11];
    expected.extend_from_slice(b"sensor/temp");
    expected.extend_from_slice(b"25.5");
    assert_eq!(encoded, expected);
}

#[test]
fn connect_frame_bytes() {
    let connect = Connect {
        client_id: "ab".into(),
        keep_alive: 0x1234,
        clean_session: true,
        username: Some("u".into()),
        password: Some(vec![0xFF, 0x00]),
    };
    let encoded = UdpFrame::new(0x0102, connect).encode();
    assert_eq!(
        encoded,
        vec![
            18, 0x01, 0x01, 0x02, 0xC2, 0x12, 0x34, 0, 2, b'a', b'b', 0, 1, b'u', 0, 2, 0xFF, 0x00
        ]
    );
}

#[test]
fn connect_flags_follow_the_fields() {
    let mut connect = Connect::new("id");
    assert_eq!(connect.keep_alive, 60);
    assert!(connect.clean_session);
    assert_eq!(connect.username, None);
    assert_eq!(connect.password, None);
    assert_eq!(connect.flags(), 0x02);
    connect.clean_session = false;
    assert_eq!(connect.flags(), 0x00);
    connect.username = Some("u".into());
    assert_eq!(connect.flags(), 0x80);
    connect.password = Some(vec![]);
    assert_eq!(connect.flags(), 0xC0);
    connect.username = None;
    connect.clean_session = true;
    assert_eq!(connect.flags(), 0x42);
}

#[test]
fn connect_without_credentials_roundtrip() {
    let connect = Connect::new("plain");
    let encoded = UdpFrame::new(7, connect.clone()).encode();
    assert_eq!(encoded, vec![14, 0x01, 0, 7, 0x02, 0, 60, 0, 5, b'p', b'l', b'a', b'i', b'n']);
    let decoded = UdpFrame::decode(&encoded).unwrap();
    assert_eq!(decoded, UdpFrame::new(7, connect));
}

#[test]
fn connect_presence_comes_from_flags() {
    // The flags announce a password but no username; the bytes behind the
    // client id are therefore read as the password.
    let payload = [0x40, 0, 10, 0, 1, b'c', 0, 2, b'h', b'i'];
    let connect = Connect::decode(&payload).unwrap();
    assert_eq!(connect.client_id, "c");
    assert_eq!(connect.keep_alive, 10);
    assert!(!connect.clean_session);
    assert_eq!(connect.username, None);
    assert_eq!(connect.password, Some(b"hi".to_vec()));
}

#[test]
fn connect_short_payloads() {
    assert_eq!(
        Connect::decode(&[0x02, 0]),
        Err(DecodeError::BufferTooShort { expected: 3, actual: 2 })
    );
    assert_eq!(
        Connect::decode(&[0x02, 0, 60]),
        Err(DecodeError::BufferTooShort { expected: 5, actual: 3 })
    );
    assert_eq!(
        Connect::decode(&[0x02, 0, 60, 0, 3, b'a']),
        Err(DecodeError::BufferTooShort { expected: 8, actual: 6 })
    );
    assert_eq!(
        Connect::decode(&[0x82, 0, 60, 0, 1, b'a']),
        Err(DecodeError::BufferTooShort { expected: 8, actual: 6 })
    );
    assert_eq!(
        Connect::decode(&[0x42, 0, 60, 0, 1, b'a', 0, 4, 1]),
        Err(DecodeError::BufferTooShort { expected: 12, actual: 9 })
    );
}

#[test]
fn invalid_utf8_is_rejected() {
    assert_eq!(Connect::decode(&[0x02, 0, 60, 0, 2, 0xC3, 0x28]), Err(DecodeError::InvalidUtf8));
    assert_eq!(Publish::decode(&[0x00, 0, 1, 0xFF]), Err(DecodeError::InvalidUtf8));
    assert_eq!(Subscribe::decode(&[1, 0, 2, 0xED, 0xA0, 0]), Err(DecodeError::InvalidUtf8));
}

#[test]
fn multibyte_text_roundtrip() {
    let publish = Publish::new("température/été", "21°".as_bytes());
    assert_eq!(publish.topic.len(), 18);
    assert_eq!(publish.encoded_len(), 1 + 2 + 18 + 4);
    let encoded = UdpFrame::new(9, publish.clone()).encode();
    assert_eq!(encoded[0], 29);
    assert_eq!(&encoded[5..7], &[0, 18]);
    let decoded = UdpFrame::decode(&encoded).unwrap();
    assert_eq!(decoded.packet, Packet::Publish(publish));
}

#[test]
fn publish_flags_packing() {
    let base = Publish::new("t", b"");
    assert_eq!(base.qos, QoS::AtMostOnce);
    assert!(!base.retain);
    assert_eq!(base.flags(), 0x00);
    assert_eq!(base.clone().with_retain(true).flags(), 0x01);
    assert_eq!(base.clone().with_qos(QoS::AtLeastOnce).flags(), 0x02);
    assert_eq!(base.clone().with_qos(QoS::AtLeastOnce).with_retain(true).flags(), 0x03);
    assert_eq!(base.clone().with_qos(QoS::ExactlyOnce).flags(), 0x04);
    assert_eq!(base.clone().with_qos(QoS::ExactlyOnce).with_retain(true).flags(), 0x05);
}

#[test]
fn publish_roundtrip_any_payload() {
    let payloads: Vec<Vec<u8>> = vec![vec![], vec![0x00, 0xFF, 0x80, 0xC3, 0x28], b"text".to_vec()];
    for payload in payloads {
        let publish = Publish::new("sensor/temp", &payload)
            .with_qos(QoS::AtLeastOnce)
            .with_retain(true);
        let encoded = UdpFrame::new(42, publish.clone()).encode();
        let decoded = UdpFrame::decode(&encoded).unwrap();
        assert_eq!(decoded.msg_id, 42);
        match decoded.packet {
            Packet::Publish(p) => {
                assert_eq!(p.qos, QoS::AtLeastOnce);
                assert!(p.retain);
                assert_eq!(p.payload, payload);
                assert_eq!(p, publish);
            }
            _ => panic!("wrong packet type"),
        }
    }
}

#[test]
fn publish_short_payloads() {
    assert_eq!(
        Publish::decode(&[]),
        Err(DecodeError::BufferTooShort { expected: 1, actual: 0 })
    );
    assert_eq!(
        Publish::decode(&[0x02, 0]),
        Err(DecodeError::BufferTooShort { expected: 3, actual: 2 })
    );
    assert_eq!(
        Publish::decode(&[0x02, 0, 5, b'a']),
        Err(DecodeError::BufferTooShort { expected: 8, actual: 4 })
    );
}

#[test]
fn publish_level_three_is_rejected() {
    assert_eq!(Publish::decode(&[0x06, 0, 1, b't']), Err(DecodeError::InvalidQoS(3)));
    assert_eq!(Publish::decode(&[0x07]), Err(DecodeError::InvalidQoS(3)));
    let frame = [8, 0x03, 0, 1, 0x06, 0, 1, b't'];
    assert_eq!(UdpFrame::decode(&frame), Err(DecodeError::InvalidQoS(3)));
}

#[test]
fn connack_roundtrip_and_bytes() {
    let ack = ConnAck::accepted(true);
    assert_eq!(ack.return_code, ConnectReturnCode::Accepted);
    assert_eq!(ack.to_bytes(), vec![1, 0]);
    let refused = ConnAck { session_present: false, return_code: ConnectReturnCode::NotAuthorized };
    let encoded = UdpFrame::new(3, refused).encode();
    assert_eq!(encoded, vec![6, 0x02, 0, 3, 0, 5]);
    assert_eq!(UdpFrame::decode(&encoded).unwrap().packet, Packet::ConnAck(refused));
    assert_eq!(ConnAck::decode(&[7, 3]).unwrap(), ConnAck {
        session_present: true,
        return_code: ConnectReturnCode::ServerUnavailable,
    });
}

#[test]
fn connack_faults() {
    assert_eq!(
        ConnAck::decode(&[1]),
        Err(DecodeError::BufferTooShort { expected: 2, actual: 1 })
    );
    assert_eq!(ConnAck::decode(&[0, 6]), Err(DecodeError::InvalidReturnCode(6)));
    assert_eq!(ConnAck::decode(&[0, 0x80]), Err(DecodeError::InvalidReturnCode(0x80)));
    assert_eq!(
        UdpFrame::decode(&[6, 0x02, 0, 0, 0, 0xFF]),
        Err(DecodeError::InvalidReturnCode(0xFF))
    );
}

#[test]
fn subscribe_bytes_and_order() {
    let subscribe = Subscribe::new(vec![
        SubscribeFilter::new("a", QoS::ExactlyOnce),
        SubscribeFilter::new("bc", QoS::AtMostOnce),
    ]);
    assert_eq!(subscribe.encoded_len(), 10);
    assert_eq!(subscribe.to_bytes(), vec![2, 0, 1, b'a', 2, 0, 2, b'b', b'c', 0]);
    let decoded = Subscribe::decode(&subscribe.to_bytes()).unwrap();
    assert_eq!(decoded.filters[0].topic, "a");
    assert_eq!(decoded.filters[1].topic, "bc");
    assert_eq!(decoded, subscribe);
    let single = Subscribe::single("x/y", QoS::AtLeastOnce);
    assert_eq!(single.filters, vec![SubscribeFilter::new("x/y", QoS::AtLeastOnce)]);
}

#[test]
fn subscribe_faults() {
    assert_eq!(
        Subscribe::decode(&[]),
        Err(DecodeError::BufferTooShort { expected: 1, actual: 0 })
    );
    assert_eq!(
        Subscribe::decode(&[1]),
        Err(DecodeError::BufferTooShort { expected: 3, actual: 1 })
    );
    assert_eq!(
        Subscribe::decode(&[1, 0, 1, b'a']),
        Err(DecodeError::BufferTooShort { expected: 5, actual: 4 })
    );
    assert_eq!(
        Subscribe::decode(&[2, 0, 1, b'a', 1]),
        Err(DecodeError::BufferTooShort { expected: 7, actual: 5 })
    );
    assert_eq!(Subscribe::decode(&[1, 0, 1, b'a', 3]), Err(DecodeError::InvalidQoS(3)));
    assert_eq!(
        Subscribe::decode(&[2, 0, 1, b'a', 1, 0, 1, b'b', 0x80, 9, 9]),
        Err(DecodeError::InvalidQoS(0x80))
    );
    assert_eq!(Subscribe::decode(&[0, 1, 2, 3]).unwrap(), Subscribe::new(vec![]));
}

#[test]
fn suback_roundtrip_and_faults() {
    let ack = SubAck::new(vec![
        SubAckReturnCode::SuccessQoS0,
        SubAckReturnCode::Failure,
        SubAckReturnCode::SuccessQoS2,
        SubAckReturnCode::SuccessQoS1,
    ]);
    assert_eq!(ack.encoded_len(), 5);
    assert_eq!(ack.to_bytes(), vec![4, 0x00, 0x80, 0x02, 0x01]);
    let encoded = UdpFrame::new(0xFFFF, ack.clone()).encode();
    assert_eq!(encoded, vec![9, 0x06, 0xFF, 0xFF, 4, 0x00, 0x80, 0x02, 0x01]);
    assert_eq!(UdpFrame::decode(&encoded).unwrap(), UdpFrame::new(0xFFFF, ack));

    assert_eq!(
        SubAck::decode(&[]),
        Err(DecodeError::BufferTooShort { expected: 1, actual: 0 })
    );
    assert_eq!(
        SubAck::decode(&[3, 0, 1]),
        Err(DecodeError::BufferTooShort { expected: 4, actual: 3 })
    );
    // A missing byte is reported before an unknown code is looked at.
    assert_eq!(
        SubAck::decode(&[3, 0x55, 1]),
        Err(DecodeError::BufferTooShort { expected: 4, actual: 3 })
    );
    assert_eq!(SubAck::decode(&[2, 0, 3]), Err(DecodeError::InvalidReturnCode(3)));
    assert_eq!(SubAck::decode(&[2, 0x7F, 0x81]), Err(DecodeError::InvalidReturnCode(0x7F)));
    assert_eq!(
        SubAck::decode(&[1, 0x80, 0x55]).unwrap(),
        SubAck::new(vec![SubAckReturnCode::Failure])
    );
}

#[test]
fn empty_payload_kinds_roundtrip() {
    let frames = vec![
        (UdpFrame::new(1, PubAck), 0x04u8),
        (UdpFrame::new(2, PingReq), 0x07),
        (UdpFrame::new(3, PingResp), 0x08),
        (UdpFrame::new(4, Disconnect), 0x09),
    ];
    for (frame, kind) in frames {
        let encoded = frame.encode();
        assert_eq!(encoded, vec![4, kind, 0, frame.msg_id as u8]);
        assert_eq!(UdpFrame::decode(&encoded).unwrap(), frame);
    }
    assert_eq!(PubAck.encoded_len(), 0);
    assert_eq!(PingReq.to_bytes(), Vec::<u8>::new());
    assert_eq!(PingResp::decode(&[1, 2, 3]), Ok(PingResp));
    assert_eq!(Disconnect::decode(&[]), Ok(Disconnect));
}

#[test]
fn encoded_len_matches_encode() {
    let packets: Vec<Packet> = vec![
        Connect::new("client").into(),
        Connect {
            client_id: "c".into(),
            keep_alive: 1,
            clean_session: false,
            username: Some("name".into()),
            password: Some(vec![1, 2, 3]),
        }
        .into(),
        ConnAck::accepted(false).into(),
        Publish::new("a/b", b"payload").into(),
        PubAck.into(),
        Subscribe::single("a/#", QoS::ExactlyOnce).into(),
        SubAck::new(vec![SubAckReturnCode::SuccessQoS1]).into(),
        PingReq.into(),
        PingResp.into(),
        Disconnect.into(),
    ];
    for packet in packets {
        let frame = UdpFrame::new(5, packet);
        let payload_len = frame.packet_payload_len();
        let encoded = frame.encode();
        assert_eq!(encoded.len(), 4 + payload_len);
        assert_eq!(encoded[0] as usize, encoded.len());
        let (len, bytes) = match &frame.packet {
            Packet::Connect(p) => (p.encoded_len(), p.to_bytes()),
            Packet::ConnAck(p) => (p.encoded_len(), p.to_bytes()),
            Packet::Publish(p) => (p.encoded_len(), p.to_bytes()),
            Packet::PubAck(p) => (p.encoded_len(), p.to_bytes()),
            Packet::Subscribe(p) => (p.encoded_len(), p.to_bytes()),
            Packet::SubAck(p) => (p.encoded_len(), p.to_bytes()),
            Packet::PingReq(p) => (p.encoded_len(), p.to_bytes()),
            Packet::PingResp(p) => (p.encoded_len(), p.to_bytes()),
            Packet::Disconnect(p) => (p.encoded_len(), p.to_bytes()),
        };
        assert_eq!(len, bytes.len());
        assert_eq!(&encoded[4..], &bytes[..]);
    }
}

#[test]
fn encode_appends_to_the_buffer() {
    let mut buf = vec![0xAA, 0xBB];
    ConnAck::accepted(false).encode(&mut buf);
    Publish::new("t", b"x").encode(&mut buf);
    assert_eq!(buf, vec![0xAA, 0xBB, 0, 0, 0x00, 0, 1, b't', b'x']);
}

#[test]
fn msg_type_names_the_variant() {
    assert_eq!(Packet::from(Connect::new("c")).msg_type(), MessageType::Connect);
    assert_eq!(Packet::from(ConnAck::accepted(true)).msg_type(), MessageType::ConnAck);
    assert_eq!(Packet::from(Publish::new("t", b"")).msg_type(), MessageType::Publish);
    assert_eq!(Packet::from(PubAck).msg_type(), MessageType::PubAck);
    assert_eq!(Packet::from(Subscribe::new(vec![])).msg_type(), MessageType::Subscribe);
    assert_eq!(Packet::from(SubAck::new(vec![])).msg_type(), MessageType::SubAck);
    assert_eq!(Packet::from(PingReq).msg_type(), MessageType::PingReq);
    assert_eq!(Packet::from(PingResp).msg_type(), MessageType::PingResp);
    assert_eq!(Packet::from(Disconnect).msg_type(), MessageType::Disconnect);
}

#[test]
fn enumeration_bytes() {
    for b in 0u8..=255 {
        match MessageType::try_from(b) {
            Ok(t) => {
                assert!((1..=9).contains(&b));
                assert_eq!(u8::from(t), b);
            }
            Err(e) => assert_eq!(e, DecodeError::InvalidMessageType(b)),
        }
        match QoS::try_from(b) {
            Ok(q) => {
                assert!(b <= 2);
                assert_eq!(u8::from(q), b);
            }
            Err(v) => assert_eq!(v, b),
        }
        match ConnectReturnCode::try_from(b) {
            Ok(c) => {
                assert!(b <= 5);
                assert_eq!(u8::from(c), b);
            }
            Err(v) => assert_eq!(v, b),
        }
        match SubAckReturnCode::try_from(b) {
            Ok(c) => {
                assert!(b <= 2 || b == 0x80);
                assert_eq!(u8::from(c), b);
            }
            Err(v) => assert_eq!(v, b),
        }
    }
    assert_eq!(MessageType::try_from(0x05), Ok(MessageType::Subscribe));
    assert_eq!(u8::from(MessageType::Disconnect), 0x09);
    assert_eq!(u8::from(SubAckReturnCode::Failure), 0x80);
    assert_eq!(u8::from(ConnectReturnCode::BadCredentials), 0x04);
    assert_eq!(QoS::default(), QoS::AtMostOnce);
}

#[test]
fn decode_ignores_bytes_behind_the_frame() {
    let mut encoded = UdpFrame::new(8, ConnAck::accepted(true)).encode();
    encoded.extend_from_slice(&[0xDE, 0xAD, 0xBE, 0xEF]);
    assert_eq!(UdpFrame::decode(&encoded).unwrap(), UdpFrame::new(8, ConnAck::accepted(true)));

    // The payload ends where the length byte says, not where the buffer ends.
    let mut publish = UdpFrame::new(8, Publish::new("t", b"ab")).encode();
    publish.extend_from_slice(b"zzz");
    match UdpFrame::decode(&publish).unwrap().packet {
        Packet::Publish(p) => assert_eq!(p.payload, b"ab".to_vec()),
        _ => panic!("wrong packet type"),
    }
}

#[test]
fn decoders_see_only_the_announced_payload() {
    // The string would be complete in the buffer, but not within the
    // announced seven bytes.
    let buf = [7, 0x03, 0, 1, 0x00, 0, 3, b'a', b'b', b'c'];
    assert_eq!(
        UdpFrame::decode(&buf),
        Err(DecodeError::BufferTooShort { expected: 6, actual: 3 })
    );
}

#[test]
fn largest_frame_and_too_large() {
    let payload = vec![7u8; 246];
    let fits = UdpFrame::new(1, Publish::new("ab", &payload));
    assert!(fits.fits());
    let encoded = fits.try_encode().unwrap();
    assert_eq!(encoded.len(), 255);
    assert_eq!(encoded[0], 255);
    assert_eq!(encoded, fits.encode());
    assert_eq!(UdpFrame::decode(&encoded).unwrap(), fits);

    let payload = vec![7u8; 247];
    let too_large = UdpFrame::new(1, Publish::new("ab", &payload));
    assert!(!too_large.fits());
    assert_eq!(too_large.try_encode(), Err(DecodeError::PayloadTooLarge));

    let long_id = "x".repeat(300);
    assert_eq!(
        UdpFrame::new(1, Connect::new(&long_id)).try_encode(),
        Err(DecodeError::PayloadTooLarge)
    );
    let many: Vec<SubscribeFilter> =
        (0..90).map(|_| SubscribeFilter::new("", QoS::AtMostOnce)).collect();
    assert_eq!(
        UdpFrame::new(1, Subscribe::new(many)).try_encode(),
        Err(DecodeError::PayloadTooLarge)
    );
    let some: Vec<SubscribeFilter> =
        (0..83).map(|_| SubscribeFilter::new("", QoS::AtMostOnce)).collect();
    assert_eq!(UdpFrame::new(1, Subscribe::new(some)).try_encode().unwrap().len(), 254);
    assert_eq!(
        UdpFrame::new(1, SubAck::new(vec![SubAckReturnCode::Failure; 251])).try_encode(),
        Err(DecodeError::PayloadTooLarge)
    );
    assert_eq!(
        UdpFrame::new(1, SubAck::new(vec![SubAckReturnCode::Failure; 250]))
            .try_encode()
            .unwrap()
            .len(),
        255
    );
}

#[test]
fn faults_in_words() {
    assert_eq!(
        DecodeError::BufferTooShort { expected: 10, actual: 4 }.message(),
        "buffer too short: expected 10, got 4"
    );
    assert_eq!(
        DecodeError::BufferTooShort { expected: 0, actual: 12345 }.message(),
        "buffer too short: expected 0, got 12345"
    );
    assert_eq!(DecodeError::InvalidMessageType(0xFF).message(), "invalid message type: 0xFF");
    assert_eq!(DecodeError::InvalidMessageType(0x0a).message(), "invalid message type: 0x0A");
    assert_eq!(DecodeError::InvalidQoS(3).message(), "invalid QoS: 3");
    assert_eq!(DecodeError::InvalidQoS(255).message(), "invalid QoS: 255");
    assert_eq!(DecodeError::InvalidReturnCode(6).message(), "invalid return code: 0x06");
    assert_eq!(DecodeError::InvalidUtf8.message(), "invalid UTF-8 string");
    assert_eq!(DecodeError::PayloadTooLarge.message(), "payload exceeds maximum size");
    assert_eq!(DecodeError::MalformedPacket("why").message(), "malformed packet: why");
    match UdpFrame::decode(&[3, 1, 0, 0]) {
        Err(e) => assert_eq!(
            e.message(),
            "malformed packet: frame length is less than the header size"
        ),
        Ok(_) => panic!("a frame shorter than its header was accepted"),
    }
}
