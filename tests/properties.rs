use mqtt_sn::error::CodecError;
use mqtt_sn::flags::Flags;
use mqtt_sn::forwarded::{ForwardedMessage, MaybeForwardedMessage};
use mqtt_sn::message::Message;
use mqtt_sn::messages::{
    ConnAck, Connect, GwInfo, PingReq, PingResp, PubAck, Publish, RegAck, Register, SearchGw,
};
use mqtt_sn::return_code::{RejectedReason, ReturnCode};
use mqtt_sn::text::{ClientId, PublishData, TopicName, WirelessNodeId};

fn samples() -> Vec<Message> {
    vec![
        Message::SearchGw(SearchGw { radius: 5 }),
        Message::GwInfo(GwInfo { gw_id: 0x12 }),
        Message::Connect(Connect {
            flags: Flags(0x84),
            duration: 0xffff,
            client_id: ClientId::from("client-ä"),
        }),
        Message::ConnAck(ConnAck {
            code: ReturnCode::Rejected(RejectedReason::NotSupported),
        }),
        Message::Register(Register {
            topic_id: 1,
            msg_id: 0xfffe,
            topic_name: TopicName::from("sensors/temp"),
        }),
        Message::RegAck(RegAck {
            topic_id: 0,
            msg_id: 0,
            code: ReturnCode::Accepted,
        }),
        Message::Publish(Publish {
            flags: Flags(0x60),
            topic_id: 0x0102,
            msg_id: 0x0304,
            data: PublishData::from(""),
        }),
        Message::PubAck(PubAck {
            topic_id: 7,
            msg_id: 8,
            code: ReturnCode::Rejected(RejectedReason::Reserved(0xff)),
        }),
        Message::PingReq(PingReq {
            client_id: ClientId::new(),
        }),
        Message::PingResp(PingResp {}),
    ]
}

#[test]
fn every_variant_round_trips_with_exact_length_byte() {
    for m in samples() {
        let mut bytes = [0xaau8; 64];
        let n = m.try_write(&mut bytes).unwrap();
        assert_eq!(bytes[0] as usize, n);
        assert_eq!(m.encoded_len(), n);
        assert!(bytes[n..].iter().all(|b| *b == 0xaa));
        let (back, used) = Message::try_read(&bytes).unwrap();
        assert_eq!(used, n);
        assert_eq!(back, m);
    }
}

#[test]
fn every_variant_truncated_is_too_short() {
    for m in samples() {
        let mut bytes = [0u8; 64];
        let n = m.try_write(&mut bytes).unwrap();
        assert_eq!(
            Message::try_read(&bytes[..n - 1]),
            Err(CodecError::BufferTooShort)
        );
        assert_eq!(
            MaybeForwardedMessage::try_read(&bytes[..n - 1]),
            Err(CodecError::BufferTooShort)
        );
    }
}

#[test]
fn forwarded_publish_round_trips_and_truncates() {
    let fwd = ForwardedMessage {
        ctrl: 0x03,
        wireless_node_id: WirelessNodeId::from("node-7"),
        message: Message::Publish(Publish {
            flags: Flags(0x20),
            topic_id: 0x0a0b,
            msg_id: 0x0c0d,
            data: PublishData::from("21.5C"),
        }),
    };
    let mut bytes = [0u8; 40];
    let n = fwd.try_write(&mut bytes).unwrap();
    assert_eq!(
        &bytes[..n],
        &[
            9u8, 0xfe, 0x03, b'n', b'o', b'd', b'e', b'-', b'7', 12, 0x0c, 0x20, 0x0a, 0x0b,
            0x0c, 0x0d, b'2', b'1', b'.', b'5', b'C'
        ]
    );
    let (back, used) = ForwardedMessage::try_read(&bytes).unwrap();
    assert_eq!(used, n);
    assert_eq!(back, fwd);
    assert_eq!(
        ForwardedMessage::try_read(&bytes[..n - 1]),
        Err(CodecError::BufferTooShort)
    );
    let (routed, used) = MaybeForwardedMessage::try_read(&bytes[..n]).unwrap();
    assert_eq!(used, n);
    assert_eq!(routed, MaybeForwardedMessage::ForwardedMessage(fwd));
}

#[test]
fn dispatcher_routes_direct_messages() {
    let (routed, used) = MaybeForwardedMessage::try_read(&[0x03, 0x02, 0x12, 0xff]).unwrap();
    assert_eq!(used, 3);
    assert_eq!(
        routed,
        MaybeForwardedMessage::Message(Message::GwInfo(GwInfo { gw_id: 0x12 }))
    );
    let direct = MaybeForwardedMessage::from(Message::PingResp(PingResp {}));
    let mut bytes = [0u8; 4];
    assert_eq!(direct.try_write(&mut bytes), Ok(2));
    assert_eq!(&bytes[..2], &[0x02, 0x17]);
}

#[test]
fn unknown_tags_are_refused() {
    for tag in [0x00u8, 0x03, 0x06, 0x09, 0x0e, 0x15, 0x18, 0xfd, 0xff] {
        let frame = [3u8, tag, 0];
        assert_eq!(
            MaybeForwardedMessage::try_read(&frame),
            Err(CodecError::UnknownMessageType)
        );
        assert_eq!(Message::try_read(&frame), Err(CodecError::UnknownMessageType));
    }
    assert_eq!(
        Message::try_read(&[3u8, 0xfe, 0]),
        Err(CodecError::UnknownMessageType)
    );
}

#[test]
fn reserved_code_survives_round_trip() {
    let ack = Message::ConnAck(ConnAck {
        code: ReturnCode::Rejected(RejectedReason::Reserved(0x42)),
    });
    let mut bytes = [0u8; 3];
    assert_eq!(ack.try_write(&mut bytes), Ok(3));
    assert_eq!(bytes, [0x03, 0x05, 0x42]);
    assert_eq!(Message::try_read(&bytes), Ok((ack, 3)));
}

#[test]
fn text_over_capacity_is_too_long() {
    let long = [b'a'; 80];
    assert_eq!(ClientId::try_read(&long, 65), Err(CodecError::TextTooLong));
    assert_eq!(WirelessNodeId::try_read(&long, 17), Err(CodecError::TextTooLong));
    let (id, n) = WirelessNodeId::try_read(&long, 16).unwrap();
    assert_eq!((id.as_str(), n), ("aaaaaaaaaaaaaaaa", 16));

    let mut connect = [b'x'; 71];
    connect[0] = 71;
    connect[1] = 0x04;
    assert_eq!(Message::try_read(&connect), Err(CodecError::TextTooLong));

    let mut ping = [b'x'; 67];
    ping[0] = 67;
    ping[1] = 0x16;
    assert_eq!(Message::try_read(&ping), Err(CodecError::TextTooLong));

    let mut fwd = [b'x'; 22];
    fwd[0] = 20;
    fwd[1] = 0xfe;
    assert_eq!(
        MaybeForwardedMessage::try_read(&fwd),
        Err(CodecError::TextTooLong)
    );
}

#[test]
fn largest_client_id_round_trips() {
    let text = "c".repeat(64);
    let m = Message::PingReq(PingReq {
        client_id: ClientId::from(&text),
    });
    let mut bytes = [0u8; 66];
    assert_eq!(m.try_write(&mut bytes), Ok(66));
    assert_eq!(bytes[0], 66);
    assert_eq!(Message::try_read(&bytes), Ok((m, 66)));
}

#[test]
fn invalid_utf8_is_refused() {
    assert_eq!(
        Message::try_read(&[3u8, 0x16, 0xff]),
        Err(CodecError::InvalidUtf8)
    );
    assert_eq!(
        TopicName::try_read(&[0xc3u8, 0x28], 2),
        Err(CodecError::InvalidUtf8)
    );
}

#[test]
fn declared_length_below_minimum_is_refused() {
    assert_eq!(
        Message::try_read(&[5u8, 0x04, 0, 0, 0]),
        Err(CodecError::LengthViolation)
    );
    assert_eq!(Message::try_read(&[2u8, 0x01, 9]), Err(CodecError::LengthViolation));
    assert_eq!(
        Message::try_read(&[6u8, 0x0d, 0, 1, 0, 2, 0]),
        Err(CodecError::LengthViolation)
    );
    assert_eq!(
        Message::try_read(&[1u8, 0x17]),
        Err(CodecError::LengthViolation)
    );
    assert_eq!(
        ForwardedMessage::try_read(&[2u8, 0xfe, 0x02, 0x17]),
        Err(CodecError::LengthViolation)
    );
}

#[test]
fn declared_length_beyond_buffer_is_too_short() {
    assert_eq!(Message::try_read(&[4u8, 0x01, 9]), Err(CodecError::BufferTooShort));
    assert_eq!(Message::try_read(&[]), Err(CodecError::BufferTooShort));
    assert_eq!(Message::try_read(&[3u8]), Err(CodecError::BufferTooShort));
    assert_eq!(
        MaybeForwardedMessage::try_read(&[0xfeu8]),
        Err(CodecError::BufferTooShort)
    );
    assert_eq!(ReturnCode::try_read(&[]), Err(CodecError::BufferTooShort));
    assert_eq!(Flags::try_read(&[]), Err(CodecError::BufferTooShort));
    assert_eq!(
        ClientId::try_read(b"abc", 4),
        Err(CodecError::BufferTooShort)
    );
}

#[test]
fn fixed_variant_takes_its_fixed_size() {
    assert_eq!(
        Message::try_read(&[5u8, 0x01, 9, 7, 7]),
        Ok((Message::SearchGw(SearchGw { radius: 9 }), 3))
    );
    let (m, n) = Message::try_read(&[6u8, 0x0a, 0, 1, 0, 2, 0xee]).unwrap();
    assert_eq!(n, 6);
    assert_eq!(
        m,
        Message::Register(Register {
            topic_id: 1,
            msg_id: 2,
            topic_name: TopicName::new(),
        })
    );
}

#[test]
fn small_destination_is_refused_untouched() {
    let m = Message::Connect(Connect {
        flags: Flags(0),
        duration: 1,
        client_id: ClientId::from("abc"),
    });
    let mut bytes = [0x55u8; 8];
    assert_eq!(m.try_write(&mut bytes), Err(CodecError::EncodeBufferTooSmall));
    assert_eq!(bytes, [0x55u8; 8]);
    let mut none: [u8; 0] = [];
    assert_eq!(
        ReturnCode::Accepted.try_write(&mut none),
        Err(CodecError::EncodeBufferTooSmall)
    );
    assert_eq!(
        ClientId::from("abc").try_write(&mut bytes[..2]),
        Err(CodecError::EncodeBufferTooSmall)
    );
}

#[test]
fn frame_beyond_length_byte_is_refused() {
    let m = Message::Publish(Publish {
        flags: Flags(0),
        topic_id: 1,
        msg_id: 2,
        data: PublishData::from(&"d".repeat(249)),
    });
    let mut bytes = [0u8; 300];
    assert_eq!(m.encoded_len(), 256);
    assert_eq!(m.try_write(&mut bytes), Err(CodecError::LengthViolation));
    let ok = Message::Publish(Publish {
        flags: Flags(0),
        topic_id: 1,
        msg_id: 2,
        data: PublishData::from(&"d".repeat(248)),
    });
    assert_eq!(ok.try_write(&mut bytes), Ok(255));
    assert_eq!(bytes[0], 255);
    assert_eq!(Message::try_read(&bytes), Ok((ok, 255)));
    let reg = Message::Register(Register {
        topic_id: 1,
        msg_id: 2,
        topic_name: TopicName::from(&"t".repeat(250)),
    });
    assert_eq!(reg.try_write(&mut bytes), Err(CodecError::LengthViolation));
}

#[test]
fn flags_fields() {
    let f = Flags(0x12);
    assert!(!f.dup());
    assert_eq!(f.qos(), 0);
    assert!(f.retain());
    assert!(!f.will());
    assert!(!f.clean_session());
    assert_eq!(f.topic_id_type(), 2);

    let mut g = Flags::default();
    g.set_dup(true);
    g.set_qos(3);
    g.set_will(true);
    g.set_topic_id_type(1);
    assert_eq!(g, Flags(0xe9));
    g.set_qos(1);
    g.set_clean_session(true);
    g.set_retain(true);
    g.set_dup(false);
    assert_eq!(g, Flags(0x3d));
    assert_eq!((g.qos(), g.topic_id_type()), (1, 1));

    let mut bytes = [0u8; 2];
    assert_eq!(g.try_write(&mut bytes), Ok(1));
    assert_eq!(Flags::try_read(&bytes), Ok((Flags(0x3d), 1)));
}

#[test]
fn text_types_hold_what_they_are_given() {
    let id = ClientId::from("héllo");
    assert_eq!(id.as_str(), "héllo");
    assert_eq!(id.len(), 6);
    assert_eq!(id.clone(), id);
    assert_eq!(ClientId::default().as_str(), "");
    assert_eq!(PublishData::new().len(), 0);

    let mut bytes = [0u8; 8];
    assert_eq!(id.try_write(&mut bytes), Ok(6));
    assert_eq!(&bytes[..6], "héllo".as_bytes());
    let (back, n) = ClientId::try_read(&bytes, 6).unwrap();
    assert_eq!((back.as_str(), n), ("héllo", 6));

    let (name, n) = TopicName::try_read(b"a/b/c trailing", 5).unwrap();
    assert_eq!((name.as_str(), n), ("a/b/c", 5));
}

#[test]
fn return_code_conversions() {
    for b in 0..=255u8 {
        let c = ReturnCode::from_byte(b);
        assert_eq!(c.to_byte(), b);
    }
    assert_eq!(
        ReturnCode::from(RejectedReason::Congestion),
        ReturnCode::Rejected(RejectedReason::Congestion)
    );
    assert_eq!(
        ReturnCode::from_byte(0x7f),
        ReturnCode::Rejected(RejectedReason::Reserved(0x7f))
    );
}

#[test]
fn empty_ping_request_client_id() {
    assert_eq!(
        Message::try_read(&[2u8, 0x16]),
        Ok((
            Message::PingReq(PingReq {
                client_id: ClientId::new()
            }),
            2
        ))
    );
}
