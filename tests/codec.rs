use mqtt_sn::error::CodecError;
use mqtt_sn::flags::Flags;
use mqtt_sn::forwarded::{ForwardedMessage, MaybeForwardedMessage};
use mqtt_sn::message::Message;
use mqtt_sn::messages::{
    ConnAck, Connect, GwInfo, PingReq, PingResp, PubAck, Publish, RegAck, Register, SearchGw,
};
use mqtt_sn::return_code::{RejectedReason, ReturnCode};
use mqtt_sn::text::{ClientId, PublishData, TopicName, WirelessNodeId};

#[test]
fn forwarded_message_encode_parse() {
    let mut bytes = [0u8; 20];
    let expected = ForwardedMessage {
        ctrl: 0,
        wireless_node_id: WirelessNodeId::from("test-node"),
        message: Message::PingResp(PingResp {}),
    };
    let len = expected.clone().try_write(&mut bytes).unwrap();
    assert_eq!(
        &bytes[..len],
        &[12u8, 0xfe, 0x00, b't', b'e', b's', b't', b'-', b'n', b'o', b'd', b'e', 2, 0x17]
    );
    let (actual, _) = ForwardedMessage::try_read(&bytes).unwrap();
    assert_eq!(actual, expected);
}

#[test]
fn return_code_encode() {
    let mut buf = [0u8; 5];
    let mut offset = 0usize;
    offset += ReturnCode::Accepted.try_write(&mut buf[offset..]).unwrap();
    offset += ReturnCode::Rejected(RejectedReason::Congestion)
        .try_write(&mut buf[offset..])
        .unwrap();
    offset += ReturnCode::Rejected(RejectedReason::InvalidTopicId)
        .try_write(&mut buf[offset..])
        .unwrap();
    offset += ReturnCode::Rejected(RejectedReason::NotSupported)
        .try_write(&mut buf[offset..])
        .unwrap();
    offset += ReturnCode::Rejected(RejectedReason::Reserved(0x12))
        .try_write(&mut buf[offset..])
        .unwrap();
    assert_eq!(offset, 5);
    assert_eq!(&buf, &[0x00u8, 0x01u8, 0x02u8, 0x03u8, 0x12u8]);
}

#[test]
fn return_code_parse() {
    let buf = &[0x00u8, 0x01u8, 0x02u8, 0x03u8, 0x12u8];
    let mut actual = [ReturnCode::Accepted; 5];
    let mut offset = 0usize;
    for i in 0..5 {
        let (code, n) = ReturnCode::try_read(&buf[offset..]).unwrap();
        actual[i] = code;
        offset += n;
    }
    assert_eq!(
        &actual,
        &[
            ReturnCode::Accepted,
            ReturnCode::Rejected(RejectedReason::Congestion),
            ReturnCode::Rejected(RejectedReason::InvalidTopicId),
            ReturnCode::Rejected(RejectedReason::NotSupported),
            ReturnCode::Rejected(RejectedReason::Reserved(0x12)),
        ]
    );
}

fn encode(msg: &Message, bytes: &mut [u8]) -> usize {
    msg.try_write(bytes).unwrap()
}

#[test]
fn searchgw_encode_parse() {
    let bytes = &mut [0u8; 10];
    let expected = Message::SearchGw(SearchGw { radius: 5 });
    let len = encode(&expected, bytes);
    assert_eq!(&bytes[..len], [0x03u8, 0x01, 0x05]);
    let (actual, _) = Message::try_read(bytes).unwrap();
    assert_eq!(actual, expected);
}

#[test]
fn gwinfo_encode_parse() {
    let mut bytes = [0u8; 20];
    let expected = Message::GwInfo(GwInfo { gw_id: 0x12 });
    let len = encode(&expected, &mut bytes);
    assert_eq!(&bytes[..len], [0x03u8, 0x02, 0x12]);
    let (actual, _) = Message::try_read(&bytes).unwrap();
    assert_eq!(actual, expected);
}

#[test]
fn connect_encode_parse() {
    let mut bytes = [0u8; 20];
    let expected = Message::Connect(Connect {
        flags: Flags(0x12),
        duration: 0x3456,
        client_id: ClientId::from("test-client"),
    });
    let len = encode(&expected, &mut bytes);
    assert_eq!(
        &bytes[..len],
        [
            0x11u8, 0x04, 0x12, 0x01, 0x34, 0x56, b't', b'e', b's', b't', b'-', b'c', b'l',
            b'i', b'e', b'n', b't'
        ]
    );
    let (actual, _) = Message::try_read(&bytes).unwrap();
    assert_eq!(actual, expected);
}

#[test]
fn register_encode_parse() {
    let mut bytes = [0u8; 20];
    let expected = Message::Register(Register {
        topic_id: 0x1234,
        msg_id: 0x5678,
        topic_name: TopicName::from("test"),
    });
    let len = encode(&expected, &mut bytes);
    assert_eq!(
        &bytes[..len],
        [0x0au8, 0x0a, 0x12, 0x34, 0x56, 0x78, b't', b'e', b's', b't']
    );
    let (actual, _) = Message::try_read(&bytes).unwrap();
    assert_eq!(actual, expected);
}

#[test]
fn regack_encode_parse() {
    let mut bytes = [0u8; 20];
    let expected = Message::RegAck(RegAck {
        topic_id: 0x1234,
        msg_id: 0x5678,
        code: ReturnCode::Rejected(RejectedReason::Congestion),
    });
    let len = encode(&expected, &mut bytes);
    assert_eq!(&bytes[..len], [0x07u8, 0x0b, 0x12, 0x34, 0x56, 0x78, 0x1]);
    let (actual, _) = Message::try_read(&bytes).unwrap();
    assert_eq!(actual, expected);
}

#[test]
fn publish_encode_parse() {
    let mut bytes = [0u8; 20];
    let expected = Message::Publish(Publish {
        flags: Flags(0x12),
        topic_id: 0x1234,
        msg_id: 0x5678,
        data: PublishData::from("test"),
    });
    let len = encode(&expected, &mut bytes);
    assert_eq!(
        &bytes[..len],
        [0x0bu8, 0x0c, 0x12, 0x12, 0x34, 0x56, 0x78, b't', b'e', b's', b't']
    );
    let (actual, _) = Message::try_read(&bytes).unwrap();
    assert_eq!(actual, expected);
}

#[test]
fn puback_encode_parse() {
    let mut bytes = [0u8; 20];
    let expected = Message::PubAck(PubAck {
        topic_id: 0x1234,
        msg_id: 0x5678,
        code: RejectedReason::InvalidTopicId.into(),
    });
    let len = encode(&expected, &mut bytes);
    assert_eq!(&bytes[..len], [0x07u8, 0x0d, 0x12, 0x34, 0x56, 0x78, 0x02]);
    let (actual, _) = Message::try_read(&bytes).unwrap();
    assert_eq!(actual, expected);
}

#[test]
fn pingreq_encode_parse() {
    let mut bytes = [0u8; 20];
    let expected = Message::PingReq(PingReq {
        client_id: ClientId::from("test-client"),
    });
    let len = encode(&expected, &mut bytes);
    assert_eq!(
        &bytes[..len],
        [0xdu8, 0x16, b't', b'e', b's', b't', b'-', b'c', b'l', b'i', b'e', b'n', b't']
    );
    let (actual, _) = Message::try_read(&bytes).unwrap();
    assert_eq!(actual, expected);
}

#[test]
fn pingresp_encode_parse() {
    let mut bytes = [0u8; 20];
    let expected = Message::PingResp(PingResp {});
    let len = encode(&expected, &mut bytes);
    assert_eq!(&bytes[..len], &[0x02u8, 0x17]);
    let (actual, _) = Message::try_read(&bytes).unwrap();
    assert_eq!(actual, expected);
}
