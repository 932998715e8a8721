//! A frame of any variant: dispatch on the type tag.
use vstd::prelude::*;
use vstd::utf8::*;

use crate::cursor::peek_u8;
use crate::error::CodecError;
use crate::frame::{decoded, framed, framed_at};
use crate::messages::{
    conn_ack_frame, connect_frame, gw_info_frame, parse_conn_ack, parse_connect, parse_gw_info,
    parse_ping_req, parse_ping_resp, parse_pub_ack, parse_publish, parse_reg_ack, parse_register,
    parse_search_gw, ping_req_frame, ping_resp_frame, pub_ack_frame, publish_frame, reg_ack_frame,
    register_frame, search_gw_frame, ConnAck, Connect, ConnectModel, GwInfo, PingReq, PingReqModel,
    PingResp, PubAck, Publish, PublishModel, RegAck, Register, RegisterModel, SearchGw,
    CONNECT_HEADER_LEN, PING_REQ_HEADER_LEN, PUBLISH_HEADER_LEN, REGISTER_HEADER_LEN, TAG_CONNECT,
    TAG_CONN_ACK, TAG_GW_INFO, TAG_PING_REQ, TAG_PING_RESP, TAG_PUBLISH, TAG_PUB_ACK, TAG_REGISTER,
    TAG_REG_ACK, TAG_SEARCH_GW,
};
use crate::return_code::code_canonical;
use crate::text::{CLIENT_ID_CAPACITY, PUBLISH_DATA_CAPACITY, TOPIC_NAME_CAPACITY};

verus! {

#[derive(Clone, Debug, PartialEq, Eq)]
pub enum Message {
    SearchGw(SearchGw),
    GwInfo(GwInfo),
    Connect(Connect),
    ConnAck(ConnAck),
    Register(Register),
    RegAck(RegAck),
    Publish(Publish),
    PubAck(PubAck),
    PingReq(PingReq),
    PingResp(PingResp),
}

/// What a `Message` holds.
pub enum MessageModel {
    SearchGw(SearchGw),
    GwInfo(GwInfo),
    Connect(ConnectModel),
    ConnAck(ConnAck),
    Register(RegisterModel),
    RegAck(RegAck),
    Publish(PublishModel),
    PubAck(PubAck),
    PingReq(PingReqModel),
    PingResp(PingResp),
}

impl View for Message {
    type V = MessageModel;

    open spec fn view(&self) -> MessageModel {
        match self {
            Message::SearchGw(m) => MessageModel::SearchGw(m@),
            Message::GwInfo(m) => MessageModel::GwInfo(m@),
            Message::Connect(m) => MessageModel::Connect(m@),
            Message::ConnAck(m) => MessageModel::ConnAck(m@),
            Message::Register(m) => MessageModel::Register(m@),
            Message::RegAck(m) => MessageModel::RegAck(m@),
            Message::Publish(m) => MessageModel::Publish(m@),
            Message::PubAck(m) => MessageModel::PubAck(m@),
            Message::PingReq(m) => MessageModel::PingReq(m@),
            Message::PingResp(m) => MessageModel::PingResp(m@),
        }
    }
}

/// The frame that encodes a message.
pub open spec fn message_frame(m: MessageModel) -> Seq<u8> {
    match m {
        MessageModel::SearchGw(v) => search_gw_frame(v),
        MessageModel::GwInfo(v) => gw_info_frame(v),
        MessageModel::Connect(v) => connect_frame(v),
        MessageModel::ConnAck(v) => conn_ack_frame(v),
        MessageModel::Register(v) => register_frame(v),
        MessageModel::RegAck(v) => reg_ack_frame(v),
        MessageModel::Publish(v) => publish_frame(v),
        MessageModel::PubAck(v) => pub_ack_frame(v),
        MessageModel::PingReq(v) => ping_req_frame(v),
        MessageModel::PingResp(v) => ping_resp_frame(v),
    }
}

/// A message that decoding can give back: each text within its capacity and
/// each return code canonical.
pub open spec fn message_wf(m: MessageModel) -> bool {
    match m {
        MessageModel::Connect(c) => encode_utf8(c.client_id).len() <= CLIENT_ID_CAPACITY,
        MessageModel::ConnAck(c) => code_canonical(c.code),
        MessageModel::Register(r) => encode_utf8(r.topic_name).len() <= TOPIC_NAME_CAPACITY,
        MessageModel::RegAck(r) => code_canonical(r.code),
        MessageModel::Publish(p) => encode_utf8(p.data).len() <= PUBLISH_DATA_CAPACITY,
        MessageModel::PubAck(p) => code_canonical(p.code),
        MessageModel::PingReq(p) => encode_utf8(p.client_id).len() <= CLIENT_ID_CAPACITY,
        _ => true,
    }
}

/// Whether `tag` names one of the ten variants.
pub open spec fn is_message_tag(tag: u8) -> bool {
    tag == TAG_SEARCH_GW
        || tag == TAG_GW_INFO
        || tag == TAG_CONNECT
        || tag == TAG_CONN_ACK
        || tag == TAG_REGISTER
        || tag == TAG_REG_ACK
        || tag == TAG_PUBLISH
        || tag == TAG_PUB_ACK
        || tag == TAG_PING_REQ
        || tag == TAG_PING_RESP
}

/// Decoding a message from the start of `b`: the variant is chosen by the
/// byte at offset 1, and that variant's decoder takes the whole frame.
pub open spec fn parse_message(b: Seq<u8>) -> Result<(MessageModel, int), CodecError> {
    if b.len() < 2 {
        Err(CodecError::BufferTooShort)
    } else {
        let tag = b[1];
        if tag == TAG_SEARCH_GW {
            match parse_search_gw(b) {
                Ok((m, n)) => Ok((MessageModel::SearchGw(m), n)),
                Err(e) => Err(e),
            }
        } else if tag == TAG_GW_INFO {
            match parse_gw_info(b) {
                Ok((m, n)) => Ok((MessageModel::GwInfo(m), n)),
                Err(e) => Err(e),
            }
        } else if tag == TAG_CONNECT {
            match parse_connect(b) {
                Ok((m, n)) => Ok((MessageModel::Connect(m), n)),
                Err(e) => Err(e),
            }
        } else if tag == TAG_CONN_ACK {
            match parse_conn_ack(b) {
                Ok((m, n)) => Ok((MessageModel::ConnAck(m), n)),
                Err(e) => Err(e),
            }
        } else if tag == TAG_REGISTER {
            match parse_register(b) {
                Ok((m, n)) => Ok((MessageModel::Register(m), n)),
                Err(e) => Err(e),
            }
        } else if tag == TAG_REG_ACK {
            match parse_reg_ack(b) {
                Ok((m, n)) => Ok((MessageModel::RegAck(m), n)),
                Err(e) => Err(e),
            }
        } else if tag == TAG_PUBLISH {
            match parse_publish(b) {
                Ok((m, n)) => Ok((MessageModel::Publish(m), n)),
                Err(e) => Err(e),
            }
        } else if tag == TAG_PUB_ACK {
            match parse_pub_ack(b) {
                Ok((m, n)) => Ok((MessageModel::PubAck(m), n)),
                Err(e) => Err(e),
            }
        } else if tag == TAG_PING_REQ {
            match parse_ping_req(b) {
                Ok((m, n)) => Ok((MessageModel::PingReq(m), n)),
                Err(e) => Err(e),
            }
        } else if tag == TAG_PING_RESP {
            match parse_ping_resp(b) {
                Ok((m, n)) => Ok((MessageModel::PingResp(m), n)),
                Err(e) => Err(e),
            }
        } else {
            Err(CodecError::UnknownMessageType)
        }
    }
}

/// A decoded message never takes more bytes than it was given, and at least
/// its length and tag.
pub proof fn lemma_parse_message_len(b: Seq<u8>)
    ensures
        parse_message(b) matches Ok((_, n)) ==> 2 <= n <= b.len(),
{
}

impl Message {
    /// Encodes the message as one complete frame at the start of `bytes`.
    pub fn try_write(&self, bytes: &mut [u8]) -> (r: Result<usize, CodecError>)
        ensures
            framed(message_frame(self@), old(bytes)@, final(bytes)@, r),
    {
        self.write_at(bytes, 0)
    }

    /// Encodes the message as one complete frame at offset `start` of `bytes`.
    pub fn write_at(&self, bytes: &mut [u8], start: usize) -> (r: Result<usize, CodecError>)
        ensures
            framed_at(message_frame(self@), start as int, old(bytes)@, final(bytes)@, r),
    {
        match self {
            Message::SearchGw(m) => m.write_at(bytes, start),
            Message::GwInfo(m) => m.write_at(bytes, start),
            Message::Connect(m) => m.write_at(bytes, start),
            Message::ConnAck(m) => m.write_at(bytes, start),
            Message::Register(m) => m.write_at(bytes, start),
            Message::RegAck(m) => m.write_at(bytes, start),
            Message::Publish(m) => m.write_at(bytes, start),
            Message::PubAck(m) => m.write_at(bytes, start),
            Message::PingReq(m) => m.write_at(bytes, start),
            Message::PingResp(m) => m.write_at(bytes, start),
        }
    }

    /// Size of the message's frame in bytes.
    pub fn encoded_len(&self) -> (r: usize)
        ensures
            r == message_frame(self@).len(),
    {
        match self {
            Message::SearchGw(m) => 3,
            Message::GwInfo(m) => 3,
            Message::Connect(m) => CONNECT_HEADER_LEN as usize + m.client_id.len(),
            Message::ConnAck(m) => 3,
            Message::Register(m) => REGISTER_HEADER_LEN as usize + m.topic_name.len(),
            Message::RegAck(m) => 7,
            Message::Publish(m) => PUBLISH_HEADER_LEN as usize + m.data.len(),
            Message::PubAck(m) => 7,
            Message::PingReq(m) => PING_REQ_HEADER_LEN as usize + m.client_id.len(),
            Message::PingResp(m) => 2,
        }
    }

    /// Decodes one frame from the start of `bytes`; on success also the number
    /// of bytes taken.
    pub fn try_read(bytes: &[u8]) -> (r: Result<(Message, usize), CodecError>)
        ensures
            decoded(r) == parse_message(bytes@),
    {
        let tag = peek_u8(bytes, 1)?;
        if tag == TAG_SEARCH_GW {
            let (m, n) = SearchGw::try_read(bytes)?;
            Ok((Message::SearchGw(m), n))
        } else if tag == TAG_GW_INFO {
            let (m, n) = GwInfo::try_read(bytes)?;
            Ok((Message::GwInfo(m), n))
        } else if tag == TAG_CONNECT {
            let (m, n) = Connect::try_read(bytes)?;
            Ok((Message::Connect(m), n))
        } else if tag == TAG_CONN_ACK {
            let (m, n) = ConnAck::try_read(bytes)?;
            Ok((Message::ConnAck(m), n))
        } else if tag == TAG_REGISTER {
            let (m, n) = Register::try_read(bytes)?;
            Ok((Message::Register(m), n))
        } else if tag == TAG_REG_ACK {
            let (m, n) = RegAck::try_read(bytes)?;
            Ok((Message::RegAck(m), n))
        } else if tag == TAG_PUBLISH {
            let (m, n) = Publish::try_read(bytes)?;
            Ok((Message::Publish(m), n))
        } else if tag == TAG_PUB_ACK {
            let (m, n) = PubAck::try_read(bytes)?;
            Ok((Message::PubAck(m), n))
        } else if tag == TAG_PING_REQ {
            let (m, n) = PingReq::try_read(bytes)?;
            Ok((Message::PingReq(m), n))
        } else if tag == TAG_PING_RESP {
            let (m, n) = PingResp::try_read(bytes)?;
            Ok((Message::PingResp(m), n))
        } else {
            Err(CodecError::UnknownMessageType)
        }
    }
}

impl From<SearchGw> for Message {
    fn from(msg: SearchGw) -> (r: Message) {
        Message::SearchGw(msg)
    }
}

impl vstd::std_specs::convert::FromSpecImpl<SearchGw> for Message {
    open spec fn obeys_from_spec() -> bool {
        true
    }

    open spec fn from_spec(msg: SearchGw) -> Message {
        Message::SearchGw(msg)
    }
}

impl From<GwInfo> for Message {
    fn from(msg: GwInfo) -> (r: Message) {
        Message::GwInfo(msg)
    }
}

impl vstd::std_specs::convert::FromSpecImpl<GwInfo> for Message {
    open spec fn obeys_from_spec() -> bool {
        true
    }

    open spec fn from_spec(msg: GwInfo) -> Message {
        Message::GwInfo(msg)
    }
}

impl From<Connect> for Message {
    fn from(msg: Connect) -> (r: Message) {
        Message::Connect(msg)
    }
}

impl vstd::std_specs::convert::FromSpecImpl<Connect> for Message {
    open spec fn obeys_from_spec() -> bool {
        true
    }

    open spec fn from_spec(msg: Connect) -> Message {
        Message::Connect(msg)
    }
}

impl From<ConnAck> for Message {
    fn from(msg: ConnAck) -> (r: Message) {
        Message::ConnAck(msg)
    }
}

impl vstd::std_specs::convert::FromSpecImpl<ConnAck> for Message {
    open spec fn obeys_from_spec() -> bool {
        true
    }

    open spec fn from_spec(msg: ConnAck) -> Message {
        Message::ConnAck(msg)
    }
}

impl From<Register> for Message {
    fn from(msg: Register) -> (r: Message) {
        Message::Register(msg)
    }
}

impl vstd::std_specs::convert::FromSpecImpl<Register> for Message {
    open spec fn obeys_from_spec() -> bool {
        true
    }

    open spec fn from_spec(msg: Register) -> Message {
        Message::Register(msg)
    }
}

impl From<RegAck> for Message {
    fn from(msg: RegAck) -> (r: Message) {
        Message::RegAck(msg)
    }
}

impl vstd::std_specs::convert::FromSpecImpl<RegAck> for Message {
    open spec fn obeys_from_spec() -> bool {
        true
    }

    open spec fn from_spec(msg: RegAck) -> Message {
        Message::RegAck(msg)
    }
}

impl From<Publish> for Message {
    fn from(msg: Publish) -> (r: Message) {
        Message::Publish(msg)
    }
}

impl vstd::std_specs::convert::FromSpecImpl<Publish> for Message {
    open spec fn obeys_from_spec() -> bool {
        true
    }

    open spec fn from_spec(msg: Publish) -> Message {
        Message::Publish(msg)
    }
}

impl From<PubAck> for Message {
    fn from(msg: PubAck) -> (r: Message) {
        Message::PubAck(msg)
    }
}

impl vstd::std_specs::convert::FromSpecImpl<PubAck> for Message {
    open spec fn obeys_from_spec() -> bool {
        true
    }

    open spec fn from_spec(msg: PubAck) -> Message {
        Message::PubAck(msg)
    }
}

impl From<PingReq> for Message {
    fn from(msg: PingReq) -> (r: Message) {
        Message::PingReq(msg)
    }
}

impl vstd::std_specs::convert::FromSpecImpl<PingReq> for Message {
    open spec fn obeys_from_spec() -> bool {
        true
    }

    open spec fn from_spec(msg: PingReq) -> Message {
        Message::PingReq(msg)
    }
}

impl From<PingResp> for Message {
    fn from(msg: PingResp) -> (r: Message) {
        Message::PingResp(msg)
    }
}

impl vstd::std_specs::convert::FromSpecImpl<PingResp> for Message {
    open spec fn obeys_from_spec() -> bool {
        true
    }

    open spec fn from_spec(msg: PingResp) -> Message {
        Message::PingResp(msg)
    }
}

} // verus!
