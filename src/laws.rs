//! What holds of the codec as a whole, over the frame and parse functions
//! that the encoders' and decoders' contracts are stated with.
use vstd::prelude::*;
use vstd::utf8::*;

use crate::cursor::{be16, lemma_u16_at_be16};
use crate::error::CodecError;
use crate::flags::Flags;
use crate::forwarded::{
    forwarded_fits, forwarded_frame, forwarded_header, forwarded_wf, maybe_forwarded_frame,
    maybe_forwarded_wf, parse_forwarded, parse_maybe_forwarded, ForwardedMessageModel,
    MaybeForwardedModel, TAG_FORWARDED,
};
use crate::frame::MAX_FRAME_LEN;
use crate::message::{is_message_tag, message_frame, message_wf, parse_message, MessageModel};
use crate::messages::{
    connect_frame, parse_connect, parse_ping_req, parse_pub_ack, parse_publish, parse_reg_ack,
    parse_register, ping_req_frame, pub_ack_frame, publish_frame, reg_ack_frame, register_frame,
    ConnectModel, PingReqModel, PubAck, PublishModel, RegAck, RegisterModel, CONNECT_HEADER_LEN,
    PING_REQ_HEADER_LEN, PROTOCOL_ID, TAG_CONNECT, TAG_PING_REQ, TAG_PUBLISH, TAG_PUB_ACK,
    TAG_REGISTER, TAG_REG_ACK,
};
use crate::return_code::{code_byte, code_canonical, lemma_code_round_trip};
use crate::text::{
    parse_text, CLIENT_ID_CAPACITY, PUBLISH_DATA_CAPACITY, TOPIC_NAME_CAPACITY,
    WIRELESS_NODE_ID_CAPACITY,
};

verus! {

broadcast use group_utf8_lib;

/// Text decodes back from its own bytes, whatever follows them.
pub proof fn lemma_text_round_trip(t: Seq<char>, rest: Seq<u8>, cap: int)
    requires
        encode_utf8(t).len() <= cap,
    ensures
        parse_text(encode_utf8(t) + rest, encode_utf8(t).len() as int, cap) == Ok::<
            (Seq<char>, int),
            CodecError,
        >((t, encode_utf8(t).len() as int)),
{
    let e = encode_utf8(t);
    assert((e + rest).subrange(0, e.len() as int) =~= e);
}

/// A text field whose declared length exceeds its capacity is refused as too
/// long, whatever its bytes.
pub proof fn lemma_text_capacity(b: Seq<u8>, len: int, cap: int)
    requires
        len > cap,
    ensures
        parse_text(b, len, cap) == Err::<(Seq<char>, int), CodecError>(CodecError::TextTooLong),
{
}

proof fn lemma_connect_round_trip(c: ConnectModel, rest: Seq<u8>)
    requires
        encode_utf8(c.client_id).len() <= CLIENT_ID_CAPACITY,
        connect_frame(c).len() <= MAX_FRAME_LEN,
    ensures
        parse_connect(connect_frame(c) + rest) == Ok::<(ConnectModel, int), CodecError>(
            (c, connect_frame(c).len() as int),
        ),
{
    let t = encode_utf8(c.client_id);
    let f = connect_frame(c);
    let b = f + rest;
    let pre = seq![f[0], TAG_CONNECT, c.flags.0, PROTOCOL_ID];
    assert(b =~= pre + be16(c.duration) + (t + rest));
    lemma_u16_at_be16(c.duration, pre, t + rest);
    assert(b.subrange(6, b.len() as int) =~= t + rest);
    lemma_text_round_trip(c.client_id, rest, CLIENT_ID_CAPACITY as int);
    assert(Flags(b[2]) == c.flags);
}

proof fn lemma_register_round_trip(r: RegisterModel, rest: Seq<u8>)
    requires
        encode_utf8(r.topic_name).len() <= TOPIC_NAME_CAPACITY,
        register_frame(r).len() <= MAX_FRAME_LEN,
    ensures
        parse_register(register_frame(r) + rest) == Ok::<(RegisterModel, int), CodecError>(
            (r, register_frame(r).len() as int),
        ),
{
    let t = encode_utf8(r.topic_name);
    let f = register_frame(r);
    let b = f + rest;
    let pre = seq![f[0], TAG_REGISTER];
    assert(b =~= pre + be16(r.topic_id) + (be16(r.msg_id) + t + rest));
    lemma_u16_at_be16(r.topic_id, pre, be16(r.msg_id) + t + rest);
    assert(b =~= (pre + be16(r.topic_id)) + be16(r.msg_id) + (t + rest));
    lemma_u16_at_be16(r.msg_id, pre + be16(r.topic_id), t + rest);
    assert(b.subrange(6, b.len() as int) =~= t + rest);
    lemma_text_round_trip(r.topic_name, rest, TOPIC_NAME_CAPACITY as int);
}

proof fn lemma_publish_round_trip(p: PublishModel, rest: Seq<u8>)
    requires
        encode_utf8(p.data).len() <= PUBLISH_DATA_CAPACITY,
        publish_frame(p).len() <= MAX_FRAME_LEN,
    ensures
        parse_publish(publish_frame(p) + rest) == Ok::<(PublishModel, int), CodecError>(
            (p, publish_frame(p).len() as int),
        ),
{
    let t = encode_utf8(p.data);
    let f = publish_frame(p);
    let b = f + rest;
    let pre = seq![f[0], TAG_PUBLISH, p.flags.0];
    assert(b =~= pre + be16(p.topic_id) + (be16(p.msg_id) + t + rest));
    lemma_u16_at_be16(p.topic_id, pre, be16(p.msg_id) + t + rest);
    assert(b =~= (pre + be16(p.topic_id)) + be16(p.msg_id) + (t + rest));
    lemma_u16_at_be16(p.msg_id, pre + be16(p.topic_id), t + rest);
    assert(b.subrange(7, b.len() as int) =~= t + rest);
    lemma_text_round_trip(p.data, rest, PUBLISH_DATA_CAPACITY as int);
    assert(Flags(b[2]) == p.flags);
}

proof fn lemma_ping_req_round_trip(p: PingReqModel, rest: Seq<u8>)
    requires
        encode_utf8(p.client_id).len() <= CLIENT_ID_CAPACITY,
    ensures
        parse_ping_req(ping_req_frame(p) + rest) == Ok::<(PingReqModel, int), CodecError>(
            (p, ping_req_frame(p).len() as int),
        ),
{
    let t = encode_utf8(p.client_id);
    let f = ping_req_frame(p);
    let b = f + rest;
    assert(b.subrange(2, b.len() as int) =~= t + rest);
    lemma_text_round_trip(p.client_id, rest, CLIENT_ID_CAPACITY as int);
}

proof fn lemma_reg_ack_round_trip(a: RegAck, rest: Seq<u8>)
    requires
        code_canonical(a.code),
    ensures
        parse_reg_ack(reg_ack_frame(a) + rest) == Ok::<(RegAck, int), CodecError>((a, 7)),
{
    lemma_code_round_trip(a.code);
    let b = reg_ack_frame(a) + rest;
    let pre = seq![7u8, TAG_REG_ACK];
    let code = seq![code_byte(a.code)];
    assert(b =~= pre + be16(a.topic_id) + (be16(a.msg_id) + code + rest));
    lemma_u16_at_be16(a.topic_id, pre, be16(a.msg_id) + code + rest);
    assert(b =~= (pre + be16(a.topic_id)) + be16(a.msg_id) + (code + rest));
    lemma_u16_at_be16(a.msg_id, pre + be16(a.topic_id), code + rest);
}

proof fn lemma_pub_ack_round_trip(a: PubAck, rest: Seq<u8>)
    requires
        code_canonical(a.code),
    ensures
        parse_pub_ack(pub_ack_frame(a) + rest) == Ok::<(PubAck, int), CodecError>((a, 7)),
{
    lemma_code_round_trip(a.code);
    let b = pub_ack_frame(a) + rest;
    let pre = seq![7u8, TAG_PUB_ACK];
    let code = seq![code_byte(a.code)];
    assert(b =~= pre + be16(a.topic_id) + (be16(a.msg_id) + code + rest));
    lemma_u16_at_be16(a.topic_id, pre, be16(a.msg_id) + code + rest);
    assert(b =~= (pre + be16(a.topic_id)) + be16(a.msg_id) + (code + rest));
    lemma_u16_at_be16(a.msg_id, pre + be16(a.topic_id), code + rest);
}

/// Round trip: a message that decoding can give back, and whose frame fits
/// its length byte, decodes from its own frame to itself, taking exactly the
/// frame, whatever bytes follow it.
#[verifier::spinoff_prover]
pub proof fn lemma_message_round_trip(m: MessageModel, rest: Seq<u8>)
    requires
        message_wf(m),
        message_frame(m).len() <= MAX_FRAME_LEN,
    ensures
        parse_message(message_frame(m) + rest) == Ok::<(MessageModel, int), CodecError>(
            (m, message_frame(m).len() as int),
        ),
{
    let b = message_frame(m) + rest;
    assert(b[1] == message_frame(m)[1]);
    match m {
        MessageModel::Connect(c) => lemma_connect_round_trip(c, rest),
        MessageModel::Register(r) => lemma_register_round_trip(r, rest),
        MessageModel::Publish(p) => lemma_publish_round_trip(p, rest),
        MessageModel::PingReq(p) => lemma_ping_req_round_trip(p, rest),
        MessageModel::ConnAck(c) => lemma_code_round_trip(c.code),
        MessageModel::RegAck(a) => lemma_reg_ack_round_trip(a, rest),
        MessageModel::PubAck(a) => lemma_pub_ack_round_trip(a, rest),
        _ => {},
    }
}

/// Round trip of an envelope: it decodes from its own frame to itself, taking
/// the envelope's header and the whole nested frame, whatever follows.
pub proof fn lemma_forwarded_round_trip(f: ForwardedMessageModel, rest: Seq<u8>)
    requires
        forwarded_wf(f),
        forwarded_fits(f),
    ensures
        parse_forwarded(forwarded_frame(f) + rest) == Ok::<(ForwardedMessageModel, int), CodecError>(
            (f, forwarded_frame(f).len() as int),
        ),
{
    let id = encode_utf8(f.wireless_node_id);
    let inner = message_frame(f.message);
    let b = forwarded_frame(f) + rest;
    assert(b.subrange(3, b.len() as int) =~= id + (inner + rest));
    lemma_text_round_trip(f.wireless_node_id, inner + rest, WIRELESS_NODE_ID_CAPACITY as int);
    assert(b.subrange(3 + id.len() as int, b.len() as int) =~= inner + rest);
    lemma_message_round_trip(f.message, rest);
}

/// Round trip through the dispatcher: an envelope comes back as an envelope
/// and a direct message as a direct message.
pub proof fn lemma_maybe_forwarded_round_trip(m: MaybeForwardedModel, rest: Seq<u8>)
    requires
        maybe_forwarded_wf(m),
    ensures
        parse_maybe_forwarded(maybe_forwarded_frame(m) + rest) == Ok::<(MaybeForwardedModel, int), CodecError>(
            (m, maybe_forwarded_frame(m).len() as int),
        ),
{
    let b = maybe_forwarded_frame(m) + rest;
    match m {
        MaybeForwardedModel::Forwarded(f) => {
            assert(b[1] == TAG_FORWARDED);
            lemma_forwarded_round_trip(f, rest);
        },
        MaybeForwardedModel::Direct(d) => {
            lemma_frame_tag(d);
            assert(b[1] == message_frame(d)[1]);
            lemma_message_round_trip(d, rest);
        },
    }
}

/// A message frame starts with its length and the tag of its variant, which is
/// never the envelope's tag.
pub proof fn lemma_frame_tag(m: MessageModel)
    ensures
        message_frame(m).len() >= 2,
        is_message_tag(message_frame(m)[1]),
        message_frame(m)[1] != TAG_FORWARDED,
{
}

/// Declared-length fidelity: the length byte of an encodable frame is the
/// frame's size.
pub proof fn lemma_declared_length(m: MessageModel)
    requires
        message_frame(m).len() <= MAX_FRAME_LEN,
    ensures
        message_frame(m)[0] as int == message_frame(m).len(),
{
}

/// An envelope's length byte counts its own header and node id; the nested
/// frame follows them and carries its own length.
pub proof fn lemma_forwarded_declared_length(f: ForwardedMessageModel)
    requires
        forwarded_fits(f),
    ensures
        forwarded_frame(f)[0] as int == forwarded_header(f).len(),
        forwarded_frame(f).subrange(forwarded_header(f).len() as int, forwarded_frame(f).len() as int)
            == message_frame(f.message),
        forwarded_frame(f)[forwarded_header(f).len() as int] as int == message_frame(f.message).len(),
{
    let h = forwarded_header(f);
    let inner = message_frame(f.message);
    assert(forwarded_frame(f).subrange(h.len() as int, forwarded_frame(f).len() as int) =~= inner);
    lemma_frame_tag(f.message);
    lemma_declared_length(f.message);
}

/// Truncation: an encodable message frame without its last byte is too short.
pub proof fn lemma_message_truncated(m: MessageModel)
    requires
        message_frame(m).len() <= MAX_FRAME_LEN,
    ensures
        parse_message(message_frame(m).drop_last()) == Err::<(MessageModel, int), CodecError>(
            CodecError::BufferTooShort,
        ),
{
    let f = message_frame(m);
    let b = f.drop_last();
    lemma_declared_length(m);
    lemma_frame_tag(m);
    if b.len() >= 2 {
        assert(b[0] == f[0]);
        assert(b[1] == f[1]);
    }
}

/// Truncation of an envelope: without its last byte, the nested frame is too
/// short.
pub proof fn lemma_forwarded_truncated(f: ForwardedMessageModel)
    requires
        forwarded_wf(f),
        forwarded_fits(f),
    ensures
        parse_forwarded(forwarded_frame(f).drop_last()) == Err::<(ForwardedMessageModel, int), CodecError>(
            CodecError::BufferTooShort,
        ),
{
    let id = encode_utf8(f.wireless_node_id);
    let inner = message_frame(f.message);
    let b = forwarded_frame(f).drop_last();
    lemma_frame_tag(f.message);
    assert(b =~= forwarded_header(f) + inner.drop_last());
    assert(b.subrange(3, b.len() as int) =~= id + inner.drop_last());
    lemma_text_round_trip(f.wireless_node_id, inner.drop_last(), WIRELESS_NODE_ID_CAPACITY as int);
    assert(b.subrange(3 + id.len() as int, b.len() as int) =~= inner.drop_last());
    lemma_message_truncated(f.message);
}

/// Truncation through the dispatcher, for an envelope and for a direct message.
pub proof fn lemma_maybe_forwarded_truncated(m: MaybeForwardedModel)
    requires
        maybe_forwarded_wf(m),
    ensures
        parse_maybe_forwarded(maybe_forwarded_frame(m).drop_last()) == Err::<
            (MaybeForwardedModel, int),
            CodecError,
        >(CodecError::BufferTooShort),
{
    let b = maybe_forwarded_frame(m).drop_last();
    match m {
        MaybeForwardedModel::Forwarded(f) => {
            lemma_frame_tag(f.message);
            assert(b[1] == TAG_FORWARDED);
            lemma_forwarded_truncated(f);
        },
        MaybeForwardedModel::Direct(d) => {
            lemma_frame_tag(d);
            if b.len() >= 2 {
                assert(b[1] == message_frame(d)[1]);
            }
            lemma_message_truncated(d);
        },
    }
}

/// Unknown tag: a frame whose second byte names no variant is refused by the
/// message decoder.
pub proof fn lemma_unknown_message_tag(b: Seq<u8>)
    requires
        b.len() >= 2,
        !is_message_tag(b[1]),
    ensures
        parse_message(b) == Err::<(MessageModel, int), CodecError>(CodecError::UnknownMessageType),
{
}

/// Unknown tag through the dispatcher: neither a variant nor the envelope.
pub proof fn lemma_unknown_tag(b: Seq<u8>)
    requires
        b.len() >= 2,
        !is_message_tag(b[1]),
        b[1] != TAG_FORWARDED,
    ensures
        parse_maybe_forwarded(b) == Err::<(MaybeForwardedModel, int), CodecError>(
            CodecError::UnknownMessageType,
        ),
{
}

/// Capacity of a client id: a connect or ping request frame that declares more
/// text than a client id holds is refused as too long.
pub proof fn lemma_client_id_capacity(b: Seq<u8>)
    requires
        2 <= b.len(),
        b[0] <= b.len(),
        (b[1] == TAG_CONNECT && b[0] as int - CONNECT_HEADER_LEN > CLIENT_ID_CAPACITY) || (b[1]
            == TAG_PING_REQ && b[0] as int - PING_REQ_HEADER_LEN > CLIENT_ID_CAPACITY),
    ensures
        parse_message(b) == Err::<(MessageModel, int), CodecError>(CodecError::TextTooLong),
{
}

/// Capacity of a node id: an envelope that declares a longer node id than a
/// node id holds is refused as too long.
pub proof fn lemma_node_id_capacity(b: Seq<u8>)
    requires
        2 <= b.len(),
        b[0] <= b.len(),
        b[1] == TAG_FORWARDED,
        b[0] as int - 3 > WIRELESS_NODE_ID_CAPACITY,
    ensures
        parse_maybe_forwarded(b) == Err::<(MaybeForwardedModel, int), CodecError>(
            CodecError::TextTooLong,
        ),
{
}

} // verus!
