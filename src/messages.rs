//! The ten message variants. Each frame starts with its length (the length
//! byte included) and its type tag; then come the variant's fixed fields and,
//! for some, a text tail that runs to the end of the frame.
use vstd::prelude::*;
use vstd::slice::*;
use vstd::string::*;
use vstd::utf8::*;

use crate::cursor::{
    be16, lemma_splice_concat, read_u16be, read_u8, u16_at, write_slice, write_u16be, write_u8,
};
use crate::error::CodecError;
use crate::flags::Flags;
use crate::frame::{decoded, framed, framed_at, parse_header, read_header, MAX_FRAME_LEN};
use crate::return_code::{code_byte, code_of, ReturnCode};
use crate::text::{
    parse_text, ClientId, PublishData, TopicName, CLIENT_ID_CAPACITY, PUBLISH_DATA_CAPACITY,
    TOPIC_NAME_CAPACITY,
};

verus! {

pub const TAG_SEARCH_GW: u8 = 0x01;
pub const TAG_GW_INFO: u8 = 0x02;
pub const TAG_CONNECT: u8 = 0x04;
pub const TAG_CONN_ACK: u8 = 0x05;
pub const TAG_REGISTER: u8 = 0x0a;
pub const TAG_REG_ACK: u8 = 0x0b;
pub const TAG_PUBLISH: u8 = 0x0c;
pub const TAG_PUB_ACK: u8 = 0x0d;
pub const TAG_PING_REQ: u8 = 0x16;
pub const TAG_PING_RESP: u8 = 0x17;

/// Protocol id that a connect frame carries.
pub const PROTOCOL_ID: u8 = 0x01;

/// Bytes before the text tail, length and tag included.
pub const CONNECT_HEADER_LEN: u8 = 6;
pub const REGISTER_HEADER_LEN: u8 = 6;
pub const PUBLISH_HEADER_LEN: u8 = 7;
pub const PING_REQ_HEADER_LEN: u8 = 2;

// ---------------------------------------------------------------- SearchGw

#[derive(Clone, Copy, Debug, PartialEq, Eq, Structural)]
pub struct SearchGw {
    pub radius: u8,
}

impl View for SearchGw {
    type V = SearchGw;

    open spec fn view(&self) -> SearchGw {
        *self
    }
}

pub open spec fn search_gw_frame(m: SearchGw) -> Seq<u8> {
    seq![3u8, TAG_SEARCH_GW, m.radius]
}

pub open spec fn parse_search_gw(b: Seq<u8>) -> Result<(SearchGw, int), CodecError> {
    match parse_header(b, 3) {
        Ok(_) => Ok((SearchGw { radius: b[2] }, 3)),
        Err(e) => Err(e),
    }
}

impl SearchGw {
    /// Encodes the frame at the start of `bytes`.
    pub fn try_write(&self, bytes: &mut [u8]) -> (r: Result<usize, CodecError>)
        ensures
            framed(search_gw_frame(*self), old(bytes)@, final(bytes)@, r),
    {
        self.write_at(bytes, 0)
    }

    /// Encodes the frame at offset `start` of `bytes`.
    pub fn write_at(&self, bytes: &mut [u8], start: usize) -> (r: Result<usize, CodecError>)
        ensures
            framed_at(search_gw_frame(*self), start as int, old(bytes)@, final(bytes)@, r),
    {
        if start > bytes.len() || bytes.len() - start < 3 {
            return Err(CodecError::EncodeBufferTooSmall);
        }
        let ghost orig = bytes@;
        let mut offset: usize = start;
        write_u8(bytes, &mut offset, 3)?;
        write_u8(bytes, &mut offset, TAG_SEARCH_GW)?;
        write_u8(bytes, &mut offset, self.radius)?;
        proof {
            lemma_splice_concat(orig, start as int, seq![3u8], seq![TAG_SEARCH_GW]);
            lemma_splice_concat(orig, start as int, seq![3u8, TAG_SEARCH_GW], seq![self.radius]);
            assert(seq![3u8] + seq![TAG_SEARCH_GW] =~= seq![3u8, TAG_SEARCH_GW]);
            assert(seq![3u8, TAG_SEARCH_GW] + seq![self.radius] =~= search_gw_frame(*self));
        }
        Ok(offset - start)
    }

    pub fn try_read(bytes: &[u8]) -> (r: Result<(SearchGw, usize), CodecError>)
        ensures
            decoded(r) == parse_search_gw(bytes@),
    {
        read_header(bytes, 3)?;
        let mut offset: usize = 2;
        let radius = read_u8(bytes, &mut offset)?;
        Ok((SearchGw { radius }, offset))
    }
}


// ---------------------------------------------------------------- GwInfo

#[derive(Clone, Copy, Debug, PartialEq, Eq, Structural)]
pub struct GwInfo {
    pub gw_id: u8,
}

impl View for GwInfo {
    type V = GwInfo;

    open spec fn view(&self) -> GwInfo {
        *self
    }
}

pub open spec fn gw_info_frame(m: GwInfo) -> Seq<u8> {
    seq![3u8, TAG_GW_INFO, m.gw_id]
}

pub open spec fn parse_gw_info(b: Seq<u8>) -> Result<(GwInfo, int), CodecError> {
    match parse_header(b, 3) {
        Ok(_) => Ok((GwInfo { gw_id: b[2] }, 3)),
        Err(e) => Err(e),
    }
}

impl GwInfo {
    /// Encodes the frame at the start of `bytes`.
    pub fn try_write(&self, bytes: &mut [u8]) -> (r: Result<usize, CodecError>)
        ensures
            framed(gw_info_frame(*self), old(bytes)@, final(bytes)@, r),
    {
        self.write_at(bytes, 0)
    }

    /// Encodes the frame at offset `start` of `bytes`.
    pub fn write_at(&self, bytes: &mut [u8], start: usize) -> (r: Result<usize, CodecError>)
        ensures
            framed_at(gw_info_frame(*self), start as int, old(bytes)@, final(bytes)@, r),
    {
        if start > bytes.len() || bytes.len() - start < 3 {
            return Err(CodecError::EncodeBufferTooSmall);
        }
        let ghost orig = bytes@;
        let mut offset: usize = start;
        write_u8(bytes, &mut offset, 3)?;
        write_u8(bytes, &mut offset, TAG_GW_INFO)?;
        write_u8(bytes, &mut offset, self.gw_id)?;
        proof {
            lemma_splice_concat(orig, start as int, seq![3u8], seq![TAG_GW_INFO]);
            lemma_splice_concat(orig, start as int, seq![3u8, TAG_GW_INFO], seq![self.gw_id]);
            assert(seq![3u8] + seq![TAG_GW_INFO] =~= seq![3u8, TAG_GW_INFO]);
            assert(seq![3u8, TAG_GW_INFO] + seq![self.gw_id] =~= gw_info_frame(*self));
        }
        Ok(offset - start)
    }

    pub fn try_read(bytes: &[u8]) -> (r: Result<(GwInfo, usize), CodecError>)
        ensures
            decoded(r) == parse_gw_info(bytes@),
    {
        read_header(bytes, 3)?;
        let mut offset: usize = 2;
        let gw_id = read_u8(bytes, &mut offset)?;
        Ok((GwInfo { gw_id }, offset))
    }
}

// ---------------------------------------------------------------- ConnAck

#[derive(Clone, Copy, Debug, PartialEq, Eq, Structural)]
pub struct ConnAck {
    pub code: ReturnCode,
}

impl View for ConnAck {
    type V = ConnAck;

    open spec fn view(&self) -> ConnAck {
        *self
    }
}

pub open spec fn conn_ack_frame(m: ConnAck) -> Seq<u8> {
    seq![3u8, TAG_CONN_ACK, code_byte(m.code)]
}

pub open spec fn parse_conn_ack(b: Seq<u8>) -> Result<(ConnAck, int), CodecError> {
    match parse_header(b, 3) {
        Ok(_) => Ok((ConnAck { code: code_of(b[2]) }, 3)),
        Err(e) => Err(e),
    }
}

impl ConnAck {
    /// Encodes the frame at the start of `bytes`.
    pub fn try_write(&self, bytes: &mut [u8]) -> (r: Result<usize, CodecError>)
        ensures
            framed(conn_ack_frame(*self), old(bytes)@, final(bytes)@, r),
    {
        self.write_at(bytes, 0)
    }

    /// Encodes the frame at offset `start` of `bytes`.
    pub fn write_at(&self, bytes: &mut [u8], start: usize) -> (r: Result<usize, CodecError>)
        ensures
            framed_at(conn_ack_frame(*self), start as int, old(bytes)@, final(bytes)@, r),
    {
        if start > bytes.len() || bytes.len() - start < 3 {
            return Err(CodecError::EncodeBufferTooSmall);
        }
        let ghost orig = bytes@;
        let code = self.code.to_byte();
        let mut offset: usize = start;
        write_u8(bytes, &mut offset, 3)?;
        write_u8(bytes, &mut offset, TAG_CONN_ACK)?;
        write_u8(bytes, &mut offset, code)?;
        proof {
            lemma_splice_concat(orig, start as int, seq![3u8], seq![TAG_CONN_ACK]);
            lemma_splice_concat(orig, start as int, seq![3u8, TAG_CONN_ACK], seq![code]);
            assert(seq![3u8] + seq![TAG_CONN_ACK] =~= seq![3u8, TAG_CONN_ACK]);
            assert(seq![3u8, TAG_CONN_ACK] + seq![code] =~= conn_ack_frame(*self));
        }
        Ok(offset - start)
    }

    pub fn try_read(bytes: &[u8]) -> (r: Result<(ConnAck, usize), CodecError>)
        ensures
            decoded(r) == parse_conn_ack(bytes@),
    {
        read_header(bytes, 3)?;
        let mut offset: usize = 2;
        let code = ReturnCode::from_byte(read_u8(bytes, &mut offset)?);
        Ok((ConnAck { code }, offset))
    }
}

// ---------------------------------------------------------------- PingResp

#[derive(Clone, Copy, Debug, PartialEq, Eq, Structural)]
pub struct PingResp {}

impl View for PingResp {
    type V = PingResp;

    open spec fn view(&self) -> PingResp {
        *self
    }
}

pub open spec fn ping_resp_frame(m: PingResp) -> Seq<u8> {
    seq![2u8, TAG_PING_RESP]
}

pub open spec fn parse_ping_resp(b: Seq<u8>) -> Result<(PingResp, int), CodecError> {
    match parse_header(b, 2) {
        Ok(_) => Ok((PingResp {}, 2)),
        Err(e) => Err(e),
    }
}

impl PingResp {
    /// Encodes the frame at the start of `bytes`.
    pub fn try_write(&self, bytes: &mut [u8]) -> (r: Result<usize, CodecError>)
        ensures
            framed(ping_resp_frame(*self), old(bytes)@, final(bytes)@, r),
    {
        self.write_at(bytes, 0)
    }

    /// Encodes the frame at offset `start` of `bytes`.
    pub fn write_at(&self, bytes: &mut [u8], start: usize) -> (r: Result<usize, CodecError>)
        ensures
            framed_at(ping_resp_frame(*self), start as int, old(bytes)@, final(bytes)@, r),
    {
        if start > bytes.len() || bytes.len() - start < 2 {
            return Err(CodecError::EncodeBufferTooSmall);
        }
        let ghost orig = bytes@;
        let mut offset: usize = start;
        write_u8(bytes, &mut offset, 2)?;
        write_u8(bytes, &mut offset, TAG_PING_RESP)?;
        proof {
            lemma_splice_concat(orig, start as int, seq![2u8], seq![TAG_PING_RESP]);
            assert(seq![2u8] + seq![TAG_PING_RESP] =~= ping_resp_frame(*self));
        }
        Ok(offset - start)
    }

    pub fn try_read(bytes: &[u8]) -> (r: Result<(PingResp, usize), CodecError>)
        ensures
            decoded(r) == parse_ping_resp(bytes@),
    {
        read_header(bytes, 2)?;
        Ok((PingResp {}, 2))
    }
}

// ---------------------------------------------------------------- RegAck

#[derive(Clone, Copy, Debug, PartialEq, Eq, Structural)]
pub struct RegAck {
    pub topic_id: u16,
    pub msg_id: u16,
    pub code: ReturnCode,
}

impl View for RegAck {
    type V = RegAck;

    open spec fn view(&self) -> RegAck {
        *self
    }
}

pub open spec fn reg_ack_frame(m: RegAck) -> Seq<u8> {
    seq![7u8, TAG_REG_ACK] + be16(m.topic_id) + be16(m.msg_id) + seq![code_byte(m.code)]
}

pub open spec fn parse_reg_ack(b: Seq<u8>) -> Result<(RegAck, int), CodecError> {
    match parse_header(b, 7) {
        Ok(_) => Ok((RegAck { topic_id: u16_at(b, 2), msg_id: u16_at(b, 4), code: code_of(b[6]) }, 7)),
        Err(e) => Err(e),
    }
}

impl RegAck {
    /// Encodes the frame at the start of `bytes`.
    pub fn try_write(&self, bytes: &mut [u8]) -> (r: Result<usize, CodecError>)
        ensures
            framed(reg_ack_frame(*self), old(bytes)@, final(bytes)@, r),
    {
        self.write_at(bytes, 0)
    }

    /// Encodes the frame at offset `start` of `bytes`.
    pub fn write_at(&self, bytes: &mut [u8], start: usize) -> (r: Result<usize, CodecError>)
        ensures
            framed_at(reg_ack_frame(*self), start as int, old(bytes)@, final(bytes)@, r),
    {
        if start > bytes.len() || bytes.len() - start < 7 {
            return Err(CodecError::EncodeBufferTooSmall);
        }
        let ghost orig = bytes@;
        let code = self.code.to_byte();
        let mut offset: usize = start;
        write_u8(bytes, &mut offset, 7)?;
        write_u8(bytes, &mut offset, TAG_REG_ACK)?;
        let ghost w1 = seq![7u8, TAG_REG_ACK];
        proof {
            lemma_splice_concat(orig, start as int, seq![7u8], seq![TAG_REG_ACK]);
            assert(seq![7u8] + seq![TAG_REG_ACK] =~= w1);
        }
        write_u16be(bytes, &mut offset, self.topic_id)?;
        proof {
            lemma_splice_concat(orig, start as int, w1, be16(self.topic_id));
        }
        let ghost w2 = w1 + be16(self.topic_id);
        write_u16be(bytes, &mut offset, self.msg_id)?;
        proof {
            lemma_splice_concat(orig, start as int, w2, be16(self.msg_id));
        }
        let ghost w3 = w2 + be16(self.msg_id);
        write_u8(bytes, &mut offset, code)?;
        proof {
            lemma_splice_concat(orig, start as int, w3, seq![code]);
        }
        Ok(offset - start)
    }

    pub fn try_read(bytes: &[u8]) -> (r: Result<(RegAck, usize), CodecError>)
        ensures
            decoded(r) == parse_reg_ack(bytes@),
    {
        read_header(bytes, 7)?;
        let mut offset: usize = 2;
        let topic_id = read_u16be(bytes, &mut offset)?;
        let msg_id = read_u16be(bytes, &mut offset)?;
        let code = ReturnCode::from_byte(read_u8(bytes, &mut offset)?);
        Ok((RegAck { topic_id, msg_id, code }, offset))
    }
}

// ---------------------------------------------------------------- PubAck

#[derive(Clone, Copy, Debug, PartialEq, Eq, Structural)]
pub struct PubAck {
    pub topic_id: u16,
    pub msg_id: u16,
    pub code: ReturnCode,
}

impl View for PubAck {
    type V = PubAck;

    open spec fn view(&self) -> PubAck {
        *self
    }
}

pub open spec fn pub_ack_frame(m: PubAck) -> Seq<u8> {
    seq![7u8, TAG_PUB_ACK] + be16(m.topic_id) + be16(m.msg_id) + seq![code_byte(m.code)]
}

pub open spec fn parse_pub_ack(b: Seq<u8>) -> Result<(PubAck, int), CodecError> {
    match parse_header(b, 7) {
        Ok(_) => Ok((PubAck { topic_id: u16_at(b, 2), msg_id: u16_at(b, 4), code: code_of(b[6]) }, 7)),
        Err(e) => Err(e),
    }
}

impl PubAck {
    /// Encodes the frame at the start of `bytes`.
    pub fn try_write(&self, bytes: &mut [u8]) -> (r: Result<usize, CodecError>)
        ensures
            framed(pub_ack_frame(*self), old(bytes)@, final(bytes)@, r),
    {
        self.write_at(bytes, 0)
    }

    /// Encodes the frame at offset `start` of `bytes`.
    pub fn write_at(&self, bytes: &mut [u8], start: usize) -> (r: Result<usize, CodecError>)
        ensures
            framed_at(pub_ack_frame(*self), start as int, old(bytes)@, final(bytes)@, r),
    {
        if start > bytes.len() || bytes.len() - start < 7 {
            return Err(CodecError::EncodeBufferTooSmall);
        }
        let ghost orig = bytes@;
        let code = self.code.to_byte();
        let mut offset: usize = start;
        write_u8(bytes, &mut offset, 7)?;
        write_u8(bytes, &mut offset, TAG_PUB_ACK)?;
        let ghost w1 = seq![7u8, TAG_PUB_ACK];
        proof {
            lemma_splice_concat(orig, start as int, seq![7u8], seq![TAG_PUB_ACK]);
            assert(seq![7u8] + seq![TAG_PUB_ACK] =~= w1);
        }
        write_u16be(bytes, &mut offset, self.topic_id)?;
        proof {
            lemma_splice_concat(orig, start as int, w1, be16(self.topic_id));
        }
        let ghost w2 = w1 + be16(self.topic_id);
        write_u16be(bytes, &mut offset, self.msg_id)?;
        proof {
            lemma_splice_concat(orig, start as int, w2, be16(self.msg_id));
        }
        let ghost w3 = w2 + be16(self.msg_id);
        write_u8(bytes, &mut offset, code)?;
        proof {
            lemma_splice_concat(orig, start as int, w3, seq![code]);
        }
        Ok(offset - start)
    }

    pub fn try_read(bytes: &[u8]) -> (r: Result<(PubAck, usize), CodecError>)
        ensures
            decoded(r) == parse_pub_ack(bytes@),
    {
        read_header(bytes, 7)?;
        let mut offset: usize = 2;
        let topic_id = read_u16be(bytes, &mut offset)?;
        let msg_id = read_u16be(bytes, &mut offset)?;
        let code = ReturnCode::from_byte(read_u8(bytes, &mut offset)?);
        Ok((PubAck { topic_id, msg_id, code }, offset))
    }
}


// ---------------------------------------------------------------- Connect

/// A client's request to connect; its client id runs to the end of the frame.
#[derive(Clone, Debug, PartialEq, Eq)]
pub struct Connect {
    pub flags: Flags,
    pub duration: u16,
    pub client_id: ClientId,
}

/// What a `Connect` holds, its text as characters.
pub struct ConnectModel {
    pub flags: Flags,
    pub duration: u16,
    pub client_id: Seq<char>,
}

impl View for Connect {
    type V = ConnectModel;

    open spec fn view(&self) -> ConnectModel {
        ConnectModel { flags: self.flags, duration: self.duration, client_id: self.client_id@ }
    }
}

pub open spec fn connect_frame(m: ConnectModel) -> Seq<u8> {
    let t = encode_utf8(m.client_id);
    seq![(CONNECT_HEADER_LEN as int + t.len()) as u8, TAG_CONNECT] + seq![m.flags.0, PROTOCOL_ID] + be16(m.duration) + t
}

/// Decoding a connect frame; the protocol id byte is carried but not checked.
pub open spec fn parse_connect(b: Seq<u8>) -> Result<(ConnectModel, int), CodecError> {
    match parse_header(b, CONNECT_HEADER_LEN as int) {
        Err(e) => Err(e),
        Ok(len) => match parse_text(b.subrange(6, b.len() as int), len - 6, CLIENT_ID_CAPACITY as int) {
            Err(e) => Err(e),
            Ok((t, n)) => Ok((ConnectModel { flags: Flags(b[2]), duration: u16_at(b, 4), client_id: t }, 6 + n)),
        },
    }
}

impl Connect {
    /// Encodes the frame at the start of `bytes`.
    pub fn try_write(&self, bytes: &mut [u8]) -> (r: Result<usize, CodecError>)
        ensures
            framed(connect_frame(self@), old(bytes)@, final(bytes)@, r),
    {
        self.write_at(bytes, 0)
    }

    /// Encodes the frame at offset `start` of `bytes`.
    pub fn write_at(&self, bytes: &mut [u8], start: usize) -> (r: Result<usize, CodecError>)
        ensures
            framed_at(connect_frame(self@), start as int, old(bytes)@, final(bytes)@, r),
    {
        let text = self.client_id.as_str().as_bytes();
        if text.len() > MAX_FRAME_LEN - CONNECT_HEADER_LEN as usize {
            return Err(CodecError::LengthViolation);
        }
        let len = CONNECT_HEADER_LEN as usize + text.len();
        if start > bytes.len() || bytes.len() - start < len {
            return Err(CodecError::EncodeBufferTooSmall);
        }
        let ghost orig = bytes@;
        let mut offset: usize = start;
        write_u8(bytes, &mut offset, len as u8)?;
        write_u8(bytes, &mut offset, TAG_CONNECT)?;
        proof {
            lemma_splice_concat(orig, start as int, seq![len as u8], seq![TAG_CONNECT]);
            assert(seq![len as u8] + seq![TAG_CONNECT] =~= seq![len as u8, TAG_CONNECT]);
        }
        write_u8(bytes, &mut offset, self.flags.0)?;
        proof {
            lemma_splice_concat(orig, start as int, seq![len as u8, TAG_CONNECT], seq![self.flags.0]);
        }
        write_u8(bytes, &mut offset, PROTOCOL_ID)?;
        proof {
            lemma_splice_concat(orig, start as int, seq![len as u8, TAG_CONNECT] + seq![self.flags.0], seq![PROTOCOL_ID]);
        }
        write_u16be(bytes, &mut offset, self.duration)?;
        proof {
            lemma_splice_concat(orig, start as int, seq![len as u8, TAG_CONNECT] + seq![self.flags.0] + seq![PROTOCOL_ID], be16(self.duration));
        }
        write_slice(bytes, &mut offset, text)?;
        proof {
            lemma_splice_concat(orig, start as int, seq![len as u8, TAG_CONNECT] + seq![self.flags.0] + seq![PROTOCOL_ID] + be16(self.duration), text@);
            assert(seq![len as u8, TAG_CONNECT] + seq![self.flags.0] + seq![PROTOCOL_ID] + be16(self.duration) + text@ =~= connect_frame(self@));
        }
        Ok(offset - start)
    }

    pub fn try_read(bytes: &[u8]) -> (r: Result<(Connect, usize), CodecError>)
        ensures
            decoded(r) == parse_connect(bytes@),
    {
        let len = read_header(bytes, CONNECT_HEADER_LEN)?;
        let mut offset: usize = 2;
        let flags = Flags(read_u8(bytes, &mut offset)?);
        read_u8(bytes, &mut offset)?;
        let duration = read_u16be(bytes, &mut offset)?;
        let tail = slice_subrange(bytes, 6, bytes.len());
        let (client_id, n) = ClientId::try_read(tail, len - 6)?;
        Ok((Connect { flags, duration, client_id }, 6 + n))
    }
}

// ---------------------------------------------------------------- Register

/// Registration of a topic name under a topic id.
#[derive(Clone, Debug, PartialEq, Eq)]
pub struct Register {
    pub topic_id: u16,
    pub msg_id: u16,
    pub topic_name: TopicName,
}

/// What a `Register` holds, its text as characters.
pub struct RegisterModel {
    pub topic_id: u16,
    pub msg_id: u16,
    pub topic_name: Seq<char>,
}

impl View for Register {
    type V = RegisterModel;

    open spec fn view(&self) -> RegisterModel {
        RegisterModel { topic_id: self.topic_id, msg_id: self.msg_id, topic_name: self.topic_name@ }
    }
}

pub open spec fn register_frame(m: RegisterModel) -> Seq<u8> {
    let t = encode_utf8(m.topic_name);
    seq![(REGISTER_HEADER_LEN as int + t.len()) as u8, TAG_REGISTER] + be16(m.topic_id) + be16(m.msg_id) + t
}

pub open spec fn parse_register(b: Seq<u8>) -> Result<(RegisterModel, int), CodecError> {
    match parse_header(b, REGISTER_HEADER_LEN as int) {
        Err(e) => Err(e),
        Ok(len) => match parse_text(b.subrange(6, b.len() as int), len - 6, TOPIC_NAME_CAPACITY as int) {
            Err(e) => Err(e),
            Ok((t, n)) => Ok((RegisterModel { topic_id: u16_at(b, 2), msg_id: u16_at(b, 4), topic_name: t }, 6 + n)),
        },
    }
}

impl Register {
    /// Encodes the frame at the start of `bytes`.
    pub fn try_write(&self, bytes: &mut [u8]) -> (r: Result<usize, CodecError>)
        ensures
            framed(register_frame(self@), old(bytes)@, final(bytes)@, r),
    {
        self.write_at(bytes, 0)
    }

    /// Encodes the frame at offset `start` of `bytes`.
    pub fn write_at(&self, bytes: &mut [u8], start: usize) -> (r: Result<usize, CodecError>)
        ensures
            framed_at(register_frame(self@), start as int, old(bytes)@, final(bytes)@, r),
    {
        let text = self.topic_name.as_str().as_bytes();
        if text.len() > MAX_FRAME_LEN - REGISTER_HEADER_LEN as usize {
            return Err(CodecError::LengthViolation);
        }
        let len = REGISTER_HEADER_LEN as usize + text.len();
        if start > bytes.len() || bytes.len() - start < len {
            return Err(CodecError::EncodeBufferTooSmall);
        }
        let ghost orig = bytes@;
        let mut offset: usize = start;
        write_u8(bytes, &mut offset, len as u8)?;
        write_u8(bytes, &mut offset, TAG_REGISTER)?;
        proof {
            lemma_splice_concat(orig, start as int, seq![len as u8], seq![TAG_REGISTER]);
            assert(seq![len as u8] + seq![TAG_REGISTER] =~= seq![len as u8, TAG_REGISTER]);
        }
        write_u16be(bytes, &mut offset, self.topic_id)?;
        proof {
            lemma_splice_concat(orig, start as int, seq![len as u8, TAG_REGISTER], be16(self.topic_id));
        }
        write_u16be(bytes, &mut offset, self.msg_id)?;
        proof {
            lemma_splice_concat(orig, start as int, seq![len as u8, TAG_REGISTER] + be16(self.topic_id), be16(self.msg_id));
        }
        write_slice(bytes, &mut offset, text)?;
        proof {
            lemma_splice_concat(orig, start as int, seq![len as u8, TAG_REGISTER] + be16(self.topic_id) + be16(self.msg_id), text@);
            assert(seq![len as u8, TAG_REGISTER] + be16(self.topic_id) + be16(self.msg_id) + text@ =~= register_frame(self@));
        }
        Ok(offset - start)
    }

    pub fn try_read(bytes: &[u8]) -> (r: Result<(Register, usize), CodecError>)
        ensures
            decoded(r) == parse_register(bytes@),
    {
        let len = read_header(bytes, REGISTER_HEADER_LEN)?;
        let mut offset: usize = 2;
        let topic_id = read_u16be(bytes, &mut offset)?;
        let msg_id = read_u16be(bytes, &mut offset)?;
        let tail = slice_subrange(bytes, 6, bytes.len());
        let (topic_name, n) = TopicName::try_read(tail, len - 6)?;
        Ok((Register { topic_id, msg_id, topic_name }, 6 + n))
    }
}

// ---------------------------------------------------------------- Publish

/// A publish message; its data runs to the end of the frame.
#[derive(Clone, Debug, PartialEq, Eq)]
pub struct Publish {
    pub flags: Flags,
    pub topic_id: u16,
    pub msg_id: u16,
    pub data: PublishData,
}

/// What a `Publish` holds, its text as characters.
pub struct PublishModel {
    pub flags: Flags,
    pub topic_id: u16,
    pub msg_id: u16,
    pub data: Seq<char>,
}

impl View for Publish {
    type V = PublishModel;

    open spec fn view(&self) -> PublishModel {
        PublishModel { flags: self.flags, topic_id: self.topic_id, msg_id: self.msg_id, data: self.data@ }
    }
}

pub open spec fn publish_frame(m: PublishModel) -> Seq<u8> {
    let t = encode_utf8(m.data);
    seq![(PUBLISH_HEADER_LEN as int + t.len()) as u8, TAG_PUBLISH] + seq![m.flags.0] + be16(m.topic_id) + be16(m.msg_id) + t
}

pub open spec fn parse_publish(b: Seq<u8>) -> Result<(PublishModel, int), CodecError> {
    match parse_header(b, PUBLISH_HEADER_LEN as int) {
        Err(e) => Err(e),
        Ok(len) => match parse_text(b.subrange(7, b.len() as int), len - 7, PUBLISH_DATA_CAPACITY as int) {
            Err(e) => Err(e),
            Ok((t, n)) => Ok((PublishModel { flags: Flags(b[2]), topic_id: u16_at(b, 3), msg_id: u16_at(b, 5), data: t }, 7 + n)),
        },
    }
}

impl Publish {
    /// Encodes the frame at the start of `bytes`.
    pub fn try_write(&self, bytes: &mut [u8]) -> (r: Result<usize, CodecError>)
        ensures
            framed(publish_frame(self@), old(bytes)@, final(bytes)@, r),
    {
        self.write_at(bytes, 0)
    }

    /// Encodes the frame at offset `start` of `bytes`.
    pub fn write_at(&self, bytes: &mut [u8], start: usize) -> (r: Result<usize, CodecError>)
        ensures
            framed_at(publish_frame(self@), start as int, old(bytes)@, final(bytes)@, r),
    {
        let text = self.data.as_str().as_bytes();
        if text.len() > MAX_FRAME_LEN - PUBLISH_HEADER_LEN as usize {
            return Err(CodecError::LengthViolation);
        }
        let len = PUBLISH_HEADER_LEN as usize + text.len();
        if start > bytes.len() || bytes.len() - start < len {
            return Err(CodecError::EncodeBufferTooSmall);
        }
        let ghost orig = bytes@;
        let mut offset: usize = start;
        write_u8(bytes, &mut offset, len as u8)?;
        write_u8(bytes, &mut offset, TAG_PUBLISH)?;
        proof {
            lemma_splice_concat(orig, start as int, seq![len as u8], seq![TAG_PUBLISH]);
            assert(seq![len as u8] + seq![TAG_PUBLISH] =~= seq![len as u8, TAG_PUBLISH]);
        }
        write_u8(bytes, &mut offset, self.flags.0)?;
        proof {
            lemma_splice_concat(orig, start as int, seq![len as u8, TAG_PUBLISH], seq![self.flags.0]);
        }
        write_u16be(bytes, &mut offset, self.topic_id)?;
        proof {
            lemma_splice_concat(orig, start as int, seq![len as u8, TAG_PUBLISH] + seq![self.flags.0], be16(self.topic_id));
        }
        write_u16be(bytes, &mut offset, self.msg_id)?;
        proof {
            lemma_splice_concat(orig, start as int, seq![len as u8, TAG_PUBLISH] + seq![self.flags.0] + be16(self.topic_id), be16(self.msg_id));
        }
        write_slice(bytes, &mut offset, text)?;
        proof {
            lemma_splice_concat(orig, start as int, seq![len as u8, TAG_PUBLISH] + seq![self.flags.0] + be16(self.topic_id) + be16(self.msg_id), text@);
            assert(seq![len as u8, TAG_PUBLISH] + seq![self.flags.0] + be16(self.topic_id) + be16(self.msg_id) + text@ =~= publish_frame(self@));
        }
        Ok(offset - start)
    }

    pub fn try_read(bytes: &[u8]) -> (r: Result<(Publish, usize), CodecError>)
        ensures
            decoded(r) == parse_publish(bytes@),
    {
        let len = read_header(bytes, PUBLISH_HEADER_LEN)?;
        let mut offset: usize = 2;
        let flags = Flags(read_u8(bytes, &mut offset)?);
        let topic_id = read_u16be(bytes, &mut offset)?;
        let msg_id = read_u16be(bytes, &mut offset)?;
        let tail = slice_subrange(bytes, 7, bytes.len());
        let (data, n) = PublishData::try_read(tail, len - 7)?;
        Ok((Publish { flags, topic_id, msg_id, data }, 7 + n))
    }
}

// ---------------------------------------------------------------- PingReq

/// A keep-alive request; its client id, which may be empty, runs to the end of the frame.
#[derive(Clone, Debug, PartialEq, Eq)]
pub struct PingReq {
    pub client_id: ClientId,
}

/// What a `PingReq` holds, its text as characters.
pub struct PingReqModel {
    pub client_id: Seq<char>,
}

impl View for PingReq {
    type V = PingReqModel;

    open spec fn view(&self) -> PingReqModel {
        PingReqModel { client_id: self.client_id@ }
    }
}

pub open spec fn ping_req_frame(m: PingReqModel) -> Seq<u8> {
    let t = encode_utf8(m.client_id);
    seq![(PING_REQ_HEADER_LEN as int + t.len()) as u8, TAG_PING_REQ] + t
}

pub open spec fn parse_ping_req(b: Seq<u8>) -> Result<(PingReqModel, int), CodecError> {
    match parse_header(b, PING_REQ_HEADER_LEN as int) {
        Err(e) => Err(e),
        Ok(len) => match parse_text(b.subrange(2, b.len() as int), len - 2, CLIENT_ID_CAPACITY as int) {
            Err(e) => Err(e),
            Ok((t, n)) => Ok((PingReqModel { client_id: t }, 2 + n)),
        },
    }
}

impl PingReq {
    /// Encodes the frame at the start of `bytes`.
    pub fn try_write(&self, bytes: &mut [u8]) -> (r: Result<usize, CodecError>)
        ensures
            framed(ping_req_frame(self@), old(bytes)@, final(bytes)@, r),
    {
        self.write_at(bytes, 0)
    }

    /// Encodes the frame at offset `start` of `bytes`.
    pub fn write_at(&self, bytes: &mut [u8], start: usize) -> (r: Result<usize, CodecError>)
        ensures
            framed_at(ping_req_frame(self@), start as int, old(bytes)@, final(bytes)@, r),
    {
        let text = self.client_id.as_str().as_bytes();
        if text.len() > MAX_FRAME_LEN - PING_REQ_HEADER_LEN as usize {
            return Err(CodecError::LengthViolation);
        }
        let len = PING_REQ_HEADER_LEN as usize + text.len();
        if start > bytes.len() || bytes.len() - start < len {
            return Err(CodecError::EncodeBufferTooSmall);
        }
        let ghost orig = bytes@;
        let mut offset: usize = start;
        write_u8(bytes, &mut offset, len as u8)?;
        write_u8(bytes, &mut offset, TAG_PING_REQ)?;
        proof {
            lemma_splice_concat(orig, start as int, seq![len as u8], seq![TAG_PING_REQ]);
            assert(seq![len as u8] + seq![TAG_PING_REQ] =~= seq![len as u8, TAG_PING_REQ]);
        }
        write_slice(bytes, &mut offset, text)?;
        proof {
            lemma_splice_concat(orig, start as int, seq![len as u8, TAG_PING_REQ], text@);
            assert(seq![len as u8, TAG_PING_REQ] + text@ =~= ping_req_frame(self@));
        }
        Ok(offset - start)
    }

    pub fn try_read(bytes: &[u8]) -> (r: Result<(PingReq, usize), CodecError>)
        ensures
            decoded(r) == parse_ping_req(bytes@),
    {
        let len = read_header(bytes, PING_REQ_HEADER_LEN)?;
        let mut offset: usize = 2;
        let tail = slice_subrange(bytes, 2, bytes.len());
        let (client_id, n) = ClientId::try_read(tail, len - 2)?;
        Ok((PingReq { client_id }, 2 + n))
    }
}

} // verus!
