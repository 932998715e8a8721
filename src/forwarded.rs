//! The envelope in which a gateway relays a wireless node's frame, and the
//! entry point for a frame that may or may not be such an envelope.
use vstd::prelude::*;
use vstd::slice::*;
use vstd::string::*;
use vstd::utf8::*;

use crate::cursor::{lemma_splice_concat, read_u8, write_slice, write_u8};
use crate::error::CodecError;
use crate::frame::{decoded, framed, parse_header, read_header, stored, MAX_FRAME_LEN};
use crate::message::{lemma_parse_message_len, message_frame, message_wf, parse_message, Message, MessageModel};
use crate::text::{parse_text, WirelessNodeId, WIRELESS_NODE_ID_CAPACITY};

verus! {

pub const TAG_FORWARDED: u8 = 0xfe;

/// Bytes of an envelope before the node id: length, tag and control byte.
pub const FORWARDED_HEADER_LEN: u8 = 3;

/// A message relayed for a wireless node. On the wire: a length byte that
/// counts the envelope's own header and node id only, the tag, the control
/// byte, the node id, and then the nested message as a complete frame.
#[derive(Clone, Debug, PartialEq, Eq)]
pub struct ForwardedMessage {
    pub ctrl: u8,
    pub wireless_node_id: WirelessNodeId,
    pub message: Message,
}

/// What a `ForwardedMessage` holds.
pub struct ForwardedMessageModel {
    pub ctrl: u8,
    pub wireless_node_id: Seq<char>,
    pub message: MessageModel,
}

impl View for ForwardedMessage {
    type V = ForwardedMessageModel;

    open spec fn view(&self) -> ForwardedMessageModel {
        ForwardedMessageModel {
            ctrl: self.ctrl,
            wireless_node_id: self.wireless_node_id@,
            message: self.message@,
        }
    }
}

/// The envelope's own header: everything before the nested frame.
pub open spec fn forwarded_header(f: ForwardedMessageModel) -> Seq<u8> {
    let id = encode_utf8(f.wireless_node_id);
    seq![(FORWARDED_HEADER_LEN as int + id.len()) as u8, TAG_FORWARDED, f.ctrl] + id
}

pub open spec fn forwarded_frame(f: ForwardedMessageModel) -> Seq<u8> {
    forwarded_header(f) + message_frame(f.message)
}

/// Whether both length bytes of an envelope can describe what they count.
pub open spec fn forwarded_fits(f: ForwardedMessageModel) -> bool {
    forwarded_header(f).len() <= MAX_FRAME_LEN && message_frame(f.message).len() <= MAX_FRAME_LEN
}

/// An envelope that decoding can give back: its node id within capacity and
/// its nested message one that decoding can give back.
pub open spec fn forwarded_wf(f: ForwardedMessageModel) -> bool {
    encode_utf8(f.wireless_node_id).len() <= WIRELESS_NODE_ID_CAPACITY && message_wf(f.message)
}

/// Writing the envelope `f` at the start of `before` gave `after` and `r`.
pub open spec fn forwarded_written(
    f: ForwardedMessageModel,
    before: Seq<u8>,
    after: Seq<u8>,
    r: Result<usize, CodecError>,
) -> bool {
    if !forwarded_fits(f) {
        r == Err::<usize, CodecError>(CodecError::LengthViolation) && after == before
    } else {
        stored(forwarded_frame(f), before, after, r)
    }
}

/// Decoding an envelope from the start of `b`. The tag byte is not looked at:
/// choosing this decoder is the dispatcher's work.
pub open spec fn parse_forwarded(b: Seq<u8>) -> Result<(ForwardedMessageModel, int), CodecError> {
    match parse_header(b, FORWARDED_HEADER_LEN as int) {
        Err(e) => Err(e),
        Ok(len) => match parse_text(b.subrange(3, b.len() as int), len - 3, WIRELESS_NODE_ID_CAPACITY as int) {
            Err(e) => Err(e),
            Ok((id, n)) => match parse_message(b.subrange(3 + n, b.len() as int)) {
                Err(e) => Err(e),
                Ok((m, k)) => Ok(
                    (ForwardedMessageModel { ctrl: b[2], wireless_node_id: id, message: m }, 3 + n + k),
                ),
            },
        },
    }
}

impl ForwardedMessage {
    /// Encodes the envelope and its nested frame at the start of `bytes`.
    pub fn try_write(&self, bytes: &mut [u8]) -> (r: Result<usize, CodecError>)
        ensures
            forwarded_written(self@, old(bytes)@, final(bytes)@, r),
    {
        let id = self.wireless_node_id.as_str().as_bytes();
        if id.len() > MAX_FRAME_LEN - FORWARDED_HEADER_LEN as usize {
            return Err(CodecError::LengthViolation);
        }
        let inner_len = self.message.encoded_len();
        if inner_len > MAX_FRAME_LEN {
            return Err(CodecError::LengthViolation);
        }
        let hdr = FORWARDED_HEADER_LEN as usize + id.len();
        if bytes.len() < hdr || bytes.len() - hdr < inner_len {
            return Err(CodecError::EncodeBufferTooSmall);
        }
        let ghost orig = bytes@;
        let mut offset: usize = 0;
        write_u8(bytes, &mut offset, hdr as u8)?;
        write_u8(bytes, &mut offset, TAG_FORWARDED)?;
        proof {
            lemma_splice_concat(orig, 0, seq![hdr as u8], seq![TAG_FORWARDED]);
        }
        write_u8(bytes, &mut offset, self.ctrl)?;
        proof {
            lemma_splice_concat(orig, 0, seq![hdr as u8] + seq![TAG_FORWARDED], seq![self.ctrl]);
        }
        write_slice(bytes, &mut offset, id)?;
        let ghost head = seq![hdr as u8] + seq![TAG_FORWARDED] + seq![self.ctrl] + id@;
        proof {
            lemma_splice_concat(orig, 0, seq![hdr as u8] + seq![TAG_FORWARDED] + seq![self.ctrl], id@);
            assert(head =~= forwarded_header(self@));
        }
        let n = self.message.write_at(bytes, offset)?;
        proof {
            lemma_splice_concat(orig, 0, head, message_frame(self@.message));
        }
        Ok(offset + n)
    }

    /// Decodes an envelope and its nested frame from the start of `bytes`.
    pub fn try_read(bytes: &[u8]) -> (r: Result<(ForwardedMessage, usize), CodecError>)
        ensures
            decoded(r) == parse_forwarded(bytes@),
    {
        let len = read_header(bytes, FORWARDED_HEADER_LEN)?;
        let mut offset: usize = 2;
        let ctrl = read_u8(bytes, &mut offset)?;
        let id_bytes = slice_subrange(bytes, 3, bytes.len());
        let (wireless_node_id, n) = WirelessNodeId::try_read(id_bytes, len - 3)?;
        let inner = slice_subrange(bytes, 3 + n, bytes.len());
        let (message, k) = Message::try_read(inner)?;
        proof {
            lemma_parse_message_len(inner@);
        }
        Ok((ForwardedMessage { ctrl, wireless_node_id, message }, 3 + n + k))
    }
}

/// A frame of unknown provenance: an envelope or a direct message.
#[derive(Clone, Debug, PartialEq, Eq)]
pub enum MaybeForwardedMessage {
    ForwardedMessage(ForwardedMessage),
    Message(Message),
}

/// What a `MaybeForwardedMessage` holds.
pub enum MaybeForwardedModel {
    Forwarded(ForwardedMessageModel),
    Direct(MessageModel),
}

impl View for MaybeForwardedMessage {
    type V = MaybeForwardedModel;

    open spec fn view(&self) -> MaybeForwardedModel {
        match self {
            MaybeForwardedMessage::ForwardedMessage(f) => MaybeForwardedModel::Forwarded(f@),
            MaybeForwardedMessage::Message(m) => MaybeForwardedModel::Direct(m@),
        }
    }
}

pub open spec fn maybe_forwarded_wf(m: MaybeForwardedModel) -> bool {
    match m {
        MaybeForwardedModel::Forwarded(f) => forwarded_wf(f) && forwarded_fits(f),
        MaybeForwardedModel::Direct(d) => message_wf(d) && message_frame(d).len() <= MAX_FRAME_LEN,
    }
}

pub open spec fn maybe_forwarded_frame(m: MaybeForwardedModel) -> Seq<u8> {
    match m {
        MaybeForwardedModel::Forwarded(f) => forwarded_frame(f),
        MaybeForwardedModel::Direct(d) => message_frame(d),
    }
}

/// Decoding a frame of unknown provenance: the byte at offset 1 alone decides
/// whether it is an envelope.
pub open spec fn parse_maybe_forwarded(b: Seq<u8>) -> Result<(MaybeForwardedModel, int), CodecError> {
    if b.len() < 2 {
        Err(CodecError::BufferTooShort)
    } else if b[1] == TAG_FORWARDED {
        match parse_forwarded(b) {
            Ok((f, n)) => Ok((MaybeForwardedModel::Forwarded(f), n)),
            Err(e) => Err(e),
        }
    } else {
        match parse_message(b) {
            Ok((m, n)) => Ok((MaybeForwardedModel::Direct(m), n)),
            Err(e) => Err(e),
        }
    }
}

impl MaybeForwardedMessage {
    pub fn try_write(&self, bytes: &mut [u8]) -> (r: Result<usize, CodecError>)
        ensures
            match self@ {
                MaybeForwardedModel::Forwarded(f) => forwarded_written(f, old(bytes)@, final(bytes)@, r),
                MaybeForwardedModel::Direct(m) => framed(message_frame(m), old(bytes)@, final(bytes)@, r),
            },
    {
        match self {
            MaybeForwardedMessage::ForwardedMessage(f) => f.try_write(bytes),
            MaybeForwardedMessage::Message(m) => m.try_write(bytes),
        }
    }

    /// Decodes an inbound frame, an envelope where its tag says so and a
    /// direct message otherwise.
    pub fn try_read(bytes: &[u8]) -> (r: Result<(MaybeForwardedMessage, usize), CodecError>)
        ensures
            decoded(r) == parse_maybe_forwarded(bytes@),
    {
        let tag = peek_tag(bytes)?;
        if tag == TAG_FORWARDED {
            let (f, n) = ForwardedMessage::try_read(bytes)?;
            Ok((MaybeForwardedMessage::ForwardedMessage(f), n))
        } else {
            let (m, n) = Message::try_read(bytes)?;
            Ok((MaybeForwardedMessage::Message(m), n))
        }
    }
}

/// The type tag of the frame at the start of `bytes`, nothing consumed.
fn peek_tag(bytes: &[u8]) -> (r: Result<u8, CodecError>)
    ensures
        bytes@.len() >= 2 ==> r == Ok::<u8, CodecError>(bytes@[1]),
        bytes@.len() < 2 ==> r == Err::<u8, CodecError>(CodecError::BufferTooShort),
{
    crate::cursor::check_len(bytes, 2)?;
    crate::cursor::peek_u8(bytes, 1)
}

impl From<ForwardedMessage> for MaybeForwardedMessage {
    fn from(msg: ForwardedMessage) -> (r: MaybeForwardedMessage) {
        MaybeForwardedMessage::ForwardedMessage(msg)
    }
}

impl vstd::std_specs::convert::FromSpecImpl<ForwardedMessage> for MaybeForwardedMessage {
    open spec fn obeys_from_spec() -> bool {
        true
    }

    open spec fn from_spec(msg: ForwardedMessage) -> MaybeForwardedMessage {
        MaybeForwardedMessage::ForwardedMessage(msg)
    }
}

impl From<Message> for MaybeForwardedMessage {
    fn from(msg: Message) -> (r: MaybeForwardedMessage) {
        MaybeForwardedMessage::Message(msg)
    }
}

impl vstd::std_specs::convert::FromSpecImpl<Message> for MaybeForwardedMessage {
    open spec fn obeys_from_spec() -> bool {
        true
    }

    open spec fn from_spec(msg: Message) -> MaybeForwardedMessage {
        MaybeForwardedMessage::Message(msg)
    }
}

} // verus!
