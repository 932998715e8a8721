//! Bounded text fields: UTF-8 text of at most a fixed number of bytes, held
//! in heapless strings. On the wire such a field has no length and no
//! terminator; its length always comes from the enclosing frame.
use vstd::prelude::*;
use vstd::slice::*;
use vstd::string::*;
use vstd::utf8::*;

use crate::cursor::{read_text, write_slice};
use crate::error::CodecError;
use crate::frame::{decoded, stored};

verus! {

broadcast use group_utf8_lib;

/// heapless's fixed-capacity string, opaque here: what one holds is named per
/// capacity below.
#[verifier::external_type_specification]
#[verifier::external_body]
pub struct ExHeaplessString<const N: usize>(heapless::String<N>);

/// Decoding `len` bytes at the start of `b` as text of at most `cap` bytes;
/// on success the text and the number of bytes taken.
pub open spec fn parse_text(b: Seq<u8>, len: int, cap: int) -> Result<(Seq<char>, int), CodecError> {
    if len > cap {
        Err(CodecError::TextTooLong)
    } else if len > b.len() {
        Err(CodecError::BufferTooShort)
    } else if !valid_utf8(b.subrange(0, len)) {
        Err(CodecError::InvalidUtf8)
    } else {
        Ok((decode_utf8(b.subrange(0, len)), len))
    }
}

/// What a heapless string of capacity 16 holds.
pub uninterp spec fn text16(s: heapless::String<16>) -> Seq<char>;

/// Relies on heapless::String::as_str: the text that the string holds.
#[verifier::external_body]
fn as_str16(s: &heapless::String<16>) -> (r: &str)
    ensures
        r@ == text16(*s),
{
    s.as_str()
}

/// Relies on heapless's FromStr for String (push_str into an empty string): it
/// holds the text where its UTF-8 bytes fit the capacity, and fails otherwise.
#[verifier::external_body]
fn from_str16(t: &str) -> (r: Result<heapless::String<16>, ()>)
    ensures
        r is Ok <==> t.spec_bytes().len() <= 16,
        r matches Ok(s) ==> text16(s) == t@,
{
    <heapless::String<16> as core::str::FromStr>::from_str(t)
}

/// What a heapless string of capacity 64 holds.
pub uninterp spec fn text64(s: heapless::String<64>) -> Seq<char>;

/// Relies on heapless::String::as_str: the text that the string holds.
#[verifier::external_body]
fn as_str64(s: &heapless::String<64>) -> (r: &str)
    ensures
        r@ == text64(*s),
{
    s.as_str()
}

/// Relies on heapless's FromStr for String (push_str into an empty string): it
/// holds the text where its UTF-8 bytes fit the capacity, and fails otherwise.
#[verifier::external_body]
fn from_str64(t: &str) -> (r: Result<heapless::String<64>, ()>)
    ensures
        r is Ok <==> t.spec_bytes().len() <= 64,
        r matches Ok(s) ==> text64(s) == t@,
{
    <heapless::String<64> as core::str::FromStr>::from_str(t)
}

/// What a heapless string of capacity 256 holds.
pub uninterp spec fn text256(s: heapless::String<256>) -> Seq<char>;

/// Relies on heapless::String::as_str: the text that the string holds.
#[verifier::external_body]
fn as_str256(s: &heapless::String<256>) -> (r: &str)
    ensures
        r@ == text256(*s),
{
    s.as_str()
}

/// Relies on heapless's FromStr for String (push_str into an empty string): it
/// holds the text where its UTF-8 bytes fit the capacity, and fails otherwise.
#[verifier::external_body]
fn from_str256(t: &str) -> (r: Result<heapless::String<256>, ()>)
    ensures
        r is Ok <==> t.spec_bytes().len() <= 256,
        r matches Ok(s) ==> text256(s) == t@,
{
    <heapless::String<256> as core::str::FromStr>::from_str(t)
}

/// Identifier of a wireless node, as a gateway forwards its frames.
#[derive(Debug, PartialEq, Eq, Hash)]
pub struct WirelessNodeId(heapless::String<16>);

/// Capacity of a `WirelessNodeId` in bytes.
pub const WIRELESS_NODE_ID_CAPACITY: usize = 16;

impl Clone for WirelessNodeId {
    fn clone(&self) -> (r: Self)
        ensures
            r@ == self@,
    {
        proof {
            use_type_invariant(self);
        }
        WirelessNodeId::from(self.as_str())
    }
}

impl Default for WirelessNodeId {
    fn default() -> (r: Self)
        ensures
            r@ == Seq::<char>::empty(),
    {
        WirelessNodeId::new()
    }
}

impl View for WirelessNodeId {
    type V = Seq<char>;

    closed spec fn view(&self) -> Seq<char> {
        text16(self.0)
    }
}

impl WirelessNodeId {
    #[verifier::type_invariant]
    spec fn fits(self) -> bool {
        encode_utf8(self@).len() <= WIRELESS_NODE_ID_CAPACITY
    }

    /// The empty text.
    pub fn new() -> (r: Self)
        ensures
            r@ == Seq::<char>::empty(),
    {
        proof {
            reveal_strlit("");
        }
        WirelessNodeId(from_str16("").unwrap())
    }

    /// The text `s`, which must fit the capacity.
    pub fn from(s: &str) -> (r: Self)
        requires
            s.spec_bytes().len() <= WIRELESS_NODE_ID_CAPACITY,
        ensures
            r@ == s@,
    {
        WirelessNodeId(from_str16(s).unwrap())
    }

    pub fn as_str(&self) -> (r: &str)
        ensures
            r@ == self@,
    {
        as_str16(&self.0)
    }

    /// Length of the text in bytes.
    pub fn len(&self) -> (r: usize)
        ensures
            r == encode_utf8(self@).len(),
            r <= WIRELESS_NODE_ID_CAPACITY,
    {
        proof {
            use_type_invariant(self);
        }
        self.as_str().len()
    }

    /// Decodes the first `len` bytes of `bytes` as the text.
    pub fn try_read(bytes: &[u8], len: usize) -> (r: Result<(Self, usize), CodecError>)
        ensures
            decoded(r) == parse_text(bytes@, len as int, WIRELESS_NODE_ID_CAPACITY as int),
    {
        if len > WIRELESS_NODE_ID_CAPACITY {
            return Err(CodecError::TextTooLong);
        }
        let mut offset: usize = 0;
        let s = read_text(bytes, &mut offset, len)?;
        proof {
            assert(s.spec_bytes() == bytes@.subrange(0, len as int));
        }
        match from_str16(s) {
            Ok(h) => Ok((WirelessNodeId(h), offset)),
            Err(()) => Err(CodecError::TextTooLong),
        }
    }

    /// Writes the text's bytes, and nothing else, at the start of `bytes`.
    pub fn try_write(&self, bytes: &mut [u8]) -> (r: Result<usize, CodecError>)
        ensures
            stored(encode_utf8(self@), old(bytes)@, final(bytes)@, r),
    {
        let data = self.as_str().as_bytes();
        let mut offset: usize = 0;
        match write_slice(bytes, &mut offset, data) {
            Ok(()) => Ok(offset),
            Err(e) => Err(e),
        }
    }
}

/// Identifier of a client.
#[derive(Debug, PartialEq, Eq, Hash)]
pub struct ClientId(heapless::String<64>);

/// Capacity of a `ClientId` in bytes.
pub const CLIENT_ID_CAPACITY: usize = 64;

impl Clone for ClientId {
    fn clone(&self) -> (r: Self)
        ensures
            r@ == self@,
    {
        proof {
            use_type_invariant(self);
        }
        ClientId::from(self.as_str())
    }
}

impl Default for ClientId {
    fn default() -> (r: Self)
        ensures
            r@ == Seq::<char>::empty(),
    {
        ClientId::new()
    }
}

impl View for ClientId {
    type V = Seq<char>;

    closed spec fn view(&self) -> Seq<char> {
        text64(self.0)
    }
}

impl ClientId {
    #[verifier::type_invariant]
    spec fn fits(self) -> bool {
        encode_utf8(self@).len() <= CLIENT_ID_CAPACITY
    }

    /// The empty text.
    pub fn new() -> (r: Self)
        ensures
            r@ == Seq::<char>::empty(),
    {
        proof {
            reveal_strlit("");
        }
        ClientId(from_str64("").unwrap())
    }

    /// The text `s`, which must fit the capacity.
    pub fn from(s: &str) -> (r: Self)
        requires
            s.spec_bytes().len() <= CLIENT_ID_CAPACITY,
        ensures
            r@ == s@,
    {
        ClientId(from_str64(s).unwrap())
    }

    pub fn as_str(&self) -> (r: &str)
        ensures
            r@ == self@,
    {
        as_str64(&self.0)
    }

    /// Length of the text in bytes.
    pub fn len(&self) -> (r: usize)
        ensures
            r == encode_utf8(self@).len(),
            r <= CLIENT_ID_CAPACITY,
    {
        proof {
            use_type_invariant(self);
        }
        self.as_str().len()
    }

    /// Decodes the first `len` bytes of `bytes` as the text.
    pub fn try_read(bytes: &[u8], len: usize) -> (r: Result<(Self, usize), CodecError>)
        ensures
            decoded(r) == parse_text(bytes@, len as int, CLIENT_ID_CAPACITY as int),
    {
        if len > CLIENT_ID_CAPACITY {
            return Err(CodecError::TextTooLong);
        }
        let mut offset: usize = 0;
        let s = read_text(bytes, &mut offset, len)?;
        proof {
            assert(s.spec_bytes() == bytes@.subrange(0, len as int));
        }
        match from_str64(s) {
            Ok(h) => Ok((ClientId(h), offset)),
            Err(()) => Err(CodecError::TextTooLong),
        }
    }

    /// Writes the text's bytes, and nothing else, at the start of `bytes`.
    pub fn try_write(&self, bytes: &mut [u8]) -> (r: Result<usize, CodecError>)
        ensures
            stored(encode_utf8(self@), old(bytes)@, final(bytes)@, r),
    {
        let data = self.as_str().as_bytes();
        let mut offset: usize = 0;
        match write_slice(bytes, &mut offset, data) {
            Ok(()) => Ok(offset),
            Err(e) => Err(e),
        }
    }
}

/// Name of a topic being registered.
#[derive(Debug, PartialEq, Eq, Hash)]
pub struct TopicName(heapless::String<256>);

/// Capacity of a `TopicName` in bytes.
pub const TOPIC_NAME_CAPACITY: usize = 256;

impl Clone for TopicName {
    fn clone(&self) -> (r: Self)
        ensures
            r@ == self@,
    {
        proof {
            use_type_invariant(self);
        }
        TopicName::from(self.as_str())
    }
}

impl Default for TopicName {
    fn default() -> (r: Self)
        ensures
            r@ == Seq::<char>::empty(),
    {
        TopicName::new()
    }
}

impl View for TopicName {
    type V = Seq<char>;

    closed spec fn view(&self) -> Seq<char> {
        text256(self.0)
    }
}

impl TopicName {
    #[verifier::type_invariant]
    spec fn fits(self) -> bool {
        encode_utf8(self@).len() <= TOPIC_NAME_CAPACITY
    }

    /// The empty text.
    pub fn new() -> (r: Self)
        ensures
            r@ == Seq::<char>::empty(),
    {
        proof {
            reveal_strlit("");
        }
        TopicName(from_str256("").unwrap())
    }

    /// The text `s`, which must fit the capacity.
    pub fn from(s: &str) -> (r: Self)
        requires
            s.spec_bytes().len() <= TOPIC_NAME_CAPACITY,
        ensures
            r@ == s@,
    {
        TopicName(from_str256(s).unwrap())
    }

    pub fn as_str(&self) -> (r: &str)
        ensures
            r@ == self@,
    {
        as_str256(&self.0)
    }

    /// Length of the text in bytes.
    pub fn len(&self) -> (r: usize)
        ensures
            r == encode_utf8(self@).len(),
            r <= TOPIC_NAME_CAPACITY,
    {
        proof {
            use_type_invariant(self);
        }
        self.as_str().len()
    }

    /// Decodes the first `len` bytes of `bytes` as the text.
    pub fn try_read(bytes: &[u8], len: usize) -> (r: Result<(Self, usize), CodecError>)
        ensures
            decoded(r) == parse_text(bytes@, len as int, TOPIC_NAME_CAPACITY as int),
    {
        if len > TOPIC_NAME_CAPACITY {
            return Err(CodecError::TextTooLong);
        }
        let mut offset: usize = 0;
        let s = read_text(bytes, &mut offset, len)?;
        proof {
            assert(s.spec_bytes() == bytes@.subrange(0, len as int));
        }
        match from_str256(s) {
            Ok(h) => Ok((TopicName(h), offset)),
            Err(()) => Err(CodecError::TextTooLong),
        }
    }

    /// Writes the text's bytes, and nothing else, at the start of `bytes`.
    pub fn try_write(&self, bytes: &mut [u8]) -> (r: Result<usize, CodecError>)
        ensures
            stored(encode_utf8(self@), old(bytes)@, final(bytes)@, r),
    {
        let data = self.as_str().as_bytes();
        let mut offset: usize = 0;
        match write_slice(bytes, &mut offset, data) {
            Ok(()) => Ok(offset),
            Err(e) => Err(e),
        }
    }
}

/// Payload of a publish message.
#[derive(Debug, PartialEq, Eq, Hash)]
pub struct PublishData(heapless::String<256>);

/// Capacity of a `PublishData` in bytes.
pub const PUBLISH_DATA_CAPACITY: usize = 256;

impl Clone for PublishData {
    fn clone(&self) -> (r: Self)
        ensures
            r@ == self@,
    {
        proof {
            use_type_invariant(self);
        }
        PublishData::from(self.as_str())
    }
}

impl Default for PublishData {
    fn default() -> (r: Self)
        ensures
            r@ == Seq::<char>::empty(),
    {
        PublishData::new()
    }
}

impl View for PublishData {
    type V = Seq<char>;

    closed spec fn view(&self) -> Seq<char> {
        text256(self.0)
    }
}

impl PublishData {
    #[verifier::type_invariant]
    spec fn fits(self) -> bool {
        encode_utf8(self@).len() <= PUBLISH_DATA_CAPACITY
    }

    /// The empty text.
    pub fn new() -> (r: Self)
        ensures
            r@ == Seq::<char>::empty(),
    {
        proof {
            reveal_strlit("");
        }
        PublishData(from_str256("").unwrap())
    }

    /// The text `s`, which must fit the capacity.
    pub fn from(s: &str) -> (r: Self)
        requires
            s.spec_bytes().len() <= PUBLISH_DATA_CAPACITY,
        ensures
            r@ == s@,
    {
        PublishData(from_str256(s).unwrap())
    }

    pub fn as_str(&self) -> (r: &str)
        ensures
            r@ == self@,
    {
        as_str256(&self.0)
    }

    /// Length of the text in bytes.
    pub fn len(&self) -> (r: usize)
        ensures
            r == encode_utf8(self@).len(),
            r <= PUBLISH_DATA_CAPACITY,
    {
        proof {
            use_type_invariant(self);
        }
        self.as_str().len()
    }

    /// Decodes the first `len` bytes of `bytes` as the text.
    pub fn try_read(bytes: &[u8], len: usize) -> (r: Result<(Self, usize), CodecError>)
        ensures
            decoded(r) == parse_text(bytes@, len as int, PUBLISH_DATA_CAPACITY as int),
    {
        if len > PUBLISH_DATA_CAPACITY {
            return Err(CodecError::TextTooLong);
        }
        let mut offset: usize = 0;
        let s = read_text(bytes, &mut offset, len)?;
        proof {
            assert(s.spec_bytes() == bytes@.subrange(0, len as int));
        }
        match from_str256(s) {
            Ok(h) => Ok((PublishData(h), offset)),
            Err(()) => Err(CodecError::TextTooLong),
        }
    }

    /// Writes the text's bytes, and nothing else, at the start of `bytes`.
    pub fn try_write(&self, bytes: &mut [u8]) -> (r: Result<usize, CodecError>)
        ensures
            stored(encode_utf8(self@), old(bytes)@, final(bytes)@, r),
    {
        let data = self.as_str().as_bytes();
        let mut offset: usize = 0;
        match write_slice(bytes, &mut offset, data) {
            Ok(()) => Ok(offset),
            Err(e) => Err(e),
        }
    }
}

} // verus!
