use vstd::prelude::*;

verus! {

/// Why a frame could not be decoded or encoded.
#[derive(Clone, Copy, Debug, PartialEq, Eq, Structural)]
pub enum CodecError {
    /// Fewer bytes are available than the declared length or a fixed field needs.
    BufferTooShort,
    /// The type tag is not one this codec knows.
    UnknownMessageType,
    /// The declared length is below the variant's minimum, or a frame would not
    /// fit its one-byte length field.
    LengthViolation,
    /// A bounded text field holds more bytes than its capacity.
    TextTooLong,
    /// The bytes of a text field are not UTF-8.
    InvalidUtf8,
    /// The destination buffer has no room for the frame.
    EncodeBufferTooSmall,
}

} // verus!
