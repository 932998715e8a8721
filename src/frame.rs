//! What the codec promises of a read or a write, over byte sequences.
use vstd::prelude::*;

use crate::cursor::{check_len, read_u8, splice};
use crate::error::CodecError;

verus! {

/// Largest frame that a one-byte length field can describe.
pub const MAX_FRAME_LEN: usize = 255;

/// A decode result seen through the views of what it produced.
pub open spec fn decoded<T: View>(r: Result<(T, usize), CodecError>) -> Result<(T::V, int), CodecError> {
    match r {
        Ok((t, n)) => Ok((t@, n as int)),
        Err(e) => Err(e),
    }
}

/// Writing `data` at offset `at` of `before` gave `after` and `r`: it is
/// written whole where it fits, `r` being its length, and nothing is touched
/// where it does not.
pub open spec fn stored_at(
    data: Seq<u8>,
    at: int,
    before: Seq<u8>,
    after: Seq<u8>,
    r: Result<usize, CodecError>,
) -> bool {
    if at + data.len() <= before.len() {
        r == Ok::<usize, CodecError>(data.len() as usize) && after == splice(before, at, data)
    } else {
        r == Err::<usize, CodecError>(CodecError::EncodeBufferTooSmall) && after == before
    }
}

/// As `stored_at`, for a frame whose length must also fit its one-byte length field.
pub open spec fn framed_at(
    frame: Seq<u8>,
    at: int,
    before: Seq<u8>,
    after: Seq<u8>,
    r: Result<usize, CodecError>,
) -> bool {
    if frame.len() > MAX_FRAME_LEN {
        r == Err::<usize, CodecError>(CodecError::LengthViolation) && after == before
    } else {
        stored_at(frame, at, before, after, r)
    }
}

/// `stored_at` the start of the buffer.
pub open spec fn stored(
    data: Seq<u8>,
    before: Seq<u8>,
    after: Seq<u8>,
    r: Result<usize, CodecError>,
) -> bool {
    stored_at(data, 0, before, after, r)
}

/// `framed_at` the start of the buffer.
pub open spec fn framed(
    frame: Seq<u8>,
    before: Seq<u8>,
    after: Seq<u8>,
    r: Result<usize, CodecError>,
) -> bool {
    framed_at(frame, 0, before, after, r)
}

/// The framing checks that every variant makes before its fields: the length
/// byte is there, the buffer holds that many bytes, and it is at least `min`.
/// On success, the declared length.
pub open spec fn parse_header(b: Seq<u8>, min: int) -> Result<int, CodecError> {
    if b.len() < 1 {
        Err(CodecError::BufferTooShort)
    } else if b.len() < b[0] {
        Err(CodecError::BufferTooShort)
    } else if (b[0] as int) < min {
        Err(CodecError::LengthViolation)
    } else {
        Ok(b[0] as int)
    }
}

/// Reads the length byte and makes the framing checks of `parse_header`.
pub fn read_header(bytes: &[u8], min: u8) -> (r: Result<usize, CodecError>)
    ensures
        match r {
            Ok(n) => parse_header(bytes@, min as int) == Ok::<int, CodecError>(n as int),
            Err(e) => parse_header(bytes@, min as int) == Err::<int, CodecError>(e),
        },
{
    let mut offset: usize = 0;
    let len = read_u8(bytes, &mut offset)?;
    check_len(bytes, len as usize)?;
    if len < min {
        return Err(CodecError::LengthViolation);
    }
    Ok(len as usize)
}

} // verus!
