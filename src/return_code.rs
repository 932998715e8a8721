//! The one-byte status that acknowledgements carry.
use vstd::prelude::*;

use crate::cursor::{read_u8, write_u8};
use crate::error::CodecError;
use crate::frame::{decoded, stored};

verus! {

#[derive(Clone, Copy, Debug, PartialEq, Eq, Structural)]
pub enum RejectedReason {
    Congestion,
    InvalidTopicId,
    NotSupported,
    /// Any other code, kept as it came so that it survives a round trip.
    Reserved(u8),
}

#[derive(Clone, Copy, Debug, PartialEq, Eq, Structural)]
pub enum ReturnCode {
    Accepted,
    Rejected(RejectedReason),
}

impl View for ReturnCode {
    type V = ReturnCode;

    open spec fn view(&self) -> ReturnCode {
        *self
    }
}

/// The byte that stands for a code on the wire.
pub open spec fn code_byte(c: ReturnCode) -> u8 {
    match c {
        ReturnCode::Accepted => 0,
        ReturnCode::Rejected(RejectedReason::Congestion) => 1,
        ReturnCode::Rejected(RejectedReason::InvalidTopicId) => 2,
        ReturnCode::Rejected(RejectedReason::NotSupported) => 3,
        ReturnCode::Rejected(RejectedReason::Reserved(n)) => n,
    }
}

/// The code that a byte stands for; every byte stands for one.
pub open spec fn code_of(b: u8) -> ReturnCode {
    if b == 0 {
        ReturnCode::Accepted
    } else if b == 1 {
        ReturnCode::Rejected(RejectedReason::Congestion)
    } else if b == 2 {
        ReturnCode::Rejected(RejectedReason::InvalidTopicId)
    } else if b == 3 {
        ReturnCode::Rejected(RejectedReason::NotSupported)
    } else {
        ReturnCode::Rejected(RejectedReason::Reserved(b))
    }
}

/// A code that decoding can give back: a reserved code never reuses one of
/// the bytes of the named codes.
pub open spec fn code_canonical(c: ReturnCode) -> bool {
    match c {
        ReturnCode::Rejected(RejectedReason::Reserved(n)) => n > 3,
        _ => true,
    }
}

impl From<RejectedReason> for ReturnCode {
    fn from(reason: RejectedReason) -> (r: ReturnCode) {
        ReturnCode::Rejected(reason)
    }
}

impl vstd::std_specs::convert::FromSpecImpl<RejectedReason> for ReturnCode {
    open spec fn obeys_from_spec() -> bool {
        true
    }

    open spec fn from_spec(reason: RejectedReason) -> ReturnCode {
        ReturnCode::Rejected(reason)
    }
}

impl ReturnCode {
    pub fn to_byte(&self) -> (r: u8)
        ensures
            r == code_byte(*self),
    {
        match self {
            ReturnCode::Accepted => 0,
            ReturnCode::Rejected(RejectedReason::Congestion) => 1,
            ReturnCode::Rejected(RejectedReason::InvalidTopicId) => 2,
            ReturnCode::Rejected(RejectedReason::NotSupported) => 3,
            ReturnCode::Rejected(RejectedReason::Reserved(n)) => *n,
        }
    }

    pub fn from_byte(b: u8) -> (r: ReturnCode)
        ensures
            r == code_of(b),
    {
        match b {
            0 => ReturnCode::Accepted,
            1 => ReturnCode::Rejected(RejectedReason::Congestion),
            2 => ReturnCode::Rejected(RejectedReason::InvalidTopicId),
            3 => ReturnCode::Rejected(RejectedReason::NotSupported),
            n => ReturnCode::Rejected(RejectedReason::Reserved(n)),
        }
    }

    pub fn try_write(&self, bytes: &mut [u8]) -> (r: Result<usize, CodecError>)
        ensures
            stored(seq![code_byte(*self)], old(bytes)@, final(bytes)@, r),
    {
        let mut offset: usize = 0;
        match write_u8(bytes, &mut offset, self.to_byte()) {
            Ok(()) => Ok(offset),
            Err(e) => Err(e),
        }
    }

    /// Reads one byte; it fails only on an empty buffer.
    pub fn try_read(bytes: &[u8]) -> (r: Result<(ReturnCode, usize), CodecError>)
        ensures
            decoded(r) == if bytes@.len() >= 1 {
                Ok::<(ReturnCode, int), CodecError>((code_of(bytes@[0]), 1))
            } else {
                Err::<(ReturnCode, int), CodecError>(CodecError::BufferTooShort)
            },
    {
        let mut offset: usize = 0;
        let b = read_u8(bytes, &mut offset)?;
        Ok((ReturnCode::from_byte(b), offset))
    }
}

/// A reserved code above the named ones goes to its own byte and comes back
/// from it unchanged.
pub proof fn lemma_reserved_code_round_trip(n: u8)
    requires
        n > 3,
    ensures
        code_byte(ReturnCode::Rejected(RejectedReason::Reserved(n))) == n,
        code_of(code_byte(ReturnCode::Rejected(RejectedReason::Reserved(n)))) == ReturnCode::Rejected(
            RejectedReason::Reserved(n),
        ),
{
}

/// Every code that decoding can give back is given back from its own byte.
pub proof fn lemma_code_round_trip(c: ReturnCode)
    requires
        code_canonical(c),
    ensures
        code_of(code_byte(c)) == c,
{
}

} // verus!
