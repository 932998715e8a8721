//! Per-message control attributes packed into one byte.
use vstd::prelude::*;

use crate::cursor::{read_u8, write_u8};
use crate::error::CodecError;
use crate::frame::{decoded, stored};

verus! {

/// The flags byte: dup (bit 7), qos (bits 6-5), retain (bit 4), will (bit 3),
/// clean session (bit 2) and topic id type (bits 1-0). No combination of
/// fields is rejected.
#[derive(Clone, Copy, Debug, Default, PartialEq, Eq, Structural)]
pub struct Flags(pub u8);

impl View for Flags {
    type V = Flags;

    open spec fn view(&self) -> Flags {
        *self
    }
}

impl Flags {
    pub fn dup(&self) -> (r: bool)
        ensures
            r == (self.0 & 0x80 != 0),
    {
        self.0 & 0x80 != 0
    }

    pub fn set_dup(&mut self, v: bool)
        ensures
            final(self).0 == if v { old(self).0 | 0x80 } else { old(self).0 & 0x7f },
    {
        if v {
            self.0 = self.0 | 0x80;
        } else {
            self.0 = self.0 & 0x7f;
        }
    }

    pub fn qos(&self) -> (r: u8)
        ensures
            r == (self.0 >> 5u8) & 0x03,
    {
        (self.0 >> 5u8) & 0x03
    }

    /// Sets the two qos bits to the low two bits of `v`.
    pub fn set_qos(&mut self, v: u8)
        ensures
            final(self).0 == (old(self).0 & 0x9f) | ((v & 0x03) << 5u8),
    {
        self.0 = (self.0 & 0x9f) | ((v & 0x03) << 5u8);
    }

    pub fn retain(&self) -> (r: bool)
        ensures
            r == (self.0 & 0x10 != 0),
    {
        self.0 & 0x10 != 0
    }

    pub fn set_retain(&mut self, v: bool)
        ensures
            final(self).0 == if v { old(self).0 | 0x10 } else { old(self).0 & 0xef },
    {
        if v {
            self.0 = self.0 | 0x10;
        } else {
            self.0 = self.0 & 0xef;
        }
    }

    pub fn will(&self) -> (r: bool)
        ensures
            r == (self.0 & 0x08 != 0),
    {
        self.0 & 0x08 != 0
    }

    pub fn set_will(&mut self, v: bool)
        ensures
            final(self).0 == if v { old(self).0 | 0x08 } else { old(self).0 & 0xf7 },
    {
        if v {
            self.0 = self.0 | 0x08;
        } else {
            self.0 = self.0 & 0xf7;
        }
    }

    pub fn clean_session(&self) -> (r: bool)
        ensures
            r == (self.0 & 0x04 != 0),
    {
        self.0 & 0x04 != 0
    }

    pub fn set_clean_session(&mut self, v: bool)
        ensures
            final(self).0 == if v { old(self).0 | 0x04 } else { old(self).0 & 0xfb },
    {
        if v {
            self.0 = self.0 | 0x04;
        } else {
            self.0 = self.0 & 0xfb;
        }
    }

    pub fn topic_id_type(&self) -> (r: u8)
        ensures
            r == self.0 & 0x03,
    {
        self.0 & 0x03
    }

    /// Sets the two topic id type bits to the low two bits of `v`.
    pub fn set_topic_id_type(&mut self, v: u8)
        ensures
            final(self).0 == (old(self).0 & 0xfc) | (v & 0x03),
    {
        self.0 = (self.0 & 0xfc) | (v & 0x03);
    }

    /// Writes the byte as it is.
    pub fn try_write(&self, bytes: &mut [u8]) -> (r: Result<usize, CodecError>)
        ensures
            stored(seq![self.0], old(bytes)@, final(bytes)@, r),
    {
        let mut offset: usize = 0;
        match write_u8(bytes, &mut offset, self.0) {
            Ok(()) => Ok(offset),
            Err(e) => Err(e),
        }
    }

    /// Reads the first byte as it is.
    pub fn try_read(bytes: &[u8]) -> (r: Result<(Flags, usize), CodecError>)
        ensures
            decoded(r) == if bytes@.len() >= 1 {
                Ok::<(Flags, int), CodecError>((Flags(bytes@[0]), 1))
            } else {
                Err::<(Flags, int), CodecError>(CodecError::BufferTooShort)
            },
    {
        let mut offset: usize = 0;
        let b = read_u8(bytes, &mut offset)?;
        Ok((Flags(b), offset))
    }
}

} // verus!
