//! Bounds-checked reads and writes at an offset into a byte buffer; every
//! other part of the codec reaches the bytes through these.
use vstd::prelude::*;
use vstd::slice::*;
use vstd::string::*;
use vstd::utf8::*;

use crate::error::CodecError;

verus! {

/// Big-endian bytes of a 16-bit value.
pub open spec fn be16(v: u16) -> Seq<u8> {
    seq![(v / 256) as u8, (v % 256) as u8]
}

/// The 16-bit big-endian value at `i`.
pub open spec fn u16_at(b: Seq<u8>, i: int) -> u16 {
    (b[i] as int * 256 + b[i + 1] as int) as u16
}

/// `b` with the bytes from `at` on replaced by `s`.
pub open spec fn splice(b: Seq<u8>, at: int, s: Seq<u8>) -> Seq<u8> {
    b.subrange(0, at) + s + b.subrange(at + s.len(), b.len() as int)
}

pub proof fn lemma_splice_concat(b: Seq<u8>, at: int, s1: Seq<u8>, s2: Seq<u8>)
    requires
        0 <= at,
        at + s1.len() + s2.len() <= b.len(),
    ensures
        splice(splice(b, at, s1), at + s1.len(), s2) == splice(b, at, s1 + s2),
{
    assert(splice(splice(b, at, s1), at + s1.len(), s2) =~= splice(b, at, s1 + s2));
}

pub proof fn lemma_u16_at_be16(v: u16, pre: Seq<u8>, post: Seq<u8>)
    ensures
        u16_at(pre + be16(v) + post, pre.len() as int) == v,
{
    let b = pre + be16(v) + post;
    assert(b[pre.len() as int] == (v / 256) as u8);
    assert(b[pre.len() as int + 1] == (v % 256) as u8);
}

/// Reads the byte at `*offset` and moves past it.
pub fn read_u8(bytes: &[u8], offset: &mut usize) -> (r: Result<u8, CodecError>)
    ensures
        *old(offset) < bytes@.len() ==> r == Ok::<u8, CodecError>(bytes@[*old(offset) as int])
            && *final(offset) == *old(offset) + 1,
        *old(offset) >= bytes@.len() ==> r == Err::<u8, CodecError>(CodecError::BufferTooShort)
            && *final(offset) == *old(offset),
{
    if *offset < bytes.len() {
        let v = bytes[*offset];
        *offset = *offset + 1;
        Ok(v)
    } else {
        Err(CodecError::BufferTooShort)
    }
}

/// Looks at the byte at `at` without consuming anything.
pub fn peek_u8(bytes: &[u8], at: usize) -> (r: Result<u8, CodecError>)
    ensures
        at < bytes@.len() ==> r == Ok::<u8, CodecError>(bytes@[at as int]),
        at >= bytes@.len() ==> r == Err::<u8, CodecError>(CodecError::BufferTooShort),
{
    if at < bytes.len() {
        Ok(bytes[at])
    } else {
        Err(CodecError::BufferTooShort)
    }
}

/// Reads a big-endian 16-bit value at `*offset` and moves past it.
pub fn read_u16be(bytes: &[u8], offset: &mut usize) -> (r: Result<u16, CodecError>)
    ensures
        *old(offset) + 2 <= bytes@.len() ==> r == Ok::<u16, CodecError>(
            u16_at(bytes@, *old(offset) as int),
        ) && *final(offset) == *old(offset) + 2,
        *old(offset) + 2 > bytes@.len() ==> r == Err::<u16, CodecError>(CodecError::BufferTooShort)
            && *final(offset) == *old(offset),
{
    if *offset < bytes.len() && bytes.len() - *offset >= 2 {
        let hi = bytes[*offset] as u16;
        let lo = bytes[*offset + 1] as u16;
        *offset = *offset + 2;
        Ok(hi * 256 + lo)
    } else {
        Err(CodecError::BufferTooShort)
    }
}

/// Checks that the buffer holds at least `len` bytes.
pub fn check_len(bytes: &[u8], len: usize) -> (r: Result<(), CodecError>)
    ensures
        r is Ok <==> len <= bytes@.len(),
        r is Err ==> r == Err::<(), CodecError>(CodecError::BufferTooShort),
{
    if bytes.len() < len {
        Err(CodecError::BufferTooShort)
    } else {
        Ok(())
    }
}

/// Relies on byte's `&str` reader with `Str::Len`: it takes exactly `len` bytes
/// from `offset` and hands them out as text when `core::str::from_utf8` accepts
/// them (which vstd's `valid_utf8` states), and fails otherwise.
#[verifier::external_body]
fn read_str<'a>(bytes: &'a [u8], offset: usize, len: usize) -> (r: Option<&'a str>)
    requires
        offset + len <= bytes@.len(),
    ensures
        r is Some <==> valid_utf8(bytes@.subrange(offset as int, offset + len)),
        r matches Some(s) ==> s.spec_bytes() == bytes@.subrange(offset as int, offset + len),
{
    let mut at = offset;
    byte::BytesExt::read_with::<&str>(bytes, &mut at, byte::ctx::Str::Len(len)).ok()
}

/// Reads `len` bytes at `*offset` as UTF-8 text and moves past them.
pub fn read_text<'a>(bytes: &'a [u8], offset: &mut usize, len: usize) -> (r: Result<&'a str, CodecError>)
    ensures
        *old(offset) + len > bytes@.len() ==> r == Err::<&str, CodecError>(CodecError::BufferTooShort),
        *old(offset) + len <= bytes@.len() ==> {
            let sub = bytes@.subrange(*old(offset) as int, *old(offset) + len);
            &&& valid_utf8(sub) ==> (r matches Ok(s) && s@ == decode_utf8(sub))
            &&& !valid_utf8(sub) ==> r == Err::<&str, CodecError>(CodecError::InvalidUtf8)
        },
        r is Ok ==> *final(offset) == *old(offset) + len,
        r is Err ==> *final(offset) == *old(offset),
{
    if *offset > bytes.len() || bytes.len() - *offset < len {
        return Err(CodecError::BufferTooShort);
    }
    match read_str(bytes, *offset, len) {
        Some(s) => {
            proof {
                broadcast use group_utf8_lib;
                assert(decode_utf8(encode_utf8(s@)) == s@);
            }
            *offset = *offset + len;
            Ok(s)
        },
        None => Err(CodecError::InvalidUtf8),
    }
}

/// Writes one byte at `*offset` and moves past it.
pub fn write_u8(bytes: &mut [u8], offset: &mut usize, v: u8) -> (r: Result<(), CodecError>)
    ensures
        *old(offset) < old(bytes)@.len() ==> r is Ok && final(bytes)@ == splice(
            old(bytes)@,
            *old(offset) as int,
            seq![v],
        ) && *final(offset) == *old(offset) + 1,
        *old(offset) >= old(bytes)@.len() ==> r == Err::<(), CodecError>(
            CodecError::EncodeBufferTooSmall,
        ) && final(bytes)@ == old(bytes)@ && *final(offset) == *old(offset),
{
    if *offset < bytes.len() {
        bytes[*offset] = v;
        proof {
            assert(bytes@ =~= splice(old(bytes)@, *old(offset) as int, seq![v]));
        }
        *offset = *offset + 1;
        Ok(())
    } else {
        Err(CodecError::EncodeBufferTooSmall)
    }
}

/// Writes a big-endian 16-bit value at `*offset` and moves past it.
pub fn write_u16be(bytes: &mut [u8], offset: &mut usize, v: u16) -> (r: Result<(), CodecError>)
    ensures
        *old(offset) + 2 <= old(bytes)@.len() ==> r is Ok && final(bytes)@ == splice(
            old(bytes)@,
            *old(offset) as int,
            be16(v),
        ) && *final(offset) == *old(offset) + 2,
        *old(offset) + 2 > old(bytes)@.len() ==> r == Err::<(), CodecError>(
            CodecError::EncodeBufferTooSmall,
        ) && final(bytes)@ == old(bytes)@ && *final(offset) == *old(offset),
{
    if *offset < bytes.len() && bytes.len() - *offset >= 2 {
        let start = *offset;
        bytes[start] = (v / 256) as u8;
        bytes[start + 1] = (v % 256) as u8;
        proof {
            assert(bytes@ =~= splice(old(bytes)@, start as int, be16(v)));
        }
        *offset = start + 2;
        Ok(())
    } else {
        Err(CodecError::EncodeBufferTooSmall)
    }
}

/// Copies `src` to `*offset` and moves past it.
pub fn write_slice(bytes: &mut [u8], offset: &mut usize, src: &[u8]) -> (r: Result<(), CodecError>)
    ensures
        *old(offset) + src@.len() <= old(bytes)@.len() ==> r is Ok && final(bytes)@ == splice(
            old(bytes)@,
            *old(offset) as int,
            src@,
        ) && *final(offset) == *old(offset) + src@.len(),
        *old(offset) + src@.len() > old(bytes)@.len() ==> r == Err::<(), CodecError>(
            CodecError::EncodeBufferTooSmall,
        ) && final(bytes)@ == old(bytes)@ && *final(offset) == *old(offset),
{
    if *offset > bytes.len() || bytes.len() - *offset < src.len() {
        return Err(CodecError::EncodeBufferTooSmall);
    }
    let start = *offset;
    let total = bytes.len();
    let mut i: usize = 0;
    while i < src.len()
        invariant
            start + src@.len() <= total,
            bytes@.len() == total,
            total == old(bytes)@.len(),
            i <= src@.len(),
            bytes@ == splice(old(bytes)@, start as int, src@.subrange(0, i as int)),
        decreases src@.len() - i,
    {
        bytes[start + i] = src[i];
        proof {
            assert(src@.subrange(0, i + 1) =~= src@.subrange(0, i as int).push(src@[i as int]));
        }
        i = i + 1;
        proof {
            assert(bytes@ =~= splice(old(bytes)@, start as int, src@.subrange(0, i as int)));
        }
    }
    proof {
        assert(src@.subrange(0, src@.len() as int) =~= src@);
    }
    *offset = start + src.len();
    Ok(())
}

} // verus!
