//! Primitive codec: exact-width big-endian reads and writes over byte
//! buffers, the protocol's nullable string, and the tagged-field
//! terminator. Every reader is proved against the spec-level decoders in
//! `wire`, every writer against the spec-level encoders.

use crate::wire::{i16_be, i16_from_be, i32_be, i32_from_be, i8_be, i8_from_be};
use vstd::prelude::*;
use vstd::utf8::*;

verus! {

/// Decode-time failure taxonomy. Every variant is fatal to the frame that
/// produced it: the byte stream can no longer be resynchronized.
#[derive(Debug, Clone, Copy, PartialEq, Eq, Structural)]
pub enum DecodeError {
    /// Fewer bytes remain than a declared length requires.
    Truncated,
    /// A string field is not valid UTF-8.
    InvalidEncoding,
    /// A request named a numeric api key outside the known set.
    UnknownApiKey(i16),
}

/// The signed 8-bit value at `pos`.
pub open spec fn spec_read_i8(s: Seq<u8>, pos: int) -> i8 {
    i8_from_be(s.subrange(pos, pos + 1))
}

/// The signed big-endian 16-bit value at `pos`.
pub open spec fn spec_read_i16(s: Seq<u8>, pos: int) -> i16 {
    i16_from_be(s.subrange(pos, pos + 2))
}

/// The signed big-endian 32-bit value at `pos`.
pub open spec fn spec_read_i32(s: Seq<u8>, pos: int) -> i32 {
    i32_from_be(s.subrange(pos, pos + 4))
}

/// Reads the signed 8-bit value at `pos`; `Truncated` when no byte remains.
pub fn read_i8(data: &[u8], pos: usize) -> (r: Result<(i8, usize), DecodeError>)
    ensures
        pos + 1 <= data@.len() ==> r == Ok::<(i8, usize), DecodeError>(
            (spec_read_i8(data@, pos as int), (pos + 1) as usize),
        ),
        pos + 1 > data@.len() ==> r == Err::<(i8, usize), DecodeError>(DecodeError::Truncated),
{
    if pos >= data.len() {
        Err(DecodeError::Truncated)
    } else {
        let b0 = data[pos];
        let v: i8 = if b0 < 0x80 {
            b0 as i8
        } else {
            ((b0 as i16) - 0x100) as i8
        };
        proof {
            assert(data@.subrange(pos as int, pos as int + 1)[0] == data@[pos as int]);
        }
        Ok((v, pos + 1))
    }
}

/// Reads the signed big-endian 16-bit value at `pos`; `Truncated` when
/// fewer than 2 bytes remain.
pub fn read_i16(data: &[u8], pos: usize) -> (r: Result<(i16, usize), DecodeError>)
    ensures
        pos + 2 <= data@.len() ==> r == Ok::<(i16, usize), DecodeError>(
            (spec_read_i16(data@, pos as int), (pos + 2) as usize),
        ),
        pos + 2 > data@.len() ==> r == Err::<(i16, usize), DecodeError>(DecodeError::Truncated),
{
    if data.len() < 2 || pos > data.len() - 2 {
        Err(DecodeError::Truncated)
    } else {
        let b0 = data[pos];
        let b1 = data[pos + 1];
        let u: u16 = ((b0 as u16) << 8) | (b1 as u16);
        let v: i16 = if u < 0x8000 {
            u as i16
        } else {
            ((u as i32) - 0x1_0000) as i16
        };
        proof {
            let sub = data@.subrange(pos as int, pos as int + 2);
            assert(sub[0] == data@[pos as int] && sub[1] == data@[pos as int + 1]);
        }
        Ok((v, pos + 2))
    }
}

/// Reads the signed big-endian 32-bit value at `pos`; `Truncated` when
/// fewer than 4 bytes remain.
pub fn read_i32(data: &[u8], pos: usize) -> (r: Result<(i32, usize), DecodeError>)
    ensures
        pos + 4 <= data@.len() ==> r == Ok::<(i32, usize), DecodeError>(
            (spec_read_i32(data@, pos as int), (pos + 4) as usize),
        ),
        pos + 4 > data@.len() ==> r == Err::<(i32, usize), DecodeError>(DecodeError::Truncated),
{
    if data.len() < 4 || pos > data.len() - 4 {
        Err(DecodeError::Truncated)
    } else {
        let b0 = data[pos];
        let b1 = data[pos + 1];
        let b2 = data[pos + 2];
        let b3 = data[pos + 3];
        let u: u32 = ((b0 as u32) << 24) | ((b1 as u32) << 16) | ((b2 as u32) << 8) | (b3 as u32);
        let v: i32 = if u < 0x8000_0000 {
            u as i32
        } else {
            ((u as i64) - 0x1_0000_0000) as i32
        };
        proof {
            let sub = data@.subrange(pos as int, pos as int + 4);
            assert(sub[0] == data@[pos as int] && sub[1] == data@[pos as int + 1] && sub[2]
                == data@[pos as int + 2] && sub[3] == data@[pos as int + 3]);
        }
        Ok((v, pos + 4))
    }
}

/// Appends the signed 8-bit value.
pub fn put_i8(buf: &mut Vec<u8>, v: i8)
    ensures
        final(buf)@ == old(buf)@ + i8_be(v),
{
    let u: u8 = if v >= 0 {
        v as u8
    } else {
        ((v as i16) + 0x100) as u8
    };
    buf.push(u);
    assert(buf@ =~= old(buf)@ + i8_be(v));
}

/// Appends the signed 16-bit value, big-endian.
pub fn put_i16(buf: &mut Vec<u8>, v: i16)
    ensures
        final(buf)@ == old(buf)@ + i16_be(v),
{
    let u: u16 = if v >= 0 {
        v as u16
    } else {
        ((v as i32) + 0x1_0000) as u16
    };
    proof {
        assert(u >> 8 < 256 && (u >> 8) & 0xff == u >> 8 && u & 0xff < 256) by (bit_vector);
    }
    buf.push((u >> 8) as u8);
    buf.push((u & 0xff) as u8);
    assert(buf@ =~= old(buf)@ + i16_be(v));
}

/// Appends the signed 32-bit value, big-endian.
pub fn put_i32(buf: &mut Vec<u8>, v: i32)
    ensures
        final(buf)@ == old(buf)@ + i32_be(v),
{
    let u: u32 = if v >= 0 {
        v as u32
    } else {
        ((v as i64) + 0x1_0000_0000) as u32
    };
    proof {
        assert(u >> 24 < 256 && (u >> 24) & 0xff == u >> 24 && (u >> 16) & 0xff < 256 && (u >> 8)
            & 0xff < 256 && u & 0xff < 256) by (bit_vector);
    }
    buf.push((u >> 24) as u8);
    buf.push(((u >> 16) & 0xff) as u8);
    buf.push(((u >> 8) & 0xff) as u8);
    buf.push((u & 0xff) as u8);
    assert(buf@ =~= old(buf)@ + i32_be(v));
}

/// The empty tagged-field section: a single zero byte.
pub open spec fn tag_buffer_bytes() -> Seq<u8> {
    seq![0u8]
}

/// Appends the empty tagged-field terminator.
pub fn put_tag_buffer(buf: &mut Vec<u8>)
    ensures
        final(buf)@ == old(buf)@ + tag_buffer_bytes(),
{
    buf.push(0);
    assert(buf@ =~= old(buf)@ + tag_buffer_bytes());
}

/// The nullable string at `pos`: a signed 16-bit length, then that many
/// UTF-8 bytes; length -1 stands for the absent string, read as empty.
pub open spec fn spec_parse_nullable_string(s: Seq<u8>, pos: int) -> Result<
    (Seq<char>, int),
    DecodeError,
> {
    if pos + 2 > s.len() {
        Err(DecodeError::Truncated)
    } else {
        let l = spec_read_i16(s, pos);
        if l == -1 {
            Ok((Seq::<char>::empty(), pos + 2))
        } else if l < 0 || pos + 2 + l > s.len() {
            Err(DecodeError::Truncated)
        } else {
            let bytes = s.subrange(pos + 2, pos + 2 + l);
            if valid_utf8(bytes) {
                Ok((decode_utf8(bytes), pos + 2 + l))
            } else {
                Err(DecodeError::InvalidEncoding)
            }
        }
    }
}

/// Relies on String::from_utf8: succeeds exactly on valid UTF-8 and then
/// returns the string those bytes decode to.
#[verifier::external_body]
fn string_from_utf8(bytes: Vec<u8>) -> (r: Option<String>)
    ensures
        r is Some <==> valid_utf8(bytes@),
        r matches Some(s) ==> s@ == decode_utf8(bytes@),
{
    String::from_utf8(bytes).ok()
}

/// Reads a nullable length-prefixed UTF-8 string at `pos`.
pub fn parse_nullable_string(data: &[u8], pos: usize) -> (r: Result<(String, usize), DecodeError>)
    ensures
        r matches Ok(p) ==> spec_parse_nullable_string(data@, pos as int) == Ok::<
            (Seq<char>, int),
            DecodeError,
        >((p.0@, p.1 as int)) && p.1 <= data@.len(),
        r matches Err(e) ==> spec_parse_nullable_string(data@, pos as int) == Err::<
            (Seq<char>, int),
            DecodeError,
        >(e),
{
    let dlen: usize = data.len();
    let (l, pos2) = match read_i16(data, pos) {
        Ok(p) => p,
        Err(e) => {
            return Err(e);
        },
    };
    if l == -1 {
        return Ok((String::new(), pos2));
    }
    if l < 0 {
        return Err(DecodeError::Truncated);
    }
    let n = l as usize;
    if n > dlen - pos2 {
        return Err(DecodeError::Truncated);
    }
    let mut bytes: Vec<u8> = Vec::new();
    let mut i: usize = 0;
    while i < n
        invariant
            i <= n,
            pos2 + n <= data@.len(),
            data@.len() <= usize::MAX,
            bytes@ =~= data@.subrange(pos2 as int, pos2 + i as int),
        decreases n - i,
    {
        bytes.push(data[pos2 + i]);
        i = i + 1;
        assert(bytes@ =~= data@.subrange(pos2 as int, pos2 + i as int));
    }
    match string_from_utf8(bytes) {
        Some(s) => Ok((s, pos2 + n)),
        None => Err(DecodeError::InvalidEncoding),
    }
}

} // verus!
