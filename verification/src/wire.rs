//! Wire-level number representation: big-endian two's-complement encodings
//! of the fixed-width signed integers the protocol uses, as spec functions,
//! with the round-trip lemmas the codec is proved against.

use vstd::prelude::*;

verus! {

// Two's-complement correspondence between the signed wire types and their
// unsigned bit patterns.

pub open spec fn u8_of_i8(v: i8) -> u8 {
    if v >= 0 {
        v as u8
    } else {
        (v + 0x100) as u8
    }
}

pub open spec fn i8_of_u8(u: u8) -> i8 {
    if u < 0x80 {
        u as i8
    } else {
        (u - 0x100) as i8
    }
}

pub open spec fn u16_of_i16(v: i16) -> u16 {
    if v >= 0 {
        v as u16
    } else {
        (v + 0x1_0000) as u16
    }
}

pub open spec fn i16_of_u16(u: u16) -> i16 {
    if u < 0x8000 {
        u as i16
    } else {
        (u - 0x1_0000) as i16
    }
}

pub open spec fn u32_of_i32(v: i32) -> u32 {
    if v >= 0 {
        v as u32
    } else {
        (v + 0x1_0000_0000) as u32
    }
}

pub open spec fn i32_of_u32(u: u32) -> i32 {
    if u < 0x8000_0000 {
        u as i32
    } else {
        (u - 0x1_0000_0000) as i32
    }
}

// Big-endian byte sequences for the unsigned bit patterns.

pub open spec fn be16_bytes(x: u16) -> Seq<u8> {
    seq![((x >> 8) & 0xff) as u8, (x & 0xff) as u8]
}

pub open spec fn be16_val(s: Seq<u8>) -> u16
    recommends
        s.len() == 2,
{
    ((s[0] as u16) << 8) | (s[1] as u16)
}

pub open spec fn be32_bytes(x: u32) -> Seq<u8> {
    seq![
        ((x >> 24) & 0xff) as u8,
        ((x >> 16) & 0xff) as u8,
        ((x >> 8) & 0xff) as u8,
        (x & 0xff) as u8,
    ]
}

pub open spec fn be32_val(s: Seq<u8>) -> u32
    recommends
        s.len() == 4,
{
    ((s[0] as u32) << 24) | ((s[1] as u32) << 16) | ((s[2] as u32) << 8) | (s[3] as u32)
}

// The signed encodings the protocol speaks of: big-endian two's complement.

pub open spec fn i8_be(v: i8) -> Seq<u8> {
    seq![u8_of_i8(v)]
}

pub open spec fn i8_from_be(s: Seq<u8>) -> i8
    recommends
        s.len() == 1,
{
    i8_of_u8(s[0])
}

pub open spec fn i16_be(v: i16) -> Seq<u8> {
    be16_bytes(u16_of_i16(v))
}

pub open spec fn i16_from_be(s: Seq<u8>) -> i16
    recommends
        s.len() == 2,
{
    i16_of_u16(be16_val(s))
}

pub open spec fn i32_be(v: i32) -> Seq<u8> {
    be32_bytes(u32_of_i32(v))
}

pub open spec fn i32_from_be(s: Seq<u8>) -> i32
    recommends
        s.len() == 4,
{
    i32_of_u32(be32_val(s))
}

// Round-trip lemmas: decoding an encoded value gives the value back.

pub proof fn lemma_i16_u16_round(v: i16)
    ensures
        i16_of_u16(u16_of_i16(v)) == v,
{
}

pub proof fn lemma_i32_u32_round(v: i32)
    ensures
        i32_of_u32(u32_of_i32(v)) == v,
{
}

pub proof fn lemma_be16_round(x: u16)
    ensures
        be16_bytes(x).len() == 2,
        be16_val(be16_bytes(x)) == x,
{
    assert((x >> 8) & 0xff < 256 && x & 0xff < 256) by (bit_vector);
    assert((((x >> 8) & 0xff) << 8) | (x & 0xff) == x) by (bit_vector);
}

pub proof fn lemma_be32_round(x: u32)
    ensures
        be32_bytes(x).len() == 4,
        be32_val(be32_bytes(x)) == x,
{
    assert((x >> 24) & 0xff < 256 && (x >> 16) & 0xff < 256 && (x >> 8) & 0xff < 256 && x & 0xff
        < 256) by (bit_vector);
    assert((((x >> 24) & 0xff) << 24) | (((x >> 16) & 0xff) << 16) | (((x >> 8) & 0xff) << 8) | (x
        & 0xff) == x) by (bit_vector);
}

pub proof fn lemma_i16_be_round(v: i16)
    ensures
        i16_be(v).len() == 2,
        i16_from_be(i16_be(v)) == v,
{
    lemma_be16_round(u16_of_i16(v));
    lemma_i16_u16_round(v);
}

pub proof fn lemma_i32_be_round(v: i32)
    ensures
        i32_be(v).len() == 4,
        i32_from_be(i32_be(v)) == v,
{
    lemma_be32_round(u32_of_i32(v));
    lemma_i32_u32_round(v);
}

} // verus!
