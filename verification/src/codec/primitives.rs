//! Fixed-width integers, booleans, sizes and the empty value.
//!
//! Every number travels big-endian. A `bool` travels as a `u32` (any
//! non-zero word reads as `true`), a `usize` as an `i32`. Floating-point
//! values travel as the big-endian bytes of their IEEE-754 bit pattern, so
//! the library carries an `f32` as the `u32` of its bits and an `f64` as
//! the `u64` of its bits.

use vstd::prelude::*;

use crate::codec::{Codec, CodecRead, CodecWrite};
use crate::error::IoError;

verus! {

/// The big-endian bytes of a 16-bit word.
pub open spec fn be16(v: u16) -> Seq<u8> {
    seq![(v >> 8u16) as u8, v as u8]
}

/// The 16-bit word held big-endian in the first two bytes of `b`.
pub open spec fn from_be16(b: Seq<u8>) -> u16 {
    ((b[0] as u16) << 8u16) | (b[1] as u16)
}

/// The big-endian bytes of a 32-bit word.
pub open spec fn be32(v: u32) -> Seq<u8> {
    seq![(v >> 24u32) as u8, (v >> 16u32) as u8, (v >> 8u32) as u8, v as u8]
}

/// The 32-bit word held big-endian in the first four bytes of `b`.
pub open spec fn from_be32(b: Seq<u8>) -> u32 {
    ((b[0] as u32) << 24u32) | ((b[1] as u32) << 16u32) | ((b[2] as u32) << 8u32) | (b[3] as u32)
}

/// The big-endian bytes of a 64-bit word.
pub open spec fn be64(v: u64) -> Seq<u8> {
    be32((v >> 32u64) as u32) + be32(v as u32)
}

/// The 64-bit word held big-endian in the first eight bytes of `b`.
pub open spec fn from_be64(b: Seq<u8>) -> u64 {
    ((from_be32(b) as u64) << 32u64) | (from_be32(b.skip(4)) as u64)
}

/// The wire form of a `usize`: the word of its `i32` conversion.
pub open spec fn usize_word(v: usize) -> u32 {
    (v as i32) as u32
}

/// Reading back the bytes of a 16-bit word gives the word.
pub proof fn lemma_be16_roundtrip(v: u16, rest: Seq<u8>)
    ensures
        from_be16(be16(v) + rest) == v,
{
    let b = be16(v) + rest;
    assert(b[0] == (v >> 8u16) as u8 && b[1] == v as u8);
    assert(((((v >> 8u16) as u8) as u16) << 8u16) | ((v as u8) as u16) == v) by (bit_vector);
}

/// Reading back the bytes of a 32-bit word gives the word.
pub proof fn lemma_be32_roundtrip(v: u32, rest: Seq<u8>)
    ensures
        from_be32(be32(v) + rest) == v,
{
    let b = be32(v) + rest;
    assert(b[0] == (v >> 24u32) as u8 && b[1] == (v >> 16u32) as u8 && b[2] == (v >> 8u32) as u8
        && b[3] == v as u8);
    assert((((((v >> 24u32) as u8) as u32) << 24u32) | ((((v >> 16u32) as u8) as u32) << 16u32)
        | ((((v >> 8u32) as u8) as u32) << 8u32) | ((v as u8) as u32)) == v) by (bit_vector);
}

/// Reading back the bytes of a 64-bit word gives the word.
pub proof fn lemma_be64_roundtrip(v: u64, rest: Seq<u8>)
    ensures
        from_be64(be64(v) + rest) == v,
{
    let hi = (v >> 32u64) as u32;
    let lo = v as u32;
    let b = be64(v) + rest;
    assert(b =~= be32(hi) + (be32(lo) + rest));
    lemma_be32_roundtrip(hi, be32(lo) + rest);
    assert(b.skip(4) =~= be32(lo) + rest);
    lemma_be32_roundtrip(lo, rest);
    assert((((((v >> 32u64) as u32) as u64) << 32u64) | ((v as u32) as u64)) == v) by (bit_vector);
}

/// Reads the 32-bit word at `pos`.
fn read_word(input: &[u8], pos: usize) -> (r: Result<(u32, usize), IoError>)
    requires
        pos <= input@.len(),
    ensures
        input@.len() - pos < 4 ==> r == Err::<(u32, usize), IoError>(IoError::UnexpectedEof),
        input@.len() - pos >= 4 ==> (r matches Ok((w, end)) && w == from_be32(
            input@.skip(pos as int),
        ) && end == pos + 4),
{
    if input.len() - pos < 4 {
        return Err(IoError::UnexpectedEof);
    }
    let v = ((input[pos] as u32) << 24u32) | ((input[pos + 1] as u32) << 16u32) | ((input[pos
        + 2] as u32) << 8u32) | (input[pos + 3] as u32);
    Ok((v, pos + 4))
}

/// Appends the big-endian bytes of a 32-bit word.
fn write_word(v: u32, out: &mut Vec<u8>)
    ensures
        final(out)@ == old(out)@ + be32(v),
{
    out.push((v >> 24u32) as u8);
    out.push((v >> 16u32) as u8);
    out.push((v >> 8u32) as u8);
    out.push(v as u8);
}

impl CodecWrite for u16 {
    open spec fn spec_encode(v: u16) -> Seq<u8> {
        be16(v)
    }

    fn codec_write(&self, out: &mut Vec<u8>) {
        let v = *self;
        out.push((v >> 8u16) as u8);
        out.push(v as u8);
    }

    fn codec_len(&self) -> usize {
        2
    }
}

impl CodecRead for u16 {
    open spec fn spec_decode(input: Seq<u8>) -> Result<(u16, nat), IoError> {
        if input.len() < 2 {
            Err(IoError::UnexpectedEof)
        } else {
            Ok((from_be16(input), 2))
        }
    }

    proof fn lemma_decode_len(input: Seq<u8>) {
    }

    fn codec_read(input: &[u8], pos: usize) -> (r: Result<(u16, usize), IoError>) {
        if input.len() - pos < 2 {
            return Err(IoError::UnexpectedEof);
        }
        let v = ((input[pos] as u16) << 8u16) | (input[pos + 1] as u16);
        Ok((v, pos + 2))
    }
}

impl Codec for u16 {
    open spec fn spec_wf(v: u16) -> bool {
        true
    }

    proof fn lemma_roundtrip(v: u16, rest: Seq<u8>) {
        lemma_be16_roundtrip(v, rest);
    }
}

impl CodecWrite for u32 {
    open spec fn spec_encode(v: u32) -> Seq<u8> {
        be32(v)
    }

    fn codec_write(&self, out: &mut Vec<u8>) {
        write_word(*self, out);
    }

    fn codec_len(&self) -> usize {
        4
    }
}

impl CodecRead for u32 {
    open spec fn spec_decode(input: Seq<u8>) -> Result<(u32, nat), IoError> {
        if input.len() < 4 {
            Err(IoError::UnexpectedEof)
        } else {
            Ok((from_be32(input), 4))
        }
    }

    proof fn lemma_decode_len(input: Seq<u8>) {
    }

    fn codec_read(input: &[u8], pos: usize) -> (r: Result<(u32, usize), IoError>) {
        read_word(input, pos)
    }
}

impl Codec for u32 {
    open spec fn spec_wf(v: u32) -> bool {
        true
    }

    proof fn lemma_roundtrip(v: u32, rest: Seq<u8>) {
        lemma_be32_roundtrip(v, rest);
    }
}

impl CodecWrite for u64 {
    open spec fn spec_encode(v: u64) -> Seq<u8> {
        be64(v)
    }

    fn codec_write(&self, out: &mut Vec<u8>) {
        let v = *self;
        write_word((v >> 32u64) as u32, out);
        write_word(v as u32, out);
    }

    fn codec_len(&self) -> usize {
        8
    }
}

impl CodecRead for u64 {
    open spec fn spec_decode(input: Seq<u8>) -> Result<(u64, nat), IoError> {
        if input.len() < 8 {
            Err(IoError::UnexpectedEof)
        } else {
            Ok((from_be64(input), 8))
        }
    }

    proof fn lemma_decode_len(input: Seq<u8>) {
    }

    fn codec_read(input: &[u8], pos: usize) -> (r: Result<(u64, usize), IoError>) {
        if input.len() - pos < 8 {
            return Err(IoError::UnexpectedEof);
        }
        let (hi, mid) = match read_word(input, pos) {
            Ok(x) => x,
            Err(e) => return Err(e),
        };
        let (lo, end) = match read_word(input, mid) {
            Ok(x) => x,
            Err(e) => return Err(e),
        };
        assert(input@.skip(pos as int).skip(4) =~= input@.skip(mid as int));
        Ok((((hi as u64) << 32u64) | (lo as u64), end))
    }
}

impl Codec for u64 {
    open spec fn spec_wf(v: u64) -> bool {
        true
    }

    proof fn lemma_roundtrip(v: u64, rest: Seq<u8>) {
        lemma_be64_roundtrip(v, rest);
    }
}

impl CodecWrite for i32 {
    open spec fn spec_encode(v: i32) -> Seq<u8> {
        be32(v as u32)
    }

    fn codec_write(&self, out: &mut Vec<u8>) {
        write_word(*self as u32, out);
    }

    fn codec_len(&self) -> usize {
        4
    }
}

impl CodecRead for i32 {
    open spec fn spec_decode(input: Seq<u8>) -> Result<(i32, nat), IoError> {
        if input.len() < 4 {
            Err(IoError::UnexpectedEof)
        } else {
            Ok((from_be32(input) as i32, 4))
        }
    }

    proof fn lemma_decode_len(input: Seq<u8>) {
    }

    fn codec_read(input: &[u8], pos: usize) -> (r: Result<(i32, usize), IoError>) {
        match read_word(input, pos) {
            Ok((w, end)) => Ok((w as i32, end)),
            Err(e) => Err(e),
        }
    }
}

impl Codec for i32 {
    open spec fn spec_wf(v: i32) -> bool {
        true
    }

    proof fn lemma_roundtrip(v: i32, rest: Seq<u8>) {
        lemma_be32_roundtrip(v as u32, rest);
        assert(((v as u32) as i32) == v) by (bit_vector);
    }
}

impl CodecWrite for bool {
    open spec fn spec_encode(v: bool) -> Seq<u8> {
        be32(
            if v {
                1
            } else {
                0
            },
        )
    }

    fn codec_write(&self, out: &mut Vec<u8>) {
        write_word(
            if *self {
                1
            } else {
                0
            },
            out,
        );
    }

    fn codec_len(&self) -> usize {
        4
    }
}

impl CodecRead for bool {
    open spec fn spec_decode(input: Seq<u8>) -> Result<(bool, nat), IoError> {
        if input.len() < 4 {
            Err(IoError::UnexpectedEof)
        } else {
            Ok((from_be32(input) != 0, 4))
        }
    }

    proof fn lemma_decode_len(input: Seq<u8>) {
    }

    fn codec_read(input: &[u8], pos: usize) -> (r: Result<(bool, usize), IoError>) {
        match read_word(input, pos) {
            Ok((w, end)) => Ok((w != 0, end)),
            Err(e) => Err(e),
        }
    }
}

impl Codec for bool {
    open spec fn spec_wf(v: bool) -> bool {
        true
    }

    proof fn lemma_roundtrip(v: bool, rest: Seq<u8>) {
        lemma_be32_roundtrip(
            if v {
                1
            } else {
                0
            },
            rest,
        );
    }
}

impl CodecWrite for usize {
    open spec fn spec_encode(v: usize) -> Seq<u8> {
        be32(usize_word(v))
    }

    fn codec_write(&self, out: &mut Vec<u8>) {
        write_word((*self as i32) as u32, out);
    }

    fn codec_len(&self) -> usize {
        4
    }
}

impl CodecRead for usize {
    /// A size is an `i32` on the wire; a negative one is refused.
    open spec fn spec_decode(input: Seq<u8>) -> Result<(usize, nat), IoError> {
        if input.len() < 4 {
            Err(IoError::UnexpectedEof)
        } else if (from_be32(input) as i32) < 0 {
            Err(IoError::NegativeSize(from_be32(input) as i32))
        } else {
            Ok(((from_be32(input) as i32) as usize, 4))
        }
    }

    proof fn lemma_decode_len(input: Seq<u8>) {
    }

    fn codec_read(input: &[u8], pos: usize) -> (r: Result<(usize, usize), IoError>) {
        match read_word(input, pos) {
            Ok((w, end)) => {
                let n = w as i32;
                if n < 0 {
                    Err(IoError::NegativeSize(n))
                } else {
                    Ok((n as usize, end))
                }
            },
            Err(e) => Err(e),
        }
    }
}

impl Codec for usize {
    /// Sizes above `i32::MAX` do not survive the trip.
    open spec fn spec_wf(v: usize) -> bool {
        v <= i32::MAX
    }

    proof fn lemma_roundtrip(v: usize, rest: Seq<u8>) {
        lemma_be32_roundtrip(usize_word(v), rest);
        assert(v <= 0x7fff_ffffusize ==> (((v as i32) as u32) as i32) as usize == v)
            by (bit_vector);
        assert(v <= 0x7fff_ffffusize ==> (((v as i32) as u32) as i32) >= 0) by (bit_vector);
    }
}

impl CodecWrite for () {
    open spec fn spec_encode(v: ()) -> Seq<u8> {
        seq![]
    }

    fn codec_write(&self, out: &mut Vec<u8>) {
        assert(out@ + seq![] =~= out@);
    }

    fn codec_len(&self) -> usize {
        0
    }
}

impl CodecRead for () {
    open spec fn spec_decode(input: Seq<u8>) -> Result<((), nat), IoError> {
        Ok(((), 0))
    }

    proof fn lemma_decode_len(input: Seq<u8>) {
    }

    fn codec_read(input: &[u8], pos: usize) -> (r: Result<((), usize), IoError>) {
        Ok(((), pos))
    }
}

impl Codec for () {
    open spec fn spec_wf(v: ()) -> bool {
        true
    }

    proof fn lemma_roundtrip(v: (), rest: Seq<u8>) {
    }
}

/// A 16-bit word travels high byte first: `v / 256`, then `v % 256`.
pub proof fn lemma_u16_wire(v: u16)
    ensures
        u16::spec_encode(v) == seq![(v / 256) as u8, (v % 256) as u8],
{
    assert((v >> 8u16) as u8 == (v / 256) as u8) by (bit_vector);
    assert(v as u8 == (v % 256) as u8) by (bit_vector);
}

/// A 32-bit word travels most significant byte first.
pub proof fn lemma_u32_wire(v: u32)
    ensures
        u32::spec_encode(v) == seq![
            (v / 0x100_0000) as u8,
            ((v / 0x1_0000) % 256) as u8,
            ((v / 256) % 256) as u8,
            (v % 256) as u8,
        ],
{
    assert((v >> 24u32) as u8 == (v / 0x100_0000) as u8) by (bit_vector);
    assert((v >> 16u32) as u8 == ((v / 0x1_0000) % 256) as u8) by (bit_vector);
    assert((v >> 8u32) as u8 == ((v / 256) % 256) as u8) by (bit_vector);
    assert(v as u8 == (v % 256) as u8) by (bit_vector);
}

/// A 64-bit word travels as its high 32-bit word, then its low one.
pub proof fn lemma_u64_wire(v: u64)
    ensures
        u64::spec_encode(v) == u32::spec_encode((v / 0x1_0000_0000) as u32) + u32::spec_encode(
            (v % 0x1_0000_0000) as u32,
        ),
{
    assert((v >> 32u64) as u32 == (v / 0x1_0000_0000) as u32) by (bit_vector);
    assert(v as u32 == (v % 0x1_0000_0000) as u32) by (bit_vector);
}

/// A 32-bit word read from four bytes, most significant first.
pub proof fn lemma_u32_read(b0: u8, b1: u8, b2: u8, b3: u8, rest: Seq<u8>)
    ensures
        u32::spec_decode(seq![b0, b1, b2, b3] + rest) == Ok::<(u32, nat), IoError>(
            ((b0 * 0x100_0000 + b1 * 0x1_0000 + b2 * 256 + b3) as u32, 4),
        ),
{
    let b = seq![b0, b1, b2, b3] + rest;
    assert(b[0] == b0 && b[1] == b1 && b[2] == b2 && b[3] == b3);
    assert(((b0 as u32) << 24u32) | ((b1 as u32) << 16u32) | ((b2 as u32) << 8u32) | (b3 as u32)
        == (b0 * 0x100_0000 + b1 * 0x1_0000 + b2 * 256 + b3) as u32) by (bit_vector);
}

/// An `i32` travels as the word of its two's-complement bits, and four
/// bytes read back as the `i32` whose bits they hold: the word itself below
/// 2^31, the word minus 2^32 from there on.
pub proof fn lemma_i32_wire(v: i32, w: u32, rest: Seq<u8>)
    ensures
        i32::spec_encode(v) == u32::spec_encode(
            if v >= 0 {
                v as u32
            } else {
                (v + 0x1_0000_0000) as u32
            },
        ),
        i32::spec_decode(u32::spec_encode(w) + rest) == Ok::<(i32, nat), IoError>(
            (if w < 0x8000_0000 {
                w as i32
            } else {
                (w - 0x1_0000_0000) as i32
            }, 4),
        ),
{
    assert(v as u32 == (if v >= 0 {
        v as u32
    } else {
        (v + 0x1_0000_0000) as u32
    })) by (bit_vector);
    lemma_be32_roundtrip(w, rest);
    assert(w as i32 == (if w < 0x8000_0000 {
        w as i32
    } else {
        (w - 0x1_0000_0000) as i32
    })) by (bit_vector);
}

/// `true` travels as the word 1 and `false` as 0; reading takes any
/// word with a non-zero byte as `true`.
pub proof fn lemma_bool_wire(v: bool, b0: u8, b1: u8, b2: u8, b3: u8, rest: Seq<u8>)
    ensures
        bool::spec_encode(v) == seq![0u8, 0u8, 0u8, if v { 1u8 } else { 0u8 }],
        bool::spec_decode(seq![b0, b1, b2, b3] + rest) == Ok::<(bool, nat), IoError>(
            (b0 != 0 || b1 != 0 || b2 != 0 || b3 != 0, 4),
        ),
{
    lemma_u32_wire(if v { 1u32 } else { 0u32 });
    let b = seq![b0, b1, b2, b3] + rest;
    assert(b[0] == b0 && b[1] == b1 && b[2] == b2 && b[3] == b3);
    assert((((b0 as u32) << 24u32) | ((b1 as u32) << 16u32) | ((b2 as u32) << 8u32) | (b3 as u32)
        != 0) == (b0 != 0 || b1 != 0 || b2 != 0 || b3 != 0)) by (bit_vector);
}

/// A size travels as the word of its `i32` value; a size that fits an
/// `i32` is sent as its own number, most significant byte first.
pub proof fn lemma_usize_wire(v: usize)
    requires
        v <= i32::MAX,
    ensures
        usize::spec_encode(v) == u32::spec_encode(v as u32),
{
    assert(v <= 0x7fff_ffffusize ==> (v as i32) as u32 == v as u32) by (bit_vector);
}

} // verus!
