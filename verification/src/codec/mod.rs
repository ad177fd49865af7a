//! The wire codec: every value is written big-endian, strings and arrays
//! are preceded by their `i32` length.

use vstd::prelude::*;

use crate::error::IoError;

pub mod allocating;
pub mod api;
pub mod fixed_string;
pub mod packet;
pub mod primitives;
pub mod tuples;

pub use allocating::Vec2D;
pub use api::{ActionType, LineDir, MotorAxis, MotorDir, ScanDir, ScanMovementType};
pub use fixed_string::FixedString;
pub use packet::{Footer, Header};

verus! {

/// A value that can be appended to an outgoing byte buffer.
pub trait CodecWrite: DeepView + Sized {
    /// The bytes that encode the (abstract) value `v`.
    spec fn spec_encode(v: <Self as DeepView>::V) -> Seq<u8>;

    /// Appends the encoding of `self` to `out`.
    fn codec_write(&self, out: &mut Vec<u8>)
        ensures
            final(out)@ == old(out)@ + Self::spec_encode(self.deep_view()),
    ;

    /// The number of bytes that `codec_write` appends.
    fn codec_len(&self) -> (n: usize)
        requires
            Self::spec_encode(self.deep_view()).len() <= usize::MAX,
        ensures
            n == Self::spec_encode(self.deep_view()).len(),
    ;
}

/// A value that can be read from the front of a received byte sequence.
pub trait CodecRead: DeepView + Sized {
    /// The value at the front of `input` and the number of bytes it takes,
    /// or the reason why no value can be read there.
    spec fn spec_decode(input: Seq<u8>) -> Result<(<Self as DeepView>::V, nat), IoError>;

    /// A successful decode never consumes more than it was given.
    proof fn lemma_decode_len(input: Seq<u8>)
        ensures
            Self::spec_decode(input) matches Ok((_, n)) ==> n <= input.len(),
    ;

    /// Reads a value from `input` starting at byte `pos`, returning it with
    /// the position just after it.
    fn codec_read(input: &[u8], pos: usize) -> (r: Result<(Self, usize), IoError>)
        requires
            pos <= input@.len(),
        ensures
            match r {
                Ok((v, end)) => {
                    &&& pos <= end <= input@.len()
                    &&& Self::spec_decode(input@.skip(pos as int)) == Ok::<
                        (<Self as DeepView>::V, nat),
                        IoError,
                    >((v.deep_view(), (end - pos) as nat))
                },
                Err(e) => Self::spec_decode(input@.skip(pos as int)) == Err::<
                    (<Self as DeepView>::V, nat),
                    IoError,
                >(e),
            },
    ;
}

/// A type whose encoding reads back as the value that was written.
pub trait Codec: CodecRead + CodecWrite {
    /// The values for which reading back what was written is promised.
    spec fn spec_wf(v: <Self as DeepView>::V) -> bool;

    /// Decoding the encoding of `v`, followed by anything at all, yields `v`
    /// and consumes exactly the encoding.
    proof fn lemma_roundtrip(v: <Self as DeepView>::V, rest: Seq<u8>)
        requires
            Self::spec_wf(v),
        ensures
            Self::spec_decode(Self::spec_encode(v) + rest) == Ok::<
                (<Self as DeepView>::V, nat),
                IoError,
            >((v, Self::spec_encode(v).len())),
    ;
}

} // verus!
