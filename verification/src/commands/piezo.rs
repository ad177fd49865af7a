//! Piezo commands.

use vstd::prelude::*;

use crate::codec::{Codec, CodecRead, CodecWrite};
use crate::commands::{lemma_printable_name_fits, Command};
use crate::error::IoError;

verus! {

/// Returns the range of the piezos.
pub struct RangeGet;

impl Command for RangeGet {
    const NAME: &'static str = "Piezo.RangeGet";

    type Args = ();

    type Response = RangeGetResponse;

    proof fn lemma_name_fits() {
        reveal_strlit("Piezo.RangeGet");
        lemma_printable_name_fits(Self::NAME);
    }
}

impl RangeGet {
    /// The name of this command is `"Piezo.RangeGet"`.
    pub proof fn lemma_name()
        ensures
            <RangeGet as Command>::NAME@ == "Piezo.RangeGet"@,
    {
    }
}

/// The reply of [`RangeGet`].
#[derive(Debug)]
pub struct RangeGetResponse {
    /// the X range, as the bits of an `f32`
    pub range_x: u32,
    /// the Y range, as the bits of an `f32`
    pub range_y: u32,
    /// the Z range, as the bits of an `f32`
    pub range_z: u32,
}

impl DeepView for RangeGetResponse {
    type V = (u32, u32, u32);

    open spec fn deep_view(&self) -> (u32, u32, u32) {
        (self.range_x.deep_view(), self.range_y.deep_view(), self.range_z.deep_view())
    }
}

impl CodecRead for RangeGetResponse {
    open spec fn spec_decode(input: Seq<u8>) -> Result<((u32, u32, u32), nat), IoError> {
        <(u32, u32, u32)>::spec_decode(input)
    }

    proof fn lemma_decode_len(input: Seq<u8>) {
        <(u32, u32, u32)>::lemma_decode_len(input);
    }

    fn codec_read(input: &[u8], pos: usize) -> (r: Result<(RangeGetResponse, usize), IoError>) {
        match <(u32, u32, u32)>::codec_read(input, pos) {
            Ok(((range_x, range_y, range_z), end)) => Ok((RangeGetResponse { range_x, range_y, range_z }, end)),
            Err(e) => Err(e),
        }
    }
}

impl RangeGetResponse {
    /// A reply that holds `range_x`, `range_y` and `range_z`, one after the
    /// other in this order and each in its own wire form, reads back as these
    /// fields, whatever follows them, and takes exactly their bytes.
    pub proof fn lemma_wire_layout(
        range_x: u32,
        range_y: u32,
        range_z: u32,
        rest: Seq<u8>,
    )
        ensures
            RangeGetResponse::spec_decode(
                u32::spec_encode(range_x)
                    + u32::spec_encode(range_y)
                    + u32::spec_encode(range_z)
                    + rest,
            ) == Ok::<((u32, u32, u32), nat), IoError>(
                (
                    (range_x, range_y, range_z),
                    (u32::spec_encode(range_x)
                        + u32::spec_encode(range_y)
                        + u32::spec_encode(range_z)).len(),
                ),
            ),
    {
        let fields = u32::spec_encode(range_x)
            + u32::spec_encode(range_y)
            + u32::spec_encode(range_z);
        assert(fields =~= <(u32, u32, u32)>::spec_encode((range_x, range_y, range_z)));
        <(u32, u32, u32)>::lemma_roundtrip((range_x, range_y, range_z), rest);
    }
}
} // verus!
