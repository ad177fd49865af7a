//! Follow Me module commands.

use vstd::prelude::*;

use crate::codec::{Codec, CodecRead, CodecWrite};
use crate::commands::{lemma_printable_name_fits, Command};
use crate::error::IoError;

verus! {

/// Returns the values of the X and Y signals
pub struct XYPosGet;

impl Command for XYPosGet {
    const NAME: &'static str = "FolMe.XYPosGet";

    type Args = XYPosGetArgs;

    type Response = XYPosGetResponse;

    proof fn lemma_name_fits() {
        reveal_strlit("FolMe.XYPosGet");
        lemma_printable_name_fits(Self::NAME);
    }
}

impl XYPosGet {
    /// The name of this command is `"FolMe.XYPosGet"`.
    pub proof fn lemma_name()
        ensures
            <XYPosGet as Command>::NAME@ == "FolMe.XYPosGet"@,
    {
    }
}

/// The arguments of [`XYPosGet`].
#[derive(Debug)]
pub struct XYPosGetArgs {
    /// selects whether the function returns the next available signal value
    /// or if it waits for a full period of new data. If False, this function returns a value 0 to Tap seconds after being
    /// called. If True, the function discards the first oversampled signal value received but returns the second
    /// value received. Thus, the function returns a value Tap to 2*Tap seconds after being called.
    pub wait_newest: bool,
}

impl DeepView for XYPosGetArgs {
    type V = bool;

    open spec fn deep_view(&self) -> bool {
        self.wait_newest.deep_view()
    }
}

impl CodecWrite for XYPosGetArgs {
    open spec fn spec_encode(v: bool) -> Seq<u8> {
        bool::spec_encode(v)
    }

    fn codec_write(&self, out: &mut Vec<u8>) {
        self.wait_newest.codec_write(out);
    }

    fn codec_len(&self) -> usize {
        self.wait_newest.codec_len()
    }
}

impl XYPosGetArgs {
    /// The body is `wait_newest` in its own wire form.
    pub proof fn lemma_wire_layout(
        wait_newest: bool,
    )
        ensures
            XYPosGetArgs::spec_encode(wait_newest) == bool::spec_encode(wait_newest),
    {
        assert(XYPosGetArgs::spec_encode(wait_newest) =~= bool::spec_encode(wait_newest));
    }
}

/// The reply of [`XYPosGet`].
#[derive(Debug)]
pub struct XYPosGetResponse {
    /// the X position, as the bits of an `f64`
    pub x_pos: u64,
    /// the Y position, as the bits of an `f64`
    pub y_pos: u64,
}

impl DeepView for XYPosGetResponse {
    type V = (u64, u64);

    open spec fn deep_view(&self) -> (u64, u64) {
        (self.x_pos.deep_view(), self.y_pos.deep_view())
    }
}

impl CodecRead for XYPosGetResponse {
    open spec fn spec_decode(input: Seq<u8>) -> Result<((u64, u64), nat), IoError> {
        <(u64, u64)>::spec_decode(input)
    }

    proof fn lemma_decode_len(input: Seq<u8>) {
        <(u64, u64)>::lemma_decode_len(input);
    }

    fn codec_read(input: &[u8], pos: usize) -> (r: Result<(XYPosGetResponse, usize), IoError>) {
        match <(u64, u64)>::codec_read(input, pos) {
            Ok(((x_pos, y_pos), end)) => Ok((XYPosGetResponse { x_pos, y_pos }, end)),
            Err(e) => Err(e),
        }
    }
}

impl XYPosGetResponse {
    /// A reply that holds `x_pos` and `y_pos`, one after the other in this
    /// order and each in its own wire form, reads back as these fields,
    /// whatever follows them, and takes exactly their bytes.
    pub proof fn lemma_wire_layout(
        x_pos: u64,
        y_pos: u64,
        rest: Seq<u8>,
    )
        ensures
            XYPosGetResponse::spec_decode(
                u64::spec_encode(x_pos)
                    + u64::spec_encode(y_pos)
                    + rest,
            ) == Ok::<((u64, u64), nat), IoError>(
                (
                    (x_pos, y_pos),
                    (u64::spec_encode(x_pos)
                        + u64::spec_encode(y_pos)).len(),
                ),
            ),
    {
        let fields = u64::spec_encode(x_pos)
            + u64::spec_encode(y_pos);
        assert(fields =~= <(u64, u64)>::spec_encode((x_pos, y_pos)));
        <(u64, u64)>::lemma_roundtrip((x_pos, y_pos), rest);
    }
}
} // verus!
