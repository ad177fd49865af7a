//! Bias voltage commands.

use vstd::prelude::*;

use crate::codec::CodecWrite;
use crate::commands::{lemma_printable_name_fits, Command};

verus! {

/// Sets the Bias voltage to the specified value.
pub struct SetBias;

impl Command for SetBias {
    const NAME: &'static str = "Bias.Set";

    type Args = SetArgs;

    type Response = ();

    proof fn lemma_name_fits() {
        reveal_strlit("Bias.Set");
        lemma_printable_name_fits(Self::NAME);
    }
}

impl SetBias {
    /// The name of this command is `"Bias.Set"`.
    pub proof fn lemma_name()
        ensures
            <SetBias as Command>::NAME@ == "Bias.Set"@,
    {
    }
}

/// The arguments of [`SetBias`].
#[derive(Debug)]
pub struct SetArgs {
    /// the bias voltage in volts, as the bits of an `f32`
    pub bias: u32,
}

impl DeepView for SetArgs {
    type V = u32;

    open spec fn deep_view(&self) -> u32 {
        self.bias.deep_view()
    }
}

impl CodecWrite for SetArgs {
    open spec fn spec_encode(v: u32) -> Seq<u8> {
        u32::spec_encode(v)
    }

    fn codec_write(&self, out: &mut Vec<u8>) {
        self.bias.codec_write(out);
    }

    fn codec_len(&self) -> usize {
        self.bias.codec_len()
    }
}

impl SetArgs {
    /// The body is `bias` in its own wire form.
    pub proof fn lemma_wire_layout(
        bias: u32,
    )
        ensures
            SetArgs::spec_encode(bias) == u32::spec_encode(bias),
    {
        assert(SetArgs::spec_encode(bias) =~= u32::spec_encode(bias));
    }
}
} // verus!
