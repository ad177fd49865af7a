//! Signal commands.

use vstd::prelude::*;

use crate::codec::{Codec, CodecRead, CodecWrite};
use crate::commands::{lemma_printable_name_fits, Command};
use crate::error::IoError;

verus! {

/// Returns the signals names list of the 128 signals available in the software.
/// The 128 signals are physical inputs, physical outputs and internal channels. By searching in the list the channel’s
/// name you are interested in, you can get its index (0-127).
pub struct NamesGet;

impl Command for NamesGet {
    const NAME: &'static str = "Signals.NamesGet";

    type Args = ();

    type Response = NamesGetResponse;

    proof fn lemma_name_fits() {
        reveal_strlit("Signals.NamesGet");
        lemma_printable_name_fits(Self::NAME);
    }
}

impl NamesGet {
    /// The name of this command is `"Signals.NamesGet"`.
    pub proof fn lemma_name()
        ensures
            <NamesGet as Command>::NAME@ == "Signals.NamesGet"@,
    {
    }
}

/// The reply of [`NamesGet`].
#[derive(Debug)]
pub struct NamesGetResponse {
    /// the size in bytes of the names array
    pub _names_size: i32,
    /// an array of signals names strings
    pub names: Vec<String>,
}

impl DeepView for NamesGetResponse {
    type V = (i32, Seq<Seq<char>>);

    open spec fn deep_view(&self) -> (i32, Seq<Seq<char>>) {
        (self._names_size.deep_view(), self.names.deep_view())
    }
}

impl CodecRead for NamesGetResponse {
    open spec fn spec_decode(input: Seq<u8>) -> Result<((i32, Seq<Seq<char>>), nat), IoError> {
        <(i32, Vec<String>)>::spec_decode(input)
    }

    proof fn lemma_decode_len(input: Seq<u8>) {
        <(i32, Vec<String>)>::lemma_decode_len(input);
    }

    fn codec_read(input: &[u8], pos: usize) -> (r: Result<(NamesGetResponse, usize), IoError>) {
        match <(i32, Vec<String>)>::codec_read(input, pos) {
            Ok(((_names_size, names), end)) => Ok((NamesGetResponse { _names_size, names }, end)),
            Err(e) => Err(e),
        }
    }
}

impl NamesGetResponse {
    /// A reply that holds `names_size` and `names`, one after the other in this
    /// order and each in its own wire form, reads back as these fields,
    /// whatever follows them, and takes exactly their bytes.
    pub proof fn lemma_wire_layout(
        names_size: i32,
        names: Seq<Seq<char>>,
        rest: Seq<u8>,
    )
        requires
            <Vec<String>>::spec_wf(names),
        ensures
            NamesGetResponse::spec_decode(
                i32::spec_encode(names_size)
                    + <Vec<String>>::spec_encode(names)
                    + rest,
            ) == Ok::<((i32, Seq<Seq<char>>), nat), IoError>(
                (
                    (names_size, names),
                    (i32::spec_encode(names_size)
                        + <Vec<String>>::spec_encode(names)).len(),
                ),
            ),
    {
        let fields = i32::spec_encode(names_size)
            + <Vec<String>>::spec_encode(names);
        assert(fields =~= <(i32, Vec<String>)>::spec_encode((names_size, names)));
        <(i32, Vec<String>)>::lemma_roundtrip((names_size, names), rest);
    }
}
} // verus!
