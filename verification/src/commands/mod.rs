//! The command catalogue: each command names itself, says what it sends
//! and what it gets back.

use vstd::prelude::*;
use vstd::string::StringSliceAdditionalSpecFns;

use crate::codec::{Codec, CodecRead, CodecWrite, Vec2D};
use crate::error::IoError;
use scan::{frame_data_decode, lemma_frame_data_layout, read_frame_data};

pub mod bias;
pub mod fol_me;
pub mod motor;
pub mod piezo;
pub mod scan;
pub mod signals;
pub mod zctrl;

verus! {

broadcast use vstd::utf8::group_utf8_lib;

/// The UTF-8 encoding of `name` fits a header name field of `n` bytes.
pub open spec fn name_fits(name: &str, n: nat) -> bool {
    name.spec_bytes().len() <= n
}

/// The UTF-8 encoding of `name` holds no NUL byte, so the name reads back
/// whole from a name field.
pub open spec fn nul_free(name: &str) -> bool {
    forall|i: int| 0 <= i < name.spec_bytes().len() ==> #[trigger] name.spec_bytes()[i] != 0
}

/// A name made of at most 32 printable ASCII characters fits a header and
/// holds no NUL byte.
pub proof fn lemma_printable_name_fits(name: &str)
    requires
        name@.len() <= 32,
        forall|i: int| 0 <= i < name@.len() ==> ' ' <= #[trigger] name@[i] <= '~',
    ensures
        name_fits(name, 32),
        nul_free(name),
{
    assert(vstd::utf8::is_ascii_chars(name@));
    vstd::utf8::is_ascii_chars_encode_utf8(name@);
    assert forall|i: int| 0 <= i < name.spec_bytes().len() implies #[trigger] name.spec_bytes()[i]
        != 0 by {
        assert(name@[i] as u8 == name.spec_bytes()[i]);
        assert(' ' <= name@[i]);
    }
}

/// A remote procedure of the controller.
pub trait Command {
    /// The name the controller knows the command by.
    const NAME: &'static str;

    /// What the request carries.
    type Args: CodecWrite;

    /// What the reply carries before its status footer.
    type Response: CodecRead;

    /// The name fits the 32-byte name field of a header.
    proof fn lemma_name_fits()
        ensures
            name_fits(Self::NAME, 32),
    ;
}

/// Returns the scan buffer parameters, with the sizes as plain `i32`s.
pub struct ScanBufferGet;

impl Command for ScanBufferGet {
    const NAME: &'static str = "Scan.BufferGet";

    type Args = ();

    type Response = ScanBufferGetResponse;

    proof fn lemma_name_fits() {
        reveal_strlit("Scan.BufferGet");
        lemma_printable_name_fits(Self::NAME);
    }
}

impl ScanBufferGet {
    /// The name of this command is `"Scan.BufferGet"`.
    pub proof fn lemma_name()
        ensures
            <ScanBufferGet as Command>::NAME@ == "Scan.BufferGet"@,
    {
    }
}

/// The reply of [`ScanBufferGet`].
#[derive(Debug)]
pub struct ScanBufferGetResponse {
    /// the indexes of recorded channels
    pub channel_indexes: Vec<i32>,
    /// the number of pixels per line
    pub px_per_line: i32,
    /// the number of scan lines
    pub num_lines: i32,
}

impl DeepView for ScanBufferGetResponse {
    type V = (Seq<i32>, i32, i32);

    open spec fn deep_view(&self) -> (Seq<i32>, i32, i32) {
        (self.channel_indexes.deep_view(), self.px_per_line.deep_view(), self.num_lines.deep_view())
    }
}

impl CodecRead for ScanBufferGetResponse {
    open spec fn spec_decode(input: Seq<u8>) -> Result<((Seq<i32>, i32, i32), nat), IoError> {
        <(Vec<i32>, i32, i32)>::spec_decode(input)
    }

    proof fn lemma_decode_len(input: Seq<u8>) {
        <(Vec<i32>, i32, i32)>::lemma_decode_len(input);
    }

    fn codec_read(input: &[u8], pos: usize) -> (r: Result<(ScanBufferGetResponse, usize), IoError>) {
        match <(Vec<i32>, i32, i32)>::codec_read(input, pos) {
            Ok(((channel_indexes, px_per_line, num_lines), end)) => Ok((ScanBufferGetResponse { channel_indexes, px_per_line, num_lines }, end)),
            Err(e) => Err(e),
        }
    }
}

impl ScanBufferGetResponse {
    /// A reply that holds `channel_indexes`, `px_per_line` and `num_lines`, one
    /// after the other in this order and each in its own wire form, reads back
    /// as these fields, whatever follows them, and takes exactly their bytes.
    pub proof fn lemma_wire_layout(
        channel_indexes: Seq<i32>,
        px_per_line: i32,
        num_lines: i32,
        rest: Seq<u8>,
    )
        requires
            <Vec<i32>>::spec_wf(channel_indexes),
        ensures
            ScanBufferGetResponse::spec_decode(
                <Vec<i32>>::spec_encode(channel_indexes)
                    + i32::spec_encode(px_per_line)
                    + i32::spec_encode(num_lines)
                    + rest,
            ) == Ok::<((Seq<i32>, i32, i32), nat), IoError>(
                (
                    (channel_indexes, px_per_line, num_lines),
                    (<Vec<i32>>::spec_encode(channel_indexes)
                        + i32::spec_encode(px_per_line)
                        + i32::spec_encode(num_lines)).len(),
                ),
            ),
    {
        let fields = <Vec<i32>>::spec_encode(channel_indexes)
            + i32::spec_encode(px_per_line)
            + i32::spec_encode(num_lines);
        assert(fields =~= <(Vec<i32>, i32, i32)>::spec_encode((channel_indexes, px_per_line, num_lines)));
        <(Vec<i32>, i32, i32)>::lemma_roundtrip((channel_indexes, px_per_line, num_lines), rest);
    }
}

/// Returns the scan parameters together with the modules and parameters that
/// are saved in the header of the image files.
pub struct ScanPropsGet;

impl Command for ScanPropsGet {
    const NAME: &'static str = "Scan.PropsGet";

    type Args = ();

    type Response = ScanPropsGetResponse;

    proof fn lemma_name_fits() {
        reveal_strlit("Scan.PropsGet");
        lemma_printable_name_fits(Self::NAME);
    }
}

impl ScanPropsGet {
    /// The name of this command is `"Scan.PropsGet"`.
    pub proof fn lemma_name()
        ensures
            <ScanPropsGet as Command>::NAME@ == "Scan.PropsGet"@,
    {
    }
}

/// The reply of [`ScanPropsGet`].
#[derive(Debug)]
pub struct ScanPropsGetResponse {
    /// whether the scan continues when a frame has been completed (1) or not (0)
    pub continuous_scan: u32,
    /// whether the scan direction changes when a frame has been completed (1) or not (0)
    pub bouncy_scan: u32,
    /// the save behavior: 0 is All, 1 is Next, and 2 means Off
    pub autosave: u32,
    /// base name used for the saved images
    pub series_name: String,
    /// comment saved in the file
    pub comment: String,
    /// the size in bytes of the modules names array
    pub _modules_names_size: i32,
    /// an array of modules names strings
    pub modules_names: Vec<String>,
    /// an array containing the number of parameters per module
    pub params_per_mod: Vec<i32>,
    /// the parameters saved in the header of the image files, one row per module
    pub parameters: Vec2D<String>,
}

impl DeepView for ScanPropsGetResponse {
    type V = (u32, u32, u32, Seq<char>, (Seq<char>, i32, Seq<Seq<char>>, Seq<i32>, (usize, usize, Seq<Seq<char>>)));

    open spec fn deep_view(&self) -> (u32, u32, u32, Seq<char>, (Seq<char>, i32, Seq<Seq<char>>, Seq<i32>, (usize, usize, Seq<Seq<char>>))) {
        (self.continuous_scan.deep_view(), self.bouncy_scan.deep_view(), self.autosave.deep_view(), self.series_name.deep_view(), (self.comment.deep_view(), self._modules_names_size.deep_view(), self.modules_names.deep_view(), self.params_per_mod.deep_view(), self.parameters.deep_view()))
    }
}

impl CodecRead for ScanPropsGetResponse {
    open spec fn spec_decode(input: Seq<u8>) -> Result<((u32, u32, u32, Seq<char>, (Seq<char>, i32, Seq<Seq<char>>, Seq<i32>, (usize, usize, Seq<Seq<char>>))), nat), IoError> {
        <(u32, u32, u32, String, (String, i32, Vec<String>, Vec<i32>, Vec2D<String>))>::spec_decode(input)
    }

    proof fn lemma_decode_len(input: Seq<u8>) {
        <(u32, u32, u32, String, (String, i32, Vec<String>, Vec<i32>, Vec2D<String>))>::lemma_decode_len(input);
    }

    fn codec_read(input: &[u8], pos: usize) -> (r: Result<(ScanPropsGetResponse, usize), IoError>) {
        match <(u32, u32, u32, String, (String, i32, Vec<String>, Vec<i32>, Vec2D<String>))>::codec_read(input, pos) {
            Ok(((continuous_scan, bouncy_scan, autosave, series_name, (comment, _modules_names_size, modules_names, params_per_mod, parameters)), end)) => Ok((ScanPropsGetResponse { continuous_scan, bouncy_scan, autosave, series_name, comment, _modules_names_size, modules_names, params_per_mod, parameters }, end)),
            Err(e) => Err(e),
        }
    }
}

impl ScanPropsGetResponse {
    /// A reply that holds `continuous_scan`, `bouncy_scan`, `autosave`,
    /// `series_name`, `comment`, `modules_names_size`, `modules_names`,
    /// `params_per_mod` and `parameters`, one after the other in this order and
    /// each in its own wire form, reads back as these fields, whatever follows
    /// them, and takes exactly their bytes.
    #[verifier::rlimit(60)]
    pub proof fn lemma_wire_layout(
        continuous_scan: u32,
        bouncy_scan: u32,
        autosave: u32,
        series_name: Seq<char>,
        comment: Seq<char>,
        modules_names_size: i32,
        modules_names: Seq<Seq<char>>,
        params_per_mod: Seq<i32>,
        parameters: (usize, usize, Seq<Seq<char>>),
        rest: Seq<u8>,
    )
        requires
            String::spec_wf(series_name),
            String::spec_wf(comment),
            <Vec<String>>::spec_wf(modules_names),
            <Vec<i32>>::spec_wf(params_per_mod),
            <Vec2D<String>>::spec_wf(parameters),
        ensures
            ScanPropsGetResponse::spec_decode(
                u32::spec_encode(continuous_scan)
                    + u32::spec_encode(bouncy_scan)
                    + u32::spec_encode(autosave)
                    + String::spec_encode(series_name)
                    + String::spec_encode(comment)
                    + i32::spec_encode(modules_names_size)
                    + <Vec<String>>::spec_encode(modules_names)
                    + <Vec<i32>>::spec_encode(params_per_mod)
                    + <Vec2D<String>>::spec_encode(parameters)
                    + rest,
            ) == Ok::<((u32, u32, u32, Seq<char>, (Seq<char>, i32, Seq<Seq<char>>, Seq<i32>, (usize, usize, Seq<Seq<char>>))), nat), IoError>(
                (
                    (continuous_scan, bouncy_scan, autosave, series_name, (comment, modules_names_size, modules_names, params_per_mod, parameters)),
                    (u32::spec_encode(continuous_scan)
                        + u32::spec_encode(bouncy_scan)
                        + u32::spec_encode(autosave)
                        + String::spec_encode(series_name)
                        + String::spec_encode(comment)
                        + i32::spec_encode(modules_names_size)
                        + <Vec<String>>::spec_encode(modules_names)
                        + <Vec<i32>>::spec_encode(params_per_mod)
                        + <Vec2D<String>>::spec_encode(parameters)).len(),
                ),
            ),
    {
        let tail = (comment, modules_names_size, modules_names, params_per_mod, parameters);
        let tail_bytes = String::spec_encode(comment) + i32::spec_encode(modules_names_size)
            + <Vec<String>>::spec_encode(modules_names) + <Vec<i32>>::spec_encode(params_per_mod)
            + <Vec2D<String>>::spec_encode(parameters);
        assert(tail_bytes =~= <(String, i32, Vec<String>, Vec<i32>, Vec2D<String>)>::spec_encode(
            tail,
        ));
        let head = u32::spec_encode(continuous_scan) + u32::spec_encode(bouncy_scan)
            + u32::spec_encode(autosave) + String::spec_encode(series_name);
        let fields = u32::spec_encode(continuous_scan)
            + u32::spec_encode(bouncy_scan)
            + u32::spec_encode(autosave)
            + String::spec_encode(series_name)
            + String::spec_encode(comment)
            + i32::spec_encode(modules_names_size)
            + <Vec<String>>::spec_encode(modules_names)
            + <Vec<i32>>::spec_encode(params_per_mod)
            + <Vec2D<String>>::spec_encode(parameters);
        assert(fields =~= head + tail_bytes);
        assert(head + tail_bytes =~= <(
            u32,
            u32,
            u32,
            String,
            (String, i32, Vec<String>, Vec<i32>, Vec2D<String>),
        )>::spec_encode((continuous_scan, bouncy_scan, autosave, series_name, tail)));
        <(u32, u32, u32, String, (String, i32, Vec<String>, Vec<i32>, Vec2D<String>))>::lemma_roundtrip(
            (continuous_scan, bouncy_scan, autosave, series_name, tail),
            rest,
        );
    }
}

/// Returns the scan data of the selected frame, with the directions as plain `u32`s.
pub struct ScanFrameDataGrab;

impl Command for ScanFrameDataGrab {
    const NAME: &'static str = "Scan.FrameDataGrab";

    type Args = ScanFrameDataGrabArgs;

    type Response = ScanFrameDataGrabResponse;

    proof fn lemma_name_fits() {
        reveal_strlit("Scan.FrameDataGrab");
        lemma_printable_name_fits(Self::NAME);
    }
}

impl ScanFrameDataGrab {
    /// The name of this command is `"Scan.FrameDataGrab"`.
    pub proof fn lemma_name()
        ensures
            <ScanFrameDataGrab as Command>::NAME@ == "Scan.FrameDataGrab"@,
    {
    }
}

/// The arguments of [`ScanFrameDataGrab`].
#[derive(Debug)]
pub struct ScanFrameDataGrabArgs {
    /// selects which channel to get the data from
    pub channel_index: u32,
    /// selects the data direction, where 1 is forward, and 0 is backward
    pub data_dir: u32,
}

impl DeepView for ScanFrameDataGrabArgs {
    type V = (u32, u32);

    open spec fn deep_view(&self) -> (u32, u32) {
        (self.channel_index.deep_view(), self.data_dir.deep_view())
    }
}

impl CodecWrite for ScanFrameDataGrabArgs {
    open spec fn spec_encode(v: (u32, u32)) -> Seq<u8> {
        <(u32, u32)>::spec_encode(v)
    }

    fn codec_write(&self, out: &mut Vec<u8>) {
        let ghost start = out@;
        self.channel_index.codec_write(out);
        self.data_dir.codec_write(out);
        assert(out@ =~= start + Self::spec_encode(self.deep_view()));
    }

    fn codec_len(&self) -> usize {
        self.channel_index.codec_len() + self.data_dir.codec_len()
    }
}

impl ScanFrameDataGrabArgs {
    /// The body holds `channel_index` and `data_dir`, one after the other in
    /// this order, each in its own wire form.
    pub proof fn lemma_wire_layout(
        channel_index: u32,
        data_dir: u32,
    )
        ensures
            ScanFrameDataGrabArgs::spec_encode((channel_index, data_dir)) == u32::spec_encode(channel_index)
                + u32::spec_encode(data_dir),
    {
        assert(ScanFrameDataGrabArgs::spec_encode((channel_index, data_dir)) =~= u32::spec_encode(channel_index)
            + u32::spec_encode(data_dir));
    }
}

/// Sets the Bias voltage to the specified value.
pub struct BiasSet;

impl Command for BiasSet {
    const NAME: &'static str = "Bias.Set";

    type Args = BiasSetReq;

    type Response = ();

    proof fn lemma_name_fits() {
        reveal_strlit("Bias.Set");
        lemma_printable_name_fits(Self::NAME);
    }
}

impl BiasSet {
    /// The name of this command is `"Bias.Set"`.
    pub proof fn lemma_name()
        ensures
            <BiasSet as Command>::NAME@ == "Bias.Set"@,
    {
    }
}

/// The arguments of [`BiasSet`].
#[derive(Debug)]
pub struct BiasSetReq {
    /// the bias voltage in volts, as the bits of an `f32`
    pub bias: u32,
}

impl DeepView for BiasSetReq {
    type V = u32;

    open spec fn deep_view(&self) -> u32 {
        self.bias.deep_view()
    }
}

impl CodecWrite for BiasSetReq {
    open spec fn spec_encode(v: u32) -> Seq<u8> {
        u32::spec_encode(v)
    }

    fn codec_write(&self, out: &mut Vec<u8>) {
        self.bias.codec_write(out);
    }

    fn codec_len(&self) -> usize {
        self.bias.codec_len()
    }
}

impl BiasSetReq {
    /// The body is `bias` in its own wire form.
    pub proof fn lemma_wire_layout(
        bias: u32,
    )
        ensures
            BiasSetReq::spec_encode(bias) == u32::spec_encode(bias),
    {
        assert(BiasSetReq::spec_encode(bias) =~= u32::spec_encode(bias));
    }
}

/// Returns the signals names list of the 128 signals available in the software.
pub struct SignalsNamesGet;

impl Command for SignalsNamesGet {
    const NAME: &'static str = "Signals.NamesGet";

    type Args = ();

    type Response = SignalsNamesGetResponse;

    proof fn lemma_name_fits() {
        reveal_strlit("Signals.NamesGet");
        lemma_printable_name_fits(Self::NAME);
    }
}

impl SignalsNamesGet {
    /// The name of this command is `"Signals.NamesGet"`.
    pub proof fn lemma_name()
        ensures
            <SignalsNamesGet as Command>::NAME@ == "Signals.NamesGet"@,
    {
    }
}

/// The reply of [`SignalsNamesGet`].
#[derive(Debug)]
pub struct SignalsNamesGetResponse {
    /// the size in bytes of the names array
    pub _names_size: i32,
    /// an array of signals names strings
    pub names: Vec<String>,
}

impl DeepView for SignalsNamesGetResponse {
    type V = (i32, Seq<Seq<char>>);

    open spec fn deep_view(&self) -> (i32, Seq<Seq<char>>) {
        (self._names_size.deep_view(), self.names.deep_view())
    }
}

impl CodecRead for SignalsNamesGetResponse {
    open spec fn spec_decode(input: Seq<u8>) -> Result<((i32, Seq<Seq<char>>), nat), IoError> {
        <(i32, Vec<String>)>::spec_decode(input)
    }

    proof fn lemma_decode_len(input: Seq<u8>) {
        <(i32, Vec<String>)>::lemma_decode_len(input);
    }

    fn codec_read(input: &[u8], pos: usize) -> (r: Result<(SignalsNamesGetResponse, usize), IoError>) {
        match <(i32, Vec<String>)>::codec_read(input, pos) {
            Ok(((_names_size, names), end)) => Ok((SignalsNamesGetResponse { _names_size, names }, end)),
            Err(e) => Err(e),
        }
    }
}

impl SignalsNamesGetResponse {
    /// A reply that holds `names_size` and `names`, one after the other in this
    /// order and each in its own wire form, reads back as these fields,
    /// whatever follows them, and takes exactly their bytes.
    pub proof fn lemma_wire_layout(
        names_size: i32,
        names: Seq<Seq<char>>,
        rest: Seq<u8>,
    )
        requires
            <Vec<String>>::spec_wf(names),
        ensures
            SignalsNamesGetResponse::spec_decode(
                i32::spec_encode(names_size)
                    + <Vec<String>>::spec_encode(names)
                    + rest,
            ) == Ok::<((i32, Seq<Seq<char>>), nat), IoError>(
                (
                    (names_size, names),
                    (i32::spec_encode(names_size)
                        + <Vec<String>>::spec_encode(names)).len(),
                ),
            ),
    {
        let fields = i32::spec_encode(names_size)
            + <Vec<String>>::spec_encode(names);
        assert(fields =~= <(i32, Vec<String>)>::spec_encode((names_size, names)));
        <(i32, Vec<String>)>::lemma_roundtrip((names_size, names), rest);
    }
}
/// The reply of [`ScanFrameDataGrab`].
#[derive(Debug)]
pub struct ScanFrameDataGrabResponse {
    /// the name of the channel selected by Channel index
    pub channel_name: String,
    /// the scan frame data of the selected channel, each value as the bits
    /// of an `f32`; empty when the channel name is empty
    pub scan_data: Vec2D<u32>,
    /// the scan direction, where 1 is up, and 0 is down
    pub scan_dir: u32,
}

impl DeepView for ScanFrameDataGrabResponse {
    type V = (Seq<char>, (usize, usize, Seq<u32>), u32);

    open spec fn deep_view(&self) -> Self::V {
        (self.channel_name@, self.scan_data.deep_view(), self.scan_dir)
    }
}

impl CodecRead for ScanFrameDataGrabResponse {
    open spec fn spec_decode(input: Seq<u8>) -> Result<
        ((Seq<char>, (usize, usize, Seq<u32>), u32), nat),
        IoError,
    > {
        frame_data_decode::<u32>(input)
    }

    proof fn lemma_decode_len(input: Seq<u8>) {
        String::lemma_decode_len(input);
        if let Ok((name, n)) = String::spec_decode(input) {
            Vec2D::<u32>::lemma_decode_len(input.skip(n as int));
        }
    }

    fn codec_read(input: &[u8], pos: usize) -> (r: Result<(ScanFrameDataGrabResponse, usize), IoError>) {
        match read_frame_data::<u32>(input, pos) {
            Ok(((channel_name, scan_data, scan_dir), end)) => Ok(
                (ScanFrameDataGrabResponse { channel_name, scan_data, scan_dir }, end),
            ),
            Err(e) => Err(e),
        }
    }
}

impl ScanFrameDataGrabResponse {
    /// A reply that holds the channel name, the frame and the scan
    /// direction word, in this order and each in its own wire form, reads
    /// back as them; one whose channel name is empty holds no frame and reads
    /// back an empty one.
    pub proof fn lemma_wire_layout(
        channel_name: Seq<char>,
        scan_data: (usize, usize, Seq<u32>),
        scan_dir: u32,
        rest: Seq<u8>,
    )
        requires
            String::spec_wf(channel_name),
            Vec2D::<u32>::spec_wf(scan_data),
        ensures
            channel_name.len() > 0 ==> ScanFrameDataGrabResponse::spec_decode(
                String::spec_encode(channel_name) + Vec2D::<u32>::spec_encode(scan_data)
                    + u32::spec_encode(scan_dir) + rest,
            ) == Ok::<((Seq<char>, (usize, usize, Seq<u32>), u32), nat), IoError>(
                (
                    (channel_name, scan_data, scan_dir),
                    (String::spec_encode(channel_name) + Vec2D::<u32>::spec_encode(scan_data)
                        + u32::spec_encode(scan_dir)).len(),
                ),
            ),
            ScanFrameDataGrabResponse::spec_decode(
                seq![0u8, 0u8, 0u8, 0u8] + u32::spec_encode(scan_dir) + rest,
            ) == Ok::<((Seq<char>, (usize, usize, Seq<u32>), u32), nat), IoError>(
                ((Seq::<char>::empty(), (0usize, 0usize, Seq::<u32>::empty()), scan_dir), 8),
            ),
    {
        assert(u32::spec_encode(scan_dir).len() == 4);
        lemma_frame_data_layout::<u32>(channel_name, scan_data, scan_dir, rest);
    }
}

} // verus!
