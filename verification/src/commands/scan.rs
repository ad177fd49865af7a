//! Scan module commands.

use vstd::prelude::*;

use crate::codec::{
    ActionType, Codec, CodecRead, CodecWrite, LineDir, ScanDir, ScanMovementType, Vec2D,
};
use crate::codec::allocating::lemma_string_wire;
use crate::codec::api::lemma_line_dir_wire;
use crate::commands::{lemma_printable_name_fits, Command};
use crate::error::IoError;

verus! {

/// Starts, stops, pauses or resumes a scan.
pub struct Action;

impl Command for Action {
    const NAME: &'static str = "Scan.Action";

    type Args = ActionArgs;

    type Response = ();

    proof fn lemma_name_fits() {
        reveal_strlit("Scan.Action");
        lemma_printable_name_fits(Self::NAME);
    }
}

impl Action {
    /// The name of this command is `"Scan.Action"`.
    pub proof fn lemma_name()
        ensures
            <Action as Command>::NAME@ == "Scan.Action"@,
    {
    }
}

/// The arguments of [`Action`].
#[derive(Debug)]
pub struct ActionArgs {
    /// sets which action to perform, where 0=Start, 1=Stop, 2=Pause, 3=Resume,
    /// 4=Freeze, 5=Unfreeze, 6=Go to Center
    pub action: ActionType,
    /// if 1, scan direction is set to up. If 0, direction is down
    pub dir: ScanDir,
}

impl DeepView for ActionArgs {
    type V = (ActionType, ScanDir);

    open spec fn deep_view(&self) -> (ActionType, ScanDir) {
        (self.action.deep_view(), self.dir.deep_view())
    }
}

impl CodecWrite for ActionArgs {
    open spec fn spec_encode(v: (ActionType, ScanDir)) -> Seq<u8> {
        <(ActionType, ScanDir)>::spec_encode(v)
    }

    fn codec_write(&self, out: &mut Vec<u8>) {
        let ghost start = out@;
        self.action.codec_write(out);
        self.dir.codec_write(out);
        assert(out@ =~= start + Self::spec_encode(self.deep_view()));
    }

    fn codec_len(&self) -> usize {
        self.action.codec_len() + self.dir.codec_len()
    }
}

impl ActionArgs {
    /// The body holds `action` and `dir`, one after the other in this order,
    /// each in its own wire form.
    pub proof fn lemma_wire_layout(
        action: ActionType,
        dir: ScanDir,
    )
        ensures
            ActionArgs::spec_encode((action, dir)) == ActionType::spec_encode(action)
                + ScanDir::spec_encode(dir),
    {
        assert(ActionArgs::spec_encode((action, dir)) =~= ActionType::spec_encode(action)
            + ScanDir::spec_encode(dir));
    }
}

/// Returns if the scan is running or not.
pub struct StatusGet;

impl Command for StatusGet {
    const NAME: &'static str = "Scan.StatusGet";

    type Args = ();

    type Response = StatusGetResponse;

    proof fn lemma_name_fits() {
        reveal_strlit("Scan.StatusGet");
        lemma_printable_name_fits(Self::NAME);
    }
}

impl StatusGet {
    /// The name of this command is `"Scan.StatusGet"`.
    pub proof fn lemma_name()
        ensures
            <StatusGet as Command>::NAME@ == "Scan.StatusGet"@,
    {
    }
}

/// The reply of [`StatusGet`].
#[derive(Debug)]
pub struct StatusGetResponse {
    /// means that if it is 1, scan is running. If 0, scan is not running
    pub running: bool,
}

impl DeepView for StatusGetResponse {
    type V = bool;

    open spec fn deep_view(&self) -> bool {
        self.running.deep_view()
    }
}

impl CodecRead for StatusGetResponse {
    open spec fn spec_decode(input: Seq<u8>) -> Result<(bool, nat), IoError> {
        bool::spec_decode(input)
    }

    proof fn lemma_decode_len(input: Seq<u8>) {
        bool::lemma_decode_len(input);
    }

    fn codec_read(input: &[u8], pos: usize) -> (r: Result<(StatusGetResponse, usize), IoError>) {
        match bool::codec_read(input, pos) {
            Ok((running, end)) => Ok((StatusGetResponse { running }, end)),
            Err(e) => Err(e),
        }
    }
}

impl StatusGetResponse {
    /// A reply that starts with `running` in its own wire form reads back as
    /// it, whatever follows, and takes exactly its bytes.
    pub proof fn lemma_wire_layout(
        running: bool,
        rest: Seq<u8>,
    )
        ensures
            StatusGetResponse::spec_decode(
                bool::spec_encode(running)
                    + rest,
            ) == Ok::<(bool, nat), IoError>(
                (
                    running,
                    (bool::spec_encode(running)).len(),
                ),
            ),
    {
        bool::lemma_roundtrip(running, rest);
    }
}

/// Returns the values of the X and Y signals
pub struct XYPosGet;

impl Command for XYPosGet {
    const NAME: &'static str = "Scan.XYPosGet";

    type Args = XYPosGetArgs;

    type Response = XYPosGetResponse;

    proof fn lemma_name_fits() {
        reveal_strlit("Scan.XYPosGet");
        lemma_printable_name_fits(Self::NAME);
    }
}

impl XYPosGet {
    /// The name of this command is `"Scan.XYPosGet"`.
    pub proof fn lemma_name()
        ensures
            <XYPosGet as Command>::NAME@ == "Scan.XYPosGet"@,
    {
    }
}

/// The arguments of [`XYPosGet`].
#[derive(Debug)]
pub struct XYPosGetArgs {
    /// selects whether the function returns the next available signal value
    /// or if it waits for a full period of new data. If False, this function returns a value 0 to Tap seconds after being
    /// called. If True, the function discards the first oversampled signal value received but returns the second
    /// value received. Thus, the function returns a value Tap to 2*Tap seconds after being called.
    pub wait_newest: bool,
}

impl DeepView for XYPosGetArgs {
    type V = bool;

    open spec fn deep_view(&self) -> bool {
        self.wait_newest.deep_view()
    }
}

impl CodecWrite for XYPosGetArgs {
    open spec fn spec_encode(v: bool) -> Seq<u8> {
        bool::spec_encode(v)
    }

    fn codec_write(&self, out: &mut Vec<u8>) {
        self.wait_newest.codec_write(out);
    }

    fn codec_len(&self) -> usize {
        self.wait_newest.codec_len()
    }
}

impl XYPosGetArgs {
    /// The body is `wait_newest` in its own wire form.
    pub proof fn lemma_wire_layout(
        wait_newest: bool,
    )
        ensures
            XYPosGetArgs::spec_encode(wait_newest) == bool::spec_encode(wait_newest),
    {
        assert(XYPosGetArgs::spec_encode(wait_newest) =~= bool::spec_encode(wait_newest));
    }
}

/// The reply of [`XYPosGet`].
#[derive(Debug)]
pub struct XYPosGetResponse {
    /// the X position, as the bits of an `f32`
    pub x_pos: u32,
    /// the Y position, as the bits of an `f32`
    pub y_pos: u32,
}

impl DeepView for XYPosGetResponse {
    type V = (u32, u32);

    open spec fn deep_view(&self) -> (u32, u32) {
        (self.x_pos.deep_view(), self.y_pos.deep_view())
    }
}

impl CodecRead for XYPosGetResponse {
    open spec fn spec_decode(input: Seq<u8>) -> Result<((u32, u32), nat), IoError> {
        <(u32, u32)>::spec_decode(input)
    }

    proof fn lemma_decode_len(input: Seq<u8>) {
        <(u32, u32)>::lemma_decode_len(input);
    }

    fn codec_read(input: &[u8], pos: usize) -> (r: Result<(XYPosGetResponse, usize), IoError>) {
        match <(u32, u32)>::codec_read(input, pos) {
            Ok(((x_pos, y_pos), end)) => Ok((XYPosGetResponse { x_pos, y_pos }, end)),
            Err(e) => Err(e),
        }
    }
}

impl XYPosGetResponse {
    /// A reply that holds `x_pos` and `y_pos`, one after the other in this
    /// order and each in its own wire form, reads back as these fields,
    /// whatever follows them, and takes exactly their bytes.
    pub proof fn lemma_wire_layout(
        x_pos: u32,
        y_pos: u32,
        rest: Seq<u8>,
    )
        ensures
            XYPosGetResponse::spec_decode(
                u32::spec_encode(x_pos)
                    + u32::spec_encode(y_pos)
                    + rest,
            ) == Ok::<((u32, u32), nat), IoError>(
                (
                    (x_pos, y_pos),
                    (u32::spec_encode(x_pos)
                        + u32::spec_encode(y_pos)).len(),
                ),
            ),
    {
        let fields = u32::spec_encode(x_pos)
            + u32::spec_encode(y_pos);
        assert(fields =~= <(u32, u32)>::spec_encode((x_pos, y_pos)));
        <(u32, u32)>::lemma_roundtrip((x_pos, y_pos), rest);
    }
}

/// Waits for the End-of-Line.
/// This function returns only when an End-of-Line or timeout occurs (whichever occurs first).
pub struct WaitEndOfLine;

impl Command for WaitEndOfLine {
    const NAME: &'static str = "Scan.WaitEndOfLine";

    type Args = WaitEndOfLineArgs;

    type Response = WaitEndOfLineResponse;

    proof fn lemma_name_fits() {
        reveal_strlit("Scan.WaitEndOfLine");
        lemma_printable_name_fits(Self::NAME);
    }
}

impl WaitEndOfLine {
    /// The name of this command is `"Scan.WaitEndOfLine"`.
    pub proof fn lemma_name()
        ensures
            <WaitEndOfLine as Command>::NAME@ == "Scan.WaitEndOfLine"@,
    {
    }
}

/// The arguments of [`WaitEndOfLine`].
#[derive(Debug)]
pub struct WaitEndOfLineArgs {
    /// sets how many milliseconds this function waits for an End-of-Line; `None` waits indefinitely
    pub timeout: Option<u128>,
}

impl DeepView for WaitEndOfLineArgs {
    type V = Option<u128>;

    open spec fn deep_view(&self) -> Option<u128> {
        self.timeout.deep_view()
    }
}

impl CodecWrite for WaitEndOfLineArgs {
    open spec fn spec_encode(v: Option<u128>) -> Seq<u8> {
        <Option<u128>>::spec_encode(v)
    }

    fn codec_write(&self, out: &mut Vec<u8>) {
        self.timeout.codec_write(out);
    }

    fn codec_len(&self) -> usize {
        self.timeout.codec_len()
    }
}

impl WaitEndOfLineArgs {
    /// The body is `timeout` in its own wire form.
    pub proof fn lemma_wire_layout(
        timeout: Option<u128>,
    )
        ensures
            WaitEndOfLineArgs::spec_encode(timeout) == <Option<u128>>::spec_encode(timeout),
    {
        assert(WaitEndOfLineArgs::spec_encode(timeout) =~= <Option<u128>>::spec_encode(timeout));
    }
}

/// The reply of [`WaitEndOfLine`].
#[derive(Debug)]
pub struct WaitEndOfLineResponse {
    /// means that if it is 1, the function timed-out. If 0, it didn’t time-out
    pub timed_out: bool,
    /// the line number of the last completed line
    pub line_number: i32,
    /// can be forward (0) or backward (1) while scanning, moved to the scan
    /// frame center (2), or moved to start point of the scan frame right before starting to scan (3)
    pub movement_type: ScanMovementType,
    /// the pass number of the last completed line (relevant when MultiPass is enabled)
    pub pass_number: usize,
}

impl DeepView for WaitEndOfLineResponse {
    type V = (bool, i32, ScanMovementType, usize);

    open spec fn deep_view(&self) -> (bool, i32, ScanMovementType, usize) {
        (self.timed_out.deep_view(), self.line_number.deep_view(), self.movement_type.deep_view(), self.pass_number.deep_view())
    }
}

impl CodecRead for WaitEndOfLineResponse {
    open spec fn spec_decode(input: Seq<u8>) -> Result<((bool, i32, ScanMovementType, usize), nat), IoError> {
        <(bool, i32, ScanMovementType, usize)>::spec_decode(input)
    }

    proof fn lemma_decode_len(input: Seq<u8>) {
        <(bool, i32, ScanMovementType, usize)>::lemma_decode_len(input);
    }

    fn codec_read(input: &[u8], pos: usize) -> (r: Result<(WaitEndOfLineResponse, usize), IoError>) {
        match <(bool, i32, ScanMovementType, usize)>::codec_read(input, pos) {
            Ok(((timed_out, line_number, movement_type, pass_number), end)) => Ok((WaitEndOfLineResponse { timed_out, line_number, movement_type, pass_number }, end)),
            Err(e) => Err(e),
        }
    }
}

impl WaitEndOfLineResponse {
    /// A reply that holds `timed_out`, `line_number`, `movement_type` and
    /// `pass_number`, one after the other in this order and each in its own
    /// wire form, reads back as these fields, whatever follows them, and takes
    /// exactly their bytes.
    pub proof fn lemma_wire_layout(
        timed_out: bool,
        line_number: i32,
        movement_type: ScanMovementType,
        pass_number: usize,
        rest: Seq<u8>,
    )
        requires
            usize::spec_wf(pass_number),
        ensures
            WaitEndOfLineResponse::spec_decode(
                bool::spec_encode(timed_out)
                    + i32::spec_encode(line_number)
                    + ScanMovementType::spec_encode(movement_type)
                    + usize::spec_encode(pass_number)
                    + rest,
            ) == Ok::<((bool, i32, ScanMovementType, usize), nat), IoError>(
                (
                    (timed_out, line_number, movement_type, pass_number),
                    (bool::spec_encode(timed_out)
                        + i32::spec_encode(line_number)
                        + ScanMovementType::spec_encode(movement_type)
                        + usize::spec_encode(pass_number)).len(),
                ),
            ),
    {
        let fields = bool::spec_encode(timed_out)
            + i32::spec_encode(line_number)
            + ScanMovementType::spec_encode(movement_type)
            + usize::spec_encode(pass_number);
        assert(fields =~= <(bool, i32, ScanMovementType, usize)>::spec_encode((timed_out, line_number, movement_type, pass_number)));
        <(bool, i32, ScanMovementType, usize)>::lemma_roundtrip((timed_out, line_number, movement_type, pass_number), rest);
    }
}

/// Waits for the End-of-Scan.
/// This function returns only when an End-of-Scan or timeout occurs (whichever occurs first).
pub struct WaitEndOfScan;

impl Command for WaitEndOfScan {
    const NAME: &'static str = "Scan.WaitEndOfScan";

    type Args = WaitEndOfScanArgs;

    type Response = WaitEndOfScanResponse;

    proof fn lemma_name_fits() {
        reveal_strlit("Scan.WaitEndOfScan");
        lemma_printable_name_fits(Self::NAME);
    }
}

impl WaitEndOfScan {
    /// The name of this command is `"Scan.WaitEndOfScan"`.
    pub proof fn lemma_name()
        ensures
            <WaitEndOfScan as Command>::NAME@ == "Scan.WaitEndOfScan"@,
    {
    }
}

/// The arguments of [`WaitEndOfScan`].
#[derive(Debug)]
pub struct WaitEndOfScanArgs {
    /// sets how many milliseconds this function waits for an End-of-Scan; `None` waits indefinitely
    pub timeout: Option<u128>,
}

impl DeepView for WaitEndOfScanArgs {
    type V = Option<u128>;

    open spec fn deep_view(&self) -> Option<u128> {
        self.timeout.deep_view()
    }
}

impl CodecWrite for WaitEndOfScanArgs {
    open spec fn spec_encode(v: Option<u128>) -> Seq<u8> {
        <Option<u128>>::spec_encode(v)
    }

    fn codec_write(&self, out: &mut Vec<u8>) {
        self.timeout.codec_write(out);
    }

    fn codec_len(&self) -> usize {
        self.timeout.codec_len()
    }
}

impl WaitEndOfScanArgs {
    /// The body is `timeout` in its own wire form.
    pub proof fn lemma_wire_layout(
        timeout: Option<u128>,
    )
        ensures
            WaitEndOfScanArgs::spec_encode(timeout) == <Option<u128>>::spec_encode(timeout),
    {
        assert(WaitEndOfScanArgs::spec_encode(timeout) =~= <Option<u128>>::spec_encode(timeout));
    }
}

/// The reply of [`WaitEndOfScan`].
#[derive(Debug)]
pub struct WaitEndOfScanResponse {
    /// whether the function timed out
    pub timed_out: bool,
    /// the path of the file the scan was saved to
    pub file_path: String,
}

impl DeepView for WaitEndOfScanResponse {
    type V = (bool, Seq<char>);

    open spec fn deep_view(&self) -> (bool, Seq<char>) {
        (self.timed_out.deep_view(), self.file_path.deep_view())
    }
}

impl CodecRead for WaitEndOfScanResponse {
    open spec fn spec_decode(input: Seq<u8>) -> Result<((bool, Seq<char>), nat), IoError> {
        <(bool, String)>::spec_decode(input)
    }

    proof fn lemma_decode_len(input: Seq<u8>) {
        <(bool, String)>::lemma_decode_len(input);
    }

    fn codec_read(input: &[u8], pos: usize) -> (r: Result<(WaitEndOfScanResponse, usize), IoError>) {
        match <(bool, String)>::codec_read(input, pos) {
            Ok(((timed_out, file_path), end)) => Ok((WaitEndOfScanResponse { timed_out, file_path }, end)),
            Err(e) => Err(e),
        }
    }
}

impl WaitEndOfScanResponse {
    /// A reply that holds `timed_out` and `file_path`, one after the other in
    /// this order and each in its own wire form, reads back as these fields,
    /// whatever follows them, and takes exactly their bytes.
    pub proof fn lemma_wire_layout(
        timed_out: bool,
        file_path: Seq<char>,
        rest: Seq<u8>,
    )
        requires
            String::spec_wf(file_path),
        ensures
            WaitEndOfScanResponse::spec_decode(
                bool::spec_encode(timed_out)
                    + String::spec_encode(file_path)
                    + rest,
            ) == Ok::<((bool, Seq<char>), nat), IoError>(
                (
                    (timed_out, file_path),
                    (bool::spec_encode(timed_out)
                        + String::spec_encode(file_path)).len(),
                ),
            ),
    {
        let fields = bool::spec_encode(timed_out)
            + String::spec_encode(file_path);
        assert(fields =~= <(bool, String)>::spec_encode((timed_out, file_path)));
        <(bool, String)>::lemma_roundtrip((timed_out, file_path), rest);
    }
}

/// Returns the scan frame parameters.
pub struct FrameGet;

impl Command for FrameGet {
    const NAME: &'static str = "Scan.FrameGet";

    type Args = ();

    type Response = FrameGetResponse;

    proof fn lemma_name_fits() {
        reveal_strlit("Scan.FrameGet");
        lemma_printable_name_fits(Self::NAME);
    }
}

impl FrameGet {
    /// The name of this command is `"Scan.FrameGet"`.
    pub proof fn lemma_name()
        ensures
            <FrameGet as Command>::NAME@ == "Scan.FrameGet"@,
    {
    }
}

/// The reply of [`FrameGet`].
#[derive(Debug)]
pub struct FrameGetResponse {
    /// the X position of the scan frame center, as the bits of an `f32`
    pub center_x: u32,
    /// the Y position of the scan frame center, as the bits of an `f32`
    pub center_y: u32,
    /// the width of the scan frame, as the bits of an `f32`
    pub width: u32,
    /// the height of the scan frame, as the bits of an `f32`
    pub height: u32,
    /// the angle of the scan frame (positive angle means clockwise rotation), as the bits of an `f32`
    pub angle: u32,
}

impl DeepView for FrameGetResponse {
    type V = (u32, u32, u32, u32, u32);

    open spec fn deep_view(&self) -> (u32, u32, u32, u32, u32) {
        (self.center_x.deep_view(), self.center_y.deep_view(), self.width.deep_view(), self.height.deep_view(), self.angle.deep_view())
    }
}

impl CodecRead for FrameGetResponse {
    open spec fn spec_decode(input: Seq<u8>) -> Result<((u32, u32, u32, u32, u32), nat), IoError> {
        <(u32, u32, u32, u32, u32)>::spec_decode(input)
    }

    proof fn lemma_decode_len(input: Seq<u8>) {
        <(u32, u32, u32, u32, u32)>::lemma_decode_len(input);
    }

    fn codec_read(input: &[u8], pos: usize) -> (r: Result<(FrameGetResponse, usize), IoError>) {
        match <(u32, u32, u32, u32, u32)>::codec_read(input, pos) {
            Ok(((center_x, center_y, width, height, angle), end)) => Ok((FrameGetResponse { center_x, center_y, width, height, angle }, end)),
            Err(e) => Err(e),
        }
    }
}

impl FrameGetResponse {
    /// A reply that holds `center_x`, `center_y`, `width`, `height` and
    /// `angle`, one after the other in this order and each in its own wire
    /// form, reads back as these fields, whatever follows them, and takes
    /// exactly their bytes.
    pub proof fn lemma_wire_layout(
        center_x: u32,
        center_y: u32,
        width: u32,
        height: u32,
        angle: u32,
        rest: Seq<u8>,
    )
        ensures
            FrameGetResponse::spec_decode(
                u32::spec_encode(center_x)
                    + u32::spec_encode(center_y)
                    + u32::spec_encode(width)
                    + u32::spec_encode(height)
                    + u32::spec_encode(angle)
                    + rest,
            ) == Ok::<((u32, u32, u32, u32, u32), nat), IoError>(
                (
                    (center_x, center_y, width, height, angle),
                    (u32::spec_encode(center_x)
                        + u32::spec_encode(center_y)
                        + u32::spec_encode(width)
                        + u32::spec_encode(height)
                        + u32::spec_encode(angle)).len(),
                ),
            ),
    {
        let fields = u32::spec_encode(center_x)
            + u32::spec_encode(center_y)
            + u32::spec_encode(width)
            + u32::spec_encode(height)
            + u32::spec_encode(angle);
        assert(fields =~= <(u32, u32, u32, u32, u32)>::spec_encode((center_x, center_y, width, height, angle)));
        <(u32, u32, u32, u32, u32)>::lemma_roundtrip((center_x, center_y, width, height, angle), rest);
    }
}

/// Configures the scan frame parameters.
pub struct FrameSet;

impl Command for FrameSet {
    const NAME: &'static str = "Scan.FrameSet";

    type Args = FrameSetArgs;

    type Response = ();

    proof fn lemma_name_fits() {
        reveal_strlit("Scan.FrameSet");
        lemma_printable_name_fits(Self::NAME);
    }
}

impl FrameSet {
    /// The name of this command is `"Scan.FrameSet"`.
    pub proof fn lemma_name()
        ensures
            <FrameSet as Command>::NAME@ == "Scan.FrameSet"@,
    {
    }
}

/// The arguments of [`FrameSet`].
#[derive(Debug)]
pub struct FrameSetArgs {
    /// the X position of the scan frame center, as the bits of an `f32`
    pub center_x: u32,
    /// the Y position of the scan frame center, as the bits of an `f32`
    pub center_y: u32,
    /// the width of the scan frame, as the bits of an `f32`
    pub width: u32,
    /// the height of the scan frame, as the bits of an `f32`
    pub height: u32,
    /// the angle of the scan frame (positive angle means clockwise rotation), as the bits of an `f32`
    pub angle: u32,
}

impl DeepView for FrameSetArgs {
    type V = (u32, u32, u32, u32, u32);

    open spec fn deep_view(&self) -> (u32, u32, u32, u32, u32) {
        (self.center_x.deep_view(), self.center_y.deep_view(), self.width.deep_view(), self.height.deep_view(), self.angle.deep_view())
    }
}

impl CodecWrite for FrameSetArgs {
    open spec fn spec_encode(v: (u32, u32, u32, u32, u32)) -> Seq<u8> {
        <(u32, u32, u32, u32, u32)>::spec_encode(v)
    }

    fn codec_write(&self, out: &mut Vec<u8>) {
        let ghost start = out@;
        self.center_x.codec_write(out);
        self.center_y.codec_write(out);
        self.width.codec_write(out);
        self.height.codec_write(out);
        self.angle.codec_write(out);
        assert(out@ =~= start + Self::spec_encode(self.deep_view()));
    }

    fn codec_len(&self) -> usize {
        self.center_x.codec_len() + self.center_y.codec_len() + self.width.codec_len() + self.height.codec_len() + self.angle.codec_len()
    }
}

impl FrameSetArgs {
    /// The body holds `center_x`, `center_y`, `width`, `height` and `angle`,
    /// one after the other in this order, each in its own wire form.
    pub proof fn lemma_wire_layout(
        center_x: u32,
        center_y: u32,
        width: u32,
        height: u32,
        angle: u32,
    )
        ensures
            FrameSetArgs::spec_encode((center_x, center_y, width, height, angle)) == u32::spec_encode(center_x)
                + u32::spec_encode(center_y)
                + u32::spec_encode(width)
                + u32::spec_encode(height)
                + u32::spec_encode(angle),
    {
        assert(FrameSetArgs::spec_encode((center_x, center_y, width, height, angle)) =~= u32::spec_encode(center_x)
            + u32::spec_encode(center_y)
            + u32::spec_encode(width)
            + u32::spec_encode(height)
            + u32::spec_encode(angle));
    }
}

/// Returns the scan buffer parameters.
pub struct BufferGet;

impl Command for BufferGet {
    const NAME: &'static str = "Scan.BufferGet";

    type Args = ();

    type Response = BufferGetResponse;

    proof fn lemma_name_fits() {
        reveal_strlit("Scan.BufferGet");
        lemma_printable_name_fits(Self::NAME);
    }
}

impl BufferGet {
    /// The name of this command is `"Scan.BufferGet"`.
    pub proof fn lemma_name()
        ensures
            <BufferGet as Command>::NAME@ == "Scan.BufferGet"@,
    {
    }
}

/// The reply of [`BufferGet`].
#[derive(Debug)]
pub struct BufferGetResponse {
    /// the indexes of recorded channels. The index is comprised between 0
    /// and 127, and it corresponds to the full list of signals available in the system.
    /// To get the signal name and its corresponding index in the list of the 128 available signals in the Nanonis
    /// Controller, use the Signal.NamesGet function, or check the RT Idx value in the Signals Manager module.
    pub channel_indexes: Vec<i32>,
    /// the number of pixels per line
    pub px_per_line: usize,
    /// the number of scan lines
    pub num_lines: usize,
}

impl DeepView for BufferGetResponse {
    type V = (Seq<i32>, usize, usize);

    open spec fn deep_view(&self) -> (Seq<i32>, usize, usize) {
        (self.channel_indexes.deep_view(), self.px_per_line.deep_view(), self.num_lines.deep_view())
    }
}

impl CodecRead for BufferGetResponse {
    open spec fn spec_decode(input: Seq<u8>) -> Result<((Seq<i32>, usize, usize), nat), IoError> {
        <(Vec<i32>, usize, usize)>::spec_decode(input)
    }

    proof fn lemma_decode_len(input: Seq<u8>) {
        <(Vec<i32>, usize, usize)>::lemma_decode_len(input);
    }

    fn codec_read(input: &[u8], pos: usize) -> (r: Result<(BufferGetResponse, usize), IoError>) {
        match <(Vec<i32>, usize, usize)>::codec_read(input, pos) {
            Ok(((channel_indexes, px_per_line, num_lines), end)) => Ok((BufferGetResponse { channel_indexes, px_per_line, num_lines }, end)),
            Err(e) => Err(e),
        }
    }
}

impl BufferGetResponse {
    /// A reply that holds `channel_indexes`, `px_per_line` and `num_lines`, one
    /// after the other in this order and each in its own wire form, reads back
    /// as these fields, whatever follows them, and takes exactly their bytes.
    pub proof fn lemma_wire_layout(
        channel_indexes: Seq<i32>,
        px_per_line: usize,
        num_lines: usize,
        rest: Seq<u8>,
    )
        requires
            <Vec<i32>>::spec_wf(channel_indexes),
            usize::spec_wf(px_per_line),
            usize::spec_wf(num_lines),
        ensures
            BufferGetResponse::spec_decode(
                <Vec<i32>>::spec_encode(channel_indexes)
                    + usize::spec_encode(px_per_line)
                    + usize::spec_encode(num_lines)
                    + rest,
            ) == Ok::<((Seq<i32>, usize, usize), nat), IoError>(
                (
                    (channel_indexes, px_per_line, num_lines),
                    (<Vec<i32>>::spec_encode(channel_indexes)
                        + usize::spec_encode(px_per_line)
                        + usize::spec_encode(num_lines)).len(),
                ),
            ),
    {
        let fields = <Vec<i32>>::spec_encode(channel_indexes)
            + usize::spec_encode(px_per_line)
            + usize::spec_encode(num_lines);
        assert(fields =~= <(Vec<i32>, usize, usize)>::spec_encode((channel_indexes, px_per_line, num_lines)));
        <(Vec<i32>, usize, usize)>::lemma_roundtrip((channel_indexes, px_per_line, num_lines), rest);
    }
}

/// Returns some of the scan parameters.
pub struct PropsGet;

impl Command for PropsGet {
    const NAME: &'static str = "Scan.PropsGet";

    type Args = ();

    type Response = PropsGetResponse;

    proof fn lemma_name_fits() {
        reveal_strlit("Scan.PropsGet");
        lemma_printable_name_fits(Self::NAME);
    }
}

impl PropsGet {
    /// The name of this command is `"Scan.PropsGet"`.
    pub proof fn lemma_name()
        ensures
            <PropsGet as Command>::NAME@ == "Scan.PropsGet"@,
    {
    }
}

/// The reply of [`PropsGet`].
#[derive(Debug)]
pub struct PropsGetResponse {
    ///  indicates whether the scan continues or stops when a frame has been
    /// completed. 0 means Off, and 1 is On
    pub continuous_scan: bool,
    /// indicates whether the scan direction changes when a frame has been
    /// completed. 0 means Off, and 1 is On
    pub bouncy_scan: bool,
    /// defines the save behavior when a frame has been completed. "All" saves all the
    /// future images. "Next" only saves the next frame. 0 is All, 1 is Next, and 2 means Off
    pub autosave: u32,
    /// base name used for the saved images
    pub series_name: String,
    /// comment saved in the file
    pub comment: String,
}

impl DeepView for PropsGetResponse {
    type V = (bool, bool, u32, Seq<char>, Seq<char>);

    open spec fn deep_view(&self) -> (bool, bool, u32, Seq<char>, Seq<char>) {
        (self.continuous_scan.deep_view(), self.bouncy_scan.deep_view(), self.autosave.deep_view(), self.series_name.deep_view(), self.comment.deep_view())
    }
}

impl CodecRead for PropsGetResponse {
    open spec fn spec_decode(input: Seq<u8>) -> Result<((bool, bool, u32, Seq<char>, Seq<char>), nat), IoError> {
        <(bool, bool, u32, String, String)>::spec_decode(input)
    }

    proof fn lemma_decode_len(input: Seq<u8>) {
        <(bool, bool, u32, String, String)>::lemma_decode_len(input);
    }

    fn codec_read(input: &[u8], pos: usize) -> (r: Result<(PropsGetResponse, usize), IoError>) {
        match <(bool, bool, u32, String, String)>::codec_read(input, pos) {
            Ok(((continuous_scan, bouncy_scan, autosave, series_name, comment), end)) => Ok((PropsGetResponse { continuous_scan, bouncy_scan, autosave, series_name, comment }, end)),
            Err(e) => Err(e),
        }
    }
}

impl PropsGetResponse {
    /// A reply that holds `continuous_scan`, `bouncy_scan`, `autosave`,
    /// `series_name` and `comment`, one after the other in this order and each
    /// in its own wire form, reads back as these fields, whatever follows them,
    /// and takes exactly their bytes.
    pub proof fn lemma_wire_layout(
        continuous_scan: bool,
        bouncy_scan: bool,
        autosave: u32,
        series_name: Seq<char>,
        comment: Seq<char>,
        rest: Seq<u8>,
    )
        requires
            String::spec_wf(series_name),
            String::spec_wf(comment),
        ensures
            PropsGetResponse::spec_decode(
                bool::spec_encode(continuous_scan)
                    + bool::spec_encode(bouncy_scan)
                    + u32::spec_encode(autosave)
                    + String::spec_encode(series_name)
                    + String::spec_encode(comment)
                    + rest,
            ) == Ok::<((bool, bool, u32, Seq<char>, Seq<char>), nat), IoError>(
                (
                    (continuous_scan, bouncy_scan, autosave, series_name, comment),
                    (bool::spec_encode(continuous_scan)
                        + bool::spec_encode(bouncy_scan)
                        + u32::spec_encode(autosave)
                        + String::spec_encode(series_name)
                        + String::spec_encode(comment)).len(),
                ),
            ),
    {
        let fields = bool::spec_encode(continuous_scan)
            + bool::spec_encode(bouncy_scan)
            + u32::spec_encode(autosave)
            + String::spec_encode(series_name)
            + String::spec_encode(comment);
        assert(fields =~= <(bool, bool, u32, String, String)>::spec_encode((continuous_scan, bouncy_scan, autosave, series_name, comment)));
        <(bool, bool, u32, String, String)>::lemma_roundtrip((continuous_scan, bouncy_scan, autosave, series_name, comment), rest);
    }
}

/// Returns the scan data of the selected frame.
pub struct FrameDataGrab;

impl Command for FrameDataGrab {
    const NAME: &'static str = "Scan.FrameDataGrab";

    type Args = FrameDataGrabArgs;

    type Response = FrameDataGrabResponse;

    proof fn lemma_name_fits() {
        reveal_strlit("Scan.FrameDataGrab");
        lemma_printable_name_fits(Self::NAME);
    }
}

impl FrameDataGrab {
    /// The name of this command is `"Scan.FrameDataGrab"`.
    pub proof fn lemma_name()
        ensures
            <FrameDataGrab as Command>::NAME@ == "Scan.FrameDataGrab"@,
    {
    }
}

/// The arguments of [`FrameDataGrab`].
#[derive(Debug)]
pub struct FrameDataGrabArgs {
    /// Selects which channel to get the data from.
    /// The channel must be one of the acquired channels.
    /// The list of acquired channels while scanning can be configured by the function Scan.BufferSet.
    /// The index is comprised between 0 and 127, and it corresponds to the full list of signals available in the
    /// system.
    /// To get the signal name and its corresponding index in the list of the 128 available signals in the Nanonis
    /// Controller, use the Signal.NamesGet function, or check the RT Idx value in the Signals Manager module.
    pub channel_index: u32,
    /// Selects the data direction, where 1 is forward, and 0 is backward
    pub data_dir: LineDir,
}

impl DeepView for FrameDataGrabArgs {
    type V = (u32, LineDir);

    open spec fn deep_view(&self) -> (u32, LineDir) {
        (self.channel_index.deep_view(), self.data_dir.deep_view())
    }
}

impl CodecWrite for FrameDataGrabArgs {
    open spec fn spec_encode(v: (u32, LineDir)) -> Seq<u8> {
        <(u32, LineDir)>::spec_encode(v)
    }

    fn codec_write(&self, out: &mut Vec<u8>) {
        let ghost start = out@;
        self.channel_index.codec_write(out);
        self.data_dir.codec_write(out);
        assert(out@ =~= start + Self::spec_encode(self.deep_view()));
    }

    fn codec_len(&self) -> usize {
        self.channel_index.codec_len() + self.data_dir.codec_len()
    }
}

impl FrameDataGrabArgs {
    /// The body holds `channel_index` and `data_dir`, one after the other in
    /// this order, each in its own wire form.
    pub proof fn lemma_wire_layout(
        channel_index: u32,
        data_dir: LineDir,
    )
        ensures
            FrameDataGrabArgs::spec_encode((channel_index, data_dir)) == u32::spec_encode(channel_index)
                + LineDir::spec_encode(data_dir),
    {
        assert(FrameDataGrabArgs::spec_encode((channel_index, data_dir)) =~= u32::spec_encode(channel_index)
            + LineDir::spec_encode(data_dir));
    }

    /// The direction word of a frame grab request is 1 when forward data is
    /// asked for and 0 when backward data is, and it reads back as the
    /// direction that was asked for.
    pub proof fn lemma_direction_word(channel_index: u32, data_dir: LineDir)
        ensures
            data_dir == LineDir::Forward ==> FrameDataGrabArgs::spec_encode(
                (channel_index, data_dir),
            ) == u32::spec_encode(channel_index) + seq![0u8, 0u8, 0u8, 1u8],
            data_dir == LineDir::Backward ==> FrameDataGrabArgs::spec_encode(
                (channel_index, data_dir),
            ) == u32::spec_encode(channel_index) + seq![0u8, 0u8, 0u8, 0u8],
            FrameDataGrabArgs::spec_encode((channel_index, data_dir)).len() == 8,
            LineDir::spec_decode(FrameDataGrabArgs::spec_encode((channel_index, data_dir)).skip(4))
                == Ok::<(LineDir, nat), IoError>((data_dir, 4)),
    {
        FrameDataGrabArgs::lemma_wire_layout(channel_index, data_dir);
        lemma_line_dir_wire(data_dir, data_dir.spec_code(), Seq::empty());
        let body = FrameDataGrabArgs::spec_encode((channel_index, data_dir));
        assert(body.skip(4) =~= u32::spec_encode(data_dir.spec_code()) + Seq::<u8>::empty());
    }
}
/// The reply layout of a frame grab: the channel name, then, only when
/// that name is not empty, the frame data, then the scan direction.
pub open spec fn frame_data_decode<D: CodecRead>(input: Seq<u8>) -> Result<
    ((Seq<char>, (usize, usize, Seq<u32>), <D as DeepView>::V), nat),
    IoError,
> {
    match String::spec_decode(input) {
        Err(e) => Err(e),
        Ok((name, n)) => {
            let data = if name.len() > 0 {
                Vec2D::<u32>::spec_decode(input.skip(n as int))
            } else {
                Ok(((0usize, 0usize, Seq::<u32>::empty()), 0))
            };
            match data {
                Err(e) => Err(e),
                Ok((d, m)) => match D::spec_decode(input.skip((n + m) as int)) {
                    Err(e) => Err(e),
                    Ok((dir, k)) => Ok(((name, d, dir), n + m + k)),
                },
            }
        },
    }
}

/// A frame grab reply reads as the channel name, then, only when that name
/// is not empty, the frame, then the trailing direction word, each in its
/// own wire form, whatever follows them, taking exactly their bytes; after
/// an empty name (a zero length) the frame reads back empty.
pub proof fn lemma_frame_data_layout<D: Codec>(
    name: Seq<char>,
    data: (usize, usize, Seq<u32>),
    dir: <D as DeepView>::V,
    rest: Seq<u8>,
)
    requires
        String::spec_wf(name),
        Vec2D::<u32>::spec_wf(data),
        D::spec_wf(dir),
    ensures
        name.len() > 0 ==> frame_data_decode::<D>(
            String::spec_encode(name) + Vec2D::<u32>::spec_encode(data) + D::spec_encode(dir)
                + rest,
        ) == Ok::<((Seq<char>, (usize, usize, Seq<u32>), <D as DeepView>::V), nat), IoError>(
            (
                (name, data, dir),
                (String::spec_encode(name) + Vec2D::<u32>::spec_encode(data) + D::spec_encode(
                    dir,
                )).len(),
            ),
        ),
        frame_data_decode::<D>(seq![0u8, 0u8, 0u8, 0u8] + D::spec_encode(dir) + rest) == Ok::<
            ((Seq<char>, (usize, usize, Seq<u32>), <D as DeepView>::V), nat),
            IoError,
        >(((Seq::<char>::empty(), (0usize, 0usize, Seq::<u32>::empty()), dir), 4 + D::spec_encode(
            dir,
        ).len())),
{
    let en = String::spec_encode(name);
    let ed = Vec2D::<u32>::spec_encode(data);
    let ex = D::spec_encode(dir);
    let all = en + ed + ex + rest;
    assert(all =~= en + (ed + ex + rest));
    String::lemma_roundtrip(name, ed + ex + rest);
    assert(all.skip(en.len() as int) =~= ed + (ex + rest));
    Vec2D::<u32>::lemma_roundtrip(data, ex + rest);
    assert(all.skip((en.len() + ed.len()) as int) =~= ex + rest);
    D::lemma_roundtrip(dir, rest);
    let empty = seq![0u8, 0u8, 0u8, 0u8] + ex + rest;
    lemma_string_wire(Seq::empty());
    assert(empty =~= String::spec_encode(Seq::empty()) + (ex + rest));
    String::lemma_roundtrip(Seq::empty(), ex + rest);
    assert(empty.skip(4) =~= ex + rest);
}

/// Reads a frame grab reply starting at `pos`.
pub fn read_frame_data<D: CodecRead>(input: &[u8], pos: usize) -> (r: Result<
    ((String, Vec2D<u32>, D), usize),
    IoError,
>)
    requires
        pos <= input@.len(),
    ensures
        match r {
            Ok(((name, data, dir), end)) => {
                &&& pos <= end <= input@.len()
                &&& frame_data_decode::<D>(input@.skip(pos as int)) == Ok::<
                    ((Seq<char>, (usize, usize, Seq<u32>), <D as DeepView>::V), nat),
                    IoError,
                >(((name@, data.deep_view(), dir.deep_view()), (end - pos) as nat))
            },
            Err(e) => frame_data_decode::<D>(input@.skip(pos as int)) == Err::<
                ((Seq<char>, (usize, usize, Seq<u32>), <D as DeepView>::V), nat),
                IoError,
            >(e),
        },
{
    let ghost s = input@.skip(pos as int);
    let (channel_name, at) = match String::codec_read(input, pos) {
        Ok(x) => x,
        Err(e) => return Err(e),
    };
    assert(s.skip(at - pos) =~= input@.skip(at as int));
    let (scan_data, at2) = if !channel_name.as_str().is_empty() {
        match Vec2D::<u32>::codec_read(input, at) {
            Ok(x) => x,
            Err(e) => return Err(e),
        }
    } else {
        let d: Vec2D<u32> = Vec2D::default();
        assert(d.deep_view() == (0usize, 0usize, Seq::<u32>::empty()));
        (d, at)
    };
    assert(s.skip(at2 - pos) =~= input@.skip(at2 as int));
    let (scan_dir, end) = match D::codec_read(input, at2) {
        Ok(x) => x,
        Err(e) => return Err(e),
    };
    Ok(((channel_name, scan_data, scan_dir), end))
}

/// The reply of [`FrameDataGrab`].
#[derive(Debug, Clone)]
pub struct FrameDataGrabResponse {
    /// the name of the channel selected by Channel index
    pub channel_name: String,
    /// the scan frame data of the selected channel, each value as the bits
    /// of an `f32`; empty when the channel name is empty
    pub scan_data: Vec2D<u32>,
    /// the scan direction, where 1 is up, and 0 is down
    pub scan_dir: ScanDir,
}

impl DeepView for FrameDataGrabResponse {
    type V = (Seq<char>, (usize, usize, Seq<u32>), ScanDir);

    open spec fn deep_view(&self) -> Self::V {
        (self.channel_name@, self.scan_data.deep_view(), self.scan_dir)
    }
}

impl CodecRead for FrameDataGrabResponse {
    open spec fn spec_decode(input: Seq<u8>) -> Result<
        ((Seq<char>, (usize, usize, Seq<u32>), ScanDir), nat),
        IoError,
    > {
        frame_data_decode::<ScanDir>(input)
    }

    proof fn lemma_decode_len(input: Seq<u8>) {
        String::lemma_decode_len(input);
        if let Ok((name, n)) = String::spec_decode(input) {
            Vec2D::<u32>::lemma_decode_len(input.skip(n as int));
            if let Ok((d, m)) = (if name.len() > 0 {
                Vec2D::<u32>::spec_decode(input.skip(n as int))
            } else {
                Ok(((0usize, 0usize, Seq::<u32>::empty()), 0))
            }) {
                ScanDir::lemma_decode_len(input.skip((n + m) as int));
            }
        }
    }

    fn codec_read(input: &[u8], pos: usize) -> (r: Result<(FrameDataGrabResponse, usize), IoError>) {
        match read_frame_data::<ScanDir>(input, pos) {
            Ok(((channel_name, scan_data, scan_dir), end)) => Ok(
                (FrameDataGrabResponse { channel_name, scan_data, scan_dir }, end),
            ),
            Err(e) => Err(e),
        }
    }
}

impl FrameDataGrabResponse {
    /// A reply that holds the channel name, the frame and the scan
    /// direction, in this order and each in its own wire form, reads back as
    /// them; one whose channel name is empty holds no frame and reads back an
    /// empty one.
    pub proof fn lemma_wire_layout(
        channel_name: Seq<char>,
        scan_data: (usize, usize, Seq<u32>),
        scan_dir: ScanDir,
        rest: Seq<u8>,
    )
        requires
            String::spec_wf(channel_name),
            Vec2D::<u32>::spec_wf(scan_data),
        ensures
            channel_name.len() > 0 ==> FrameDataGrabResponse::spec_decode(
                String::spec_encode(channel_name) + Vec2D::<u32>::spec_encode(scan_data)
                    + ScanDir::spec_encode(scan_dir) + rest,
            ) == Ok::<((Seq<char>, (usize, usize, Seq<u32>), ScanDir), nat), IoError>(
                (
                    (channel_name, scan_data, scan_dir),
                    (String::spec_encode(channel_name) + Vec2D::<u32>::spec_encode(scan_data)
                        + ScanDir::spec_encode(scan_dir)).len(),
                ),
            ),
            FrameDataGrabResponse::spec_decode(
                seq![0u8, 0u8, 0u8, 0u8] + ScanDir::spec_encode(scan_dir) + rest,
            ) == Ok::<((Seq<char>, (usize, usize, Seq<u32>), ScanDir), nat), IoError>(
                ((Seq::<char>::empty(), (0usize, 0usize, Seq::<u32>::empty()), scan_dir), 8),
            ),
    {
        lemma_frame_data_layout::<ScanDir>(channel_name, scan_data, scan_dir, rest);
    }
}

} // verus!
