//! The small enumerations of the interface and the timeout argument.

use vstd::prelude::*;

use crate::codec::primitives::{
    be16, be32, from_be16, from_be32, lemma_be16_roundtrip, lemma_be32_roundtrip, lemma_u16_wire,
    lemma_u32_read, lemma_u32_wire,
};
use crate::codec::{Codec, CodecRead, CodecWrite};
use crate::error::IoError;

verus! {

/// The word sent for a timeout: its milliseconds truncated to an `i32`, or
/// `-1` for "wait indefinitely".
pub open spec fn timeout_word(v: Option<u128>) -> u32 {
    match v {
        Some(ms) => (ms as i32) as u32,
        None => (-1i32) as u32,
    }
}

/// A timeout in milliseconds; `None` waits indefinitely.
impl CodecWrite for Option<u128> {
    open spec fn spec_encode(v: Option<u128>) -> Seq<u8> {
        be32(timeout_word(v))
    }

    fn codec_write(&self, out: &mut Vec<u8>) {
        let w: i32 = match self {
            Some(ms) => *ms as i32,
            None => -1,
        };
        w.codec_write(out);
    }

    fn codec_len(&self) -> usize {
        4
    }
}

/// Actions that can be performed on a scan.
#[derive(Debug, Clone, Copy, PartialEq, Eq, Structural)]
pub enum ActionType {
    Start,
    Stop,
    Pause,
    Resume,
    Freeze,
    Unfreeze,
    GoToCenter,
}

impl ActionType {
    /// The number the controller knows the action by.
    pub open spec fn spec_code(self) -> u16 {
        match self {
            ActionType::Start => 0,
            ActionType::Stop => 1,
            ActionType::Pause => 2,
            ActionType::Resume => 3,
            ActionType::Freeze => 4,
            ActionType::Unfreeze => 5,
            ActionType::GoToCenter => 6,
        }
    }
}

impl From<ActionType> for u16 {
    fn from(v: ActionType) -> (r: u16) {
        match v {
            ActionType::Start => 0,
            ActionType::Stop => 1,
            ActionType::Pause => 2,
            ActionType::Resume => 3,
            ActionType::Freeze => 4,
            ActionType::Unfreeze => 5,
            ActionType::GoToCenter => 6,
        }
    }
}

impl vstd::std_specs::convert::FromSpecImpl<ActionType> for u16 {
    open spec fn obeys_from_spec() -> bool {
        true
    }

    open spec fn from_spec(v: ActionType) -> u16 {
        v.spec_code()
    }
}

impl DeepView for ActionType {
    type V = ActionType;

    open spec fn deep_view(&self) -> ActionType {
        *self
    }
}

impl CodecWrite for ActionType {
    open spec fn spec_encode(v: ActionType) -> Seq<u8> {
        be16(v.spec_code())
    }

    fn codec_write(&self, out: &mut Vec<u8>) {
        u16::from(*self).codec_write(out);
    }

    fn codec_len(&self) -> usize {
        2
    }
}

/// The direction a scan runs in.
#[derive(Debug, Clone, Copy, PartialEq, Eq, Structural)]
pub enum ScanDir {
    Down,
    Up,
}

impl ScanDir {
    /// The number the controller knows the direction by.
    pub open spec fn spec_code(self) -> u32 {
        match self {
            ScanDir::Down => 0,
            ScanDir::Up => 1,
        }
    }
}

impl From<ScanDir> for u32 {
    fn from(v: ScanDir) -> (r: u32) {
        match v {
            ScanDir::Down => 0,
            ScanDir::Up => 1,
        }
    }
}

impl vstd::std_specs::convert::FromSpecImpl<ScanDir> for u32 {
    open spec fn obeys_from_spec() -> bool {
        true
    }

    open spec fn from_spec(v: ScanDir) -> u32 {
        v.spec_code()
    }
}

impl DeepView for ScanDir {
    type V = ScanDir;

    open spec fn deep_view(&self) -> ScanDir {
        *self
    }
}

impl CodecWrite for ScanDir {
    open spec fn spec_encode(v: ScanDir) -> Seq<u8> {
        be32(v.spec_code())
    }

    fn codec_write(&self, out: &mut Vec<u8>) {
        u32::from(*self).codec_write(out);
    }

    fn codec_len(&self) -> usize {
        4
    }
}

impl CodecRead for ScanDir {
    /// Any number other than 0 (down) and 1 (up) is refused.
    open spec fn spec_decode(input: Seq<u8>) -> Result<(ScanDir, nat), IoError> {
        if input.len() < 4 {
            Err(IoError::UnexpectedEof)
        } else if from_be32(input) == 0 {
            Ok((ScanDir::Down, 4))
        } else if from_be32(input) == 1 {
            Ok((ScanDir::Up, 4))
        } else {
            Err(IoError::InvalidScanDir(from_be32(input)))
        }
    }

    proof fn lemma_decode_len(input: Seq<u8>) {
    }

    fn codec_read(input: &[u8], pos: usize) -> (r: Result<(ScanDir, usize), IoError>) {
        match u32::codec_read(input, pos) {
            Ok((0, end)) => Ok((ScanDir::Down, end)),
            Ok((1, end)) => Ok((ScanDir::Up, end)),
            Ok((w, _)) => Err(IoError::InvalidScanDir(w)),
            Err(e) => Err(e),
        }
    }
}

impl Codec for ScanDir {
    open spec fn spec_wf(v: ScanDir) -> bool {
        true
    }

    proof fn lemma_roundtrip(v: ScanDir, rest: Seq<u8>) {
        lemma_be32_roundtrip(v.spec_code(), rest);
    }
}

/// The direction a scan line is traversed in.
#[derive(Debug, Clone, Copy, PartialEq, Eq, Structural)]
pub enum LineDir {
    Forward,
    Backward,
}

impl LineDir {
    /// The number the controller knows the direction by.
    pub open spec fn spec_code(self) -> u32 {
        match self {
            LineDir::Forward => 1,
            LineDir::Backward => 0,
        }
    }
}

impl From<LineDir> for u32 {
    fn from(v: LineDir) -> (r: u32) {
        match v {
            LineDir::Forward => 1,
            LineDir::Backward => 0,
        }
    }
}

impl vstd::std_specs::convert::FromSpecImpl<LineDir> for u32 {
    open spec fn obeys_from_spec() -> bool {
        true
    }

    open spec fn from_spec(v: LineDir) -> u32 {
        v.spec_code()
    }
}

impl DeepView for LineDir {
    type V = LineDir;

    open spec fn deep_view(&self) -> LineDir {
        *self
    }
}

impl CodecWrite for LineDir {
    open spec fn spec_encode(v: LineDir) -> Seq<u8> {
        be32(v.spec_code())
    }

    fn codec_write(&self, out: &mut Vec<u8>) {
        u32::from(*self).codec_write(out);
    }

    fn codec_len(&self) -> usize {
        4
    }
}

impl CodecRead for LineDir {
    /// Any number other than 1 (forward) and 0 (backward) is refused.
    open spec fn spec_decode(input: Seq<u8>) -> Result<(LineDir, nat), IoError> {
        if input.len() < 4 {
            Err(IoError::UnexpectedEof)
        } else if from_be32(input) == 1 {
            Ok((LineDir::Forward, 4))
        } else if from_be32(input) == 0 {
            Ok((LineDir::Backward, 4))
        } else {
            Err(IoError::InvalidLineDir(from_be32(input)))
        }
    }

    proof fn lemma_decode_len(input: Seq<u8>) {
    }

    fn codec_read(input: &[u8], pos: usize) -> (r: Result<(LineDir, usize), IoError>) {
        match u32::codec_read(input, pos) {
            Ok((1, end)) => Ok((LineDir::Forward, end)),
            Ok((0, end)) => Ok((LineDir::Backward, end)),
            Ok((w, _)) => Err(IoError::InvalidLineDir(w)),
            Err(e) => Err(e),
        }
    }
}

impl Codec for LineDir {
    open spec fn spec_wf(v: LineDir) -> bool {
        true
    }

    proof fn lemma_roundtrip(v: LineDir, rest: Seq<u8>) {
        lemma_be32_roundtrip(v.spec_code(), rest);
    }
}

/// Where the tip moved when a scan line ended.
#[derive(Debug, Clone, Copy, PartialEq, Eq, Structural)]
pub enum ScanMovementType {
    /// Along a scan line, in the given direction.
    Scan(LineDir),
    /// To the center of the scan frame.
    FrameCenter,
    /// To the start point of the scan frame, right before scanning.
    StartOfScan,
}

impl ScanMovementType {
    /// The number the controller knows the movement by.
    pub open spec fn spec_code(self) -> u16 {
        match self {
            ScanMovementType::Scan(LineDir::Forward) => 0,
            ScanMovementType::Scan(LineDir::Backward) => 1,
            ScanMovementType::FrameCenter => 2,
            ScanMovementType::StartOfScan => 3,
        }
    }
}

impl DeepView for ScanMovementType {
    type V = ScanMovementType;

    open spec fn deep_view(&self) -> ScanMovementType {
        *self
    }
}

impl CodecWrite for ScanMovementType {
    open spec fn spec_encode(v: ScanMovementType) -> Seq<u8> {
        be16(v.spec_code())
    }

    fn codec_write(&self, out: &mut Vec<u8>) {
        let code: u16 = match self {
            ScanMovementType::Scan(LineDir::Forward) => 0,
            ScanMovementType::Scan(LineDir::Backward) => 1,
            ScanMovementType::FrameCenter => 2,
            ScanMovementType::StartOfScan => 3,
        };
        code.codec_write(out);
    }

    fn codec_len(&self) -> usize {
        2
    }
}

impl CodecRead for ScanMovementType {
    /// Any number above 3 is refused.
    open spec fn spec_decode(input: Seq<u8>) -> Result<(ScanMovementType, nat), IoError> {
        if input.len() < 2 {
            Err(IoError::UnexpectedEof)
        } else if from_be16(input) == 0 {
            Ok((ScanMovementType::Scan(LineDir::Forward), 2))
        } else if from_be16(input) == 1 {
            Ok((ScanMovementType::Scan(LineDir::Backward), 2))
        } else if from_be16(input) == 2 {
            Ok((ScanMovementType::FrameCenter, 2))
        } else if from_be16(input) == 3 {
            Ok((ScanMovementType::StartOfScan, 2))
        } else {
            Err(IoError::InvalidScanMovementType(from_be16(input)))
        }
    }

    proof fn lemma_decode_len(input: Seq<u8>) {
    }

    fn codec_read(input: &[u8], pos: usize) -> (r: Result<(ScanMovementType, usize), IoError>) {
        match u16::codec_read(input, pos) {
            Ok((0, end)) => Ok((ScanMovementType::Scan(LineDir::Forward), end)),
            Ok((1, end)) => Ok((ScanMovementType::Scan(LineDir::Backward), end)),
            Ok((2, end)) => Ok((ScanMovementType::FrameCenter, end)),
            Ok((3, end)) => Ok((ScanMovementType::StartOfScan, end)),
            Ok((n, _)) => Err(IoError::InvalidScanMovementType(n)),
            Err(e) => Err(e),
        }
    }
}

impl Codec for ScanMovementType {
    open spec fn spec_wf(v: ScanMovementType) -> bool {
        true
    }

    proof fn lemma_roundtrip(v: ScanMovementType, rest: Seq<u8>) {
        lemma_be16_roundtrip(v.spec_code(), rest);
    }
}

/// Directions a coarse positioning motor can move in.
#[derive(Debug, Clone, Copy, PartialEq, Eq, Structural)]
pub enum MotorDir {
    XPos,
    XNeg,
    YPos,
    YNeg,
    ZPos,
    ZNeg,
}

impl MotorDir {
    /// The number the controller knows the direction by.
    pub open spec fn spec_code(self) -> u32 {
        match self {
            MotorDir::XPos => 0,
            MotorDir::XNeg => 1,
            MotorDir::YPos => 2,
            MotorDir::YNeg => 3,
            MotorDir::ZPos => 4,
            MotorDir::ZNeg => 5,
        }
    }
}

impl From<MotorDir> for u32 {
    fn from(v: MotorDir) -> (r: u32) {
        match v {
            MotorDir::XPos => 0,
            MotorDir::XNeg => 1,
            MotorDir::YPos => 2,
            MotorDir::YNeg => 3,
            MotorDir::ZPos => 4,
            MotorDir::ZNeg => 5,
        }
    }
}

impl vstd::std_specs::convert::FromSpecImpl<MotorDir> for u32 {
    open spec fn obeys_from_spec() -> bool {
        true
    }

    open spec fn from_spec(v: MotorDir) -> u32 {
        v.spec_code()
    }
}

impl DeepView for MotorDir {
    type V = MotorDir;

    open spec fn deep_view(&self) -> MotorDir {
        *self
    }
}

impl CodecWrite for MotorDir {
    open spec fn spec_encode(v: MotorDir) -> Seq<u8> {
        be32(v.spec_code())
    }

    fn codec_write(&self, out: &mut Vec<u8>) {
        u32::from(*self).codec_write(out);
    }

    fn codec_len(&self) -> usize {
        4
    }
}

/// The motor axis a query is about.
#[derive(Debug, Clone, Copy, PartialEq, Eq, Structural)]
pub enum MotorAxis {
    Default,
    X,
    Y,
    Z,
}

impl MotorAxis {
    /// The number the controller knows the axis by.
    pub open spec fn spec_code(self) -> u16 {
        match self {
            MotorAxis::Default => 0,
            MotorAxis::X => 1,
            MotorAxis::Y => 2,
            MotorAxis::Z => 3,
        }
    }
}

impl From<MotorAxis> for u16 {
    fn from(v: MotorAxis) -> (r: u16) {
        match v {
            MotorAxis::Default => 0,
            MotorAxis::X => 1,
            MotorAxis::Y => 2,
            MotorAxis::Z => 3,
        }
    }
}

impl vstd::std_specs::convert::FromSpecImpl<MotorAxis> for u16 {
    open spec fn obeys_from_spec() -> bool {
        true
    }

    open spec fn from_spec(v: MotorAxis) -> u16 {
        v.spec_code()
    }
}

impl DeepView for MotorAxis {
    type V = MotorAxis;

    open spec fn deep_view(&self) -> MotorAxis {
        *self
    }
}

impl CodecWrite for MotorAxis {
    open spec fn spec_encode(v: MotorAxis) -> Seq<u8> {
        be16(v.spec_code())
    }

    fn codec_write(&self, out: &mut Vec<u8>) {
        u16::from(*self).codec_write(out);
    }

    fn codec_len(&self) -> usize {
        2
    }
}

/// A timeout of `ms` milliseconds is sent as the word that holds the low
/// 32 bits of `ms`: one that fits an `i32` reads back as `ms` itself, and
/// no timeout is sent as `-1` (all bits set).
pub proof fn lemma_timeout_wire(ms: u128)
    ensures
        <Option<u128>>::spec_encode(Some(ms)) == u32::spec_encode((ms % 0x1_0000_0000) as u32),
        ms <= i32::MAX ==> i32::spec_decode(<Option<u128>>::spec_encode(Some(ms))) == Ok::<
            (i32, nat),
            IoError,
        >((ms as i32, 4)),
        <Option<u128>>::spec_encode(None) == seq![0xffu8, 0xffu8, 0xffu8, 0xffu8],
{
    assert((ms as i32) as u32 == (ms % 0x1_0000_0000) as u32) by (bit_vector);
    lemma_be32_roundtrip((ms as i32) as u32, Seq::empty());
    assert(be32((ms as i32) as u32) + Seq::<u8>::empty() =~= be32((ms as i32) as u32));
    assert(ms <= 0x7fff_ffffu128 ==> ((ms as i32) as u32) as i32 == ms as i32) by (bit_vector);
    assert((-1i32) as u32 == 0xffff_ffffu32) by (bit_vector);
    lemma_u32_wire(0xffff_ffffu32);
}

/// Each scan action is sent as the number the controller documents for
/// it: 0 start, 1 stop, 2 pause, 3 resume, 4 freeze, 5 unfreeze,
/// 6 go to center.
pub proof fn lemma_action_wire(a: ActionType)
    ensures
        a == ActionType::Start ==> a.spec_code() == 0 && ActionType::spec_encode(a) == seq![0u8, 0u8],
        a == ActionType::Stop ==> a.spec_code() == 1 && ActionType::spec_encode(a) == seq![0u8, 1u8],
        a == ActionType::Pause ==> a.spec_code() == 2 && ActionType::spec_encode(a) == seq![0u8, 2u8],
        a == ActionType::Resume ==> a.spec_code() == 3 && ActionType::spec_encode(a) == seq![0u8, 3u8],
        a == ActionType::Freeze ==> a.spec_code() == 4 && ActionType::spec_encode(a) == seq![0u8, 4u8],
        a == ActionType::Unfreeze ==> a.spec_code() == 5 && ActionType::spec_encode(a) == seq![0u8, 5u8],
        a == ActionType::GoToCenter ==> a.spec_code() == 6 && ActionType::spec_encode(a) == seq![0u8, 6u8],
{
    lemma_u16_wire(a.spec_code());
}

/// A scan direction is sent as 0 for down and 1 for up, and those are the
/// only words that read back as a direction.
pub proof fn lemma_scan_dir_wire(d: ScanDir, w: u32, rest: Seq<u8>)
    ensures
        d == ScanDir::Down ==> d.spec_code() == 0 && ScanDir::spec_encode(d) == seq![0u8, 0u8, 0u8, 0u8],
        d == ScanDir::Up ==> d.spec_code() == 1 && ScanDir::spec_encode(d) == seq![0u8, 0u8, 0u8, 1u8],
        ScanDir::spec_decode(u32::spec_encode(w) + rest) == if w == 0 {
            Ok::<(ScanDir, nat), IoError>((ScanDir::Down, 4))
        } else if w == 1 {
            Ok((ScanDir::Up, 4))
        } else {
            Err(IoError::InvalidScanDir(w))
        },
{
    lemma_u32_wire(d.spec_code());
    lemma_be32_roundtrip(w, rest);
}

/// A line direction is sent as 1 for forward and 0 for backward, and those
/// are the only words that read back as a direction.
pub proof fn lemma_line_dir_wire(d: LineDir, w: u32, rest: Seq<u8>)
    ensures
        d == LineDir::Forward ==> d.spec_code() == 1 && LineDir::spec_encode(d) == seq![0u8, 0u8, 0u8, 1u8],
        d == LineDir::Backward ==> d.spec_code() == 0 && LineDir::spec_encode(d) == seq![0u8, 0u8, 0u8, 0u8],
        LineDir::spec_decode(u32::spec_encode(w) + rest) == if w == 1 {
            Ok::<(LineDir, nat), IoError>((LineDir::Forward, 4))
        } else if w == 0 {
            Ok((LineDir::Backward, 4))
        } else {
            Err(IoError::InvalidLineDir(w))
        },
{
    lemma_u32_wire(d.spec_code());
    lemma_be32_roundtrip(w, rest);
}

/// The movement at the end of a scan line is sent as 0 (forward scan),
/// 1 (backward scan), 2 (to the frame center) or 3 (to the start of the
/// scan); any other number is refused.
pub proof fn lemma_scan_movement_wire(m: ScanMovementType, w: u16, rest: Seq<u8>)
    ensures
        m == ScanMovementType::Scan(LineDir::Forward) ==> ScanMovementType::spec_encode(m) == seq![0u8, 0u8],
        m == ScanMovementType::Scan(LineDir::Backward) ==> ScanMovementType::spec_encode(m) == seq![0u8, 1u8],
        m == ScanMovementType::FrameCenter ==> ScanMovementType::spec_encode(m) == seq![0u8, 2u8],
        m == ScanMovementType::StartOfScan ==> ScanMovementType::spec_encode(m) == seq![0u8, 3u8],
        ScanMovementType::spec_decode(u16::spec_encode(w) + rest) == if w == 0 {
            Ok::<(ScanMovementType, nat), IoError>((ScanMovementType::Scan(LineDir::Forward), 2))
        } else if w == 1 {
            Ok((ScanMovementType::Scan(LineDir::Backward), 2))
        } else if w == 2 {
            Ok((ScanMovementType::FrameCenter, 2))
        } else if w == 3 {
            Ok((ScanMovementType::StartOfScan, 2))
        } else {
            Err(IoError::InvalidScanMovementType(w))
        },
{
    lemma_u16_wire(m.spec_code());
    lemma_be16_roundtrip(w, rest);
}

/// A motor direction is sent as 0 (X+), 1 (X-), 2 (Y+), 3 (Y-), 4 (Z+) or
/// 5 (Z-).
pub proof fn lemma_motor_dir_wire(d: MotorDir)
    ensures
        d == MotorDir::XPos ==> d.spec_code() == 0 && MotorDir::spec_encode(d) == seq![0u8, 0u8, 0u8, 0u8],
        d == MotorDir::XNeg ==> d.spec_code() == 1 && MotorDir::spec_encode(d) == seq![0u8, 0u8, 0u8, 1u8],
        d == MotorDir::YPos ==> d.spec_code() == 2 && MotorDir::spec_encode(d) == seq![0u8, 0u8, 0u8, 2u8],
        d == MotorDir::YNeg ==> d.spec_code() == 3 && MotorDir::spec_encode(d) == seq![0u8, 0u8, 0u8, 3u8],
        d == MotorDir::ZPos ==> d.spec_code() == 4 && MotorDir::spec_encode(d) == seq![0u8, 0u8, 0u8, 4u8],
        d == MotorDir::ZNeg ==> d.spec_code() == 5 && MotorDir::spec_encode(d) == seq![0u8, 0u8, 0u8, 5u8],
{
    lemma_u32_wire(d.spec_code());
}

/// A motor axis is sent as 0 (the default axis), 1 (X), 2 (Y) or 3 (Z).
pub proof fn lemma_motor_axis_wire(a: MotorAxis)
    ensures
        a == MotorAxis::Default ==> a.spec_code() == 0 && MotorAxis::spec_encode(a) == seq![0u8, 0u8],
        a == MotorAxis::X ==> a.spec_code() == 1 && MotorAxis::spec_encode(a) == seq![0u8, 1u8],
        a == MotorAxis::Y ==> a.spec_code() == 2 && MotorAxis::spec_encode(a) == seq![0u8, 2u8],
        a == MotorAxis::Z ==> a.spec_code() == 3 && MotorAxis::spec_encode(a) == seq![0u8, 3u8],
{
    lemma_u16_wire(a.spec_code());
}

} // verus!
