//! Coarse positioning motor commands.

use vstd::prelude::*;

use crate::codec::{Codec, CodecRead, CodecWrite, MotorAxis, MotorDir};
use crate::commands::{lemma_printable_name_fits, Command};
use crate::error::IoError;

verus! {

/// Moves the coarse positioning device (motor, piezo actuator...).
pub struct StartMove;

impl Command for StartMove {
    const NAME: &'static str = "Motor.StartMove";

    type Args = StartMoveArgs;

    type Response = ();

    proof fn lemma_name_fits() {
        reveal_strlit("Motor.StartMove");
        lemma_printable_name_fits(Self::NAME);
    }
}

impl StartMove {
    /// The name of this command is `"Motor.StartMove"`.
    pub proof fn lemma_name()
        ensures
            <StartMove as Command>::NAME@ == "Motor.StartMove"@,
    {
    }
}

/// The arguments of [`StartMove`].
#[derive(Debug)]
pub struct StartMoveArgs {
    /// selects in which direction to move. Note that depending on your motor
    /// controller and setup only the Z axis or even only Z- may work.
    pub dir: MotorDir,
    /// defines the number of steps to move in the specified direction
    pub num_steps: u16,
    /// the selection of the groups defined in the motor control module. If the motor
    /// doesn’t support the selection of groups, set it to 0.
    /// Valid values are 0=Group 1, 1=Group 2, 2=Group 3, 3=Group 4, 4=Group 5, 5=Group 6
    pub group: u32,
    /// defines if this function only returns when the motor reaches
    /// its destination
    pub blocking: bool,
}

impl DeepView for StartMoveArgs {
    type V = (MotorDir, u16, u32, bool);

    open spec fn deep_view(&self) -> (MotorDir, u16, u32, bool) {
        (self.dir.deep_view(), self.num_steps.deep_view(), self.group.deep_view(), self.blocking.deep_view())
    }
}

impl CodecWrite for StartMoveArgs {
    open spec fn spec_encode(v: (MotorDir, u16, u32, bool)) -> Seq<u8> {
        <(MotorDir, u16, u32, bool)>::spec_encode(v)
    }

    fn codec_write(&self, out: &mut Vec<u8>) {
        let ghost start = out@;
        self.dir.codec_write(out);
        self.num_steps.codec_write(out);
        self.group.codec_write(out);
        self.blocking.codec_write(out);
        assert(out@ =~= start + Self::spec_encode(self.deep_view()));
    }

    fn codec_len(&self) -> usize {
        self.dir.codec_len() + self.num_steps.codec_len() + self.group.codec_len() + self.blocking.codec_len()
    }
}

impl StartMoveArgs {
    /// The body holds `dir`, `num_steps`, `group` and `blocking`, one after the
    /// other in this order, each in its own wire form.
    pub proof fn lemma_wire_layout(
        dir: MotorDir,
        num_steps: u16,
        group: u32,
        blocking: bool,
    )
        ensures
            StartMoveArgs::spec_encode((dir, num_steps, group, blocking)) == MotorDir::spec_encode(dir)
                + u16::spec_encode(num_steps)
                + u32::spec_encode(group)
                + bool::spec_encode(blocking),
    {
        assert(StartMoveArgs::spec_encode((dir, num_steps, group, blocking)) =~= MotorDir::spec_encode(dir)
            + u16::spec_encode(num_steps)
            + u32::spec_encode(group)
            + bool::spec_encode(blocking));
    }
}

/// Returns the frequency (Hz) and amplitude (V) of the motor control module.
/// This function is only available for PD5, PMD4, and Attocube ANC150 devices.
pub struct FreqAmpGet;

impl Command for FreqAmpGet {
    const NAME: &'static str = "Motor.FreqAmpGet";

    type Args = FreqAmpGetArgs;

    type Response = FreqAmpGetResponse;

    proof fn lemma_name_fits() {
        reveal_strlit("Motor.FreqAmpGet");
        lemma_printable_name_fits(Self::NAME);
    }
}

impl FreqAmpGet {
    /// The name of this command is `"Motor.FreqAmpGet"`.
    pub proof fn lemma_name()
        ensures
            <FreqAmpGet as Command>::NAME@ == "Motor.FreqAmpGet"@,
    {
    }
}

/// The arguments of [`FreqAmpGet`].
#[derive(Debug)]
pub struct FreqAmpGetArgs {
    /// the axis to query
    pub axis: MotorAxis,
}

impl DeepView for FreqAmpGetArgs {
    type V = MotorAxis;

    open spec fn deep_view(&self) -> MotorAxis {
        self.axis.deep_view()
    }
}

impl CodecWrite for FreqAmpGetArgs {
    open spec fn spec_encode(v: MotorAxis) -> Seq<u8> {
        MotorAxis::spec_encode(v)
    }

    fn codec_write(&self, out: &mut Vec<u8>) {
        self.axis.codec_write(out);
    }

    fn codec_len(&self) -> usize {
        self.axis.codec_len()
    }
}

impl FreqAmpGetArgs {
    /// The body is `axis` in its own wire form.
    pub proof fn lemma_wire_layout(
        axis: MotorAxis,
    )
        ensures
            FreqAmpGetArgs::spec_encode(axis) == MotorAxis::spec_encode(axis),
    {
        assert(FreqAmpGetArgs::spec_encode(axis) =~= MotorAxis::spec_encode(axis));
    }
}

/// The reply of [`FreqAmpGet`].
#[derive(Debug)]
pub struct FreqAmpGetResponse {
    /// the frequency in Hz, as the bits of an `f32`
    pub frequency: u32,
    /// the amplitude in V, as the bits of an `f32`
    pub amplitude: u32,
}

impl DeepView for FreqAmpGetResponse {
    type V = (u32, u32);

    open spec fn deep_view(&self) -> (u32, u32) {
        (self.frequency.deep_view(), self.amplitude.deep_view())
    }
}

impl CodecRead for FreqAmpGetResponse {
    open spec fn spec_decode(input: Seq<u8>) -> Result<((u32, u32), nat), IoError> {
        <(u32, u32)>::spec_decode(input)
    }

    proof fn lemma_decode_len(input: Seq<u8>) {
        <(u32, u32)>::lemma_decode_len(input);
    }

    fn codec_read(input: &[u8], pos: usize) -> (r: Result<(FreqAmpGetResponse, usize), IoError>) {
        match <(u32, u32)>::codec_read(input, pos) {
            Ok(((frequency, amplitude), end)) => Ok((FreqAmpGetResponse { frequency, amplitude }, end)),
            Err(e) => Err(e),
        }
    }
}

impl FreqAmpGetResponse {
    /// A reply that holds `frequency` and `amplitude`, one after the other in
    /// this order and each in its own wire form, reads back as these fields,
    /// whatever follows them, and takes exactly their bytes.
    pub proof fn lemma_wire_layout(
        frequency: u32,
        amplitude: u32,
        rest: Seq<u8>,
    )
        ensures
            FreqAmpGetResponse::spec_decode(
                u32::spec_encode(frequency)
                    + u32::spec_encode(amplitude)
                    + rest,
            ) == Ok::<((u32, u32), nat), IoError>(
                (
                    (frequency, amplitude),
                    (u32::spec_encode(frequency)
                        + u32::spec_encode(amplitude)).len(),
                ),
            ),
    {
        let fields = u32::spec_encode(frequency)
            + u32::spec_encode(amplitude);
        assert(fields =~= <(u32, u32)>::spec_encode((frequency, amplitude)));
        <(u32, u32)>::lemma_roundtrip((frequency, amplitude), rest);
    }
}
} // verus!
