//! The decisions of the scan watcher: which End-of-Line replies become
//! events, which events a newer one makes stale, and what each event asks
//! the frame grabber to do. Waiting on the controller and the callbacks is
//! left to the caller.

use vstd::prelude::*;

use crate::codec::{LineDir, ScanMovementType};
use crate::commands::scan::WaitEndOfLineResponse;

verus! {

/// Something that happened at the end of a scan line.
#[derive(Debug, PartialEq, Eq, Clone, Copy, Structural)]
pub enum LineEvent {
    /// Line `line_number` (counted from 0) was scanned in direction `line_dir`.
    Line { line_number: usize, line_dir: LineDir },
    /// A new scan started.
    Start,
}

/// What the frame grabber does for an event.
#[derive(Debug, PartialEq, Eq, Clone, Copy, Structural)]
pub enum FrameAction {
    /// Grab the frame in direction `line_dir` and report it with `line_number`.
    Grab { line_number: usize, line_dir: LineDir },
    /// Report the start of a scan.
    Start,
    /// Do nothing.
    Skip,
}

/// The event an End-of-Line reply stands for: a scanned line (renumbered
/// from 0), the start of a scan, or none for a move to the frame center.
pub fn line_event(line: &WaitEndOfLineResponse) -> (r: Option<LineEvent>)
    requires
        line.movement_type is Scan ==> line.line_number != 0,
    ensures
        match line.movement_type {
            ScanMovementType::Scan(d) => r == Some(
                LineEvent::Line { line_number: ((line.line_number as usize) - 1) as usize, line_dir: d },
            ),
            ScanMovementType::StartOfScan => r == Some(LineEvent::Start),
            ScanMovementType::FrameCenter => r == None::<LineEvent>,
        },
{
    match line.movement_type {
        ScanMovementType::Scan(line_dir) => {
            let n = line.line_number;
            assert(n != 0 ==> (n as usize) != 0usize) by (bit_vector);
            Some(LineEvent::Line { line_number: n as usize - 1, line_dir })
        },
        ScanMovementType::StartOfScan => Some(LineEvent::Start),
        ScanMovementType::FrameCenter => None,
    }
}

/// Whether `newer`, already waiting behind `current`, makes `current`
/// stale: only a line is dropped, and only for a newer line.
pub fn superseded_by(current: &LineEvent, newer: &LineEvent) -> (r: bool)
    ensures
        r == (current is Line && newer is Line),
{
    matches!(current, LineEvent::Line { .. }) && matches!(newer, LineEvent::Line { .. })
}

/// What the frame grabber does for `event` while the user asks for lines in
/// direction `requested`: a line in that direction is grabbed, a line in
/// the other direction is skipped, a start is reported.
pub fn frame_action(event: &LineEvent, requested: LineDir) -> (r: FrameAction)
    ensures
        match *event {
            LineEvent::Line { line_number, line_dir } => if line_dir == requested {
                r == FrameAction::Grab { line_number, line_dir }
            } else {
                r == FrameAction::Skip
            },
            LineEvent::Start => r == FrameAction::Start,
        },
{
    match *event {
        LineEvent::Line { line_number, line_dir } => {
            if line_dir == requested {
                FrameAction::Grab { line_number, line_dir }
            } else {
                FrameAction::Skip
            }
        },
        LineEvent::Start => FrameAction::Start,
    }
}

} // verus!
