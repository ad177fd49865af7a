use nanonis_tcp::codec::api::{LineDir, ScanMovementType};
use nanonis_tcp::commands::scan::WaitEndOfLineResponse;
use nanonis_tcp::scan_watcher::{frame_action, line_event, superseded_by, FrameAction, LineEvent};

fn reply(line_number: i32, movement_type: ScanMovementType) -> WaitEndOfLineResponse {
    WaitEndOfLineResponse { timed_out: false, line_number, movement_type, pass_number: 0 }
}

#[test]
fn lines_are_renumbered_from_zero() {
    assert_eq!(
        line_event(&reply(5, ScanMovementType::Scan(LineDir::Backward))),
        Some(LineEvent::Line { line_number: 4, line_dir: LineDir::Backward })
    );
    assert_eq!(line_event(&reply(0, ScanMovementType::StartOfScan)), Some(LineEvent::Start));
    assert_eq!(line_event(&reply(3, ScanMovementType::FrameCenter)), None);
}

#[test]
fn only_lines_supersede_lines() {
    let a = LineEvent::Line { line_number: 1, line_dir: LineDir::Forward };
    let b = LineEvent::Line { line_number: 2, line_dir: LineDir::Backward };
    assert!(superseded_by(&a, &b));
    assert!(!superseded_by(&a, &LineEvent::Start));
    assert!(!superseded_by(&LineEvent::Start, &b));
}

#[test]
fn frames_are_grabbed_in_the_requested_direction() {
    let fwd = LineEvent::Line { line_number: 7, line_dir: LineDir::Forward };
    assert_eq!(
        frame_action(&fwd, LineDir::Forward),
        FrameAction::Grab { line_number: 7, line_dir: LineDir::Forward }
    );
    assert_eq!(frame_action(&fwd, LineDir::Backward), FrameAction::Skip);
    assert_eq!(frame_action(&LineEvent::Start, LineDir::Backward), FrameAction::Start);
}
