//! Client-side protocol logic for the Nanonis TCP programming interface:
//! the big-endian wire codec, the request/response packet framing, the
//! command catalogue, and the request/response state machine.

pub mod codec;
pub mod commands;
pub mod error;
pub mod fsm;
pub mod scan_watcher;

pub use codec::{
    ActionType, CodecRead, CodecWrite, FixedString, Footer, Header, LineDir, MotorAxis, MotorDir,
    ScanDir, ScanMovementType, Vec2D,
};
