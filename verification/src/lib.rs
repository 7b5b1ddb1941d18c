//! Verified decision logic for a voice-driven mix-automation assistant:
//! the runtime state machine, command routing, safety checks, MIDI message
//! framing and the bookkeeping around score timelines and audio buses.
pub mod audio;
pub mod control;
pub mod execute;
pub mod hotkey;
pub mod ids;
pub mod intent;
pub mod midi;
pub mod monitor;
pub mod mtc;
pub mod plan;
pub mod restore;
pub mod session;
pub mod spec_check;
pub mod speech;
pub mod state_machine;
pub mod sync;
pub mod tempo;
pub mod text;
pub mod timeline;
pub mod types;
