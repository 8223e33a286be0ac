//! Protocol engine for a serial-attached WiFi modem driven by AT commands,
//! carrying a minimal publish-only MQTT-like exchange over its raw TCP socket.
//!
//! The engine is split into pure, verified decisions (what to write, which
//! state to enter, when an acknowledgment wait succeeds or gives up) and the
//! I/O that performs them, which lives outside this library.

pub mod ack;
pub mod args;
pub mod bytes;
pub mod commands;
pub mod console;
pub mod event_loop;
pub mod handlers;
pub mod packet;
pub mod payload;
pub mod utils;

pub use ack::{AckWaiter, WaitStatus};
pub use args::Args;
pub use console::{translate_line, ConsoleCommand, ScriptStep};
pub use event_loop::{Event, EventLoop, StateStore, TrackWifiState, WifiEvent, WifiState};
pub use handlers::{handle, AckWait, Reaction};
pub use packet::{connect_frame, publish_frame};
pub use utils::parse_bytes;
