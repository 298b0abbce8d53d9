//! Client-side connector engine for the Wirechat real-time chat protocol.
//!
//! The crate verifies the protocol engine itself: the session lifecycle
//! (connect, authenticate, run, shutdown), the decisions of the two
//! transport pumps, the event fan-out plan, and the wire codec that maps
//! commands and server notifications to and from text frames. The
//! network, timers and task plumbing live outside the library and drive
//! these functions.

use vstd::prelude::*;

pub mod codec;
pub mod config;
pub mod decode;
pub mod error;
pub mod event;
pub mod fanout;
pub mod laws;
pub mod pump;
pub mod session;

pub use codec::Command;
pub use config::Config;
pub use error::WirechatError;
pub use event::{Event, MessageEvent, UserEvent};
pub use session::Session;

verus! {

/// Protocol version carried in the hello frame.
pub const PROTOCOL_VERSION: u8 = 1;

} // verus!
