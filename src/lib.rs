//! Host-side driver for a small virtual machine reached over a serial link:
//! the framed byte protocol with its CRC-8, the receive-side state machine that
//! assembles frames from a fragmented byte stream, the decoding of each
//! command's reply, and the decisions of an interactive session that keeps the
//! host's word table in step with the device's.
pub mod bytes;
pub mod client;
pub mod container;
pub mod error;
pub mod meta;
pub mod protocol;
pub mod repl;
pub mod serial;
pub mod transport;

pub use error::{Result, V4Error};
pub use protocol::{calc_crc8, Command, ErrorCode, Frame, FrameBuilder, Response};
