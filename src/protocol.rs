pub mod crc8;
pub mod frame;
pub mod types;

pub use crc8::calc_crc8;
pub use frame::{Frame, FrameBuilder, Response, MAX_PAYLOAD_SIZE};
pub use types::{Command, ErrorCode};
