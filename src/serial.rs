use vstd::prelude::*;

verus! {

/// Baud rate at which the device's serial link runs.
pub const DEFAULT_BAUD_RATE: u32 = 115200;

/// How long a command waits for its reply unless told otherwise, in milliseconds.
pub const DEFAULT_TIMEOUT_MS: u64 = 5000;

} // verus!
