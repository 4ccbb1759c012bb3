use vstd::prelude::*;

use crate::protocol::types::{Command, ErrorCode};

verus! {

/// The serial port crate's error, carried through unchanged.
#[verifier::external_type_specification]
#[verifier::external_body]
pub struct ExSerialError(serialport::Error);

/// std's I/O error, carried through unchanged.
#[verifier::external_type_specification]
#[verifier::external_body]
pub struct ExIoError(std::io::Error);

/// Malformed or oversized frames.
#[derive(Debug, Clone, Copy, PartialEq, Eq, Structural)]
pub enum ProtocolError {
    /// Fewer bytes than the smallest frame.
    TooShort { len: usize },
    /// The first byte is not the start marker.
    BadMarker { found: u8 },
    /// The declared length does not fit the frame.
    BadLength { declared: u16 },
    /// The status byte names no known status code.
    UnknownErrorCode { code: u8 },
    /// A payload over the frame limit.
    PayloadTooLarge { len: usize },
}

/// Malformed arguments of a session command.
#[derive(Debug, Clone, Copy, PartialEq, Eq, Structural)]
pub enum UsageError {
    /// The address is not a decimal number that fits 32 bits.
    InvalidAddress,
    /// The length is not a decimal number that fits 16 bits.
    InvalidLength,
    /// No word index was given.
    MissingWordIndex,
    /// The word index is not a decimal number that fits 16 bits.
    InvalidWordIndex,
}

/// Malformed bytecode container files.
#[derive(Debug, Clone, Copy, PartialEq, Eq, Structural)]
pub enum ContainerError {
    /// Shorter than the header.
    TooShort { len: usize },
    /// The header does not start with the magic bytes.
    BadMagic,
    /// Nothing follows the header.
    EmptyBytecode,
}

/// Every failure of the driver.
#[derive(Debug)]
pub enum V4Error {
    /// The serial port failed.
    Serial(serialport::Error),
    /// A frame was malformed.
    Protocol(ProtocolError),
    /// The checksum of a frame did not match its contents.
    CrcMismatch { expected: u8, actual: u8 },
    /// The device answered with a status other than success; `word` names
    /// the word whose installation failed, if any.
    Device { command: Command, code: ErrorCode, word: Option<String> },
    /// No complete frame arrived before the deadline.
    Timeout,
    /// An I/O operation failed.
    Io(std::io::Error),
    /// The compiler rejected the source.
    Compilation(String),
    /// The line editor failed.
    Repl(String),
    /// A session command had malformed arguments.
    Usage(UsageError),
    /// A bytecode container file was malformed.
    Container(ContainerError),
}

/// The result of every fallible operation of the driver.
pub type Result<T> = std::result::Result<T, V4Error>;

} // verus!
