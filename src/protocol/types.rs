use vstd::prelude::*;

verus! {

/// Commands of the wire protocol, each with a fixed one-byte code.
#[derive(Debug, Clone, Copy, PartialEq, Eq, Structural)]
pub enum Command {
    /// Execute bytecode (installs any word definitions it carries).
    Exec,
    /// Connection check.
    Ping,
    /// VM reset.
    Reset,
    /// Data stack and return stack contents.
    QueryStack,
    /// Memory dump.
    QueryMemory,
    /// Name and bytecode of an installed word.
    QueryWord,
}

/// The wire code of each command.
pub open spec fn command_code(c: Command) -> u8 {
    match c {
        Command::Exec => 0x10,
        Command::Ping => 0x20,
        Command::Reset => 0xFF,
        Command::QueryStack => 0x30,
        Command::QueryMemory => 0x31,
        Command::QueryWord => 0x32,
    }
}

impl Command {
    /// The one-byte wire code of this command.
    pub fn code(&self) -> (r: u8)
        ensures
            r == command_code(*self),
    {
        match self {
            Command::Exec => 0x10,
            Command::Ping => 0x20,
            Command::Reset => 0xFF,
            Command::QueryStack => 0x30,
            Command::QueryMemory => 0x31,
            Command::QueryWord => 0x32,
        }
    }
}

/// Status codes that the device returns.
#[derive(Debug, Clone, Copy, PartialEq, Eq, Structural)]
pub enum ErrorCode {
    /// Success.
    Success,
    /// Generic error.
    Error,
    /// Invalid frame format.
    InvalidFrame,
    /// Buffer full.
    BufferFull,
    /// VM execution error.
    VmError,
}

/// The wire value of each status code.
pub open spec fn error_code_value(e: ErrorCode) -> u8 {
    match e {
        ErrorCode::Success => 0x00,
        ErrorCode::Error => 0x01,
        ErrorCode::InvalidFrame => 0x02,
        ErrorCode::BufferFull => 0x03,
        ErrorCode::VmError => 0x04,
    }
}

/// The status code that a wire value stands for, if any.
pub open spec fn error_code_of(v: u8) -> Option<ErrorCode> {
    if v == 0x00 {
        Some(ErrorCode::Success)
    } else if v == 0x01 {
        Some(ErrorCode::Error)
    } else if v == 0x02 {
        Some(ErrorCode::InvalidFrame)
    } else if v == 0x03 {
        Some(ErrorCode::BufferFull)
    } else if v == 0x04 {
        Some(ErrorCode::VmError)
    } else {
        None
    }
}

/// The human-readable name of each status code.
pub open spec fn error_code_name(e: ErrorCode) -> Seq<char> {
    match e {
        ErrorCode::Success => "OK"@,
        ErrorCode::Error => "ERROR"@,
        ErrorCode::InvalidFrame => "INVALID_FRAME"@,
        ErrorCode::BufferFull => "BUFFER_FULL"@,
        ErrorCode::VmError => "VM_ERROR"@,
    }
}

/// Reading a status code back from its wire value gives the same code.
pub proof fn lemma_error_code_round_trip(e: ErrorCode)
    ensures
        error_code_of(error_code_value(e)) == Some(e),
{
}

impl ErrorCode {
    /// The status code of a wire value; `None` for a value that names no code.
    pub fn from_u8(value: u8) -> (r: Option<Self>)
        ensures
            r == error_code_of(value),
            r matches Some(e) ==> error_code_value(e) == value,
    {
        match value {
            0x00 => Some(ErrorCode::Success),
            0x01 => Some(ErrorCode::Error),
            0x02 => Some(ErrorCode::InvalidFrame),
            0x03 => Some(ErrorCode::BufferFull),
            0x04 => Some(ErrorCode::VmError),
            _ => None,
        }
    }

    /// The wire value of this status code.
    pub fn value(&self) -> (r: u8)
        ensures
            r == error_code_value(*self),
    {
        match self {
            ErrorCode::Success => 0x00,
            ErrorCode::Error => 0x01,
            ErrorCode::InvalidFrame => 0x02,
            ErrorCode::BufferFull => 0x03,
            ErrorCode::VmError => 0x04,
        }
    }

    /// The human-readable name of this status code.
    pub fn name(&self) -> (r: &'static str)
        ensures
            r@ == error_code_name(*self),
    {
        match self {
            ErrorCode::Success => "OK",
            ErrorCode::Error => "ERROR",
            ErrorCode::InvalidFrame => "INVALID_FRAME",
            ErrorCode::BufferFull => "BUFFER_FULL",
            ErrorCode::VmError => "VM_ERROR",
        }
    }
}

} // verus!
