use vstd::prelude::*;

use crate::bytes::copy_range;
use crate::error::{ContainerError, V4Error};

verus! {

/// Size of the header of a bytecode container file.
pub const HEADER_SIZE: usize = 16;

/// The magic bytes that open a container file: "V4BC".
pub open spec fn container_magic() -> Seq<u8> {
    seq![0x56u8, 0x34u8, 0x42u8, 0x43u8]
}

/// Why a container file is refused, if it is.
pub open spec fn container_error(file: Seq<u8>) -> Option<ContainerError> {
    if file.len() < HEADER_SIZE {
        Some(ContainerError::TooShort { len: file.len() as usize })
    } else if file.subrange(0, 4) != container_magic() {
        Some(ContainerError::BadMagic)
    } else {
        None
    }
}

/// The header of a bytecode container file, all fields little-endian.
#[derive(Debug, Clone, Copy)]
pub struct V4BytecodeHeader {
    pub magic: [u8; 4],
    pub version_major: u8,
    pub version_minor: u8,
    pub flags: u16,
    pub code_size: u32,
    pub reserved: u32,
}

/// A 32-bit little-endian value at `at`.
pub open spec fn u32_at(s: Seq<u8>, at: int) -> nat {
    s[at] as nat + 256 * s[at + 1] as nat + 65536 * s[at + 2] as nat + 16777216 * s[at + 3] as nat
}

fn read_u32(s: &[u8], at: usize) -> (r: u32)
    requires
        at + 4 <= s@.len(),
    ensures
        r as nat == u32_at(s@, at as int),
{
    s[at] as u32 + 256 * (s[at + 1] as u32) + 65536 * (s[at + 2] as u32) + 16777216 * (
    s[at + 3] as u32)
}

impl V4BytecodeHeader {
    /// Reads the header at the start of a container file.
    pub fn parse(file: &[u8]) -> (r: Result<V4BytecodeHeader, V4Error>)
        ensures
            r is Ok <==> container_error(file@) is None,
            r matches Err(e) ==> e == V4Error::Container(container_error(file@)->Some_0),
            r matches Ok(h) ==> {
                &&& h.magic@ == container_magic()
                &&& h.version_major == file@[4]
                &&& h.version_minor == file@[5]
                &&& h.flags as nat == file@[6] as nat + 256 * file@[7] as nat
                &&& h.code_size as nat == u32_at(file@, 8)
                &&& h.reserved as nat == u32_at(file@, 12)
            },
    {
        if file.len() < HEADER_SIZE {
            return Err(V4Error::Container(ContainerError::TooShort { len: file.len() }));
        }
        if !(file[0] == 0x56 && file[1] == 0x34 && file[2] == 0x42 && file[3] == 0x43) {
            proof {
                if file@.subrange(0, 4) == container_magic() {
                    assert(file@.subrange(0, 4)[0] == file@[0]);
                    assert(file@.subrange(0, 4)[1] == file@[1]);
                    assert(file@.subrange(0, 4)[2] == file@[2]);
                    assert(file@.subrange(0, 4)[3] == file@[3]);
                }
            }
            return Err(V4Error::Container(ContainerError::BadMagic));
        }
        proof {
            assert(file@.subrange(0, 4) =~= container_magic());
        }
        let magic: [u8; 4] = [file[0], file[1], file[2], file[3]];
        let h = V4BytecodeHeader {
            magic,
            version_major: file[4],
            version_minor: file[5],
            flags: file[6] as u16 + 256 * (file[7] as u16),
            code_size: read_u32(file, 8),
            reserved: read_u32(file, 12),
        };
        proof {
            assert(h.magic@ =~= container_magic());
        }
        Ok(h)
    }
}

/// The bytecode that a container file carries: what follows its header. A
/// file that is malformed, or whose bytecode section is empty, is refused.
pub fn container_bytecode(file: &[u8]) -> (r: Result<Vec<u8>, V4Error>)
    ensures
        container_error(file@) matches Some(c) ==> r == Err::<Vec<u8>, V4Error>(
            V4Error::Container(c),
        ),
        container_error(file@) is None && file@.len() == HEADER_SIZE ==> r == Err::<
            Vec<u8>,
            V4Error,
        >(V4Error::Container(ContainerError::EmptyBytecode)),
        container_error(file@) is None && file@.len() > HEADER_SIZE ==> (r matches Ok(b) && b@
            == file@.subrange(HEADER_SIZE as int, file@.len() as int)),
{
    match V4BytecodeHeader::parse(file) {
        Err(e) => Err(e),
        Ok(_) => {
            if file.len() == HEADER_SIZE {
                Err(V4Error::Container(ContainerError::EmptyBytecode))
            } else {
                Ok(copy_range(file, HEADER_SIZE, file.len()))
            }
        },
    }
}

} // verus!
