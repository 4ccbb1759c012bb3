use vstd::prelude::*;

use crate::error::{ProtocolError, V4Error};
use crate::protocol::crc8::{calc_crc8, crc8};
use crate::protocol::types::{command_code, error_code_of, error_code_value, Command, ErrorCode};

verus! {

/// First byte of every frame.
pub const START_MARKER: u8 = 0xA5;

/// Largest payload that a request frame may carry.
pub const MAX_PAYLOAD_SIZE: usize = 512;

/// Low byte of a little-endian 16-bit length field.
pub open spec fn len_lo(n: nat) -> u8 {
    (n % 256) as u8
}

/// High byte of a little-endian 16-bit length field.
pub open spec fn len_hi(n: nat) -> u8 {
    ((n / 256) % 256) as u8
}

/// A 16-bit little-endian value.
pub open spec fn le_u16(lo: u8, hi: u8) -> nat {
    lo as nat + 256 * hi as nat
}

/// The bytes covered by the checksum: length field, command or status byte, data.
pub open spec fn frame_body(len_field: nat, head: u8, data: Seq<u8>) -> Seq<u8> {
    seq![len_lo(len_field), len_hi(len_field), head] + data
}

/// A complete frame on the wire: marker, body, checksum of the body.
pub open spec fn wire_frame(len_field: nat, head: u8, data: Seq<u8>) -> Seq<u8> {
    seq![START_MARKER] + frame_body(len_field, head, data) + seq![crc8(frame_body(len_field, head, data))]
}

/// The bytes of a request frame: its length field counts the payload only.
pub open spec fn request_bytes(command: Command, payload: Seq<u8>) -> Seq<u8> {
    wire_frame(payload.len(), command_code(command), payload)
}

/// The bytes of a reply frame: its length field counts the status byte and the data.
pub open spec fn reply_bytes(code: ErrorCode, data: Seq<u8>) -> Seq<u8> {
    wire_frame(data.len() + 1, error_code_value(code), data)
}

/// What `decode_response` makes of a buffer that holds a minimal reply.
pub open spec fn decode_response_spec(s: Seq<u8>) -> Result<ErrorCode, V4Error> {
    if s.len() < 5 {
        Err(V4Error::Protocol(ProtocolError::TooShort { len: s.len() as usize }))
    } else if s[0] != START_MARKER {
        Err(V4Error::Protocol(ProtocolError::BadMarker { found: s[0] }))
    } else if le_u16(s[1], s[2]) != 1 {
        Err(V4Error::Protocol(ProtocolError::BadLength { declared: le_u16(s[1], s[2]) as u16 }))
    } else if crc8(s.subrange(1, 4)) != s[4] {
        Err(V4Error::CrcMismatch { expected: crc8(s.subrange(1, 4)), actual: s[4] })
    } else if error_code_of(s[3]) is None {
        Err(V4Error::Protocol(ProtocolError::UnknownErrorCode { code: s[3] }))
    } else {
        Ok(error_code_of(s[3])->Some_0)
    }
}

/// A request frame: a command and a payload of at most `MAX_PAYLOAD_SIZE` bytes.
#[derive(Debug, Clone)]
pub struct Frame {
    pub command: Command,
    pub payload: Vec<u8>,
}

impl Frame {
    /// The payload fits a frame.
    pub open spec fn wf(&self) -> bool {
        self.payload@.len() <= MAX_PAYLOAD_SIZE
    }

    /// A frame of `command` carrying `payload`; a payload over
    /// `MAX_PAYLOAD_SIZE` bytes is refused.
    pub fn new(command: Command, payload: Vec<u8>) -> (r: Result<Self, V4Error>)
        ensures
            payload@.len() <= MAX_PAYLOAD_SIZE <==> r is Ok,
            r matches Ok(f) ==> f.command == command && f.payload@ == payload@ && f.wf(),
            r matches Err(e) ==> e == V4Error::Protocol(
                ProtocolError::PayloadTooLarge { len: payload@.len() as usize },
            ),
    {
        if payload.len() > MAX_PAYLOAD_SIZE {
            return Err(V4Error::Protocol(ProtocolError::PayloadTooLarge { len: payload.len() }));
        }
        Ok(Frame { command, payload })
    }

    /// The wire bytes of this frame: marker, little-endian payload length,
    /// command code, payload, and the CRC-8 of everything after the marker.
    pub fn encode(&self) -> (r: Vec<u8>)
        requires
            self.wf(),
        ensures
            r@ == request_bytes(self.command, self.payload@),
            r@.len() == self.payload@.len() + 5,
    {
        let n = self.payload.len();
        let mut body: Vec<u8> = Vec::with_capacity(n + 3);
        body.push((n % 256) as u8);
        body.push((n / 256) as u8);
        body.push(self.command.code());
        let mut i: usize = 0;
        while i < n
            invariant
                n == self.payload@.len(),
                i <= n,
                body@ == seq![len_lo(n as nat), len_hi(n as nat), command_code(self.command)]
                    + self.payload@.subrange(0, i as int),
            decreases n - i,
        {
            body.push(self.payload[i]);
            proof {
                assert(self.payload@.subrange(0, i as int + 1) =~= self.payload@.subrange(
                    0,
                    i as int,
                ).push(self.payload@[i as int]));
            }
            i = i + 1;
        }
        proof {
            assert(self.payload@.subrange(0, n as int) =~= self.payload@);
        }
        let crc = calc_crc8(body.as_slice());
        let mut frame: Vec<u8> = Vec::with_capacity(n + 5);
        frame.push(START_MARKER);
        let mut j: usize = 0;
        while j < body.len()
            invariant
                j <= body@.len(),
                frame@ == seq![START_MARKER] + body@.subrange(0, j as int),
            decreases body@.len() - j,
        {
            frame.push(body[j]);
            proof {
                assert(body@.subrange(0, j as int + 1) =~= body@.subrange(0, j as int).push(
                    body@[j as int],
                ));
            }
            j = j + 1;
        }
        frame.push(crc);
        proof {
            assert(body@.subrange(0, body@.len() as int) =~= body@);
            assert(frame@ =~= request_bytes(self.command, self.payload@));
        }
        frame
    }

    /// The status code of a minimal reply `[marker][1][0][status][crc]`;
    /// bytes after the first five are not read.
    pub fn decode_response(data: &[u8]) -> (r: Result<ErrorCode, V4Error>)
        ensures
            r == decode_response_spec(data@),
            data@.len() < 5 ==> r is Err,
            data@.len() >= 5 && data@[0] != START_MARKER ==> r is Err,
            data@.len() >= 5 && le_u16(data@[1], data@[2]) != 1 ==> r is Err,
    {
        if data.len() < 5 {
            return Err(V4Error::Protocol(ProtocolError::TooShort { len: data.len() }));
        }
        if data[0] != START_MARKER {
            return Err(V4Error::Protocol(ProtocolError::BadMarker { found: data[0] }));
        }
        let length: u16 = data[1] as u16 + 256 * (data[2] as u16);
        if length != 1 {
            return Err(V4Error::Protocol(ProtocolError::BadLength { declared: length }));
        }
        let status = data[3];
        let expected = calc_crc8(&data[1..4]);
        let actual = data[4];
        if expected != actual {
            return Err(V4Error::CrcMismatch { expected, actual });
        }
        match ErrorCode::from_u8(status) {
            Some(code) => Ok(code),
            None => Err(V4Error::Protocol(ProtocolError::UnknownErrorCode { code: status })),
        }
    }
}


/// The little-endian 16-bit values held in `d`, two bytes each; an odd last
/// byte is not read.
pub open spec fn le_u16s(d: Seq<u8>) -> Seq<u16> {
    Seq::new(d.len() / 2, |i: int| le_u16(d[2 * i], d[2 * i + 1]) as u16)
}

/// The commands whose reply is a bare status: its length field must be 1.
pub open spec fn status_only(command: Command) -> bool {
    command == Command::Ping || command == Command::Reset
}

/// Why a reply frame to `command` is refused, if it is.
pub open spec fn reply_error(command: Command, s: Seq<u8>) -> Option<V4Error> {
    if s.len() < 5 {
        Some(V4Error::Protocol(ProtocolError::TooShort { len: s.len() as usize }))
    } else if s[0] != START_MARKER {
        Some(V4Error::Protocol(ProtocolError::BadMarker { found: s[0] }))
    } else if le_u16(s[1], s[2]) == 0 || s.len() != le_u16(s[1], s[2]) + 4 || (status_only(command)
        && le_u16(s[1], s[2]) != 1) {
        Some(V4Error::Protocol(ProtocolError::BadLength { declared: le_u16(s[1], s[2]) as u16 }))
    } else if crc8(s.subrange(1, s.len() - 1)) != s.last() {
        Some(V4Error::CrcMismatch { expected: crc8(s.subrange(1, s.len() - 1)), actual: s.last() })
    } else if error_code_of(s[3]) is None {
        Some(V4Error::Protocol(ProtocolError::UnknownErrorCode { code: s[3] }))
    } else {
        None
    }
}

/// The status code of an accepted reply frame.
pub open spec fn reply_code(s: Seq<u8>) -> ErrorCode {
    error_code_of(s[3])->Some_0
}

/// The data of an accepted reply frame: what lies between status byte and checksum.
pub open spec fn reply_data(s: Seq<u8>) -> Seq<u8> {
    s.subrange(4, s.len() - 1)
}

/// The word indices of a reply to `command`: only an `Exec` reply carries them.
pub open spec fn reply_word_indices(command: Command, data: Seq<u8>) -> Seq<u16> {
    if command == Command::Exec {
        le_u16s(data)
    } else {
        Seq::empty()
    }
}

/// The two length bytes of a frame read back as the length they encode.
pub proof fn lemma_le_u16_of_len(n: nat)
    requires
        n < 65536,
    ensures
        le_u16(len_lo(n), len_hi(n)) == n,
{
    assert((n % 256) + 256 * ((n / 256) % 256) == n) by (nonlinear_arith)
        requires
            n < 65536,
    ;
}

/// The reply frame that the device builds from a status code and data (no
/// data for a bare-status command) is accepted, and decodes to that code and
/// data.
pub proof fn lemma_reply_round_trip(command: Command, code: ErrorCode, data: Seq<u8>)
    requires
        data.len() + 1 < 65536,
        status_only(command) ==> data.len() == 0,
    ensures
        reply_error(command, reply_bytes(code, data)) is None,
        reply_code(reply_bytes(code, data)) == code,
        reply_data(reply_bytes(code, data)) == data,
{
    let s = reply_bytes(code, data);
    let body = frame_body(data.len() + 1, error_code_value(code), data);
    lemma_le_u16_of_len(data.len() + 1);
    assert(s[1] == len_lo(data.len() + 1));
    assert(s[2] == len_hi(data.len() + 1));
    assert(s.subrange(1, s.len() - 1) =~= body);
    assert(reply_data(s) =~= data);
}

/// Every accepted reply frame is the frame built from its status code and data.
pub proof fn lemma_reply_accepts_only_encodings(command: Command, s: Seq<u8>)
    requires
        reply_error(command, s) is None,
    ensures
        s == reply_bytes(reply_code(s), reply_data(s)),
        status_only(command) ==> reply_data(s).len() == 0,
{
    let n = le_u16(s[1], s[2]);
    let d = reply_data(s);
    let e = reply_code(s);
    assert(d.len() + 1 == n);
    assert(s[1] as nat + 256 * s[2] as nat == n);
    assert(s[1] == len_lo(n) && s[2] == len_hi(n)) by (nonlinear_arith)
        requires
            s[1] as nat + 256 * s[2] as nat == n,
            s[1] < 256,
            s[2] < 256,
    ;
    assert(error_code_value(e) == s[3]);
    assert(s.subrange(1, s.len() - 1) =~= frame_body(n, s[3], d));
    assert(s =~= reply_bytes(e, d));
}

/// `decode_response` accepts the minimal reply built from any status code, and
/// only such replies (in its first five bytes).
pub proof fn lemma_minimal_reply_round_trip(code: ErrorCode, s: Seq<u8>)
    ensures
        decode_response_spec(reply_bytes(code, Seq::empty())) == Ok::<ErrorCode, V4Error>(code),
        decode_response_spec(s) == Ok::<ErrorCode, V4Error>(code) ==> s.subrange(0, 5)
            == reply_bytes(code, Seq::empty()),
{
    let m = reply_bytes(code, Seq::empty());
    assert(m.subrange(1, 4) =~= frame_body(1, error_code_value(code), Seq::empty()));
    if decode_response_spec(s) == Ok::<ErrorCode, V4Error>(code) {
        assert(s[1] as nat + 256 * s[2] as nat == 1);
        assert(s[1] == 1 && s[2] == 0);
        assert(error_code_value(code) == s[3]);
        assert(s.subrange(1, 4) =~= frame_body(1, s[3], Seq::empty()));
        assert(s.subrange(0, 5) =~= m);
    }
}

/// A decoded reply frame.
#[derive(Debug, Clone)]
pub struct Response {
    /// The device's status.
    pub error_code: ErrorCode,
    /// The command-specific data after the status byte.
    pub data: Vec<u8>,
    /// The indices of the words that an `Exec` installed, in order.
    pub word_indices: Vec<u16>,
}

impl Response {
    /// Decodes the complete reply frame `bytes` to `command`: marker, a length
    /// field that counts status and data, status, data, and the CRC-8 of
    /// everything after the marker. A reply to `Ping` or `Reset` carries no
    /// data: its length field must be 1.
    pub fn decode(command: Command, bytes: &[u8]) -> (r: Result<Response, V4Error>)
        ensures
            r is Ok <==> reply_error(command, bytes@) is None,
            r matches Err(e) ==> reply_error(command, bytes@) == Some(e),
            r matches Ok(resp) ==> resp.error_code == reply_code(bytes@) && resp.data@
                == reply_data(bytes@) && resp.word_indices@ == reply_word_indices(
                command,
                resp.data@,
            ),
    {
        let n = bytes.len();
        if n < 5 {
            return Err(V4Error::Protocol(ProtocolError::TooShort { len: n }));
        }
        if bytes[0] != START_MARKER {
            return Err(V4Error::Protocol(ProtocolError::BadMarker { found: bytes[0] }));
        }
        let declared: u16 = bytes[1] as u16 + 256 * (bytes[2] as u16);
        let bare = command == Command::Ping || command == Command::Reset;
        if declared == 0 || n != declared as usize + 4 || (bare && declared != 1) {
            return Err(V4Error::Protocol(ProtocolError::BadLength { declared }));
        }
        let expected = calc_crc8(&bytes[1..n - 1]);
        let actual = bytes[n - 1];
        if expected != actual {
            return Err(V4Error::CrcMismatch { expected, actual });
        }
        let code = match ErrorCode::from_u8(bytes[3]) {
            Some(c) => c,
            None => {
                return Err(V4Error::Protocol(ProtocolError::UnknownErrorCode { code: bytes[3] }));
            },
        };
        let mut data: Vec<u8> = Vec::new();
        let mut i: usize = 4;
        while i < n - 1
            invariant
                n == bytes@.len(),
                4 <= i <= n - 1,
                data@ == bytes@.subrange(4, i as int),
            decreases n - 1 - i,
        {
            data.push(bytes[i]);
            proof {
                assert(bytes@.subrange(4, i as int + 1) =~= bytes@.subrange(4, i as int).push(
                    bytes@[i as int],
                ));
            }
            i = i + 1;
        }
        let word_indices = if command == Command::Exec {
            le_u16_values(&data)
        } else {
            Vec::new()
        };
        proof {
            assert(word_indices@ =~= reply_word_indices(command, data@));
        }
        Ok(Response { error_code: code, data, word_indices })
    }
}

/// The little-endian 16-bit values held in `d`, two bytes each.
pub fn le_u16_values(d: &Vec<u8>) -> (r: Vec<u16>)
    ensures
        r@ == le_u16s(d@),
{
    let mut r: Vec<u16> = Vec::new();
    let mut k: usize = 0;
    while k < d.len() / 2
        invariant
            k <= d@.len() / 2,
            r@ =~= le_u16s(d@).subrange(0, k as int),
        decreases d@.len() / 2 - k,
    {
        let v: u16 = d[2 * k] as u16 + 256 * (d[2 * k + 1] as u16);
        r.push(v);
        k = k + 1;
    }
    proof {
        assert(le_u16s(d@).subrange(0, k as int) =~= le_u16s(d@));
    }
    r
}

/// Builds a request frame step by step.
pub struct FrameBuilder {
    command: Command,
    payload: Vec<u8>,
}

impl FrameBuilder {
    /// The command of the frame under construction.
    pub closed spec fn spec_command(&self) -> Command {
        self.command
    }

    /// The payload of the frame under construction.
    pub closed spec fn spec_payload(&self) -> Seq<u8> {
        self.payload@
    }

    /// A builder for a frame of `command` with an empty payload.
    pub fn new(command: Command) -> (r: Self)
        ensures
            r.spec_command() == command,
            r.spec_payload() == Seq::<u8>::empty(),
    {
        FrameBuilder { command, payload: Vec::new() }
    }

    /// The builder with its payload replaced by `payload`.
    pub fn payload(self, payload: Vec<u8>) -> (r: Self)
        ensures
            r.spec_command() == self.spec_command(),
            r.spec_payload() == payload@,
    {
        FrameBuilder { command: self.command, payload }
    }

    /// The frame; refused as by `Frame::new` when the payload is too large.
    pub fn build(self) -> (r: Result<Frame, V4Error>)
        ensures
            self.spec_payload().len() <= MAX_PAYLOAD_SIZE <==> r is Ok,
            r matches Ok(f) ==> f.command == self.spec_command() && f.payload@
                == self.spec_payload() && f.wf(),
            r matches Err(e) ==> e == V4Error::Protocol(
                ProtocolError::PayloadTooLarge { len: self.spec_payload().len() as usize },
            ),
    {
        Frame::new(self.command, self.payload)
    }
}

} // verus!
