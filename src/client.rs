use vstd::prelude::*;

use crate::bytes::copy_range;
use crate::error::V4Error;
use crate::protocol::frame::Response;
use crate::protocol::types::{Command, ErrorCode};

verus! {

/// The four little-endian bytes of a 32-bit value.
pub open spec fn le_u32_bytes(v: u32) -> Seq<u8> {
    seq![
        (v % 256) as u8,
        ((v / 256) % 256) as u8,
        ((v / 65536) % 256) as u8,
        ((v / 16777216) % 256) as u8,
    ]
}

/// The two little-endian bytes of a 16-bit value.
pub open spec fn le_u16_bytes(v: u16) -> Seq<u8> {
    seq![(v % 256) as u8, ((v / 256) % 256) as u8]
}

/// The payload of a memory query: address, then length, both little-endian.
pub fn memory_query_payload(addr: u32, len: u16) -> (r: Vec<u8>)
    ensures
        r@ == le_u32_bytes(addr) + le_u16_bytes(len),
{
    let mut r: Vec<u8> = Vec::with_capacity(6);
    r.push((addr % 256) as u8);
    r.push(((addr / 256) % 256) as u8);
    r.push(((addr / 65536) % 256) as u8);
    r.push(((addr / 16777216) % 256) as u8);
    r.push((len % 256) as u8);
    r.push(((len / 256) % 256) as u8);
    proof {
        assert(r@ =~= le_u32_bytes(addr) + le_u16_bytes(len));
    }
    r
}

/// The payload of a word query: the word index, little-endian.
pub fn word_query_payload(word_idx: u16) -> (r: Vec<u8>)
    ensures
        r@ == le_u16_bytes(word_idx),
{
    let mut r: Vec<u8> = Vec::with_capacity(2);
    r.push((word_idx % 256) as u8);
    r.push(((word_idx / 256) % 256) as u8);
    proof {
        assert(r@ =~= le_u16_bytes(word_idx));
    }
    r
}

/// The reply itself when the device reports success; otherwise a device error
/// that names the command and the status.
pub fn expect_success(command: Command, response: Response) -> (r: Result<Response, V4Error>)
    ensures
        response.error_code == ErrorCode::Success ==> r == Ok::<Response, V4Error>(response),
        response.error_code != ErrorCode::Success ==> r == Err::<Response, V4Error>(
            V4Error::Device { command, code: response.error_code, word: None },
        ),
{
    if response.error_code == ErrorCode::Success {
        Ok(response)
    } else {
        Err(V4Error::Device { command, code: response.error_code, word: None })
    }
}

/// The unsigned value of four little-endian bytes of `s` from `at` on.
pub open spec fn le_u32_at(s: Seq<u8>, at: int) -> nat {
    s[at] as nat + 256 * s[at + 1] as nat + 65536 * s[at + 2] as nat + 16777216 * s[at + 3] as nat
}

/// The signed two's-complement value of four little-endian bytes of `s` from `at` on.
pub open spec fn le_i32_at(s: Seq<u8>, at: int) -> i32 {
    if le_u32_at(s, at) < 0x8000_0000 {
        le_u32_at(s, at) as i32
    } else {
        (le_u32_at(s, at) - 0x1_0000_0000) as i32
    }
}

/// `n` signed 32-bit values of `s`, four bytes each, from `at` on.
pub open spec fn i32s_at(s: Seq<u8>, at: int, n: nat) -> Seq<i32> {
    Seq::new(n, |i: int| le_i32_at(s, at + 4 * i))
}

/// Where the return-stack count stands in a stack reply.
pub open spec fn return_count_at(s: Seq<u8>) -> int {
    1 + 4 * s[0]
}

/// How many of `n` four-byte values that start at `at` are wholly present in `s`.
pub open spec fn values_that_fit(s: Seq<u8>, at: int, n: nat) -> nat {
    if at >= s.len() {
        0
    } else if n <= (s.len() - at) / 4 {
        n
    } else {
        ((s.len() - at) / 4) as nat
    }
}

fn read_i32(s: &[u8], at: usize) -> (r: i32)
    requires
        at + 4 <= s@.len(),
    ensures
        r == le_i32_at(s@, at as int),
{
    let v: u32 = s[at] as u32 + 256 * (s[at + 1] as u32) + 65536 * (s[at + 2] as u32) + 16777216 * (
    s[at + 3] as u32);
    if v < 0x8000_0000 {
        v as i32
    } else {
        ((v - 0x8000_0000) as i32) - 0x7FFF_FFFF - 1
    }
}

fn read_i32s(s: &[u8], at: usize, n: usize) -> (r: Vec<i32>)
    requires
        at + 4 * n <= s@.len(),
    ensures
        r@ == i32s_at(s@, at as int, n as nat),
{
    let len = s.len();
    let mut r: Vec<i32> = Vec::with_capacity(n);
    let mut i: usize = 0;
    while i < n
        invariant
            i <= n,
            len == s@.len(),
            at + 4 * n <= len,
            r@ =~= i32s_at(s@, at as int, n as nat).subrange(0, i as int),
        decreases n - i,
    {
        let v = read_i32(s, at + 4 * i);
        r.push(v);
        i = i + 1;
    }
    proof {
        assert(i32s_at(s@, at as int, n as nat).subrange(0, n as int) =~= i32s_at(
            s@,
            at as int,
            n as nat,
        ));
    }
    r
}

/// The device's data stack and return stack, as a stack query reports them.
#[derive(Debug, Clone)]
pub struct StackSnapshot {
    /// The data stack depth that the device reports.
    pub data_depth: u8,
    /// The data stack values present in the reply, in the order the device lists them.
    pub data_stack: Vec<i32>,
    /// The return stack depth that the device reports, when the reply reaches it.
    pub return_depth: Option<u8>,
    /// The return stack values present in the reply, in the order the device
    /// lists them (most recent first).
    pub return_stack: Vec<i32>,
}

fn fitting(s: &[u8], at: usize, n: usize) -> (r: usize)
    requires
        at <= s@.len(),
    ensures
        r as nat == values_that_fit(s@, at as int, n as nat),
        at + 4 * r <= s@.len(),
{
    let room = (s.len() - at) / 4;
    if n <= room {
        n
    } else {
        room
    }
}

impl StackSnapshot {
    /// Reads a stack reply `[ds_count][ds_count x i32 LE][rs_count][rs_count x i32 LE]`.
    /// The return-stack count is found by skipping the data stack that the
    /// first count declares. Counts are kept as reported; of the values, those
    /// wholly present are kept. An empty reply holds no snapshot.
    pub fn parse(data: &[u8]) -> (r: Option<StackSnapshot>)
        ensures
            r is None <==> data@.len() == 0,
            r matches Some(st) ==> {
                let rc = return_count_at(data@);
                &&& st.data_depth == data@[0]
                &&& st.data_stack@ == i32s_at(
                    data@,
                    1,
                    values_that_fit(data@, 1, data@[0] as nat),
                )
                &&& rc < data@.len() ==> st.return_depth == Some(data@[rc]) && st.return_stack@
                    == i32s_at(data@, rc + 1, values_that_fit(data@, rc + 1, data@[rc] as nat))
                &&& rc >= data@.len() ==> st.return_depth is None && st.return_stack@.len() == 0
            },
    {
        let len = data.len();
        if len == 0 {
            return None;
        }
        let ds = data[0];
        let n_ds = fitting(data, 1, ds as usize);
        let data_stack = read_i32s(data, 1, n_ds);
        let rc = 1 + 4 * (ds as usize);
        if rc < len {
            let rs = data[rc];
            let n_rs = fitting(data, rc + 1, rs as usize);
            let return_stack = read_i32s(data, rc + 1, n_rs);
            Some(
                StackSnapshot {
                    data_depth: ds,
                    data_stack,
                    return_depth: Some(rs),
                    return_stack,
                },
            )
        } else {
            Some(
                StackSnapshot {
                    data_depth: ds,
                    data_stack,
                    return_depth: None,
                    return_stack: Vec::new(),
                },
            )
        }
    }
}

/// Where the code length stands in a word reply.
pub open spec fn code_len_at(s: Seq<u8>) -> int {
    1 + s[0]
}

/// A word reply holds its name length, the name, and the two bytes of the
/// code length.
pub open spec fn word_reply_ok(s: Seq<u8>) -> bool {
    &&& s.len() >= 1
    &&& s.len() >= code_len_at(s) + 2
}

/// An installed word as a word query reports it.
#[derive(Debug, Clone)]
pub struct WordInfo {
    /// The word's name, as bytes; empty for an anonymous word.
    pub name: Vec<u8>,
    /// The bytecode length that the device declares.
    pub code_len: u16,
    /// The bytecode bytes present in the reply.
    pub code: Vec<u8>,
}

impl WordInfo {
    /// Reads a word reply `[name_len][name][code_len:u16 LE][code]`; `None`
    /// when the reply ends before the code length.
    pub fn parse(data: &[u8]) -> (r: Option<WordInfo>)
        ensures
            r is Some <==> word_reply_ok(data@),
            r matches Some(w) ==> {
                let at = code_len_at(data@);
                &&& w.name@ == data@.subrange(1, at)
                &&& w.code_len as nat == data@[at] as nat + 256 * data@[at + 1] as nat
                &&& w.code@ == data@.subrange(at + 2, data@.len() as int)
            },
    {
        if data.len() < 1 {
            return None;
        }
        let at = 1 + data[0] as usize;
        if data.len() < at + 2 {
            return None;
        }
        let code_len: u16 = data[at] as u16 + 256 * (data[at + 1] as u16);
        let name = copy_range(data, 1, at);
        let code = copy_range(data, at + 2, data.len());
        Some(WordInfo { name, code_len, code })
    }
}

/// How a byte shows in the text column of a dump: itself when printable
/// ASCII, a dot otherwise.
pub open spec fn shown_as(b: u8) -> u8 {
    if 0x20 <= b <= 0x7E {
        b
    } else {
        0x2E
    }
}

/// The text column of a row of bytes.
pub open spec fn text_of(s: Seq<u8>) -> Seq<u8> {
    s.map_values(|b: u8| shown_as(b))
}

/// Bytes per row of a dump.
pub const ROW_LEN: usize = 16;

/// How many rows a dump of `n` bytes takes.
pub open spec fn row_count(n: nat) -> nat {
    (n + 15) / 16
}

/// The bytes of row `i` of a dump of `s`.
pub open spec fn row_bytes(s: Seq<u8>, i: int) -> Seq<u8> {
    s.subrange(16 * i, if 16 * i + 16 <= s.len() { 16 * i + 16 } else { s.len() as int })
}

/// One row of a dump: where it starts, its bytes, and their text column.
#[derive(Debug, Clone)]
pub struct DumpRow {
    pub offset: u64,
    pub bytes: Vec<u8>,
    pub text: Vec<u8>,
}

/// The text column of one row.
pub fn text_column(bytes: &[u8]) -> (r: Vec<u8>)
    ensures
        r@ == text_of(bytes@),
{
    let mut r: Vec<u8> = Vec::with_capacity(bytes.len());
    let mut i: usize = 0;
    while i < bytes.len()
        invariant
            i <= bytes@.len(),
            r@ =~= text_of(bytes@.subrange(0, i as int)),
        decreases bytes@.len() - i,
    {
        let b = bytes[i];
        let c: u8 = if 0x20 <= b && b <= 0x7E {
            b
        } else {
            0x2E
        };
        r.push(c);
        i = i + 1;
    }
    proof {
        assert(bytes@.subrange(0, bytes@.len() as int) =~= bytes@);
    }
    r
}

/// `data` in rows of sixteen bytes, the first at `base`; the last row may be shorter.
pub fn dump_rows(base: u64, data: &[u8]) -> (r: Vec<DumpRow>)
    requires
        base + data@.len() <= u64::MAX,
    ensures
        r@.len() == row_count(data@.len()),
        forall|i: int|
            #![trigger r@[i]]
            0 <= i < r@.len() ==> {
                &&& r@[i].offset == base + 16 * i
                &&& r@[i].bytes@ == row_bytes(data@, i)
                &&& r@[i].text@ == text_of(row_bytes(data@, i))
            },
{
    let len = data.len();
    let n_rows: usize = len / ROW_LEN + if len % ROW_LEN != 0 {
        1
    } else {
        0
    };
    proof {
        assert(n_rows == row_count(len as nat)) by (nonlinear_arith)
            requires
                n_rows == len / 16 + if len % 16 != 0 {
                    1int
                } else {
                    0int
                },
        ;
    }
    let mut rows: Vec<DumpRow> = Vec::new();
    let mut k: usize = 0;
    while k < n_rows
        invariant
            len == data@.len(),
            base + len <= u64::MAX,
            n_rows == row_count(len as nat),
            k <= n_rows,
            rows@.len() == k,
            forall|i: int|
                #![trigger rows@[i]]
                0 <= i < rows@.len() ==> {
                    &&& rows@[i].offset == base + 16 * i
                    &&& rows@[i].bytes@ == row_bytes(data@, i)
                    &&& rows@[i].text@ == text_of(row_bytes(data@, i))
                },
        decreases n_rows - k,
    {
        let start = ROW_LEN * k;
        let end = if len - start >= ROW_LEN {
            start + ROW_LEN
        } else {
            len
        };
        let bytes = copy_range(data, start, end);
        let text = text_column(bytes.as_slice());
        let row = DumpRow { offset: base + start as u64, bytes, text };
        let ghost prev = rows@;
        rows.push(row);
        proof {
            assert(start == 16 * k);
            assert(rows@[k as int] == row);
            assert(row.bytes@ == row_bytes(data@, k as int));
            assert forall|i: int| #![trigger rows@[i]] 0 <= i < rows@.len() implies {
                &&& rows@[i].offset == base + 16 * i
                &&& rows@[i].bytes@ == row_bytes(data@, i)
                &&& rows@[i].text@ == text_of(row_bytes(data@, i))
            } by {
                if i < k {
                    assert(rows@[i] == prev[i]);
                }
            }
        }
        k = k + 1;
    }
    rows
}

} // verus!
