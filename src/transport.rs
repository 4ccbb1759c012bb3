use vstd::prelude::*;

use crate::bytes::copy_range;
use crate::error::V4Error;
use crate::protocol::frame::{
    le_u16, lemma_le_u16_of_len, reply_bytes, START_MARKER,
};
use crate::protocol::types::ErrorCode;

verus! {

/// Index of the first start marker in `s`, or `s.len()` when there is none.
pub open spec fn first_marker(s: Seq<u8>) -> nat
    decreases s.len(),
{
    if s.len() == 0 {
        0
    } else if s[0] == START_MARKER {
        0
    } else {
        1 + first_marker(s.drop_first())
    }
}

/// `s` from its first start marker on: the noise before it is dropped.
pub open spec fn skip_noise(s: Seq<u8>) -> Seq<u8> {
    s.subrange(first_marker(s) as int, s.len() as int)
}

/// Length of the frame that starts `t` (which starts with a marker) as its
/// header declares it: marker, two length bytes, the declared bytes, checksum.
pub open spec fn declared_frame_len(t: Seq<u8>) -> nat {
    le_u16(t[1], t[2]) + 4
}

/// `t` holds a whole frame at its start: its header is in, and so is the
/// length that the header declares.
pub open spec fn holds_frame(t: Seq<u8>) -> bool {
    t.len() >= 4 && t.len() >= declared_frame_len(t)
}

/// Where the receive state machine stands.
#[derive(Debug, Clone, Copy, PartialEq, Eq, Structural)]
pub enum ReceivePhase {
    /// Looking for a start marker; no bytes are held.
    Seeking,
    /// A marker is held; the length and status bytes are not all in.
    HeaderPending,
    /// The header is in; the rest of the declared frame is not.
    BodyPending,
}

/// The phase of a buffer that starts with a marker, or is empty.
pub open spec fn phase_of(t: Seq<u8>) -> ReceivePhase {
    if t.len() == 0 {
        ReceivePhase::Seeking
    } else if t.len() < 4 {
        ReceivePhase::HeaderPending
    } else {
        ReceivePhase::BodyPending
    }
}

proof fn lemma_first_marker_at(s: Seq<u8>, p: int)
    requires
        0 <= p <= s.len(),
        forall|j: int| 0 <= j < p ==> s[j] != START_MARKER,
        p < s.len() ==> s[p] == START_MARKER,
    ensures
        first_marker(s) == p,
    decreases p,
{
    if p > 0 {
        lemma_first_marker_at(s.drop_first(), p - 1);
    }
}

/// After any noise that holds no start marker, the assembler holds exactly
/// the next reply frame at its start, whatever follows it: the frame is
/// complete once its bytes are in, and what follows stays for later.
pub proof fn lemma_resync_after_noise(
    noise: Seq<u8>,
    code: ErrorCode,
    data: Seq<u8>,
    rest: Seq<u8>,
)
    requires
        forall|i: int| 0 <= i < noise.len() ==> noise[i] != START_MARKER,
        data.len() + 1 < 65536,
    ensures
        ({
            let f = reply_bytes(code, data);
            let t = skip_noise(noise + f + rest);
            &&& holds_frame(t)
            &&& t.subrange(0, declared_frame_len(t) as int) == f
            &&& t.subrange(declared_frame_len(t) as int, t.len() as int) == rest
        }),
{
    let f = reply_bytes(code, data);
    let s = noise + f + rest;
    assert(s[noise.len() as int] == START_MARKER);
    lemma_first_marker_at(s, noise.len() as int);
    let t = skip_noise(s);
    assert(t =~= f + rest);
    lemma_le_u16_of_len(data.len() + 1);
    assert(t[1] == f[1] && t[2] == f[2]);
    assert(declared_frame_len(t) == f.len());
    assert(t.subrange(0, f.len() as int) =~= f);
    assert(t.subrange(f.len() as int, t.len() as int) =~= rest);
}

/// Assembles complete frames from bytes that arrive in arbitrary pieces.
/// Bytes before a start marker are dropped; once a marker is held, the frame's
/// length is taken from its header and no other marker is looked for until the
/// frame is complete. Bytes past a frame stay for the next one.
pub struct FrameAssembler {
    pending: Vec<u8>,
}

impl View for FrameAssembler {
    type V = Seq<u8>;

    /// The bytes received and not yet handed out or dropped, in arrival order.
    closed spec fn view(&self) -> Seq<u8> {
        self.pending@
    }
}

impl FrameAssembler {
    /// An assembler that holds no bytes.
    pub fn new() -> (r: Self)
        ensures
            r@ == Seq::<u8>::empty(),
    {
        FrameAssembler { pending: Vec::new() }
    }

    /// Appends newly received bytes.
    pub fn feed(&mut self, bytes: &[u8])
        ensures
            final(self)@ == old(self)@ + bytes@,
    {
        let mut i: usize = 0;
        while i < bytes.len()
            invariant
                i <= bytes@.len(),
                self@ == old(self)@ + bytes@.subrange(0, i as int),
            decreases bytes@.len() - i,
        {
            self.pending.push(bytes[i]);
            proof {
                assert(bytes@.subrange(0, i as int + 1) =~= bytes@.subrange(0, i as int).push(
                    bytes@[i as int],
                ));
                assert(old(self)@ + bytes@.subrange(0, i as int + 1) =~= (old(self)@
                    + bytes@.subrange(0, i as int)).push(bytes@[i as int]));
            }
            i = i + 1;
        }
        proof {
            assert(bytes@.subrange(0, bytes@.len() as int) =~= bytes@);
        }
    }

    /// Drops every byte held.
    pub fn discard(&mut self)
        ensures
            final(self)@ == Seq::<u8>::empty(),
    {
        self.pending = Vec::new();
    }

    /// Gives up on the frame under way when the deadline has passed: the
    /// partial data is dropped and the receive fails with a timeout.
    pub fn expire(&mut self) -> (r: V4Error)
        ensures
            final(self)@ == Seq::<u8>::empty(),
            r == V4Error::Timeout,
    {
        self.discard();
        V4Error::Timeout
    }

    /// Where the state machine stands on the bytes held, once noise is dropped.
    pub fn phase(&self) -> (r: ReceivePhase)
        ensures
            r == phase_of(skip_noise(self@)),
    {
        let p = self.marker_index();
        let n = self.pending.len() - p;
        if n == 0 {
            ReceivePhase::Seeking
        } else if n < 4 {
            ReceivePhase::HeaderPending
        } else {
            ReceivePhase::BodyPending
        }
    }

    fn marker_index(&self) -> (p: usize)
        ensures
            p == first_marker(self@),
            p <= self@.len(),
    {
        let mut p: usize = 0;
        while p < self.pending.len() && self.pending[p] != START_MARKER
            invariant
                p <= self.pending@.len(),
                forall|j: int| 0 <= j < p ==> self.pending@[j] != START_MARKER,
            decreases self.pending@.len() - p,
        {
            p = p + 1;
        }
        proof {
            lemma_first_marker_at(self.pending@, p as int);
        }
        p
    }

    /// Drops the noise before the first marker; then, when a whole frame is
    /// held, hands it out and keeps what follows it.
    pub fn next_frame(&mut self) -> (r: Option<Vec<u8>>)
        ensures
            ({
                let t = skip_noise(old(self)@);
                if holds_frame(t) {
                    &&& r matches Some(f)
                    &&& f@ == t.subrange(0, declared_frame_len(t) as int)
                    &&& final(self)@ == t.subrange(declared_frame_len(t) as int, t.len() as int)
                } else {
                    &&& r is None
                    &&& final(self)@ == t
                }
            }),
    {
        let p = self.marker_index();
        let n = self.pending.len();
        let ghost t = skip_noise(self@);
        if n - p >= 4 {
            let total: usize = self.pending[p + 1] as usize + 256 * (self.pending[p + 2] as usize)
                + 4;
            proof {
                assert(t[1] == self@[p + 1] && t[2] == self@[p + 2]);
            }
            if n - p >= total {
                let frame = copy_range(self.pending.as_slice(), p, p + total);
                let rest = copy_range(self.pending.as_slice(), p + total, n);
                proof {
                    assert(frame@ =~= t.subrange(0, declared_frame_len(t) as int));
                    assert(rest@ =~= t.subrange(declared_frame_len(t) as int, t.len() as int));
                }
                self.pending = rest;
                return Some(frame);
            }
        }
        let rest = copy_range(self.pending.as_slice(), p, n);
        self.pending = rest;
        None
    }
}

} // verus!
