use vstd::prelude::*;

use crate::error::{UsageError, V4Error};

verus! {

/// What a line of session input is.
#[derive(Debug, Clone, Copy, PartialEq, Eq, Structural)]
pub enum LineKind {
    /// Nothing but blanks.
    Blank,
    /// Ends the session: `bye`, `quit` or `.exit`.
    Exit,
    /// A session command: it starts with a dot.
    Meta,
    /// Source text for the compiler.
    Source,
}

/// The session commands.
#[derive(Debug, Clone, Copy, PartialEq, Eq, Structural)]
pub enum MetaCommand {
    Help,
    Ping,
    Reset,
    Stack,
    RStack,
    Dump,
    See,
    Exit,
    Unknown,
}

/// The bytes of "bye".
pub open spec fn word_bye() -> Seq<u8> {
    seq![0x62u8, 0x79u8, 0x65u8]
}

/// The bytes of "quit".
pub open spec fn word_quit() -> Seq<u8> {
    seq![0x71u8, 0x75u8, 0x69u8, 0x74u8]
}

/// The bytes of ".exit".
pub open spec fn word_exit() -> Seq<u8> {
    seq![0x2Eu8, 0x65u8, 0x78u8, 0x69u8, 0x74u8]
}

/// What a trimmed line of input is.
pub open spec fn line_kind_of(line: Seq<u8>) -> LineKind {
    if line.len() == 0 {
        LineKind::Blank
    } else if line == word_bye() || line == word_quit() || line == word_exit() {
        LineKind::Exit
    } else if line[0] == 0x2E {
        LineKind::Meta
    } else {
        LineKind::Source
    }
}

/// The session command that a name (with its dot) stands for.
pub open spec fn meta_command_of(name: Seq<u8>) -> MetaCommand {
    if name == seq![0x2Eu8, 0x68u8, 0x65u8, 0x6Cu8, 0x70u8] {
        MetaCommand::Help
    } else if name == seq![0x2Eu8, 0x70u8, 0x69u8, 0x6Eu8, 0x67u8] {
        MetaCommand::Ping
    } else if name == seq![0x2Eu8, 0x72u8, 0x65u8, 0x73u8, 0x65u8, 0x74u8] {
        MetaCommand::Reset
    } else if name == seq![0x2Eu8, 0x73u8, 0x74u8, 0x61u8, 0x63u8, 0x6Bu8] {
        MetaCommand::Stack
    } else if name == seq![0x2Eu8, 0x72u8, 0x73u8, 0x74u8, 0x61u8, 0x63u8, 0x6Bu8] {
        MetaCommand::RStack
    } else if name == seq![0x2Eu8, 0x64u8, 0x75u8, 0x6Du8, 0x70u8] {
        MetaCommand::Dump
    } else if name == seq![0x2Eu8, 0x73u8, 0x65u8, 0x65u8] {
        MetaCommand::See
    } else if name == word_exit() {
        MetaCommand::Exit
    } else {
        MetaCommand::Unknown
    }
}

fn same_bytes(a: &[u8], b: &[u8]) -> (r: bool)
    ensures
        r == (a@ == b@),
{
    if a.len() != b.len() {
        return false;
    }
    let mut i: usize = 0;
    while i < a.len()
        invariant
            a@.len() == b@.len(),
            i <= a@.len(),
            forall|j: int| 0 <= j < i ==> a@[j] == b@[j],
        decreases a@.len() - i,
    {
        if a[i] != b[i] {
            return false;
        }
        i = i + 1;
    }
    proof {
        assert(a@ =~= b@);
    }
    true
}

/// Sorts a trimmed line of session input.
pub fn line_kind(line: &[u8]) -> (r: LineKind)
    ensures
        r == line_kind_of(line@),
{
    if line.len() == 0 {
        return LineKind::Blank;
    }
    let bye: [u8; 3] = [0x62, 0x79, 0x65];
    let quit: [u8; 4] = [0x71, 0x75, 0x69, 0x74];
    let exit: [u8; 5] = [0x2E, 0x65, 0x78, 0x69, 0x74];
    proof {
        assert(bye@ =~= word_bye());
        assert(quit@ =~= word_quit());
        assert(exit@ =~= word_exit());
    }
    if same_bytes(line, bye.as_slice()) || same_bytes(line, quit.as_slice()) || same_bytes(
        line,
        exit.as_slice(),
    ) {
        LineKind::Exit
    } else if line[0] == 0x2E {
        LineKind::Meta
    } else {
        LineKind::Source
    }
}

/// The session command that `name`, the first word of a command line, names.
pub fn meta_command(name: &[u8]) -> (r: MetaCommand)
    ensures
        r == meta_command_of(name@),
{
    let help: [u8; 5] = [0x2E, 0x68, 0x65, 0x6C, 0x70];
    let ping: [u8; 5] = [0x2E, 0x70, 0x69, 0x6E, 0x67];
    let reset: [u8; 6] = [0x2E, 0x72, 0x65, 0x73, 0x65, 0x74];
    let stack: [u8; 6] = [0x2E, 0x73, 0x74, 0x61, 0x63, 0x6B];
    let rstack: [u8; 7] = [0x2E, 0x72, 0x73, 0x74, 0x61, 0x63, 0x6B];
    let dump: [u8; 5] = [0x2E, 0x64, 0x75, 0x6D, 0x70];
    let see: [u8; 4] = [0x2E, 0x73, 0x65, 0x65];
    let exit: [u8; 5] = [0x2E, 0x65, 0x78, 0x69, 0x74];
    proof {
        assert(help@ =~= seq![0x2Eu8, 0x68u8, 0x65u8, 0x6Cu8, 0x70u8]);
        assert(ping@ =~= seq![0x2Eu8, 0x70u8, 0x69u8, 0x6Eu8, 0x67u8]);
        assert(reset@ =~= seq![0x2Eu8, 0x72u8, 0x65u8, 0x73u8, 0x65u8, 0x74u8]);
        assert(stack@ =~= seq![0x2Eu8, 0x73u8, 0x74u8, 0x61u8, 0x63u8, 0x6Bu8]);
        assert(rstack@ =~= seq![0x2Eu8, 0x72u8, 0x73u8, 0x74u8, 0x61u8, 0x63u8, 0x6Bu8]);
        assert(dump@ =~= seq![0x2Eu8, 0x64u8, 0x75u8, 0x6Du8, 0x70u8]);
        assert(see@ =~= seq![0x2Eu8, 0x73u8, 0x65u8, 0x65u8]);
        assert(exit@ =~= word_exit());
    }
    if same_bytes(name, help.as_slice()) {
        MetaCommand::Help
    } else if same_bytes(name, ping.as_slice()) {
        MetaCommand::Ping
    } else if same_bytes(name, reset.as_slice()) {
        MetaCommand::Reset
    } else if same_bytes(name, stack.as_slice()) {
        MetaCommand::Stack
    } else if same_bytes(name, rstack.as_slice()) {
        MetaCommand::RStack
    } else if same_bytes(name, dump.as_slice()) {
        MetaCommand::Dump
    } else if same_bytes(name, see.as_slice()) {
        MetaCommand::See
    } else if same_bytes(name, exit.as_slice()) {
        MetaCommand::Exit
    } else {
        MetaCommand::Unknown
    }
}

/// Largest number of bytes that one memory dump asks for.
pub const MAX_DUMP_LEN: u16 = 256;

/// An ASCII decimal digit.
pub open spec fn is_digit(b: u8) -> bool {
    0x30 <= b <= 0x39
}

/// The value of a run of decimal digits, most significant first.
pub open spec fn digits_value(s: Seq<u8>) -> nat
    decreases s.len(),
{
    if s.len() == 0 {
        0
    } else {
        digits_value(s.drop_last()) * 10 + (s.last() - 0x30) as nat
    }
}

/// The digits of a token: what follows an optional leading `+`.
pub open spec fn digits_of(s: Seq<u8>) -> Seq<u8> {
    if s.len() > 0 && s[0] == 0x2B {
        s.drop_first()
    } else {
        s
    }
}

/// The value of an unsigned decimal token (an optional `+`, then at least one
/// digit), or `None` for any other token.
pub open spec fn decimal_of(s: Seq<u8>) -> Option<nat> {
    let d = digits_of(s);
    if d.len() > 0 && forall|i: int| 0 <= i < d.len() ==> is_digit(#[trigger] d[i]) {
        Some(digits_value(d))
    } else {
        None
    }
}

/// The value of a decimal token that does not exceed `max`.
pub open spec fn decimal_within(s: Seq<u8>, max: nat) -> Option<nat> {
    match decimal_of(s) {
        Some(v) => if v <= max {
            Some(v)
        } else {
            None
        },
        None => None,
    }
}

proof fn lemma_digits_push(s: Seq<u8>, b: u8)
    ensures
        digits_value(s.push(b)) == digits_value(s) * 10 + (b - 0x30) as nat,
{
    assert(s.push(b).drop_last() =~= s);
}

/// Reads an unsigned decimal token whose value does not exceed `max`.
pub fn parse_decimal(tok: &[u8], max: u32) -> (r: Option<u32>)
    ensures
        r matches Some(v) ==> decimal_within(tok@, max as nat) == Some(v as nat),
        r is None ==> decimal_within(tok@, max as nat) is None,
{
    let n = tok.len();
    let start: usize = if n > 0 && tok[0] == 0x2B {
        1
    } else {
        0
    };
    let ghost d = digits_of(tok@);
    proof {
        assert(d =~= tok@.subrange(start as int, n as int));
    }
    if start == n {
        return None;
    }
    let mut acc: u64 = 0;
    let mut over = false;
    let mut i: usize = start;
    while i < n
        invariant
            n == tok@.len(),
            start <= i <= n,
            d == tok@.subrange(start as int, n as int),
            d == digits_of(tok@),
            forall|j: int| start <= j < i ==> is_digit(#[trigger] tok@[j]),
            !over ==> acc == digits_value(tok@.subrange(start as int, i as int)) && acc <= max,
            over ==> digits_value(tok@.subrange(start as int, i as int)) > max,
        decreases n - i,
    {
        let b = tok[i];
        if b < 0x30 || b > 0x39 {
            proof {
                assert(d[i - start] == b);
                assert(!is_digit(d[i - start]));
                assert(decimal_of(tok@) is None);
            }
            return None;
        }
        proof {
            assert(tok@.subrange(start as int, i as int + 1) =~= tok@.subrange(
                start as int,
                i as int,
            ).push(b));
            lemma_digits_push(tok@.subrange(start as int, i as int), b);
        }
        if !over {
            let next: u64 = acc * 10 + (b - 0x30) as u64;
            if next > max as u64 {
                over = true;
            } else {
                acc = next;
            }
        }
        i = i + 1;
    }
    proof {
        assert forall|j: int| 0 <= j < d.len() implies is_digit(#[trigger] d[j]) by {
            assert(d[j] == tok@[start + j]);
        }
    }
    if over {
        None
    } else {
        Some(acc as u32)
    }
}

/// The address and length of a memory dump, from its optional arguments:
/// the address defaults to 0, the length to `MAX_DUMP_LEN` and is capped there.
pub fn dump_request(addr: Option<&[u8]>, len: Option<&[u8]>) -> (r: Result<(u32, u16), V4Error>)
    ensures
        ({
            let a: Option<nat> = match addr {
                Some(t) => decimal_within(t@, u32::MAX as nat),
                None => Some(0),
            };
            let l: Option<nat> = match len {
                Some(t) => decimal_within(t@, u16::MAX as nat),
                None => Some(MAX_DUMP_LEN as nat),
            };
            if a is None {
                r == Err::<(u32, u16), V4Error>(V4Error::Usage(UsageError::InvalidAddress))
            } else if l is None {
                r == Err::<(u32, u16), V4Error>(V4Error::Usage(UsageError::InvalidLength))
            } else {
                &&& r matches Ok((ra, rl))
                &&& ra as nat == a->Some_0
                &&& rl as nat == if l->Some_0 <= MAX_DUMP_LEN {
                    l->Some_0
                } else {
                    MAX_DUMP_LEN as nat
                }
            }
        }),
{
    let a: u32 = match addr {
        Some(t) => match parse_decimal(t, u32::MAX) {
            Some(v) => v,
            None => {
                return Err(V4Error::Usage(UsageError::InvalidAddress));
            },
        },
        None => 0,
    };
    let l: u16 = match len {
        Some(t) => match parse_decimal(t, u16::MAX as u32) {
            Some(v) => v as u16,
            None => {
                return Err(V4Error::Usage(UsageError::InvalidLength));
            },
        },
        None => MAX_DUMP_LEN,
    };
    let capped = if l <= MAX_DUMP_LEN {
        l
    } else {
        MAX_DUMP_LEN
    };
    Ok((a, capped))
}

/// The word index that a `see` command names.
pub fn see_request(index: Option<&[u8]>) -> (r: Result<u16, V4Error>)
    ensures
        index is None ==> r == Err::<u16, V4Error>(V4Error::Usage(UsageError::MissingWordIndex)),
        index matches Some(t) ==> match decimal_within(t@, u16::MAX as nat) {
            Some(v) => r matches Ok(w) && w as nat == v,
            None => r == Err::<u16, V4Error>(V4Error::Usage(UsageError::InvalidWordIndex)),
        },
{
    match index {
        None => Err(V4Error::Usage(UsageError::MissingWordIndex)),
        Some(t) => match parse_decimal(t, u16::MAX as u32) {
            Some(v) => Ok(v as u16),
            None => Err(V4Error::Usage(UsageError::InvalidWordIndex)),
        },
    }
}

} // verus!
