use vstd::prelude::*;

use crate::error::V4Error;
use crate::protocol::frame::Response;
use crate::protocol::types::{Command, ErrorCode};

verus! {

/// One compiled named routine, not yet installed on the device.
#[derive(Debug, Clone)]
pub struct WordDef {
    pub name: String,
    pub bytecode: Vec<u8>,
}

/// What the compiler makes of one input unit: the word definitions in source
/// order, and the body to run once they are installed (empty when the input
/// only defines words).
#[derive(Debug, Clone)]
pub struct CompileResult {
    pub words: Vec<WordDef>,
    pub bytecode: Vec<u8>,
}

/// The device index that the last registration of `name` in `regs` gave it.
pub open spec fn resolve_in(regs: Seq<(Seq<char>, u16)>, name: Seq<char>) -> Option<u16>
    decreases regs.len(),
{
    if regs.len() == 0 {
        None
    } else if regs.last().0 == name {
        Some(regs.last().1)
    } else {
        resolve_in(regs.drop_last(), name)
    }
}

/// A registered name and the device index it resolves to.
#[derive(Debug, Clone)]
struct Binding {
    name: String,
    index: u16,
}

/// The host's table from word names to device word indices. It changes only
/// by registering an index and by reset; a later registration of a name
/// shadows an earlier one, as a redefinition does on the device.
#[derive(Debug, Clone)]
pub struct WordTable {
    bindings: Vec<Binding>,
}

impl View for WordTable {
    type V = Seq<(Seq<char>, u16)>;

    /// The registrations since the last reset, oldest first.
    closed spec fn view(&self) -> Seq<(Seq<char>, u16)> {
        Seq::new(self.bindings@.len(), |i: int| (self.bindings@[i].name@, self.bindings@[i].index))
    }
}

impl WordTable {
    /// An empty table.
    pub fn new() -> (r: Self)
        ensures
            r@ == Seq::<(Seq<char>, u16)>::empty(),
    {
        let r = WordTable { bindings: Vec::new() };
        proof {
            assert(r@ =~= Seq::<(Seq<char>, u16)>::empty());
        }
        r
    }

    /// Makes `name` resolve to the device index `index`.
    pub fn register_word_index(&mut self, name: &str, index: u16)
        ensures
            final(self)@ == old(self)@.push((name@, index)),
    {
        let b = Binding { name: name.to_owned(), index };
        self.bindings.push(b);
        proof {
            assert(self@ =~= old(self)@.push((name@, index)));
        }
    }

    /// Forgets every registration.
    pub fn reset(&mut self)
        ensures
            final(self)@ == Seq::<(Seq<char>, u16)>::empty(),
    {
        self.bindings = Vec::new();
        proof {
            assert(self@ =~= Seq::<(Seq<char>, u16)>::empty());
        }
    }

    /// The device index that `name` resolves to, if it was registered since
    /// the last reset.
    pub fn resolve(&self, name: &str) -> (r: Option<u16>)
        ensures
            r == resolve_in(self@, name@),
    {
        let key = name.to_owned();
        let mut i: usize = self.bindings.len();
        proof {
            assert(self@.subrange(0, i as int) =~= self@);
        }
        while i > 0
            invariant
                i <= self@.len(),
                self@.len() == self.bindings@.len(),
                key@ == name@,
                resolve_in(self@, name@) == resolve_in(self@.subrange(0, i as int), name@),
            decreases i,
        {
            proof {
                assert(self@.subrange(0, i as int).drop_last() =~= self@.subrange(0, i - 1));
                assert(self@.subrange(0, i as int).last() == self@[i - 1]);
                assert(self@[i - 1] == (self.bindings@[i - 1].name@, self.bindings@[i - 1].index));
            }
            if self.bindings[i - 1].name == key {
                return Some(self.bindings[i - 1].index);
            }
            i = i - 1;
        }
        None
    }

    /// How many registrations the table holds.
    pub fn len(&self) -> (r: usize)
        ensures
            r == self@.len(),
    {
        self.bindings.len()
    }
}

/// Registering an index makes the name resolve to it; after a reset no name
/// resolves, whatever was registered before.
pub proof fn lemma_register_then_reset(regs: Seq<(Seq<char>, u16)>, name: Seq<char>, index: u16)
    ensures
        resolve_in(regs.push((name, index)), name) == Some(index),
        resolve_in(Seq::<(Seq<char>, u16)>::empty(), name) is None,
{
}

/// Registering one name leaves every other name as it resolved before.
pub proof fn lemma_register_keeps_others(
    regs: Seq<(Seq<char>, u16)>,
    name: Seq<char>,
    index: u16,
    other: Seq<char>,
)
    requires
        other != name,
    ensures
        resolve_in(regs.push((name, index)), other) == resolve_in(regs, other),
{
    assert(regs.push((name, index)).drop_last() =~= regs);
}

/// Where the installation of one compiled unit stands: which device call or
/// registration is due next.
#[derive(Debug, Clone, Copy, PartialEq, Eq, Structural)]
pub enum UnitStep {
    /// Execute the bytecode of word `i` to install it.
    InstallWord(usize),
    /// Register the device index that the installation of word `word` returned.
    RegisterWord { word: usize, index: u16 },
    /// Execute the body.
    RunBody,
    /// Nothing is left to do.
    Finished,
}

/// The step that follows once the words before `next` are installed.
pub open spec fn step_after(c: CompileResult, next: int) -> UnitStep {
    if next < c.words@.len() {
        UnitStep::InstallWord(next as usize)
    } else if c.bytecode@.len() > 0 {
        UnitStep::RunBody
    } else {
        UnitStep::Finished
    }
}

/// The steps of one input unit: each word's bytecode is executed in source
/// order, the first index that the device returns for it is registered
/// under its name, and then the body runs, if there is one. A failure stops
/// the unit; words installed before it stay installed.
pub struct UnitRun {
    compiled: CompileResult,
    step: UnitStep,
}

/// A step that names a word names one of the unit's words.
pub open spec fn step_in_range(c: CompileResult, step: UnitStep) -> bool {
    match step {
        UnitStep::InstallWord(i) => i < c.words@.len(),
        UnitStep::RegisterWord { word, index } => word < c.words@.len(),
        _ => true,
    }
}

impl UnitRun {
    #[verifier::type_invariant]
    spec fn inv(&self) -> bool {
        step_in_range(self.compiled, self.step)
    }

    /// The step that is due.
    pub closed spec fn spec_step(&self) -> UnitStep {
        self.step
    }

    /// The unit being installed.
    pub closed spec fn spec_compiled(&self) -> CompileResult {
        self.compiled
    }

    /// The unit being installed.
    pub fn compiled(&self) -> (r: &CompileResult)
        ensures
            *r == self.spec_compiled(),
    {
        &self.compiled
    }

    /// The run of a freshly compiled unit.
    pub fn start(compiled: CompileResult) -> (r: Self)
        ensures
            r.spec_compiled() == compiled,
            r.spec_step() == step_after(compiled, 0),
    {
        let step = UnitRun::after(&compiled, 0);
        UnitRun { compiled, step }
    }

    fn after(c: &CompileResult, next: usize) -> (r: UnitStep)
        ensures
            r == step_after(*c, next as int),
    {
        if next < c.words.len() {
            UnitStep::InstallWord(next)
        } else if c.bytecode.len() > 0 {
            UnitStep::RunBody
        } else {
            UnitStep::Finished
        }
    }

    /// The step that is due.
    pub fn step(&self) -> (r: UnitStep)
        ensures
            r == self.spec_step(),
            step_in_range(self.spec_compiled(), r),
    {
        proof {
            use_type_invariant(self);
        }
        self.step
    }

    /// Takes the device's reply to the execution that the due step asked for.
    /// A status other than success ends the unit with a device error, naming
    /// the word when it was a word's installation.
    pub fn on_exec_reply(&mut self, reply: &Response) -> (r: Result<(), V4Error>)
        requires
            old(self).spec_step() is InstallWord || old(self).spec_step() is RunBody,
        ensures
            final(self).spec_compiled() == old(self).spec_compiled(),
            old(self).spec_step() matches UnitStep::InstallWord(i) ==> {
                if reply.error_code != ErrorCode::Success {
                    &&& r == Err::<(), V4Error>(
                        V4Error::Device {
                            command: Command::Exec,
                            code: reply.error_code,
                            word: Some(old(self).spec_compiled().words@[i as int].name),
                        },
                    )
                    &&& final(self).spec_step() == UnitStep::Finished
                } else if reply.word_indices@.len() > 0 {
                    &&& r is Ok
                    &&& final(self).spec_step() == (UnitStep::RegisterWord {
                        word: i,
                        index: reply.word_indices@[0],
                    })
                } else {
                    &&& r is Ok
                    &&& final(self).spec_step() == step_after(old(self).spec_compiled(), i + 1)
                }
            },
            old(self).spec_step() is RunBody ==> {
                &&& final(self).spec_step() == UnitStep::Finished
                &&& reply.error_code == ErrorCode::Success ==> r is Ok
                &&& reply.error_code != ErrorCode::Success ==> r == Err::<(), V4Error>(
                    V4Error::Device { command: Command::Exec, code: reply.error_code, word: None },
                )
            },
    {
        proof {
            use_type_invariant(&*self);
        }
        match self.step {
            UnitStep::InstallWord(i) => {
                if reply.error_code != ErrorCode::Success {
                    let name = self.compiled.words[i].name.clone();
                    self.step = UnitStep::Finished;
                    return Err(
                        V4Error::Device {
                            command: Command::Exec,
                            code: reply.error_code,
                            word: Some(name),
                        },
                    );
                }
                let n = self.compiled.words.len();
                assert(i < n);
                if reply.word_indices.len() > 0 {
                    self.step = UnitStep::RegisterWord { word: i, index: reply.word_indices[0] };
                } else {
                    self.step = UnitRun::after(&self.compiled, i + 1);
                }
                Ok(())
            },
            _ => {
                self.step = UnitStep::Finished;
                if reply.error_code != ErrorCode::Success {
                    Err(V4Error::Device { command: Command::Exec, code: reply.error_code, word: None })
                } else {
                    Ok(())
                }
            },
        }
    }

    /// Records in `table` the index that the due step registers, once the
    /// compiler has accepted it, and moves on to the next word or the body.
    pub fn on_registered(&mut self, table: &mut WordTable)
        requires
            old(self).spec_step() is RegisterWord,
        ensures
            final(self).spec_compiled() == old(self).spec_compiled(),
            old(self).spec_step() matches UnitStep::RegisterWord { word, index } && {
                &&& final(table)@ == old(table)@.push(
                    (old(self).spec_compiled().words@[word as int].name@, index),
                )
                &&& final(self).spec_step() == step_after(old(self).spec_compiled(), word + 1)
            },
    {
        proof {
            use_type_invariant(&*self);
        }
        if let UnitStep::RegisterWord { word, index } = self.step {
            let n = self.compiled.words.len();
            assert(word < n);
            table.register_word_index(self.compiled.words[word].name.as_str(), index);
            self.step = UnitRun::after(&self.compiled, word + 1);
        }
    }

    /// Ends the unit when the compiler refused the registration that the due
    /// step asked for; the refusal is a compilation error.
    pub fn on_register_refused(&mut self, message: String) -> (r: V4Error)
        ensures
            final(self).spec_compiled() == old(self).spec_compiled(),
            final(self).spec_step() == UnitStep::Finished,
            r == V4Error::Compilation(message),
    {
        self.step = UnitStep::Finished;
        V4Error::Compilation(message)
    }
}

/// The outcome of a reset command: on success the host table is cleared too,
/// since the device's word table is now empty; otherwise it is a device error
/// and the table stays as it was.
pub fn on_reset_reply(code: ErrorCode, table: &mut WordTable) -> (r: Result<(), V4Error>)
    ensures
        code == ErrorCode::Success ==> r is Ok && final(table)@ == Seq::<(Seq<char>, u16)>::empty(),
        code != ErrorCode::Success ==> r == Err::<(), V4Error>(
            V4Error::Device { command: Command::Reset, code, word: None },
        ) && final(table)@ == old(table)@,
{
    if code != ErrorCode::Success {
        return Err(V4Error::Device { command: Command::Reset, code, word: None });
    }
    table.reset();
    Ok(())
}

} // verus!
