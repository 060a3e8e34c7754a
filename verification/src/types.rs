//! The data model of a running transaction: values, interrupts, program
//! slots, memory segments and the witness log.
//!
//! All names (effect names, entry points, methods) are UTF-8 byte
//! strings; the embedding layer converts at the engine boundary.

use vstd::prelude::*;

use crate::code::CodeHash;
use crate::ids::{TokenId, UtxoId};

verus! {

/// A guest-visible scalar value.
#[derive(Clone, Copy, Debug, PartialEq, Eq, Structural)]
pub enum Val {
    I32(i32),
    I64(i64),
}

/// Index into a transaction's program table.  The sentinel `usize::MAX`
/// stands for the external caller.
#[derive(Clone, Copy, Debug, PartialEq, Eq, Structural)]
pub struct ProgramIdx(pub usize);

/// The sentinel index of the external caller.
pub const ROOT_PROGRAM: usize = usize::MAX;

impl ProgramIdx {
    /// Whether this is the external caller.
    pub open spec fn spec_is_root(self) -> bool {
        self.0 == ROOT_PROGRAM
    }

    /// The external caller's sentinel index.
    pub fn root() -> (r: ProgramIdx)
        ensures
            r.spec_is_root(),
    {
        ProgramIdx(ROOT_PROGRAM)
    }

    /// Whether this is the external caller.
    pub fn is_root(self) -> (r: bool)
        ensures
            r == self.spec_is_root(),
    {
        self.0 == ROOT_PROGRAM
    }
}

/// One contiguous region read from or written to a program's linear
/// memory during a control transfer.
pub struct MemorySegment {
    pub address: u32,
    pub data: Vec<u8>,
}

/// One entry of the append-only witness log: a control transfer with its
/// fuel snapshot, the values passed, and the memory copied each way.
pub struct TxWitness {
    /// Total fuel spent by the transaction when this transfer happened.
    pub fuel: u64,
    pub from_program: ProgramIdx,
    pub to_program: ProgramIdx,
    pub values: Vec<Val>,
    /// Memory read from `from_program` for this transfer.
    pub read_from_memory: Vec<MemorySegment>,
    /// Memory written to `to_program` for this transfer.
    pub write_to_memory: Vec<MemorySegment>,
}

/// The host-side request a guest trap carries: what the program asks the
/// scheduler to do.
#[derive(Debug)]
pub enum Interrupt {
    /// Write the coordination script's code digest into the caller's
    /// memory.
    CoordinationCode { return_addr: u32 },
    /// Push a handler for an effect name.
    RegisterEffectHandler { name: Vec<u8>, handler_addr: u32 },
    /// Remove the caller's topmost handler for an effect name.
    UnRegisterEffectHandler { name: Vec<u8> },
    /// Ask for a raised effect's payload.
    GetRaisedEffectData { name: Vec<u8>, output_ptr_data: u32, not_null: u32 },
    /// Reply to the program that raised an effect.  `data` is the reply,
    /// read from the handler's memory at `input_ptr_data`.
    ResumeThrowingProgram { name: Vec<u8>, input_ptr_data: u32, data: Vec<u8> },
    /// Instantiate a new UTXO program.
    UtxoNew { code: CodeHash, entry_point: Vec<u8>, inputs: Vec<Val> },
    /// Resume a yielded UTXO.  `resume_bytes` is the reply payload read
    /// from the caller's memory.
    UtxoResume { utxo_handle: u64, inputs: Vec<Val>, resume_bytes: Vec<u8> },
    /// Call a read-only method on a yielded UTXO.
    UtxoQuery { utxo_handle: u64, method: Vec<u8>, inputs: Vec<Val> },
    /// Call a mutating method on a yielded UTXO.
    UtxoMutate { utxo_handle: u64, method: Vec<u8>, inputs: Vec<Val> },
    /// Call a consuming method on a yielded UTXO, finishing it first.
    UtxoConsume { utxo_handle: u64, method: Vec<u8>, inputs: Vec<Val> },
    /// Suspend a UTXO, handing control back to its parent.
    Yield { name: Vec<u8>, data: u32, resume_arg: u32, resume_arg_len: u32 },
    /// Raise an effect.  `payload` is the effect data, read from the
    /// raiser's memory at `data`.
    Raise {
        name: Vec<u8>,
        data: u32,
        data_len: u32,
        resume_arg: u32,
        resume_arg_len: u32,
        payload: Vec<u8>,
    },
    /// Instantiate a token program through its bind entry point.
    TokenBind { code: CodeHash, entry_point: Vec<u8>, inputs: Vec<Val> },
    /// Unbind a token held by the calling UTXO.
    TokenUnbind { token_handle: u64 },
}

/// What the scheduler remembers of the interrupt a suspended program
/// trapped on: the fields later control transfers consult.
#[derive(Clone, Copy, Debug, PartialEq, Eq, Structural)]
pub enum SuspendInfo {
    /// Suspended in a yield: where the yielded object lives and where a
    /// resume reply goes.
    Yielded { data: u32, resume_arg: u32, resume_arg_len: u32 },
    /// Suspended in a raise: where the reply goes.
    Raised { resume_arg: u32, resume_arg_len: u32 },
    /// Suspended on any other host interrupt.
    Hosted,
}

/// The three-state cell of a program instance.
pub enum ResumeState {
    /// Created but not yet driven.
    NotStarted,
    /// Trapped on a host interrupt; may be resumed.
    Suspended(SuspendInfo),
    /// Returned; never resumed again.
    Finished(Vec<Val>),
}

/// A running program instance in the transaction's program table.
pub struct TxProgram {
    /// The program that receives this one's final return value.
    pub return_to: ProgramIdx,
    /// Whether the final return carries a token struct-return region.
    pub return_is_token: bool,
    /// For UTXO programs: the parent that receives yields.
    pub yield_to: Option<ProgramIdx>,
    /// A one-shot value delivered on the first yield (the scrambled
    /// identifier of a fresh UTXO).
    pub yield_to_constructor: Option<Val>,
    pub code: CodeHash,
    pub entry_point: Vec<u8>,
    /// Arity of the entry point's return; the embedding layer learns it
    /// when it resolves the entry function.
    pub num_outputs: usize,
    pub resumable: ResumeState,
    /// The UTXO this program embodies, if any.
    pub utxo: Option<UtxoId>,
}

/// A token recorded in a UTXO: who bound it and its semantic payload.
#[derive(Clone, Copy, Debug, PartialEq, Eq, Structural)]
pub struct Token {
    pub bind_program: ProgramIdx,
    pub id: u64,
    pub amount: u64,
}

/// A UTXO known to the transaction: its program slot and the tokens
/// bound to it.
pub struct Utxo {
    pub program: ProgramIdx,
    pub tokens: Vec<(TokenId, Token)>,
}

/// What the embedding layer reports back after driving a program.
pub enum Outcome {
    /// The program returned.  `token_return` carries the 16-byte
    /// struct-return region when the engine asked for it.
    Finished { values: Vec<Val>, token_return: Option<Vec<u8>> },
    /// The program trapped on a host interrupt.
    Interrupted { interrupt: Interrupt },
}

/// Which import table a program is instantiated with.
#[derive(Clone, Copy, Debug, PartialEq, Eq, Structural)]
pub enum LinkerDialect {
    Coordination,
    Utxo,
    Token,
}

/// What the engine asks the embedding layer to do next.
pub enum Action {
    /// Instantiate `code` with the given import dialect and call the
    /// entry point.
    Start {
        program: ProgramIdx,
        dialect: LinkerDialect,
        code: CodeHash,
        entry_point: Vec<u8>,
        inputs: Vec<Val>,
    },
    /// Apply the memory writes to the program's memory, then resume its
    /// suspended call with the given values.
    Resume { program: ProgramIdx, inputs: Vec<Val>, writes: Vec<MemorySegment> },
    /// Call a method as a fresh invocation on the instance of
    /// `instance_of`; the call occupies the new slot `program`.
    CallMethod {
        program: ProgramIdx,
        instance_of: ProgramIdx,
        method: Vec<u8>,
        inputs: Vec<Val>,
    },
    /// The coordination script returned: the transaction is complete.
    Finish { value: Val },
}

/// The fatal conditions that abort a transaction.
#[derive(Clone, Copy, Debug, PartialEq, Eq, Structural)]
pub enum TxError {
    /// An integer handle does not decode to a known UTxO.
    UnknownUtxoId,
    /// An integer handle does not decode to a known token.
    UnknownTokenId,
    /// An outcome was reported with no program running.
    NoProgramRunning,
    /// A resume of a program that already finished.
    ResumeOfFinishedProgram,
    /// A UTXO operation on a program not suspended in a yield.
    NotSuspendedInYield,
    /// An unregister with no matching registration.
    UnregisterWithoutRegistration,
    /// A raise with no handler registered for the name.
    NoHandlerRegistered,
    /// A raise of a name whose previous raise was never answered.
    EffectAlreadyRaised,
    /// A reply to an effect nobody raised.
    MissingEffect,
    /// A reply or resume payload of the wrong length.
    WrongReplyLength,
    /// A token bind returned without its 16-byte struct-return region.
    MalformedTokenReturn,
    /// Handlers registered by the coordination script were never
    /// unregistered.
    HandlerImbalance,
    /// The engine's bookkeeping was violated in another way.
    ProtocolViolation,
}

} // verus!
