//! The transaction scheduler and effect dispatcher.
//!
//! The engine is the decision core of a transaction: it owns the program
//! table, the identity tables, the handler stacks, the raised-effect map
//! and the witness log, and it decides, for each reported outcome of the
//! running program, which program runs next and with what inputs and
//! memory writes.  Driving the actual guest instances — instantiation,
//! resumable calls, memory access — is the embedding layer's job: it
//! executes each returned [`Action`](crate::types::Action) and reports
//! the resulting [`Outcome`](crate::types::Outcome) back.
//!
//! Every control transfer appends one witness, stamped with the fuel
//! snapshot the embedding layer supplies, before the transfer happens.

use vstd::prelude::*;

use crate::circuit::copy_vec;
use crate::code::CodeHash;
use crate::ids::{IdentityTable, TokenId, UtxoId};
use crate::types::{
    Action, Interrupt, LinkerDialect, MemorySegment, Outcome, ProgramIdx, ResumeState, SuspendInfo,
    Token, TxError, TxProgram, TxWitness, Utxo, Val,
};

verus! {

/// A program occurs as the target of some witness: it has been entered.
pub open spec fn program_entered(ws: Seq<TxWitness>, p: ProgramIdx) -> bool {
    exists|j: int| 0 <= j < ws.len() && (#[trigger] ws[j]).to_program == p
}

/// Every witness is emitted by the external caller or by a program that
/// an earlier witness entered.
pub open spec fn witnesses_entered(ws: Seq<TxWitness>) -> bool {
    forall|i: int|
        0 <= i < ws.len() ==> ((#[trigger] ws[i]).from_program.spec_is_root() || exists|j: int|
            0 <= j < i && (#[trigger] ws[j]).to_program == ws[i].from_program)
}

/// Appending a witness whose emitter was already entered keeps the log
/// well ordered.
proof fn lemma_witnesses_entered_push(ws: Seq<TxWitness>, w: TxWitness)
    requires
        witnesses_entered(ws),
        w.from_program.spec_is_root() || program_entered(ws, w.from_program),
    ensures
        witnesses_entered(ws.push(w)),
        forall|p: ProgramIdx| program_entered(ws, p) ==> program_entered(ws.push(w), p),
        program_entered(ws.push(w), w.to_program),
{
    let ws2 = ws.push(w);
    assert forall|i: int|
        0 <= i < ws2.len() implies ((#[trigger] ws2[i]).from_program.spec_is_root() || exists|j: int|
            0 <= j < i && (#[trigger] ws2[j]).to_program == ws2[i].from_program) by {
        if i < ws.len() {
            assert(ws2[i] == ws[i]);
            if !ws[i].from_program.spec_is_root() {
                let j = choose|j: int| 0 <= j < i && (#[trigger] ws[j]).to_program == ws[i].from_program;
                assert(ws2[j].to_program == ws2[i].from_program);
            }
        } else {
            assert(ws2[i] == w);
            if !w.from_program.spec_is_root() {
                let j = choose|j: int| 0 <= j < ws.len() && (#[trigger] ws[j]).to_program == w.from_program;
                assert(ws2[j].to_program == ws2[i].from_program);
            }
        }
    }
    assert forall|p: ProgramIdx| program_entered(ws, p) implies program_entered(ws2, p) by {
        let j = choose|j: int| 0 <= j < ws.len() && (#[trigger] ws[j]).to_program == p;
        assert(ws2[j].to_program == p);
    }
    assert(ws2[ws.len() as int].to_program == w.to_program);
}

/// A program slot only references slots that exist.
pub open spec fn program_slot_wf(p: TxProgram, n: int) -> bool {
    &&& (p.return_to.spec_is_root() || p.return_to.0 < n)
    &&& match p.yield_to {
        Option::Some(q) => q.spec_is_root() || q.0 < n,
        Option::None => true,
    }
}

/// The state of one in-progress transaction.
pub struct TxEngine {
    /// Digest of the coordination script's code.
    pub coordination_code: CodeHash,
    /// Append-only table of program instances.
    pub programs: Vec<TxProgram>,
    /// Append-only log of control transfers.
    pub witnesses: Vec<TxWitness>,
    /// The UTXOs this transaction knows, with their bound tokens.
    pub utxos: Vec<(UtxoId, Utxo)>,
    /// Scrambled integer aliases of UTXO identifiers.
    pub temporary_utxo_ids: IdentityTable<UtxoId>,
    /// Scrambled integer aliases of token identifiers.
    pub temporary_token_ids: IdentityTable<TokenId>,
    /// Per effect name, the stack of registered handlers.
    pub registered_effect_handler: Vec<(Vec<u8>, Vec<(ProgramIdx, u32)>)>,
    /// Per raised effect name, the raising program and its payload.
    pub raised_effects: Vec<(Vec<u8>, ProgramIdx, Vec<u8>)>,
    /// The program the embedding layer is currently driving, if any.
    pub running: Option<ProgramIdx>,
}

impl TxEngine {
    /// Internal consistency: the witness log is well ordered, the
    /// running program was entered, and every cross-reference points at
    /// an existing program slot.
    pub open spec fn wf(self) -> bool {
        let n = self.programs@.len() as int;
        &&& witnesses_entered(self.witnesses@)
        &&& match self.running {
            Option::Some(p) => p.0 < n && program_entered(self.witnesses@, p),
            Option::None => true,
        }
        &&& forall|i: int| 0 <= i < n ==> program_slot_wf(#[trigger] self.programs@[i], n)
        &&& forall|i: int|
            0 <= i < self.utxos@.len() ==> (#[trigger] self.utxos@[i]).1.program.0 < n
        &&& forall|i: int, j: int|
            0 <= i < self.registered_effect_handler@.len() && 0 <= j < (
            #[trigger] self.registered_effect_handler@[i]).1@.len() ==> (
            #[trigger] self.registered_effect_handler@[i].1@[j]).0.0 < n
        &&& forall|i: int| 0 <= i < self.raised_effects@.len() ==> (#[trigger] self.raised_effects@[i]).1.0 < n
        &&& forall|i: int, j: int|
            0 <= i < j < self.registered_effect_handler@.len() ==> (
            #[trigger] self.registered_effect_handler@[i]).0@ != (
            #[trigger] self.registered_effect_handler@[j]).0@
        &&& forall|i: int, j: int|
            0 <= i < self.utxos@.len() && 0 <= j < (#[trigger] self.utxos@[i]).1.tokens@.len()
                ==> (#[trigger] self.utxos@[i].1.tokens@[j]).1.bind_program.0 < n
        &&& forall|i: int, a: int, b: int|
            0 <= i < self.utxos@.len() && 0 <= a < b < (
            #[trigger] self.utxos@[i]).1.tokens@.len() ==> (
            #[trigger] self.utxos@[i].1.tokens@[a]).0 != (
            #[trigger] self.utxos@[i].1.tokens@[b]).0
        &&& self.temporary_utxo_ids.wf()
        &&& self.temporary_token_ids.wf()
    }

    /// No handler stack holds an entry owned by the coordination script.
    pub open spec fn coordination_handlers_clear(self) -> bool {
        forall|i: int, j: int|
            0 <= i < self.registered_effect_handler@.len() && 0 <= j < (
            #[trigger] self.registered_effect_handler@[i]).1@.len() ==> (
            #[trigger] self.registered_effect_handler@[i].1@[j]).0.0 != 0
    }

    /// Begin a transaction: an empty state around one coordination
    /// script digest.
    pub fn new(coordination_code: CodeHash) -> (r: TxEngine)
        ensures
            r.wf(),
            r.programs@.len() == 0,
            r.witnesses@.len() == 0,
            r.running is None,
            r.coordination_code.bytes@ == coordination_code.bytes@,
    {
        TxEngine {
            coordination_code,
            programs: Vec::new(),
            witnesses: Vec::new(),
            utxos: Vec::new(),
            temporary_utxo_ids: IdentityTable::new(),
            temporary_token_ids: IdentityTable::new(),
            registered_effect_handler: Vec::new(),
            raised_effects: Vec::new(),
            running: None,
        }
    }
}

/// Copy a memory-segment list.
fn clone_segments(v: &Vec<MemorySegment>) -> (r: Vec<MemorySegment>)
    ensures
        r@.len() == v@.len(),
        forall|i: int|
            0 <= i < v@.len() ==> (#[trigger] r@[i]).address == v@[i].address && r@[i].data@
                == v@[i].data@,
{
    let mut r: Vec<MemorySegment> = Vec::new();
    let mut i: usize = 0;
    while i < v.len()
        invariant
            i <= v@.len(),
            r@.len() == i,
            forall|j: int|
                0 <= j < i ==> (#[trigger] r@[j]).address == v@[j].address && r@[j].data@
                    == v@[j].data@,
        decreases v@.len() - i,
    {
        r.push(MemorySegment { address: v[i].address, data: copy_vec(&v[i].data) });
        i = i + 1;
    }
    r
}

/// Compare two byte strings.
fn bytes_eq(a: &Vec<u8>, b: &Vec<u8>) -> (r: bool)
    ensures
        r == (a@ == b@),
{
    let r = a == b;
    proof {
        if r {
            assert(a@ =~= b@);
        } else {
            assert(a@ != b@);
        }
    }
    r
}

} // verus!

verus! {

impl TxEngine {
    /// Replace the resumable cell of one program slot.
    #[verifier::rlimit(100)]
    fn set_resumable(&mut self, i: usize, state: ResumeState)
        requires
            old(self).wf(),
            i < old(self).programs@.len(),
        ensures
            final(self).wf(),
            final(self).programs@.len() == old(self).programs@.len(),
            final(self).programs@[i as int].resumable == state,
            final(self).programs@[i as int].return_to == old(self).programs@[i as int].return_to,
            final(self).programs@[i as int].return_is_token == old(self).programs@[
                i as int
            ].return_is_token,
            final(self).programs@[i as int].yield_to == old(self).programs@[i as int].yield_to,
            final(self).programs@[i as int].yield_to_constructor == old(self).programs@[
                i as int
            ].yield_to_constructor,
            final(self).programs@[i as int].utxo == old(self).programs@[i as int].utxo,
            final(self).programs@[i as int].code == old(self).programs@[i as int].code,
            final(self).programs@[i as int].entry_point == old(self).programs@[
                i as int
            ].entry_point,
            forall|j: int|
                0 <= j < old(self).programs@.len() && j != i ==> #[trigger] final(self).programs@[j]
                    == old(self).programs@[j],
            final(self).witnesses@ == old(self).witnesses@,
            final(self).utxos@ == old(self).utxos@,
            final(self).temporary_utxo_ids == old(self).temporary_utxo_ids,
            final(self).temporary_token_ids == old(self).temporary_token_ids,
            final(self).registered_effect_handler@ == old(self).registered_effect_handler@,
            final(self).raised_effects@ == old(self).raised_effects@,
            final(self).running == old(self).running,
            final(self).coordination_code == old(self).coordination_code,
    {
        let ghost before = self.programs@;
        let mut p = self.programs.remove(i);
        proof {
            before.remove_ensures(i as int);
        }
        p.resumable = state;
        let ghost mid = self.programs@;
        let ghost pg = p;
        self.programs.insert(i, p);
        proof {
            mid.insert_ensures(i as int, pg);
            assert(mid.len() == before.len() - 1);
            assert(self.programs@.len() == old(self).programs@.len());
            assert forall|j: int|
                0 <= j < self.programs@.len() && j != i implies #[trigger] self.programs@[j]
                == old(self).programs@[j] by {
                if j < i {
                    assert(self.programs@[j] == mid[j]);
                    assert(mid[j] == before[j]);
                } else {
                    assert(self.programs@[j] == mid[j - 1]);
                    assert(mid[j - 1] == before[j]);
                }
            }
            assert(self.programs@[i as int] == pg);
            assert forall|j: int|
                0 <= j < self.programs@.len() implies program_slot_wf(
                #[trigger] self.programs@[j],
                self.programs@.len() as int,
            ) by {
                let n = self.programs@.len() as int;
                if j != i as int {
                    assert(self.programs@[j] == old(self).programs@[j]);
                    assert(program_slot_wf(old(self).programs@[j], n));
                } else {
                    assert(pg.return_to == before[j].return_to);
                    assert(pg.yield_to == before[j].yield_to);
                    assert(program_slot_wf(before[j], n));
                    assert(program_slot_wf(pg, n));
                }
            }
        }
    }

    /// Point a program's return and yield links at a new parent.
    #[verifier::rlimit(100)]
    fn set_return_links(&mut self, i: usize, parent: ProgramIdx)
        requires
            old(self).wf(),
            i < old(self).programs@.len(),
            parent.spec_is_root() || parent.0 < old(self).programs@.len(),
        ensures
            final(self).wf(),
            final(self).programs@.len() == old(self).programs@.len(),
            final(self).programs@[i as int].return_to == parent,
            final(self).programs@[i as int].yield_to == Some(parent),
            final(self).programs@[i as int].resumable == old(self).programs@[i as int].resumable,
            final(self).programs@[i as int].utxo == old(self).programs@[i as int].utxo,
            forall|j: int|
                0 <= j < old(self).programs@.len() && j != i ==> #[trigger] final(self).programs@[j]
                    == old(self).programs@[j],
            final(self).witnesses@ == old(self).witnesses@,
            final(self).utxos@ == old(self).utxos@,
            final(self).temporary_utxo_ids == old(self).temporary_utxo_ids,
            final(self).temporary_token_ids == old(self).temporary_token_ids,
            final(self).registered_effect_handler@ == old(self).registered_effect_handler@,
            final(self).raised_effects@ == old(self).raised_effects@,
            final(self).running == old(self).running,
            final(self).coordination_code == old(self).coordination_code,
    {
        let ghost before = self.programs@;
        let mut p = self.programs.remove(i);
        proof {
            before.remove_ensures(i as int);
        }
        p.return_to = parent;
        p.yield_to = Some(parent);
        let ghost mid = self.programs@;
        let ghost pg = p;
        self.programs.insert(i, p);
        proof {
            mid.insert_ensures(i as int, pg);
            assert(mid.len() == before.len() - 1);
            assert(self.programs@.len() == old(self).programs@.len());
            assert forall|j: int|
                0 <= j < self.programs@.len() && j != i implies #[trigger] self.programs@[j]
                == old(self).programs@[j] by {
                if j < i {
                    assert(self.programs@[j] == mid[j]);
                    assert(mid[j] == before[j]);
                } else {
                    assert(self.programs@[j] == mid[j - 1]);
                    assert(mid[j - 1] == before[j]);
                }
            }
            assert(self.programs@[i as int] == pg);
            assert forall|j: int|
                0 <= j < self.programs@.len() implies program_slot_wf(
                #[trigger] self.programs@[j],
                self.programs@.len() as int,
            ) by {
                let n = self.programs@.len() as int;
                if j != i as int {
                    assert(self.programs@[j] == old(self).programs@[j]);
                    assert(program_slot_wf(old(self).programs@[j], n));
                } else {
                    assert(pg.return_to == parent);
                    assert(pg.yield_to == Some(parent));
                    assert(parent.spec_is_root() || parent.0 < n);
                    assert(program_slot_wf(pg, n));
                }
            }
        }
    }

    /// Take the one-shot constructor value of a program.
    #[verifier::rlimit(100)]
    fn take_constructor(&mut self, i: usize) -> (r: Option<Val>)
        requires
            old(self).wf(),
            i < old(self).programs@.len(),
        ensures
            final(self).wf(),
            final(self).programs@.len() == old(self).programs@.len(),
            r == old(self).programs@[i as int].yield_to_constructor,
            final(self).programs@[i as int].yield_to_constructor is None,
            final(self).programs@[i as int].resumable == old(self).programs@[i as int].resumable,
            final(self).programs@[i as int].yield_to == old(self).programs@[i as int].yield_to,
            final(self).programs@[i as int].return_to == old(self).programs@[i as int].return_to,
            forall|j: int|
                0 <= j < old(self).programs@.len() && j != i ==> #[trigger] final(self).programs@[j]
                    == old(self).programs@[j],
            final(self).witnesses@ == old(self).witnesses@,
            final(self).utxos@ == old(self).utxos@,
            final(self).temporary_utxo_ids == old(self).temporary_utxo_ids,
            final(self).temporary_token_ids == old(self).temporary_token_ids,
            final(self).registered_effect_handler@ == old(self).registered_effect_handler@,
            final(self).raised_effects@ == old(self).raised_effects@,
            final(self).running == old(self).running,
            final(self).coordination_code == old(self).coordination_code,
    {
        let ghost before = self.programs@;
        let mut p = self.programs.remove(i);
        proof {
            before.remove_ensures(i as int);
        }
        let r = p.yield_to_constructor;
        p.yield_to_constructor = None;
        let ghost mid = self.programs@;
        let ghost pg = p;
        self.programs.insert(i, p);
        proof {
            mid.insert_ensures(i as int, pg);
            assert(mid.len() == before.len() - 1);
            assert(self.programs@.len() == old(self).programs@.len());
            assert forall|j: int|
                0 <= j < self.programs@.len() && j != i implies #[trigger] self.programs@[j]
                == old(self).programs@[j] by {
                if j < i {
                    assert(self.programs@[j] == mid[j]);
                    assert(mid[j] == before[j]);
                } else {
                    assert(self.programs@[j] == mid[j - 1]);
                    assert(mid[j - 1] == before[j]);
                }
            }
            assert(self.programs@[i as int] == pg);
            assert forall|j: int|
                0 <= j < self.programs@.len() implies program_slot_wf(
                #[trigger] self.programs@[j],
                self.programs@.len() as int,
            ) by {
                let n = self.programs@.len() as int;
                if j != i as int {
                    assert(self.programs@[j] == old(self).programs@[j]);
                    assert(program_slot_wf(old(self).programs@[j], n));
                } else {
                    assert(pg.return_to == before[j].return_to);
                    assert(pg.yield_to == before[j].yield_to);
                    assert(program_slot_wf(before[j], n));
                    assert(program_slot_wf(pg, n));
                }
            }
        }
        r
    }

    /// Append one witness: the transfer's fuel snapshot, endpoints,
    /// values, and the memory copied each way.
    fn push_witness(
        &mut self,
        fuel: u64,
        from: ProgramIdx,
        to: ProgramIdx,
        values: Vec<Val>,
        read_from_memory: Vec<MemorySegment>,
        write_to_memory: Vec<MemorySegment>,
    )
        requires
            old(self).wf(),
            from.spec_is_root() || program_entered(old(self).witnesses@, from),
        ensures
            final(self).wf(),
            final(self).witnesses@.len() == old(self).witnesses@.len() + 1,
            final(self).witnesses@.last().fuel == fuel,
            final(self).witnesses@.last().from_program == from,
            final(self).witnesses@.last().to_program == to,
            final(self).witnesses@.last().values == values,
            forall|j: int|
                0 <= j < old(self).witnesses@.len() ==> #[trigger] final(self).witnesses@[j] == old(
                    self,
                ).witnesses@[j],
            program_entered(final(self).witnesses@, to),
            forall|p: ProgramIdx|
                program_entered(old(self).witnesses@, p) ==> program_entered(
                    final(self).witnesses@,
                    p,
                ),
            final(self).programs@ == old(self).programs@,
            final(self).utxos@ == old(self).utxos@,
            final(self).temporary_utxo_ids == old(self).temporary_utxo_ids,
            final(self).temporary_token_ids == old(self).temporary_token_ids,
            final(self).registered_effect_handler@ == old(self).registered_effect_handler@,
            final(self).raised_effects@ == old(self).raised_effects@,
            final(self).running == old(self).running,
            final(self).coordination_code == old(self).coordination_code,
    {
        let w = TxWitness {
            fuel,
            from_program: from,
            to_program: to,
            values,
            read_from_memory,
            write_to_memory,
        };
        proof {
            lemma_witnesses_entered_push(self.witnesses@, w);
        }
        self.witnesses.push(w);
    }
}

} // verus!

verus! {

impl TxEngine {
    /// Resume a suspended program: record the witness, apply the memory
    /// writes, and hand it the reply values.  Resuming a program that is
    /// not suspended is fatal.
    fn resume_to(
        &mut self,
        fuel: u64,
        from: ProgramIdx,
        to: ProgramIdx,
        inputs: Vec<Val>,
        read_from_memory: Vec<MemorySegment>,
        writes: Vec<MemorySegment>,
    ) -> (r: Result<Action, TxError>)
        requires
            old(self).wf(),
            from.spec_is_root() || program_entered(old(self).witnesses@, from),
            to.0 < old(self).programs@.len(),
        ensures
            final(self).wf(),
            final(self).registered_effect_handler@ == old(self).registered_effect_handler@,
            final(self).raised_effects@ == old(self).raised_effects@,
            final(self).utxos@ == old(self).utxos@,
            final(self).programs@ == old(self).programs@,
            match r {
                Result::Ok(a) => {
                    &&& old(self).programs@[to.0 as int].resumable is Suspended
                    &&& a matches Action::Resume { program, inputs: ins, writes: ws } && {
                        &&& program == to
                        &&& ins@ == inputs@
                        &&& ws@.len() == writes@.len()
                        &&& forall|i: int|
                            0 <= i < writes@.len() ==> (#[trigger] ws@[i]).address
                                == writes@[i].address && ws@[i].data@ == writes@[i].data@
                    }
                    &&& final(self).running == Some(to)
                    &&& final(self).witnesses@.len() == old(self).witnesses@.len() + 1
                },
                Result::Err(e) => {
                    &&& e == TxError::ResumeOfFinishedProgram
                    &&& !(old(self).programs@[to.0 as int].resumable is Suspended)
                    &&& final(self).witnesses@ == old(self).witnesses@
                    &&& final(self).running == old(self).running
                },
            },
    {
        let suspended = match &self.programs[to.0].resumable {
            ResumeState::Suspended(_) => true,
            _ => false,
        };
        if !suspended {
            return Err(TxError::ResumeOfFinishedProgram);
        }
        let action_inputs = copy_vec(&inputs);
        let action_writes = clone_segments(&writes);
        self.push_witness(fuel, from, to, inputs, read_from_memory, writes);
        self.running = Some(to);
        proof {
            assert(program_entered(self.witnesses@, to));
        }
        Ok(Action::Resume { program: to, inputs: action_inputs, writes: action_writes })
    }

    /// Create a program slot for a fresh instantiation, record the
    /// witness, and direct the embedding layer to start it.
    fn start_program(
        &mut self,
        fuel: u64,
        from: ProgramIdx,
        dialect: LinkerDialect,
        code: CodeHash,
        entry_point: Vec<u8>,
        inputs: Vec<Val>,
        return_is_token: bool,
        yield_to: Option<ProgramIdx>,
        yield_to_constructor: Option<Val>,
        utxo: Option<crate::ids::UtxoId>,
    ) -> (r: (ProgramIdx, Action))
        requires
            old(self).wf(),
            from.spec_is_root() || program_entered(old(self).witnesses@, from),
            from.spec_is_root() || from.0 < old(self).programs@.len(),
            match yield_to {
                Option::Some(q) => q.spec_is_root() || q.0 < old(self).programs@.len(),
                Option::None => true,
            },
        ensures
            final(self).wf(),
            final(self).registered_effect_handler@ == old(self).registered_effect_handler@,
            final(self).raised_effects@ == old(self).raised_effects@,
            final(self).utxos@ == old(self).utxos@,
            final(self).programs@.len() == old(self).programs@.len() + 1,
            forall|j: int|
                0 <= j < old(self).programs@.len() ==> #[trigger] final(self).programs@[j] == old(
                    self,
                ).programs@[j],
            r.0.0 == old(self).programs@.len(),
            final(self).programs@.last().return_to == from,
            final(self).programs@.last().return_is_token == return_is_token,
            final(self).programs@.last().utxo == utxo,
            final(self).programs@.last().yield_to == yield_to,
            final(self).programs@.last().yield_to_constructor == yield_to_constructor,
            final(self).programs@.last().entry_point@ == entry_point@,
            final(self).programs@.last().resumable is NotStarted,
            final(self).running == Some(r.0),
            r.1 matches Action::Start { program, dialect: d, code: c, entry_point: e, inputs: ins }
                && {
                &&& program == r.0
                &&& d == dialect
                &&& c.bytes@ == code.bytes@
                &&& e@ == entry_point@
                &&& ins@ == inputs@
            },
            final(self).witnesses@.len() == old(self).witnesses@.len() + 1,
            final(self).witnesses@.last().values == inputs,
    {
        let new_idx = ProgramIdx(self.programs.len());
        let action_entry = copy_vec(&entry_point);
        let action_inputs = copy_vec(&inputs);
        let action_code = code.clone();
        let slot = TxProgram {
            return_to: from,
            return_is_token,
            yield_to,
            yield_to_constructor,
            code,
            entry_point,
            num_outputs: 0,
            resumable: ResumeState::NotStarted,
            utxo,
        };
        self.programs.push(slot);
        proof {
            let n = self.programs@.len() as int;
            assert forall|j: int| 0 <= j < n implies program_slot_wf(
                #[trigger] self.programs@[j],
                n,
            ) by {
                if j < n - 1 {
                    assert(self.programs@[j] == old(self).programs@[j]);
                    assert(program_slot_wf(old(self).programs@[j], n - 1));
                }
            }
            assert forall|i: int|
                0 <= i < self.utxos@.len() implies (#[trigger] self.utxos@[i]).1.program.0 < n by {
                assert(self.utxos@[i].1.program.0 < n - 1);
            }
        }
        self.push_witness(fuel, from, new_idx, inputs, Vec::new(), Vec::new());
        self.running = Some(new_idx);
        proof {
            assert(program_entered(self.witnesses@, new_idx));
        }
        (
            new_idx,
            Action::Start {
                program: new_idx,
                dialect,
                code: action_code,
                entry_point: action_entry,
                inputs: action_inputs,
            },
        )
    }

    /// Spawn an additional function call on an existing instance: a
    /// fresh program slot sharing that instance, with the witness
    /// recorded.
    fn call_method(
        &mut self,
        fuel: u64,
        from: ProgramIdx,
        to: ProgramIdx,
        method: Vec<u8>,
        inputs: Vec<Val>,
    ) -> (r: (ProgramIdx, Action))
        requires
            old(self).wf(),
            from.spec_is_root() || program_entered(old(self).witnesses@, from),
            from.spec_is_root() || from.0 < old(self).programs@.len(),
            to.0 < old(self).programs@.len(),
        ensures
            final(self).wf(),
            final(self).registered_effect_handler@ == old(self).registered_effect_handler@,
            final(self).raised_effects@ == old(self).raised_effects@,
            final(self).utxos@ == old(self).utxos@,
            final(self).programs@.len() == old(self).programs@.len() + 1,
            forall|j: int|
                0 <= j < old(self).programs@.len() ==> #[trigger] final(self).programs@[j] == old(
                    self,
                ).programs@[j],
            r.0.0 == old(self).programs@.len(),
            final(self).running == Some(r.0),
            r.1 matches Action::CallMethod { program, instance_of, method: m, inputs: ins } && {
                &&& program == r.0
                &&& instance_of == to
                &&& m@ == method@
                &&& ins@ == inputs@
            },
            final(self).witnesses@.len() == old(self).witnesses@.len() + 1,
    {
        let new_idx = ProgramIdx(self.programs.len());
        let action_method = copy_vec(&method);
        let action_inputs = copy_vec(&inputs);
        let code = self.programs[to.0].code.clone();
        let utxo = self.programs[to.0].utxo;
        let slot = TxProgram {
            return_to: from,
            return_is_token: false,
            yield_to: None,
            yield_to_constructor: None,
            code,
            entry_point: method,
            num_outputs: 0,
            resumable: ResumeState::NotStarted,
            utxo,
        };
        self.programs.push(slot);
        proof {
            let n = self.programs@.len() as int;
            assert forall|j: int| 0 <= j < n implies program_slot_wf(
                #[trigger] self.programs@[j],
                n,
            ) by {
                if j < n - 1 {
                    assert(self.programs@[j] == old(self).programs@[j]);
                    assert(program_slot_wf(old(self).programs@[j], n - 1));
                }
            }
            assert forall|i: int|
                0 <= i < self.utxos@.len() implies (#[trigger] self.utxos@[i]).1.program.0 < n by {
                assert(self.utxos@[i].1.program.0 < n - 1);
            }
        }
        self.push_witness(fuel, from, new_idx, inputs, Vec::new(), Vec::new());
        self.running = Some(new_idx);
        proof {
            assert(program_entered(self.witnesses@, new_idx));
        }
        (
            new_idx,
            Action::CallMethod {
                program: new_idx,
                instance_of: to,
                method: action_method,
                inputs: action_inputs,
            },
        )
    }

    /// Start the coordination script: the first program of the
    /// transaction.
    pub fn begin(&mut self, entry_point: Vec<u8>, inputs: Vec<Val>, fuel: u64) -> (r: Action)
        requires
            old(self).wf(),
            old(self).programs@.len() == 0,
            old(self).running is None,
        ensures
            final(self).wf(),
            final(self).programs@.len() == 1,
            final(self).running == Some(ProgramIdx(0)),
            r matches Action::Start { program, dialect, .. } && program == ProgramIdx(0) && dialect
                == LinkerDialect::Coordination,
    {
        let code = self.coordination_code.clone();
        let (_idx, action) = self.start_program(
            fuel,
            ProgramIdx::root(),
            LinkerDialect::Coordination,
            code,
            entry_point,
            inputs,
            false,
            None,
            None,
            None,
        );
        action
    }
}

} // verus!

verus! {

/// The scrambled UTXO handle an outcome's interrupt names, if any.
pub open spec fn spec_outcome_utxo_handle(outcome: Outcome) -> Option<u64> {
    match outcome {
        Outcome::Interrupted { interrupt } => match interrupt {
            Interrupt::UtxoResume { utxo_handle, .. } => Some(utxo_handle),
            Interrupt::UtxoQuery { utxo_handle, .. } => Some(utxo_handle),
            Interrupt::UtxoMutate { utxo_handle, .. } => Some(utxo_handle),
            Interrupt::UtxoConsume { utxo_handle, .. } => Some(utxo_handle),
            _ => None,
        },
        _ => None,
    }
}

/// Whether some handler stack for `name` holds an entry owned by
/// `owner`.
pub open spec fn spec_has_registration(
    stacks: Seq<(Vec<u8>, Vec<(ProgramIdx, u32)>)>,
    name: Seq<u8>,
    owner: ProgramIdx,
) -> bool {
    exists|i: int, j: int|
        0 <= i < stacks.len() && (#[trigger] stacks[i]).0@ == name && 0 <= j < stacks[i].1@.len()
            && (#[trigger] stacks[i].1@[j]).0 == owner
}

/// Whether `i` is the first row of an identifier.
pub open spec fn spec_first_utxo_at(utxos: Seq<(UtxoId, Utxo)>, id: UtxoId, i: int) -> bool {
    &&& 0 <= i < utxos.len()
    &&& utxos[i].0 == id
    &&& forall|j: int| 0 <= j < i ==> (#[trigger] utxos[j]).0 != id
}

/// Whether `i` is the first raised-effect entry of a name.
pub open spec fn spec_raised_at(
    raised: Seq<(Vec<u8>, ProgramIdx, Vec<u8>)>,
    name: Seq<u8>,
    i: int,
) -> bool {
    &&& 0 <= i < raised.len()
    &&& raised[i].0@ == name
    &&& forall|j: int| 0 <= j < i ==> (#[trigger] raised[j]).0@ != name
}

/// Whether an effect name has an unanswered raise.
pub open spec fn spec_effect_raised(
    raised: Seq<(Vec<u8>, ProgramIdx, Vec<u8>)>,
    name: Seq<u8>,
) -> bool {
    exists|i: int| 0 <= i < raised.len() && (#[trigger] raised[i]).0@ == name
}

/// Whether some nonempty handler stack exists for an effect name.
pub open spec fn spec_has_handler(
    stacks: Seq<(Vec<u8>, Vec<(ProgramIdx, u32)>)>,
    name: Seq<u8>,
) -> bool {
    exists|i: int|
        0 <= i < stacks.len() && (#[trigger] stacks[i]).0@ == name && stacks[i].1@.len() > 0
}

/// The program slot of a UTXO identifier: that of its first row, if the
/// transaction knows the identifier.
pub open spec fn spec_utxo_program(utxos: Seq<(UtxoId, Utxo)>, id: UtxoId) -> Option<ProgramIdx> {
    if exists|i: int| spec_first_utxo_at(utxos, id, i) {
        Some(utxos[choose|i: int| spec_first_utxo_at(utxos, id, i)].1.program)
    } else {
        None
    }
}

impl TxEngine {
    /// Find the handler stack of an effect name.
    fn find_stack(&self, name: &Vec<u8>) -> (r: Option<usize>)
        ensures
            match r {
                Option::Some(i) => i < self.registered_effect_handler@.len()
                    && self.registered_effect_handler@[i as int].0@ == name@,
                Option::None => forall|i: int|
                    0 <= i < self.registered_effect_handler@.len() ==> (
                    #[trigger] self.registered_effect_handler@[i]).0@ != name@,
            },
    {
        let mut i: usize = 0;
        while i < self.registered_effect_handler.len()
            invariant
                i <= self.registered_effect_handler@.len(),
                forall|j: int|
                    0 <= j < i ==> (#[trigger] self.registered_effect_handler@[j]).0@ != name@,
            decreases self.registered_effect_handler@.len() - i,
        {
            if bytes_eq(&self.registered_effect_handler[i].0, name) {
                return Some(i);
            }
            i = i + 1;
        }
        None
    }

    /// Find the raised-effect entry of a name.
    fn find_raised(&self, name: &Vec<u8>) -> (r: Option<usize>)
        ensures
            match r {
                Option::Some(i) => i < self.raised_effects@.len()
                    && self.raised_effects@[i as int].0@ == name@ && forall|j: int|
                    0 <= j < i ==> (#[trigger] self.raised_effects@[j]).0@ != name@,
                Option::None => forall|i: int|
                    0 <= i < self.raised_effects@.len() ==> (
                    #[trigger] self.raised_effects@[i]).0@ != name@,
            },
    {
        let mut i: usize = 0;
        while i < self.raised_effects.len()
            invariant
                i <= self.raised_effects@.len(),
                forall|j: int| 0 <= j < i ==> (#[trigger] self.raised_effects@[j]).0@ != name@,
            decreases self.raised_effects@.len() - i,
        {
            if bytes_eq(&self.raised_effects[i].0, name) {
                return Some(i);
            }
            i = i + 1;
        }
        None
    }

    /// Find the row of a UTXO identifier.
    fn find_utxo(&self, id: UtxoId) -> (r: Option<usize>)
        ensures
            match r {
                Option::Some(i) => i < self.utxos@.len() && self.utxos@[i as int].0 == id
                    && forall|j: int| 0 <= j < i ==> (#[trigger] self.utxos@[j]).0 != id,
                Option::None => forall|i: int|
                    0 <= i < self.utxos@.len() ==> (#[trigger] self.utxos@[i]).0 != id,
            },
    {
        let mut i: usize = 0;
        while i < self.utxos.len()
            invariant
                i <= self.utxos@.len(),
                forall|j: int| 0 <= j < i ==> (#[trigger] self.utxos@[j]).0 != id,
            decreases self.utxos@.len() - i,
        {
            if self.utxos[i].0 == id {
                return Some(i);
            }
            i = i + 1;
        }
        None
    }
}

/// Prepend a value to a value list.
fn prepend_val(v0: Val, rest: &Vec<Val>) -> (r: Vec<Val>)
    ensures
        r@ == seq![v0] + rest@,
{
    let mut r: Vec<Val> = Vec::new();
    r.push(v0);
    let mut i: usize = 0;
    while i < rest.len()
        invariant
            i <= rest@.len(),
            r@ == (seq![v0] + rest@).take(i as int + 1),
        decreases rest@.len() - i,
    {
        r.push(rest[i]);
        proof {
            assert(r@ =~= (seq![v0] + rest@).take(i as int + 2));
        }
        i = i + 1;
    }
    proof {
        assert((seq![v0] + rest@).take(rest@.len() as int + 1) =~= seq![v0] + rest@);
    }
    r
}

/// Read a little-endian 64-bit integer from eight bytes.
pub open spec fn spec_le_u64(s: Seq<u8>, off: int) -> int {
    s[off] + 256 * (s[off + 1] + 256 * (s[off + 2] + 256 * (s[off + 3] + 256 * (s[off + 4] + 256
        * (s[off + 5] + 256 * (s[off + 6] + 256 * s[off + 7]))))))
}

/// Decode eight little-endian bytes as a machine word.
fn le_u64(bytes: &Vec<u8>, off: usize) -> (r: u64)
    requires
        off + 8 <= bytes@.len(),
    ensures
        r as int == spec_le_u64(bytes@, off as int),
{
    let n = bytes.len();
    (bytes[off] as u64) + 256 * ((bytes[off + 1] as u64) + 256 * ((bytes[off + 2] as u64) + 256
        * ((bytes[off + 3] as u64) + 256 * ((bytes[off + 4] as u64) + 256 * ((bytes[off + 5] as u64)
        + 256 * ((bytes[off + 6] as u64) + 256 * (bytes[off + 7] as u64)))))))
}

} // verus!

verus! {

impl TxEngine {
    /// Push a handler registration onto the stack of an effect name,
    /// creating the stack on first use.
    fn stack_register(&mut self, from: ProgramIdx, name: Vec<u8>, handler_addr: u32)
        requires
            old(self).wf(),
            from.0 < old(self).programs@.len(),
        ensures
            final(self).wf(),
            spec_has_registration(final(self).registered_effect_handler@, name@, from),
            final(self).programs@ == old(self).programs@,
            final(self).witnesses@ == old(self).witnesses@,
            final(self).utxos@ == old(self).utxos@,
            final(self).raised_effects@ == old(self).raised_effects@,
            final(self).running == old(self).running,
            final(self).temporary_utxo_ids == old(self).temporary_utxo_ids,
            final(self).temporary_token_ids == old(self).temporary_token_ids,
            final(self).coordination_code == old(self).coordination_code,
    {
        let ghost n = self.programs@.len() as int;
        match self.find_stack(&name) {
            Option::Some(i) => {
                let ghost before = self.registered_effect_handler@;
                let mut st = self.registered_effect_handler.remove(i);
                proof {
                    before.remove_ensures(i as int);
                }
                st.1.push((from, handler_addr));
                let ghost mid = self.registered_effect_handler@;
                let ghost stg = st;
                self.registered_effect_handler.insert(i, st);
                proof {
                    mid.insert_ensures(i as int, stg);
                    assert forall|a: int|
                        0 <= a < self.registered_effect_handler@.len() && a != i
                            implies #[trigger] self.registered_effect_handler@[a] == before[a] by {
                        if a < i {
                            assert(self.registered_effect_handler@[a] == mid[a]);
                            assert(mid[a] == before[a]);
                        } else {
                            assert(self.registered_effect_handler@[a] == mid[a - 1]);
                            assert(mid[a - 1] == before[a]);
                        }
                    }
                    assert(self.registered_effect_handler@[i as int] == stg);
                    let k = stg.1@.len() - 1;
                    assert(stg.1@[k].0 == from);
                    assert(spec_has_registration(self.registered_effect_handler@, name@, from));
                }
            },
            Option::None => {
                let mut entries: Vec<(ProgramIdx, u32)> = Vec::new();
                entries.push((from, handler_addr));
                self.registered_effect_handler.push((name, entries));
                proof {
                    let m = self.registered_effect_handler@.len() - 1;
                    assert(self.registered_effect_handler@[m].1@[0].0 == from);
                    assert forall|a: int, b: int|
                        0 <= a < b < self.registered_effect_handler@.len() implies (
                    #[trigger] self.registered_effect_handler@[a]).0@ != (
                    #[trigger] self.registered_effect_handler@[b]).0@ by {
                        if b < m {
                            assert(self.registered_effect_handler@[a] == old(
                                self,
                            ).registered_effect_handler@[a]);
                        } else {
                            assert(self.registered_effect_handler@[a] == old(
                                self,
                            ).registered_effect_handler@[a]);
                        }
                    }
                    assert(spec_has_registration(self.registered_effect_handler@, name@, from));
                }
            },
        }
    }

    /// Remove the calling program's topmost registration for an effect
    /// name, matching by identity in reverse-insertion order.  Reports
    /// whether a matching registration existed.
    fn stack_unregister(&mut self, from: ProgramIdx, name: &Vec<u8>) -> (r: bool)
        requires
            old(self).wf(),
        ensures
            final(self).wf(),
            r == spec_has_registration(old(self).registered_effect_handler@, name@, from),
            final(self).programs@ == old(self).programs@,
            final(self).witnesses@ == old(self).witnesses@,
            final(self).utxos@ == old(self).utxos@,
            final(self).raised_effects@ == old(self).raised_effects@,
            final(self).running == old(self).running,
            final(self).temporary_utxo_ids == old(self).temporary_utxo_ids,
            final(self).temporary_token_ids == old(self).temporary_token_ids,
            final(self).coordination_code == old(self).coordination_code,
    {
        let i = match self.find_stack(name) {
            Option::Some(i) => i,
            Option::None => {
                proof {
                    assert(!spec_has_registration(
                        self.registered_effect_handler@,
                        name@,
                        from,
                    )) by {
                        if spec_has_registration(self.registered_effect_handler@, name@, from) {
                            let (a, b): (int, int) = choose|a: int, b: int|
                                0 <= a < self.registered_effect_handler@.len() && (
                                #[trigger] self.registered_effect_handler@[a]).0@ == name@ && 0 <= b
                                    < self.registered_effect_handler@[a].1@.len() && (
                                #[trigger] self.registered_effect_handler@[a].1@[b]).0 == from;
                            assert(self.registered_effect_handler@[a].0@ != name@);
                        }
                    }
                }
                return false;
            },
        };
        let stack_len = self.registered_effect_handler[i].1.len();
        let mut k: usize = stack_len;
        while k > 0
            invariant
                self.wf(),
                i < self.registered_effect_handler@.len(),
                self.registered_effect_handler@[i as int].0@ == name@,
                k <= self.registered_effect_handler@[i as int].1@.len(),
                *self == *old(self),
                forall|j: int|
                    k <= j < self.registered_effect_handler@[i as int].1@.len() ==> (
                    #[trigger] self.registered_effect_handler@[i as int].1@[j]).0 != from,
            decreases k,
        {
            k = k - 1;
            if self.registered_effect_handler[i].1[k].0 == from {
                let ghost before = self.registered_effect_handler@;
                let ghost n = self.programs@.len() as int;
                let mut st = self.registered_effect_handler.remove(i);
                proof {
                    before.remove_ensures(i as int);
                }
                let ghost inner_before = st.1@;
                st.1.remove(k);
                proof {
                    inner_before.remove_ensures(k as int);
                }
                let ghost mid = self.registered_effect_handler@;
                let ghost stg = st;
                self.registered_effect_handler.insert(i, st);
                proof {
                    mid.insert_ensures(i as int, stg);
                    assert forall|a: int|
                        0 <= a < self.registered_effect_handler@.len() && a != i
                            implies #[trigger] self.registered_effect_handler@[a] == before[a] by {
                        if a < i {
                            assert(self.registered_effect_handler@[a] == mid[a]);
                            assert(mid[a] == before[a]);
                        } else {
                            assert(self.registered_effect_handler@[a] == mid[a - 1]);
                            assert(mid[a - 1] == before[a]);
                        }
                    }
                    assert(self.registered_effect_handler@[i as int] == stg);
                    assert(spec_has_registration(before, name@, from)) by {
                        assert(before[i as int].1@[k as int].0 == from);
                    }
                    assert(stg.0 == before[i as int].0);
                    assert forall|a: int, b: int|
                        0 <= a < self.registered_effect_handler@.len() && 0 <= b < (
                    #[trigger] self.registered_effect_handler@[a]).1@.len() implies (
                    #[trigger] self.registered_effect_handler@[a].1@[b]).0.0 < n by {
                        if a == i as int {
                            assert(self.registered_effect_handler@[a].1@ == stg.1@);
                            if b < k {
                                assert(stg.1@[b] == inner_before[b]);
                                assert(before[a].1@[b].0.0 < n);
                            } else {
                                assert(stg.1@[b] == inner_before[b + 1]);
                                assert(before[a].1@[b + 1].0.0 < n);
                            }
                        } else {
                            assert(self.registered_effect_handler@[a] == before[a]);
                        }
                    }
                    assert forall|a: int, b: int|
                        0 <= a < b < self.registered_effect_handler@.len() implies (
                    #[trigger] self.registered_effect_handler@[a]).0@ != (
                    #[trigger] self.registered_effect_handler@[b]).0@ by {
                        if a == i as int {
                            assert(self.registered_effect_handler@[b] == before[b]);
                            assert(before[a].0@ != before[b].0@);
                        } else if b == i as int {
                            assert(self.registered_effect_handler@[a] == before[a]);
                            assert(before[a].0@ != before[b].0@);
                        } else {
                            assert(self.registered_effect_handler@[a] == before[a]);
                            assert(self.registered_effect_handler@[b] == before[b]);
                        }
                    }
                }
                return true;
            }
        }
        proof {
            assert(!spec_has_registration(self.registered_effect_handler@, name@, from)) by {
                if spec_has_registration(self.registered_effect_handler@, name@, from) {
                    let (a, b): (int, int) = choose|a: int, b: int|
                        0 <= a < self.registered_effect_handler@.len() && (
                        #[trigger] self.registered_effect_handler@[a]).0@ == name@ && 0 <= b
                            < self.registered_effect_handler@[a].1@.len() && (
                        #[trigger] self.registered_effect_handler@[a].1@[b]).0 == from;
                    if a != i {
                        assert(self.registered_effect_handler@[a].0@ != self.registered_effect_handler@[i as int].0@);
                    }
                }
            }
        }
        false
    }
}

} // verus!

verus! {

impl TxEngine {
    /// Record a raised effect with its payload.
    fn raised_insert(&mut self, name: Vec<u8>, raiser: ProgramIdx, payload: Vec<u8>)
        requires
            old(self).wf(),
            raiser.0 < old(self).programs@.len(),
        ensures
            final(self).wf(),
            final(self).raised_effects@.len() == old(self).raised_effects@.len() + 1,
            final(self).raised_effects@.last().0@ == name@,
            final(self).raised_effects@.last().1 == raiser,
            final(self).raised_effects@.last().2@ == payload@,
            forall|j: int|
                0 <= j < old(self).raised_effects@.len()
                    ==> #[trigger] final(self).raised_effects@[j] == old(self).raised_effects@[j],
            final(self).programs@ == old(self).programs@,
            final(self).witnesses@ == old(self).witnesses@,
            final(self).utxos@ == old(self).utxos@,
            final(self).registered_effect_handler@ == old(self).registered_effect_handler@,
            final(self).running == old(self).running,
            final(self).temporary_utxo_ids == old(self).temporary_utxo_ids,
            final(self).temporary_token_ids == old(self).temporary_token_ids,
            final(self).coordination_code == old(self).coordination_code,
    {
        self.raised_effects.push((name, raiser, payload));
        proof {
            assert forall|i: int|
                0 <= i < self.raised_effects@.len() implies (
            #[trigger] self.raised_effects@[i]).1.0 < self.programs@.len() as int by {
                if i < self.raised_effects@.len() - 1 {
                    assert(self.raised_effects@[i] == old(self).raised_effects@[i]);
                }
            }
        }
    }

    /// Take a raised effect out: the matching resume consumes it.
    fn raised_remove(&mut self, i: usize) -> (r: (Vec<u8>, ProgramIdx, Vec<u8>))
        requires
            old(self).wf(),
            i < old(self).raised_effects@.len(),
        ensures
            final(self).wf(),
            r == old(self).raised_effects@[i as int],
            final(self).raised_effects@.len() == old(self).raised_effects@.len() - 1,
            final(self).programs@ == old(self).programs@,
            final(self).witnesses@ == old(self).witnesses@,
            final(self).utxos@ == old(self).utxos@,
            final(self).registered_effect_handler@ == old(self).registered_effect_handler@,
            final(self).running == old(self).running,
            final(self).temporary_utxo_ids == old(self).temporary_utxo_ids,
            final(self).temporary_token_ids == old(self).temporary_token_ids,
            final(self).coordination_code == old(self).coordination_code,
    {
        let ghost before = self.raised_effects@;
        let r = self.raised_effects.remove(i);
        proof {
            before.remove_ensures(i as int);
            assert forall|a: int|
                0 <= a < self.raised_effects@.len() implies (
            #[trigger] self.raised_effects@[a]).1.0 < self.programs@.len() as int by {
                if a < i {
                    assert(self.raised_effects@[a] == before[a]);
                } else {
                    assert(self.raised_effects@[a] == before[a + 1]);
                }
            }
        }
        r
    }

    /// Record a freshly bound token in a UTXO's token map.  A token
    /// identifier already present is rebound, as a map insertion would,
    /// so identifiers stay unique within a row.
    fn utxo_add_token(&mut self, k: usize, tid: TokenId, token: Token)
        requires
            old(self).wf(),
            k < old(self).utxos@.len(),
            token.bind_program.0 < old(self).programs@.len(),
        ensures
            final(self).wf(),
            final(self).utxos@.len() == old(self).utxos@.len(),
            exists|j: int|
                0 <= j < final(self).utxos@[k as int].1.tokens@.len()
                    && #[trigger] final(self).utxos@[k as int].1.tokens@[j] == (tid, token),
            final(self).utxos@[k as int].0 == old(self).utxos@[k as int].0,
            final(self).utxos@[k as int].1.program == old(self).utxos@[k as int].1.program,
            forall|a: int|
                0 <= a < old(self).utxos@.len() && a != k ==> #[trigger] final(self).utxos@[a]
                    == old(self).utxos@[a],
            final(self).programs@ == old(self).programs@,
            final(self).witnesses@ == old(self).witnesses@,
            final(self).registered_effect_handler@ == old(self).registered_effect_handler@,
            final(self).raised_effects@ == old(self).raised_effects@,
            final(self).running == old(self).running,
            final(self).temporary_utxo_ids == old(self).temporary_utxo_ids,
            final(self).temporary_token_ids == old(self).temporary_token_ids,
            final(self).coordination_code == old(self).coordination_code,
    {
        let ghost before = self.utxos@;
        let ghost n = self.programs@.len() as int;
        let mut row = self.utxos.remove(k);
        proof {
            before.remove_ensures(k as int);
        }
        let ghost inner_before = row.1.tokens@;
        let tokens_len = row.1.tokens.len();
        let mut j: usize = 0;
        let mut found: Option<usize> = None;
        while j < tokens_len
            invariant
                tokens_len == row.1.tokens@.len(),
                row.1.tokens@ == inner_before,
                j <= tokens_len,
                match found {
                    Option::Some(f) => f < tokens_len && inner_before[f as int].0 == tid,
                    Option::None => forall|a: int|
                        0 <= a < j ==> (#[trigger] inner_before[a]).0 != tid,
                },
            decreases tokens_len - j,
        {
            if row.1.tokens[j].0 == tid && found.is_none() {
                found = Some(j);
            }
            j = j + 1;
        }
        let ghost wrote: int;
        match found {
            Option::Some(f) => {
                row.1.tokens[f] = (tid, token);
                proof {
                    wrote = f as int;
                }
            },
            Option::None => {
                row.1.tokens.push((tid, token));
                proof {
                    wrote = row.1.tokens@.len() - 1;
                }
            },
        }
        proof {
            assert(row.1.tokens@[wrote] == (tid, token));
            assert(exists|a: int|
                0 <= a < row.1.tokens@.len() && #[trigger] row.1.tokens@[a] == (tid, token)) by {
                assert(row.1.tokens@[wrote] == (tid, token));
            }
            assert forall|a: int, b: int|
                0 <= a < b < row.1.tokens@.len() implies (#[trigger] row.1.tokens@[a]).0 != (
            #[trigger] row.1.tokens@[b]).0 by {
                if found is Some {
                    if a != wrote {
                        assert(row.1.tokens@[a] == inner_before[a]);
                        assert(inner_before[a] == before[k as int].1.tokens@[a]);
                    }
                    if b != wrote {
                        assert(row.1.tokens@[b] == inner_before[b]);
                    }
                    assert(before[k as int].1.tokens@[a].0 != before[k as int].1.tokens@[b].0);
                } else {
                    if b < row.1.tokens@.len() - 1 {
                        assert(row.1.tokens@[a] == inner_before[a]);
                        assert(row.1.tokens@[b] == inner_before[b]);
                        assert(before[k as int].1.tokens@[a].0 != before[k as int].1.tokens@[b].0);
                    } else {
                        assert(row.1.tokens@[a] == inner_before[a]);
                        assert(inner_before[a].0 != tid);
                    }
                }
            }
            assert forall|b: int|
                0 <= b < row.1.tokens@.len() implies (
            #[trigger] row.1.tokens@[b]).1.bind_program.0 < n by {
                if b != wrote {
                    assert(row.1.tokens@[b] == inner_before[b]);
                    assert(before[k as int].1.tokens@[b].1.bind_program.0 < n);
                }
            }
        }
        let ghost mid = self.utxos@;
        let ghost rowg = row;
        self.utxos.insert(k, row);
        proof {
            mid.insert_ensures(k as int, rowg);
            assert forall|a: int|
                0 <= a < self.utxos@.len() && a != k implies #[trigger] self.utxos@[a]
                == before[a] by {
                if a < k {
                    assert(self.utxos@[a] == mid[a]);
                    assert(mid[a] == before[a]);
                } else {
                    assert(self.utxos@[a] == mid[a - 1]);
                    assert(mid[a - 1] == before[a]);
                }
            }
            assert(self.utxos@[k as int] == rowg);
            assert forall|a: int|
                0 <= a < self.utxos@.len() implies (#[trigger] self.utxos@[a]).1.program.0
                < n by {
                if a != k as int {
                    assert(self.utxos@[a] == before[a]);
                } else {
                    assert(rowg.1.program == before[k as int].1.program);
                }
            }
            assert forall|a: int, b: int|
                0 <= a < self.utxos@.len() && 0 <= b < (
            #[trigger] self.utxos@[a]).1.tokens@.len() implies (
            #[trigger] self.utxos@[a].1.tokens@[b]).1.bind_program.0 < n by {
                if a != k as int {
                    assert(self.utxos@[a] == before[a]);
                } else {
                    assert(self.utxos@[a].1.tokens@ == rowg.1.tokens@);
                }
            }
            assert forall|i: int, a: int, b: int|
                0 <= i < self.utxos@.len() && 0 <= a < b < (
            #[trigger] self.utxos@[i]).1.tokens@.len() implies (
            #[trigger] self.utxos@[i].1.tokens@[a]).0 != (
            #[trigger] self.utxos@[i].1.tokens@[b]).0 by {
                if i != k as int {
                    assert(self.utxos@[i] == before[i]);
                } else {
                    assert(self.utxos@[i].1.tokens@ == rowg.1.tokens@);
                }
            }
        }
    }

    /// Remove a token from a UTXO's token map, handing back exactly the
    /// pair that was stored at bind time: the unbind call observes the
    /// bound `(id, amount)`.  A token the UTXO does not hold is a fault,
    /// so at most one unbind can match a bind.
    pub fn utxo_take_token(&mut self, k: usize, tid: TokenId) -> (r: Option<Token>)
        requires
            old(self).wf(),
            k < old(self).utxos@.len(),
        ensures
            final(self).wf(),
            final(self).utxos@.len() == old(self).utxos@.len(),
            final(self).programs@ == old(self).programs@,
            final(self).witnesses@ == old(self).witnesses@,
            final(self).registered_effect_handler@ == old(self).registered_effect_handler@,
            final(self).raised_effects@ == old(self).raised_effects@,
            final(self).running == old(self).running,
            final(self).temporary_utxo_ids == old(self).temporary_utxo_ids,
            final(self).temporary_token_ids == old(self).temporary_token_ids,
            final(self).coordination_code == old(self).coordination_code,
            match r {
                Option::Some(t) => {
                    &&& exists|j: int|
                        0 <= j < old(self).utxos@[k as int].1.tokens@.len() && old(
                            self,
                        ).utxos@[k as int].1.tokens@[j] == (tid, t)
                    &&& final(self).utxos@[k as int].1.tokens@.len() == old(
                        self,
                    ).utxos@[k as int].1.tokens@.len() - 1
                    &&& forall|j: int|
                        0 <= j < final(self).utxos@[k as int].1.tokens@.len() ==> (
                        #[trigger] final(self).utxos@[k as int].1.tokens@[j]).0 != tid
                    &&& t.bind_program.0 < old(self).programs@.len()
                },
                Option::None => final(self).utxos@ == old(self).utxos@,
            },
    {
        let tokens_len = self.utxos[k].1.tokens.len();
        let mut j: usize = 0;
        while j < tokens_len
            invariant
                self.wf(),
                *self == *old(self),
                k < self.utxos@.len(),
                tokens_len == self.utxos@[k as int].1.tokens@.len(),
                j <= tokens_len,
            decreases tokens_len - j,
        {
            if self.utxos[k].1.tokens[j].0 == tid {
                let ghost before = self.utxos@;
                let ghost n = self.programs@.len() as int;
                let mut row = self.utxos.remove(k);
                proof {
                    before.remove_ensures(k as int);
                }
                let ghost inner_before = row.1.tokens@;
                let entry = row.1.tokens.remove(j);
                proof {
                    inner_before.remove_ensures(j as int);
                }
                let ghost mid = self.utxos@;
                let ghost rowg = row;
                self.utxos.insert(k, row);
                proof {
                    mid.insert_ensures(k as int, rowg);
                    assert forall|a: int|
                        0 <= a < self.utxos@.len() && a != k implies #[trigger] self.utxos@[a]
                        == before[a] by {
                        if a < k {
                            assert(self.utxos@[a] == mid[a]);
                            assert(mid[a] == before[a]);
                        } else {
                            assert(self.utxos@[a] == mid[a - 1]);
                            assert(mid[a - 1] == before[a]);
                        }
                    }
                    assert(self.utxos@[k as int] == rowg);
                    assert(before[k as int].1.tokens@[j as int] == (tid, entry.1));
                    assert forall|a: int|
                        0 <= a < self.utxos@.len() implies (#[trigger] self.utxos@[a]).1.program.0
                        < n by {
                        if a != k as int {
                            assert(self.utxos@[a] == before[a]);
                        } else {
                            assert(rowg.1.program == before[k as int].1.program);
                        }
                    }
                    assert forall|a: int, b: int|
                        0 <= a < self.utxos@.len() && 0 <= b < (
                    #[trigger] self.utxos@[a]).1.tokens@.len() implies (
                    #[trigger] self.utxos@[a].1.tokens@[b]).1.bind_program.0 < n by {
                        if a != k as int {
                            assert(self.utxos@[a] == before[a]);
                        } else {
                            assert(self.utxos@[a].1.tokens@ == rowg.1.tokens@);
                            if b < j {
                                assert(rowg.1.tokens@[b] == inner_before[b]);
                                assert(before[a].1.tokens@[b].1.bind_program.0 < n);
                            } else {
                                assert(rowg.1.tokens@[b] == inner_before[b + 1]);
                                assert(before[a].1.tokens@[b + 1].1.bind_program.0 < n);
                            }
                        }
                    }
                    assert(entry.1.bind_program.0 < n) by {
                        assert(before[k as int].1.tokens@[j as int].1.bind_program.0 < n);
                    }
                    assert forall|b: int|
                        0 <= b < self.utxos@[k as int].1.tokens@.len() implies (
                    #[trigger] self.utxos@[k as int].1.tokens@[b]).0 != tid by {
                        assert(self.utxos@[k as int].1.tokens@ == rowg.1.tokens@);
                        if b < j {
                            assert(rowg.1.tokens@[b] == inner_before[b]);
                            assert(before[k as int].1.tokens@[b].0 != before[k as int].1.tokens@[j as int].0);
                        } else {
                            assert(rowg.1.tokens@[b] == inner_before[b + 1]);
                            assert(before[k as int].1.tokens@[j as int].0 != before[k as int].1.tokens@[b + 1].0);
                        }
                    }
                }
                return Some(entry.1);
            }
            j = j + 1;
        }
        None
    }
}

} // verus!

verus! {

/// Whether the first `bind` substring starts at `i`.
pub open spec fn spec_bind_at(s: Seq<u8>, i: int) -> bool {
    &&& 0 <= i
    &&& i + 4 <= s.len()
    &&& s[i] == 98u8
    &&& s[i + 1] == 105u8
    &&& s[i + 2] == 110u8
    &&& s[i + 3] == 100u8
}

/// Whether the first `bind` substring starts at `i` and none starts
/// earlier.
pub open spec fn spec_first_bind_at(s: Seq<u8>, i: int) -> bool {
    &&& spec_bind_at(s, i)
    &&& forall|j: int| 0 <= j < i ==> !spec_bind_at(s, j)
}

/// The unbind entry point paired with a bind entry point: the first
/// `bind` in the name substituted with `unbind`; a name without `bind`
/// unchanged.
pub open spec fn spec_unbind_name(s: Seq<u8>) -> Seq<u8> {
    if exists|i: int| spec_first_bind_at(s, i) {
        let i = choose|i: int| spec_first_bind_at(s, i);
        s.subrange(0, i) + seq![117u8, 110u8, 98u8, 105u8, 110u8, 100u8] + s.subrange(
            i + 4,
            s.len() as int,
        )
    } else {
        s
    }
}

/// Derive the unbind entry point paired with a bind entry point.
fn derive_unbind_entry(entry: &Vec<u8>) -> (r: Vec<u8>)
    ensures
        r@ == spec_unbind_name(entry@),
{
    let n = entry.len();
    if n < 4 {
        proof {
            assert forall|j: int| !spec_bind_at(entry@, j) by {}
            assert(!(exists|i: int| spec_first_bind_at(entry@, i)));
        }
        return copy_vec(entry);
    }
    let mut i: usize = 0;
    while i <= n - 4
        invariant
            n == entry@.len(),
            4 <= n,
            i <= n,
            forall|j: int| 0 <= j < i ==> !spec_bind_at(entry@, j),
        decreases n - i,
    {
        if entry[i] == 98 && entry[i + 1] == 105 && entry[i + 2] == 110 && entry[i + 3] == 100 {
            let mut r: Vec<u8> = Vec::new();
            let mut a: usize = 0;
            while a < i
                invariant
                    i < n,
                    n == entry@.len(),
                    a <= i,
                    r@ == entry@.subrange(0, a as int),
                decreases i - a,
            {
                r.push(entry[a]);
                proof {
                    assert(r@ =~= entry@.subrange(0, a as int + 1));
                }
                a = a + 1;
            }
            r.push(117);
            r.push(110);
            r.push(98);
            r.push(105);
            r.push(110);
            r.push(100);
            let mut a: usize = i + 4;
            while a < n
                invariant
                    i < n,
                    i + 4 <= n,
                    n == entry@.len(),
                    i + 4 <= a <= n,
                    r@ == entry@.subrange(0, i as int) + seq![
                        117u8,
                        110u8,
                        98u8,
                        105u8,
                        110u8,
                        100u8,
                    ] + entry@.subrange(i as int + 4, a as int),
                decreases n - a,
            {
                r.push(entry[a]);
                proof {
                    assert(r@ =~= entry@.subrange(0, i as int) + seq![
                        117u8,
                        110u8,
                        98u8,
                        105u8,
                        110u8,
                        100u8,
                    ] + entry@.subrange(i as int + 4, a as int + 1));
                }
                a = a + 1;
            }
            proof {
                assert(spec_first_bind_at(entry@, i as int));
                let c = choose|w: int| spec_first_bind_at(entry@, w);
                if c < i as int {
                    assert(!spec_bind_at(entry@, c));
                } else if c > i as int {
                    assert(!spec_bind_at(entry@, i as int));
                }
                assert(c == i as int);
                assert(r@ =~= entry@.subrange(0, i as int) + seq![
                    117u8,
                    110u8,
                    98u8,
                    105u8,
                    110u8,
                    100u8,
                ] + entry@.subrange(i as int + 4, entry@.len() as int));
            }
            return r;
        }
        i = i + 1;
    }
    proof {
        assert forall|j: int| !spec_bind_at(entry@, j) by {
            if spec_bind_at(entry@, j) {
                assert(0 <= j && j + 4 <= n);
            }
        }
        assert(!(exists|i: int| spec_first_bind_at(entry@, i)));
    }
    copy_vec(entry)
}

impl TxEngine {
    /// Whether no coordination-script handler registrations remain.
    fn coordination_clear_check(&self) -> (r: bool)
        ensures
            r == self.coordination_handlers_clear(),
    {
        let mut i: usize = 0;
        while i < self.registered_effect_handler.len()
            invariant
                i <= self.registered_effect_handler@.len(),
                forall|a: int, b: int|
                    0 <= a < i && 0 <= b < (#[trigger] self.registered_effect_handler@[a]).1@.len()
                        ==> (#[trigger] self.registered_effect_handler@[a].1@[b]).0.0 != 0,
            decreases self.registered_effect_handler@.len() - i,
        {
            let inner_len = self.registered_effect_handler[i].1.len();
            let mut j: usize = 0;
            while j < inner_len
                invariant
                    i < self.registered_effect_handler@.len(),
                    inner_len == self.registered_effect_handler@[i as int].1@.len(),
                    j <= inner_len,
                    forall|b: int|
                        0 <= b < j ==> (
                        #[trigger] self.registered_effect_handler@[i as int].1@[b]).0.0 != 0,
                decreases inner_len - j,
            {
                if self.registered_effect_handler[i].1[j].0.0 == 0 {
                    return false;
                }
                j = j + 1;
            }
            i = i + 1;
        }
        true
    }
}

} // verus!

verus! {

impl TxEngine {
    /// Dispatch the reported outcome of the running program: mutate the
    /// transaction state by the interrupt's rules and decide the next
    /// control transfer.  Every fatal condition aborts the transaction
    /// with a typed error.
    #[verifier::rlimit(100)]
    pub fn advance(&mut self, outcome: Outcome, fuel: u64) -> (r: Result<Action, TxError>)
        requires
            old(self).wf(),
        ensures
            final(self).wf(),
            old(self).running is None ==> r == Err::<Action, TxError>(TxError::NoProgramRunning),
            old(self).running matches Some(f) ==> (r is Ok ==> !(final(self).programs@[
                f.0 as int
            ].resumable is NotStarted)),
            outcome matches Outcome::Interrupted {
                interrupt: Interrupt::UtxoConsume { utxo_handle, method, inputs },
            } ==> (r is Ok ==> (r matches Ok(Action::CallMethod {
                program,
                instance_of,
                method: m,
                inputs: ins,
            }) && (crate::ids::spec_alias_lookup(old(self).temporary_utxo_ids.entries@, utxo_handle)
                matches Some(uid) && (spec_utxo_program(old(self).utxos@, uid) matches Some(p) && (
            old(self).programs@[p.0 as int].resumable matches ResumeState::Suspended(
                SuspendInfo::Yielded { data, .. },
            ) && {
                &&& program.0 == old(self).programs@.len()
                &&& instance_of == p
                &&& m@ == method@
                &&& ins@.len() == inputs@.len() + 1
                &&& ins@.drop_first() == inputs@
                &&& data < 0x8000_0000 ==> ins@[0] == Val::I32(data as i32)
                &&& final(self).programs@[p.0 as int].resumable is Finished
            }))))),
            old(self).running matches Some(f) ==> (outcome matches Outcome::Finished {
                values,
                ..
            } ==> (r is Ok ==> ((!old(self).programs@[f.0 as int].return_to.spec_is_root() && !old(
                self,
            ).programs@[f.0 as int].return_is_token) ==> (r matches Ok(Action::Resume {
                program,
                inputs,
                writes,
            }) && {
                &&& program == old(self).programs@[f.0 as int].return_to
                &&& inputs@ == values@
                &&& writes@.len() == 0
            })))),
            old(self).running matches Some(f) ==> (outcome matches Outcome::Finished {
                values,
                ..
            } ==> (r matches Ok(Action::Finish { value }) ==> value == (if values@.len() > 0 {
                values@[0]
            } else {
                Val::I32(0)
            }))),
            r matches Ok(Action::Finish { .. }) ==> final(self).coordination_handlers_clear(),
            (old(self).running is Some && (spec_outcome_utxo_handle(outcome) matches Some(h)
                && crate::ids::spec_alias_lookup(old(self).temporary_utxo_ids.entries@, h)
                is None)) ==> r == Err::<Action, TxError>(TxError::UnknownUtxoId),
            (old(self).running matches Some(f) && (outcome matches Outcome::Interrupted {
                interrupt: Interrupt::UnRegisterEffectHandler { name },
            } && !spec_has_registration(old(self).registered_effect_handler@, name@, f))) ==> r
                == Err::<Action, TxError>(TxError::UnregisterWithoutRegistration),
            (old(self).running is Some && outcome matches Outcome::Interrupted {
                interrupt: Interrupt::RegisterEffectHandler { .. },
            }) ==> r is Ok,
            (old(self).running is Some && (outcome matches Outcome::Interrupted {
                interrupt: Interrupt::UtxoConsume { utxo_handle, .. },
            } && (crate::ids::spec_alias_lookup(old(self).temporary_utxo_ids.entries@, utxo_handle)
                matches Some(uid) && (spec_utxo_program(old(self).utxos@, uid) matches Some(p)
                && !(old(self).programs@[p.0 as int].resumable matches ResumeState::Suspended(
                SuspendInfo::Yielded { .. })))))) ==> r == Err::<Action, TxError>(
                TxError::NotSuspendedInYield,
            ),
            (old(self).running is Some && (outcome matches Outcome::Interrupted {
                interrupt: Interrupt::Raise { name, .. },
            } && spec_has_handler(old(self).registered_effect_handler@, name@)
                && spec_effect_raised(old(self).raised_effects@, name@))) ==> r == Err::<
                Action,
                TxError,
            >(TxError::EffectAlreadyRaised),
            (old(self).running is Some && (outcome matches Outcome::Interrupted {
                interrupt: Interrupt::UtxoQuery { utxo_handle, .. },
            } && (crate::ids::spec_alias_lookup(old(self).temporary_utxo_ids.entries@, utxo_handle)
                matches Some(uid) && (spec_utxo_program(old(self).utxos@, uid) matches Some(p)
                && !(old(self).programs@[p.0 as int].resumable matches ResumeState::Suspended(
                SuspendInfo::Yielded { .. })))))) ==> r == Err::<Action, TxError>(
                TxError::NotSuspendedInYield,
            ),
            (old(self).running is Some && (outcome matches Outcome::Interrupted {
                interrupt: Interrupt::UtxoMutate { utxo_handle, .. },
            } && (crate::ids::spec_alias_lookup(old(self).temporary_utxo_ids.entries@, utxo_handle)
                matches Some(uid) && (spec_utxo_program(old(self).utxos@, uid) matches Some(p)
                && !(old(self).programs@[p.0 as int].resumable matches ResumeState::Suspended(
                SuspendInfo::Yielded { .. })))))) ==> r == Err::<Action, TxError>(
                TxError::NotSuspendedInYield,
            ),
            old(self).running matches Some(f) ==> (outcome matches Outcome::Interrupted {
                interrupt: Interrupt::UtxoResume { utxo_handle, resume_bytes, .. },
            } ==> (r is Ok ==> (r matches Ok(Action::Resume { program, inputs, writes }) && (
            crate::ids::spec_alias_lookup(old(self).temporary_utxo_ids.entries@, utxo_handle)
                matches Some(uid) && (spec_utxo_program(old(self).utxos@, uid) matches Some(p) && (
            old(self).programs@[p.0 as int].resumable matches ResumeState::Suspended(
                SuspendInfo::Yielded { resume_arg, resume_arg_len, .. },
            ) && {
                &&& program == p
                &&& inputs@.len() == 0
                &&& writes@.len() == 1
                &&& writes@[0].address == resume_arg
                &&& writes@[0].data@ == resume_bytes@
                &&& resume_bytes@.len() == resume_arg_len
                &&& final(self).programs@[p.0 as int].return_to == f
                &&& final(self).programs@[p.0 as int].yield_to == Some(f)
            })))))),
            outcome matches Outcome::Interrupted {
                interrupt: Interrupt::UtxoQuery { utxo_handle, method, inputs },
            } ==> (r is Ok ==> (r matches Ok(Action::CallMethod {
                program,
                instance_of,
                method: m,
                inputs: ins,
            }) && (crate::ids::spec_alias_lookup(old(self).temporary_utxo_ids.entries@, utxo_handle)
                matches Some(uid) && (spec_utxo_program(old(self).utxos@, uid) matches Some(p) && (
            old(self).programs@[p.0 as int].resumable matches ResumeState::Suspended(
                SuspendInfo::Yielded { data, .. },
            ) && {
                &&& program.0 == old(self).programs@.len()
                &&& instance_of == p
                &&& m@ == method@
                &&& ins@.len() == inputs@.len() + 1
                &&& ins@.drop_first() == inputs@
                &&& data < 0x8000_0000 ==> ins@[0] == Val::I32(data as i32)
                &&& final(self).programs@[p.0 as int].resumable == old(self).programs@[
                    p.0 as int
                ].resumable
            }))))),
            outcome matches Outcome::Interrupted {
                interrupt: Interrupt::UtxoMutate { utxo_handle, method, inputs },
            } ==> (r is Ok ==> (r matches Ok(Action::CallMethod {
                program,
                instance_of,
                method: m,
                inputs: ins,
            }) && (crate::ids::spec_alias_lookup(old(self).temporary_utxo_ids.entries@, utxo_handle)
                matches Some(uid) && (spec_utxo_program(old(self).utxos@, uid) matches Some(p) && (
            old(self).programs@[p.0 as int].resumable matches ResumeState::Suspended(
                SuspendInfo::Yielded { data, .. },
            ) && {
                &&& program.0 == old(self).programs@.len()
                &&& instance_of == p
                &&& m@ == method@
                &&& ins@.len() == inputs@.len() + 1
                &&& ins@.drop_first() == inputs@
                &&& data < 0x8000_0000 ==> ins@[0] == Val::I32(data as i32)
                &&& final(self).programs@[p.0 as int].resumable == old(self).programs@[
                    p.0 as int
                ].resumable
            }))))),
            old(self).running matches Some(f) ==> (outcome matches Outcome::Interrupted {
                interrupt: Interrupt::UtxoNew { code, entry_point, inputs },
            } ==> (r is Ok ==> (r matches Ok(Action::Start {
                program,
                dialect,
                code: c,
                entry_point: e,
                inputs: ins,
            }) && {
                &&& dialect == LinkerDialect::Utxo
                &&& program.0 == old(self).programs@.len()
                &&& c.bytes@ == code.bytes@
                &&& e@ == entry_point@
                &&& ins@ == inputs@
                &&& final(self).utxos@.len() == old(self).utxos@.len() + 1
                &&& final(self).utxos@.last().1.program == program
                &&& final(self).utxos@.last().1.tokens@.len() == 0
                &&& final(self).programs@[program.0 as int].yield_to == Some(f)
                &&& final(self).programs@[program.0 as int].utxo == Some(
                    final(self).utxos@.last().0,
                )
                &&& final(self).programs@[program.0 as int].yield_to_constructor is Some
                &&& final(self).programs@[program.0 as int].entry_point@ == entry_point@
            }))),
            old(self).running matches Some(f) ==> (outcome matches Outcome::Interrupted {
                interrupt: Interrupt::Raise { name, payload, .. },
            } ==> (r is Ok ==> (r matches Ok(Action::CallMethod {
                program,
                instance_of,
                method: m,
                inputs: ins,
            }) && {
                &&& m@ == name@ + seq![95u8, 104u8, 97u8, 110u8, 100u8, 108u8, 101u8]
                &&& ins@.len() == 1
                &&& program.0 == old(self).programs@.len()
                &&& final(self).registered_effect_handler@ == old(
                    self,
                ).registered_effect_handler@
                &&& final(self).raised_effects@.len() == old(self).raised_effects@.len() + 1
                &&& final(self).raised_effects@.last().0@ == name@
                &&& final(self).raised_effects@.last().1 == f
                &&& final(self).raised_effects@.last().2@ == payload@
                &&& exists|i: int|
                    {
                        &&& 0 <= i < old(self).registered_effect_handler@.len()
                        &&& (#[trigger] old(self).registered_effect_handler@[i]).0@ == name@
                        &&& old(self).registered_effect_handler@[i].1@.len() > 0
                        &&& old(self).registered_effect_handler@[i].1@.last().0 == instance_of
                    }
            }))),
            old(self).running matches Some(f) ==> (outcome matches Outcome::Interrupted {
                interrupt: Interrupt::GetRaisedEffectData { name, output_ptr_data, not_null },
            } ==> (r is Ok ==> (r matches Ok(Action::Resume { program, writes, .. }) && {
                &&& program == f
                &&& (spec_effect_raised(old(self).raised_effects@, name@) ==> exists|i: int|
                    {
                        &&& spec_raised_at(old(self).raised_effects@, name@, i)
                        &&& writes@.len() == 2
                        &&& (#[trigger] writes@[0]).address == not_null
                        &&& writes@[0].data@ == seq![1u8]
                        &&& writes@[1].address == output_ptr_data
                        &&& writes@[1].data@ == old(self).raised_effects@[i].2@
                    })
                &&& (!spec_effect_raised(old(self).raised_effects@, name@) ==> writes@.len() == 1
                    && writes@[0].address == not_null && writes@[0].data@ == seq![0u8])
            }))),
            old(self).running matches Some(f) ==> (outcome matches Outcome::Finished {
                token_return,
                ..
            } ==> ((r is Ok && old(self).programs@[f.0 as int].return_is_token && !old(
                self,
            ).programs@[f.0 as int].return_to.spec_is_root()) ==> (token_return matches Some(tr)
                && (tr@.len() == 16 && exists|k: int, j: int|
                {
                    &&& 0 <= k < final(self).utxos@.len()
                    &&& 0 <= j < (#[trigger] final(self).utxos@[k]).1.tokens@.len()
                    &&& (#[trigger] final(self).utxos@[k].1.tokens@[j]).1.bind_program == f
                    &&& final(self).utxos@[k].1.tokens@[j].1.id as int == spec_le_u64(tr@, 0)
                    &&& final(self).utxos@[k].1.tokens@[j].1.amount as int == spec_le_u64(tr@, 8)
                })))),
            outcome matches Outcome::Interrupted {
                interrupt: Interrupt::TokenUnbind { token_handle },
            } ==> (r is Ok ==> (r matches Ok(Action::Start {
                program,
                dialect,
                entry_point: e,
                inputs: ins,
                ..
            }) && (crate::ids::spec_alias_lookup(old(self).temporary_token_ids.entries@, token_handle)
                matches Some(tid) && exists|k: int, j: int|
                {
                    &&& 0 <= k < old(self).utxos@.len()
                    &&& 0 <= j < (#[trigger] old(self).utxos@[k]).1.tokens@.len()
                    &&& (#[trigger] old(self).utxos@[k].1.tokens@[j]).0 == tid
                    &&& dialect == LinkerDialect::Token
                    &&& program.0 == old(self).programs@.len()
                    &&& e@ == spec_unbind_name(
                        old(self).programs@[old(
                            self,
                        ).utxos@[k].1.tokens@[j].1.bind_program.0 as int].entry_point@,
                    )
                    &&& ins@.len() == 2
                    &&& (old(self).utxos@[k].1.tokens@[j].1.id < 0x8000_0000_0000_0000 ==> ins@[0]
                        == Val::I64(old(self).utxos@[k].1.tokens@[j].1.id as i64))
                    &&& (old(self).utxos@[k].1.tokens@[j].1.amount < 0x8000_0000_0000_0000
                        ==> ins@[1] == Val::I64(old(self).utxos@[k].1.tokens@[j].1.amount as i64))
                }))),
            r matches Ok(Action::Finish { .. }) ==> final(self).raised_effects@.len() == 0,
            (old(self).running is Some && (outcome matches Outcome::Interrupted {
                interrupt: Interrupt::TokenUnbind { .. },
            } && r is Ok)) ==> exists|k: int|
                {
                    &&& 0 <= k < old(self).utxos@.len()
                    &&& #[trigger] final(self).utxos@[k].1.tokens@.len() + 1 == old(
                        self,
                    ).utxos@[k].1.tokens@.len()
                },
    {
        let from = match self.running {
            Option::Some(p) => p,
            Option::None => {
                return Err(TxError::NoProgramRunning);
            },
        };
        match outcome {
            Outcome::Finished { values, token_return } => {
                let stored = copy_vec(&values);
                self.set_resumable(from.0, ResumeState::Finished(stored));
                let to = self.programs[from.0].return_to;
                if to.is_root() {
                    if !self.coordination_clear_check() {
                        return Err(TxError::HandlerImbalance);
                    }
                    if self.raised_effects.len() > 0 {
                        // A raised effect nobody answered: its raiser is
                        // orphaned.
                        return Err(TxError::ProtocolViolation);
                    }
                    let value = if values.len() > 0 {
                        values[0]
                    } else {
                        Val::I32(0)
                    };
                    self.push_witness(fuel, from, ProgramIdx::root(), values, Vec::new(), Vec::new());
                    self.running = None;
                    return Ok(Action::Finish { value });
                }
                if self.programs[from.0].return_is_token {
                    let tr = match token_return {
                        Option::Some(tr) => tr,
                        Option::None => {
                            return Err(TxError::MalformedTokenReturn);
                        },
                    };
                    if tr.len() != 16 {
                        return Err(TxError::MalformedTokenReturn);
                    }
                    let id = le_u64(&tr, 0);
                    let amount = le_u64(&tr, 8);
                    let parent_utxo = match self.programs[to.0].utxo {
                        Option::Some(u) => u,
                        Option::None => {
                            return Err(TxError::ProtocolViolation);
                        },
                    };
                    let k = match self.find_utxo(parent_utxo) {
                        Option::Some(k) => k,
                        Option::None => {
                            return Err(TxError::ProtocolViolation);
                        },
                    };
                    let token_id = TokenId::random();
                    self.utxo_add_token(
                        k,
                        token_id,
                        Token { bind_program: from, id, amount },
                    );
                    let alias = self.temporary_token_ids.encode(token_id);
                    let reply = Val::I64(#[verifier::truncate] (alias as i64));
                    let mut reply_vals: Vec<Val> = Vec::new();
                    reply_vals.push(reply);
                    let mut read_from: Vec<MemorySegment> = Vec::new();
                    read_from.push(MemorySegment { address: 16, data: tr });
                    return self.resume_to(fuel, from, to, reply_vals, read_from, Vec::new());
                }
                self.resume_to(fuel, from, to, values, Vec::new(), Vec::new())
            },
            Outcome::Interrupted { interrupt } => {
                match interrupt {
                    Interrupt::CoordinationCode { return_addr } => {
                        self.set_resumable(from.0, ResumeState::Suspended(SuspendInfo::Hosted));
                        let digest = self.coordination_code.raw();
                        let mut writes: Vec<MemorySegment> = Vec::new();
                        writes.push(MemorySegment { address: return_addr, data: digest });
                        self.resume_to(fuel, from, from, Vec::new(), Vec::new(), writes)
                    },
                    Interrupt::RegisterEffectHandler { name, handler_addr } => {
                        self.set_resumable(from.0, ResumeState::Suspended(SuspendInfo::Hosted));
                        self.stack_register(from, name, handler_addr);
                        let r = self.resume_to(
                            fuel,
                            from,
                            from,
                            Vec::new(),
                            Vec::new(),
                            Vec::new(),
                        );
                        proof {
                            assert(r is Ok);
                        }
                        r
                    },
                    Interrupt::UnRegisterEffectHandler { name } => {
                        self.set_resumable(from.0, ResumeState::Suspended(SuspendInfo::Hosted));
                        if !self.stack_unregister(from, &name) {
                            return Err(TxError::UnregisterWithoutRegistration);
                        }
                        self.resume_to(fuel, from, from, Vec::new(), Vec::new(), Vec::new())
                    },
                    Interrupt::GetRaisedEffectData { name, output_ptr_data, not_null } => {
                        self.set_resumable(from.0, ResumeState::Suspended(SuspendInfo::Hosted));
                        let mut writes: Vec<MemorySegment> = Vec::new();
                        match self.find_raised(&name) {
                            Option::Some(i) => {
                                let payload = copy_vec(&self.raised_effects[i].2);
                                let mut flag: Vec<u8> = Vec::new();
                                flag.push(1);
                                proof {
                                    assert(flag@ =~= seq![1u8]);
                                    assert(spec_raised_at(self.raised_effects@, name@, i as int));
                                }
                                writes.push(MemorySegment { address: not_null, data: flag });
                                writes.push(
                                    MemorySegment { address: output_ptr_data, data: payload },
                                );
                            },
                            Option::None => {
                                let mut flag: Vec<u8> = Vec::new();
                                flag.push(0);
                                proof {
                                    assert(flag@ =~= seq![0u8]);
                                    assert(!spec_effect_raised(self.raised_effects@, name@)) by {
                                        if spec_effect_raised(self.raised_effects@, name@) {
                                            let w = choose|j: int|
                                                0 <= j < self.raised_effects@.len() && (
                                                #[trigger] self.raised_effects@[j]).0@ == name@;
                                            assert(self.raised_effects@[w].0@ != name@);
                                        }
                                    }
                                }
                                writes.push(MemorySegment { address: not_null, data: flag });
                            },
                        }
                        self.resume_to(fuel, from, from, Vec::new(), Vec::new(), writes)
                    },
                    Interrupt::ResumeThrowingProgram { name, input_ptr_data: _, data } => {
                        self.set_resumable(from.0, ResumeState::Suspended(SuspendInfo::Hosted));
                        let i = match self.find_raised(&name) {
                            Option::Some(i) => i,
                            Option::None => {
                                return Err(TxError::MissingEffect);
                            },
                        };
                        let entry = self.raised_remove(i);
                        let raiser = entry.1;
                        let (resume_arg, resume_arg_len) = match &self.programs[raiser.0].resumable {
                            ResumeState::Suspended(SuspendInfo::Raised { resume_arg, resume_arg_len }) => (
                                *resume_arg,
                                *resume_arg_len,
                            ),
                            _ => {
                                return Err(TxError::ProtocolViolation);
                            },
                        };
                        if data.len() != resume_arg_len as usize {
                            return Err(TxError::WrongReplyLength);
                        }
                        let mut writes: Vec<MemorySegment> = Vec::new();
                        writes.push(MemorySegment { address: resume_arg, data });
                        self.resume_to(fuel, from, raiser, Vec::new(), Vec::new(), writes)
                    },
                    Interrupt::UtxoNew { code, entry_point, inputs } => {
                        self.set_resumable(from.0, ResumeState::Suspended(SuspendInfo::Hosted));
                        let id = UtxoId::random();
                        let alias = self.temporary_utxo_ids.encode(id);
                        let constructor = Val::I64(#[verifier::truncate] (alias as i64));
                        let (new_idx, action) = self.start_program(
                            fuel,
                            from,
                            LinkerDialect::Utxo,
                            code,
                            entry_point,
                            inputs,
                            false,
                            Some(from),
                            Some(constructor),
                            Some(id),
                        );
                        self.utxos.push((id, Utxo { program: new_idx, tokens: Vec::new() }));
                        proof {
                            let n = self.programs@.len() as int;
                            assert forall|a: int|
                                0 <= a < self.utxos@.len() implies (
                            #[trigger] self.utxos@[a]).1.program.0 < n by {
                                if a < self.utxos@.len() - 1 {
                                }
                            }
                            assert forall|a: int, b: int|
                                0 <= a < self.utxos@.len() && 0 <= b < (
                            #[trigger] self.utxos@[a]).1.tokens@.len() implies (
                            #[trigger] self.utxos@[a].1.tokens@[b]).1.bind_program.0 < n by {
                                if a < self.utxos@.len() - 1 {
                                }
                            }
                        }
                        Ok(action)
                    },
                    Interrupt::UtxoResume { utxo_handle, inputs: _, resume_bytes } => {
                        self.set_resumable(from.0, ResumeState::Suspended(SuspendInfo::Hosted));
                        let id = match self.temporary_utxo_ids.decode(utxo_handle) {
                            Option::Some(id) => id,
                            Option::None => {
                                return Err(TxError::UnknownUtxoId);
                            },
                        };
                        let k = match self.find_utxo(id) {
                            Option::Some(k) => k,
                            Option::None => {
                                return Err(TxError::UnknownUtxoId);
                            },
                        };
                        let to = self.utxos[k].1.program;
                        proof {
                            assert(spec_first_utxo_at(self.utxos@, id, k as int));
                            let c = choose|i: int| spec_first_utxo_at(self.utxos@, id, i);
                            if c < k as int {
                                assert(self.utxos@[c].0 == id);
                            } else if c > k as int {
                                assert(self.utxos@[k as int].0 != id);
                            }
                            assert(spec_utxo_program(self.utxos@, id) == Some(to));
                        }
                        let (resume_arg, resume_arg_len) = match &self.programs[to.0].resumable {
                            ResumeState::Suspended(SuspendInfo::Yielded { resume_arg, resume_arg_len, .. }) => (
                                *resume_arg,
                                *resume_arg_len,
                            ),
                            _ => {
                                return Err(TxError::NotSuspendedInYield);
                            },
                        };
                        if resume_bytes.len() != resume_arg_len as usize {
                            return Err(TxError::WrongReplyLength);
                        }
                        self.set_return_links(to.0, from);
                        let mut writes: Vec<MemorySegment> = Vec::new();
                        writes.push(MemorySegment { address: resume_arg, data: resume_bytes });
                        self.resume_to(fuel, from, to, Vec::new(), Vec::new(), writes)
                    },
                    Interrupt::UtxoQuery { utxo_handle, method, inputs } => {
                        self.set_resumable(from.0, ResumeState::Suspended(SuspendInfo::Hosted));
                        let id = match self.temporary_utxo_ids.decode(utxo_handle) {
                            Option::Some(id) => id,
                            Option::None => {
                                return Err(TxError::UnknownUtxoId);
                            },
                        };
                        let k = match self.find_utxo(id) {
                            Option::Some(k) => k,
                            Option::None => {
                                return Err(TxError::UnknownUtxoId);
                            },
                        };
                        let to = self.utxos[k].1.program;
                        proof {
                            assert(spec_first_utxo_at(self.utxos@, id, k as int));
                            let c = choose|i: int| spec_first_utxo_at(self.utxos@, id, i);
                            if c < k as int {
                                assert(self.utxos@[c].0 == id);
                            } else if c > k as int {
                                assert(self.utxos@[k as int].0 != id);
                            }
                            assert(spec_utxo_program(self.utxos@, id) == Some(to));
                        }
                        let data = match &self.programs[to.0].resumable {
                            ResumeState::Suspended(SuspendInfo::Yielded { data, .. }) => *data,
                            _ => {
                                return Err(TxError::NotSuspendedInYield);
                            },
                        };
                        let full_inputs = prepend_val(Val::I32(data as i32), &inputs);
                        let (_new_idx, action) = self.call_method(fuel, from, to, method, full_inputs);
                        Ok(action)
                    },
                    Interrupt::UtxoMutate { utxo_handle, method, inputs } => {
                        self.set_resumable(from.0, ResumeState::Suspended(SuspendInfo::Hosted));
                        let id = match self.temporary_utxo_ids.decode(utxo_handle) {
                            Option::Some(id) => id,
                            Option::None => {
                                return Err(TxError::UnknownUtxoId);
                            },
                        };
                        let k = match self.find_utxo(id) {
                            Option::Some(k) => k,
                            Option::None => {
                                return Err(TxError::UnknownUtxoId);
                            },
                        };
                        let to = self.utxos[k].1.program;
                        proof {
                            assert(spec_first_utxo_at(self.utxos@, id, k as int));
                            let c = choose|i: int| spec_first_utxo_at(self.utxos@, id, i);
                            if c < k as int {
                                assert(self.utxos@[c].0 == id);
                            } else if c > k as int {
                                assert(self.utxos@[k as int].0 != id);
                            }
                            assert(spec_utxo_program(self.utxos@, id) == Some(to));
                        }
                        let data = match &self.programs[to.0].resumable {
                            ResumeState::Suspended(SuspendInfo::Yielded { data, .. }) => *data,
                            _ => {
                                return Err(TxError::NotSuspendedInYield);
                            },
                        };
                        let full_inputs = prepend_val(Val::I32(data as i32), &inputs);
                        let (_new_idx, action) = self.call_method(fuel, from, to, method, full_inputs);
                        Ok(action)
                    },
                    Interrupt::UtxoConsume { utxo_handle, method, inputs } => {
                        self.set_resumable(from.0, ResumeState::Suspended(SuspendInfo::Hosted));
                        let id = match self.temporary_utxo_ids.decode(utxo_handle) {
                            Option::Some(id) => id,
                            Option::None => {
                                return Err(TxError::UnknownUtxoId);
                            },
                        };
                        let k = match self.find_utxo(id) {
                            Option::Some(k) => k,
                            Option::None => {
                                return Err(TxError::UnknownUtxoId);
                            },
                        };
                        let to = self.utxos[k].1.program;
                        proof {
                            assert(spec_first_utxo_at(self.utxos@, id, k as int));
                            let c = choose|i: int| spec_first_utxo_at(self.utxos@, id, i);
                            if c < k as int {
                                assert(self.utxos@[c].0 == id);
                            } else if c > k as int {
                                assert(self.utxos@[k as int].0 != id);
                            }
                            assert(c == k as int);
                            assert(spec_utxo_program(self.utxos@, id) == Some(to));
                        }
                        let data = match &self.programs[to.0].resumable {
                            ResumeState::Suspended(SuspendInfo::Yielded { data, .. }) => *data,
                            _ => {
                                return Err(TxError::NotSuspendedInYield);
                            },
                        };
                        self.set_resumable(to.0, ResumeState::Finished(Vec::new()));
                        let full_inputs = prepend_val(Val::I32(data as i32), &inputs);
                        let (_new_idx, action) = self.call_method(fuel, from, to, method, full_inputs);
                        Ok(action)
                    },
                    Interrupt::Yield { name: _, data, resume_arg, resume_arg_len } => {
                        self.set_resumable(
                            from.0,
                            ResumeState::Suspended(
                                SuspendInfo::Yielded { data, resume_arg, resume_arg_len },
                            ),
                        );
                        let constructor = self.take_constructor(from.0);
                        let to = match self.programs[from.0].yield_to {
                            Option::Some(t) => t,
                            Option::None => {
                                return Err(TxError::ProtocolViolation);
                            },
                        };
                        if to.is_root() {
                            return Err(TxError::ProtocolViolation);
                        }
                        let mut inputs: Vec<Val> = Vec::new();
                        match constructor {
                            Option::Some(v) => {
                                inputs.push(v);
                            },
                            Option::None => {
                            },
                        }
                        self.resume_to(fuel, from, to, inputs, Vec::new(), Vec::new())
                    },
                    Interrupt::Raise {
                        name,
                        data: _,
                        data_len: _,
                        resume_arg,
                        resume_arg_len,
                        payload,
                    } => {
                        self.set_resumable(
                            from.0,
                            ResumeState::Suspended(
                                SuspendInfo::Raised { resume_arg, resume_arg_len },
                            ),
                        );
                        let i = match self.find_stack(&name) {
                            Option::Some(i) => i,
                            Option::None => {
                                proof {
                                    assert(!spec_has_handler(
                                        self.registered_effect_handler@,
                                        name@,
                                    )) by {
                                        if spec_has_handler(
                                            self.registered_effect_handler@,
                                            name@,
                                        ) {
                                            let a = choose|a: int|
                                                0 <= a < self.registered_effect_handler@.len() && (
                                                #[trigger] self.registered_effect_handler@[a]).0@
                                                    == name@
                                                    && self.registered_effect_handler@[a].1@.len()
                                                    > 0;
                                            assert(self.registered_effect_handler@[a].0@ != name@);
                                        }
                                    }
                                }
                                return Err(TxError::NoHandlerRegistered);
                            },
                        };
                        let stack_len = self.registered_effect_handler[i].1.len();
                        if stack_len == 0 {
                            proof {
                                assert(!spec_has_handler(
                                    self.registered_effect_handler@,
                                    name@,
                                )) by {
                                    if spec_has_handler(self.registered_effect_handler@, name@) {
                                        let a = choose|a: int|
                                            0 <= a < self.registered_effect_handler@.len() && (
                                            #[trigger] self.registered_effect_handler@[a]).0@
                                                == name@
                                                && self.registered_effect_handler@[a].1@.len() > 0;
                                        if a != i as int {
                                            assert(self.registered_effect_handler@[a].0@
                                                != self.registered_effect_handler@[i as int].0@);
                                        }
                                    }
                                }
                            }
                            return Err(TxError::NoHandlerRegistered);
                        }
                        let (owner, handler_addr) = self.registered_effect_handler[i].1[stack_len
                            - 1];
                        match self.find_raised(&name) {
                            Option::Some(_) => {
                                return Err(TxError::EffectAlreadyRaised);
                            },
                            Option::None => {
                            },
                        }
                        let mut method = copy_vec(&name);
                        method.push(95);
                        method.push(104);
                        method.push(97);
                        method.push(110);
                        method.push(100);
                        method.push(108);
                        method.push(101);
                        self.raised_insert(name, from, payload);
                        let (_new_idx, action) = self.call_method(
                            fuel,
                            from,
                            owner,
                            method,
                            prepend_val(Val::I32(handler_addr as i32), &Vec::new()),
                        );
                        Ok(action)
                    },
                    Interrupt::TokenBind { code, entry_point, inputs } => {
                        self.set_resumable(from.0, ResumeState::Suspended(SuspendInfo::Hosted));
                        let full_inputs = prepend_val(Val::I32(16), &inputs);
                        let (_new_idx, action) = self.start_program(
                            fuel,
                            from,
                            LinkerDialect::Token,
                            code,
                            entry_point,
                            full_inputs,
                            true,
                            None,
                            None,
                            None,
                        );
                        Ok(action)
                    },
                    Interrupt::TokenUnbind { token_handle } => {
                        self.set_resumable(from.0, ResumeState::Suspended(SuspendInfo::Hosted));
                        let token_id = match self.temporary_token_ids.decode(token_handle) {
                            Option::Some(t) => t,
                            Option::None => {
                                return Err(TxError::UnknownTokenId);
                            },
                        };
                        let utxo_id = match self.programs[from.0].utxo {
                            Option::Some(u) => u,
                            Option::None => {
                                return Err(TxError::ProtocolViolation);
                            },
                        };
                        let k = match self.find_utxo(utxo_id) {
                            Option::Some(k) => k,
                            Option::None => {
                                return Err(TxError::ProtocolViolation);
                            },
                        };
                        let token = match self.utxo_take_token(k, token_id) {
                            Option::Some(t) => t,
                            Option::None => {
                                return Err(TxError::UnknownTokenId);
                            },
                        };
                        proof {
                            assert(self.utxos@[k as int].1.tokens@.len() + 1 == old(
                                self,
                            ).utxos@[k as int].1.tokens@.len());
                        }
                        let code = self.programs[token.bind_program.0].code.clone();
                        let entry = derive_unbind_entry(
                            &self.programs[token.bind_program.0].entry_point,
                        );
                        let mut inputs: Vec<Val> = Vec::new();
                        inputs.push(Val::I64(#[verifier::truncate] (token.id as i64)));
                        inputs.push(Val::I64(#[verifier::truncate] (token.amount as i64)));
                        let (_new_idx, action) = self.start_program(
                            fuel,
                            from,
                            LinkerDialect::Token,
                            code,
                            entry,
                            inputs,
                            false,
                            None,
                            None,
                            None,
                        );
                        Ok(action)
                    },
                }
            },
        }
    }
}

} // verus!

verus! {

/// Witness provenance: every program is entered before it emits.  Any
/// witness not emitted by the external caller has a strictly earlier
/// witness that transferred control to its emitter.
pub proof fn lemma_witness_provenance(e: TxEngine, i: int)
    requires
        e.wf(),
        0 <= i < e.witnesses@.len(),
        !e.witnesses@[i].from_program.spec_is_root(),
    ensures
        exists|j: int|
            0 <= j < i && (#[trigger] e.witnesses@[j]).to_program == e.witnesses@[i].from_program,
{
}

impl TxEngine {
    /// The suspension data of the yielded UTXO a handle names: where its
    /// yielded object lives, where a resume reply goes, and the reply
    /// length.  Nothing when the handle does not name a UTXO suspended
    /// in a yield.
    pub open spec fn spec_yield_suspension(self, utxo_handle: u64) -> Option<(u32, u32, u32)> {
        match crate::ids::spec_alias_lookup(self.temporary_utxo_ids.entries@, utxo_handle) {
            Option::Some(uid) => match spec_utxo_program(self.utxos@, uid) {
                Option::Some(p) => if 0 <= p.0 < self.programs@.len() {
                    match self.programs@[p.0 as int].resumable {
                        ResumeState::Suspended(
                            SuspendInfo::Yielded { data, resume_arg, resume_arg_len },
                        ) => Some((data, resume_arg, resume_arg_len)),
                        _ => None,
                    }
                } else {
                    None
                },
                Option::None => None,
            },
            Option::None => None,
        }
    }

    /// The reply length the yielded UTXO behind a handle expects, for
    /// the embedding layer to read the resumer's memory.  `None` exactly
    /// when the handle does not name a UTXO suspended in a yield.
    pub fn yield_resume_len(&self, utxo_handle: u64) -> (r: Option<u32>)
        requires
            self.wf(),
        ensures
            r == match self.spec_yield_suspension(utxo_handle) {
                Option::Some(t) => Some(t.2),
                Option::None => None::<u32>,
            },
    {
        let id = match self.temporary_utxo_ids.decode(utxo_handle) {
            Option::Some(id) => id,
            Option::None => {
                return None;
            },
        };
        let k = match self.find_utxo(id) {
            Option::Some(k) => k,
            Option::None => {
                proof {
                    assert(!(exists|i: int| spec_first_utxo_at(self.utxos@, id, i))) by {
                        if exists|i: int| spec_first_utxo_at(self.utxos@, id, i) {
                            let i = choose|i: int| spec_first_utxo_at(self.utxos@, id, i);
                            assert(self.utxos@[i].0 != id);
                        }
                    }
                }
                return None;
            },
        };
        let to = self.utxos[k].1.program;
        proof {
            assert(spec_first_utxo_at(self.utxos@, id, k as int));
            let c = choose|i: int| spec_first_utxo_at(self.utxos@, id, i);
            if c < k as int {
                assert(self.utxos@[c].0 == id);
            } else if c > k as int {
                assert(self.utxos@[k as int].0 != id);
            }
            assert(spec_utxo_program(self.utxos@, id) == Some(to));
        }
        match &self.programs[to.0].resumable {
            ResumeState::Suspended(SuspendInfo::Yielded { resume_arg_len, .. }) => Some(
                *resume_arg_len,
            ),
            _ => None,
        }
    }

    /// The suspension data of the program that raised an effect name:
    /// where its reply goes and the reply length.  Nothing when no raise
    /// of the name is pending, or its raiser is not suspended in a
    /// raise.
    pub open spec fn spec_raise_suspension(self, name: Seq<u8>) -> Option<(u32, u32)> {
        if exists|i: int| spec_raised_at(self.raised_effects@, name, i) {
            let i = choose|i: int| spec_raised_at(self.raised_effects@, name, i);
            let raiser = self.raised_effects@[i].1;
            if 0 <= raiser.0 < self.programs@.len() {
                match self.programs@[raiser.0 as int].resumable {
                    ResumeState::Suspended(SuspendInfo::Raised { resume_arg, resume_arg_len }) => Some(
                        (resume_arg, resume_arg_len),
                    ),
                    _ => None,
                }
            } else {
                None
            }
        } else {
            None
        }
    }

    /// The reply length the raiser of an effect expects, for the
    /// embedding layer to read the handler's memory.  `None` exactly
    /// when no raiser of the name is suspended in a raise.
    pub fn raise_reply_len(&self, name: &Vec<u8>) -> (r: Option<u32>)
        requires
            self.wf(),
        ensures
            r == match self.spec_raise_suspension(name@) {
                Option::Some(t) => Some(t.1),
                Option::None => None::<u32>,
            },
    {
        let i = match self.find_raised(name) {
            Option::Some(i) => i,
            Option::None => {
                proof {
                    assert(!(exists|j: int| spec_raised_at(self.raised_effects@, name@, j))) by {
                        if exists|j: int| spec_raised_at(self.raised_effects@, name@, j) {
                            let j = choose|j: int| spec_raised_at(self.raised_effects@, name@, j);
                            assert(self.raised_effects@[j].0@ != name@);
                        }
                    }
                }
                return None;
            },
        };
        proof {
            assert(spec_raised_at(self.raised_effects@, name@, i as int));
            let c = choose|j: int| spec_raised_at(self.raised_effects@, name@, j);
            if c < i as int {
                assert(self.raised_effects@[c].0@ != name@);
            } else if c > i as int {
                assert(self.raised_effects@[i as int].0@ != name@);
            }
        }
        let raiser = self.raised_effects[i].1;
        match &self.programs[raiser.0].resumable {
            ResumeState::Suspended(SuspendInfo::Raised { resume_arg_len, .. }) => Some(
                *resume_arg_len,
            ),
            _ => None,
        }
    }

    /// Whether the running program's final return carries a token
    /// struct-return region the embedding layer must read.
    pub fn returning_token(&self) -> (r: bool)
        requires
            self.wf(),
        ensures
            r == match self.running {
                Option::Some(p) => self.programs@[p.0 as int].return_is_token,
                Option::None => false,
            },
    {
        match self.running {
            Option::Some(p) => self.programs[p.0].return_is_token,
            Option::None => false,
        }
    }

    /// Whether a ledger row's program is suspended: the row is live.
    pub open spec fn spec_row_live(self, row: (UtxoId, Utxo)) -> bool {
        0 <= row.1.program.0 < self.programs@.len() && self.programs@[row.1.program.0 as int].resumable
            is Suspended
    }

    /// How many of the first `n` ledger rows are live.
    pub open spec fn spec_live_count(self, n: int) -> int
        decreases n,
    {
        if n <= 0 {
            0
        } else {
            self.spec_live_count(n - 1) + if self.spec_row_live(self.utxos@[n - 1]) {
                1int
            } else {
                0int
            }
        }
    }

    /// The live UTXOs: one row per suspended UTXO, in ledger order, each
    /// under a freshly drawn scrambled handle together with its
    /// entry-point name.  A later draw may rebind an earlier handle, as
    /// a map insertion would, so each handle is only promised to remain
    /// issued.
    pub fn utxos(&mut self) -> (r: Vec<(u64, Vec<u8>)>)
        requires
            old(self).wf(),
        ensures
            final(self).wf(),
            final(self).programs@ == old(self).programs@,
            final(self).utxos@ == old(self).utxos@,
            final(self).witnesses@ == old(self).witnesses@,
            r@.len() == old(self).spec_live_count(old(self).utxos@.len() as int),
            forall|x: int|
                0 <= x < r@.len() ==> exists|k: int|
                    {
                        &&& 0 <= k < old(self).utxos@.len()
                        &&& old(self).spec_row_live(#[trigger] old(self).utxos@[k])
                        &&& (#[trigger] r@[x]).1@ == old(self).programs@[old(
                            self,
                        ).utxos@[k].1.program.0 as int].entry_point@
                        &&& crate::ids::spec_alias_lookup(
                            final(self).temporary_utxo_ids.entries@,
                            r@[x].0,
                        ) is Some
                    },
    {
        let mut r: Vec<(u64, Vec<u8>)> = Vec::new();
        let ghost picked: Seq<int> = Seq::empty();
        let mut picked = Ghost(picked);
        let n = self.utxos.len();
        let mut k: usize = 0;
        while k < n
            invariant
                self.wf(),
                self.programs@ == old(self).programs@,
                self.utxos@ == old(self).utxos@,
                self.witnesses@ == old(self).witnesses@,
                n == self.utxos@.len(),
                k <= n,
                r@.len() == old(self).spec_live_count(k as int),
                picked@.len() == r@.len(),
                forall|x: int|
                    0 <= x < r@.len() ==> {
                        &&& 0 <= #[trigger] picked@[x] < k
                        &&& old(self).spec_row_live(old(self).utxos@[picked@[x]])
                        &&& r@[x].1@ == old(self).programs@[old(
                            self,
                        ).utxos@[picked@[x]].1.program.0 as int].entry_point@
                        &&& crate::ids::spec_alias_lookup(
                            self.temporary_utxo_ids.entries@,
                            r@[x].0,
                        ) is Some
                    },
            decreases n - k,
        {
            let (id, program) = (self.utxos[k].0, self.utxos[k].1.program);
            let suspended = match &self.programs[program.0].resumable {
                ResumeState::Suspended(_) => true,
                _ => false,
            };
            if suspended {
                let alias = self.temporary_utxo_ids.encode(id);
                let entry = copy_vec(&self.programs[program.0].entry_point);
                r.push((alias, entry));
                proof {
                    picked@ = picked@.push(k as int);
                    let x = r@.len() - 1;
                    assert(picked@[x] == k as int);
                    assert(r@[x].1@ == old(self).programs@[old(
                        self,
                    ).utxos@[k as int].1.program.0 as int].entry_point@);
                }
            }
            proof {
                assert(old(self).spec_live_count(k as int + 1) == old(self).spec_live_count(
                    k as int,
                ) + if old(self).spec_row_live(old(self).utxos@[k as int]) {
                    1int
                } else {
                    0int
                });
                assert(old(self).spec_row_live(old(self).utxos@[k as int]) == suspended);
            }
            k = k + 1;
        }
        proof {
            assert forall|x: int|
                0 <= x < r@.len() implies exists|k: int|
                {
                    &&& 0 <= k < old(self).utxos@.len()
                    &&& old(self).spec_row_live(#[trigger] old(self).utxos@[k])
                    &&& (#[trigger] r@[x]).1@ == old(self).programs@[old(
                        self,
                    ).utxos@[k].1.program.0 as int].entry_point@
                    &&& crate::ids::spec_alias_lookup(
                        final(self).temporary_utxo_ids.entries@,
                        r@[x].0,
                    ) is Some
                } by {
                let kw = picked@[x];
                assert(0 <= kw < old(self).utxos@.len());
                assert(old(self).spec_row_live(old(self).utxos@[kw]));
                assert(r@[x].1@ == old(self).programs@[old(
                    self,
                ).utxos@[kw].1.program.0 as int].entry_point@);
                assert(crate::ids::spec_alias_lookup(
                    self.temporary_utxo_ids.entries@,
                    r@[x].0,
                ) is Some);
            }
        }
        r
    }
}

} // verus!

verus! {

impl TxEngine {
    /// The first witness at or after `cursor` that enters the program.
    /// During per-program trace replay, its values are what the
    /// program's next import call receives as a reply; `None` means the
    /// replayed trace ends there.
    pub fn witness_reply_scan(&self, program: ProgramIdx, cursor: usize) -> (r: Option<usize>)
        ensures
            match r {
                Option::Some(j) => {
                    &&& cursor <= j < self.witnesses@.len()
                    &&& self.witnesses@[j as int].to_program == program
                    &&& forall|k: int|
                        cursor <= k < j ==> (#[trigger] self.witnesses@[k]).to_program != program
                },
                Option::None => forall|k: int|
                    cursor <= k < self.witnesses@.len() ==> (
                    #[trigger] self.witnesses@[k]).to_program != program,
            },
    {
        if cursor >= self.witnesses.len() {
            return None;
        }
        let mut j: usize = cursor;
        while j < self.witnesses.len()
            invariant
                cursor <= j,
                j <= self.witnesses@.len(),
                forall|k: int|
                    cursor <= k < j ==> (#[trigger] self.witnesses@[k]).to_program != program,
            decreases self.witnesses@.len() - j,
        {
            if self.witnesses[j].to_program == program {
                return Some(j);
            }
            j = j + 1;
        }
        None
    }

    /// The witness that first entered the program: its values are the
    /// arguments its entry function was called with.
    pub fn first_entry_witness(&self, program: ProgramIdx) -> (r: Option<usize>)
        ensures
            match r {
                Option::Some(j) => {
                    &&& j < self.witnesses@.len()
                    &&& self.witnesses@[j as int].to_program == program
                    &&& forall|k: int|
                        0 <= k < j ==> (#[trigger] self.witnesses@[k]).to_program != program
                },
                Option::None => !program_entered(self.witnesses@, program),
            },
    {
        let r = self.witness_reply_scan(program, 0);
        proof {
            if r is None {
                if program_entered(self.witnesses@, program) {
                    let k = choose|k: int|
                        0 <= k < self.witnesses@.len() && (#[trigger] self.witnesses@[k]).to_program
                            == program;
                    assert(self.witnesses@[k].to_program != program);
                }
            }
        }
        r
    }
}

} // verus!
