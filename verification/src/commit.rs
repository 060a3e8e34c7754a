//! Incremental per-program trace commitments.
//!
//! Each program's ledger operations are folded one by one into a
//! four-element digest: the operation's `(tag, id, input, output)` block
//! is compressed to four elements, then absorbed into the running state
//! with the same sponge-style compression.  Auxiliary operations
//! (padding and finalization checks) do not contribute.
//!
//! The block commitment compresses the four-element block directly with
//! the in-crate Poseidon2 permutation.  A lattice commitment of the
//! block's balanced base-2 decomposition would stand before the
//! compression, but its library cannot be obtained here and its public
//! parameters are drawn from a process-local generator, so no
//! deterministic specification could stand for it; the fold structure
//! and its determinism are unaffected.

use vstd::prelude::*;

use crate::field::Fp;
use crate::ledger::{Instruction, LedgerOperation, op_wf};
use crate::poseidon2::{
    RoundConstants, fp_seq_inv, poseidon2_compress_8_to_4, spec_beginning_full_constants,
    spec_compress_8_to_4, spec_ending_full_constants, spec_partial_round_constants,
};

verus! {

/// The `(tag, id, input, output)` block an operation contributes, or
/// `None` for auxiliary operations that leave the commitment unchanged.
pub open spec fn spec_op_block(op: Instruction) -> Option<(Fp, Fp, Fp, Fp)> {
    match op {
        LedgerOperation::Resume { utxo_id, input, output } => Some(
            (Fp { value: 1 }, utxo_id, input, output),
        ),
        LedgerOperation::Yield { utxo_id, input } => Some(
            (Fp { value: 2 }, utxo_id, input, Fp { value: 0 }),
        ),
        LedgerOperation::YieldResume { utxo_id, output } => Some(
            (Fp { value: 3 }, utxo_id, Fp { value: 0 }, output),
        ),
        LedgerOperation::DropUtxo { utxo_id } => Some(
            (Fp { value: 4 }, utxo_id, Fp { value: 0 }, Fp { value: 0 }),
        ),
        LedgerOperation::Nop {  } => None,
        LedgerOperation::CheckUtxoOutput { .. } => None,
    }
}

/// The block commitment of one operation: its four-element block, zero
/// padded, compressed to four elements.
pub open spec fn spec_block_commitment(tag: Fp, id: Fp, input: Fp, output: Fp) -> Seq<Fp> {
    spec_compress_8_to_4(
        seq![
            tag,
            id,
            input,
            output,
            Fp { value: 0 },
            Fp { value: 0 },
            Fp { value: 0 },
            Fp { value: 0 },
        ],
    )
}

/// Fold a new block commitment into the running state.
pub open spec fn spec_incremental_commit(block: Seq<Fp>, state: Seq<Fp>) -> Seq<Fp> {
    spec_compress_8_to_4(block + state)
}

/// The state after absorbing one operation.
pub open spec fn spec_add_operation(op: Instruction, state: Seq<Fp>) -> Seq<Fp> {
    match spec_op_block(op) {
        Option::None => state,
        Option::Some((tag, id, input, output)) => spec_incremental_commit(
            spec_block_commitment(tag, id, input, output),
            state,
        ),
    }
}

/// The state after absorbing an operation sequence from position `i` on.
pub open spec fn spec_fold_ops(ops: Seq<Instruction>, i: int, state: Seq<Fp>) -> Seq<Fp>
    decreases ops.len() - i,
{
    if i < 0 || i >= ops.len() {
        state
    } else {
        spec_fold_ops(ops, i + 1, spec_add_operation(ops[i], state))
    }
}

/// The all-zero initial digest.
pub open spec fn spec_zero_digest() -> Seq<Fp> {
    seq![Fp { value: 0 }, Fp { value: 0 }, Fp { value: 0 }, Fp { value: 0 }]
}

/// The digest of an operation sequence is a function of the sequence and
/// the starting state alone: folding the same operations twice from
/// element-wise equal states yields identical digests.
pub proof fn lemma_fold_ops_deterministic(ops: Seq<Instruction>, a: Seq<Fp>, b: Seq<Fp>, i: int)
    requires
        a =~= b,
    ensures
        spec_fold_ops(ops, i, a) == spec_fold_ops(ops, i, b),
    decreases ops.len() - i,
{
    if 0 <= i < ops.len() {
        lemma_fold_ops_deterministic(ops, spec_add_operation(ops[i], a), spec_add_operation(ops[i], b), i + 1);
    }
}

/// One program's running four-element trace digest.
pub struct IncrementalCommitment {
    pub commitment: Vec<Fp>,
    pub constants: RoundConstants,
}

impl IncrementalCommitment {
    /// Four canonical digest elements, folded with the standard tables.
    pub open spec fn wf(self) -> bool {
        &&& self.commitment@.len() == 4
        &&& fp_seq_inv(self.commitment@)
        &&& self.constants.wf()
        &&& self.constants.beginning_full_round_constants@ == spec_beginning_full_constants()
        &&& self.constants.partial_round_constants@ == spec_partial_round_constants()
        &&& self.constants.ending_full_round_constants@ == spec_ending_full_constants()
    }

    /// A fresh commitment: the all-zero digest.
    pub fn new() -> (r: IncrementalCommitment)
        ensures
            r.wf(),
            r.commitment@ == spec_zero_digest(),
    {
        let mut commitment: Vec<Fp> = Vec::new();
        commitment.push(Fp { value: 0 });
        commitment.push(Fp { value: 0 });
        commitment.push(Fp { value: 0 });
        commitment.push(Fp { value: 0 });
        proof {
            assert(commitment@ =~= spec_zero_digest());
        }
        IncrementalCommitment { commitment, constants: RoundConstants::new_goldilocks_8_constants() }
    }

    /// Absorb one ledger operation into the digest.
    pub fn add_operation(&mut self, op: &Instruction)
        requires
            old(self).wf(),
            op_wf(*op),
        ensures
            final(self).wf(),
            final(self).commitment@ == spec_add_operation(*op, old(self).commitment@),
    {
        let (tag, id, input, output) = match op {
            LedgerOperation::Resume { utxo_id, input, output } => (
                Fp { value: 1 },
                *utxo_id,
                *input,
                *output,
            ),
            LedgerOperation::Yield { utxo_id, input } => (
                Fp { value: 2 },
                *utxo_id,
                *input,
                Fp { value: 0 },
            ),
            LedgerOperation::YieldResume { utxo_id, output } => (
                Fp { value: 3 },
                *utxo_id,
                Fp { value: 0 },
                *output,
            ),
            LedgerOperation::DropUtxo { utxo_id } => (
                Fp { value: 4 },
                *utxo_id,
                Fp { value: 0 },
                Fp { value: 0 },
            ),
            LedgerOperation::Nop {  } => {
                return ;
            },
            LedgerOperation::CheckUtxoOutput { .. } => {
                return ;
            },
        };
        let mut block_input: Vec<Fp> = Vec::new();
        block_input.push(tag);
        block_input.push(id);
        block_input.push(input);
        block_input.push(output);
        block_input.push(Fp { value: 0 });
        block_input.push(Fp { value: 0 });
        block_input.push(Fp { value: 0 });
        block_input.push(Fp { value: 0 });
        proof {
            assert(block_input@ =~= seq![
                tag,
                id,
                input,
                output,
                Fp { value: 0 },
                Fp { value: 0 },
                Fp { value: 0 },
                Fp { value: 0 },
            ]);
        }
        let block = poseidon2_compress_8_to_4(&block_input, &self.constants);
        let mut sponge: Vec<Fp> = Vec::new();
        sponge.push(block[0]);
        sponge.push(block[1]);
        sponge.push(block[2]);
        sponge.push(block[3]);
        sponge.push(self.commitment[0]);
        sponge.push(self.commitment[1]);
        sponge.push(self.commitment[2]);
        sponge.push(self.commitment[3]);
        proof {
            assert(sponge@ =~= block@ + old(self).commitment@);
        }
        let folded = poseidon2_compress_8_to_4(&sponge, &self.constants);
        self.commitment = folded;
    }

    /// The digest as four field elements.
    pub fn as_field_elements(&self) -> (r: Vec<Fp>)
        ensures
            r@ == self.commitment@,
    {
        crate::circuit::copy_vec(&self.commitment)
    }
}

/// The index of a program's entry in a commitment table.
pub open spec fn spec_commit_index(entries: Seq<(Fp, IncrementalCommitment)>, id: Fp) -> Option<
    int,
> {
    if exists|k: int| 0 <= k < entries.len() && (#[trigger] entries[k]).0 == id {
        Some(choose|k: int| 0 <= k < entries.len() && (#[trigger] entries[k]).0 == id)
    } else {
        None
    }
}

/// The running trace digests of every program touched by a transaction.
pub struct ProgramTraceCommitments {
    pub commitments: Vec<(Fp, IncrementalCommitment)>,
}

impl ProgramTraceCommitments {
    /// Every entry is well formed and program identifiers are unique.
    pub open spec fn wf(self) -> bool {
        &&& forall|k: int| 0 <= k < self.commitments@.len() ==> (
        #[trigger] self.commitments@[k]).1.wf()
        &&& forall|i: int, j: int|
            0 <= i < j < self.commitments@.len() ==> (#[trigger] self.commitments@[i]).0 != (
            #[trigger] self.commitments@[j]).0
    }

    /// An empty table.
    pub fn new() -> (r: ProgramTraceCommitments)
        ensures
            r.wf(),
            r.commitments@.len() == 0,
    {
        ProgramTraceCommitments { commitments: Vec::new() }
    }

    /// Absorb one operation into the digest of the program it names.  A
    /// program absorbs its first operation from the all-zero digest;
    /// auxiliary operations change nothing.
    pub fn add_operation(&mut self, op: &Instruction)
        requires
            old(self).wf(),
            op_wf(*op),
        ensures
            final(self).wf(),
            spec_op_block(*op) is None ==> final(self).commitments@ == old(self).commitments@,
            spec_op_block(*op) is Some ==> {
                let id = crate::circuit::spec_op_id(*op);
                match spec_commit_index(old(self).commitments@, id) {
                    Option::Some(k) => {
                        &&& final(self).commitments@.len() == old(self).commitments@.len()
                        &&& final(self).commitments@[k].0 == id
                        &&& final(self).commitments@[k].1.commitment@ == spec_add_operation(
                            *op,
                            old(self).commitments@[k].1.commitment@,
                        )
                        &&& forall|j: int|
                            0 <= j < old(self).commitments@.len() && j != k
                                ==> #[trigger] final(self).commitments@[j] == old(
                                self,
                            ).commitments@[j]
                    },
                    Option::None => {
                        &&& final(self).commitments@.len() == old(self).commitments@.len() + 1
                        &&& final(self).commitments@.last().0 == id
                        &&& final(self).commitments@.last().1.commitment@ == spec_add_operation(
                            *op,
                            spec_zero_digest(),
                        )
                        &&& forall|j: int|
                            0 <= j < old(self).commitments@.len()
                                ==> #[trigger] final(self).commitments@[j] == old(
                                self,
                            ).commitments@[j]
                    },
                }
            },
    {
        let id = match op {
            LedgerOperation::Resume { utxo_id, .. } => *utxo_id,
            LedgerOperation::Yield { utxo_id, .. } => *utxo_id,
            LedgerOperation::YieldResume { utxo_id, .. } => *utxo_id,
            LedgerOperation::DropUtxo { utxo_id } => *utxo_id,
            LedgerOperation::Nop {  } => {
                return ;
            },
            LedgerOperation::CheckUtxoOutput { .. } => {
                return ;
            },
        };
        let n = self.commitments.len();
        let mut k: usize = 0;
        while k < n
            invariant
                self.wf(),
                *self == *old(self),
                n == self.commitments@.len(),
                k <= n,
                op_wf(*op),
                spec_op_block(*op) is Some,
                crate::circuit::spec_op_id(*op) == id,
                forall|j: int| 0 <= j < k ==> (#[trigger] self.commitments@[j]).0 != id,
            decreases n - k,
        {
            if self.commitments[k].0 == id {
                proof {
                    let kk = choose|j: int|
                        0 <= j < self.commitments@.len() && (#[trigger] self.commitments@[j]).0
                            == id;
                    assert(kk == k as int);
                }
                let mut entry = self.commitments.remove(k);
                entry.1.add_operation(op);
                self.commitments.insert(k, entry);
                proof {
                    assert(forall|j: int|
                        0 <= j < old(self).commitments@.len() && j != k as int ==> #[trigger] self
                            .commitments@[j] == old(self).commitments@[j]);
                }
                return ;
            }
            k = k + 1;
        }
        let mut fresh = IncrementalCommitment::new();
        fresh.add_operation(op);
        self.commitments.push((id, fresh));
        return ;
    }
}

} // verus!
