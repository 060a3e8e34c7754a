//! The proof-facing view of a transaction: per-UTXO deltas and the
//! sequence of abstract ledger operations distilled from its trace.

use vstd::prelude::*;

use crate::field::Fp;

verus! {

/// One abstract ledger operation.  The payload type is generic so that a
/// builder can hold forward references before they are resolved; the
/// ledger itself uses field elements.
#[derive(Clone, Copy, Debug)]
pub enum LedgerOperation<T> {
    /// A coordination script resumes a suspended UTXO, passing `input`;
    /// `output` is the value the UTXO will yield back.
    Resume { utxo_id: T, input: T, output: T },
    /// A UTXO suspends itself, yielding `input` to the coordination script.
    Yield { utxo_id: T, input: T },
    /// The coordination-script-side view of a yield: the input it had
    /// passed comes back as `output` of the rendezvous.
    YieldResume { utxo_id: T, output: T },
    /// A UTXO returns without yielding and ends its lifetime.
    DropUtxo { utxo_id: T },
    /// Padding; carries no constraint.
    Nop {},
    /// Check that a UTXO's final state matches the public expected row,
    /// and count it as finalized.
    CheckUtxoOutput { utxo_id: T },
}

/// A ledger operation over concrete field elements.
pub type Instruction = LedgerOperation<Fp>;

/// What happened to one UTXO over the course of a transaction.
#[derive(Clone, Copy, Debug, PartialEq, Eq, Structural)]
pub struct UtxoChange {
    /// The value of the last yield in a previous transaction.
    pub output_before: Fp,
    /// The value of the last yield in this transaction (zero if consumed).
    pub output_after: Fp,
    /// Whether the UTXO dies at the end of the transaction.
    pub consumed: bool,
}

/// A well-formed delta map: keys strictly ascending (hence distinct),
/// every field element canonical.
pub open spec fn deltas_wf(deltas: Seq<(Fp, UtxoChange)>) -> bool {
    &&& forall|i: int, j: int|
        0 <= i < j < deltas.len() ==> (#[trigger] deltas[i]).0.value < (#[trigger] deltas[j]).0.value
    &&& forall|i: int|
        0 <= i < deltas.len() ==> {
            &&& (#[trigger] deltas[i]).0.inv()
            &&& deltas[i].1.output_before.inv()
            &&& deltas[i].1.output_after.inv()
        }
}

/// All field elements of an operation are canonical.
pub open spec fn op_wf(op: Instruction) -> bool {
    match op {
        LedgerOperation::Resume { utxo_id, input, output } => utxo_id.inv() && input.inv()
            && output.inv(),
        LedgerOperation::Yield { utxo_id, input } => utxo_id.inv() && input.inv(),
        LedgerOperation::YieldResume { utxo_id, output } => utxo_id.inv() && output.inv(),
        LedgerOperation::DropUtxo { utxo_id } => utxo_id.inv(),
        LedgerOperation::Nop {  } => true,
        LedgerOperation::CheckUtxoOutput { utxo_id } => utxo_id.inv(),
    }
}

/// All operations of a sequence are well formed.
pub open spec fn ops_wf(ops: Seq<Instruction>) -> bool {
    forall|i: int| 0 <= i < ops.len() ==> op_wf(#[trigger] ops[i])
}

/// A transaction in the proof-facing view: the deltas it claims, and a
/// payload that starts as the operation sequence and would be replaced by
/// a folded proof.
pub struct Transaction<P> {
    pub utxo_deltas: Vec<(Fp, UtxoChange)>,
    pub proof_like: P,
}

impl Transaction<Vec<Instruction>> {
    /// Package deltas and operations, appending one `CheckUtxoOutput` per
    /// UTXO in the delta map, in key order.
    pub fn new_unproven(changes: Vec<(Fp, UtxoChange)>, ops: Vec<Instruction>) -> (r:
        Transaction<Vec<Instruction>>)
        ensures
            r.utxo_deltas@ == changes@,
            r.proof_like@.len() == ops@.len() + changes@.len(),
            r.proof_like@.take(ops@.len() as int) == ops@,
            forall|k: int|
                0 <= k < changes@.len() ==> #[trigger] r.proof_like@[ops@.len() + k]
                    == (LedgerOperation::CheckUtxoOutput { utxo_id: changes@[k].0 }),
    {
        let mut ops = ops;
        let ghost base = ops@;
        let mut i: usize = 0;
        while i < changes.len()
            invariant
                i <= changes.len(),
                ops@.len() == base.len() + i,
                ops@.take(base.len() as int) == base,
                forall|k: int|
                    0 <= k < i ==> #[trigger] ops@[base.len() + k] == (LedgerOperation::CheckUtxoOutput {
                        utxo_id: changes@[k].0,
                    }),
            decreases changes.len() - i,
        {
            ops.push(LedgerOperation::CheckUtxoOutput { utxo_id: changes[i].0 });
            proof {
                assert(ops@.take(base.len() as int) =~= base);
            }
            i = i + 1;
        }
        Transaction { utxo_deltas: changes, proof_like: ops }
    }
}

} // verus!
