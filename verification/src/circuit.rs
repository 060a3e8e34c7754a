//! The one-step constraint system of the ledger-trace prover, as a
//! checked transition relation.
//!
//! Storage is an array of per-program states: address 1 is the
//! coordination script, addresses 2 and up are UTXOs in delta-map order.
//! Two read-only segments map dense addresses to UTXO identifiers and to
//! the publicly expected final row of each UTXO.  Per step, exactly one
//! operation kind is active; a conditional read of the coordination row,
//! a conditional read of the UTXO row, and conditional writes to both are
//! made regardless of kind, so every step has the same shape.  A read
//! whose condition is off yields the all-zero row.

use vstd::prelude::*;

use crate::field::Fp;
use crate::field::fp_add;
use crate::ledger::{Instruction, LedgerOperation, UtxoChange};
use crate::ledger::{deltas_wf, ops_wf};

verus! {

/// A step whose constraints do not hold.
#[derive(Clone, Copy, Debug, PartialEq, Eq, Structural)]
pub enum StepError {
    Unsatisfiable,
}

/// The in-circuit state of one program slot.
#[derive(Clone, Copy, Debug, PartialEq, Eq, Structural)]
pub struct ProgramState {
    pub consumed: bool,
    pub finalized: bool,
    pub input: Fp,
    pub output: Fp,
}

/// A field element standing for a boolean.
pub open spec fn spec_bool_fp(b: bool) -> Fp {
    if b {
        Fp { value: 1 }
    } else {
        Fp { value: 0 }
    }
}

/// The all-zero program row.
pub open spec fn spec_dummy() -> ProgramState {
    ProgramState {
        consumed: false,
        finalized: false,
        input: Fp { value: 0 },
        output: Fp { value: 0 },
    }
}

impl ProgramState {
    /// Both field elements are canonical.
    pub open spec fn wf(self) -> bool {
        self.input.inv() && self.output.inv()
    }

    /// The row as four field elements: consumed, finalized, input, output.
    pub open spec fn spec_field_vec(self) -> Seq<Fp> {
        seq![spec_bool_fp(self.consumed), spec_bool_fp(self.finalized), self.input, self.output]
    }

    /// The all-zero row, used for padding and for reads that are switched
    /// off.
    pub fn dummy() -> (r: ProgramState)
        ensures
            r == spec_dummy(),
    {
        ProgramState {
            consumed: false,
            finalized: false,
            input: Fp { value: 0 },
            output: Fp { value: 0 },
        }
    }

    /// Encode the row as four field elements.
    pub fn to_field_vec(&self) -> (r: Vec<Fp>)
        ensures
            r@ == self.spec_field_vec(),
    {
        let consumed = if self.consumed {
            Fp { value: 1 }
        } else {
            Fp { value: 0 }
        };
        let finalized = if self.finalized {
            Fp { value: 1 }
        } else {
            Fp { value: 0 }
        };
        let mut r: Vec<Fp> = Vec::new();
        r.push(consumed);
        r.push(finalized);
        r.push(self.input);
        r.push(self.output);
        proof {
            assert(r@ =~= self.spec_field_vec());
        }
        r
    }
}

/// The state threaded between step-circuit invocations.
#[derive(Clone, Copy, Debug, PartialEq, Eq, Structural)]
pub struct InterRoundWires {
    pub current_program: Fp,
    pub utxos_len: Fp,
    pub n_finalized: Fp,
}

impl InterRoundWires {
    /// All field elements are canonical.
    pub open spec fn wf(self) -> bool {
        self.current_program.inv() && self.utxos_len.inv() && self.n_finalized.inv()
    }

    /// The initial inter-round state: control starts at the coordination
    /// script (address 1) with nothing finalized.
    pub fn new(rom_offset: Fp) -> (r: InterRoundWires)
        ensures
            r.current_program == (Fp { value: 1 }),
            r.utxos_len == rom_offset,
            r.n_finalized == (Fp { value: 0 }),
    {
        InterRoundWires {
            current_program: Fp { value: 1 },
            utxos_len: rom_offset,
            n_finalized: Fp { value: 0 },
        }
    }

    /// Take over the post-step values of a finished step.
    pub fn update(&mut self, res: &Wires)
        ensures
            final(self).current_program == res.current_program,
            final(self).utxos_len == res.utxos_len,
            final(self).n_finalized == res.n_finalized,
    {
        self.current_program = res.current_program;
        self.utxos_len = res.utxos_len;
        self.n_finalized = res.n_finalized;
    }
}

/// The four wire values of one program row inside a step.
#[derive(Clone, Copy, Debug, PartialEq, Eq, Structural)]
pub struct ProgramStateWires {
    pub consumed: Fp,
    pub finalized: Fp,
    pub input: Fp,
    pub output: Fp,
}

impl ProgramStateWires {
    /// Wire values from a length-four field-element row.
    pub fn from_vec(row: &Vec<Fp>) -> (r: ProgramStateWires)
        requires
            row@.len() == 4,
        ensures
            r.consumed == row@[0],
            r.finalized == row@[1],
            r.input == row@[2],
            r.output == row@[3],
    {
        ProgramStateWires { consumed: row[0], finalized: row[1], input: row[2], output: row[3] }
    }

    /// Wire values of the row a write will store.
    pub fn from_write_values(w: &ProgramState) -> (r: ProgramStateWires)
        ensures
            r.consumed == spec_bool_fp(w.consumed),
            r.finalized == spec_bool_fp(w.finalized),
            r.input == w.input,
            r.output == w.output,
    {
        ProgramStateWires {
            consumed: if w.consumed {
                Fp { value: 1 }
            } else {
                Fp { value: 0 }
            },
            finalized: if w.finalized {
                Fp { value: 1 }
            } else {
                Fp { value: 0 }
            },
            input: w.input,
            output: w.output,
        }
    }

    /// Component-wise equality, with named components exempted.  When the
    /// switch is off the comparison carries no constraint.
    pub fn conditionally_enforce_equal(
        &self,
        other: &ProgramStateWires,
        should_enforce: bool,
        skip_consumed: bool,
        skip_finalized: bool,
        skip_input: bool,
        skip_output: bool,
    ) -> (r: bool)
        ensures
            r == spec_psw_eq_except(
                *self,
                *other,
                should_enforce,
                skip_consumed,
                skip_finalized,
                skip_input,
                skip_output,
            ),
    {
        if !should_enforce {
            return true;
        }
        let mut ok = true;
        if !skip_consumed && !(self.consumed == other.consumed) {
            ok = false;
        }
        if !skip_finalized && !(self.finalized == other.finalized) {
            ok = false;
        }
        if !skip_input && !(self.input == other.input) {
            ok = false;
        }
        if !skip_output && !(self.output == other.output) {
            ok = false;
        }
        ok
    }
}

/// What `conditionally_enforce_equal` holds: all components equal except
/// the exempted ones, vacuously when the switch is off.
pub open spec fn spec_psw_eq_except(
    a: ProgramStateWires,
    b: ProgramStateWires,
    should_enforce: bool,
    skip_consumed: bool,
    skip_finalized: bool,
    skip_input: bool,
    skip_output: bool,
) -> bool {
    should_enforce ==> {
        &&& !skip_consumed ==> a.consumed == b.consumed
        &&& !skip_finalized ==> a.finalized == b.finalized
        &&& !skip_input ==> a.input == b.input
        &&& !skip_output ==> a.output == b.output
    }
}

/// Witness assignments of one step, before wires are laid down.
pub struct PreWires {
    /// Dense address of the UTXO row this step touches (2 for padding).
    pub utxo_address: usize,
    /// Dense address of the coordination row.
    pub coord_address: usize,
    pub utxo_id: Fp,
    pub input: Fp,
    pub output: Fp,
    pub yield_start_switch: bool,
    pub yield_end_switch: bool,
    pub resume_switch: bool,
    pub check_utxo_output_switch: bool,
    pub nop_switch: bool,
    pub drop_utxo_switch: bool,
    pub irw: InterRoundWires,
}

impl PreWires {
    /// All switches off; addresses at their padding defaults.
    pub fn new(irw: InterRoundWires) -> (r: PreWires)
        ensures
            r.utxo_address == 2usize,
            r.coord_address == 1usize,
            r.utxo_id == (Fp { value: 0 }),
            r.input == (Fp { value: 0 }),
            r.output == (Fp { value: 0 }),
            !r.yield_start_switch,
            !r.yield_end_switch,
            !r.resume_switch,
            !r.check_utxo_output_switch,
            !r.nop_switch,
            !r.drop_utxo_switch,
            r.irw == irw,
    {
        PreWires {
            utxo_address: 2,
            coord_address: 1,
            utxo_id: Fp { value: 0 },
            input: Fp { value: 0 },
            output: Fp { value: 0 },
            yield_start_switch: false,
            yield_end_switch: false,
            resume_switch: false,
            check_utxo_output_switch: false,
            nop_switch: false,
            drop_utxo_switch: false,
            irw,
        }
    }
}

/// The wire values common to all operation kinds of one step.
#[derive(Clone, Copy)]
pub struct Wires {
    pub current_program: Fp,
    pub utxos_len: Fp,
    pub n_finalized: Fp,
    pub utxo_yield_switch: bool,
    pub yield_resume_switch: bool,
    pub resume_switch: bool,
    pub check_utxo_output_switch: bool,
    pub drop_utxo_switch: bool,
    pub utxo_id: Fp,
    pub input: Fp,
    pub output: Fp,
    pub utxo_read_wires: ProgramStateWires,
    pub coord_read_wires: ProgramStateWires,
    pub utxo_write_wires: ProgramStateWires,
    /// The coordination script has the fixed dense address 1.
    pub coordination_script: Fp,
    pub utxo_final_output: Fp,
    pub utxo_final_consumed: Fp,
}

} // verus!

verus! {

/// The storage a step chain runs against: the mutable array of program
/// rows and the two read-only segments built from the delta map.
pub struct StepMemory {
    /// Program rows; address 0 is unused, 1 is the coordination script,
    /// 2 and up are UTXOs in delta-map order.
    pub ram: Vec<ProgramState>,
    /// Read-only: dense address to UTXO identifier.
    pub index_rom: Vec<Fp>,
    /// Read-only, public: expected final output and consumed flag per
    /// UTXO address.
    pub output_rom: Vec<(Fp, Fp)>,
}

impl StepMemory {
    /// Segment lengths match the delta map, and all rows are canonical.
    pub open spec fn wf(self, n: int) -> bool {
        &&& self.ram@.len() == n + 2
        &&& self.index_rom@.len() == n + 2
        &&& self.output_rom@.len() == n + 2
        &&& forall|k: int| 0 <= k < self.ram@.len() ==> (#[trigger] self.ram@[k]).wf()
    }

    /// The read-only segments hold exactly the delta map.
    pub open spec fn roms_match(self, deltas: Seq<(Fp, UtxoChange)>) -> bool {
        forall|k: int|
            0 <= k < deltas.len() ==> {
                &&& self.index_rom@[k + 2] == (#[trigger] deltas[k]).0
                &&& self.output_rom@[k + 2].0 == deltas[k].1.output_after
                &&& self.output_rom@[k + 2].1 == spec_bool_fp(deltas[k].1.consumed)
            }
    }

    /// Read one program row as four field elements; a read whose switch
    /// is off yields the all-zero row.
    pub fn conditional_read(&self, cond: bool, addr: usize) -> (r: Vec<Fp>)
        requires
            cond ==> addr < self.ram@.len(),
        ensures
            r@ == spec_cond_read(self.ram@, cond, addr as int),
    {
        if cond {
            self.ram[addr].to_field_vec()
        } else {
            let d = ProgramState::dummy();
            let r = d.to_field_vec();
            proof {
                assert(r@ =~= spec_cond_read(self.ram@, cond, addr as int));
            }
            r
        }
    }

    /// Store one program row when the switch is on.
    pub fn conditional_write(&mut self, cond: bool, addr: usize, row: &ProgramState)
        requires
            cond ==> addr < old(self).ram@.len(),
        ensures
            final(self).ram@ == spec_cond_write(old(self).ram@, cond, addr as int, *row),
            final(self).index_rom@ == old(self).index_rom@,
            final(self).output_rom@ == old(self).output_rom@,
    {
        if cond {
            self.ram[addr] = *row;
        }
    }
}

/// What a conditional read returns.
pub open spec fn spec_cond_read(ram: Seq<ProgramState>, cond: bool, addr: int) -> Seq<Fp> {
    if cond {
        ram[addr].spec_field_vec()
    } else {
        spec_dummy().spec_field_vec()
    }
}

/// What a conditional write leaves in memory.
pub open spec fn spec_cond_write(
    ram: Seq<ProgramState>,
    cond: bool,
    addr: int,
    row: ProgramState,
) -> Seq<ProgramState> {
    if cond {
        ram.update(addr, row)
    } else {
        ram
    }
}

/// Whether the delta map has a row for this identifier.
pub open spec fn spec_has_delta(deltas: Seq<(Fp, UtxoChange)>, id: Fp) -> bool {
    exists|k: int| 0 <= k < deltas.len() && (#[trigger] deltas[k]).0 == id
}

/// The delta-map index of an identifier.
pub open spec fn spec_delta_index(deltas: Seq<(Fp, UtxoChange)>, id: Fp) -> int {
    choose|k: int| 0 <= k < deltas.len() && (#[trigger] deltas[k]).0 == id
}

/// The dense address of an identifier: its delta-map index plus two.
pub open spec fn spec_addr_of(deltas: Seq<(Fp, UtxoChange)>, id: Fp) -> Option<int> {
    if spec_has_delta(deltas, id) {
        Some(spec_delta_index(deltas, id) + 2)
    } else {
        None
    }
}

/// In a well-formed delta map an identifier occurs at most once.
pub proof fn lemma_delta_index_unique(deltas: Seq<(Fp, UtxoChange)>, id: Fp, k: int)
    requires
        deltas_wf(deltas),
        0 <= k < deltas.len(),
        deltas[k].0 == id,
    ensures
        spec_has_delta(deltas, id),
        spec_delta_index(deltas, id) == k,
{
    assert(spec_has_delta(deltas, id));
    let j = spec_delta_index(deltas, id);
    if j < k {
        assert(deltas[j].0.value < deltas[k].0.value);
    } else if j > k {
        assert(deltas[k].0.value < deltas[j].0.value);
    }
}

/// The identifier an operation names (zero for padding).
pub open spec fn spec_op_id(op: Instruction) -> Fp {
    match op {
        LedgerOperation::Resume { utxo_id, .. } => utxo_id,
        LedgerOperation::Yield { utxo_id, .. } => utxo_id,
        LedgerOperation::YieldResume { utxo_id, .. } => utxo_id,
        LedgerOperation::DropUtxo { utxo_id } => utxo_id,
        LedgerOperation::Nop {  } => Fp { value: 0 },
        LedgerOperation::CheckUtxoOutput { utxo_id } => utxo_id,
    }
}

/// The step input an operation carries (zero when it has none).
pub open spec fn spec_op_input(op: Instruction) -> Fp {
    match op {
        LedgerOperation::Resume { input, .. } => input,
        LedgerOperation::Yield { input, .. } => input,
        _ => Fp { value: 0 },
    }
}

/// The step output an operation carries (zero when it has none).
pub open spec fn spec_op_output(op: Instruction) -> Fp {
    match op {
        LedgerOperation::Resume { output, .. } => output,
        LedgerOperation::YieldResume { output, .. } => output,
        _ => Fp { value: 0 },
    }
}

/// What the step writes to the coordination and UTXO rows, given what the
/// conditional reads returned.
pub open spec fn spec_write_values(
    op: Instruction,
    coord_read: Seq<Fp>,
    utxo_read: Seq<Fp>,
) -> (ProgramState, ProgramState) {
    match op {
        LedgerOperation::Nop {  } => (spec_dummy(), spec_dummy()),
        LedgerOperation::Resume { utxo_id: _, input, output } => (
            ProgramState {
                consumed: coord_read[0] == (Fp { value: 1 }),
                finalized: coord_read[1] == (Fp { value: 1 }),
                input,
                output,
            },
            ProgramState {
                consumed: true,
                finalized: utxo_read[1] == (Fp { value: 1 }),
                input: utxo_read[2],
                output: utxo_read[3],
            },
        ),
        LedgerOperation::YieldResume { .. } => (
            spec_dummy(),
            ProgramState {
                consumed: utxo_read[0] == (Fp { value: 1 }),
                finalized: utxo_read[1] == (Fp { value: 1 }),
                input: utxo_read[2],
                output: utxo_read[3],
            },
        ),
        LedgerOperation::Yield { utxo_id: _, input } => (
            spec_dummy(),
            ProgramState {
                consumed: false,
                finalized: utxo_read[1] == (Fp { value: 1 }),
                input: Fp { value: 0 },
                output: input,
            },
        ),
        LedgerOperation::CheckUtxoOutput { .. } => (
            spec_dummy(),
            ProgramState {
                consumed: utxo_read[0] == (Fp { value: 1 }),
                finalized: true,
                input: utxo_read[2],
                output: utxo_read[3],
            },
        ),
        LedgerOperation::DropUtxo { .. } => (spec_dummy(), spec_dummy()),
    }
}

} // verus!

verus! {

/// Whether the constraints of the active operation hold, given the wire
/// values of the step.
pub open spec fn spec_step_checks(
    deltas: Seq<(Fp, UtxoChange)>,
    op: Instruction,
    addr: int,
    coord_read: Seq<Fp>,
    utxo_read: Seq<Fp>,
    utxo_write: ProgramState,
    irw: InterRoundWires,
) -> bool {
    match op {
        LedgerOperation::Nop {  } => true,
        LedgerOperation::Resume { .. } => {
            &&& irw.current_program == (Fp { value: 1 })
            &&& utxo_write.consumed
        },
        LedgerOperation::Yield { utxo_id, input } => {
            &&& !utxo_write.consumed
            &&& coord_read[3] == input
            &&& irw.current_program == utxo_id
        },
        LedgerOperation::YieldResume { utxo_id, output } => {
            &&& coord_read[2] == output
            &&& irw.current_program == utxo_id
        },
        LedgerOperation::DropUtxo { utxo_id } => {
            &&& utxo_read == utxo_write.spec_field_vec()
            &&& irw.current_program == utxo_id
        },
        LedgerOperation::CheckUtxoOutput { .. } => {
            &&& irw.current_program == (Fp { value: 1 })
            &&& utxo_read[3] == deltas[addr - 2].1.output_after
            &&& utxo_read[0] == spec_bool_fp(deltas[addr - 2].1.consumed)
            &&& utxo_read[1] == (Fp { value: 0 })
        },
    }
}

/// The inter-round state after an operation.
pub open spec fn spec_step_irw(op: Instruction, irw: InterRoundWires) -> InterRoundWires {
    let current = match op {
        LedgerOperation::Resume { utxo_id, .. } => utxo_id,
        LedgerOperation::Yield { .. } => Fp { value: 1 },
        LedgerOperation::DropUtxo { .. } => Fp { value: 1 },
        _ => irw.current_program,
    };
    let n_finalized = match op {
        LedgerOperation::CheckUtxoOutput { .. } => Fp {
            value: fp_add(irw.n_finalized.value as int, 1) as u64,
        },
        _ => irw.n_finalized,
    };
    InterRoundWires { current_program: current, utxos_len: irw.utxos_len, n_finalized }
}

/// Whether an operation writes its UTXO row.
pub open spec fn spec_writes_utxo(op: Instruction) -> bool {
    match op {
        LedgerOperation::Resume { .. } => true,
        LedgerOperation::Yield { .. } => true,
        LedgerOperation::YieldResume { .. } => true,
        LedgerOperation::CheckUtxoOutput { .. } => true,
        _ => false,
    }
}

/// Whether an operation reads the coordination row.
pub open spec fn spec_reads_coord(op: Instruction) -> bool {
    match op {
        LedgerOperation::Yield { .. } => true,
        LedgerOperation::YieldResume { .. } => true,
        _ => false,
    }
}

/// One step of the chain: `None` when the step's constraints cannot be
/// satisfied, otherwise the storage and inter-round state after it.
pub open spec fn spec_step(
    deltas: Seq<(Fp, UtxoChange)>,
    op: Instruction,
    ram: Seq<ProgramState>,
    irw: InterRoundWires,
) -> Option<(Seq<ProgramState>, InterRoundWires)> {
    if !(op matches LedgerOperation::Nop {  }) && spec_addr_of(deltas, spec_op_id(op)) is None {
        None
    } else {
        let addr = if op matches LedgerOperation::Nop {  } {
            2int
        } else {
            spec_addr_of(deltas, spec_op_id(op))->0
        };
        let coord_read = spec_cond_read(ram, spec_reads_coord(op), 1);
        let utxo_read = spec_cond_read(
            ram,
            op matches LedgerOperation::CheckUtxoOutput { .. },
            addr,
        );
        let (coord_write, utxo_write) = spec_write_values(op, coord_read, utxo_read);
        let ram1 = spec_cond_write(ram, op matches LedgerOperation::Resume { .. }, 1, coord_write);
        let ram2 = spec_cond_write(ram1, spec_writes_utxo(op), addr, utxo_write);
        if spec_step_checks(deltas, op, addr, coord_read, utxo_read, utxo_write, irw) {
            Some((ram2, spec_step_irw(op, irw)))
        } else {
            None
        }
    }
}

/// Run the chain from step `i` on.
pub open spec fn spec_chain_from(
    deltas: Seq<(Fp, UtxoChange)>,
    ops: Seq<Instruction>,
    i: int,
    ram: Seq<ProgramState>,
    irw: InterRoundWires,
) -> Option<(Seq<ProgramState>, InterRoundWires)>
    decreases ops.len() - i,
{
    if i < 0 || i >= ops.len() {
        Some((ram, irw))
    } else {
        match spec_step(deltas, ops[i], ram, irw) {
            Option::None => None,
            Option::Some((ram2, irw2)) => spec_chain_from(deltas, ops, i + 1, ram2, irw2),
        }
    }
}

/// The storage a chain starts from: a zero coordination row and, per
/// UTXO, a row whose output is the last yield of the previous
/// transaction.
pub open spec fn spec_init_ram(deltas: Seq<(Fp, UtxoChange)>) -> Seq<ProgramState> {
    Seq::new(
        (deltas.len() + 2) as nat,
        |k: int|
            if k < 2 {
                spec_dummy()
            } else {
                ProgramState {
                    consumed: false,
                    finalized: false,
                    input: Fp { value: 0 },
                    output: deltas[k - 2].1.output_before,
                }
            },
    )
}

/// The inter-round state a chain starts from.
pub open spec fn spec_init_irw(deltas: Seq<(Fp, UtxoChange)>) -> InterRoundWires {
    InterRoundWires {
        current_program: Fp { value: 1 },
        utxos_len: Fp { value: deltas.len() as u64 },
        n_finalized: Fp { value: 0 },
    }
}

/// Whether the verifier accepts: every step's constraints are satisfied
/// and, at the terminal state, the number of finalized UTXOs equals the
/// size of the delta map.
pub open spec fn spec_accepts(deltas: Seq<(Fp, UtxoChange)>, ops: Seq<Instruction>) -> bool {
    match spec_chain_from(deltas, ops, 0, spec_init_ram(deltas), spec_init_irw(deltas)) {
        Option::None => false,
        Option::Some((ram, irw)) => irw.n_finalized.value == deltas.len(),
    }
}

} // verus!

verus! {

/// The wire bundle of a field-element row.
pub open spec fn spec_psw_of(s: Seq<Fp>) -> ProgramStateWires {
    ProgramStateWires { consumed: s[0], finalized: s[1], input: s[2], output: s[3] }
}

impl LedgerOperation<Fp> {
    /// What this operation writes to the coordination and UTXO rows,
    /// given what the conditional reads returned.
    pub fn write_values(&self, coord_read: &Vec<Fp>, utxo_read: &Vec<Fp>) -> (r: (
        ProgramState,
        ProgramState,
    ))
        requires
            coord_read@.len() == 4,
            utxo_read@.len() == 4,
        ensures
            r == spec_write_values(*self, coord_read@, utxo_read@),
    {
        let one = Fp { value: 1 };
        match self {
            LedgerOperation::Nop {  } => (ProgramState::dummy(), ProgramState::dummy()),
            LedgerOperation::Resume { utxo_id: _, input, output } => {
                let coord = ProgramState {
                    consumed: coord_read[0] == one,
                    finalized: coord_read[1] == one,
                    input: *input,
                    output: *output,
                };
                let utxo = ProgramState {
                    consumed: true,
                    finalized: utxo_read[1] == one,
                    input: utxo_read[2],
                    output: utxo_read[3],
                };
                (coord, utxo)
            },
            LedgerOperation::YieldResume { utxo_id: _, output: _ } => {
                let utxo = ProgramState {
                    consumed: utxo_read[0] == one,
                    finalized: utxo_read[1] == one,
                    input: utxo_read[2],
                    output: utxo_read[3],
                };
                (ProgramState::dummy(), utxo)
            },
            LedgerOperation::Yield { utxo_id: _, input } => {
                let utxo = ProgramState {
                    consumed: false,
                    finalized: utxo_read[1] == one,
                    input: Fp { value: 0 },
                    output: *input,
                };
                (ProgramState::dummy(), utxo)
            },
            LedgerOperation::CheckUtxoOutput { utxo_id: _ } => {
                let utxo = ProgramState {
                    consumed: utxo_read[0] == one,
                    finalized: true,
                    input: utxo_read[2],
                    output: utxo_read[3],
                };
                (ProgramState::dummy(), utxo)
            },
            LedgerOperation::DropUtxo { utxo_id: _ } => (
                ProgramState::dummy(),
                ProgramState::dummy(),
            ),
        }
    }
}

impl Wires {
    /// Lay down the wires of one step: perform the conditional reads,
    /// store the write rows, and read the two read-only segments.  The
    /// returned flag is the address-binding constraint: the identifier
    /// segment at the touched address must name the operation's UTXO.
    pub fn from_irw(
        vals: &PreWires,
        mem: &mut StepMemory,
        utxo_write: &ProgramState,
        coord_write: &ProgramState,
    ) -> (r: (Wires, bool))
        requires
            old(mem).ram@.len() >= 2,
            old(mem).index_rom@.len() == old(mem).ram@.len(),
            old(mem).output_rom@.len() == old(mem).ram@.len(),
            !vals.nop_switch ==> vals.utxo_address < old(mem).ram@.len(),
            vals.nop_switch ==> !vals.check_utxo_output_switch && !vals.yield_start_switch
                && !vals.resume_switch && !vals.yield_end_switch,
        ensures
            final(mem).ram@ == spec_cond_write(
                spec_cond_write(old(mem).ram@, vals.resume_switch, 1, *coord_write),
                vals.yield_start_switch || vals.resume_switch || vals.yield_end_switch
                    || vals.check_utxo_output_switch,
                vals.utxo_address as int,
                *utxo_write,
            ),
            final(mem).index_rom@ == old(mem).index_rom@,
            final(mem).output_rom@ == old(mem).output_rom@,
            r.0.current_program == vals.irw.current_program,
            r.0.utxos_len == vals.irw.utxos_len,
            r.0.n_finalized == vals.irw.n_finalized,
            r.0.utxo_yield_switch == vals.yield_start_switch,
            r.0.yield_resume_switch == vals.yield_end_switch,
            r.0.resume_switch == vals.resume_switch,
            r.0.check_utxo_output_switch == vals.check_utxo_output_switch,
            r.0.drop_utxo_switch == vals.drop_utxo_switch,
            r.0.utxo_id == vals.utxo_id,
            r.0.input == vals.input,
            r.0.output == vals.output,
            r.0.coord_read_wires == spec_psw_of(
                spec_cond_read(
                    old(mem).ram@,
                    vals.yield_end_switch || vals.yield_start_switch,
                    1,
                ),
            ),
            r.0.utxo_read_wires == spec_psw_of(
                spec_cond_read(
                    old(mem).ram@,
                    vals.check_utxo_output_switch,
                    vals.utxo_address as int,
                ),
            ),
            r.0.utxo_write_wires.consumed == spec_bool_fp(utxo_write.consumed),
            r.0.utxo_write_wires.finalized == spec_bool_fp(utxo_write.finalized),
            r.0.utxo_write_wires.input == utxo_write.input,
            r.0.utxo_write_wires.output == utxo_write.output,
            r.0.coordination_script == (Fp { value: 1 }),
            r.0.utxo_final_output == if vals.check_utxo_output_switch {
                old(mem).output_rom@[vals.utxo_address as int].0
            } else {
                (Fp { value: 0 })
            },
            r.0.utxo_final_consumed == if vals.check_utxo_output_switch {
                old(mem).output_rom@[vals.utxo_address as int].1
            } else {
                (Fp { value: 0 })
            },
            r.1 == ((if vals.nop_switch {
                (Fp { value: 0 })
            } else {
                old(mem).index_rom@[vals.utxo_address as int]
            }) == vals.utxo_id),
    {
        let coord_read = mem.conditional_read(
            vals.yield_end_switch || vals.yield_start_switch,
            1,
        );
        let coord_read_wires = ProgramStateWires::from_vec(&coord_read);

        let utxo_read = mem.conditional_read(vals.check_utxo_output_switch, vals.utxo_address);
        let utxo_read_wires = ProgramStateWires::from_vec(&utxo_read);

        let utxo_write_wires = ProgramStateWires::from_write_values(utxo_write);

        mem.conditional_write(vals.resume_switch, 1, coord_write);

        let utxo_write_cond = vals.yield_start_switch || vals.resume_switch
            || vals.yield_end_switch || vals.check_utxo_output_switch;
        mem.conditional_write(utxo_write_cond, vals.utxo_address, utxo_write);

        let rom_read = if vals.nop_switch {
            Fp { value: 0 }
        } else {
            mem.index_rom[vals.utxo_address]
        };
        let rom_ok = rom_read == vals.utxo_id;

        let (utxo_final_output, utxo_final_consumed) = if vals.check_utxo_output_switch {
            let row = mem.output_rom[vals.utxo_address];
            (row.0, row.1)
        } else {
            (Fp { value: 0 }, Fp { value: 0 })
        };

        let wires = Wires {
            current_program: vals.irw.current_program,
            utxos_len: vals.irw.utxos_len,
            n_finalized: vals.irw.n_finalized,
            utxo_yield_switch: vals.yield_start_switch,
            yield_resume_switch: vals.yield_end_switch,
            resume_switch: vals.resume_switch,
            check_utxo_output_switch: vals.check_utxo_output_switch,
            drop_utxo_switch: vals.drop_utxo_switch,
            utxo_id: vals.utxo_id,
            input: vals.input,
            output: vals.output,
            utxo_read_wires,
            coord_read_wires,
            utxo_write_wires,
            coordination_script: Fp { value: 1 },
            utxo_final_output,
            utxo_final_consumed,
        };
        (wires, rom_ok)
    }
}

} // verus!

verus! {

/// Builds and checks the per-operation step circuits of one transaction.
pub struct StepCircuitBuilder {
    /// The claimed per-UTXO deltas, keys strictly ascending.
    pub utxos: Vec<(Fp, UtxoChange)>,
    /// The operation sequence under proof.
    pub ops: Vec<Instruction>,
    /// UTXO identifier to dense address (delta-map index plus two).
    pub utxo_order_mapping: Vec<(Fp, usize)>,
}

impl StepCircuitBuilder {
    /// The delta map is well formed, the operations are canonical, and
    /// the address mapping mirrors the delta map.
    pub open spec fn wf(self) -> bool {
        &&& deltas_wf(self.utxos@)
        &&& ops_wf(self.ops@)
        &&& self.utxos@.len() < 0x8000_0000
        &&& self.utxo_order_mapping@.len() == self.utxos@.len()
        &&& forall|k: int|
            0 <= k < self.utxos@.len() ==> {
                &&& (#[trigger] self.utxo_order_mapping@[k]).0 == self.utxos@[k].0
                &&& self.utxo_order_mapping@[k].1 == k + 2
            }
    }

    /// Start a builder for one delta map and operation sequence.  The
    /// address mapping is laid down by `trace_memory_ops`.
    pub fn new(utxos: Vec<(Fp, UtxoChange)>, ops: Vec<Instruction>) -> (r: StepCircuitBuilder)
        ensures
            r.utxos@ == utxos@,
            r.ops@ == ops@,
            r.utxo_order_mapping@.len() == 0,
    {
        StepCircuitBuilder { utxos, ops, utxo_order_mapping: Vec::new() }
    }

    /// The number of UTXO rows, as a field element.
    pub fn rom_offset(&self) -> (r: Fp)
        requires
            self.utxos@.len() < 0x8000_0000,
        ensures
            r == (Fp { value: self.utxos@.len() as u64 }),
    {
        Fp::from_u64(self.utxos.len() as u64)
    }

    /// The dense address of an identifier, if the delta map has it.
    fn lookup_addr(&self, id: Fp) -> (r: Option<usize>)
        requires
            self.wf(),
        ensures
            match r {
                Option::Some(a) => spec_addr_of(self.utxos@, id) == Some(a as int),
                Option::None => spec_addr_of(self.utxos@, id) is None,
            },
    {
        let mut k: usize = 0;
        while k < self.utxo_order_mapping.len()
            invariant
                self.wf(),
                k <= self.utxo_order_mapping@.len(),
                forall|j: int| 0 <= j < k ==> (#[trigger] self.utxos@[j]).0 != id,
            decreases self.utxo_order_mapping@.len() - k,
        {
            if self.utxo_order_mapping[k].0 == id {
                proof {
                    lemma_delta_index_unique(self.utxos@, id, k as int);
                }
                return Some(self.utxo_order_mapping[k].1);
            }
            k = k + 1;
        }
        proof {
            assert(!spec_has_delta(self.utxos@, id));
        }
        None
    }

    /// Build the storage segments and the address mapping: per UTXO one
    /// program row seeded with its previous output, one identifier row,
    /// and one expected-output row.
    pub fn trace_memory_ops(&mut self) -> (r: StepMemory)
        requires
            deltas_wf(old(self).utxos@),
            ops_wf(old(self).ops@),
            old(self).utxos@.len() < 0x8000_0000,
        ensures
            final(self).wf(),
            final(self).utxos@ == old(self).utxos@,
            final(self).ops@ == old(self).ops@,
            r.wf(old(self).utxos@.len() as int),
            r.roms_match(old(self).utxos@),
            r.ram@ == spec_init_ram(old(self).utxos@),
    {
        let n = self.utxos.len();
        let mut ram: Vec<ProgramState> = Vec::new();
        let mut index_rom: Vec<Fp> = Vec::new();
        let mut output_rom: Vec<(Fp, Fp)> = Vec::new();
        let mut mapping: Vec<(Fp, usize)> = Vec::new();

        ram.push(ProgramState::dummy());
        ram.push(ProgramState::dummy());
        index_rom.push(Fp { value: 0 });
        index_rom.push(Fp { value: 0 });
        output_rom.push((Fp { value: 0 }, Fp { value: 0 }));
        output_rom.push((Fp { value: 0 }, Fp { value: 0 }));

        let mut k: usize = 0;
        while k < n
            invariant
                n == self.utxos@.len(),
                n < 0x8000_0000,
                deltas_wf(self.utxos@),
                k <= n,
                ram@.len() == k + 2,
                index_rom@.len() == k + 2,
                output_rom@.len() == k + 2,
                mapping@.len() == k,
                forall|j: int| 0 <= j < ram@.len() ==> (#[trigger] ram@[j]) == spec_init_ram(
                    self.utxos@,
                )[j],
                forall|j: int|
                    0 <= j < k ==> {
                        &&& index_rom@[j + 2] == (#[trigger] self.utxos@[j]).0
                        &&& output_rom@[j + 2].0 == self.utxos@[j].1.output_after
                        &&& output_rom@[j + 2].1 == spec_bool_fp(self.utxos@[j].1.consumed)
                        &&& mapping@[j].0 == self.utxos@[j].0
                        &&& mapping@[j].1 == j + 2
                    },
            decreases n - k,
        {
            let (id, change) = self.utxos[k];
            ram.push(
                ProgramState {
                    consumed: false,
                    finalized: false,
                    input: Fp { value: 0 },
                    output: change.output_before,
                },
            );
            index_rom.push(id);
            let consumed_fp = if change.consumed {
                Fp { value: 1 }
            } else {
                Fp { value: 0 }
            };
            output_rom.push((change.output_after, consumed_fp));
            mapping.push((id, k + 2));
            proof {
                let kk = k as int;
                assert forall|j: int| 0 <= j < kk + 1 implies {
                    &&& index_rom@[j + 2] == (#[trigger] self.utxos@[j]).0
                    &&& output_rom@[j + 2].0 == self.utxos@[j].1.output_after
                    &&& output_rom@[j + 2].1 == spec_bool_fp(self.utxos@[j].1.consumed)
                    &&& mapping@[j].0 == self.utxos@[j].0
                    &&& mapping@[j].1 == j + 2
                } by {
                    if j == kk {
                        assert(index_rom@[kk + 2] == self.utxos@[kk].0);
                        assert(mapping@[kk] == (self.utxos@[kk].0, (k + 2) as usize));
                    }
                }
                assert forall|j: int| 0 <= j < ram@.len() implies (#[trigger] ram@[j])
                    == spec_init_ram(self.utxos@)[j] by {
                    if j == kk + 2 {
                        assert(ram@[j] == spec_init_ram(self.utxos@)[j]);
                    }
                }
            }
            k = k + 1;
        }

        self.utxo_order_mapping = mapping;
        proof {
            assert(ram@ =~= spec_init_ram(self.utxos@));
        }
        StepMemory { ram, index_rom, output_rom }
    }

    /// The witness assignments of one step: the active switch, the
    /// operation's values, and the dense address it touches.  `None`
    /// when the operation names an identifier the delta map lacks.
    fn allocate_vars(&self, i: usize, irw: &InterRoundWires) -> (r: Option<PreWires>)
        requires
            self.wf(),
            i < self.ops@.len(),
        ensures
            match r {
                Option::Some(pre) => {
                    &&& pre.irw == *irw
                    &&& pre.resume_switch == (self.ops@[i as int] matches LedgerOperation::Resume {
                        ..
                    })
                    &&& pre.yield_start_switch == (
                    self.ops@[i as int] matches LedgerOperation::Yield { .. })
                    &&& pre.yield_end_switch == (
                    self.ops@[i as int] matches LedgerOperation::YieldResume { .. })
                    &&& pre.check_utxo_output_switch == (
                    self.ops@[i as int] matches LedgerOperation::CheckUtxoOutput { .. })
                    &&& pre.nop_switch == (self.ops@[i as int] matches LedgerOperation::Nop {  })
                    &&& pre.drop_utxo_switch == (
                    self.ops@[i as int] matches LedgerOperation::DropUtxo { .. })
                    &&& pre.utxo_id == spec_op_id(self.ops@[i as int])
                    &&& pre.input == spec_op_input(self.ops@[i as int])
                    &&& pre.output == spec_op_output(self.ops@[i as int])
                    &&& pre.coord_address == 1usize
                    &&& (self.ops@[i as int] matches LedgerOperation::Nop {  } ==> pre.utxo_address
                        == 2usize)
                    &&& (!(self.ops@[i as int] matches LedgerOperation::Nop {  })
                        ==> spec_addr_of(self.utxos@, spec_op_id(self.ops@[i as int])) == Some(
                        pre.utxo_address as int,
                    ))
                },
                Option::None => {
                    &&& !(self.ops@[i as int] matches LedgerOperation::Nop {  })
                    &&& spec_addr_of(self.utxos@, spec_op_id(self.ops@[i as int])) is None
                },
            },
    {
        let op = self.ops[i];
        match op {
            LedgerOperation::Nop {  } => {
                let mut pre = PreWires::new(*irw);
                pre.nop_switch = true;
                Some(pre)
            },
            LedgerOperation::Resume { utxo_id, input, output } => {
                match self.lookup_addr(utxo_id) {
                    Option::Some(addr) => {
                        let mut pre = PreWires::new(*irw);
                        pre.resume_switch = true;
                        pre.utxo_id = utxo_id;
                        pre.input = input;
                        pre.output = output;
                        pre.utxo_address = addr;
                        Some(pre)
                    },
                    Option::None => None,
                }
            },
            LedgerOperation::Yield { utxo_id, input } => {
                match self.lookup_addr(utxo_id) {
                    Option::Some(addr) => {
                        let mut pre = PreWires::new(*irw);
                        pre.yield_start_switch = true;
                        pre.utxo_id = utxo_id;
                        pre.input = input;
                        pre.utxo_address = addr;
                        Some(pre)
                    },
                    Option::None => None,
                }
            },
            LedgerOperation::YieldResume { utxo_id, output } => {
                match self.lookup_addr(utxo_id) {
                    Option::Some(addr) => {
                        let mut pre = PreWires::new(*irw);
                        pre.yield_end_switch = true;
                        pre.utxo_id = utxo_id;
                        pre.output = output;
                        pre.utxo_address = addr;
                        Some(pre)
                    },
                    Option::None => None,
                }
            },
            LedgerOperation::CheckUtxoOutput { utxo_id } => {
                match self.lookup_addr(utxo_id) {
                    Option::Some(addr) => {
                        let mut pre = PreWires::new(*irw);
                        pre.check_utxo_output_switch = true;
                        pre.utxo_id = utxo_id;
                        pre.utxo_address = addr;
                        Some(pre)
                    },
                    Option::None => None,
                }
            },
            LedgerOperation::DropUtxo { utxo_id } => {
                match self.lookup_addr(utxo_id) {
                    Option::Some(addr) => {
                        let mut pre = PreWires::new(*irw);
                        pre.drop_utxo_switch = true;
                        pre.utxo_id = utxo_id;
                        pre.utxo_address = addr;
                        Some(pre)
                    },
                    Option::None => None,
                }
            },
        }
    }
}

} // verus!

verus! {

impl StepCircuitBuilder {
    /// Constraints of a UTXO resume: control must be at the coordination
    /// script, the UTXO row is copied except that `consumed` is forced
    /// on, and control transfers to the UTXO.
    fn visit_utxo_resume(&self, wires: Wires) -> (r: (Wires, bool))
        ensures
            r.0 == (Wires {
                current_program: if wires.resume_switch {
                    wires.utxo_id
                } else {
                    wires.current_program
                },
                ..wires
            }),
            r.1 == (wires.resume_switch ==> {
                &&& spec_psw_eq_except(
                    wires.utxo_read_wires,
                    wires.utxo_write_wires,
                    true,
                    true,
                    false,
                    false,
                    false,
                )
                &&& wires.current_program == wires.coordination_script
                &&& wires.utxo_write_wires.consumed == (Fp { value: 1 })
            }),
    {
        let switch = wires.resume_switch;
        let ok1 = wires.utxo_read_wires.conditionally_enforce_equal(
            &wires.utxo_write_wires,
            switch,
            true,
            false,
            false,
            false,
        );
        let ok2 = !switch || wires.current_program == wires.coordination_script;
        let ok3 = !switch || wires.utxo_write_wires.consumed == (Fp { value: 1 });
        let mut out = wires;
        if switch {
            out.current_program = wires.utxo_id;
        }
        (out, ok1 && ok2 && ok3)
    }

    /// Constraints of an explicit drop: control must be at the UTXO, its
    /// row is copied unchanged, and control returns to the coordination
    /// script.
    fn visit_utxo_drop(&self, wires: Wires) -> (r: (Wires, bool))
        ensures
            r.0 == (Wires {
                current_program: if wires.drop_utxo_switch {
                    wires.coordination_script
                } else {
                    wires.current_program
                },
                ..wires
            }),
            r.1 == (wires.drop_utxo_switch ==> {
                &&& spec_psw_eq_except(
                    wires.utxo_read_wires,
                    wires.utxo_write_wires,
                    true,
                    false,
                    false,
                    false,
                    false,
                )
                &&& wires.current_program == wires.utxo_id
            }),
    {
        let switch = wires.drop_utxo_switch;
        let ok1 = wires.utxo_read_wires.conditionally_enforce_equal(
            &wires.utxo_write_wires,
            switch,
            false,
            false,
            false,
            false,
        );
        let ok2 = !switch || wires.current_program == wires.utxo_id;
        let mut out = wires;
        if switch {
            out.current_program = wires.coordination_script;
        }
        (out, ok1 && ok2)
    }

    /// Constraints of the coordination-side half of a yield: control must
    /// be at the UTXO, the UTXO row is copied unchanged, and the input
    /// the coordination script had staged comes back as the step output.
    fn visit_utxo_yield_resume(&self, wires: Wires) -> (r: (Wires, bool))
        ensures
            r.0 == wires,
            r.1 == (wires.yield_resume_switch ==> {
                &&& spec_psw_eq_except(
                    wires.utxo_read_wires,
                    wires.utxo_write_wires,
                    true,
                    false,
                    false,
                    false,
                    false,
                )
                &&& wires.coord_read_wires.input == wires.output
                &&& wires.current_program == wires.utxo_id
            }),
    {
        let switch = wires.yield_resume_switch;
        let ok1 = wires.utxo_read_wires.conditionally_enforce_equal(
            &wires.utxo_write_wires,
            switch,
            false,
            false,
            false,
            false,
        );
        let ok2 = !switch || wires.coord_read_wires.input == wires.output;
        let ok3 = !switch || wires.current_program == wires.utxo_id;
        (wires, ok1 && ok2 && ok3)
    }

    /// Constraints of a yield: control must be at the UTXO, `consumed` is
    /// forced off, the coordination row's staged output must equal the
    /// yielded input, and control returns to the coordination script.
    fn visit_utxo_yield(&self, wires: Wires) -> (r: (Wires, bool))
        ensures
            r.0 == (Wires {
                current_program: if wires.utxo_yield_switch {
                    wires.coordination_script
                } else {
                    wires.current_program
                },
                ..wires
            }),
            r.1 == (wires.utxo_yield_switch ==> {
                &&& spec_psw_eq_except(
                    wires.utxo_read_wires,
                    wires.utxo_write_wires,
                    true,
                    true,
                    false,
                    true,
                    true,
                )
                &&& wires.utxo_write_wires.consumed == (Fp { value: 0 })
                &&& wires.coord_read_wires.output == wires.input
                &&& wires.current_program == wires.utxo_id
            }),
    {
        let switch = wires.utxo_yield_switch;
        let ok1 = wires.utxo_read_wires.conditionally_enforce_equal(
            &wires.utxo_write_wires,
            switch,
            true,
            false,
            true,
            true,
        );
        let ok2 = !switch || wires.utxo_write_wires.consumed == (Fp { value: 0 });
        let ok3 = !switch || wires.coord_read_wires.output == wires.input;
        let ok4 = !switch || wires.current_program == wires.utxo_id;
        let mut out = wires;
        if switch {
            out.current_program = wires.coordination_script;
        }
        (out, ok1 && ok2 && ok3 && ok4)
    }

    /// Constraints of the finalization check: control must be at the
    /// coordination script, the UTXO row must match the public expected
    /// row, it must not have been finalized before (duplicate
    /// detection), its `finalized` flag is forced on, and the
    /// finalization counter advances.
    fn visit_utxo_output_check(&self, wires: Wires) -> (r: (Wires, bool))
        requires
            wires.n_finalized.inv(),
        ensures
            r.0 == (Wires {
                n_finalized: if wires.check_utxo_output_switch {
                    Fp { value: crate::field::fp_add(wires.n_finalized.value as int, 1) as u64 }
                } else {
                    wires.n_finalized
                },
                ..wires
            }),
            r.1 == ({
                &&& wires.check_utxo_output_switch ==> {
                    &&& spec_psw_eq_except(
                        wires.utxo_read_wires,
                        wires.utxo_write_wires,
                        true,
                        false,
                        true,
                        false,
                        false,
                    )
                    &&& wires.current_program == wires.coordination_script
                    &&& wires.utxo_read_wires.output == wires.utxo_final_output
                    &&& wires.utxo_read_wires.consumed == wires.utxo_final_consumed
                    &&& wires.utxo_read_wires.finalized == (Fp { value: 0 })
                }
                &&& wires.utxo_write_wires.finalized == spec_bool_fp(
                    wires.check_utxo_output_switch,
                )
            }),
    {
        let switch = wires.check_utxo_output_switch;
        let ok1 = wires.utxo_read_wires.conditionally_enforce_equal(
            &wires.utxo_write_wires,
            switch,
            false,
            true,
            false,
            false,
        );
        let ok2 = !switch || wires.current_program == wires.coordination_script;
        let ok3 = !switch || wires.utxo_read_wires.output == wires.utxo_final_output;
        let ok4 = !switch || wires.utxo_read_wires.consumed == wires.utxo_final_consumed;
        let switch_fp = if switch {
            Fp { value: 1 }
        } else {
            Fp { value: 0 }
        };
        let ok5 = wires.utxo_write_wires.finalized == switch_fp;
        let ok6 = !switch || wires.utxo_read_wires.finalized == (Fp { value: 0 });
        let mut out = wires;
        if switch {
            out.n_finalized = wires.n_finalized.add(Fp { value: 1 });
        }
        (out, ok1 && ok2 && ok3 && ok4 && ok5 && ok6)
    }

    /// Lay down and check the constraints of step `i` against the
    /// storage, and advance the inter-round state.  An unsatisfiable
    /// step leaves the chain rejected.
    pub fn make_step_circuit(&self, i: usize, mem: &mut StepMemory, irw: InterRoundWires) -> (r:
        Result<InterRoundWires, StepError>)
        requires
            self.wf(),
            old(mem).wf(self.utxos@.len() as int),
            old(mem).roms_match(self.utxos@),
            i < self.ops@.len(),
            irw.wf(),
        ensures
            final(mem).wf(self.utxos@.len() as int),
            final(mem).roms_match(self.utxos@),
            final(mem).index_rom@ == old(mem).index_rom@,
            final(mem).output_rom@ == old(mem).output_rom@,
            match r {
                Result::Ok(irw2) => {
                    &&& spec_step(self.utxos@, self.ops@[i as int], old(mem).ram@, irw) == Some(
                        (final(mem).ram@, irw2),
                    )
                    &&& irw2.wf()
                    &&& irw2.utxos_len == irw.utxos_len
                },
                Result::Err(_) => spec_step(self.utxos@, self.ops@[i as int], old(mem).ram@, irw)
                    is None,
            },
    {
        let ghost op = self.ops@[i as int];
        let ghost ram0 = mem.ram@;
        let pre = match self.allocate_vars(i, &irw) {
            Option::Some(pre) => pre,
            Option::None => {
                return Err(StepError::Unsatisfiable);
            },
        };
        let coord_read = mem.conditional_read(pre.yield_end_switch || pre.yield_start_switch, 1);
        let utxo_read = mem.conditional_read(pre.check_utxo_output_switch, pre.utxo_address);
        let op_i = self.ops[i];
        let (coord_write, utxo_write) = op_i.write_values(&coord_read, &utxo_read);
        let (wires, rom_ok) = Wires::from_irw(&pre, mem, &utxo_write, &coord_write);
        let (wires, ok_yield) = self.visit_utxo_yield(wires);
        let (wires, ok_yield_resume) = self.visit_utxo_yield_resume(wires);
        let (wires, ok_resume) = self.visit_utxo_resume(wires);
        let (wires, ok_check) = self.visit_utxo_output_check(wires);
        let (wires, ok_drop) = self.visit_utxo_drop(wires);
        let mut out = irw;
        out.update(&wires);
        let sat = rom_ok && ok_yield && ok_yield_resume && ok_resume && ok_check && ok_drop;
        proof {
            if !(op matches LedgerOperation::Nop {  }) {
                let a = pre.utxo_address as int;
                assert(self.utxos@[a - 2].0 == spec_op_id(op)) by {
                    assert(spec_addr_of(self.utxos@, spec_op_id(op)) == Some(a));
                    assert(spec_has_delta(self.utxos@, spec_op_id(op)));
                }
                assert(mem.index_rom@[a] == self.utxos@[a - 2].0);
                assert(mem.output_rom@[a].0 == self.utxos@[a - 2].1.output_after);
                assert(mem.output_rom@[a].1 == spec_bool_fp(self.utxos@[a - 2].1.consumed));
            }
            assert(spec_dummy().spec_field_vec() =~= seq![
                Fp { value: 0 },
                Fp { value: 0 },
                Fp { value: 0 },
                Fp { value: 0 },
            ]);
        }
        if sat {
            Ok(out)
        } else {
            Err(StepError::Unsatisfiable)
        }
    }
}

} // verus!

verus! {

/// Copy a vector of copyable values.
pub fn copy_vec<T: Copy>(v: &Vec<T>) -> (r: Vec<T>)
    ensures
        r@ == v@,
{
    let mut r: Vec<T> = Vec::new();
    let mut i: usize = 0;
    while i < v.len()
        invariant
            i <= v.len(),
            r@ == v@.take(i as int),
        decreases v.len() - i,
    {
        r.push(v[i]);
        proof {
            assert(r@ =~= v@.take(i as int + 1));
        }
        i = i + 1;
    }
    proof {
        assert(v@.take(v@.len() as int) =~= v@);
    }
    r
}

impl crate::ledger::Transaction<Vec<Instruction>> {
    /// Re-run the step chain locally against the expected deltas.
    /// Accepts exactly when every step's constraint system is satisfied
    /// and the terminal finalization count equals the number of UTXOs in
    /// the delta map.
    pub fn verify(&self, changes: &Vec<(Fp, UtxoChange)>) -> (r: bool)
        requires
            deltas_wf(changes@),
            ops_wf(self.proof_like@),
            changes@.len() < 0x8000_0000,
        ensures
            r == spec_accepts(changes@, self.proof_like@),
    {
        let mut builder = StepCircuitBuilder::new(copy_vec(changes), copy_vec(&self.proof_like));
        let mem = builder.trace_memory_ops();
        let mut mem = mem;
        let mut irw = InterRoundWires::new(builder.rom_offset());
        proof {
            assert(irw == spec_init_irw(changes@));
        }
        let ghost init_ram = mem.ram@;
        let ghost init_irw = irw;
        let n_ops = builder.ops.len();
        let mut i: usize = 0;
        while i < n_ops
            invariant
                builder.wf(),
                builder.utxos@ == changes@,
                builder.ops@ == self.proof_like@,
                n_ops == builder.ops@.len(),
                i <= n_ops,
                mem.wf(changes@.len() as int),
                mem.roms_match(changes@),
                irw.wf(),
                irw.utxos_len == spec_init_irw(changes@).utxos_len,
                init_ram == spec_init_ram(changes@),
                init_irw == spec_init_irw(changes@),
                spec_chain_from(changes@, self.proof_like@, 0, init_ram, init_irw)
                    == spec_chain_from(changes@, self.proof_like@, i as int, mem.ram@, irw),
            decreases n_ops - i,
        {
            match builder.make_step_circuit(i, &mut mem, irw) {
                Result::Ok(next) => {
                    irw = next;
                },
                Result::Err(_) => {
                    return false;
                },
            }
            i = i + 1;
        }
        irw.n_finalized.to_u64() == (changes.len() as u64)
    }
}

/// At the terminal state of an accepted chain, the finalization counter
/// equals the number of distinct UTXOs in the delta map.
pub proof fn lemma_accepted_finalized_count(
    deltas: Seq<(Fp, UtxoChange)>,
    ops: Seq<Instruction>,
)
    requires
        spec_accepts(deltas, ops),
    ensures
        spec_chain_from(deltas, ops, 0, spec_init_ram(deltas), spec_init_irw(deltas)) is Some,
        (spec_chain_from(
            deltas,
            ops,
            0,
            spec_init_ram(deltas),
            spec_init_irw(deltas),
        )->0).1.n_finalized.value == deltas.len(),
{
}

/// A chain succeeds exactly when each of its steps does: running from
/// step `i` succeeds if and only if step `i` is satisfiable and the rest
/// of the chain succeeds from the state it leaves.
pub proof fn lemma_chain_stepwise(
    deltas: Seq<(Fp, UtxoChange)>,
    ops: Seq<Instruction>,
    i: int,
    ram: Seq<ProgramState>,
    irw: InterRoundWires,
)
    requires
        0 <= i < ops.len(),
    ensures
        spec_chain_from(deltas, ops, i, ram, irw) is Some <==> (spec_step(deltas, ops[i], ram, irw)
            is Some && spec_chain_from(
            deltas,
            ops,
            i + 1,
            (spec_step(deltas, ops[i], ram, irw)->0).0,
            (spec_step(deltas, ops[i], ram, irw)->0).1,
        ) is Some),
{
}

/// A transaction with no UTXOs and only padding operations is accepted:
/// the delta map is empty, no finalization check is owed, and every
/// padding step is trivially satisfiable.
pub proof fn lemma_empty_transaction_accepts(ops: Seq<Instruction>)
    requires
        forall|i: int| 0 <= i < ops.len() ==> (#[trigger] ops[i]) matches LedgerOperation::Nop {  },
    ensures
        spec_accepts(Seq::<(Fp, UtxoChange)>::empty(), ops),
{
    let deltas = Seq::<(Fp, UtxoChange)>::empty();
    lemma_nop_chain(deltas, ops, 0, spec_init_ram(deltas), spec_init_irw(deltas));
}

/// A chain of padding operations changes nothing and always succeeds.
proof fn lemma_nop_chain(
    deltas: Seq<(Fp, UtxoChange)>,
    ops: Seq<Instruction>,
    i: int,
    ram: Seq<ProgramState>,
    irw: InterRoundWires,
)
    requires
        0 <= i <= ops.len(),
        forall|k: int| 0 <= k < ops.len() ==> (#[trigger] ops[k]) matches LedgerOperation::Nop {  },
    ensures
        spec_chain_from(deltas, ops, i, ram, irw) == Some((ram, irw)),
    decreases ops.len() - i,
{
    if i < ops.len() {
        assert(spec_step(deltas, ops[i], ram, irw) == Some((ram, irw)));
        lemma_nop_chain(deltas, ops, i + 1, ram, irw);
    }
}

} // verus!

verus! {

/// The operation is a resume of `id` whose staged reply row is `row`.
pub open spec fn spec_is_resume_for(op: Instruction, id: Fp, row: ProgramState) -> bool {
    match op {
        LedgerOperation::Resume { utxo_id, input, output } => utxo_id == id && input == row.input
            && output == row.output,
        _ => false,
    }
}

/// The operation is a resume of `id` that expects it to yield `yielded`.
pub open spec fn spec_resume_yields(op: Instruction, id: Fp, yielded: Fp) -> bool {
    match op {
        LedgerOperation::Resume { utxo_id, output, .. } => utxo_id == id && output == yielded,
        _ => false,
    }
}

/// The operation is a resume of `id` that passed it the reply `reply`.
pub open spec fn spec_resume_feeds(op: Instruction, id: Fp, reply: Fp) -> bool {
    match op {
        LedgerOperation::Resume { utxo_id, input, .. } => utxo_id == id && input == reply,
        _ => false,
    }
}

/// The coordination row and control point were staged by an earlier
/// resume operation.
pub open spec fn spec_coord_from_resume(
    ops: Seq<Instruction>,
    i: int,
    cur: Fp,
    row: ProgramState,
) -> bool {
    exists|r: int| 0 <= r < i && spec_is_resume_for(#[trigger] ops[r], cur, row)
}

/// Ledger-operation round trip: in a satisfiable chain over a delta map
/// whose identifiers avoid the coordination address, every `Yield`
/// carries as input the output of the resume that woke its UTXO, and
/// every `YieldResume` carries back the input that resume had staged.
pub proof fn lemma_rendezvous_matches_resume(
    deltas: Seq<(Fp, UtxoChange)>,
    ops: Seq<Instruction>,
    j: int,
)
    requires
        deltas_wf(deltas),
        forall|k: int| 0 <= k < deltas.len() ==> (#[trigger] deltas[k]).0 != (Fp { value: 1 }),
        spec_chain_from(deltas, ops, 0, spec_init_ram(deltas), spec_init_irw(deltas)) is Some,
        0 <= j < ops.len(),
    ensures
        ops[j] matches LedgerOperation::Yield { utxo_id, input } ==> exists|r: int|
            0 <= r < j && spec_resume_yields(#[trigger] ops[r], utxo_id, input),
        ops[j] matches LedgerOperation::YieldResume { utxo_id, output } ==> exists|r: int|
            0 <= r < j && spec_resume_feeds(#[trigger] ops[r], utxo_id, output),
{
    lemma_rendezvous_walk(deltas, ops, 0, j, spec_init_ram(deltas), spec_init_irw(deltas));
}

/// Walk the chain keeping the staging invariant: whenever control is away
/// from the coordination script, the coordination row holds exactly the
/// values of the resume that transferred control.
proof fn lemma_rendezvous_walk(
    deltas: Seq<(Fp, UtxoChange)>,
    ops: Seq<Instruction>,
    i: int,
    j: int,
    ram: Seq<ProgramState>,
    irw: InterRoundWires,
)
    requires
        deltas_wf(deltas),
        forall|k: int| 0 <= k < deltas.len() ==> (#[trigger] deltas[k]).0 != (Fp { value: 1 }),
        0 <= i <= j < ops.len(),
        ram.len() == deltas.len() + 2,
        spec_chain_from(deltas, ops, i, ram, irw) is Some,
        irw.current_program != (Fp { value: 1 }) ==> spec_coord_from_resume(
            ops,
            i,
            irw.current_program,
            ram[1],
        ),
    ensures
        ops[j] matches LedgerOperation::Yield { utxo_id, input } ==> exists|r: int|
            0 <= r < j && spec_resume_yields(#[trigger] ops[r], utxo_id, input),
        ops[j] matches LedgerOperation::YieldResume { utxo_id, output } ==> exists|r: int|
            0 <= r < j && spec_resume_feeds(#[trigger] ops[r], utxo_id, output),
    decreases j - i,
{
    let op = ops[i];
    let step = spec_step(deltas, op, ram, irw);
    assert(step is Some);
    let ram2 = (step->0).0;
    let irw2 = (step->0).1;
    if !(op matches LedgerOperation::Nop {  }) {
        let a = spec_addr_of(deltas, spec_op_id(op))->0;
        assert(spec_has_delta(deltas, spec_op_id(op)));
        let idx = spec_delta_index(deltas, spec_op_id(op));
        assert(0 <= idx < deltas.len());
        assert(2 <= a < ram.len());
    }
    if i == j {
        match op {
            LedgerOperation::Yield { utxo_id, input } => {
                assert(irw.current_program == utxo_id);
                assert(ram[1].output == input);
                assert(deltas[spec_delta_index(deltas, utxo_id)].0 == utxo_id);
                assert(utxo_id != (Fp { value: 1 }));
                let r = choose|r: int|
                    0 <= r < i && spec_is_resume_for(#[trigger] ops[r], irw.current_program, ram[1]);
                assert(spec_resume_yields(ops[r], utxo_id, input));
            },
            LedgerOperation::YieldResume { utxo_id, output } => {
                assert(irw.current_program == utxo_id);
                assert(ram[1].input == output);
                assert(deltas[spec_delta_index(deltas, utxo_id)].0 == utxo_id);
                assert(utxo_id != (Fp { value: 1 }));
                let r = choose|r: int|
                    0 <= r < i && spec_is_resume_for(#[trigger] ops[r], irw.current_program, ram[1]);
                assert(spec_resume_feeds(ops[r], utxo_id, output));
            },
            _ => {
            },
        }
    } else {
        assert(ram2.len() == deltas.len() + 2);
        match op {
            LedgerOperation::Resume { utxo_id, input, output } => {
                assert(ram2[1].input == input && ram2[1].output == output);
                assert(irw2.current_program == utxo_id);
                assert(spec_is_resume_for(ops[i], utxo_id, ram2[1]));
                assert(spec_coord_from_resume(ops, i + 1, irw2.current_program, ram2[1]));
            },
            LedgerOperation::Yield { .. } => {
                assert(irw2.current_program == (Fp { value: 1 }));
            },
            LedgerOperation::DropUtxo { .. } => {
                assert(irw2.current_program == (Fp { value: 1 }));
            },
            LedgerOperation::YieldResume { .. } => {
                assert(ram2[1] == ram[1]);
                assert(irw2.current_program == irw.current_program);
                if irw2.current_program != (Fp { value: 1 }) {
                    let r = choose|r: int|
                        0 <= r < i && spec_is_resume_for(
                            #[trigger] ops[r],
                            irw.current_program,
                            ram[1],
                        );
                    assert(spec_is_resume_for(ops[r], irw2.current_program, ram2[1]));
                    assert(spec_coord_from_resume(ops, i + 1, irw2.current_program, ram2[1]));
                }
            },
            LedgerOperation::CheckUtxoOutput { .. } => {
                assert(ram2[1] == ram[1]);
                assert(irw2.current_program == irw.current_program);
            },
            LedgerOperation::Nop {  } => {
            },
        }
        if irw2.current_program != (Fp { value: 1 }) && irw2.current_program == irw.current_program
            && ram2[1] == ram[1] {
            let r = choose|r: int|
                0 <= r < i && spec_is_resume_for(#[trigger] ops[r], irw.current_program, ram[1]);
            assert(spec_is_resume_for(ops[r], irw2.current_program, ram2[1]));
            assert(spec_coord_from_resume(ops, i + 1, irw2.current_program, ram2[1]));
        }
        lemma_rendezvous_walk(deltas, ops, i + 1, j, ram2, irw2);
    }
}

} // verus!

verus! {

/// The operation closes the rendezvous a resume of `id` staged: a yield
/// of `id` carrying `out`, or the explicit drop of `id`.
pub open spec fn spec_rendezvous_for(op: Instruction, id: Fp, out: Fp) -> bool {
    match op {
        LedgerOperation::Yield { utxo_id, input } => utxo_id == id && input == out,
        LedgerOperation::DropUtxo { utxo_id } => utxo_id == id,
        _ => false,
    }
}

/// Forward half of the ledger-operation round trip: in a satisfiable
/// chain, a resume whose UTXO still owes a finalization check is
/// followed by the rendezvous it staged — a later yield of the same
/// UTXO carrying the resume's output as its input — or by that UTXO's
/// explicit drop.
pub proof fn lemma_resume_reaches_rendezvous(
    deltas: Seq<(Fp, UtxoChange)>,
    ops: Seq<Instruction>,
    i: int,
)
    requires
        deltas_wf(deltas),
        forall|k: int| 0 <= k < deltas.len() ==> (#[trigger] deltas[k]).0 != (Fp { value: 1 }),
        spec_chain_from(deltas, ops, 0, spec_init_ram(deltas), spec_init_irw(deltas)) is Some,
        0 <= i < ops.len(),
        ops[i] matches LedgerOperation::Resume { .. },
        exists|c: int| i < c < ops.len() && (#[trigger] ops[c]) matches LedgerOperation::CheckUtxoOutput { .. },
    ensures
        exists|j: int|
            i < j < ops.len() && spec_rendezvous_for(
                #[trigger] ops[j],
                spec_op_id(ops[i]),
                spec_op_output(ops[i]),
            ),
{
    let c = choose|c: int|
        i < c < ops.len() && (#[trigger] ops[c]) matches LedgerOperation::CheckUtxoOutput { .. };
    lemma_rendezvous_outer(deltas, ops, i, c, 0, spec_init_ram(deltas), spec_init_irw(deltas));
}

/// Walk the chain up to the resume, then hand over to the forward walk.
proof fn lemma_rendezvous_outer(
    deltas: Seq<(Fp, UtxoChange)>,
    ops: Seq<Instruction>,
    i: int,
    c: int,
    j0: int,
    ram: Seq<ProgramState>,
    irw: InterRoundWires,
)
    requires
        deltas_wf(deltas),
        forall|k: int| 0 <= k < deltas.len() ==> (#[trigger] deltas[k]).0 != (Fp { value: 1 }),
        0 <= j0 <= i < c < ops.len(),
        ram.len() == deltas.len() + 2,
        spec_chain_from(deltas, ops, j0, ram, irw) is Some,
        ops[i] matches LedgerOperation::Resume { .. },
        ops[c] matches LedgerOperation::CheckUtxoOutput { .. },
    ensures
        exists|j: int|
            i < j < ops.len() && spec_rendezvous_for(
                #[trigger] ops[j],
                spec_op_id(ops[i]),
                spec_op_output(ops[i]),
            ),
    decreases i - j0,
{
    let op = ops[j0];
    let step = spec_step(deltas, op, ram, irw);
    assert(step is Some);
    let ram2 = (step->0).0;
    let irw2 = (step->0).1;
    if !(op matches LedgerOperation::Nop {  }) {
        let a = spec_addr_of(deltas, spec_op_id(op))->0;
        assert(spec_has_delta(deltas, spec_op_id(op)));
        let idx = spec_delta_index(deltas, spec_op_id(op));
        assert(0 <= idx < deltas.len());
        assert(2 <= a < ram.len());
    }
    if j0 == i {
        let id = spec_op_id(op);
        let out = spec_op_output(op);
        assert(deltas[spec_delta_index(deltas, id)].0 == id);
        assert(id != (Fp { value: 1 }));
        assert(ram2[1].output == out);
        assert(irw2.current_program == id);
        lemma_rendezvous_walk_forward(deltas, ops, i, j0 + 1, c, ram2, irw2, id, out);
    } else {
        assert(ram2.len() == deltas.len() + 2);
        lemma_rendezvous_outer(deltas, ops, i, c, j0 + 1, ram2, irw2);
    }
}

/// Walk forward from the step after the resume: while control stays at
/// the resumed UTXO the coordination row keeps its staged output, and
/// before the chain can satisfy any finalization check a yield or drop
/// of that UTXO must occur.
proof fn lemma_rendezvous_walk_forward(
    deltas: Seq<(Fp, UtxoChange)>,
    ops: Seq<Instruction>,
    i: int,
    j0: int,
    c: int,
    ram: Seq<ProgramState>,
    irw: InterRoundWires,
    id: Fp,
    out: Fp,
)
    requires
        deltas_wf(deltas),
        forall|k: int| 0 <= k < deltas.len() ==> (#[trigger] deltas[k]).0 != (Fp { value: 1 }),
        0 <= i < j0 <= c < ops.len(),
        ram.len() == deltas.len() + 2,
        spec_chain_from(deltas, ops, j0, ram, irw) is Some,
        ops[c] matches LedgerOperation::CheckUtxoOutput { .. },
        irw.current_program == id,
        id != (Fp { value: 1 }),
        ram[1].output == out,
        id == spec_op_id(ops[i]),
        out == spec_op_output(ops[i]),
    ensures
        exists|j: int|
            i < j < ops.len() && spec_rendezvous_for(
                #[trigger] ops[j],
                spec_op_id(ops[i]),
                spec_op_output(ops[i]),
            ),
    decreases c - j0,
{
    let op = ops[j0];
    let step = spec_step(deltas, op, ram, irw);
    assert(step is Some);
    let ram2 = (step->0).0;
    let irw2 = (step->0).1;
    if !(op matches LedgerOperation::Nop {  }) {
        let a = spec_addr_of(deltas, spec_op_id(op))->0;
        assert(spec_has_delta(deltas, spec_op_id(op)));
        let idx = spec_delta_index(deltas, spec_op_id(op));
        assert(0 <= idx < deltas.len());
        assert(2 <= a < ram.len());
    }
    match op {
        LedgerOperation::Yield { utxo_id, input } => {
            assert(irw.current_program == utxo_id);
            assert(input == ram[1].output);
            assert(spec_rendezvous_for(ops[j0], spec_op_id(ops[i]), spec_op_output(ops[i])));
        },
        LedgerOperation::DropUtxo { utxo_id } => {
            assert(irw.current_program == utxo_id);
            assert(spec_rendezvous_for(ops[j0], spec_op_id(ops[i]), spec_op_output(ops[i])));
        },
        LedgerOperation::YieldResume { .. } => {
            assert(j0 < c);
            assert(ram2[1] == ram[1]);
            assert(irw2.current_program == id);
            lemma_rendezvous_walk_forward(deltas, ops, i, j0 + 1, c, ram2, irw2, id, out);
        },
        LedgerOperation::Nop {  } => {
            assert(j0 < c) by {
                if j0 == c {
                    assert(ops[c] matches LedgerOperation::Nop {  });
                }
            }
            lemma_rendezvous_walk_forward(deltas, ops, i, j0 + 1, c, ram2, irw2, id, out);
        },
        LedgerOperation::Resume { .. } => {
            assert(irw.current_program == (Fp { value: 1 }));
            assert(false);
        },
        LedgerOperation::CheckUtxoOutput { .. } => {
            assert(irw.current_program == (Fp { value: 1 }));
            assert(false);
        },
    }
}

} // verus!

verus! {

/// Duplicate-finalize detection, as the circuit enforces it: a chain
/// that checks the same UTXO twice, with none of that UTXO's own
/// rendezvous operations rewriting its row in between, is
/// unsatisfiable — the first check turns the row's finalized flag on,
/// and the second check requires it off.
pub proof fn lemma_duplicate_finalize_rejected(
    deltas: Seq<(Fp, UtxoChange)>,
    ops: Seq<Instruction>,
    i: int,
    j: int,
)
    requires
        deltas_wf(deltas),
        0 <= i < j < ops.len(),
        ops[i] matches LedgerOperation::CheckUtxoOutput { .. },
        ops[j] matches LedgerOperation::CheckUtxoOutput { .. },
        spec_op_id(ops[j]) == spec_op_id(ops[i]),
        forall|t: int|
            i < t < j ==> (spec_op_id(#[trigger] ops[t]) == spec_op_id(ops[i])
                ==> !spec_writes_utxo(ops[t])),
    ensures
        spec_chain_from(deltas, ops, 0, spec_init_ram(deltas), spec_init_irw(deltas)) is None,
{
    lemma_dupcheck_outer(deltas, ops, i, j, 0, spec_init_ram(deltas), spec_init_irw(deltas));
}

/// Walk the chain up to the first finalization check of the pair: from
/// there on the chain cannot be satisfied.
proof fn lemma_dupcheck_outer(
    deltas: Seq<(Fp, UtxoChange)>,
    ops: Seq<Instruction>,
    i: int,
    j: int,
    k: int,
    ram: Seq<ProgramState>,
    irw: InterRoundWires,
)
    requires
        deltas_wf(deltas),
        0 <= k <= i < j < ops.len(),
        ram.len() == deltas.len() + 2,
        ops[i] matches LedgerOperation::CheckUtxoOutput { .. },
        ops[j] matches LedgerOperation::CheckUtxoOutput { .. },
        spec_op_id(ops[j]) == spec_op_id(ops[i]),
        forall|t: int|
            i < t < j ==> (spec_op_id(#[trigger] ops[t]) == spec_op_id(ops[i])
                ==> !spec_writes_utxo(ops[t])),
    ensures
        spec_chain_from(deltas, ops, k, ram, irw) is None,
    decreases i - k,
{
    let op = ops[k];
    let step = spec_step(deltas, op, ram, irw);
    if step is Some {
        let ram2 = (step->0).0;
        let irw2 = (step->0).1;
        if !(op matches LedgerOperation::Nop {  }) {
            let a = spec_addr_of(deltas, spec_op_id(op))->0;
            assert(spec_has_delta(deltas, spec_op_id(op)));
            let idx = spec_delta_index(deltas, spec_op_id(op));
            assert(0 <= idx < deltas.len());
            assert(2 <= a < ram.len());
        }
        if k == i {
            let u = spec_op_id(op);
            let a = spec_addr_of(deltas, u)->0;
            assert(ram2[a].finalized);
            lemma_dupcheck_hold(deltas, ops, i, j, k + 1, ram2, irw2);
        } else {
            assert(ram2.len() == deltas.len() + 2);
            lemma_dupcheck_outer(deltas, ops, i, j, k + 1, ram2, irw2);
        }
    }
}

/// Distinct identifiers live at distinct dense addresses.
proof fn lemma_addr_injective(deltas: Seq<(Fp, UtxoChange)>, u1: Fp, u2: Fp)
    requires
        deltas_wf(deltas),
        u1 != u2,
        spec_addr_of(deltas, u1) is Some,
        spec_addr_of(deltas, u2) is Some,
    ensures
        spec_addr_of(deltas, u1) != spec_addr_of(deltas, u2),
{
    let i1 = spec_delta_index(deltas, u1);
    let i2 = spec_delta_index(deltas, u2);
    assert(spec_has_delta(deltas, u1));
    assert(spec_has_delta(deltas, u2));
    assert(deltas[i1].0 == u1);
    assert(deltas[i2].0 == u2);
}

/// After a finalization check, the row's flag stays on until an
/// operation of the same UTXO rewrites its row; a second check then
/// cannot be satisfied.
proof fn lemma_dupcheck_hold(
    deltas: Seq<(Fp, UtxoChange)>,
    ops: Seq<Instruction>,
    i: int,
    j: int,
    k: int,
    ram: Seq<ProgramState>,
    irw: InterRoundWires,
)
    requires
        deltas_wf(deltas),
        0 <= i < k <= j < ops.len(),
        ram.len() == deltas.len() + 2,
        ops[i] matches LedgerOperation::CheckUtxoOutput { .. },
        ops[j] matches LedgerOperation::CheckUtxoOutput { .. },
        spec_op_id(ops[j]) == spec_op_id(ops[i]),
        spec_addr_of(deltas, spec_op_id(ops[i])) is Some,
        ram[spec_addr_of(deltas, spec_op_id(ops[i]))->0].finalized,
        forall|t: int|
            i < t < j ==> (spec_op_id(#[trigger] ops[t]) == spec_op_id(ops[i])
                ==> !spec_writes_utxo(ops[t])),
    ensures
        spec_chain_from(deltas, ops, k, ram, irw) is None,
    decreases j - k,
{
    let u = spec_op_id(ops[i]);
    let a = spec_addr_of(deltas, u)->0;
    assert(spec_has_delta(deltas, u));
    let idx = spec_delta_index(deltas, u);
    assert(0 <= idx < deltas.len());
    assert(2 <= a < ram.len());
    let op = ops[k];
    let step = spec_step(deltas, op, ram, irw);
    if k == j {
        assert(spec_cond_read(ram, true, a)[1] == spec_bool_fp(true));
        assert(step is None);
    } else {
        if step is Some {
            let ram2 = (step->0).0;
            let irw2 = (step->0).1;
            if !(op matches LedgerOperation::Nop {  }) {
                let a2 = spec_addr_of(deltas, spec_op_id(op))->0;
                assert(spec_has_delta(deltas, spec_op_id(op)));
                let idx2 = spec_delta_index(deltas, spec_op_id(op));
                assert(0 <= idx2 < deltas.len());
                assert(2 <= a2 < ram.len());
                if spec_op_id(op) == u {
                    assert(!spec_writes_utxo(op));
                    assert(ram2[a] == ram[a]);
                } else {
                    lemma_addr_injective(deltas, spec_op_id(op), u);
                    assert(a2 != a);
                    assert(ram2[a] == ram[a]);
                }
            }
            assert(ram2[a].finalized);
            lemma_dupcheck_hold(deltas, ops, i, j, k + 1, ram2, irw2);
        }
    }
}

} // verus!

verus! {

/// The storage and inter-round state just before step `i` of a chain
/// run from the initial state; nothing when an earlier step failed.
pub open spec fn spec_chain_state(
    deltas: Seq<(Fp, UtxoChange)>,
    ops: Seq<Instruction>,
    i: int,
) -> Option<(Seq<ProgramState>, InterRoundWires)>
    decreases i,
{
    if i <= 0 {
        Some((spec_init_ram(deltas), spec_init_irw(deltas)))
    } else {
        match spec_chain_state(deltas, ops, i - 1) {
            Option::None => None,
            Option::Some(st) => spec_step(deltas, ops[i - 1], st.0, st.1),
        }
    }
}

/// Whether step `i`'s constraint system is satisfied by its witness
/// along the run.
pub open spec fn spec_step_sat_at(
    deltas: Seq<(Fp, UtxoChange)>,
    ops: Seq<Instruction>,
    i: int,
) -> bool {
    match spec_chain_state(deltas, ops, i) {
        Option::Some(st) => spec_step(deltas, ops[i], st.0, st.1) is Some,
        Option::None => false,
    }
}

/// A satisfiable chain reaches every intermediate state and satisfies
/// every step up to it.
proof fn lemma_sat_prefix(deltas: Seq<(Fp, UtxoChange)>, ops: Seq<Instruction>, i: int)
    requires
        spec_chain_from(deltas, ops, 0, spec_init_ram(deltas), spec_init_irw(deltas)) is Some,
        0 <= i <= ops.len(),
    ensures
        spec_chain_state(deltas, ops, i) matches Some(st) && spec_chain_from(
            deltas,
            ops,
            i,
            st.0,
            st.1,
        ) is Some,
    decreases i,
{
    if i > 0 {
        lemma_sat_prefix(deltas, ops, i - 1);
    }
}

/// When every remaining step is satisfied, the chain from here is
/// satisfiable.
proof fn lemma_all_sat_chain(deltas: Seq<(Fp, UtxoChange)>, ops: Seq<Instruction>, k: int)
    requires
        0 <= k <= ops.len(),
        spec_chain_state(deltas, ops, k) is Some,
        forall|i: int| k <= i < ops.len() ==> spec_step_sat_at(deltas, ops, i),
    ensures
        spec_chain_from(
            deltas,
            ops,
            k,
            (spec_chain_state(deltas, ops, k)->0).0,
            (spec_chain_state(deltas, ops, k)->0).1,
        ) is Some,
    decreases ops.len() - k,
{
    if k < ops.len() {
        assert(spec_step_sat_at(deltas, ops, k));
        lemma_all_sat_chain(deltas, ops, k + 1);
    }
}

/// Folding composition, locally: the chain is satisfiable exactly when
/// every per-step constraint system is satisfied by the state its
/// witness runs from.  Acceptance is this together with the terminal
/// finalization count.
pub proof fn lemma_chain_iff_all_steps(deltas: Seq<(Fp, UtxoChange)>, ops: Seq<Instruction>)
    ensures
        (spec_chain_from(deltas, ops, 0, spec_init_ram(deltas), spec_init_irw(deltas)) is Some)
            <==> (forall|i: int| 0 <= i < ops.len() ==> spec_step_sat_at(deltas, ops, i)),
{
    if spec_chain_from(deltas, ops, 0, spec_init_ram(deltas), spec_init_irw(deltas)) is Some {
        assert forall|i: int| 0 <= i < ops.len() implies spec_step_sat_at(deltas, ops, i) by {
            lemma_sat_prefix(deltas, ops, i);
            let st = spec_chain_state(deltas, ops, i)->0;
            assert(spec_chain_from(deltas, ops, i, st.0, st.1) is Some);
        }
    }
    if forall|i: int| 0 <= i < ops.len() ==> spec_step_sat_at(deltas, ops, i) {
        lemma_all_sat_chain(deltas, ops, 0);
    }
}

} // verus!
