//! A miniature coroutine VM that illustrates the ledger data flow: mock
//! programs yield, resume, create and burn UTXOs, and the run distills
//! their interleaving into per-UTXO deltas, a ledger-operation sequence,
//! and per-program trace commitments.
//!
//! A resume's `output` is a forward reference resolved when the resumed
//! UTXO next yields; the operation list therefore carries `Thunk` values
//! until the run completes.

use vstd::prelude::*;

use crate::commit::ProgramTraceCommitments;
use crate::field::Fp;
use crate::ledger::{Instruction, LedgerOperation, Transaction, UtxoChange, deltas_wf, op_wf, ops_wf};

verus! {

/// A virtual register of a mock program.
#[derive(Clone, Copy, Debug, PartialEq, Eq, Structural)]
pub struct Variable(pub usize);

/// A forward reference to a field element: resolved in place when the
/// value becomes known.
#[derive(Clone, Copy, Debug)]
pub enum Thunk {
    Resolved(Fp),
    Unresolved,
}

impl Thunk {
    /// A value that is not known yet.
    pub fn unresolved() -> (r: Thunk)
        ensures
            r is Unresolved,
    {
        Thunk::Unresolved
    }

    /// Fill in the value.  Resolving twice is a fault, so the reference
    /// must still be open.
    pub fn resolve(&mut self, f: Fp)
        requires
            *old(self) is Unresolved,
        ensures
            *final(self) == Thunk::Resolved(f),
    {
        *self = Thunk::Resolved(f);
    }

    /// A resolved value is canonical.
    pub open spec fn wf(self) -> bool {
        match self {
            Thunk::Resolved(f) => f.inv(),
            Thunk::Unresolved => true,
        }
    }
}

/// One instruction of a mock program.
#[derive(Clone, Copy, Debug)]
pub enum Op {
    /// Store a constant in a register.
    SetVar { var: Variable, value: Fp },
    /// Add a constant to a register.
    IncrementVar { var: Variable, amount: Fp },
    /// Jump to an instruction index.
    JumpTo { pc: usize },
    /// Create a UTXO and store its identifier in a register.
    New { initial_state: Fp, output_var: Variable },
    /// Yield a register's value to the program that resumed us.
    Yield { val: Variable },
    /// Resume the UTXO named by one register, passing another's value.
    Resume { utxo: Variable, val: Variable },
    /// End this UTXO's lifetime and return to the resumer.
    Burn {},
}

/// Every constant an instruction carries is canonical.
pub open spec fn mock_op_wf(op: Op) -> bool {
    match op {
        Op::SetVar { var: _, value } => value.inv(),
        Op::IncrementVar { var: _, amount } => amount.inv(),
        Op::New { initial_state, output_var: _ } => initial_state.inv(),
        _ => true,
    }
}

/// Every register holds a canonical value.
pub open spec fn vars_wf(vars: Seq<(Variable, Fp)>) -> bool {
    forall|i: int| 0 <= i < vars.len() ==> (#[trigger] vars[i]).1.inv()
}

/// The mutable execution state of a mock program.
pub struct MockedProgramState {
    pub pc: usize,
    pub yield_skip: bool,
    /// Index in the operation list of this program's open resume, if any.
    pub thunk: Option<usize>,
    pub vars: Vec<(Variable, Fp)>,
    pub input: Option<Fp>,
}

/// A mock program: its code and its execution state.
pub struct MockedProgram {
    pub code: Vec<Op>,
    pub state: MockedProgramState,
}

impl MockedProgram {
    /// Code constants and register values are canonical.
    pub open spec fn wf(self) -> bool {
        &&& forall|i: int| 0 <= i < self.code@.len() ==> mock_op_wf(#[trigger] self.code@[i])
        &&& vars_wf(self.state.vars@)
        &&& match self.state.input {
            Option::Some(v) => v.inv(),
            Option::None => true,
        }
    }

    /// A program at its entry point.  `yielded` marks a UTXO program that
    /// is already suspended in a yield.
    pub fn new(code: Vec<Op>, yielded: bool) -> (r: MockedProgram)
        requires
            forall|i: int| 0 <= i < code@.len() ==> mock_op_wf(#[trigger] code@[i]),
        ensures
            r.wf(),
            r.code@ == code@,
            r.state.pc == 0,
            r.state.yield_skip == yielded,
            r.state.thunk is None,
            r.state.vars@.len() == 0,
            r.state.input is None,
    {
        MockedProgram {
            code,
            state: MockedProgramState {
                pc: 0,
                yield_skip: yielded,
                thunk: None,
                vars: Vec::new(),
                input: None,
            },
        }
    }
}

/// The committed state of one UTXO in the mock ledger.
#[derive(Clone, Copy, Debug)]
pub struct UtxoState {
    /// The value of its last yield.
    pub output: Fp,
    /// Its private memory: the initial state it was created with.
    pub memory: Fp,
}

/// The ledger rows are sorted by strictly ascending program identifier
/// and hold canonical values.
pub open spec fn utxos_sorted(utxos: Seq<(Fp, UtxoState)>) -> bool {
    &&& forall|i: int, j: int|
        0 <= i < j < utxos.len() ==> (#[trigger] utxos[i]).0.value < (#[trigger] utxos[j]).0.value
    &&& forall|i: int|
        0 <= i < utxos.len() ==> {
            &&& (#[trigger] utxos[i]).0.inv()
            &&& utxos[i].1.output.inv()
            &&& utxos[i].1.memory.inv()
        }
}

/// The mock ledger: the UTXOs that exist between transactions.
pub struct MockedLedger {
    pub utxos: Vec<(Fp, UtxoState)>,
}

/// An operation whose forward references, where resolved, hold canonical
/// values.
pub open spec fn thunk_op_wf(op: LedgerOperation<Thunk>) -> bool {
    match op {
        LedgerOperation::Resume { utxo_id, input, output } => utxo_id.wf() && input.wf()
            && output.wf(),
        LedgerOperation::Yield { utxo_id, input } => utxo_id.wf() && input.wf(),
        LedgerOperation::YieldResume { utxo_id, output } => utxo_id.wf() && output.wf(),
        LedgerOperation::DropUtxo { utxo_id } => utxo_id.wf(),
        LedgerOperation::Nop {  } => true,
        LedgerOperation::CheckUtxoOutput { utxo_id } => utxo_id.wf(),
    }
}

/// Read a register: its first binding's value.
fn var_get(vars: &Vec<(Variable, Fp)>, var: Variable) -> (r: Option<Fp>)
    requires
        vars_wf(vars@),
    ensures
        r == spec_var_value(vars@, var),
        match r {
            Option::Some(v) => v.inv(),
            Option::None => true,
        },
{
    let mut i: usize = 0;
    while i < vars.len()
        invariant
            i <= vars.len(),
            vars_wf(vars@),
            forall|j: int| 0 <= j < i ==> (#[trigger] vars@[j]).0 != var,
        decreases vars.len() - i,
    {
        if vars[i].0 == var {
            proof {
                lemma_assoc_at_unique(vars@, var, i as int);
            }
            return Some(vars[i].1);
        }
        i = i + 1;
    }
    proof {
        if exists|j: int| spec_assoc_at(vars@, var, j) {
            let j = choose|j: int| spec_assoc_at(vars@, var, j);
            assert(vars@[j].0 != var);
        }
    }
    None
}

/// Write a register: replace its first binding, or create one.
fn var_set(vars: &mut Vec<(Variable, Fp)>, var: Variable, value: Fp)
    requires
        vars_wf(old(vars)@),
        value.inv(),
    ensures
        vars_wf(final(vars)@),
        final(vars)@ == spec_var_store(old(vars)@, var, value),
{
    let mut i: usize = 0;
    while i < vars.len()
        invariant
            i <= vars.len(),
            vars@ == old(vars)@,
            vars_wf(vars@),
            value.inv(),
            forall|j: int| 0 <= j < i ==> (#[trigger] vars@[j]).0 != var,
        decreases vars.len() - i,
    {
        if vars[i].0 == var {
            proof {
                lemma_assoc_at_unique(vars@, var, i as int);
            }
            vars[i] = (var, value);
            proof {
                assert(vars@ =~= spec_var_store(old(vars)@, var, value));
            }
            return ;
        }
        i = i + 1;
    }
    proof {
        if exists|j: int| spec_assoc_at(vars@, var, j) {
            let j = choose|j: int| spec_assoc_at(vars@, var, j);
            assert(vars@[j].0 != var);
        }
    }
    vars.push((var, value));
    proof {
        assert(vars@ =~= spec_var_store(old(vars)@, var, value));
    }
}

/// Find the first ledger row of an identifier.
fn utxo_find(utxos: &Vec<(Fp, UtxoState)>, id: Fp) -> (r: Option<usize>)
    ensures
        match r {
            Option::Some(i) => spec_assoc_index(utxos@, id) == Some(i as int) && i < utxos@.len()
                && utxos@[i as int].0 == id,
            Option::None => spec_assoc_index(utxos@, id) is None,
        },
{
    let mut i: usize = 0;
    while i < utxos.len()
        invariant
            i <= utxos.len(),
            forall|j: int| 0 <= j < i ==> (#[trigger] utxos@[j]).0 != id,
        decreases utxos.len() - i,
    {
        if utxos[i].0 == id {
            proof {
                lemma_assoc_at_unique(utxos@, id, i as int);
            }
            return Some(i);
        }
        i = i + 1;
    }
    proof {
        if exists|j: int| spec_assoc_at(utxos@, id, j) {
            let j = choose|j: int| spec_assoc_at(utxos@, id, j);
            assert(utxos@[j].0 != id);
        }
    }
    None
}

/// Insert a fresh ledger row, keeping the rows sorted.  An identifier
/// already present is a fault.
fn utxo_insert(utxos: &mut Vec<(Fp, UtxoState)>, id: Fp, st: UtxoState) -> (r: bool)
    requires
        utxos_sorted(old(utxos)@),
        id.inv(),
        st.output.inv(),
        st.memory.inv(),
    ensures
        utxos_sorted(final(utxos)@),
        r ==> spec_utxo_ins(old(utxos)@, id, st) == Some(final(utxos)@),
        r ==> final(utxos)@.len() == old(utxos)@.len() + 1,
        !r ==> final(utxos)@ == old(utxos)@ && spec_utxo_ins(old(utxos)@, id, st) is None,
{
    let mut i: usize = 0;
    while i < utxos.len()
        invariant
            i <= utxos.len(),
            utxos@ == old(utxos)@,
            utxos_sorted(utxos@),
            id.inv(),
            st.output.inv(),
            st.memory.inv(),
            forall|j: int| 0 <= j < i ==> (#[trigger] utxos@[j]).0.value < id.value,
        decreases utxos.len() - i,
    {
        if utxos[i].0.value == id.value {
            proof {
                assert(utxos@[i as int].0.value == id.value);
            }
            return false;
        }
        if utxos[i].0.value > id.value {
            proof {
                assert(spec_ins_pos_at(utxos@, id, i as int));
                assert(!(exists|j: int|
                    0 <= j < utxos@.len() && (#[trigger] utxos@[j]).0.value == id.value)) by {
                    if exists|j: int|
                        0 <= j < utxos@.len() && (#[trigger] utxos@[j]).0.value == id.value {
                        let j = choose|j: int|
                            0 <= j < utxos@.len() && (#[trigger] utxos@[j]).0.value == id.value;
                        if j >= i {
                            if j > i {
                                assert(utxos@[i as int].0.value < utxos@[j].0.value);
                            }
                        }
                    }
                }
                let c = choose|w: int| spec_ins_pos_at(utxos@, id, w);
                if c < i as int {
                    assert(utxos@[c].0.value < id.value && utxos@[c].0.value > id.value);
                } else if c > i as int {
                    assert(utxos@[i as int].0.value < id.value);
                }
                assert(c == i as int);
            }
            utxos.insert(i, (id, st));
            proof {
                assert forall|a: int, b: int|
                    0 <= a < b < utxos@.len() implies (#[trigger] utxos@[a]).0.value < (
                #[trigger] utxos@[b]).0.value by {
                    if a < i && b == i {
                    } else if a == i && b > i {
                    }
                }
            }
            return true;
        }
        i = i + 1;
    }
    proof {
        assert(spec_ins_pos_at(utxos@, id, utxos@.len() as int));
        assert(!(exists|j: int|
            0 <= j < utxos@.len() && (#[trigger] utxos@[j]).0.value == id.value)) by {
            if exists|j: int| 0 <= j < utxos@.len() && (#[trigger] utxos@[j]).0.value == id.value {
                let j = choose|j: int|
                    0 <= j < utxos@.len() && (#[trigger] utxos@[j]).0.value == id.value;
                assert(utxos@[j].0.value < id.value);
            }
        }
        let c = choose|w: int| spec_ins_pos_at(utxos@, id, w);
        if c < utxos@.len() as int {
            assert(utxos@[c].0.value < id.value && utxos@[c].0.value > id.value);
        }
        assert(c == utxos@.len() as int);
    }
    utxos.push((id, st));
    proof {
        assert(utxos@ =~= old(utxos)@.insert(old(utxos)@.len() as int, (id, st)));
    }
    true
}

} // verus!

verus! {

/// Whether a field element is in the list.
fn fp_contains(v: &Vec<Fp>, x: Fp) -> (r: bool)
    ensures
        r == spec_fp_in(v@, x),
{
    let mut i: usize = 0;
    while i < v.len()
        invariant
            i <= v.len(),
            forall|j: int| 0 <= j < i ==> v@[j] != x,
        decreases v.len() - i,
    {
        if v[i] == x {
            return true;
        }
        i = i + 1;
    }
    false
}

/// Find the first program of an identifier.
fn prog_find(programs: &Vec<(Fp, MockedProgram)>, id: Fp) -> (r: Option<usize>)
    ensures
        match r {
            Option::Some(i) => spec_assoc_index(programs@, id) == Some(i as int) && i
                < programs@.len(),
            Option::None => spec_assoc_index(programs@, id) is None,
        },
{
    let mut i: usize = 0;
    while i < programs.len()
        invariant
            i <= programs.len(),
            forall|j: int| 0 <= j < i ==> (#[trigger] programs@[j]).0 != id,
        decreases programs.len() - i,
    {
        if programs[i].0 == id {
            proof {
                lemma_assoc_at_unique(programs@, id, i as int);
            }
            return Some(i);
        }
        i = i + 1;
    }
    proof {
        if exists|j: int| spec_assoc_at(programs@, id, j) {
            let j = choose|j: int| spec_assoc_at(programs@, id, j);
            assert(programs@[j].0 != id);
        }
    }
    None
}

/// All programs of a table are well formed.
pub open spec fn programs_wf(programs: Seq<(Fp, MockedProgram)>) -> bool {
    forall|i: int| 0 <= i < programs.len() ==> (#[trigger] programs[i]).1.wf()
}

/// All staged operations of a list are well formed.
pub open spec fn thunk_ops_wf(ops: Seq<LedgerOperation<Thunk>>) -> bool {
    forall|i: int| 0 <= i < ops.len() ==> thunk_op_wf(#[trigger] ops[i])
}

impl MockedLedger {
    /// An empty mock ledger.
    pub fn new() -> (r: MockedLedger)
        ensures
            utxos_sorted(r.utxos@),
            r.utxos@.len() == 0,
    {
        MockedLedger { utxos: Vec::new() }
    }

    /// Run the mock VM to completion: drive the entry program and the
    /// coroutines it resumes until the entry program runs off the end of
    /// its code, then distill the interleaving into per-UTXO deltas, a
    /// resolved ledger-operation sequence (with one finalization check
    /// per UTXO appended), and per-program trace commitments.
    ///
    /// The loop refines [`spec_vm_step`], one turn per unit of `fuel`:
    /// the run completes exactly when the interpreter reaches its end
    /// state within the fuel bound and every forward reference resolves,
    /// and then the deltas are [`spec_deltas`] of that end state against
    /// the prior ledger, the operations are its resolved recording, and
    /// the burned rows are gone from the ledger ([`spec_keep`]).  `None`
    /// means the run faulted: fuel ran out, a program or register was
    /// missing, a forward reference could not be resolved, a UTXO was
    /// created from outside the coordination script, or a non-entry
    /// program ran off its code.
    pub fn run_mocked_vm(
        &mut self,
        entry_point: Fp,
        programs: Vec<(Fp, MockedProgram)>,
        fuel: u64,
    ) -> (r: Option<(Transaction<Vec<Instruction>>, ProgramTraceCommitments)>)
        requires
            utxos_sorted(old(self).utxos@),
            programs_wf(programs@),
            entry_point.inv(),
            old(self).utxos@.len() + fuel < 0x8000_0000,
        ensures
            utxos_sorted(final(self).utxos@),
            (r is Some) <==> (spec_vm_iter(
                spec_vm_of(
                    programs@,
                    old(self).utxos@,
                    Seq::empty(),
                    Seq::empty(),
                    entry_point,
                    true,
                    None,
                ),
                fuel as int,
            ) matches Some(end) && spec_resolve(end.instructions) is Some),
            r matches Some((tx, coms)) ==> (spec_vm_iter(
                spec_vm_of(
                    programs@,
                    old(self).utxos@,
                    Seq::empty(),
                    Seq::empty(),
                    entry_point,
                    true,
                    None,
                ),
                fuel as int,
            ) matches Some(end) && {
                &&& tx.utxo_deltas@ == spec_deltas(old(self).utxos@, end.utxos, end.consumed)
                &&& spec_resolve(end.instructions) matches Some(ops) && {
                    &&& tx.proof_like@.len() == ops.len() + tx.utxo_deltas@.len()
                    &&& tx.proof_like@.take(ops.len() as int) == ops
                    &&& forall|k: int|
                        0 <= k < tx.utxo_deltas@.len() ==> #[trigger] tx.proof_like@[ops.len() + k]
                            == (LedgerOperation::CheckUtxoOutput { utxo_id: tx.utxo_deltas@[k].0 })
                }
                &&& final(self).utxos@ == spec_keep(end.utxos, end.consumed)
                &&& deltas_wf(tx.utxo_deltas@)
                &&& ops_wf(tx.proof_like@)
                &&& tx.utxo_deltas@.len() < 0x8000_0000
                &&& coms.wf()
            }),
    {
        let ghost init_vm = spec_vm_of(
            programs@,
            old(self).utxos@,
            Seq::empty(),
            Seq::empty(),
            entry_point,
            true,
            None,
        );
        let state_pre = crate::circuit::copy_vec(&self.utxos);
        let mut progs = programs;
        let mut instructions: Vec<LedgerOperation<Thunk>> = Vec::new();
        let mut consumed: Vec<Fp> = Vec::new();
        let mut current: Fp = entry_point;
        let mut in_coord: bool = true;
        let mut prev: Option<Fp> = None;
        let mut done: bool = false;
        let mut steps: u64 = 0;
        proof {
            assert(instructions@ =~= Seq::<LedgerOperation<Thunk>>::empty());
            assert(consumed@ =~= Seq::<Fp>::empty());
            assert(spec_vm_of(
                progs@,
                self.utxos@,
                instructions@,
                consumed@,
                current,
                in_coord,
                prev,
            ) =~= init_vm);
        }

        while !done && steps < fuel
            invariant
                init_vm == spec_vm_of(
                    programs@,
                    old(self).utxos@,
                    Seq::empty(),
                    Seq::empty(),
                    entry_point,
                    true,
                    None,
                ),
                programs_wf(progs@),
                utxos_sorted(self.utxos@),
                thunk_ops_wf(instructions@),
                current.inv(),
                match prev {
                    Option::Some(v) => v.inv(),
                    Option::None => true,
                },
                steps <= fuel,
                self.utxos@.len() <= old(self).utxos@.len() + steps,
                old(self).utxos@.len() + fuel < 0x8000_0000,
                state_pre@ == old(self).utxos@,
                !done ==> spec_vm_iter(init_vm, fuel as int) == spec_vm_iter(
                    spec_vm_of(
                        progs@,
                        self.utxos@,
                        instructions@,
                        consumed@,
                        current,
                        in_coord,
                        prev,
                    ),
                    fuel - steps,
                ),
                done ==> spec_vm_iter(init_vm, fuel as int) == Some(
                    spec_vm_of(
                        progs@,
                        self.utxos@,
                        instructions@,
                        consumed@,
                        current,
                        in_coord,
                        prev,
                    ),
                ),
            decreases fuel - steps,
        {
            let ghost pre_vm = spec_vm_of(
                progs@,
                self.utxos@,
                instructions@,
                consumed@,
                current,
                in_coord,
                prev,
            );
            let ghost m: int = fuel - steps;
            let p = match prog_find(&progs, current) {
                Option::Some(p) => p,
                Option::None => {
                    proof {
                        lemma_view_assoc(progs@, current);
                        assert(spec_vm_step(pre_vm) == SpecVmStep::Fault);
                        assert(spec_vm_iter(pre_vm, m) is None);
                    }
                    return None;
                },
            };
            proof {
                lemma_view_assoc(progs@, current);
                assert(spec_assoc_index(pre_vm.programs, current) == Some(p as int));
            }
            let ghost pre_prog = pre_vm.programs[p as int].1;
            proof {
                assert(pre_vm.programs[p as int] == (progs@[p as int].0, progs@[p as int].1.spec_view()));
            }
            let pc = progs[p].1.state.pc;
            if pc >= progs[p].1.code.len() {
                if in_coord {
                    proof {
                        assert(spec_vm_step(pre_vm) == SpecVmStep::Done(pre_vm));
                        assert(spec_vm_iter(pre_vm, m) == Some(pre_vm));
                    }
                    done = true;
                } else {
                    proof {
                        assert(spec_vm_step(pre_vm) == SpecVmStep::Fault);
                        assert(spec_vm_iter(pre_vm, m) is None);
                    }
                    return None;
                }
            } else {
                let op = progs[p].1.code[pc];
                proof {
                    assert(pre_prog.code[pre_prog.pc] == op);
                }
                match op {
                    Op::SetVar { var, value } => {
                        let ghost pre_programs = progs@;
                        let mut prog = progs.remove(p);
                        let ghost mid = progs@;
                        var_set(&mut prog.1.state.vars, var, value);
                        prog.1.state.pc = pc + 1;
                        let ghost progg = prog;
                        progs.insert(p, prog);
                        proof {
                            lemma_remove_insert(pre_programs, mid, progs@, p as int, progg);
                            lemma_view_update(pre_programs, p as int, progg);
                            assert(progg.1.spec_view() =~= SpecProgram {
                                vars: spec_var_store(pre_prog.vars, var, value),
                                pc: pre_prog.pc + 1,
                                ..pre_prog
                            });
                            assert(spec_vm_step(pre_vm) matches SpecVmStep::Next(nv) && nv
                                =~= spec_vm_of(
                                progs@,
                                self.utxos@,
                                instructions@,
                                consumed@,
                                current,
                                in_coord,
                                prev,
                            ));
                        }
                    },
                    Op::IncrementVar { var, amount } => {
                        let ghost pre_programs = progs@;
                        let mut prog = progs.remove(p);
                        let ghost mid = progs@;
                        proof {
                            assert(forall|i: int|
                                0 <= i < prog.1.code@.len() ==> mock_op_wf(
                                    #[trigger] prog.1.code@[i],
                                ));
                            assert(mock_op_wf(op));
                        }
                        match var_get(&prog.1.state.vars, var) {
                            Option::Some(v) => {
                                var_set(&mut prog.1.state.vars, var, v.add(amount));
                                proof {
                                    let vi = spec_assoc_index(pre_prog.vars, var)->0;
                                    assert(pre_prog.vars[vi].1 == v);
                                    assert(prog.1.state.vars@ =~= pre_prog.vars.update(
                                        vi,
                                        (var, crate::field::spec_fp_add(pre_prog.vars[vi].1, amount)),
                                    ));
                                }
                            },
                            Option::None => {
                            },
                        }
                        prog.1.state.pc = pc + 1;
                        let ghost progg = prog;
                        progs.insert(p, prog);
                        proof {
                            lemma_remove_insert(pre_programs, mid, progs@, p as int, progg);
                            lemma_view_update(pre_programs, p as int, progg);
                            assert(spec_vm_step(pre_vm) matches SpecVmStep::Next(nv) && nv
                                =~= spec_vm_of(
                                progs@,
                                self.utxos@,
                                instructions@,
                                consumed@,
                                current,
                                in_coord,
                                prev,
                            ));
                        }
                    },
                    Op::JumpTo { pc: target } => {
                        let ghost pre_programs = progs@;
                        let mut prog = progs.remove(p);
                        let ghost mid = progs@;
                        prog.1.state.pc = target;
                        let ghost progg = prog;
                        progs.insert(p, prog);
                        proof {
                            lemma_remove_insert(pre_programs, mid, progs@, p as int, progg);
                            lemma_view_update(pre_programs, p as int, progg);
                            assert(progg.1.spec_view() =~= SpecProgram {
                                pc: target as int,
                                ..pre_prog
                            });
                            assert(spec_vm_step(pre_vm) matches SpecVmStep::Next(nv) && nv
                                =~= spec_vm_of(
                                progs@,
                                self.utxos@,
                                instructions@,
                                consumed@,
                                current,
                                in_coord,
                                prev,
                            ));
                        }
                    },
                    Op::New { initial_state, output_var } => {
                        if !in_coord {
                            proof {
                                assert(spec_vm_step(pre_vm) == SpecVmStep::Fault);
                                assert(spec_vm_iter(pre_vm, m) is None);
                            }
                            return None;
                        }
                        let id = Fp::from_u64((2 + self.utxos.len()) as u64);
                        let ghost pre_programs = progs@;
                        let ghost pre_utxos = self.utxos@;
                        let mut prog = progs.remove(p);
                        let ghost mid = progs@;
                        var_set(&mut prog.1.state.vars, output_var, id);
                        prog.1.state.pc = pc + 1;
                        let ghost progg = prog;
                        progs.insert(p, prog);
                        proof {
                            lemma_remove_insert(pre_programs, mid, progs@, p as int, progg);
                            lemma_view_update(pre_programs, p as int, progg);
                        }
                        let fresh = UtxoState { output: Fp { value: 0 }, memory: initial_state };
                        if !utxo_insert(&mut self.utxos, id, fresh) {
                            proof {
                                assert(spec_vm_step(pre_vm) == SpecVmStep::Fault);
                                assert(spec_vm_iter(pre_vm, m) is None);
                            }
                            return None;
                        }
                        proof {
                            assert(spec_utxo_ins(pre_utxos, id, fresh) == Some(self.utxos@));
                            assert(spec_vm_step(pre_vm) matches SpecVmStep::Next(nv) && nv
                                =~= spec_vm_of(
                                progs@,
                                self.utxos@,
                                instructions@,
                                consumed@,
                                current,
                                in_coord,
                                prev,
                            ));
                        }
                    },
                    Op::Yield { val } => {
                        let yield_to = match prev {
                            Option::Some(v) => v,
                            Option::None => {
                                proof {
                                    assert(spec_vm_step(pre_vm) == SpecVmStep::Fault);
                                    assert(spec_vm_iter(pre_vm, m) is None);
                                }
                                return None;
                            },
                        };
                        let yield_val = match var_get(&progs[p].1.state.vars, val) {
                            Option::Some(v) => v,
                            Option::None => {
                                proof {
                                    assert(spec_vm_step(pre_vm) == SpecVmStep::Fault);
                                    assert(spec_vm_iter(pre_vm, m) is None);
                                }
                                return None;
                            },
                        };
                        let parent_input = match prog_find(&progs, yield_to) {
                            Option::Some(q) => {
                                proof {
                                    lemma_view_assoc(progs@, yield_to);
                                }
                                match progs[q].1.state.input {
                                    Option::Some(v) => v,
                                    Option::None => {
                                        proof {
                                            assert(spec_vm_step(pre_vm) == SpecVmStep::Fault);
                                            assert(spec_vm_iter(pre_vm, m) is None);
                                        }
                                        return None;
                                    },
                                }
                            },
                            Option::None => {
                                proof {
                                    lemma_view_assoc(progs@, yield_to);
                                    assert(spec_vm_step(pre_vm) == SpecVmStep::Fault);
                                    assert(spec_vm_iter(pre_vm, m) is None);
                                }
                                return None;
                            },
                        };
                        let ghost pre_utxos = self.utxos@;
                        match utxo_find(&self.utxos, current) {
                            Option::Some(u) => {
                                let row = self.utxos[u];
                                self.utxos[u] = (
                                    row.0,
                                    UtxoState { output: yield_val, memory: row.1.memory },
                                );
                                proof {
                                    assert(utxos_sorted(self.utxos@));
                                }
                            },
                            Option::None => {
                            },
                        }
                        instructions.push(
                            LedgerOperation::YieldResume {
                                utxo_id: Thunk::Resolved(current),
                                output: Thunk::Resolved(parent_input),
                            },
                        );
                        instructions.push(
                            LedgerOperation::Yield {
                                utxo_id: Thunk::Resolved(current),
                                input: Thunk::Resolved(yield_val),
                            },
                        );
                        let ghost pre_programs = progs@;
                        let mut prog = progs.remove(p);
                        let ghost mid = progs@;
                        prog.1.state.pc = pc + 1;
                        prog.1.state.yield_skip = false;
                        let ghost progg = prog;
                        progs.insert(p, prog);
                        let ghost old_current = current;
                        prev = Some(current);
                        current = yield_to;
                        in_coord = true;
                        proof {
                            lemma_remove_insert(pre_programs, mid, progs@, p as int, progg);
                            lemma_view_update(pre_programs, p as int, progg);
                            assert(spec_vm_step(pre_vm) matches SpecVmStep::Next(nv) && nv
                                =~= spec_vm_of(
                                progs@,
                                self.utxos@,
                                instructions@,
                                consumed@,
                                current,
                                in_coord,
                                prev,
                            ));
                        }
                    },
                    Op::Resume { utxo, val } => {
                        let utxo_id = match var_get(&progs[p].1.state.vars, utxo) {
                            Option::Some(v) => v,
                            Option::None => {
                                proof {
                                    assert(spec_vm_step(pre_vm) == SpecVmStep::Fault);
                                    assert(spec_vm_iter(pre_vm, m) is None);
                                }
                                return None;
                            },
                        };
                        if !progs[p].1.state.yield_skip {
                            let input = match var_get(&progs[p].1.state.vars, val) {
                                Option::Some(v) => v,
                                Option::None => {
                                    proof {
                                        assert(spec_vm_step(pre_vm) == SpecVmStep::Fault);
                                        assert(spec_vm_iter(pre_vm, m) is None);
                                    }
                                    return None;
                                },
                            };
                            let ghost pre_programs = progs@;
                            let mut prog = progs.remove(p);
                            let ghost mid = progs@;
                            prog.1.state.input = Some(input);
                            prog.1.state.thunk = Some(instructions.len());
                            prog.1.state.yield_skip = true;
                            let ghost progg = prog;
                            progs.insert(p, prog);
                            instructions.push(
                                LedgerOperation::Resume {
                                    utxo_id: Thunk::Resolved(utxo_id),
                                    input: Thunk::Resolved(input),
                                    output: Thunk::Unresolved,
                                },
                            );
                            prev = Some(current);
                            current = utxo_id;
                            in_coord = false;
                            proof {
                                lemma_remove_insert(pre_programs, mid, progs@, p as int, progg);
                                lemma_view_update(pre_programs, p as int, progg);
                                assert(spec_vm_step(pre_vm) matches SpecVmStep::Next(nv) && nv
                                    =~= spec_vm_of(
                                    progs@,
                                    self.utxos@,
                                    instructions@,
                                    consumed@,
                                    current,
                                    in_coord,
                                    prev,
                                ));
                            }
                        } else {
                            let output_val = match utxo_find(&self.utxos, utxo_id) {
                                Option::Some(u) => self.utxos[u].1.output,
                                Option::None => {
                                    proof {
                                        assert(spec_vm_step(pre_vm) == SpecVmStep::Fault);
                                        assert(spec_vm_iter(pre_vm, m) is None);
                                    }
                                    return None;
                                },
                            };
                            let t = match progs[p].1.state.thunk {
                                Option::Some(t) => t,
                                Option::None => {
                                    proof {
                                        assert(spec_vm_step(pre_vm) == SpecVmStep::Fault);
                                        assert(spec_vm_iter(pre_vm, m) is None);
                                    }
                                    return None;
                                },
                            };
                            if t >= instructions.len() {
                                proof {
                                    assert(spec_vm_step(pre_vm) == SpecVmStep::Fault);
                                    assert(spec_vm_iter(pre_vm, m) is None);
                                }
                                return None;
                            }
                            match instructions[t] {
                                LedgerOperation::Resume {
                                    utxo_id: ru,
                                    input: ri,
                                    output: Thunk::Unresolved,
                                } => {
                                    instructions[t] = LedgerOperation::Resume {
                                        utxo_id: ru,
                                        input: ri,
                                        output: Thunk::Resolved(output_val),
                                    };
                                },
                                _ => {
                                    proof {
                                        assert(spec_vm_step(pre_vm) == SpecVmStep::Fault);
                                        assert(spec_vm_iter(pre_vm, m) is None);
                                    }
                                    return None;
                                },
                            }
                            let ghost pre_programs = progs@;
                            let mut prog = progs.remove(p);
                            let ghost mid = progs@;
                            prog.1.state.thunk = None;
                            prog.1.state.pc = pc + 1;
                            prog.1.state.yield_skip = false;
                            let ghost progg = prog;
                            progs.insert(p, prog);
                            in_coord = true;
                            proof {
                                lemma_remove_insert(pre_programs, mid, progs@, p as int, progg);
                                lemma_view_update(pre_programs, p as int, progg);
                                assert(spec_vm_step(pre_vm) matches SpecVmStep::Next(nv) && nv
                                    =~= spec_vm_of(
                                    progs@,
                                    self.utxos@,
                                    instructions@,
                                    consumed@,
                                    current,
                                    in_coord,
                                    prev,
                                ));
                            }
                        }
                    },
                    Op::Burn {  } => {
                        let yield_to = match prev {
                            Option::Some(v) => v,
                            Option::None => {
                                proof {
                                    assert(spec_vm_step(pre_vm) == SpecVmStep::Fault);
                                    assert(spec_vm_iter(pre_vm, m) is None);
                                }
                                return None;
                            },
                        };
                        if !fp_contains(&consumed, current) {
                            consumed.push(current);
                        }
                        instructions.push(
                            LedgerOperation::DropUtxo { utxo_id: Thunk::Resolved(current) },
                        );
                        let ghost pre_utxos = self.utxos@;
                        match utxo_find(&self.utxos, current) {
                            Option::Some(u) => {
                                let row = self.utxos[u];
                                self.utxos[u] = (
                                    row.0,
                                    UtxoState { output: Fp { value: 0 }, memory: row.1.memory },
                                );
                                proof {
                                    assert(utxos_sorted(self.utxos@));
                                }
                            },
                            Option::None => {
                            },
                        }
                        let ghost pre_programs = progs@;
                        let mut prog = progs.remove(p);
                        let ghost mid = progs@;
                        prog.1.state.pc = pc + 1;
                        let ghost progg = prog;
                        progs.insert(p, prog);
                        prev = Some(current);
                        current = yield_to;
                        in_coord = true;
                        proof {
                            lemma_remove_insert(pre_programs, mid, progs@, p as int, progg);
                            lemma_view_update(pre_programs, p as int, progg);
                            assert(spec_vm_step(pre_vm) matches SpecVmStep::Next(nv) && nv
                                =~= spec_vm_of(
                                progs@,
                                self.utxos@,
                                instructions@,
                                consumed@,
                                current,
                                in_coord,
                                prev,
                            ));
                        }
                    },
                }
            }
            proof {
                if !done {
                    assert(spec_vm_iter(pre_vm, m) == spec_vm_iter(
                        spec_vm_of(
                            progs@,
                            self.utxos@,
                            instructions@,
                            consumed@,
                            current,
                            in_coord,
                            prev,
                        ),
                        m - 1,
                    ));
                }
            }
            steps = steps + 1;
        }
        if !done {
            return None;
        }
        let ghost end_vm = spec_vm_of(
            progs@,
            self.utxos@,
            instructions@,
            consumed@,
            current,
            in_coord,
            prev,
        );
        proof {
            assert(spec_vm_iter(init_vm, fuel as int) == Some(end_vm));
        }

        let mut utxo_deltas: Vec<(Fp, UtxoChange)> = Vec::new();
        let mut k: usize = 0;
        while k < self.utxos.len()
            invariant
                utxos_sorted(self.utxos@),
                utxos_sorted(state_pre@),
                k <= self.utxos@.len(),
                utxo_deltas@.len() == k,
                forall|j: int|
                    0 <= j < k ==> #[trigger] utxo_deltas@[j] == spec_deltas(
                        state_pre@,
                        self.utxos@,
                        consumed@,
                    )[j],
                forall|j: int|
                    0 <= j < k ==> (#[trigger] utxo_deltas@[j]).0 == self.utxos@[j].0,
                forall|j: int|
                    0 <= j < k ==> {
                        &&& (#[trigger] utxo_deltas@[j]).0.inv()
                        &&& utxo_deltas@[j].1.output_before.inv()
                        &&& utxo_deltas@[j].1.output_after.inv()
                    },
            decreases self.utxos@.len() - k,
        {
            let (id, st) = self.utxos[k];
            let output_before = match utxo_find(&state_pre, id) {
                Option::Some(u) => state_pre[u].1.output,
                Option::None => Fp { value: 0 },
            };
            let was_consumed = fp_contains(&consumed, id);
            utxo_deltas.push(
                (
                    id,
                    UtxoChange {
                        output_before,
                        output_after: st.output,
                        consumed: was_consumed,
                    },
                ),
            );
            proof {
                assert(utxo_deltas@[k as int] == spec_deltas(state_pre@, self.utxos@, consumed@)[
                    k as int
                ]);
            }
            k = k + 1;
        }
        proof {
            assert(utxo_deltas@ =~= spec_deltas(state_pre@, self.utxos@, consumed@));
            assert(deltas_wf(utxo_deltas@)) by {
                assert forall|i: int, j: int|
                    0 <= i < j < utxo_deltas@.len() implies (#[trigger] utxo_deltas@[i]).0.value < (
                #[trigger] utxo_deltas@[j]).0.value by {
                    assert(utxo_deltas@[i].0 == self.utxos@[i].0);
                    assert(utxo_deltas@[j].0 == self.utxos@[j].0);
                }
            }
        }

        let mut kept: Vec<(Fp, UtxoState)> = Vec::new();
        let mut k: usize = 0;
        while k < self.utxos.len()
            invariant
                utxos_sorted(self.utxos@),
                k <= self.utxos@.len(),
                kept@.len() <= k,
                utxos_sorted(kept@),
                kept@ == spec_keep(self.utxos@.take(k as int), consumed@),
                k > 0 && kept@.len() > 0 ==> kept@.last().0.value <= self.utxos@[k - 1].0.value,
            decreases self.utxos@.len() - k,
        {
            let (id, st) = self.utxos[k];
            proof {
                assert(self.utxos@.take(k as int + 1).drop_last() =~= self.utxos@.take(k as int));
                assert(self.utxos@.take(k as int + 1).last() == self.utxos@[k as int]);
            }
            if !fp_contains(&consumed, id) {
                kept.push((id, st));
                proof {
                    assert forall|a: int, b: int|
                        0 <= a < b < kept@.len() implies (#[trigger] kept@[a]).0.value < (
                    #[trigger] kept@[b]).0.value by {
                        if b == kept@.len() - 1 && a < b {
                            assert(kept@[a].0.value < id.value);
                        }
                    }
                }
            }
            k = k + 1;
        }
        proof {
            assert(self.utxos@.take(self.utxos@.len() as int) =~= self.utxos@);
        }
        self.utxos = kept;

        let mut resolved: Vec<Instruction> = Vec::new();
        let mut k: usize = 0;
        while k < instructions.len()
            invariant
                init_vm == spec_vm_of(
                    programs@,
                    old(self).utxos@,
                    Seq::empty(),
                    Seq::empty(),
                    entry_point,
                    true,
                    None,
                ),
                spec_vm_iter(init_vm, fuel as int) == Some(end_vm),
                end_vm.instructions == instructions@,
                utxos_sorted(self.utxos@),
                thunk_ops_wf(instructions@),
                k <= instructions@.len(),
                resolved@.len() == k,
                ops_wf(resolved@),
                spec_resolve(instructions@.take(k as int)) == Some(resolved@),
            decreases instructions@.len() - k,
        {
            proof {
                assert(instructions@.take(k as int + 1).drop_last() =~= instructions@.take(
                    k as int,
                ));
                assert(instructions@.take(k as int + 1).last() == instructions@[k as int]);
            }
            let op = match instructions[k] {
                LedgerOperation::Resume {
                    utxo_id: Thunk::Resolved(u),
                    input: Thunk::Resolved(i),
                    output: Thunk::Resolved(o),
                } => LedgerOperation::Resume { utxo_id: u, input: i, output: o },
                LedgerOperation::Yield {
                    utxo_id: Thunk::Resolved(u),
                    input: Thunk::Resolved(i),
                } => LedgerOperation::Yield { utxo_id: u, input: i },
                LedgerOperation::YieldResume {
                    utxo_id: Thunk::Resolved(u),
                    output: Thunk::Resolved(o),
                } => LedgerOperation::YieldResume { utxo_id: u, output: o },
                LedgerOperation::DropUtxo { utxo_id: Thunk::Resolved(u) } => {
                    LedgerOperation::DropUtxo { utxo_id: u }
                },
                LedgerOperation::Nop {  } => LedgerOperation::Nop {  },
                LedgerOperation::CheckUtxoOutput { utxo_id: Thunk::Resolved(u) } => {
                    LedgerOperation::CheckUtxoOutput { utxo_id: u }
                },
                _ => {
                    proof {
                        assert(spec_resolve_op(instructions@[k as int]) is None);
                        lemma_resolve_none(instructions@, k as int);
                    }
                    return None;
                },
            };
            resolved.push(op);
            proof {
                assert(spec_resolve_op(instructions@[k as int]) == Some(op));
            }
            k = k + 1;
        }
        proof {
            assert(instructions@.take(instructions@.len() as int) =~= instructions@);
            assert(spec_resolve(end_vm.instructions) == Some(resolved@));
        }

        let mut commitments = ProgramTraceCommitments::new();
        let mut k: usize = 0;
        while k < resolved.len()
            invariant
                utxos_sorted(self.utxos@),
                ops_wf(resolved@),
                k <= resolved@.len(),
                commitments.wf(),
            decreases resolved@.len() - k,
        {
            let op = resolved[k];
            commitments.add_operation(&op);
            k = k + 1;
        }

        let ghost gdeltas = utxo_deltas@;
        let ghost gops = resolved@;
        let tx = Transaction::new_unproven(utxo_deltas, resolved);
        proof {
            assert(ops_wf(tx.proof_like@)) by {
                assert forall|i: int| 0 <= i < tx.proof_like@.len() implies op_wf(
                    #[trigger] tx.proof_like@[i],
                ) by {
                    if i < gops.len() {
                        assert(tx.proof_like@.take(gops.len() as int)[i] == tx.proof_like@[i]);
                        assert(tx.proof_like@[i] == gops[i]);
                    } else {
                        let k = i - gops.len();
                        assert(tx.proof_like@[gops.len() + k] == (LedgerOperation::CheckUtxoOutput {
                            utxo_id: gdeltas[k].0,
                        }));
                        assert(gdeltas[k].0.inv());
                    }
                }
            }
        }
        Some((tx, commitments))
    }
}

} // verus!

verus! {

/// Builds the instruction list of one mock program.
pub struct ProgramBuilder {
    pub ops: Vec<Op>,
    pub yielded: bool,
    pub next_var_id: usize,
}

impl ProgramBuilder {
    /// All queued instructions are well formed.
    pub open spec fn wf(self) -> bool {
        forall|i: int| 0 <= i < self.ops@.len() ==> mock_op_wf(#[trigger] self.ops@[i])
    }

    /// An empty program.
    pub fn new() -> (r: ProgramBuilder)
        ensures
            r.wf(),
            r.ops@.len() == 0,
            r.next_var_id == 0,
    {
        ProgramBuilder { ops: Vec::new(), yielded: false, next_var_id: 0 }
    }

    /// A fresh register.
    pub fn alloc_var(&mut self) -> (r: Variable)
        requires
            old(self).next_var_id < usize::MAX,
        ensures
            final(self).ops@ == old(self).ops@,
            old(self).wf() ==> final(self).wf(),
            final(self).yielded == old(self).yielded,
            final(self).next_var_id == old(self).next_var_id + 1,
            r == Variable(old(self).next_var_id),
    {
        let var = Variable(self.next_var_id);
        self.next_var_id = self.next_var_id + 1;
        proof {
            if old(self).wf() {
                assert forall|i: int| 0 <= i < self.ops@.len() implies mock_op_wf(
                    #[trigger] self.ops@[i],
                ) by {
                    assert(self.ops@[i] == old(self).ops@[i]);
                }
            }
        }
        var
    }

    /// Queue a constant store.
    pub fn set_var(self, var: Variable, value: Fp) -> (r: ProgramBuilder)
        requires
            self.wf(),
            value.inv(),
        ensures
            r.wf(),
            r.ops@ == self.ops@.push(Op::SetVar { var, value }),
            r.yielded == self.yielded,
            r.next_var_id == self.next_var_id,
    {
        let mut s = self;
        s.ops.push(Op::SetVar { var, value });
        s
    }

    /// Queue an in-place addition.
    pub fn increment_var(self, var: Variable, amount: Fp) -> (r: ProgramBuilder)
        requires
            self.wf(),
            amount.inv(),
        ensures
            r.wf(),
            r.ops@ == self.ops@.push(Op::IncrementVar { var, amount }),
            r.yielded == self.yielded,
            r.next_var_id == self.next_var_id,
    {
        let mut s = self;
        s.ops.push(Op::IncrementVar { var, amount });
        s
    }

    /// Queue a jump.
    pub fn jump_to(self, pc: usize) -> (r: ProgramBuilder)
        requires
            self.wf(),
        ensures
            r.wf(),
            r.ops@ == self.ops@.push(Op::JumpTo { pc }),
            r.yielded == self.yielded,
            r.next_var_id == self.next_var_id,
    {
        let mut s = self;
        s.ops.push(Op::JumpTo { pc });
        s
    }

    /// Queue a UTXO creation.
    pub fn new_utxo(self, initial_state: Fp, output_var: Variable) -> (r: ProgramBuilder)
        requires
            self.wf(),
            initial_state.inv(),
        ensures
            r.wf(),
            r.ops@ == self.ops@.push(Op::New { initial_state, output_var }),
            r.yielded == self.yielded,
            r.next_var_id == self.next_var_id,
    {
        let mut s = self;
        s.ops.push(Op::New { initial_state, output_var });
        s
    }

    /// Queue a yield.
    pub fn yield_val(self, val: Variable) -> (r: ProgramBuilder)
        requires
            self.wf(),
        ensures
            r.wf(),
            r.ops@ == self.ops@.push(Op::Yield { val }),
            r.yielded == self.yielded,
            r.next_var_id == self.next_var_id,
    {
        let mut s = self;
        s.ops.push(Op::Yield { val });
        s
    }

    /// Queue a resume.
    pub fn resume(self, utxo: Variable, val: Variable) -> (r: ProgramBuilder)
        requires
            self.wf(),
        ensures
            r.wf(),
            r.ops@ == self.ops@.push(Op::Resume { utxo, val }),
            r.yielded == self.yielded,
            r.next_var_id == self.next_var_id,
    {
        let mut s = self;
        s.ops.push(Op::Resume { utxo, val });
        s
    }

    /// Queue a burn.
    pub fn burn(self) -> (r: ProgramBuilder)
        requires
            self.wf(),
        ensures
            r.wf(),
            r.ops@ == self.ops@.push(Op::Burn {  }),
            r.yielded == self.yielded,
            r.next_var_id == self.next_var_id,
    {
        let mut s = self;
        s.ops.push(Op::Burn {  });
        s
    }

    /// Finish: a program at its entry point.
    pub fn build(self) -> (r: MockedProgram)
        requires
            self.wf(),
        ensures
            r.wf(),
            r.code@ == self.ops@,
            r.state.pc == 0,
            r.state.yield_skip == self.yielded,
            r.state.thunk is None,
            r.state.vars@.len() == 0,
            r.state.input is None,
    {
        MockedProgram::new(self.ops, self.yielded)
    }
}


/// Whether `k` is the first registration of an identifier.
pub open spec fn spec_program_at(programs: Seq<(Fp, MockedProgram)>, id: Fp, k: int) -> bool {
    &&& 0 <= k < programs.len()
    &&& programs[k].0 == id
    &&& forall|j: int| 0 <= j < k ==> (#[trigger] programs[j]).0 != id
}

/// The entry holds a program freshly built from the builder: its code,
/// at its entry point.
pub open spec fn spec_fresh_registration(
    entry: (Fp, MockedProgram),
    id: Fp,
    builder: ProgramBuilder,
) -> bool {
    &&& entry.0 == id
    &&& entry.1.code@ == builder.ops@
    &&& entry.1.state.pc == 0
    &&& entry.1.state.yield_skip == builder.yielded
    &&& entry.1.state.thunk is None
    &&& entry.1.state.vars@.len() == 0
    &&& entry.1.state.input is None
}

/// The set of programs taking part in one mock transaction.
pub struct ProgramContext {
    pub programs: Vec<(Fp, MockedProgram)>,
    pub next_id: u64,
}

impl ProgramContext {
    /// All registered programs are well formed.
    pub open spec fn wf(self) -> bool {
        programs_wf(self.programs@)
    }

    /// An empty context.
    pub fn new() -> (r: ProgramContext)
        ensures
            r.wf(),
            r.programs@.len() == 0,
            r.next_id == 1,
    {
        ProgramContext { programs: Vec::new(), next_id: 1 }
    }

    /// Register a program under a chosen identifier.  Registering an
    /// identifier again replaces the earlier program, as a map insertion
    /// would: the later registration wins.
    pub fn add_program_with_id(&mut self, id: Fp, builder: ProgramBuilder)
        requires
            old(self).wf(),
            builder.wf(),
        ensures
            final(self).wf(),
            forall|k: int|
                spec_program_at(old(self).programs@, id, k) ==> {
                    &&& final(self).programs@.len() == old(self).programs@.len()
                    &&& spec_fresh_registration(#[trigger] final(self).programs@[k], id, builder)
                    &&& forall|j: int|
                        0 <= j < old(self).programs@.len() && j != k
                            ==> #[trigger] final(self).programs@[j] == old(self).programs@[j]
                },
            (forall|j: int|
                0 <= j < old(self).programs@.len() ==> (#[trigger] old(self).programs@[j]).0
                    != id) ==> {
                &&& final(self).programs@.len() == old(self).programs@.len() + 1
                &&& spec_fresh_registration(final(self).programs@.last(), id, builder)
                &&& forall|j: int|
                    0 <= j < old(self).programs@.len() ==> #[trigger] final(self).programs@[j]
                        == old(self).programs@[j]
            },
    {
        let prog = builder.build();
        let n = self.programs.len();
        let mut k: usize = 0;
        while k < n
            invariant
                self.wf(),
                *self == *old(self),
                n == self.programs@.len(),
                k <= n,
                prog.wf(),
                prog.code@ == builder.ops@,
                prog.state.pc == 0,
                prog.state.yield_skip == builder.yielded,
                prog.state.thunk is None,
                prog.state.vars@.len() == 0,
                prog.state.input is None,
                forall|j: int| 0 <= j < k ==> (#[trigger] self.programs@[j]).0 != id,
            decreases n - k,
        {
            if self.programs[k].0 == id {
                let ghost before = self.programs@;
                let _ = self.programs.remove(k);
                proof {
                    before.remove_ensures(k as int);
                }
                let ghost mid = self.programs@;
                let ghost pg = (id, prog);
                self.programs.insert(k, (id, prog));
                proof {
                    mid.insert_ensures(k as int, pg);
                    assert forall|j: int|
                        0 <= j < self.programs@.len() && j != k implies #[trigger] self.programs@[j]
                        == old(self).programs@[j] by {
                        if j < k {
                            assert(self.programs@[j] == mid[j]);
                            assert(mid[j] == before[j]);
                        } else {
                            assert(self.programs@[j] == mid[j - 1]);
                            assert(mid[j - 1] == before[j]);
                        }
                    }
                    assert(self.programs@[k as int] == pg);
                    assert(spec_program_at(old(self).programs@, id, k as int));
                    assert forall|kk: int|
                        spec_program_at(old(self).programs@, id, kk) implies kk == k as int by {
                        if kk < k as int {
                            assert(old(self).programs@[kk].0 != id);
                        } else if kk > k as int {
                            assert(old(self).programs@[k as int].0 != id);
                        }
                    }
                    assert forall|j: int|
                        0 <= j < self.programs@.len() implies (
                    #[trigger] self.programs@[j]).1.wf() by {
                        if j != k as int {
                            assert(self.programs@[j] == old(self).programs@[j]);
                        }
                    }
                }
                return ;
            }
            k = k + 1;
        }
        self.programs.push((id, prog));
        proof {
            assert forall|j: int|
                0 <= j < self.programs@.len() implies (#[trigger] self.programs@[j]).1.wf() by {
                if j < self.programs@.len() - 1 {
                    assert(self.programs@[j] == old(self).programs@[j]);
                }
            }
        }
        if id.value >= self.next_id && id.value < u64::MAX {
            self.next_id = id.to_u64() + 1;
        }
    }

    /// Hand the registered programs to the VM.
    pub fn into_programs(self) -> (r: Vec<(Fp, MockedProgram)>)
        requires
            self.wf(),
        ensures
            programs_wf(r@),
            r@ == self.programs@,
    {
        self.programs
    }
}

} // verus!

verus! {

/// The mathematical view of one mock program.
#[verifier::ext_equal]
pub struct SpecProgram {
    pub code: Seq<Op>,
    pub pc: int,
    pub yield_skip: bool,
    pub thunk: Option<int>,
    pub vars: Seq<(Variable, Fp)>,
    pub input: Option<Fp>,
}

/// The mathematical view of a whole mock-VM run in progress.
#[verifier::ext_equal]
pub struct SpecVm {
    pub programs: Seq<(Fp, SpecProgram)>,
    pub utxos: Seq<(Fp, UtxoState)>,
    pub instructions: Seq<LedgerOperation<Thunk>>,
    pub consumed: Seq<Fp>,
    pub current: Fp,
    pub in_coord: bool,
    pub prev: Option<Fp>,
}

impl MockedProgram {
    /// The program's mathematical view.
    pub open spec fn spec_view(self) -> SpecProgram {
        SpecProgram {
            code: self.code@,
            pc: self.state.pc as int,
            yield_skip: self.state.yield_skip,
            thunk: match self.state.thunk {
                Option::Some(t) => Some(t as int),
                Option::None => None,
            },
            vars: self.state.vars@,
            input: self.state.input,
        }
    }
}

/// The view of a program table.
pub open spec fn spec_programs_view(programs: Seq<(Fp, MockedProgram)>) -> Seq<(Fp, SpecProgram)> {
    Seq::new(programs.len(), |i: int| (programs[i].0, programs[i].1.spec_view()))
}

/// Whether `i` is the first entry of a key in an association list.
pub open spec fn spec_assoc_at<K, T>(s: Seq<(K, T)>, key: K, i: int) -> bool {
    &&& 0 <= i < s.len()
    &&& s[i].0 == key
    &&& forall|j: int| 0 <= j < i ==> (#[trigger] s[j]).0 != key
}

/// The index of a key's first entry in an association list.
pub open spec fn spec_assoc_index<K, T>(s: Seq<(K, T)>, key: K) -> Option<int> {
    if exists|i: int| spec_assoc_at(s, key, i) {
        Some(choose|i: int| spec_assoc_at(s, key, i))
    } else {
        None
    }
}

/// A first entry is the unique first entry.
pub proof fn lemma_assoc_at_unique<K, T>(s: Seq<(K, T)>, key: K, i: int)
    requires
        spec_assoc_at(s, key, i),
    ensures
        spec_assoc_index(s, key) == Some(i),
{
    let c = choose|j: int| spec_assoc_at(s, key, j);
    if c < i {
        assert(s[c].0 != key);
    } else if c > i {
        assert(s[i].0 != key);
    }
}

/// A register store: the first binding replaced, or a new binding
/// appended.
pub open spec fn spec_var_store(
    vars: Seq<(Variable, Fp)>,
    var: Variable,
    value: Fp,
) -> Seq<(Variable, Fp)> {
    match spec_assoc_index(vars, var) {
        Option::Some(i) => vars.update(i, (var, value)),
        Option::None => vars.push((var, value)),
    }
}

/// The value of a register, if bound.
pub open spec fn spec_var_value(vars: Seq<(Variable, Fp)>, var: Variable) -> Option<Fp> {
    match spec_assoc_index(vars, var) {
        Option::Some(i) => Some(vars[i].1),
        Option::None => None,
    }
}

/// Whether `i` is the position a fresh key belongs at in a sorted
/// ledger: everything before is below it, everything from it on above.
pub open spec fn spec_ins_pos_at(utxos: Seq<(Fp, UtxoState)>, id: Fp, i: int) -> bool {
    &&& 0 <= i <= utxos.len()
    &&& forall|j: int| 0 <= j < i ==> (#[trigger] utxos[j]).0.value < id.value
    &&& i < utxos.len() ==> utxos[i].0.value > id.value
}

/// Sorted insertion of a fresh ledger row; nothing when the key is
/// already present.
pub open spec fn spec_utxo_ins(utxos: Seq<(Fp, UtxoState)>, id: Fp, st: UtxoState) -> Option<
    Seq<(Fp, UtxoState)>,
> {
    if exists|j: int| 0 <= j < utxos.len() && (#[trigger] utxos[j]).0.value == id.value {
        None
    } else if exists|i: int| spec_ins_pos_at(utxos, id, i) {
        Some(utxos.insert(choose|i: int| spec_ins_pos_at(utxos, id, i), (id, st)))
    } else {
        None
    }
}

/// Whether a field element is in a list.
pub open spec fn spec_fp_in(s: Seq<Fp>, x: Fp) -> bool {
    exists|i: int| 0 <= i < s.len() && s[i] == x
}

/// The outcome of one interpreter turn.
pub enum SpecVmStep {
    /// The entry program ran off its code under coordination control:
    /// the run is complete.
    Done(SpecVm),
    /// A fault: a missing program, register, row or forward reference, a
    /// creation outside the coordination script, or a non-entry program
    /// running off its code.
    Fault,
    /// One instruction interpreted.
    Next(SpecVm),
}

/// One interpreter turn: what the active program's next instruction does
/// to the run.
pub open spec fn spec_vm_step(s: SpecVm) -> SpecVmStep {
    match spec_assoc_index(s.programs, s.current) {
        Option::None => SpecVmStep::Fault,
        Option::Some(p) => {
            let prog = s.programs[p].1;
            if prog.pc >= prog.code.len() {
                if s.in_coord {
                    SpecVmStep::Done(s)
                } else {
                    SpecVmStep::Fault
                }
            } else {
                match prog.code[prog.pc] {
                    Op::SetVar { var, value } => SpecVmStep::Next(
                        SpecVm {
                            programs: s.programs.update(
                                p,
                                (
                                    s.current,
                                    SpecProgram {
                                        vars: spec_var_store(prog.vars, var, value),
                                        pc: prog.pc + 1,
                                        ..prog
                                    },
                                ),
                            ),
                            ..s
                        },
                    ),
                    Op::IncrementVar { var, amount } => {
                        let vars2 = match spec_assoc_index(prog.vars, var) {
                            Option::Some(vi) => prog.vars.update(
                                vi,
                                (var, crate::field::spec_fp_add(prog.vars[vi].1, amount)),
                            ),
                            Option::None => prog.vars,
                        };
                        SpecVmStep::Next(
                            SpecVm {
                                programs: s.programs.update(
                                    p,
                                    (s.current, SpecProgram { vars: vars2, pc: prog.pc + 1, ..prog }),
                                ),
                                ..s
                            },
                        )
                    },
                    Op::JumpTo { pc } => SpecVmStep::Next(
                        SpecVm {
                            programs: s.programs.update(
                                p,
                                (s.current, SpecProgram { pc: pc as int, ..prog }),
                            ),
                            ..s
                        },
                    ),
                    Op::New { initial_state, output_var } => {
                        if !s.in_coord {
                            SpecVmStep::Fault
                        } else {
                            let id = Fp {
                                value: (((2 + s.utxos.len()) as u64) as int % (
                                crate::field::GOLDILOCKS_P as int)) as u64,
                            };
                            match spec_utxo_ins(
                                s.utxos,
                                id,
                                UtxoState { output: Fp { value: 0 }, memory: initial_state },
                            ) {
                                Option::None => SpecVmStep::Fault,
                                Option::Some(u2) => SpecVmStep::Next(
                                    SpecVm {
                                        programs: s.programs.update(
                                            p,
                                            (
                                                s.current,
                                                SpecProgram {
                                                    vars: spec_var_store(prog.vars, output_var, id),
                                                    pc: prog.pc + 1,
                                                    ..prog
                                                },
                                            ),
                                        ),
                                        utxos: u2,
                                        ..s
                                    },
                                ),
                            }
                        }
                    },
                    Op::Yield { val } => match s.prev {
                        Option::None => SpecVmStep::Fault,
                        Option::Some(yield_to) => match spec_var_value(prog.vars, val) {
                            Option::None => SpecVmStep::Fault,
                            Option::Some(yv) => match spec_assoc_index(s.programs, yield_to) {
                                Option::None => SpecVmStep::Fault,
                                Option::Some(q) => match s.programs[q].1.input {
                                    Option::None => SpecVmStep::Fault,
                                    Option::Some(parent_input) => {
                                        let utxos2 = match spec_assoc_index(s.utxos, s.current) {
                                            Option::Some(u) => s.utxos.update(
                                                u,
                                                (
                                                    s.current,
                                                    UtxoState {
                                                        output: yv,
                                                        memory: s.utxos[u].1.memory,
                                                    },
                                                ),
                                            ),
                                            Option::None => s.utxos,
                                        };
                                        SpecVmStep::Next(
                                            SpecVm {
                                                utxos: utxos2,
                                                instructions: s.instructions.push(
                                                    LedgerOperation::YieldResume {
                                                        utxo_id: Thunk::Resolved(s.current),
                                                        output: Thunk::Resolved(parent_input),
                                                    },
                                                ).push(
                                                    LedgerOperation::Yield {
                                                        utxo_id: Thunk::Resolved(s.current),
                                                        input: Thunk::Resolved(yv),
                                                    },
                                                ),
                                                programs: s.programs.update(
                                                    p,
                                                    (
                                                        s.current,
                                                        SpecProgram {
                                                            pc: prog.pc + 1,
                                                            yield_skip: false,
                                                            ..prog
                                                        },
                                                    ),
                                                ),
                                                prev: Some(s.current),
                                                current: yield_to,
                                                in_coord: true,
                                                ..s
                                            },
                                        )
                                    },
                                },
                            },
                        },
                    },
                    Op::Resume { utxo, val } => match spec_var_value(prog.vars, utxo) {
                        Option::None => SpecVmStep::Fault,
                        Option::Some(uid) => if !prog.yield_skip {
                            match spec_var_value(prog.vars, val) {
                                Option::None => SpecVmStep::Fault,
                                Option::Some(input) => SpecVmStep::Next(
                                    SpecVm {
                                        programs: s.programs.update(
                                            p,
                                            (
                                                s.current,
                                                SpecProgram {
                                                    input: Some(input),
                                                    thunk: Some(s.instructions.len() as int),
                                                    yield_skip: true,
                                                    ..prog
                                                },
                                            ),
                                        ),
                                        instructions: s.instructions.push(
                                            LedgerOperation::Resume {
                                                utxo_id: Thunk::Resolved(uid),
                                                input: Thunk::Resolved(input),
                                                output: Thunk::Unresolved,
                                            },
                                        ),
                                        prev: Some(s.current),
                                        current: uid,
                                        in_coord: false,
                                        ..s
                                    },
                                ),
                            }
                        } else {
                            match spec_assoc_index(s.utxos, uid) {
                                Option::None => SpecVmStep::Fault,
                                Option::Some(u) => match prog.thunk {
                                    Option::None => SpecVmStep::Fault,
                                    Option::Some(t) => if !(0 <= t < s.instructions.len()) {
                                        SpecVmStep::Fault
                                    } else {
                                        match s.instructions[t] {
                                            LedgerOperation::Resume {
                                                utxo_id: ru,
                                                input: ri,
                                                output: Thunk::Unresolved,
                                            } => SpecVmStep::Next(
                                                SpecVm {
                                                    instructions: s.instructions.update(
                                                        t,
                                                        LedgerOperation::Resume {
                                                            utxo_id: ru,
                                                            input: ri,
                                                            output: Thunk::Resolved(
                                                                s.utxos[u].1.output,
                                                            ),
                                                        },
                                                    ),
                                                    programs: s.programs.update(
                                                        p,
                                                        (
                                                            s.current,
                                                            SpecProgram {
                                                                thunk: None,
                                                                pc: prog.pc + 1,
                                                                yield_skip: false,
                                                                ..prog
                                                            },
                                                        ),
                                                    ),
                                                    in_coord: true,
                                                    ..s
                                                },
                                            ),
                                            _ => SpecVmStep::Fault,
                                        }
                                    },
                                },
                            }
                        },
                    },
                    Op::Burn {  } => match s.prev {
                        Option::None => SpecVmStep::Fault,
                        Option::Some(yield_to) => {
                            let consumed2 = if spec_fp_in(s.consumed, s.current) {
                                s.consumed
                            } else {
                                s.consumed.push(s.current)
                            };
                            let utxos2 = match spec_assoc_index(s.utxos, s.current) {
                                Option::Some(u) => s.utxos.update(
                                    u,
                                    (
                                        s.current,
                                        UtxoState {
                                            output: Fp { value: 0 },
                                            memory: s.utxos[u].1.memory,
                                        },
                                    ),
                                ),
                                Option::None => s.utxos,
                            };
                            SpecVmStep::Next(
                                SpecVm {
                                    consumed: consumed2,
                                    instructions: s.instructions.push(
                                        LedgerOperation::DropUtxo {
                                            utxo_id: Thunk::Resolved(s.current),
                                        },
                                    ),
                                    utxos: utxos2,
                                    programs: s.programs.update(
                                        p,
                                        (s.current, SpecProgram { pc: prog.pc + 1, ..prog }),
                                    ),
                                    prev: Some(s.current),
                                    current: yield_to,
                                    in_coord: true,
                                    ..s
                                },
                            )
                        },
                    },
                }
            }
        },
    }
}

/// Run the interpreter for at most `n` turns: the completed run, or
/// nothing on a fault or when the turns run out.
pub open spec fn spec_vm_iter(s: SpecVm, n: int) -> Option<SpecVm>
    decreases n,
{
    if n <= 0 {
        None
    } else {
        match spec_vm_step(s) {
            SpecVmStep::Fault => None,
            SpecVmStep::Done(s2) => Some(s2),
            SpecVmStep::Next(s2) => spec_vm_iter(s2, n - 1),
        }
    }
}

/// One resolved operation, if its forward references are filled.
pub open spec fn spec_resolve_op(op: LedgerOperation<Thunk>) -> Option<Instruction> {
    match op {
        LedgerOperation::Resume {
            utxo_id: Thunk::Resolved(u),
            input: Thunk::Resolved(i),
            output: Thunk::Resolved(o),
        } => Some(LedgerOperation::Resume { utxo_id: u, input: i, output: o }),
        LedgerOperation::Yield { utxo_id: Thunk::Resolved(u), input: Thunk::Resolved(i) } => Some(
            LedgerOperation::Yield { utxo_id: u, input: i },
        ),
        LedgerOperation::YieldResume {
            utxo_id: Thunk::Resolved(u),
            output: Thunk::Resolved(o),
        } => Some(LedgerOperation::YieldResume { utxo_id: u, output: o }),
        LedgerOperation::DropUtxo { utxo_id: Thunk::Resolved(u) } => Some(
            LedgerOperation::DropUtxo { utxo_id: u },
        ),
        LedgerOperation::Nop {  } => Some(LedgerOperation::Nop {  }),
        LedgerOperation::CheckUtxoOutput { utxo_id: Thunk::Resolved(u) } => Some(
            LedgerOperation::CheckUtxoOutput { utxo_id: u },
        ),
        _ => None,
    }
}

/// The recorded interleaving with every forward reference resolved;
/// nothing when one is still open.
pub open spec fn spec_resolve(ops: Seq<LedgerOperation<Thunk>>) -> Option<Seq<Instruction>>
    decreases ops.len(),
{
    if ops.len() == 0 {
        Some(Seq::empty())
    } else {
        match spec_resolve(ops.drop_last()) {
            Option::None => None,
            Option::Some(r) => match spec_resolve_op(ops.last()) {
                Option::None => None,
                Option::Some(op) => Some(r.push(op)),
            },
        }
    }
}

/// An unresolvable operation spoils the whole resolution.
pub proof fn lemma_resolve_none(ops: Seq<LedgerOperation<Thunk>>, k: int)
    requires
        0 <= k < ops.len(),
        spec_resolve_op(ops[k]) is None,
    ensures
        spec_resolve(ops) is None,
    decreases ops.len(),
{
    if k == ops.len() - 1 {
    } else {
        lemma_resolve_none(ops.drop_last(), k);
    }
}

/// The per-UTXO deltas a finished run derives: per final ledger row, its
/// output in the pre-state (zero on first appearance), its final output,
/// and whether a burn consumed it.
pub open spec fn spec_deltas(
    pre: Seq<(Fp, UtxoState)>,
    utxos_end: Seq<(Fp, UtxoState)>,
    consumed: Seq<Fp>,
) -> Seq<(Fp, UtxoChange)> {
    Seq::new(
        utxos_end.len(),
        |k: int|
            (
                utxos_end[k].0,
                UtxoChange {
                    output_before: match spec_assoc_index(pre, utxos_end[k].0) {
                        Option::Some(i) => pre[i].1.output,
                        Option::None => Fp { value: 0 },
                    },
                    output_after: utxos_end[k].1.output,
                    consumed: spec_fp_in(consumed, utxos_end[k].0),
                },
            ),
    )
}

/// The ledger after a run: the rows no burn consumed.
pub open spec fn spec_keep(utxos_end: Seq<(Fp, UtxoState)>, consumed: Seq<Fp>) -> Seq<
    (Fp, UtxoState),
>
    decreases utxos_end.len(),
{
    if utxos_end.len() == 0 {
        Seq::empty()
    } else {
        let rest = spec_keep(utxos_end.drop_last(), consumed);
        if spec_fp_in(consumed, utxos_end.last().0) {
            rest
        } else {
            rest.push(utxos_end.last())
        }
    }
}

} // verus!

verus! {

/// Removing an element and inserting another at the same place is an
/// update.
pub proof fn lemma_remove_insert<T>(pre: Seq<T>, mid: Seq<T>, post: Seq<T>, i: int, x: T)
    requires
        0 <= i < pre.len(),
        mid == pre.remove(i),
        post == mid.insert(i, x),
    ensures
        post == pre.update(i, x),
{
    pre.remove_ensures(i);
    mid.insert_ensures(i, x);
    assert forall|j: int| 0 <= j < post.len() implies post[j] == pre.update(i, x)[j] by {
        if j < i {
            assert(post[j] == mid[j]);
            assert(mid[j] == pre[j]);
        } else if j == i {
            assert(post[j] == x);
        } else {
            assert(post[j] == mid[j - 1]);
            assert(mid[j - 1] == pre[j]);
        }
    }
    assert(post =~= pre.update(i, x));
}

/// The view of a program table finds keys exactly where the table does.
pub proof fn lemma_view_assoc(programs: Seq<(Fp, MockedProgram)>, id: Fp)
    ensures
        spec_assoc_index(spec_programs_view(programs), id) == spec_assoc_index(programs, id),
{
    let v = spec_programs_view(programs);
    if exists|i: int| spec_assoc_at(programs, id, i) {
        let i = choose|i: int| spec_assoc_at(programs, id, i);
        assert(spec_assoc_at(v, id, i)) by {
            assert(v[i].0 == programs[i].0);
            assert forall|j: int| 0 <= j < i implies (#[trigger] v[j]).0 != id by {
                assert(programs[j].0 != id);
            }
        }
        lemma_assoc_at_unique(programs, id, i);
        lemma_assoc_at_unique(v, id, i);
    } else {
        if exists|i: int| spec_assoc_at(v, id, i) {
            let i = choose|i: int| spec_assoc_at(v, id, i);
            assert(programs[i].0 == v[i].0);
            assert(spec_assoc_at(programs, id, i)) by {
                assert forall|j: int| 0 <= j < i implies (#[trigger] programs[j]).0 != id by {
                    assert(v[j].0 == programs[j].0);
                }
            }
        }
    }
}

/// Viewing an updated table updates the view.
pub proof fn lemma_view_update(programs: Seq<(Fp, MockedProgram)>, i: int, x: (Fp, MockedProgram))
    requires
        0 <= i < programs.len(),
    ensures
        spec_programs_view(programs.update(i, x)) == spec_programs_view(programs).update(
            i,
            (x.0, x.1.spec_view()),
        ),
{
    assert(spec_programs_view(programs.update(i, x)) =~= spec_programs_view(programs).update(
        i,
        (x.0, x.1.spec_view()),
    ));
}

/// Assemble the mathematical view of a run in progress.
pub open spec fn spec_vm_of(
    programs: Seq<(Fp, MockedProgram)>,
    utxos: Seq<(Fp, UtxoState)>,
    instructions: Seq<LedgerOperation<Thunk>>,
    consumed: Seq<Fp>,
    current: Fp,
    in_coord: bool,
    prev: Option<Fp>,
) -> SpecVm {
    SpecVm {
        programs: spec_programs_view(programs),
        utxos,
        instructions,
        consumed,
        current,
        in_coord,
        prev,
    }
}

} // verus!
