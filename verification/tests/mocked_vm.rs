use starstream_core::field::Fp;
use starstream_core::mocked::{MockedLedger, ProgramBuilder, ProgramContext};

fn f(v: u64) -> Fp {
    Fp::from_u64(v)
}

#[test]
fn test_trace_mocked_vm() {
    let mut ctx = ProgramContext::new();

    let mut coord_builder = ProgramBuilder::new();
    let utxo1 = coord_builder.alloc_var();
    let val1 = coord_builder.alloc_var();
    let utxo2 = coord_builder.alloc_var();
    let val2 = coord_builder.alloc_var();

    let coordination_script = coord_builder
        .new_utxo(f(77), utxo1)
        .set_var(val1, f(42))
        .resume(utxo1, val1)
        .increment_var(val1, f(1))
        .resume(utxo1, val1)
        .new_utxo(f(120), utxo2)
        .set_var(val2, f(0))
        .resume(utxo2, val2)
        .resume(utxo2, val2);

    let mut utxo1_builder = ProgramBuilder::new();
    let utxo1_val = utxo1_builder.alloc_var();
    let utxo1 = utxo1_builder
        .set_var(utxo1_val, f(45))
        .yield_val(utxo1_val)
        .jump_to(1); // loop

    let mut utxo2_builder = ProgramBuilder::new();
    let utxo2_val = utxo2_builder.alloc_var();
    let utxo2 = utxo2_builder
        .set_var(utxo2_val, f(111))
        .yield_val(utxo2_val)
        .burn();

    ctx.add_program_with_id(f(1), coordination_script);
    ctx.add_program_with_id(f(2), utxo1);
    ctx.add_program_with_id(f(3), utxo2);

    let mut ledger = MockedLedger::new();

    let (tx, _commitments) = ledger
        .run_mocked_vm(f(1), ctx.into_programs(), 10_000)
        .unwrap();

    // The distilled operations must satisfy the step chain against the
    // deltas the run itself produced.
    assert!(tx.verify(&tx.utxo_deltas));

    // Both UTXOs were created; the second was burnt.
    assert_eq!(tx.utxo_deltas.len(), 2);
    assert_eq!(tx.utxo_deltas[0].0, f(2));
    assert_eq!(tx.utxo_deltas[0].1.output_after, f(45));
    assert!(!tx.utxo_deltas[0].1.consumed);
    assert_eq!(tx.utxo_deltas[1].0, f(3));
    assert_eq!(tx.utxo_deltas[1].1.output_after, f(0));
    assert!(tx.utxo_deltas[1].1.consumed);

    // The burnt UTXO is gone from the ledger; the live one remains.
    assert_eq!(ledger.utxos.len(), 1);
    assert_eq!(ledger.utxos[0].0, f(2));
}

#[test]
fn mocked_run_is_deterministic() {
    // Two identical runs distill identical operations and identical
    // per-program digests.
    fn run() -> (Vec<u64>, Vec<Vec<u64>>) {
        let mut ctx = ProgramContext::new();
        let mut coord = ProgramBuilder::new();
        let u = coord.alloc_var();
        let v = coord.alloc_var();
        let coord = coord
            .new_utxo(f(7), u)
            .set_var(v, f(5))
            .resume(u, v)
            .resume(u, v);
        let mut utxo = ProgramBuilder::new();
        let w = utxo.alloc_var();
        let utxo = utxo.set_var(w, f(9)).yield_val(w).jump_to(1);
        ctx.add_program_with_id(f(1), coord);
        ctx.add_program_with_id(f(2), utxo);
        let mut ledger = MockedLedger::new();
        let (tx, commitments) = ledger.run_mocked_vm(f(1), ctx.into_programs(), 1_000).unwrap();
        let deltas = tx
            .utxo_deltas
            .iter()
            .map(|(id, _)| id.to_u64())
            .collect::<Vec<u64>>();
        let digests = commitments
            .commitments
            .iter()
            .map(|(_, c)| {
                c.as_field_elements()
                    .iter()
                    .map(|v| v.to_u64())
                    .collect::<Vec<u64>>()
            })
            .collect::<Vec<Vec<u64>>>();
        (deltas, digests)
    }
    let (d1, c1) = run();
    let (d2, c2) = run();
    assert_eq!(d1, d2);
    assert_eq!(c1, c2);
    assert!(!c1.is_empty());
}

#[test]
fn runaway_program_exhausts_fuel() {
    let mut ctx = ProgramContext::new();
    let coord = ProgramBuilder::new().jump_to(0);
    ctx.add_program_with_id(f(1), coord);
    let mut ledger = MockedLedger::new();
    assert!(ledger.run_mocked_vm(f(1), ctx.into_programs(), 100).is_none());
}

#[test]
fn missing_entry_program_faults() {
    let ctx = ProgramContext::new();
    let mut ledger = MockedLedger::new();
    assert!(ledger.run_mocked_vm(f(1), ctx.into_programs(), 100).is_none());
}

#[test]
fn later_registration_wins() {
    // Registering the same identifier again replaces the earlier
    // program, as the context's map insertion semantics promise.
    let mut ctx = ProgramContext::new();
    let mut first = ProgramBuilder::new();
    let a = first.alloc_var();
    // The first registration would loop forever.
    let first = first.set_var(a, f(1)).jump_to(0);
    let mut second = ProgramBuilder::new();
    let b = second.alloc_var();
    let second = second.set_var(b, f(2));
    ctx.add_program_with_id(f(1), first);
    ctx.add_program_with_id(f(1), second);
    let mut ledger = MockedLedger::new();
    // Only the second program terminates; the run completing shows the
    // later registration replaced the earlier one.
    assert!(ledger.run_mocked_vm(f(1), ctx.into_programs(), 100).is_some());
}

#[test]
fn fresh_registers_are_distinct() {
    let mut b = ProgramBuilder::new();
    let x = b.alloc_var();
    let y = b.alloc_var();
    let z = b.alloc_var();
    assert_ne!(x, y);
    assert_ne!(y, z);
    assert_ne!(x, z);
}
