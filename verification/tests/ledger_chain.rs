use starstream_core::circuit::{InterRoundWires, StepCircuitBuilder};
use starstream_core::field::Fp;
use starstream_core::ledger::{LedgerOperation, Transaction, UtxoChange};

fn f(v: u64) -> Fp {
    Fp::from_u64(v)
}

fn change(before: u64, after: u64, consumed: bool) -> UtxoChange {
    UtxoChange {
        output_before: f(before),
        output_after: f(after),
        consumed,
    }
}

#[test]
fn test_starstream_tx() {
    let utxo_id1 = f(110);
    let utxo_id2 = f(300);
    let utxo_id3 = f(400);

    let changes = vec![
        (utxo_id1, change(5, 5, false)),
        (utxo_id2, change(4, 0, true)),
        (utxo_id3, change(5, 43, false)),
    ];

    let tx = Transaction::new_unproven(
        changes.clone(),
        vec![
            LedgerOperation::Nop {},
            LedgerOperation::Resume {
                utxo_id: utxo_id2,
                input: f(0),
                output: f(0),
            },
            LedgerOperation::DropUtxo { utxo_id: utxo_id2 },
            LedgerOperation::Resume {
                utxo_id: utxo_id3,
                input: f(42),
                output: f(43),
            },
            LedgerOperation::YieldResume {
                utxo_id: utxo_id3,
                output: f(42),
            },
            LedgerOperation::Yield {
                utxo_id: utxo_id3,
                input: f(43),
            },
        ],
    );

    assert!(tx.verify(&changes));
}

#[test]
#[should_panic]
fn test_fail_starstream_tx_resume_mismatch() {
    let utxo_id1 = f(110);

    let changes = vec![(utxo_id1, change(0, 43, false))];

    let tx = Transaction::new_unproven(
        changes.clone(),
        vec![
            LedgerOperation::Nop {},
            LedgerOperation::Resume {
                utxo_id: utxo_id1,
                input: f(42),
                output: f(43),
            },
            LedgerOperation::YieldResume {
                utxo_id: utxo_id1,
                output: f(42000),
            },
            LedgerOperation::Yield {
                utxo_id: utxo_id1,
                input: f(43),
            },
        ],
    );

    assert!(tx.verify(&changes));
}

#[test]
fn zero_utxo_transaction_accepts() {
    let changes: Vec<(Fp, UtxoChange)> = vec![];
    let tx = Transaction::new_unproven(
        changes.clone(),
        vec![
            LedgerOperation::Nop {},
            LedgerOperation::Nop {},
            LedgerOperation::Nop {},
        ],
    );
    assert!(tx.utxo_deltas.is_empty());
    assert_eq!(tx.proof_like.len(), 3);
    assert!(tx.verify(&changes));
}

#[test]
fn double_finalize_is_rejected() {
    let utxo = f(7);
    let changes = vec![(utxo, change(5, 5, false))];
    // One finalization check is already owed; a malicious prover smuggles
    // in a second one for the same UTXO.
    let tx = Transaction::new_unproven(
        changes.clone(),
        vec![LedgerOperation::CheckUtxoOutput { utxo_id: utxo }],
    );
    assert!(!tx.verify(&changes));
}

#[test]
fn consumed_utxo_round_trip() {
    // Resume then drop: the expected row must show the UTXO consumed
    // with a zero output.
    let utxo = f(9);
    let changes = vec![(utxo, change(4, 0, true))];
    let tx = Transaction::new_unproven(
        changes.clone(),
        vec![
            LedgerOperation::Resume {
                utxo_id: utxo,
                input: f(0),
                output: f(0),
            },
            LedgerOperation::DropUtxo { utxo_id: utxo },
        ],
    );
    assert!(tx.verify(&changes));

    let wrong = vec![(utxo, change(4, 0, false))];
    let tx2 = Transaction::new_unproven(
        wrong.clone(),
        vec![
            LedgerOperation::Resume {
                utxo_id: utxo,
                input: f(0),
                output: f(0),
            },
            LedgerOperation::DropUtxo { utxo_id: utxo },
        ],
    );
    assert!(!tx2.verify(&wrong));
}

#[test]
fn unknown_operation_utxo_is_rejected() {
    let utxo = f(7);
    let changes = vec![(utxo, change(5, 5, false))];
    let tx = Transaction::new_unproven(
        changes.clone(),
        vec![LedgerOperation::Resume {
            utxo_id: f(8),
            input: f(0),
            output: f(0),
        }],
    );
    assert!(!tx.verify(&changes));
}

#[test]
fn test_arkworks_to_neo() {
    // A two-step chain: a resume handing 42 to the UTXO and the yield
    // rendezvous handing 43 back, then the owed finalization check.
    // The locally re-run chain must accept.
    let utxo = f(2);
    let changes = vec![(utxo, change(5, 43, false))];
    let tx = Transaction::new_unproven(
        changes.clone(),
        vec![
            LedgerOperation::Resume {
                utxo_id: utxo,
                input: f(42),
                output: f(43),
            },
            LedgerOperation::YieldResume {
                utxo_id: utxo,
                output: f(42),
            },
            LedgerOperation::Yield {
                utxo_id: utxo,
                input: f(43),
            },
        ],
    );
    assert!(tx.verify(&changes));
}

#[test]
fn step_circuit_builder_lays_out_memory() {
    let utxo = f(2);
    let changes = vec![(utxo, change(5, 43, false))];
    let mut builder = StepCircuitBuilder::new(changes, vec![LedgerOperation::Nop {}]);
    let mem = builder.trace_memory_ops();
    // Address 0 is unused, 1 is the coordination row, 2 is the UTXO.
    assert_eq!(mem.ram.len(), 3);
    assert_eq!(mem.index_rom.len(), 3);
    assert_eq!(mem.output_rom.len(), 3);
    assert_eq!(mem.index_rom[2], utxo);
    assert_eq!(mem.output_rom[2].0, f(43));
    assert_eq!(mem.ram[2].output, f(5));
    let irw = InterRoundWires::new(builder.rom_offset());
    assert_eq!(irw.current_program, f(1));
    assert_eq!(irw.utxos_len, f(1));
    assert_eq!(irw.n_finalized, f(0));
}
