use starstream_core::commit::IncrementalCommitment;
use starstream_core::field::Fp;
use starstream_core::ledger::LedgerOperation;
use starstream_core::poseidon2::{
    RoundConstants, matrix_diag_8_goldilocks, poseidon2_compress_8_to_4, poseidon2_hash,
};

fn f(v: u64) -> Fp {
    Fp::from_u64(v)
}

fn fp_vec(vals: &[u64]) -> Vec<Fp> {
    vals.iter().map(|&v| Fp::from_u64(v)).collect()
}

#[test]
fn test_poseidon2_gadget_basic() {
    let constants = RoundConstants::new_goldilocks_8_constants();
    let inputs = fp_vec(&[0, 0, 0, 0, 0, 0, 0, 0]);
    let output = poseidon2_hash(&inputs, &constants);
    let expected: [u64; 8] = [
        12033154258266855215,
        10280848056061907209,
        2185915012395546036,
        14655708400709920811,
        8156942431357196992,
        4422236401544933648,
        12369536641900949,
        7054567940610806767,
    ];
    let got: Vec<u64> = output.iter().map(|v| v.to_u64()).collect();
    assert_eq!(got, expected.to_vec());
}

#[test]
fn test_poseidon2_gadget_inc() {
    let constants = RoundConstants::new_goldilocks_8_constants();
    let inputs = fp_vec(&[1, 2, 3, 4, 5, 6, 7, 8]);
    let output = poseidon2_hash(&inputs, &constants);
    let expected: [u64; 8] = [
        18388235340048743902,
        11155847389840004280,
        8258921485236881363,
        13238911595928314283,
        1414783942044928333,
        14855162370750728991,
        872655314674193689,
        10410794385812429044,
    ];
    let got: Vec<u64> = output.iter().map(|v| v.to_u64()).collect();
    assert_eq!(got, expected.to_vec());
}

#[test]
fn compression_differs_from_input() {
    let constants = RoundConstants::new_goldilocks_8_constants();
    let inputs = fp_vec(&[1, 2, 3, 4, 0, 0, 0, 0]);
    let out = poseidon2_compress_8_to_4(&inputs, &constants);
    assert_eq!(out.len(), 4);
    assert_ne!(
        out.iter().map(|v| v.to_u64()).collect::<Vec<u64>>(),
        vec![1, 2, 3, 4]
    );
}

#[test]
fn test_constants_shape() {
    let c = RoundConstants::test_constants();
    assert_eq!(c.beginning_full_round_constants.len(), 32);
    assert_eq!(c.partial_round_constants.len(), 22);
    assert_eq!(c.ending_full_round_constants.len(), 32);
    assert_eq!(c.beginning_full_round_constants[0].to_u64(), 1);
    assert_eq!(c.partial_round_constants[0].to_u64(), 33);
    assert_eq!(c.ending_full_round_constants[0].to_u64(), 55);
    let diag = matrix_diag_8_goldilocks();
    assert_eq!(diag.len(), 8);
    assert_eq!(diag[0].to_u64(), 0xa98811a1fed4e3a5);
}

#[test]
fn incremental_commitment_deterministic() {
    // Hashing the operation sequence twice yields identical digests.
    let ops = vec![
        LedgerOperation::Resume {
            utxo_id: f(2),
            input: f(42),
            output: f(43),
        },
        LedgerOperation::YieldResume {
            utxo_id: f(2),
            output: f(42),
        },
        LedgerOperation::Yield {
            utxo_id: f(2),
            input: f(43),
        },
        LedgerOperation::DropUtxo { utxo_id: f(2) },
    ];

    let mut a = IncrementalCommitment::new();
    let mut b = IncrementalCommitment::new();
    for op in &ops {
        a.add_operation(op);
    }
    for op in &ops {
        b.add_operation(op);
    }
    let da = a.as_field_elements();
    let db = b.as_field_elements();
    assert_eq!(da.len(), 4);
    assert_eq!(
        da.iter().map(|v| v.to_u64()).collect::<Vec<u64>>(),
        db.iter().map(|v| v.to_u64()).collect::<Vec<u64>>()
    );
    // Padding operations do not contribute.
    let mut c = IncrementalCommitment::new();
    for op in &ops {
        c.add_operation(op);
    }
    c.add_operation(&LedgerOperation::Nop {});
    c.add_operation(&LedgerOperation::CheckUtxoOutput { utxo_id: f(2) });
    assert_eq!(
        da.iter().map(|v| v.to_u64()).collect::<Vec<u64>>(),
        c.as_field_elements()
            .iter()
            .map(|v| v.to_u64())
            .collect::<Vec<u64>>()
    );
    // A different sequence yields a different digest.
    let mut d = IncrementalCommitment::new();
    d.add_operation(&LedgerOperation::DropUtxo { utxo_id: f(2) });
    assert_ne!(
        da.iter().map(|v| v.to_u64()).collect::<Vec<u64>>(),
        d.as_field_elements()
            .iter()
            .map(|v| v.to_u64())
            .collect::<Vec<u64>>()
    );
}

#[test]
fn field_arithmetic_wraps_at_the_prime() {
    let p_minus_1 = Fp::from_u64(18446744069414584320);
    assert_eq!(p_minus_1.add(Fp::from_u64(1)).to_u64(), 0);
    assert_eq!(Fp::from_u64(18446744069414584321).to_u64(), 0);
    assert_eq!(Fp::from_u64(3).sub(Fp::from_u64(5)).to_u64(), 18446744069414584319);
    assert_eq!(Fp::from_u64(7).mul(Fp::from_u64(6)).to_u64(), 42);
    assert_eq!(
        p_minus_1.mul(p_minus_1).to_u64(),
        1,
        "(-1) * (-1) must be 1 in the field"
    );
}
