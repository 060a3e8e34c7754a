//! Verified core of the Starstream programmable-ledger execution engine.
//!
//! Smart-contract state lives as long-running coroutine programs (UTXOs).
//! A transaction instantiates or resumes several such coroutines, drives
//! them through yield/resume rendezvous points, dispatches algebraic
//! effects to dynamically registered handlers, and produces a witness
//! trace from which a sequence of ledger operations is distilled.  A
//! step-by-step constraint system then validates those operations against
//! the declared per-UTXO deltas, and a sponge-style commitment binds each
//! program's trace to a short digest.

pub mod field;
pub mod code;
pub mod ledger;
pub mod circuit;
pub mod poseidon2;
pub mod commit;
pub mod mocked;
pub mod ids;
pub mod types;
pub mod engine;
pub mod linker;
pub mod contracts;

pub use field::Fp;
