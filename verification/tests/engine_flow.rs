use starstream_core::code::CodeHash;
use starstream_core::engine::TxEngine;
use starstream_core::types::{
    Action, Interrupt, LinkerDialect, Outcome, TxError, Val,
};

fn coord_hash() -> CodeHash {
    CodeHash::from_content(&b"coordination blob".to_vec())
}

fn utxo_hash() -> CodeHash {
    CodeHash::from_content(&b"utxo blob".to_vec())
}

fn fin(values: Vec<Val>) -> Outcome {
    Outcome::Finished {
        values,
        token_return: None,
    }
}

fn intr(interrupt: Interrupt) -> Outcome {
    Outcome::Interrupted { interrupt }
}

/// Start a transaction and create one yielded UTXO; returns the engine
/// and the UTXO's scrambled handle.
fn engine_with_yielded_utxo() -> (TxEngine, u64) {
    let mut e = TxEngine::new(coord_hash());
    let a = e.begin(b"main".to_vec(), vec![], 0);
    match a {
        Action::Start {
            program, dialect, ..
        } => {
            assert_eq!(program.0, 0);
            assert_eq!(dialect, LinkerDialect::Coordination);
        }
        _ => panic!("expected a start"),
    }
    let a = e
        .advance(
            intr(Interrupt::UtxoNew {
                code: utxo_hash(),
                entry_point: b"starstream_new_MyMain_new".to_vec(),
                inputs: vec![],
            }),
            10,
        )
        .unwrap();
    match a {
        Action::Start {
            program, dialect, ..
        } => {
            assert_eq!(program.0, 1);
            assert_eq!(dialect, LinkerDialect::Utxo);
        }
        _ => panic!("expected a start"),
    }
    let a = e
        .advance(
            intr(Interrupt::Yield {
                name: b"MyMain".to_vec(),
                data: 1024,
                resume_arg: 2048,
                resume_arg_len: 8,
            }),
            20,
        )
        .unwrap();
    let handle = match a {
        Action::Resume {
            program, inputs, ..
        } => {
            assert_eq!(program.0, 0, "the yield returns to the creator");
            assert_eq!(inputs.len(), 1, "the first yield delivers the fresh handle");
            match inputs[0] {
                Val::I64(h) => h as u64,
                _ => panic!("the handle is an integer slot"),
            }
        }
        _ => panic!("expected a resume"),
    };
    (e, handle)
}

#[test]
fn mint_and_query() {
    let (mut e, handle) = engine_with_yielded_utxo();
    let a = e
        .advance(
            intr(Interrupt::UtxoQuery {
                utxo_handle: handle,
                method: b"starstream_query_MyMain_get_supply".to_vec(),
                inputs: vec![],
            }),
            30,
        )
        .unwrap();
    match a {
        Action::CallMethod {
            program,
            instance_of,
            ref inputs,
            ..
        } => {
            assert_eq!(program.0, 2);
            assert_eq!(instance_of.0, 1);
            // The address the UTXO yielded is prepended for the method.
            assert_eq!(inputs[0], Val::I32(1024));
        }
        _ => panic!("expected a method call"),
    }
    // A query leaves the UTXO suspended at the same yield.
    assert_eq!(e.yield_resume_len(handle), Some(8));
    // The method returns a supply of zero.
    let a = e.advance(fin(vec![Val::I32(0)]), 40).unwrap();
    match a {
        Action::Resume {
            program, inputs, ..
        } => {
            assert_eq!(program.0, 0);
            assert_eq!(inputs, vec![Val::I32(0)]);
        }
        _ => panic!("expected a resume"),
    }
    // The coordination script returns.
    let a = e.advance(fin(vec![Val::I32(0)]), 50).unwrap();
    match a {
        Action::Finish { value } => assert_eq!(value, Val::I32(0)),
        _ => panic!("expected the transaction to finish"),
    }
    // Witness chain: Root -> 0 -> 1 -> 0 -> 2 -> 0 -> Root, with every
    // program entered before it emits.
    assert_eq!(e.witnesses.len(), 6);
    assert!(e.witnesses[0].from_program.is_root());
    assert_eq!(e.witnesses[0].to_program.0, 0);
    assert_eq!(e.witnesses[1].from_program.0, 0);
    assert_eq!(e.witnesses[1].to_program.0, 1);
    assert_eq!(e.witnesses[2].from_program.0, 1);
    assert_eq!(e.witnesses[2].to_program.0, 0);
    assert_eq!(e.witnesses[3].from_program.0, 0);
    assert_eq!(e.witnesses[3].to_program.0, 2);
    assert_eq!(e.witnesses[4].from_program.0, 2);
    assert_eq!(e.witnesses[4].to_program.0, 0);
    assert_eq!(e.witnesses[5].from_program.0, 0);
    assert!(e.witnesses[5].to_program.is_root());
}

#[test]
fn resume_with_input() {
    let (mut e, handle) = engine_with_yielded_utxo();
    let reply = 5u64.to_le_bytes().to_vec();
    assert_eq!(e.yield_resume_len(handle), Some(8));
    let a = e
        .advance(
            intr(Interrupt::UtxoResume {
                utxo_handle: handle,
                inputs: vec![Val::I64(handle as i64), Val::I32(0)],
                resume_bytes: reply.clone(),
            }),
            30,
        )
        .unwrap();
    match a {
        Action::Resume {
            program, writes, ..
        } => {
            assert_eq!(program.0, 1);
            assert_eq!(writes.len(), 1);
            assert_eq!(writes[0].address, 2048);
            assert_eq!(writes[0].data, reply);
        }
        _ => panic!("expected a resume"),
    }
}

#[test]
fn wrong_reply_length_is_fatal() {
    let (mut e, handle) = engine_with_yielded_utxo();
    let r = e.advance(
        intr(Interrupt::UtxoResume {
            utxo_handle: handle,
            inputs: vec![],
            resume_bytes: vec![1, 2, 3],
        }),
        30,
    );
    assert_eq!(r.err(), Some(TxError::WrongReplyLength));
}

#[test]
fn burn_consumes_the_utxo() {
    let (mut e, handle) = engine_with_yielded_utxo();
    let a = e
        .advance(
            intr(Interrupt::UtxoConsume {
                utxo_handle: handle,
                method: b"starstream_consume_StarToken_burn".to_vec(),
                inputs: vec![],
            }),
            30,
        )
        .unwrap();
    match a {
        Action::CallMethod { program, .. } => assert_eq!(program.0, 2),
        _ => panic!("expected a method call"),
    }
    // The burn method returns the amount; it bubbles to the caller.
    let a = e.advance(fin(vec![Val::I64(17)]), 40).unwrap();
    match a {
        Action::Resume {
            program, inputs, ..
        } => {
            assert_eq!(program.0, 0);
            assert_eq!(inputs, vec![Val::I64(17)]);
        }
        _ => panic!("expected a resume"),
    }
    // A consume of the already finished program is a fatal protocol
    // violation.
    let r = e.advance(
        intr(Interrupt::UtxoConsume {
            utxo_handle: handle,
            method: b"starstream_consume_StarToken_burn".to_vec(),
            inputs: vec![],
        }),
        50,
    );
    assert_eq!(r.err(), Some(TxError::NotSuspendedInYield));
}

#[test]
fn unknown_utxo_id_is_fatal() {
    let mut e = TxEngine::new(coord_hash());
    let _ = e.begin(b"main".to_vec(), vec![], 0);
    let r = e.advance(
        intr(Interrupt::UtxoQuery {
            utxo_handle: 0xdead_beef_dead_beef,
            method: b"starstream_query_MyMain_get_supply".to_vec(),
            inputs: vec![],
        }),
        10,
    );
    assert_eq!(r.err(), Some(TxError::UnknownUtxoId));
}

#[test]
fn unregister_without_registration_is_fatal() {
    let mut e = TxEngine::new(coord_hash());
    let _ = e.begin(b"main".to_vec(), vec![], 0);
    let r = e.advance(
        intr(Interrupt::UnRegisterEffectHandler {
            name: b"TokenUnbound".to_vec(),
        }),
        10,
    );
    assert_eq!(r.err(), Some(TxError::UnregisterWithoutRegistration));
}

#[test]
fn imbalanced_registration_aborts() {
    let mut e = TxEngine::new(coord_hash());
    let _ = e.begin(b"main".to_vec(), vec![], 0);
    let a = e
        .advance(
            intr(Interrupt::RegisterEffectHandler {
                name: b"TokenUnbound".to_vec(),
                handler_addr: 7,
            }),
            10,
        )
        .unwrap();
    match a {
        Action::Resume { program, .. } => assert_eq!(program.0, 0),
        _ => panic!("expected a resume"),
    }
    // The coordination script returns with its handler still registered.
    let r = e.advance(fin(vec![]), 20);
    assert_eq!(r.err(), Some(TxError::HandlerImbalance));
}

#[test]
fn effect_dispatch() {
    let mut e = TxEngine::new(coord_hash());
    let _ = e.begin(b"main".to_vec(), vec![], 0);
    let _ = e
        .advance(
            intr(Interrupt::RegisterEffectHandler {
                name: b"TokenUnbound".to_vec(),
                handler_addr: 7,
            }),
            10,
        )
        .unwrap();
    let _ = e
        .advance(
            intr(Interrupt::UtxoNew {
                code: utxo_hash(),
                entry_point: b"starstream_new_MyMain_new".to_vec(),
                inputs: vec![],
            }),
            20,
        )
        .unwrap();
    // The UTXO raises with an eight-byte payload.
    let payload = vec![1, 2, 3, 4, 5, 6, 7, 8];
    let a = e
        .advance(
            intr(Interrupt::Raise {
                name: b"TokenUnbound".to_vec(),
                data: 500,
                data_len: 8,
                resume_arg: 600,
                resume_arg_len: 0,
                payload: payload.clone(),
            }),
            30,
        )
        .unwrap();
    match a {
        Action::CallMethod {
            program,
            instance_of,
            ref method,
            ref inputs,
        } => {
            assert_eq!(program.0, 2);
            assert_eq!(instance_of.0, 0, "the handler runs in its owner");
            assert_eq!(method, b"TokenUnbound_handle");
            assert_eq!(inputs, &vec![Val::I32(7)]);
        }
        _ => panic!("expected a handler call"),
    }
    assert_eq!(e.registered_effect_handler.len(), 1);
    // The handler reads the payload.
    let a = e
        .advance(
            intr(Interrupt::GetRaisedEffectData {
                name: b"TokenUnbound".to_vec(),
                output_ptr_data: 700,
                not_null: 704,
            }),
            40,
        )
        .unwrap();
    match a {
        Action::Resume {
            program, writes, ..
        } => {
            assert_eq!(program.0, 2);
            assert_eq!(writes.len(), 2);
            assert_eq!(writes[0].address, 704);
            assert_eq!(writes[0].data, vec![1]);
            assert_eq!(writes[1].address, 700);
            assert_eq!(writes[1].data, payload);
        }
        _ => panic!("expected a resume"),
    }
    // The handler replies with zero bytes; the raiser resumes.
    assert_eq!(e.raise_reply_len(&b"TokenUnbound".to_vec()), Some(0));
    let a = e
        .advance(
            intr(Interrupt::ResumeThrowingProgram {
                name: b"TokenUnbound".to_vec(),
                input_ptr_data: 800,
                data: vec![],
            }),
            50,
        )
        .unwrap();
    match a {
        Action::Resume { program, .. } => assert_eq!(program.0, 1),
        _ => panic!("expected the raiser to resume"),
    }
    assert!(e.raised_effects.is_empty());
    // The handler stack is unchanged by the whole dispatch.
    assert_eq!(e.registered_effect_handler.len(), 1);
    assert_eq!(e.registered_effect_handler[0].1.len(), 1);
}

#[test]
fn token_bind_and_unbind_round_trip() {
    let mut e = TxEngine::new(coord_hash());
    let _ = e.begin(b"main".to_vec(), vec![], 0);
    let _ = e
        .advance(
            intr(Interrupt::UtxoNew {
                code: utxo_hash(),
                entry_point: b"starstream_new_MyMain_new".to_vec(),
                inputs: vec![],
            }),
            10,
        )
        .unwrap();
    // The UTXO binds a token.
    let a = e
        .advance(
            intr(Interrupt::TokenBind {
                code: utxo_hash(),
                entry_point: b"starstream_bind_Token".to_vec(),
                inputs: vec![Val::I64(9)],
            }),
            20,
        )
        .unwrap();
    match a {
        Action::Start {
            program,
            dialect,
            ref inputs,
            ..
        } => {
            assert_eq!(program.0, 2);
            assert_eq!(dialect, LinkerDialect::Token);
            // The struct-return address is prepended.
            assert_eq!(inputs[0], Val::I32(16));
            assert_eq!(inputs[1], Val::I64(9));
        }
        _ => panic!("expected a token start"),
    }
    // The token program returns; its struct-return region holds the
    // stored pair (id 1003, amount 77).
    let mut region = Vec::new();
    region.extend_from_slice(&1003u64.to_le_bytes());
    region.extend_from_slice(&77u64.to_le_bytes());
    assert!(e.returning_token());
    let a = e
        .advance(
            Outcome::Finished {
                values: vec![],
                token_return: Some(region),
            },
            30,
        )
        .unwrap();
    let token_handle = match a {
        Action::Resume {
            program, inputs, ..
        } => {
            assert_eq!(program.0, 1, "the bound token reports to the UTXO");
            match inputs[0] {
                Val::I64(h) => h as u64,
                _ => panic!("the token handle is an integer slot"),
            }
        }
        _ => panic!("expected a resume"),
    };
    // The UTXO unbinds it: the pair observed at unbind equals the one
    // stored at bind, and the entry point is the paired unbind.
    let a = e
        .advance(intr(Interrupt::TokenUnbind { token_handle }), 40)
        .unwrap();
    match a {
        Action::Start {
            program,
            ref entry_point,
            ref inputs,
            ..
        } => {
            assert_eq!(program.0, 3);
            assert_eq!(entry_point, b"starstream_unbind_Token");
            assert_eq!(inputs, &vec![Val::I64(1003), Val::I64(77)]);
        }
        _ => panic!("expected the unbind to start"),
    }
    // The unbind program returns; control goes back to the UTXO.
    let _ = e.advance(fin(vec![]), 50).unwrap();
    // A second unbind of the same token is fatal: at most one matching
    // unbind per bind.
    let r = e.advance(intr(Interrupt::TokenUnbind { token_handle }), 60);
    assert_eq!(r.err(), Some(TxError::UnknownTokenId));
}

#[test]
fn token_bind_without_return_region_is_fatal() {
    let mut e = TxEngine::new(coord_hash());
    let _ = e.begin(b"main".to_vec(), vec![], 0);
    let _ = e
        .advance(
            intr(Interrupt::UtxoNew {
                code: utxo_hash(),
                entry_point: b"starstream_new_MyMain_new".to_vec(),
                inputs: vec![],
            }),
            10,
        )
        .unwrap();
    let _ = e
        .advance(
            intr(Interrupt::TokenBind {
                code: utxo_hash(),
                entry_point: b"starstream_bind_Token".to_vec(),
                inputs: vec![],
            }),
            20,
        )
        .unwrap();
    let r = e.advance(fin(vec![]), 30);
    assert_eq!(r.err(), Some(TxError::MalformedTokenReturn));
}

#[test]
fn raise_without_handler_is_fatal() {
    let mut e = TxEngine::new(coord_hash());
    let _ = e.begin(b"main".to_vec(), vec![], 0);
    let r = e.advance(
        intr(Interrupt::Raise {
            name: b"TokenUnbound".to_vec(),
            data: 0,
            data_len: 0,
            resume_arg: 0,
            resume_arg_len: 0,
            payload: vec![],
        }),
        10,
    );
    assert_eq!(r.err(), Some(TxError::NoHandlerRegistered));
}

#[test]
fn reply_to_unraised_effect_is_fatal() {
    let mut e = TxEngine::new(coord_hash());
    let _ = e.begin(b"main".to_vec(), vec![], 0);
    let r = e.advance(
        intr(Interrupt::ResumeThrowingProgram {
            name: b"TokenUnbound".to_vec(),
            input_ptr_data: 0,
            data: vec![],
        }),
        10,
    );
    assert_eq!(r.err(), Some(TxError::MissingEffect));
}

#[test]
fn outcome_without_running_program_is_fatal() {
    let mut e = TxEngine::new(coord_hash());
    let r = e.advance(fin(vec![]), 0);
    assert_eq!(r.err(), Some(TxError::NoProgramRunning));
}

#[test]
fn live_utxos_are_listed() {
    let (mut e, _handle) = engine_with_yielded_utxo();
    let live = e.utxos();
    assert_eq!(live.len(), 1);
    assert_eq!(live[0].1, b"starstream_new_MyMain_new".to_vec());
}
