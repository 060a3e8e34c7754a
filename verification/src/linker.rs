//! Import-table classification: the three linker dialects.
//!
//! A guest module's imports are matched by module and name prefix.  The
//! coordination dialect turns `starstream_utxo:` operations into UTXO
//! interrupts; the UTXO dialect additionally links `starstream_token:`
//! bind and unbind operations; the token dialect links only the base
//! environment.  An import a dialect recognizes but does not implement
//! is reserved: instantiation succeeds, and only a call of it traps.
//! Names are UTF-8 byte strings.

use vstd::prelude::*;

use crate::types::LinkerDialect;

verus! {

/// How one import is fulfilled.
#[derive(Clone, Copy, Debug, PartialEq, Eq, Structural)]
pub enum ImportKind {
    /// Fulfilled by the base host environment.
    Base,
    /// Traps with a new-UTXO interrupt.
    UtxoNew,
    /// Traps with a resume interrupt.
    UtxoResume,
    /// Traps with a query interrupt.
    UtxoQuery,
    /// Traps with a mutate interrupt.
    UtxoMutate,
    /// Traps with a consume interrupt.
    UtxoConsume,
    /// Traps with a token-bind interrupt.
    TokenBind,
    /// Traps with a token-unbind interrupt.
    TokenUnbind,
    /// Recognized but not implemented: a call of it traps with a
    /// descriptive message.
    Reserved,
    /// Not available in this dialect: a call of it traps.
    Unavailable,
    /// An import the dialect rejects outright.
    Malformed,
}

/// Whether `p` is a prefix of `s`.
pub open spec fn spec_is_prefix(p: Seq<u8>, s: Seq<u8>) -> bool {
    p.len() <= s.len() && s.subrange(0, p.len() as int) == p
}

/// Prefix test on byte strings.
fn starts_with(s: &Vec<u8>, p: &Vec<u8>) -> (r: bool)
    ensures
        r == spec_is_prefix(p@, s@),
{
    if p.len() > s.len() {
        return false;
    }
    let mut i: usize = 0;
    while i < p.len()
        invariant
            p@.len() <= s@.len(),
            i <= p@.len(),
            forall|j: int| 0 <= j < i ==> s@[j] == p@[j],
        decreases p@.len() - i,
    {
        if s[i] != p[i] {
            proof {
                assert(s@.subrange(0, p@.len() as int)[i as int] != p@[i as int]);
            }
            return false;
        }
        i = i + 1;
    }
    proof {
        assert(s@.subrange(0, p@.len() as int) =~= p@);
    }
    true
}

/// The bytes of `s` after its first `n`.
fn suffix_after(s: &Vec<u8>, n: usize) -> (r: Vec<u8>)
    requires
        n <= s@.len(),
    ensures
        r@ == s@.subrange(n as int, s@.len() as int),
{
    let mut r: Vec<u8> = Vec::new();
    let mut i: usize = n;
    while i < s.len()
        invariant
            n <= i <= s@.len(),
            r@ == s@.subrange(n as int, i as int),
        decreases s@.len() - i,
    {
        r.push(s[i]);
        proof {
            assert(r@ =~= s@.subrange(n as int, i as int + 1));
        }
        i = i + 1;
    }
    r
}

/// The byte string `env`.
pub open spec fn spec_env_module() -> Seq<u8> {
    seq![101u8, 110u8, 118u8]
}

/// The byte string `env`, as a table.
fn env_module_bytes() -> (r: Vec<u8>)
    ensures
        r@ == spec_env_module(),
{
    let mut r: Vec<u8> = Vec::new();
    r.push(101);
    r.push(110);
    r.push(118);
    proof {
        assert(r@ =~= spec_env_module());
    }
    r
}

/// The byte string `starstream_utxo_env`.
pub open spec fn spec_utxo_env_module() -> Seq<u8> {
    seq![115u8, 116u8, 97u8, 114u8, 115u8, 116u8, 114u8, 101u8, 97u8, 109u8, 95u8, 117u8, 116u8, 120u8, 111u8, 95u8, 101u8, 110u8, 118u8]
}

/// The byte string `starstream_utxo_env`, as a table.
fn utxo_env_module_bytes() -> (r: Vec<u8>)
    ensures
        r@ == spec_utxo_env_module(),
{
    let mut r: Vec<u8> = Vec::new();
    r.push(115);
    r.push(116);
    r.push(97);
    r.push(114);
    r.push(115);
    r.push(116);
    r.push(114);
    r.push(101);
    r.push(97);
    r.push(109);
    r.push(95);
    r.push(117);
    r.push(116);
    r.push(120);
    r.push(111);
    r.push(95);
    r.push(101);
    r.push(110);
    r.push(118);
    proof {
        assert(r@ =~= spec_utxo_env_module());
    }
    r
}

/// The byte string `starstream_utxo:`.
pub open spec fn spec_utxo_module_prefix() -> Seq<u8> {
    seq![115u8, 116u8, 97u8, 114u8, 115u8, 116u8, 114u8, 101u8, 97u8, 109u8, 95u8, 117u8, 116u8, 120u8, 111u8, 58u8]
}

/// The byte string `starstream_utxo:`, as a table.
fn utxo_module_prefix_bytes() -> (r: Vec<u8>)
    ensures
        r@ == spec_utxo_module_prefix(),
{
    let mut r: Vec<u8> = Vec::new();
    r.push(115);
    r.push(116);
    r.push(97);
    r.push(114);
    r.push(115);
    r.push(116);
    r.push(114);
    r.push(101);
    r.push(97);
    r.push(109);
    r.push(95);
    r.push(117);
    r.push(116);
    r.push(120);
    r.push(111);
    r.push(58);
    proof {
        assert(r@ =~= spec_utxo_module_prefix());
    }
    r
}

/// The byte string `starstream_token:`.
pub open spec fn spec_token_module_prefix() -> Seq<u8> {
    seq![115u8, 116u8, 97u8, 114u8, 115u8, 116u8, 114u8, 101u8, 97u8, 109u8, 95u8, 116u8, 111u8, 107u8, 101u8, 110u8, 58u8]
}

/// The byte string `starstream_token:`, as a table.
fn token_module_prefix_bytes() -> (r: Vec<u8>)
    ensures
        r@ == spec_token_module_prefix(),
{
    let mut r: Vec<u8> = Vec::new();
    r.push(115);
    r.push(116);
    r.push(97);
    r.push(114);
    r.push(115);
    r.push(116);
    r.push(114);
    r.push(101);
    r.push(97);
    r.push(109);
    r.push(95);
    r.push(116);
    r.push(111);
    r.push(107);
    r.push(101);
    r.push(110);
    r.push(58);
    proof {
        assert(r@ =~= spec_token_module_prefix());
    }
    r
}

/// The byte string `starstream_new_`.
pub open spec fn spec_new_prefix() -> Seq<u8> {
    seq![115u8, 116u8, 97u8, 114u8, 115u8, 116u8, 114u8, 101u8, 97u8, 109u8, 95u8, 110u8, 101u8, 119u8, 95u8]
}

/// The byte string `starstream_new_`, as a table.
fn new_prefix_bytes() -> (r: Vec<u8>)
    ensures
        r@ == spec_new_prefix(),
{
    let mut r: Vec<u8> = Vec::new();
    r.push(115);
    r.push(116);
    r.push(97);
    r.push(114);
    r.push(115);
    r.push(116);
    r.push(114);
    r.push(101);
    r.push(97);
    r.push(109);
    r.push(95);
    r.push(110);
    r.push(101);
    r.push(119);
    r.push(95);
    proof {
        assert(r@ =~= spec_new_prefix());
    }
    r
}

/// The byte string `starstream_resume_`.
pub open spec fn spec_resume_prefix() -> Seq<u8> {
    seq![115u8, 116u8, 97u8, 114u8, 115u8, 116u8, 114u8, 101u8, 97u8, 109u8, 95u8, 114u8, 101u8, 115u8, 117u8, 109u8, 101u8, 95u8]
}

/// The byte string `starstream_resume_`, as a table.
fn resume_prefix_bytes() -> (r: Vec<u8>)
    ensures
        r@ == spec_resume_prefix(),
{
    let mut r: Vec<u8> = Vec::new();
    r.push(115);
    r.push(116);
    r.push(97);
    r.push(114);
    r.push(115);
    r.push(116);
    r.push(114);
    r.push(101);
    r.push(97);
    r.push(109);
    r.push(95);
    r.push(114);
    r.push(101);
    r.push(115);
    r.push(117);
    r.push(109);
    r.push(101);
    r.push(95);
    proof {
        assert(r@ =~= spec_resume_prefix());
    }
    r
}

/// The byte string `starstream_query_`.
pub open spec fn spec_query_prefix() -> Seq<u8> {
    seq![115u8, 116u8, 97u8, 114u8, 115u8, 116u8, 114u8, 101u8, 97u8, 109u8, 95u8, 113u8, 117u8, 101u8, 114u8, 121u8, 95u8]
}

/// The byte string `starstream_query_`, as a table.
fn query_prefix_bytes() -> (r: Vec<u8>)
    ensures
        r@ == spec_query_prefix(),
{
    let mut r: Vec<u8> = Vec::new();
    r.push(115);
    r.push(116);
    r.push(97);
    r.push(114);
    r.push(115);
    r.push(116);
    r.push(114);
    r.push(101);
    r.push(97);
    r.push(109);
    r.push(95);
    r.push(113);
    r.push(117);
    r.push(101);
    r.push(114);
    r.push(121);
    r.push(95);
    proof {
        assert(r@ =~= spec_query_prefix());
    }
    r
}

/// The byte string `starstream_mutate_`.
pub open spec fn spec_mutate_prefix() -> Seq<u8> {
    seq![115u8, 116u8, 97u8, 114u8, 115u8, 116u8, 114u8, 101u8, 97u8, 109u8, 95u8, 109u8, 117u8, 116u8, 97u8, 116u8, 101u8, 95u8]
}

/// The byte string `starstream_mutate_`, as a table.
fn mutate_prefix_bytes() -> (r: Vec<u8>)
    ensures
        r@ == spec_mutate_prefix(),
{
    let mut r: Vec<u8> = Vec::new();
    r.push(115);
    r.push(116);
    r.push(97);
    r.push(114);
    r.push(115);
    r.push(116);
    r.push(114);
    r.push(101);
    r.push(97);
    r.push(109);
    r.push(95);
    r.push(109);
    r.push(117);
    r.push(116);
    r.push(97);
    r.push(116);
    r.push(101);
    r.push(95);
    proof {
        assert(r@ =~= spec_mutate_prefix());
    }
    r
}

/// The byte string `starstream_consume_`.
pub open spec fn spec_consume_prefix() -> Seq<u8> {
    seq![115u8, 116u8, 97u8, 114u8, 115u8, 116u8, 114u8, 101u8, 97u8, 109u8, 95u8, 99u8, 111u8, 110u8, 115u8, 117u8, 109u8, 101u8, 95u8]
}

/// The byte string `starstream_consume_`, as a table.
fn consume_prefix_bytes() -> (r: Vec<u8>)
    ensures
        r@ == spec_consume_prefix(),
{
    let mut r: Vec<u8> = Vec::new();
    r.push(115);
    r.push(116);
    r.push(97);
    r.push(114);
    r.push(115);
    r.push(116);
    r.push(114);
    r.push(101);
    r.push(97);
    r.push(109);
    r.push(95);
    r.push(99);
    r.push(111);
    r.push(110);
    r.push(115);
    r.push(117);
    r.push(109);
    r.push(101);
    r.push(95);
    proof {
        assert(r@ =~= spec_consume_prefix());
    }
    r
}

/// The byte string `starstream_status_`.
pub open spec fn spec_status_prefix() -> Seq<u8> {
    seq![115u8, 116u8, 97u8, 114u8, 115u8, 116u8, 114u8, 101u8, 97u8, 109u8, 95u8, 115u8, 116u8, 97u8, 116u8, 117u8, 115u8, 95u8]
}

/// The byte string `starstream_status_`, as a table.
fn status_prefix_bytes() -> (r: Vec<u8>)
    ensures
        r@ == spec_status_prefix(),
{
    let mut r: Vec<u8> = Vec::new();
    r.push(115);
    r.push(116);
    r.push(97);
    r.push(114);
    r.push(115);
    r.push(116);
    r.push(114);
    r.push(101);
    r.push(97);
    r.push(109);
    r.push(95);
    r.push(115);
    r.push(116);
    r.push(97);
    r.push(116);
    r.push(117);
    r.push(115);
    r.push(95);
    proof {
        assert(r@ =~= spec_status_prefix());
    }
    r
}

/// The byte string `starstream_event_`.
pub open spec fn spec_event_prefix() -> Seq<u8> {
    seq![115u8, 116u8, 97u8, 114u8, 115u8, 116u8, 114u8, 101u8, 97u8, 109u8, 95u8, 101u8, 118u8, 101u8, 110u8, 116u8, 95u8]
}

/// The byte string `starstream_event_`, as a table.
fn event_prefix_bytes() -> (r: Vec<u8>)
    ensures
        r@ == spec_event_prefix(),
{
    let mut r: Vec<u8> = Vec::new();
    r.push(115);
    r.push(116);
    r.push(97);
    r.push(114);
    r.push(115);
    r.push(116);
    r.push(114);
    r.push(101);
    r.push(97);
    r.push(109);
    r.push(95);
    r.push(101);
    r.push(118);
    r.push(101);
    r.push(110);
    r.push(116);
    r.push(95);
    proof {
        assert(r@ =~= spec_event_prefix());
    }
    r
}

/// The byte string `starstream_handle_`.
pub open spec fn spec_handle_prefix() -> Seq<u8> {
    seq![115u8, 116u8, 97u8, 114u8, 115u8, 116u8, 114u8, 101u8, 97u8, 109u8, 95u8, 104u8, 97u8, 110u8, 100u8, 108u8, 101u8, 95u8]
}

/// The byte string `starstream_handle_`, as a table.
fn handle_prefix_bytes() -> (r: Vec<u8>)
    ensures
        r@ == spec_handle_prefix(),
{
    let mut r: Vec<u8> = Vec::new();
    r.push(115);
    r.push(116);
    r.push(97);
    r.push(114);
    r.push(115);
    r.push(116);
    r.push(114);
    r.push(101);
    r.push(97);
    r.push(109);
    r.push(95);
    r.push(104);
    r.push(97);
    r.push(110);
    r.push(100);
    r.push(108);
    r.push(101);
    r.push(95);
    proof {
        assert(r@ =~= spec_handle_prefix());
    }
    r
}

/// The byte string `starstream_bind_`.
pub open spec fn spec_bind_prefix() -> Seq<u8> {
    seq![115u8, 116u8, 97u8, 114u8, 115u8, 116u8, 114u8, 101u8, 97u8, 109u8, 95u8, 98u8, 105u8, 110u8, 100u8, 95u8]
}

/// The byte string `starstream_bind_`, as a table.
fn bind_prefix_bytes() -> (r: Vec<u8>)
    ensures
        r@ == spec_bind_prefix(),
{
    let mut r: Vec<u8> = Vec::new();
    r.push(115);
    r.push(116);
    r.push(97);
    r.push(114);
    r.push(115);
    r.push(116);
    r.push(114);
    r.push(101);
    r.push(97);
    r.push(109);
    r.push(95);
    r.push(98);
    r.push(105);
    r.push(110);
    r.push(100);
    r.push(95);
    proof {
        assert(r@ =~= spec_bind_prefix());
    }
    r
}

/// The byte string `starstream_unbind_`.
pub open spec fn spec_unbind_prefix() -> Seq<u8> {
    seq![115u8, 116u8, 97u8, 114u8, 115u8, 116u8, 114u8, 101u8, 97u8, 109u8, 95u8, 117u8, 110u8, 98u8, 105u8, 110u8, 100u8, 95u8]
}

/// The byte string `starstream_unbind_`, as a table.
fn unbind_prefix_bytes() -> (r: Vec<u8>)
    ensures
        r@ == spec_unbind_prefix(),
{
    let mut r: Vec<u8> = Vec::new();
    r.push(115);
    r.push(116);
    r.push(97);
    r.push(114);
    r.push(115);
    r.push(116);
    r.push(114);
    r.push(101);
    r.push(97);
    r.push(109);
    r.push(95);
    r.push(117);
    r.push(110);
    r.push(98);
    r.push(105);
    r.push(110);
    r.push(100);
    r.push(95);
    proof {
        assert(r@ =~= spec_unbind_prefix());
    }
    r
}

/// How a dialect fulfills an import, by module and name prefix.
pub open spec fn spec_classify(dialect: LinkerDialect, module: Seq<u8>, name: Seq<u8>) -> ImportKind {
    match dialect {
        LinkerDialect::Coordination => {
            if module == spec_env_module() {
                ImportKind::Base
            } else if spec_is_prefix(spec_utxo_module_prefix(), module) {
                if spec_is_prefix(spec_new_prefix(), name) {
                    ImportKind::UtxoNew
                } else if spec_is_prefix(spec_status_prefix(), name) {
                    ImportKind::Reserved
                } else if spec_is_prefix(spec_resume_prefix(), name) {
                    ImportKind::UtxoResume
                } else if spec_is_prefix(spec_query_prefix(), name) {
                    ImportKind::UtxoQuery
                } else if spec_is_prefix(spec_mutate_prefix(), name) {
                    ImportKind::UtxoMutate
                } else if spec_is_prefix(spec_consume_prefix(), name) {
                    ImportKind::UtxoConsume
                } else if spec_is_prefix(spec_event_prefix(), name) {
                    ImportKind::Reserved
                } else if spec_is_prefix(spec_handle_prefix(), name) {
                    ImportKind::Reserved
                } else {
                    ImportKind::Malformed
                }
            } else {
                ImportKind::Unavailable
            }
        },
        LinkerDialect::Utxo => {
            if module == spec_env_module() || module == spec_utxo_env_module() {
                ImportKind::Base
            } else if spec_is_prefix(spec_token_module_prefix(), module) {
                if spec_is_prefix(spec_bind_prefix(), name) {
                    ImportKind::TokenBind
                } else if spec_is_prefix(spec_unbind_prefix(), name) {
                    ImportKind::TokenUnbind
                } else {
                    ImportKind::Unavailable
                }
            } else {
                ImportKind::Unavailable
            }
        },
        LinkerDialect::Token => {
            if module == spec_env_module() || module == spec_utxo_env_module() {
                ImportKind::Base
            } else {
                ImportKind::Unavailable
            }
        },
    }
}

/// The contract name a UTXO or token operation targets: the module name
/// after its dialect prefix.
pub open spec fn spec_import_contract(module: Seq<u8>, kind: ImportKind) -> Seq<u8> {
    match kind {
        ImportKind::UtxoNew
        | ImportKind::UtxoResume
        | ImportKind::UtxoQuery
        | ImportKind::UtxoMutate
        | ImportKind::UtxoConsume => module.subrange(
            spec_utxo_module_prefix().len() as int,
            module.len() as int,
        ),
        ImportKind::TokenBind | ImportKind::TokenUnbind => module.subrange(
            spec_token_module_prefix().len() as int,
            module.len() as int,
        ),
        _ => Seq::empty(),
    }
}

/// Classify one import of a guest module: how the dialect fulfills it
/// and, for UTXO and token operations, which contract the module name
/// targets.
pub fn classify_import(dialect: LinkerDialect, module: &Vec<u8>, name: &Vec<u8>) -> (r: (
    ImportKind,
    Vec<u8>,
))
    ensures
        r.0 == spec_classify(dialect, module@, name@),
        r.1@ == spec_import_contract(module@, r.0),
{
    let env = env_module_bytes();
    let utxo_env = utxo_env_module_bytes();
    let utxo_mod = utxo_module_prefix_bytes();
    let token_mod = token_module_prefix_bytes();
    match dialect {
        LinkerDialect::Coordination => {
            if bytes_equal(module, &env) {
                (ImportKind::Base, Vec::new())
            } else if starts_with(module, &utxo_mod) {
                let contract = suffix_after(module, utxo_mod.len());
                let kind = if starts_with(name, &new_prefix_bytes()) {
                    ImportKind::UtxoNew
                } else if starts_with(name, &status_prefix_bytes()) {
                    ImportKind::Reserved
                } else if starts_with(name, &resume_prefix_bytes()) {
                    ImportKind::UtxoResume
                } else if starts_with(name, &query_prefix_bytes()) {
                    ImportKind::UtxoQuery
                } else if starts_with(name, &mutate_prefix_bytes()) {
                    ImportKind::UtxoMutate
                } else if starts_with(name, &consume_prefix_bytes()) {
                    ImportKind::UtxoConsume
                } else if starts_with(name, &event_prefix_bytes()) {
                    ImportKind::Reserved
                } else if starts_with(name, &handle_prefix_bytes()) {
                    ImportKind::Reserved
                } else {
                    ImportKind::Malformed
                };
                match kind {
                    ImportKind::UtxoNew
                    | ImportKind::UtxoResume
                    | ImportKind::UtxoQuery
                    | ImportKind::UtxoMutate
                    | ImportKind::UtxoConsume => (kind, contract),
                    _ => (kind, Vec::new()),
                }
            } else {
                (ImportKind::Unavailable, Vec::new())
            }
        },
        LinkerDialect::Utxo => {
            if bytes_equal(module, &env) || bytes_equal(module, &utxo_env) {
                (ImportKind::Base, Vec::new())
            } else if starts_with(module, &token_mod) {
                let contract = suffix_after(module, token_mod.len());
                if starts_with(name, &bind_prefix_bytes()) {
                    (ImportKind::TokenBind, contract)
                } else if starts_with(name, &unbind_prefix_bytes()) {
                    (ImportKind::TokenUnbind, contract)
                } else {
                    (ImportKind::Unavailable, Vec::new())
                }
            } else {
                (ImportKind::Unavailable, Vec::new())
            }
        },
        LinkerDialect::Token => {
            if bytes_equal(module, &env) || bytes_equal(module, &utxo_env) {
                (ImportKind::Base, Vec::new())
            } else {
                (ImportKind::Unavailable, Vec::new())
            }
        },
    }
}

/// Compare two byte strings.
fn bytes_equal(a: &Vec<u8>, b: &Vec<u8>) -> (r: bool)
    ensures
        r == (a@ == b@),
{
    let r = a == b;
    proof {
        if r {
            assert(a@ =~= b@);
        } else {
            assert(a@ != b@);
        }
    }
    r
}

} // verus!
