//! Opaque 128-bit identifiers for UTXO and token instances, and the
//! per-transaction identity tables that map scrambled 64-bit aliases
//! back to them.
//!
//! A program inside the engine refers to an identifier through an
//! integer slot: encoding draws a fresh random alias and records it;
//! decoding an alias the table never issued is a protocol error.

use vstd::prelude::*;

verus! {

/// A stable 128-bit UTXO identifier.
#[derive(Clone, Copy, Debug, PartialEq, Eq, Structural)]
pub struct UtxoId(pub u128);

/// A stable 128-bit token identifier.
#[derive(Clone, Copy, Debug, PartialEq, Eq, Structural)]
pub struct TokenId(pub u128);

/// Relies on `rand::random`: a word drawn from the thread-local
/// generator.  Nothing is promised of its value.
#[verifier::external_body]
pub(crate) fn random_u64() -> (r: u64) {
    rand::random::<u64>()
}

/// Relies on `rand::random`: a double word drawn from the thread-local
/// generator.  Nothing is promised of its value.
#[verifier::external_body]
pub(crate) fn random_u128() -> (r: u128) {
    rand::random::<u128>()
}

impl UtxoId {
    /// A freshly drawn identifier.
    pub fn random() -> (r: UtxoId) {
        UtxoId(random_u128())
    }
}

impl TokenId {
    /// A freshly drawn identifier.
    pub fn random() -> (r: TokenId) {
        TokenId(random_u128())
    }
}

/// The alias a table maps to an identifier, if it issued the alias.
pub open spec fn spec_alias_lookup<T>(table: Seq<(u64, T)>, alias: u64) -> Option<T> {
    if exists|i: int| 0 <= i < table.len() && (#[trigger] table[i]).0 == alias {
        Some(table[choose|i: int| 0 <= i < table.len() && (#[trigger] table[i]).0 == alias].1)
    } else {
        None
    }
}

/// No alias occurs twice.
pub open spec fn spec_aliases_unique<T>(table: Seq<(u64, T)>) -> bool {
    forall|i: int, j: int|
        0 <= i < j < table.len() ==> (#[trigger] table[i]).0 != (#[trigger] table[j]).0
}

/// A per-transaction identity table: scrambled 64-bit aliases to stable
/// identifiers.
pub struct IdentityTable<T> {
    pub entries: Vec<(u64, T)>,
}

impl<T: Copy> IdentityTable<T> {
    /// Aliases are unique.
    pub open spec fn wf(self) -> bool {
        spec_aliases_unique(self.entries@)
    }

    /// An empty table.
    pub fn new() -> (r: IdentityTable<T>)
        ensures
            r.wf(),
            r.entries@.len() == 0,
    {
        IdentityTable { entries: Vec::new() }
    }

    /// Record an identifier under a freshly drawn alias and hand the
    /// alias out.  Drawing an alias that is already in use rebinds it,
    /// as a map insertion would.
    pub fn encode(&mut self, id: T) -> (r: u64)
        requires
            old(self).wf(),
        ensures
            final(self).wf(),
            spec_alias_lookup(final(self).entries@, r) == Some(id),
            forall|a: u64|
                spec_alias_lookup(old(self).entries@, a) is Some ==> spec_alias_lookup(
                    final(self).entries@,
                    a,
                ) is Some,
    {
        let alias = random_u64();
        let mut i: usize = 0;
        while i < self.entries.len()
            invariant
                i <= self.entries@.len(),
                self.wf(),
                self.entries@ == old(self).entries@,
                forall|j: int| 0 <= j < i ==> (#[trigger] self.entries@[j]).0 != alias,
            decreases self.entries@.len() - i,
        {
            if self.entries[i].0 == alias {
                self.entries[i] = (alias, id);
                proof {
                    let w = i as int;
                    assert(self.entries@[w].0 == alias);
                    assert forall|a: int, b: int|
                        0 <= a < b < self.entries@.len() implies (#[trigger] self.entries@[a]).0
                        != (#[trigger] self.entries@[b]).0 by {
                        assert(old(self).entries@[a].0 == self.entries@[a].0);
                        assert(old(self).entries@[b].0 == self.entries@[b].0);
                    }
                    let c = choose|k: int|
                        0 <= k < self.entries@.len() && (#[trigger] self.entries@[k]).0 == alias;
                    assert(c == w);
                    assert forall|a: u64|
                        spec_alias_lookup(old(self).entries@, a) is Some implies spec_alias_lookup(
                        self.entries@,
                        a,
                    ) is Some by {
                        let j = choose|k: int|
                            0 <= k < old(self).entries@.len() && (#[trigger] old(
                                self,
                            ).entries@[k]).0 == a;
                        assert(self.entries@[j].0 == a);
                    }
                }
                return alias;
            }
            i = i + 1;
        }
        self.entries.push((alias, id));
        proof {
            let w = self.entries@.len() - 1;
            assert(self.entries@[w].0 == alias);
            assert forall|a: int, b: int|
                0 <= a < b < self.entries@.len() implies (#[trigger] self.entries@[a]).0 != (
            #[trigger] self.entries@[b]).0 by {
                if b < w {
                } else {
                    assert(b == w);
                    assert(self.entries@[a] == old(self).entries@[a]);
                }
            }
            let c = choose|k: int|
                0 <= k < self.entries@.len() && (#[trigger] self.entries@[k]).0 == alias;
            assert(c == w);
            assert forall|a: u64|
                spec_alias_lookup(old(self).entries@, a) is Some implies spec_alias_lookup(
                self.entries@,
                a,
            ) is Some by {
                let j = choose|k: int|
                    0 <= k < old(self).entries@.len() && (#[trigger] old(self).entries@[k]).0 == a;
                assert(self.entries@[j].0 == a);
            }
        }
        alias
    }

    /// Look an alias up.  An alias the table never issued decodes to
    /// nothing: the program fabricated it.
    pub fn decode(&self, alias: u64) -> (r: Option<T>)
        requires
            self.wf(),
        ensures
            r == spec_alias_lookup(self.entries@, alias),
    {
        let mut i: usize = 0;
        while i < self.entries.len()
            invariant
                i <= self.entries@.len(),
                self.wf(),
                forall|j: int| 0 <= j < i ==> (#[trigger] self.entries@[j]).0 != alias,
            decreases self.entries@.len() - i,
        {
            if self.entries[i].0 == alias {
                proof {
                    let c = choose|k: int|
                        0 <= k < self.entries@.len() && (#[trigger] self.entries@[k]).0 == alias;
                    assert(c == i as int);
                }
                return Some(self.entries[i].1);
            }
            i = i + 1;
        }
        None
    }
}

/// Identity-table round trip: an identifier encoded into an integer slot
/// and decoded through the same table comes back unchanged.
pub proof fn lemma_encode_decode_round_trip<T>(table: Seq<(u64, T)>, alias: u64, id: T)
    requires
        spec_alias_lookup(table, alias) == Some(id),
    ensures
        spec_alias_lookup(table, alias) is Some,
        spec_alias_lookup(table, alias)->0 == id,
{
}

} // verus!
