//! Reference contracts over plain values: a sorted-linked-list
//! blacklist, a permissioned token mint, and a pay-to-public-key-hash
//! UTXO.  These model the guest-side state machines that run as
//! coroutine programs; the host machinery (sleeping, effects, handles)
//! lives with the engine.

use vstd::prelude::*;

verus! {

/// The token identifier the permissioned token binds under.
pub const PERMISSIONED_TOKEN_ID: u64 = 1003;

/// The value a token carries between unbind and bind.
#[derive(Clone, Copy, Debug, PartialEq, Eq, Structural)]
pub struct TokenIntermediate {
    pub amount: i32,
}

/// One node of the sorted blacklist: a key and the next key above it.
#[derive(Clone, Copy, Debug, PartialEq, Eq, Structural)]
pub struct LinkedListNode {
    pub key: i32,
    pub next: i32,
}

impl LinkedListNode {
    /// A node over a key range.
    pub fn new(key: i32, next: i32) -> (r: LinkedListNode)
        ensures
            r.key == key,
            r.next == next,
    {
        LinkedListNode { key, next }
    }

    /// The node's key.
    pub fn get_key(&self) -> (r: i32)
        ensures
            r == self.key,
    {
        self.key
    }

    /// The next key above this node's.
    pub fn get_next(&self) -> (r: i32)
        ensures
            r == self.next,
    {
        self.next
    }

    /// Consume the node.
    pub fn burn(self) {
    }
}

/// Whether an address falls strictly between a node's key and its next
/// key: the proof that the address is not blacklisted.
pub fn is_in_range(proof_node: LinkedListNode, addr: i32) -> (r: bool)
    ensures
        r == (proof_node.key < addr && addr < proof_node.next),
{
    proof_node.get_key() < addr && addr < proof_node.get_next()
}

/// The empty blacklist: one node spanning the whole key space.
pub fn blacklist_empty() -> (r: LinkedListNode)
    ensures
        r.key == 0,
        r.next == i32::MAX,
{
    LinkedListNode::new(0, i32::MAX)
}

/// Insert a key into the blacklist: split the node that spans it into
/// two adjacent nodes.  The key must fall strictly inside the node's
/// range.
pub fn blacklist_insert(prev: LinkedListNode, new: i32) -> (r: (LinkedListNode, LinkedListNode))
    requires
        prev.key < new,
        new < prev.next,
    ensures
        r.0.key == prev.key,
        r.0.next == new,
        r.1.key == new,
        r.1.next == prev.next,
{
    let prev_next = prev.get_next();
    let prev_key = prev.get_key();
    prev.burn();
    (LinkedListNode::new(prev_key, new), LinkedListNode::new(new, prev_next))
}

/// The key a blacklist node carries.
pub fn blacklist_node_get_key(prev: LinkedListNode) -> (r: i32)
    ensures
        r == prev.key,
{
    prev.get_key()
}

/// The permissioned token's mint: issues intermediates on demand.
#[derive(Clone, Copy, Debug, PartialEq, Eq, Structural)]
pub struct TokenMint {}

impl TokenMint {
    /// A fresh mint.
    pub fn new() -> (r: TokenMint) {
        TokenMint {  }
    }

    /// Mint an intermediate of the requested amount.
    pub fn mint(&mut self, amount: i32) -> (r: TokenIntermediate)
        ensures
            r.amount == amount,
    {
        TokenIntermediate { amount }
    }
}

/// A UTXO owned by an address, optionally carrying one bound token.
#[derive(Clone, Copy, Debug, PartialEq, Eq, Structural)]
pub struct PayToPublicKeyHash {
    pub owner: i32,
    pub token: Option<TokenIntermediate>,
}

impl PayToPublicKeyHash {
    /// A fresh UTXO owned by `owner`, with no token bound.
    pub fn new(owner: i32) -> (r: PayToPublicKeyHash)
        ensures
            r.owner == owner,
            r.token is None,
    {
        PayToPublicKeyHash { owner, token: None }
    }

    /// The owning address.
    pub fn get_owner(&self) -> (r: i32)
        ensures
            r == self.owner,
    {
        self.owner
    }

    /// Bind a token intermediate to this UTXO.
    pub fn attach(&mut self, i: TokenIntermediate)
        ensures
            final(self).owner == old(self).owner,
            final(self).token == Some(i),
    {
        self.token = Some(i);
    }

    /// Consume the UTXO.
    pub fn burn(self) {
    }
}

} // verus!
