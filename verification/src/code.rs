//! Loading and caching of contract code blobs.
//!
//! A blob is content-addressed by the 32-byte SHA-256 digest of its full
//! bytes; two blobs with the same digest are the same contract.  The cache
//! maps digests to loaded code and never hands out mutable views.

use vstd::prelude::*;

verus! {

/// What the SHA-256 digest of a byte sequence is.  The digest itself is
/// computed by the `sha2` crate; the contracts only rely on it being a
/// function of the input bytes.
pub uninterp spec fn sha256_of(bytes: Seq<u8>) -> Seq<u8>;

/// Relies on `sha2::Sha256` (`Digest::digest`): a 32-byte digest that
/// depends on the input bytes alone.
#[verifier::external_body]
fn sha256(bytes: &Vec<u8>) -> (r: Vec<u8>)
    ensures
        r@ == sha256_of(bytes@),
        r@.len() == 32,
{
    <sha2::Sha256 as sha2::Digest>::digest(bytes.as_slice()).to_vec()
}

/// A raw ID describing a contract in a content-addressable way.
#[derive(Debug)]
pub struct CodeHash {
    pub bytes: Vec<u8>,
}

/// Copy a byte vector element by element.
fn copy_bytes(v: &Vec<u8>) -> (r: Vec<u8>)
    ensures
        r@ == v@,
{
    let mut r: Vec<u8> = Vec::new();
    let mut i: usize = 0;
    while i < v.len()
        invariant
            i <= v.len(),
            r@ == v@.take(i as int),
        decreases v.len() - i,
    {
        r.push(v[i]);
        proof {
            assert(r@ =~= v@.take(i as int + 1));
        }
        i = i + 1;
    }
    proof {
        assert(v@.take(v@.len() as int) =~= v@);
    }
    r
}

impl CodeHash {
    /// A digest is exactly 32 bytes long.
    pub open spec fn wf(self) -> bool {
        self.bytes@.len() == 32
    }

    /// Hash the full contents of a blob.
    pub fn from_content(code: &Vec<u8>) -> (r: CodeHash)
        ensures
            r.wf(),
            r.bytes@ == sha256_of(code@),
    {
        CodeHash { bytes: sha256(code) }
    }

    /// The raw digest bytes.
    pub fn raw(&self) -> (r: Vec<u8>)
        ensures
            r@ == self.bytes@,
    {
        copy_bytes(&self.bytes)
    }
}

impl Clone for CodeHash {
    fn clone(&self) -> (r: CodeHash)
        ensures
            r.bytes@ == self.bytes@,
    {
        CodeHash { bytes: copy_bytes(&self.bytes) }
    }
}

impl PartialEq for CodeHash {
    fn eq(&self, other: &CodeHash) -> (r: bool) {
        let r = self.bytes == other.bytes;
        proof {
            if r {
                assert(self.bytes@ =~= other.bytes@);
            } else {
                assert(self.bytes@ != other.bytes@);
            }
        }
        r
    }
}

impl vstd::std_specs::cmp::PartialEqSpecImpl for CodeHash {
    open spec fn obeys_eq_spec() -> bool {
        true
    }

    open spec fn eq_spec(&self, other: &CodeHash) -> bool {
        self.bytes@ == other.bytes@
    }
}

/// A loaded but not instantiated contract blob, with its content digest.
/// Parsing into an engine module happens outside the library.
pub struct ContractCode {
    pub wasm: Vec<u8>,
    pub hash: CodeHash,
}

impl ContractCode {
    /// The digest field is the digest of the bytes held.
    pub open spec fn wf(self) -> bool {
        &&& self.hash.wf()
        &&& self.hash.bytes@ == sha256_of(self.wasm@)
    }

    /// Load a blob, computing its digest once.
    pub fn load(wasm: Vec<u8>) -> (r: ContractCode)
        ensures
            r.wf(),
            r.wasm@ == wasm@,
    {
        let hash = CodeHash::from_content(&wasm);
        ContractCode { wasm, hash }
    }

    /// The content digest.
    pub fn hash(&self) -> (r: CodeHash)
        ensures
            r.bytes@ == self.hash.bytes@,
    {
        self.hash.clone()
    }

    /// The raw blob bytes.
    pub fn wasm(&self) -> (r: &Vec<u8>)
        ensures
            r@ == self.wasm@,
    {
        &self.wasm
    }
}

/// Loading the same bytes twice yields the same digest: the digest is a
/// function of the blob contents alone.
pub proof fn lemma_code_hash_deterministic(a: ContractCode, b: ContractCode)
    requires
        a.wf(),
        b.wf(),
        a.wasm@ == b.wasm@,
    ensures
        a.hash.bytes@ == b.hash.bytes@,
{
}

/// A cache of loaded contract blobs, addressed by digest.
pub struct CodeCache {
    pub entries: Vec<(CodeHash, ContractCode)>,
}

impl CodeCache {
    /// Every entry is keyed by the digest of the code it holds, and no
    /// digest occurs twice.
    pub open spec fn wf(self) -> bool {
        &&& forall|i: int|
            0 <= i < self.entries@.len() ==> {
                &&& (#[trigger] self.entries@[i]).1.wf()
                &&& self.entries@[i].0.bytes@ == self.entries@[i].1.hash.bytes@
            }
        &&& forall|i: int, j: int|
            0 <= i < j < self.entries@.len()
                ==> (#[trigger] self.entries@[i]).0.bytes@ != (#[trigger] self.entries@[j]).0.bytes@
    }

    /// Whether some entry carries the given digest.
    pub open spec fn contains_hash(self, digest: Seq<u8>) -> bool {
        exists|i: int| 0 <= i < self.entries@.len() && (#[trigger] self.entries@[i]).0.bytes@ == digest
    }

    /// An empty cache.
    pub fn new() -> (r: CodeCache)
        ensures
            r.wf(),
            r.entries@.len() == 0,
    {
        CodeCache { entries: Vec::new() }
    }

    /// Load a blob into the cache and return its digest.  A blob whose
    /// digest is already present is deduplicated: the cache is unchanged.
    pub fn load_from_bytes(&mut self, wasm: Vec<u8>) -> (r: CodeHash)
        requires
            old(self).wf(),
        ensures
            final(self).wf(),
            r.wf(),
            r.bytes@ == sha256_of(wasm@),
            final(self).contains_hash(r.bytes@),
    {
        let code = ContractCode::load(wasm);
        let digest = code.hash();
        let mut i: usize = 0;
        while i < self.entries.len()
            invariant
                i <= self.entries.len(),
                forall|k: int| 0 <= k < i ==> (#[trigger] self.entries@[k]).0.bytes@ != digest.bytes@,
                self.wf(),
                digest.wf(),
                digest.bytes@ == code.hash.bytes@,
                code.wf(),
                code.wasm@ == wasm@,
            decreases self.entries.len() - i,
        {
            if self.entries[i].0 == digest {
                proof {
                    assert(self.entries@[i as int].0.bytes@ == digest.bytes@);
                }
                return digest;
            }
            i = i + 1;
        }
        let key = code.hash();
        self.entries.push((key, code));
        proof {
            let n = self.entries@.len() - 1;
            assert(self.entries@[n].0.bytes@ == digest.bytes@);
        }
        digest
    }

    /// Look up previously loaded code by digest.  Absent digests are the
    /// cache's one failure mode.
    pub fn get(&self, hash: &CodeHash) -> (r: Option<&ContractCode>)
        requires
            self.wf(),
        ensures
            match r {
                Some(code) => {
                    &&& code.wf()
                    &&& code.hash.bytes@ == hash.bytes@
                    &&& self.contains_hash(hash.bytes@)
                },
                None => !self.contains_hash(hash.bytes@),
            },
    {
        let mut i: usize = 0;
        while i < self.entries.len()
            invariant
                i <= self.entries.len(),
                forall|k: int| 0 <= k < i ==> (#[trigger] self.entries@[k]).0.bytes@ != hash.bytes@,
                self.wf(),
            decreases self.entries.len() - i,
        {
            if &self.entries[i].0 == hash {
                return Some(&self.entries[i].1);
            }
            i = i + 1;
        }
        None
    }
}

} // verus!
