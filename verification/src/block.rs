use vstd::prelude::*;
use crate::digest::{
    ascii_to_string, has_zero_prefix, lemma_zeros_chars, sha256_hex, sha256_hex_vec, sha256_hex_of,
};
use crate::encoding::{hash_input, hash_preimage};
use crate::leading_zeros_ok;

verus! {

/// One proof-of-work-stamped record of the chain.
#[derive(Debug, Clone)]
pub struct Block {
    /// The index at which the block is stored in the chain.
    pub index: u64,
    /// The time the block was created, in milliseconds since the epoch.
    pub timestamp: u64,
    /// The block's proof of work: the nonce found by mining.
    pub proof_of_work: u64,
    /// The hash the block links to, taken from the block before it.
    pub previous_hash: String,
    /// The block's own content hash; empty until mining stores it.
    pub hash: String,
}

/// The content hash a block's fields determine: the digest of the canonical
/// encoding, in which the stored hash always reads as empty. The stored
/// `hash` field therefore plays no part in its own computation.
pub open spec fn block_digest(b: Block) -> Seq<char> {
    sha256_hex_of(hash_preimage(b.index, b.timestamp, b.proof_of_work, b.previous_hash@))
}

/// A block is solved for `difficulty` when its stored hash begins with that
/// many `'0'` characters.
pub open spec fn solved_at(b: Block, difficulty: int) -> bool {
    leading_zeros_ok(b.hash@, difficulty)
}

/// Relies on chrono's Utc::now and DateTime::timestamp_millis for the
/// current time in milliseconds; nothing is assumed of the value returned.
#[verifier::external_body]
pub(crate) fn now_millis() -> u64 {
    chrono::Utc::now().timestamp_millis() as u64
}

impl Block {
    /// Creates an unmined block: the given index and linked hash, the
    /// current time, a zero nonce, and an empty content hash.
    pub fn new(index: u64, previous_hash: String) -> (r: Block)
        ensures
            r.index == index,
            r.proof_of_work == 0,
            r.previous_hash@ == previous_hash@,
            r.hash@ == Seq::<char>::empty(),
    {
        Block {
            index,
            timestamp: now_millis(),
            proof_of_work: 0,
            previous_hash,
            hash: String::new(),
        }
    }

    /// Computes the block's content hash: the digest of its fields with the
    /// stored hash treated as empty. Pure in the block's fields, so two
    /// calls on an unchanged block return the same string.
    pub fn calculate_hash(&self) -> (r: String)
        ensures
            r@ == block_digest(*self),
            r@.len() == 64,
    {
        let input = hash_input(
            self.index,
            self.timestamp,
            self.proof_of_work,
            self.previous_hash.as_str(),
        );
        sha256_hex(input.as_slice())
    }

    /// Searches, from the current nonce upward, for the least nonce whose
    /// content hash begins with `difficulty` `'0'` characters, and stores
    /// that nonce and its hash. The search walks the whole remaining nonce
    /// space if it must; a difficulty that exhausts it without a solution
    /// lies far beyond anything that finishes in practice, and leaves the
    /// last candidate stored.
    pub fn mine(&mut self, difficulty: usize)
        ensures
            final(self).index == old(self).index,
            final(self).timestamp == old(self).timestamp,
            final(self).previous_hash@ == old(self).previous_hash@,
            old(self).proof_of_work <= final(self).proof_of_work,
            final(self).hash@ == block_digest(*final(self)),
            final(self).hash@.len() == 64,
            forall|j: u64|
                old(self).proof_of_work <= j < final(self).proof_of_work
                    ==> !leading_zeros_ok(
                    sha256_hex_of(
                        hash_preimage(
                            old(self).index,
                            old(self).timestamp,
                            j,
                            old(self).previous_hash@,
                        ),
                    ),
                    difficulty as int,
                ),
            !solved_at(*final(self), difficulty as int) ==> final(self).proof_of_work == u64::MAX
                && forall|j: u64|
                old(self).proof_of_work <= j ==> !leading_zeros_ok(
                    sha256_hex_of(
                        hash_preimage(
                            old(self).index,
                            old(self).timestamp,
                            j,
                            old(self).previous_hash@,
                        ),
                    ),
                    difficulty as int,
                ),
    {
        loop
            invariant
                self.index == old(self).index,
                self.timestamp == old(self).timestamp,
                self.previous_hash@ == old(self).previous_hash@,
                old(self).proof_of_work <= self.proof_of_work,
                forall|j: u64|
                    old(self).proof_of_work <= j < self.proof_of_work
                        ==> !leading_zeros_ok(
                        sha256_hex_of(
                            hash_preimage(
                                old(self).index,
                                old(self).timestamp,
                                j,
                                old(self).previous_hash@,
                            ),
                        ),
                        difficulty as int,
                    ),
            decreases u64::MAX - self.proof_of_work,
        {
            let input = hash_input(
                self.index,
                self.timestamp,
                self.proof_of_work,
                self.previous_hash.as_str(),
            );
            let hx = sha256_hex_vec(input.as_slice());
            let ok = has_zero_prefix(hx.as_slice(), difficulty);
            proof {
                lemma_zeros_chars(hx@, difficulty as int);
            }
            if ok || self.proof_of_work == u64::MAX {
                self.hash = ascii_to_string(hx);
                proof {
                    if !ok {
                        assert forall|j: u64| old(self).proof_of_work <= j implies !leading_zeros_ok(
                            sha256_hex_of(
                                hash_preimage(
                                    old(self).index,
                                    old(self).timestamp,
                                    j,
                                    old(self).previous_hash@,
                                ),
                            ),
                            difficulty as int,
                        ) by {
                            if j == u64::MAX {
                                assert(hx@ == crate::digest::hex_bytes(
                                    crate::digest::sha256_of(
                                        hash_preimage(
                                            old(self).index,
                                            old(self).timestamp,
                                            u64::MAX,
                                            old(self).previous_hash@,
                                        ),
                                    ),
                                ));
                            }
                        }
                    }
                }
                return;
            }
            self.proof_of_work = self.proof_of_work + 1;
        }
    }
}

/// Determinism of the content hash: blocks that agree on the hashed fields
/// have the same digest; the stored hash plays no part in it.
pub proof fn lemma_digest_deterministic(a: Block, b: Block)
    requires
        a.index == b.index,
        a.timestamp == b.timestamp,
        a.proof_of_work == b.proof_of_work,
        a.previous_hash@ == b.previous_hash@,
    ensures
        block_digest(a) == block_digest(b),
{
}

} // verus!
