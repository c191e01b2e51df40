use vstd::prelude::*;
use crate::block::{block_digest, now_millis, Block};
use crate::digest::{lemma_digest_ascii, sha256_hex_of, str_leading_zeros};
use crate::encoding::hash_preimage;
use crate::leading_zeros_ok;

verus! {

/// The owning chain of blocks and the shared mining difficulty.
#[derive(Debug, Clone)]
pub struct Blockchain {
    /// The first block created for the chain.
    pub genesis_block: Block,
    /// The storage for the blocks, beginning with genesis.
    pub chain: Vec<Block>,
    /// The number of leading `'0'` characters a mined hash must carry.
    pub difficulty: usize,
}

/// Blocks that agree on every field.
pub open spec fn blocks_match(a: Block, b: Block) -> bool {
    &&& a.index == b.index
    &&& a.timestamp == b.timestamp
    &&& a.proof_of_work == b.proof_of_work
    &&& a.previous_hash@ == b.previous_hash@
    &&& a.hash@ == b.hash@
}

/// What one successful append adds: exactly one block at the tail, carrying
/// the next index, linked to the hash the previous tail block linked to,
/// stamped with its own content hash, solved for the chain's difficulty by
/// the least nonce that solves it; every block before the tail is untouched.
pub open spec fn appended(pre: Blockchain, post: Blockchain) -> bool {
    let n = pre.chain@.len() as int;
    let nb = post.chain@[n];
    &&& post.chain@.len() == n + 1
    &&& forall|i: int| 0 <= i < n ==> post.chain@[i] == pre.chain@[i]
    &&& nb.index == n
    &&& nb.previous_hash@ == pre.chain@[n - 1].previous_hash@
    &&& nb.hash@ == block_digest(nb)
    &&& leading_zeros_ok(nb.hash@, pre.difficulty as int)
    &&& forall|j: u64|
        j < nb.proof_of_work ==> !leading_zeros_ok(
            sha256_hex_of(hash_preimage(nb.index, nb.timestamp, j, nb.previous_hash@)),
            pre.difficulty as int,
        )
}

/// No nonce at all gives the canonical encoding of a block with these
/// fields a hash with `d` leading `'0'` characters.
pub open spec fn no_nonce_solves(position: u64, ts: u64, prev: Seq<char>, d: int) -> bool {
    forall|j: u64|
        !leading_zeros_ok(sha256_hex_of(#[trigger] hash_preimage(position, ts, j, prev)), d)
}

/// For some creation time, no nonce at all solves the canonical encoding of
/// the next block: the whole nonce space was searched in vain. No feasible
/// difficulty ever reaches this.
pub open spec fn mining_exhausted(pre: Blockchain) -> bool {
    exists|ts: u64|
        #[trigger] no_nonce_solves(
            pre.chain@.len() as u64,
            ts,
            pre.chain@[pre.chain@.len() - 1].previous_hash@,
            pre.difficulty as int,
        )
}

impl Blockchain {
    /// Well-formedness of a ledger: the chain starts with the never-mined
    /// genesis block, which the standalone field mirrors; block indices
    /// equal their positions; each later block links to the hash its
    /// predecessor linked to, and carries its own solved content hash.
    pub open spec fn wf(self) -> bool {
        &&& 1 <= self.chain@.len()
        &&& forall|i: int| 0 <= i < self.chain@.len() ==> (#[trigger] self.chain@[i]).index == i
        &&& self.chain@[0].previous_hash@ == Seq::<char>::empty()
        &&& self.chain@[0].hash@ == Seq::<char>::empty()
        &&& self.chain@[0].proof_of_work == 0
        &&& blocks_match(self.genesis_block, self.chain@[0])
        &&& forall|i: int|
            1 <= i < self.chain@.len() ==> (#[trigger] self.chain@[i]).previous_hash@
                == self.chain@[i - 1].previous_hash@
        &&& forall|i: int|
            1 <= i < self.chain@.len() ==> (#[trigger] self.chain@[i]).hash@ == block_digest(
                self.chain@[i],
            )
        &&& forall|i: int|
            1 <= i < self.chain@.len() ==> leading_zeros_ok(
                (#[trigger] self.chain@[i]).hash@,
                self.difficulty as int,
            )
    }

    /// Creates a ledger holding only the genesis block: position zero, the
    /// current time, a zero nonce, and empty hashes, never mined.
    pub fn new(difficulty: usize) -> (r: Blockchain)
        ensures
            r.wf(),
            r.difficulty == difficulty,
            r.chain@.len() == 1,
            r.chain@[0].index == 0,
            r.chain@[0].proof_of_work == 0,
            r.chain@[0].previous_hash@ == Seq::<char>::empty(),
            r.chain@[0].hash@ == Seq::<char>::empty(),
            blocks_match(r.genesis_block, r.chain@[0]),
    {
        let ts = now_millis();
        let genesis_block = Block {
            index: 0,
            timestamp: ts,
            proof_of_work: 0,
            previous_hash: String::new(),
            hash: String::new(),
        };
        let mut chain: Vec<Block> = Vec::new();
        chain.push(
            Block {
                index: 0,
                timestamp: ts,
                proof_of_work: 0,
                previous_hash: String::new(),
                hash: String::new(),
            },
        );
        Blockchain { genesis_block, chain, difficulty }
    }

    /// Appends the next block: it takes the next position, links to the
    /// hash the current tail block links to, and is mined with the ledger's
    /// difficulty before it is stored. The ledger grows by exactly one
    /// block, and no other block is touched; only the never-reached
    /// exhaustion of the nonce space leaves the ledger as it was.
    pub fn add_block(&mut self)
        requires
            1 <= old(self).chain@.len(),
        ensures
            final(self).difficulty == old(self).difficulty,
            final(self).genesis_block == old(self).genesis_block,
            appended(*old(self), *final(self)) || (*final(self) == *old(self)
                && mining_exhausted(*old(self))),
            old(self).wf() ==> final(self).wf(),
    {
        let n = self.chain.len();
        let tail: &Block = &self.chain[n - 1];
        let prev = tail.previous_hash.clone();
        let mut nb = Block::new(n as u64, prev);
        nb.mine(self.difficulty);
        proof {
            lemma_digest_ascii(
                hash_preimage(nb.index, nb.timestamp, nb.proof_of_work, nb.previous_hash@),
            );
        }
        if str_leading_zeros(nb.hash.as_str(), self.difficulty) {
            self.chain.push(nb);
            proof {
                assert(appended(*old(self), *self));
                if old(self).wf() {
                    assert(self.wf());
                }
            }
        } else {
            proof {
                assert(no_nonce_solves(
                    old(self).chain@.len() as u64,
                    nb.timestamp,
                    old(self).chain@[old(self).chain@.len() - 1].previous_hash@,
                    old(self).difficulty as int,
                ));
            }
        }
    }
}

/// Monotonic positions: in a well-formed ledger every block carries the
/// position at which it is stored, so the positions read 0, 1, 2, ... in
/// storage order.
pub proof fn lemma_positions(c: Blockchain)
    requires
        c.wf(),
    ensures
        forall|i: int| 0 <= i < c.chain@.len() ==> (#[trigger] c.chain@[i]).index == i,
{
}

/// Linkage rule: in a well-formed ledger every block after genesis links to
/// the hash its predecessor itself linked to, not to the predecessor's own
/// content hash.
pub proof fn lemma_linkage(c: Blockchain)
    requires
        c.wf(),
    ensures
        forall|i: int|
            1 <= i < c.chain@.len() ==> (#[trigger] c.chain@[i]).previous_hash@
                == c.chain@[i - 1].previous_hash@,
{
}

/// Difficulty predicate: in a well-formed ledger every block after genesis
/// carries its own content hash, beginning with at least the ledger
/// difficulty's worth of `'0'` characters.
pub proof fn lemma_difficulty(c: Blockchain)
    requires
        c.wf(),
    ensures
        forall|i: int|
            1 <= i < c.chain@.len() ==> (#[trigger] c.chain@[i]).hash@ == block_digest(
                c.chain@[i],
            ) && leading_zeros_ok(c.chain@[i].hash@, c.difficulty as int),
{
}

} // verus!
