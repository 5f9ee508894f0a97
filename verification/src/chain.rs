//! Chains: blocks in order, each naming the digest of the one before.

use vstd::prelude::*;
use crate::block::{calculate_block_hash, sealed, Block, BlockView};
use crate::digest::is_digest;
use crate::transaction::{views, Transaction, TransactionView};

verus! {

/// What the first block of a chain holds in place of a predecessor's digest:
/// the empty text. No digest is empty, so no block can follow a block whose
/// digest is the sentinel.
pub open spec fn sentinel() -> Seq<char> {
    Seq::empty()
}

/// The views of a list of blocks, in the same order.
pub open spec fn block_views(blocks: Seq<Block>) -> Seq<BlockView> {
    Seq::new(blocks.len(), |i: int| blocks[i]@)
}

/// Block `i` names the digest that block `i - 1` has now.
pub open spec fn linked(blocks: Seq<BlockView>, i: int) -> bool {
    blocks[i].previous_hash == blocks[i - 1].hash
}

/// Block `i` passes validation: its stored digest is the digest of its
/// content, and it is linked to the block before it.
pub open spec fn block_is_valid(blocks: Seq<BlockView>, i: int) -> bool {
    blocks[i].hash_is_current() && linked(blocks, i)
}

/// Every block after the first passes validation.
pub open spec fn chain_is_valid(blocks: Seq<BlockView>) -> bool {
    forall|i: int| 1 <= i < blocks.len() ==> block_is_valid(blocks, i)
}

/// What holds of every chain at all times: it has a first block, which
/// carries the sentinel; each block knows its position and stores the digest
/// of its content; and each later block names some digest as its predecessor's.
pub open spec fn well_formed(blocks: Seq<BlockView>) -> bool {
    &&& blocks.len() >= 1
    &&& blocks[0].previous_hash == sentinel()
    &&& forall|i: int| 0 <= i < blocks.len() ==> (#[trigger] blocks[i]).index == i
    &&& forall|i: int| 0 <= i < blocks.len() ==> (#[trigger] blocks[i]).wf()
    &&& forall|i: int| 1 <= i < blocks.len() ==> is_digest((#[trigger] blocks[i]).previous_hash)
}

/// The view of the first block of every new chain.
pub open spec fn genesis() -> BlockView {
    sealed(0, sentinel(), Seq::empty())
}

/// The view of a block that holds `transactions` and is appended to `blocks`:
/// it names the digest of the last of them.
pub open spec fn successor(blocks: Seq<BlockView>, transactions: Seq<TransactionView>) -> BlockView {
    sealed(blocks.len(), blocks.last().hash, transactions)
}

/// A digest is never the sentinel.
pub proof fn lemma_sentinel_is_no_digest(text: Seq<char>)
    requires
        is_digest(text),
    ensures
        text != sentinel(),
{
}

/// In a chain, the first block is the only one that carries the sentinel, and
/// no block has the sentinel for its own digest.
pub proof fn lemma_only_genesis_has_sentinel(blocks: Seq<BlockView>, i: int)
    requires
        well_formed(blocks),
        0 <= i < blocks.len(),
    ensures
        blocks[i].previous_hash == sentinel() <==> i == 0,
        blocks[i].hash != sentinel(),
{
    assert(blocks[i].wf());
}

/// A block appended to a chain is linked to the block that was last, and
/// passes validation; if the chain was valid before, it is valid after.
pub proof fn lemma_append_keeps_valid(blocks: Seq<BlockView>, transactions: Seq<TransactionView>)
    requires
        blocks.len() >= 1,
    ensures
        linked(blocks.push(successor(blocks, transactions)), blocks.len() as int),
        block_is_valid(blocks.push(successor(blocks, transactions)), blocks.len() as int),
        chain_is_valid(blocks) ==> chain_is_valid(blocks.push(successor(blocks, transactions))),
{
    let longer = blocks.push(successor(blocks, transactions));
    if chain_is_valid(blocks) {
        assert forall|i: int| 1 <= i < longer.len() implies block_is_valid(longer, i) by {
            if i < blocks.len() {
                assert(block_is_valid(blocks, i));
            }
        }
    }
}

/// When a transaction is added to block `index`, that block still stores the
/// digest of its content, and every block that passed validation before
/// passes it after, except perhaps the block at `index + 1`, which names the
/// digest that block `index` had before. So a valid chain stays valid when
/// the transaction goes to its last block.
pub proof fn lemma_change_breaks_successor_only(
    blocks: Seq<BlockView>,
    index: int,
    transaction: TransactionView,
)
    requires
        0 <= index < blocks.len(),
    ensures
        forall|i: int|
            1 <= i < blocks.len() && i != index + 1 && block_is_valid(blocks, i)
                ==> block_is_valid(
                blocks.update(index, blocks[index].with_transaction(transaction)),
                i,
            ),
        index + 1 >= blocks.len() && chain_is_valid(blocks) ==> chain_is_valid(
            blocks.update(index, blocks[index].with_transaction(transaction)),
        ),
{
    let changed = blocks.update(index, blocks[index].with_transaction(transaction));
    assert forall|i: int|
        1 <= i < blocks.len() && i != index + 1 && block_is_valid(blocks, i) implies block_is_valid(
        changed,
        i,
    ) by {
        assert(changed[i - 1].hash == blocks[i - 1].hash);
    }
    if index + 1 >= blocks.len() && chain_is_valid(blocks) {
        assert forall|i: int| 1 <= i < changed.len() implies block_is_valid(changed, i) by {
            assert(block_is_valid(blocks, i));
        }
    }
}

/// An append-only list of blocks that starts with a genesis block.
///
/// Blocks are only ever added at the end. A block keeps accepting
/// transactions after another block was appended behind it; its digest then
/// changes and its successor, which still names the old digest, no longer
/// passes validation.
#[derive(Debug)]
pub struct BlockChain {
    blocks: Vec<Block>,
}

impl View for BlockChain {
    type V = Seq<BlockView>;

    closed spec fn view(&self) -> Seq<BlockView> {
        block_views(self.blocks@)
    }
}

impl BlockChain {
    /// The chain's standing invariant, see [`well_formed`].
    pub open spec fn wf(&self) -> bool {
        well_formed(self@)
    }

    /// A chain of one block: the genesis block, without transactions and with
    /// the sentinel for a predecessor.
    pub fn new() -> (chain: BlockChain)
        ensures
            chain@ == seq![genesis()],
            chain.wf(),
            chain_is_valid(chain@),
    {
        let genesis_block = Block::new(0, String::new(), Vec::new());
        let mut blocks: Vec<Block> = Vec::new();
        blocks.push(genesis_block);
        let chain = BlockChain { blocks };
        assert(genesis_block@.transactions =~= Seq::empty());
        assert(chain@ =~= seq![genesis()]);
        chain
    }

    /// Appends a block that holds `transactions` and names the digest that the
    /// last block has at this moment. Returns the new block's position.
    pub fn append_block(&mut self, transactions: Vec<Transaction>) -> (index: usize)
        requires
            old(self).wf(),
        ensures
            final(self)@ == old(self)@.push(successor(old(self)@, views(transactions@))),
            final(self).wf(),
            index == old(self)@.len(),
            block_is_valid(final(self)@, index as int),
            chain_is_valid(old(self)@) ==> chain_is_valid(final(self)@),
    {
        let index = self.blocks.len();
        let previous_hash = self.blocks[index - 1].hash().clone();
        let block = Block::new(index, previous_hash, transactions);
        self.blocks.push(block);
        assert(self@ =~= old(self)@.push(successor(old(self)@, views(transactions@))));
        proof {
            lemma_append_keeps_valid(old(self)@, views(transactions@));
        }
        index
    }

    /// Appends `transaction` to the block at position `index` and recomputes
    /// that block's digest. Returns whether there is such a block; if there
    /// is none, the chain is left as it was.
    ///
    /// No other block changes. If the block has a successor, the successor
    /// keeps naming the digest that the block had before.
    pub fn push_transaction(&mut self, index: usize, transaction: Transaction) -> (found: bool)
        requires
            old(self).wf(),
        ensures
            found == (index < old(self)@.len()),
            !found ==> final(self)@ == old(self)@,
            found ==> final(self)@ == old(self)@.update(
                index as int,
                old(self)@[index as int].with_transaction(transaction@),
            ),
            final(self).wf(),
            index + 1 >= old(self)@.len() && chain_is_valid(old(self)@) ==> chain_is_valid(
                final(self)@,
            ),
    {
        if index >= self.blocks.len() {
            return false;
        }
        self.blocks[index].push_transaction(transaction);
        assert(self@ =~= old(self)@.update(
            index as int,
            old(self)@[index as int].with_transaction(transaction@),
        ));
        proof {
            lemma_change_breaks_successor_only(old(self)@, index as int, transaction@);
        }
        true
    }

    /// Makes a transaction with the given fields, stamped with the current
    /// time, and appends it to the block at position `index` as
    /// [`BlockChain::push_transaction`] does.
    pub fn create_transaction(
        &mut self,
        index: usize,
        sender_address: String,
        recipient_address: String,
        amount: u64,
    ) -> (found: bool)
        requires
            old(self).wf(),
        ensures
            found == (index < old(self)@.len()),
            !found ==> final(self)@ == old(self)@,
            found ==> exists|transaction: TransactionView|
                {
                    &&& transaction.sender_address == sender_address@
                    &&& transaction.recipient_address == recipient_address@
                    &&& transaction.amount == amount as nat
                    &&& final(self)@ == old(self)@.update(
                        index as int,
                        old(self)@[index as int].with_transaction(transaction),
                    )
                },
            final(self).wf(),
            index + 1 >= old(self)@.len() && chain_is_valid(old(self)@) ==> chain_is_valid(
                final(self)@,
            ),
    {
        let transaction = Transaction::new(sender_address, recipient_address, amount);
        self.push_transaction(index, transaction)
    }

    /// The position of the first block that does not pass validation, if
    /// there is one. The first block of the chain has no predecessor and is
    /// not examined.
    pub fn first_invalid(&self) -> (found: Option<usize>)
        ensures
            found.is_none() <==> chain_is_valid(self@),
            found matches Some(index) ==> {
                &&& 1 <= index < self@.len()
                &&& !block_is_valid(self@, index as int)
                &&& forall|i: int| 1 <= i < index ==> block_is_valid(self@, i)
            },
    {
        let n = self.blocks.len();
        let mut index: usize = 1;
        while index < n
            invariant
                1 <= index,
                n == self.blocks@.len(),
                forall|i: int| 1 <= i < index && i < n ==> block_is_valid(self@, i),
            decreases n - index,
        {
            let block = &self.blocks[index];
            let previous = &self.blocks[index - 1];
            let recomputed = calculate_block_hash(block.previous_hash(), block.transactions());
            let current = recomputed == *block.hash();
            let linked = *block.previous_hash() == *previous.hash();
            if !current || !linked {
                assert(!block_is_valid(self@, index as int));
                return Some(index);
            }
            assert(block_is_valid(self@, index as int));
            index += 1;
        }
        None
    }

    /// Whether the chain is intact: each block after the first stores the
    /// digest of its own content and names the digest that the block before
    /// it has now.
    pub fn validate(&self) -> (valid: bool)
        ensures
            valid == chain_is_valid(self@),
    {
        self.first_invalid().is_none()
    }

    /// The number of blocks.
    pub fn len(&self) -> (len: usize)
        ensures
            len == self@.len(),
    {
        self.blocks.len()
    }

    /// The block at position `index`, if there is one.
    pub fn block(&self, index: usize) -> (block: Option<&Block>)
        ensures
            index < self@.len() ==> block.is_some() && block.unwrap()@ == self@[index as int],
            index >= self@.len() ==> block.is_none(),
    {
        if index < self.blocks.len() {
            Some(&self.blocks[index])
        } else {
            None
        }
    }
}

} // verus!
