//! Blocks: a list of transactions, the digest of the block before, and the
//! block's own digest.

use vstd::prelude::*;
use crate::digest::{collide, is_digest, sha256_digest, sha256_hex};
use crate::transaction::{
    delimiter, lemma_entry_is_self_delimiting, views, Transaction, TransactionView,
};

verus! {

/// The canonical texts of the transactions, in order, each followed by the
/// delimiter.
///
/// An address may itself contain the delimiter, and then two different lists
/// can have the same entries. Where no address does, the entries determine
/// the list: see [`lemma_entries_are_injective`].
pub open spec fn entries(transactions: Seq<TransactionView>) -> Seq<char>
    decreases transactions.len(),
{
    if transactions.len() == 0 {
        Seq::empty()
    } else {
        entries(transactions.drop_last()) + transactions.last().entry()
    }
}

/// The text that is hashed for a block: the previous block's digest and the
/// delimiter, then the block's entries.
pub open spec fn block_preimage(
    previous_hash: Seq<char>,
    transactions: Seq<TransactionView>,
) -> Seq<char> {
    previous_hash + delimiter() + entries(transactions)
}

/// The digest of a block with the given predecessor digest and transactions.
pub open spec fn block_hash(
    previous_hash: Seq<char>,
    transactions: Seq<TransactionView>,
) -> Seq<char> {
    sha256_hex(block_preimage(previous_hash, transactions))
}

/// Two lists of transactions agree in content: they are equally long, and at
/// each position the two transactions have the same sender, recipient and
/// amount.
pub open spec fn same_contents(a: Seq<TransactionView>, b: Seq<TransactionView>) -> bool {
    &&& a.len() == b.len()
    &&& forall|i: int| 0 <= i < a.len() ==> (#[trigger] a[i]).same_content(b[i])
}

/// The digest of a block depends on nothing but the previous digest and the
/// content of the transactions, in order: blocks that agree on these have the
/// same digest, whenever and wherever it is computed, and whenever the
/// transactions were created.
pub proof fn lemma_hash_is_determined(
    previous_hash: Seq<char>,
    a: Seq<TransactionView>,
    b: Seq<TransactionView>,
)
    requires
        same_contents(a, b),
    ensures
        entries(a) == entries(b),
        block_preimage(previous_hash, a) == block_preimage(previous_hash, b),
        block_hash(previous_hash, a) == block_hash(previous_hash, b),
    decreases a.len(),
{
    if a.len() > 0 {
        assert(a.last().same_content(b.last()));
        assert(a.last().entry() =~= b.last().entry());
        lemma_hash_is_determined(previous_hash, a.drop_last(), b.drop_last());
    }
}

/// The entries of a list that is not empty are the first transaction's entry,
/// then the entries of the rest.
pub proof fn lemma_entries_from_the_front(transactions: Seq<TransactionView>)
    requires
        transactions.len() > 0,
    ensures
        entries(transactions) == transactions.first().entry() + entries(
            transactions.drop_first(),
        ),
    decreases transactions.len(),
{
    if transactions.len() == 1 {
        assert(entries(transactions.drop_last()) =~= Seq::empty());
        assert(entries(transactions.drop_first()) =~= Seq::empty());
        assert(entries(transactions) =~= transactions.first().entry() + entries(
            transactions.drop_first(),
        ));
    } else {
        let shorter = transactions.drop_last();
        lemma_entries_from_the_front(shorter);
        assert(shorter.drop_first() =~= transactions.drop_first().drop_last());
        assert(transactions.drop_first().last() == transactions.last());
        assert(entries(transactions) =~= transactions.first().entry() + entries(
            transactions.drop_first(),
        ));
    }
}

/// Where no address contains the delimiter, the entries tell everything
/// about the transactions that a block hashes: lists with the same entries
/// agree in number, order and content.
pub proof fn lemma_entries_are_injective(a: Seq<TransactionView>, b: Seq<TransactionView>)
    requires
        forall|i: int| 0 <= i < a.len() ==> (#[trigger] a[i]).has_plain_addresses(),
        forall|i: int| 0 <= i < b.len() ==> (#[trigger] b[i]).has_plain_addresses(),
        entries(a) == entries(b),
    ensures
        same_contents(a, b),
    decreases a.len(),
{
    if a.len() == 0 {
        if b.len() > 0 {
            assert(entries(b).len() >= b.last().entry().len() > 0);
        }
    } else if b.len() == 0 {
        assert(entries(a).len() >= a.last().entry().len() > 0);
    } else {
        lemma_entries_from_the_front(a);
        lemma_entries_from_the_front(b);
        let rest_a = a.drop_first();
        let rest_b = b.drop_first();
        assert(a.first().has_plain_addresses());
        assert(b.first().has_plain_addresses());
        lemma_entry_is_self_delimiting(a.first(), entries(rest_a), b.first(), entries(rest_b));
        assert forall|i: int| 0 <= i < rest_a.len() implies (#[trigger] rest_a[i]).has_plain_addresses() by {
            assert(rest_a[i] == a[i + 1]);
        }
        assert forall|i: int| 0 <= i < rest_b.len() implies (#[trigger] rest_b[i]).has_plain_addresses() by {
            assert(rest_b[i] == b[i + 1]);
        }
        lemma_entries_are_injective(rest_a, rest_b);
        assert forall|i: int| 0 <= i < a.len() implies (#[trigger] a[i]).same_content(b[i]) by {
            if i > 0 {
                assert(a[i] == rest_a[i - 1]);
                assert(b[i] == rest_b[i - 1]);
            }
        }
    }
}

/// Where no address contains the delimiter, blocks with the same predecessor
/// are hashed from the same text only if their transactions agree in number,
/// order and content.
pub proof fn lemma_preimage_is_injective(
    previous_hash: Seq<char>,
    a: Seq<TransactionView>,
    b: Seq<TransactionView>,
)
    requires
        forall|i: int| 0 <= i < a.len() ==> (#[trigger] a[i]).has_plain_addresses(),
        forall|i: int| 0 <= i < b.len() ==> (#[trigger] b[i]).has_plain_addresses(),
        block_preimage(previous_hash, a) == block_preimage(previous_hash, b),
    ensures
        same_contents(a, b),
{
    let prefix = previous_hash + delimiter();
    assert(entries(a) =~= block_preimage(previous_hash, a).skip(prefix.len() as int));
    assert(entries(b) =~= block_preimage(previous_hash, b).skip(prefix.len() as int));
    lemma_entries_are_injective(a, b);
}

/// Two transactions that differ in content, with addresses free of the
/// delimiter, are hashed from different texts in their two orders.
pub proof fn lemma_swap_changes_preimage(
    previous_hash: Seq<char>,
    a: TransactionView,
    b: TransactionView,
)
    requires
        a.has_plain_addresses(),
        b.has_plain_addresses(),
        !a.same_content(b),
    ensures
        block_preimage(previous_hash, seq![a, b]) != block_preimage(previous_hash, seq![b, a]),
{
    let ab = seq![a, b];
    let ba = seq![b, a];
    if block_preimage(previous_hash, ab) == block_preimage(previous_hash, ba) {
        lemma_preimage_is_injective(previous_hash, ab, ba);
        assert(ab[0].same_content(ba[0]));
    }
}

/// Order matters: a block of two transactions and the block of the same two
/// in the other order have different digests, unless the two orders are
/// hashed from one and the same text or from two texts on which SHA-256
/// collides.
pub proof fn lemma_order_sensitive(previous_hash: Seq<char>, a: TransactionView, b: TransactionView)
    requires
        block_preimage(previous_hash, seq![a, b]) != block_preimage(previous_hash, seq![b, a]),
        !collide(
            block_preimage(previous_hash, seq![a, b]),
            block_preimage(previous_hash, seq![b, a]),
        ),
    ensures
        block_hash(previous_hash, seq![a, b]) != block_hash(previous_hash, seq![b, a]),
{
}

/// Writes out the text that is hashed for a block: the previous block's
/// digest and the delimiter, then each transaction's canonical text and the
/// delimiter, in the order given.
pub fn block_text(previous_hash: &String, transactions: &Vec<Transaction>) -> (text: String)
    ensures
        text@ == block_preimage(previous_hash@, views(transactions@)),
{
    proof {
        reveal_strlit("-");
    }
    let mut text = previous_hash.clone();
    text.append("-");
    assert("-"@ =~= delimiter());
    assert(views(transactions@).take(0) =~= Seq::empty());
    let n = transactions.len();
    for i in 0..n
        invariant
            n == transactions@.len(),
            "-"@ == delimiter(),
            text@ == block_preimage(previous_hash@, views(transactions@).take(i as int)),
    {
        let entry = transactions[i].to_string();
        text.append(entry.as_str());
        text.append("-");
        proof {
            let before = views(transactions@).take(i as int);
            let after = views(transactions@).take(i + 1);
            assert(after.drop_last() =~= before);
            assert(after.last() == transactions@[i as int]@);
            assert(text@ =~= block_preimage(previous_hash@, after));
        }
    }
    assert(views(transactions@).take(n as int) =~= views(transactions@));
    text
}

/// Computes the digest of a block from the previous block's digest and the
/// block's transactions, taken in the order given.
pub fn calculate_block_hash(previous_hash: &String, transactions: &Vec<Transaction>) -> (hash:
    String)
    ensures
        hash@ == block_hash(previous_hash@, views(transactions@)),
        is_digest(hash@),
{
    sha256_digest(block_text(previous_hash, transactions))
}

/// What a [`Block`] is, as plain values.
pub struct BlockView {
    pub index: nat,
    pub hash: Seq<char>,
    pub previous_hash: Seq<char>,
    pub transactions: Seq<TransactionView>,
}

impl BlockView {
    /// The stored digest is the digest of the block's present content.
    pub open spec fn hash_is_current(self) -> bool {
        self.hash == block_hash(self.previous_hash, self.transactions)
    }

    /// What holds of every block: the stored digest is current, and it has
    /// the length of a digest.
    pub open spec fn wf(self) -> bool {
        self.hash_is_current() && is_digest(self.hash)
    }

    /// The block with one more transaction at the end and the digest that
    /// goes with it.
    pub open spec fn with_transaction(self, transaction: TransactionView) -> BlockView {
        sealed(self.index, self.previous_hash, self.transactions.push(transaction))
    }
}

/// The block at position `index` that follows a block with digest
/// `previous_hash`, holds `transactions` and stores the digest of this content.
pub open spec fn sealed(
    index: nat,
    previous_hash: Seq<char>,
    transactions: Seq<TransactionView>,
) -> BlockView {
    BlockView {
        index,
        hash: block_hash(previous_hash, transactions),
        previous_hash,
        transactions,
    }
}

/// A block of a chain.
///
/// The digest is derived, never set. Every function that makes or changes a
/// block leaves it with the digest of its present content, and the fields are
/// private, so no caller ever holds a block whose digest is stale.
#[derive(Debug)]
pub struct Block {
    index: usize,
    hash: String,
    previous_hash: String,
    transactions: Vec<Transaction>,
}

impl View for Block {
    type V = BlockView;

    closed spec fn view(&self) -> BlockView {
        BlockView {
            index: self.index as nat,
            hash: self.hash@,
            previous_hash: self.previous_hash@,
            transactions: views(self.transactions@),
        }
    }
}

impl Block {
    /// A block at position `index` that follows the block with digest
    /// `previous_hash` and holds `transactions`, which may be empty. Its
    /// digest is computed at once.
    pub fn new(index: usize, previous_hash: String, transactions: Vec<Transaction>) -> (block:
        Block)
        ensures
            block@ == sealed(index as nat, previous_hash@, views(transactions@)),
            block@.wf(),
    {
        let hash = calculate_block_hash(&previous_hash, &transactions);
        Block { index, hash, previous_hash, transactions }
    }

    /// Computes the digest of the block's present content and stores it.
    pub fn calculate_hash(&mut self)
        ensures
            final(self)@ == sealed(
                old(self)@.index,
                old(self)@.previous_hash,
                old(self)@.transactions,
            ),
            final(self)@.wf(),
    {
        let hash = calculate_block_hash(&self.previous_hash, &self.transactions);
        self.hash = hash;
    }

    /// Appends `transaction` to the block and recomputes the digest.
    pub fn push_transaction(&mut self, transaction: Transaction)
        ensures
            final(self)@ == old(self)@.with_transaction(transaction@),
            final(self)@.wf(),
    {
        self.transactions.push(transaction);
        self.calculate_hash();
        assert(views(self.transactions@) =~= views(old(self).transactions@).push(transaction@));
    }

    /// Makes a transaction with the given fields, stamped with the current
    /// time, appends it to the block and recomputes the digest.
    pub fn create_transaction(
        &mut self,
        sender_address: String,
        recipient_address: String,
        amount: u64,
    )
        ensures
            exists|transaction: TransactionView|
                {
                    &&& transaction.sender_address == sender_address@
                    &&& transaction.recipient_address == recipient_address@
                    &&& transaction.amount == amount as nat
                    &&& final(self)@ == old(self)@.with_transaction(transaction)
                },
            final(self)@.wf(),
    {
        let transaction = Transaction::new(sender_address, recipient_address, amount);
        self.push_transaction(transaction);
    }

    /// The block's position in its chain.
    pub fn index(&self) -> (index: usize)
        ensures
            index as nat == self@.index,
    {
        self.index
    }

    /// The block's digest.
    pub fn hash(&self) -> (hash: &String)
        ensures
            hash@ == self@.hash,
    {
        &self.hash
    }

    /// The digest of the block before this one.
    pub fn previous_hash(&self) -> (previous_hash: &String)
        ensures
            previous_hash@ == self@.previous_hash,
    {
        &self.previous_hash
    }

    /// The block's transactions, oldest first.
    pub fn transactions(&self) -> (transactions: &Vec<Transaction>)
        ensures
            views(transactions@) == self@.transactions,
    {
        &self.transactions
    }
}

} // verus!
