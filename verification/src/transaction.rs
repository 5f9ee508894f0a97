//! Value-transfer records and their canonical text.

use vstd::prelude::*;
use crate::clock::{now, Timestamp};
use crate::decimal::{
    append_decimal, decimal, is_digit, lemma_decimal_digits, lemma_decimal_injective,
};

verus! {

/// The text that separates the fields of a transaction, and the entries of a
/// block, in what gets hashed: a single `'-'`.
pub open spec fn delimiter() -> Seq<char> {
    seq!['-']
}

/// Whether a text is free of the delimiter.
pub open spec fn is_plain(text: Seq<char>) -> bool {
    forall|i: int| 0 <= i < text.len() ==> text[i] != '-'
}

/// What a [`Transaction`] is, as plain values.
pub struct TransactionView {
    pub sender_address: Seq<char>,
    pub recipient_address: Seq<char>,
    pub amount: nat,
    pub created_at: Timestamp,
}

impl TransactionView {
    /// The canonical text of a transaction: sender, recipient and the amount
    /// in decimal, joined by the delimiter. The time of creation is no part
    /// of it.
    pub open spec fn canonical(self) -> Seq<char> {
        self.sender_address + delimiter() + self.recipient_address + delimiter() + decimal(
            self.amount,
        )
    }

    /// The canonical text followed by the delimiter: what the transaction
    /// adds to the text that is hashed for its block.
    pub open spec fn entry(self) -> Seq<char> {
        self.canonical() + delimiter()
    }

    /// Neither address contains the delimiter.
    pub open spec fn has_plain_addresses(self) -> bool {
        is_plain(self.sender_address) && is_plain(self.recipient_address)
    }

    /// Two transactions have the same content when they agree on sender,
    /// recipient and amount; they may have been created at different times.
    pub open spec fn same_content(self, other: TransactionView) -> bool {
        &&& self.sender_address == other.sender_address
        &&& self.recipient_address == other.recipient_address
        &&& self.amount == other.amount
    }
}

/// Where two texts are each a delimiter-free head, the delimiter and a rest,
/// and the texts are equal, the heads are equal and the rests are equal.
pub proof fn lemma_split_at_delimiter(
    head1: Seq<char>,
    rest1: Seq<char>,
    head2: Seq<char>,
    rest2: Seq<char>,
)
    requires
        is_plain(head1),
        is_plain(head2),
        head1 + delimiter() + rest1 == head2 + delimiter() + rest2,
    ensures
        head1 == head2,
        rest1 == rest2,
{
    let text1 = head1 + delimiter() + rest1;
    let text2 = head2 + delimiter() + rest2;
    if head1.len() < head2.len() {
        assert(text1[head1.len() as int] == '-');
        assert(text2[head1.len() as int] == head2[head1.len() as int]);
    } else if head2.len() < head1.len() {
        assert(text2[head2.len() as int] == '-');
        assert(text1[head2.len() as int] == head1[head2.len() as int]);
    } else {
        assert(head1 =~= text1.take(head1.len() as int));
        assert(head2 =~= text2.take(head2.len() as int));
        assert(rest1 =~= text1.skip(head1.len() as int + 1));
        assert(rest2 =~= text2.skip(head2.len() as int + 1));
    }
}

/// The decimal notation of a number is free of the delimiter.
pub proof fn lemma_decimal_is_plain(n: nat)
    ensures
        is_plain(decimal(n)),
{
    lemma_decimal_digits(n);
    assert forall|i: int| 0 <= i < decimal(n).len() implies decimal(n)[i] != '-' by {
        assert(is_digit(decimal(n)[i]));
    }
}

/// Where the addresses are free of the delimiter, the text that follows a
/// transaction's entry can be told from the entry: if two entries, each
/// followed by some text, are equal, the transactions have the same content
/// and the texts that follow are equal.
pub proof fn lemma_entry_is_self_delimiting(
    a: TransactionView,
    after_a: Seq<char>,
    b: TransactionView,
    after_b: Seq<char>,
)
    requires
        a.has_plain_addresses(),
        b.has_plain_addresses(),
        a.entry() + after_a == b.entry() + after_b,
    ensures
        a.same_content(b),
        after_a == after_b,
{
    let d = delimiter();
    let a2 = decimal(a.amount) + d + after_a;
    let b2 = decimal(b.amount) + d + after_b;
    let a1 = a.recipient_address + d + a2;
    let b1 = b.recipient_address + d + b2;
    assert(a.entry() + after_a =~= a.sender_address + d + a1);
    assert(b.entry() + after_b =~= b.sender_address + d + b1);
    lemma_split_at_delimiter(a.sender_address, a1, b.sender_address, b1);
    lemma_split_at_delimiter(a.recipient_address, a2, b.recipient_address, b2);
    lemma_decimal_is_plain(a.amount);
    lemma_decimal_is_plain(b.amount);
    lemma_split_at_delimiter(decimal(a.amount), after_a, decimal(b.amount), after_b);
    lemma_decimal_injective(a.amount, b.amount);
}

/// A transfer of `amount` units from one address to another.
///
/// The amount is a whole number of the ledger's smallest unit. Addresses are
/// free text: nothing about their format is checked. A transaction cannot be
/// changed once it is made.
#[derive(Debug)]
pub struct Transaction {
    sender_address: String,
    recipient_address: String,
    amount: u64,
    created_at: Timestamp,
}

impl View for Transaction {
    type V = TransactionView;

    closed spec fn view(&self) -> TransactionView {
        TransactionView {
            sender_address: self.sender_address@,
            recipient_address: self.recipient_address@,
            amount: self.amount as nat,
            created_at: self.created_at,
        }
    }
}

impl Clone for Transaction {
    /// A copy with the same fields, the time of creation included.
    fn clone(&self) -> (copy: Transaction)
        ensures
            copy@ == self@,
    {
        Transaction {
            sender_address: self.sender_address.clone(),
            recipient_address: self.recipient_address.clone(),
            amount: self.amount,
            created_at: self.created_at,
        }
    }
}

impl Transaction {
    /// A transaction with the given fields, created at the given time.
    pub fn stamped(
        sender_address: String,
        recipient_address: String,
        amount: u64,
        created_at: Timestamp,
    ) -> (t: Transaction)
        ensures
            t@ == (TransactionView {
                sender_address: sender_address@,
                recipient_address: recipient_address@,
                amount: amount as nat,
                created_at,
            }),
    {
        Transaction { sender_address, recipient_address, amount, created_at }
    }

    /// A transaction with the given fields, created now. Its sender,
    /// recipient and amount are the ones given; its time of creation is
    /// whatever the system clock says.
    pub fn new(sender_address: String, recipient_address: String, amount: u64) -> (t: Transaction)
        ensures
            t@.sender_address == sender_address@,
            t@.recipient_address == recipient_address@,
            t@.amount == amount as nat,
    {
        Transaction::stamped(sender_address, recipient_address, amount, now())
    }

    /// The address the amount comes from.
    pub fn sender_address(&self) -> (s: &String)
        ensures
            s@ == self@.sender_address,
    {
        &self.sender_address
    }

    /// The address the amount goes to.
    pub fn recipient_address(&self) -> (s: &String)
        ensures
            s@ == self@.recipient_address,
    {
        &self.recipient_address
    }

    /// The amount, in the ledger's smallest unit.
    pub fn amount(&self) -> (a: u64)
        ensures
            a as nat == self@.amount,
    {
        self.amount
    }

    /// The time at which the transaction was made.
    pub fn created_at(&self) -> (at: Timestamp)
        ensures
            at == self@.created_at,
    {
        self.created_at
    }

    /// The canonical text of this transaction, which is what a block hashes.
    pub fn to_string(&self) -> (s: String)
        ensures
            s@ == self@.canonical(),
    {
        proof {
            reveal_strlit("-");
        }
        let mut s = self.sender_address.clone();
        s.append("-");
        s.append(self.recipient_address.as_str());
        s.append("-");
        append_decimal(&mut s, self.amount);
        assert("-"@ =~= delimiter());
        s
    }
}

/// The views of a list of transactions, in the same order.
pub open spec fn views(transactions: Seq<Transaction>) -> Seq<TransactionView> {
    Seq::new(transactions.len(), |i: int| transactions[i]@)
}

} // verus!
