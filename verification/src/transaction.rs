//! Transactions as the consensus core sees them: a record with a fresh
//! identifier and a deterministic textual descriptor. The descriptor, not
//! the record, is what a block's payload hashes, so its rendering is fixed
//! here.

use vstd::prelude::*;
use vstd::string::StringExecFns;
use crate::hashing::{dec_chars_of, push_dec_chars};
use crate::runtime::{new_uuid, now_unix};

verus! {

/// What a transaction does.
#[derive(Debug, Clone, Copy, PartialEq, Eq, Structural)]
pub enum TransactionType {
    Transfer,
    Reward,
    Certificate,
}

/// A pending transaction: sender (absent for rewards and certificates),
/// recipient, amount, kind, and the identifier and time of creation.
pub struct Transaction {
    pub id: String,
    pub from: Option<String>,
    pub to: String,
    pub amount: u64,
    pub transaction_type: TransactionType,
    pub timestamp: u64,
}

/// The rendering of a transaction kind.
pub open spec fn type_text(t: TransactionType) -> Seq<char> {
    match t {
        TransactionType::Transfer => "Transfer"@,
        TransactionType::Reward => "Reward"@,
        TransactionType::Certificate => "Certificate"@,
    }
}

/// The deterministic descriptor of a transaction:
/// `kind:sender->recipient:amount@time#id`, with `SYSTEM` for an absent
/// sender.
pub open spec fn describe_tx(t: Transaction) -> Seq<char> {
    type_text(t.transaction_type) + ":"@ + (match t.from {
        Some(f) => f@,
        None => "SYSTEM"@,
    }) + "->"@ + t.to@ + ":"@ + dec_chars_of(t.amount as nat) + "@"@ + dec_chars_of(
        t.timestamp as nat,
    ) + "#"@ + t.id@
}

impl Transaction {
    /// Builds a transaction with a fresh identifier and the current time.
    pub fn new(
        from: Option<String>,
        to: String,
        amount: u64,
        transaction_type: TransactionType,
    ) -> (t: Transaction)
        ensures
            t.from == from,
            t.to == to,
            t.amount == amount,
            t.transaction_type == transaction_type,
    {
        Transaction {
            id: new_uuid(),
            from,
            to,
            amount,
            transaction_type,
            timestamp: now_unix(),
        }
    }

    /// Renders the descriptor that enters a block's payload.
    pub fn describe(&self) -> (r: String)
        ensures
            r@ == describe_tx(*self),
    {
        let mut r = String::new();
        match self.transaction_type {
            TransactionType::Transfer => r.append("Transfer"),
            TransactionType::Reward => r.append("Reward"),
            TransactionType::Certificate => r.append("Certificate"),
        }
        r.append(":");
        match &self.from {
            Some(f) => r.append(f.as_str()),
            None => r.append("SYSTEM"),
        }
        r.append("->");
        r.append(self.to.as_str());
        r.append(":");
        push_dec_chars(&mut r, self.amount);
        r.append("@");
        push_dec_chars(&mut r, self.timestamp);
        r.append("#");
        r.append(self.id.as_str());
        proof {
            assert(r@ =~= describe_tx(*self));
        }
        r
    }
}

} // verus!
