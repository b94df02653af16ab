//! The history of referenceable transactions, which later disputes,
//! resolves and chargebacks look up by transaction id.
use vstd::prelude::*;
use std::collections::HashMap;
use crate::account::Amount;

verus! {

broadcast use vstd::std_specs::hash::group_hash_axioms;

/// What is remembered of a referenceable transaction.
#[derive(Clone, Copy, Debug, PartialEq, Eq)]
pub enum Entry {
    /// An applied deposit of this amount.
    Deposit(Amount),
    /// An approved withdrawal of this amount.
    Withdrawal(Amount),
    /// A transaction of this amount that is currently under dispute.
    Dispute(Amount),
    /// A disputed transaction of this amount that was charged back; it can be
    /// neither disputed, resolved nor charged back again.
    ChargedBack(Amount),
}

/// At most one entry per transaction id.
pub struct TxHistory {
    entries: HashMap<u32, Entry>,
}

impl View for TxHistory {
    type V = Map<u32, Entry>;

    closed spec fn view(&self) -> Map<u32, Entry> {
        self.entries@
    }
}

impl TxHistory {
    /// An empty history.
    pub fn new() -> (r: TxHistory)
        ensures
            r@ == Map::<u32, Entry>::empty(),
    {
        TxHistory { entries: HashMap::new() }
    }

    /// The entry of transaction `tx`, if there is one.
    pub fn get(&self, tx: u32) -> (r: Option<Entry>)
        ensures
            r == (if self@.contains_key(tx) { Some(self@[tx]) } else { None::<Entry> }),
    {
        match self.entries.get(&tx) {
            Some(e) => Some(*e),
            None => None,
        }
    }

    /// Sets the entry of transaction `tx`, replacing any earlier one.
    pub fn record(&mut self, tx: u32, e: Entry)
        ensures
            final(self)@ == old(self)@.insert(tx, e),
    {
        self.entries.insert(tx, e);
    }

    /// Drops the entry of transaction `tx`.
    pub fn remove(&mut self, tx: u32)
        ensures
            final(self)@ == old(self)@.remove(tx),
    {
        self.entries.remove(&tx);
    }
}

} // verus!
