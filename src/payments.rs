//! Transaction records and the rules by which each kind of record moves
//! account balances and the transaction history.
use vstd::prelude::*;
use crate::account::{Amount, AmountType, Client, balanced};
use crate::history::{Entry, TxHistory};
use crate::ledger::{Ledger, account_in, consistent};

verus! {

/// The kind of a transaction record.
#[derive(Clone, Copy, Debug, PartialEq, Eq)]
pub enum TxKind {
    Deposit,
    Withdrawal,
    Dispute,
    Resolve,
    Chargeback,
}

/// One input record. `amount` is required for deposits and withdrawals and
/// not read for the other kinds, which refer to an earlier transaction `tx`.
#[derive(Clone, Copy, Debug, PartialEq, Eq)]
pub struct Transaction {
    pub kind: TxKind,
    pub client: u16,
    pub tx: u32,
    pub amount: Option<Amount>,
}

/// How a record that did not fail was handled.
#[derive(Clone, Copy, Debug, PartialEq, Eq)]
pub enum Outcome {
    /// The record's rule was applied.
    Applied,
    /// A business rule turned the record down; nothing but the creation of
    /// the account it names may have happened, and processing goes on.
    Ignored,
}

/// A failed record. Every failure leaves the ledger and the history as they
/// were, and ends a run.
#[derive(Clone, Copy, Debug, PartialEq, Eq)]
pub enum TxError {
    /// An unknown kind, or a deposit or withdrawal without an amount.
    MalformedRecord,
    /// A resolve or chargeback whose account holds less than the disputed
    /// amount.
    InsufficientFunds,
    /// A resolve or chargeback of a transaction that is not under dispute.
    UnknownOrMismatchedReference,
    /// A resolve on a locked account.
    AccountLocked,
    /// A deposit that would take a balance past the largest amount.
    AmountOverflow,
}

/// The amount of a transaction that may be disputed now: an applied deposit
/// or an approved withdrawal that is not under dispute.
pub open spec fn disputable(h: Map<u32, Entry>, tx: u32) -> Option<Amount> {
    if h.contains_key(tx) {
        match h[tx] {
            Entry::Deposit(x) => Some(x),
            Entry::Withdrawal(x) => Some(x),
            _ => None,
        }
    } else {
        None
    }
}

/// The amount of a transaction that is under dispute now.
pub open spec fn disputed(h: Map<u32, Entry>, tx: u32) -> Option<Amount> {
    if h.contains_key(tx) {
        match h[tx] {
            Entry::Dispute(x) => Some(x),
            _ => None,
        }
    } else {
        None
    }
}

/// The result of one record, the ledger after it and the history after it.
pub type StepResult = (Result<Outcome, TxError>, Map<u16, Client>, Map<u32, Entry>);

/// What processing record `t` does to ledger `a` and history `h`.
pub open spec fn step(t: Transaction, a: Map<u16, Client>, h: Map<u32, Entry>) -> StepResult {
    let c = account_in(a, t.client);
    match t.kind {
        TxKind::Deposit => match t.amount {
            None => (Err(TxError::MalformedRecord), a, h),
            Some(x) => if c.locked {
                (Ok(Outcome::Ignored), a, h)
            } else if c.total + x > u64::MAX {
                (Err(TxError::AmountOverflow), a, h)
            } else {
                (
                    Ok(Outcome::Applied),
                    a.insert(
                        t.client,
                        Client { available: (c.available + x) as u64, total: (c.total + x) as u64, ..c },
                    ),
                    h.insert(t.tx, Entry::Deposit(x)),
                )
            },
        },
        TxKind::Withdrawal => match t.amount {
            None => (Err(TxError::MalformedRecord), a, h),
            Some(x) => if c.locked || c.available < x {
                (Ok(Outcome::Ignored), a.insert(t.client, c), h)
            } else {
                (
                    Ok(Outcome::Applied),
                    a.insert(
                        t.client,
                        Client { available: (c.available - x) as u64, total: (c.total - x) as u64, ..c },
                    ),
                    h.insert(t.tx, Entry::Withdrawal(x)),
                )
            },
        },
        TxKind::Dispute => match disputable(h, t.tx) {
            None => (Ok(Outcome::Ignored), a, h),
            Some(x) => if c.locked || c.available < x {
                (Ok(Outcome::Ignored), a.insert(t.client, c), h)
            } else {
                (
                    Ok(Outcome::Applied),
                    a.insert(
                        t.client,
                        Client { available: (c.available - x) as u64, held: (c.held + x) as u64, ..c },
                    ),
                    h.insert(t.tx, Entry::Dispute(x)),
                )
            },
        },
        TxKind::Resolve => match disputed(h, t.tx) {
            None => (Err(TxError::UnknownOrMismatchedReference), a, h),
            Some(x) => if c.locked {
                (Err(TxError::AccountLocked), a, h)
            } else if c.held < x {
                (Err(TxError::InsufficientFunds), a, h)
            } else {
                (
                    Ok(Outcome::Applied),
                    a.insert(
                        t.client,
                        Client { available: (c.available + x) as u64, held: (c.held - x) as u64, ..c },
                    ),
                    h.remove(t.tx),
                )
            },
        },
        TxKind::Chargeback => match disputed(h, t.tx) {
            None => (Err(TxError::UnknownOrMismatchedReference), a, h),
            Some(x) => if c.held < x {
                (Err(TxError::InsufficientFunds), a, h)
            } else {
                (
                    Ok(Outcome::Applied),
                    a.insert(t.client, Client { held: (c.held - x) as u64, locked: true, ..c }),
                    h.insert(t.tx, Entry::ChargedBack(x)),
                )
            },
        },
    }
}

/// What processing the records `ts` in order does to ledger `a` and history
/// `h`: the first failing record ends the run with its error, and leaves the
/// state as the records before it made it.
pub open spec fn run(ts: Seq<Transaction>, a: Map<u16, Client>, h: Map<u32, Entry>) -> (
    Result<(), TxError>,
    Map<u16, Client>,
    Map<u32, Entry>,
)
    decreases ts.len(),
{
    if ts.len() == 0 {
        (Ok(()), a, h)
    } else {
        let (r, a2, h2) = step(ts[0], a, h);
        match r {
            Err(e) => (Err(e), a2, h2),
            Ok(_) => run(ts.drop_first(), a2, h2),
        }
    }
}

/// Processes the records `txns` in order, stopping at the first one that
/// fails.
pub fn process_all(txns: &Vec<Transaction>, ledger: &mut Ledger, history: &mut TxHistory) -> (r: Result<
    (),
    TxError,
>)
    requires
        old(ledger).wf(),
    ensures
        final(ledger).wf(),
        (r, final(ledger)@, final(history)@) == run(txns@, old(ledger)@, old(history)@),
{
    let mut i: usize = 0;
    assert(txns@.subrange(0, txns@.len() as int) =~= txns@);
    while i < txns.len()
        invariant
            ledger.wf(),
            i <= txns@.len(),
            run(txns@.subrange(i as int, txns@.len() as int), ledger@, history@) == run(
                txns@,
                old(ledger)@,
                old(history)@,
            ),
        decreases txns@.len() - i,
    {
        let rest = Ghost(txns@.subrange(i as int, txns@.len() as int));
        assert(rest@.drop_first() =~= txns@.subrange(i + 1, txns@.len() as int));
        assert(rest@[0] == txns@[i as int]);
        let r = txns[i].process(ledger, history);
        if let Err(e) = r {
            return Err(e);
        }
        i = i + 1;
    }
    assert(txns@.subrange(i as int, txns@.len() as int).len() == 0);
    Ok(())
}

impl Transaction {
    /// Applies this record to the ledger and the history, by the rule of
    /// its kind.
    pub fn process(&self, ledger: &mut Ledger, history: &mut TxHistory) -> (r: Result<Outcome, TxError>)
        requires
            old(ledger).wf(),
        ensures
            final(ledger).wf(),
            (r, final(ledger)@, final(history)@) == step(*self, old(ledger)@, old(history)@),
    {
        match self.kind {
            TxKind::Deposit => match self.amount {
                Some(amount) => self.deposit(amount, ledger, history),
                None => Err(TxError::MalformedRecord),
            },
            TxKind::Withdrawal => match self.amount {
                Some(amount) => self.withdrawal(amount, ledger, history),
                None => Err(TxError::MalformedRecord),
            },
            TxKind::Dispute => self.dispute(ledger, history),
            TxKind::Resolve => self.resolve(ledger, history),
            TxKind::Chargeback => self.chargeback(ledger, history),
        }
    }

    /// The account of `id` as it stands, or a fresh one; the ledger is not
    /// changed.
    fn get_client(id: u16, ledger: &Ledger) -> (c: Client)
        requires
            ledger.wf(),
        ensures
            c == account_in(ledger@, id),
            !c.locked ==> balanced(c),
            c.client == id,
    {
        proof {
            ledger.lemma_wf_consistent();
        }
        match ledger.get(id) {
            Some(c) => c,
            None => Client::new(id),
        }
    }

    fn deposit(&self, amount: Amount, ledger: &mut Ledger, history: &mut TxHistory) -> (r: Result<Outcome, TxError>)
        requires
            old(ledger).wf(),
            self.kind == TxKind::Deposit,
            self.amount == Some(amount),
        ensures
            final(ledger).wf(),
            (r, final(ledger)@, final(history)@) == step(*self, old(ledger)@, old(history)@),
    {
        let mut c = Self::get_client(self.client, ledger);
        if c.locked {
            return Ok(Outcome::Ignored);
        }
        if amount > u64::MAX - c.total {
            return Err(TxError::AmountOverflow);
        }
        c.increase(AmountType::Total, amount);
        c.increase(AmountType::Available, amount);
        ledger.put(c);
        history.record(self.tx, Entry::Deposit(amount));
        Ok(Outcome::Applied)
    }

    fn withdrawal(&self, amount: Amount, ledger: &mut Ledger, history: &mut TxHistory) -> (r: Result<Outcome, TxError>)
        requires
            old(ledger).wf(),
            self.kind == TxKind::Withdrawal,
            self.amount == Some(amount),
        ensures
            final(ledger).wf(),
            (r, final(ledger)@, final(history)@) == step(*self, old(ledger)@, old(history)@),
    {
        let mut c = Self::get_client(self.client, ledger);
        if c.locked || c.available < amount {
            ledger.put(c);
            return Ok(Outcome::Ignored);
        }
        let _ = c.decrease(AmountType::Total, amount);
        let _ = c.decrease(AmountType::Available, amount);
        ledger.put(c);
        history.record(self.tx, Entry::Withdrawal(amount));
        Ok(Outcome::Applied)
    }

    fn dispute(&self, ledger: &mut Ledger, history: &mut TxHistory) -> (r: Result<Outcome, TxError>)
        requires
            old(ledger).wf(),
            self.kind == TxKind::Dispute,
        ensures
            final(ledger).wf(),
            (r, final(ledger)@, final(history)@) == step(*self, old(ledger)@, old(history)@),
    {
        let amount = match history.get(self.tx) {
            Some(Entry::Deposit(x)) => x,
            Some(Entry::Withdrawal(x)) => x,
            _ => return Ok(Outcome::Ignored),
        };
        let mut c = Self::get_client(self.client, ledger);
        if c.locked || c.available < amount {
            ledger.put(c);
            return Ok(Outcome::Ignored);
        }
        let _ = c.decrease(AmountType::Available, amount);
        c.increase(AmountType::Held, amount);
        ledger.put(c);
        history.record(self.tx, Entry::Dispute(amount));
        Ok(Outcome::Applied)
    }

    fn resolve(&self, ledger: &mut Ledger, history: &mut TxHistory) -> (r: Result<Outcome, TxError>)
        requires
            old(ledger).wf(),
            self.kind == TxKind::Resolve,
        ensures
            final(ledger).wf(),
            (r, final(ledger)@, final(history)@) == step(*self, old(ledger)@, old(history)@),
    {
        let amount = match history.get(self.tx) {
            Some(Entry::Dispute(x)) => x,
            _ => return Err(TxError::UnknownOrMismatchedReference),
        };
        let mut c = Self::get_client(self.client, ledger);
        if c.locked {
            return Err(TxError::AccountLocked);
        }
        if c.decrease(AmountType::Held, amount).is_err() {
            return Err(TxError::InsufficientFunds);
        }
        c.increase(AmountType::Available, amount);
        ledger.put(c);
        history.remove(self.tx);
        Ok(Outcome::Applied)
    }

    fn chargeback(&self, ledger: &mut Ledger, history: &mut TxHistory) -> (r: Result<Outcome, TxError>)
        requires
            old(ledger).wf(),
            self.kind == TxKind::Chargeback,
        ensures
            final(ledger).wf(),
            (r, final(ledger)@, final(history)@) == step(*self, old(ledger)@, old(history)@),
    {
        let amount = match history.get(self.tx) {
            Some(Entry::Dispute(x)) => x,
            _ => return Err(TxError::UnknownOrMismatchedReference),
        };
        let mut c = Self::get_client(self.client, ledger);
        if c.decrease(AmountType::Held, amount).is_err() {
            return Err(TxError::InsufficientFunds);
        }
        c.locked = true;
        ledger.put(c);
        history.record(self.tx, Entry::ChargedBack(amount));
        Ok(Outcome::Applied)
    }
}

} // verus!
