//! Laws of the transaction rules, stated over `step` and `run`.
use vstd::prelude::*;
use crate::account::Client;
use crate::history::Entry;
use crate::ledger::{account_in, consistent};
use crate::payments::{Outcome, Transaction, TxError, TxKind, run, step};

verus! {

/// Every record keeps the ledger consistent: accounts stay under their own
/// ids, and every account that is not locked keeps
/// `total == available + held`. (A chargeback lowers `held` alone and locks
/// the account, so a locked account may hold less than its `total`.)
pub proof fn lemma_step_keeps_consistent(t: Transaction, a: Map<u16, Client>, h: Map<u32, Entry>)
    requires
        consistent(a),
    ensures
        consistent(step(t, a, h).1),
{
    let c = account_in(a, t.client);
    assert(c.client == t.client);
}

/// A whole run, and so every prefix of it, keeps the ledger consistent.
pub proof fn lemma_run_keeps_consistent(ts: Seq<Transaction>, a: Map<u16, Client>, h: Map<u32, Entry>)
    requires
        consistent(a),
    ensures
        consistent(run(ts, a, h).1),
    decreases ts.len(),
{
    if ts.len() > 0 {
        lemma_step_keeps_consistent(ts[0], a, h);
        let (r, a2, h2) = step(ts[0], a, h);
        if r is Ok {
            lemma_run_keeps_consistent(ts.drop_first(), a2, h2);
        }
    }
}

/// A locked account stays locked, and no deposit, withdrawal, dispute or
/// resolve changes it in any way.
pub proof fn lemma_locked_account_frozen(t: Transaction, a: Map<u16, Client>, h: Map<u32, Entry>, id: u16)
    requires
        a.contains_key(id),
        a[id].locked,
    ensures
        step(t, a, h).1.contains_key(id),
        step(t, a, h).1[id].locked,
        t.kind != TxKind::Chargeback ==> step(t, a, h).1[id] == a[id],
{
}

/// A dispute that was resolved or charged back cannot be resolved or
/// charged back again: the second attempt fails and changes nothing.
pub proof fn lemma_settle_once(t: Transaction, u: Transaction, a: Map<u16, Client>, h: Map<u32, Entry>)
    requires
        t.kind == TxKind::Resolve || t.kind == TxKind::Chargeback,
        u.kind == TxKind::Resolve || u.kind == TxKind::Chargeback,
        u.tx == t.tx,
        step(t, a, h).0 == Ok::<Outcome, TxError>(Outcome::Applied),
    ensures
        ({
            let s = step(t, a, h);
            step(u, s.1, s.2) == (Err::<Outcome, TxError>(TxError::UnknownOrMismatchedReference), s.1, s.2)
        }),
{
}

/// A transaction under dispute cannot be disputed again: the second dispute
/// is ignored and changes nothing, so funds are held once per dispute.
pub proof fn lemma_dispute_once(t: Transaction, u: Transaction, a: Map<u16, Client>, h: Map<u32, Entry>)
    requires
        t.kind == TxKind::Dispute,
        u.kind == TxKind::Dispute,
        u.tx == t.tx,
        step(t, a, h).0 == Ok::<Outcome, TxError>(Outcome::Applied),
    ensures
        ({
            let s = step(t, a, h);
            step(u, s.1, s.2) == (Ok::<Outcome, TxError>(Outcome::Ignored), s.1, s.2)
        }),
{
}

} // verus!
