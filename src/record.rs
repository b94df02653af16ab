//! Building a transaction record from the text of its fields.
use vstd::prelude::*;
use crate::amount::{amount_of, parse_amount};
use crate::payments::{Transaction, TxError, TxKind};

verus! {

/// The kind that a tag names: `deposit`, `withdrawal`, `dispute`, `resolve`
/// or `chargeback`, in lower case.
pub open spec fn kind_of_tag(s: Seq<char>) -> Option<TxKind> {
    if s == seq!['d', 'e', 'p', 'o', 's', 'i', 't'] {
        Some(TxKind::Deposit)
    } else if s == seq!['w', 'i', 't', 'h', 'd', 'r', 'a', 'w', 'a', 'l'] {
        Some(TxKind::Withdrawal)
    } else if s == seq!['d', 'i', 's', 'p', 'u', 't', 'e'] {
        Some(TxKind::Dispute)
    } else if s == seq!['r', 'e', 's', 'o', 'l', 'v', 'e'] {
        Some(TxKind::Resolve)
    } else if s == seq!['c', 'h', 'a', 'r', 'g', 'e', 'b', 'a', 'c', 'k'] {
        Some(TxKind::Chargeback)
    } else {
        None
    }
}

/// The record that the fields spell: the tag must name a kind, and an
/// amount that is given must be decimal text.
pub open spec fn record_of(tag: Seq<char>, client: u16, tx: u32, amount: Option<Seq<u8>>) -> Result<
    Transaction,
    TxError,
> {
    match kind_of_tag(tag) {
        None => Err(TxError::MalformedRecord),
        Some(kind) => match amount {
            None => Ok(Transaction { kind, client, tx, amount: None }),
            Some(text) => match amount_of(text) {
                None => Err(TxError::MalformedRecord),
                Some(x) => Ok(Transaction { kind, client, tx, amount: Some(x) }),
            },
        },
    }
}

/// The kind that `tag` names, if any.
pub fn kind_from_tag(tag: &String) -> (r: Option<TxKind>)
    ensures
        r == kind_of_tag(tag@),
{
    let deposit = "deposit".to_owned();
    let withdrawal = "withdrawal".to_owned();
    let dispute = "dispute".to_owned();
    let resolve = "resolve".to_owned();
    let chargeback = "chargeback".to_owned();
    proof {
        reveal_strlit("deposit");
        reveal_strlit("withdrawal");
        reveal_strlit("dispute");
        reveal_strlit("resolve");
        reveal_strlit("chargeback");
        assert(deposit@ =~= seq!['d', 'e', 'p', 'o', 's', 'i', 't']);
        assert(withdrawal@ =~= seq!['w', 'i', 't', 'h', 'd', 'r', 'a', 'w', 'a', 'l']);
        assert(dispute@ =~= seq!['d', 'i', 's', 'p', 'u', 't', 'e']);
        assert(resolve@ =~= seq!['r', 'e', 's', 'o', 'l', 'v', 'e']);
        assert(chargeback@ =~= seq!['c', 'h', 'a', 'r', 'g', 'e', 'b', 'a', 'c', 'k']);
    }
    if tag.eq(&deposit) {
        Some(TxKind::Deposit)
    } else if tag.eq(&withdrawal) {
        Some(TxKind::Withdrawal)
    } else if tag.eq(&dispute) {
        Some(TxKind::Dispute)
    } else if tag.eq(&resolve) {
        Some(TxKind::Resolve)
    } else if tag.eq(&chargeback) {
        Some(TxKind::Chargeback)
    } else {
        None
    }
}

impl Transaction {
    /// The record that the fields spell, or `MalformedRecord`.
    pub fn from_record(tag: &String, client: u16, tx: u32, amount: Option<&[u8]>) -> (r: Result<
        Transaction,
        TxError,
    >)
        ensures
            r == record_of(
                tag@,
                client,
                tx,
                match amount {
                    Some(t) => Some(t@),
                    None => None::<Seq<u8>>,
                },
            ),
    {
        let kind = match kind_from_tag(tag) {
            Some(k) => k,
            None => return Err(TxError::MalformedRecord),
        };
        match amount {
            None => Ok(Transaction { kind, client, tx, amount: None }),
            Some(text) => match parse_amount(text) {
                None => Err(TxError::MalformedRecord),
                Some(x) => Ok(Transaction { kind, client, tx, amount: Some(x) }),
            },
        }
    }
}

} // verus!
