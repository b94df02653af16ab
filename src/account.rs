//! Client accounts and the two balance operations that every transaction
//! rule is built from.
use vstd::prelude::*;

verus! {

/// A monetary amount, in ten-thousandths of a currency unit.
pub type Amount = u64;

/// One client account. `total` is kept in lockstep with `available` and
/// `held` by deposits and withdrawals; disputes and resolves only move funds
/// between `available` and `held`.
#[derive(Clone, Copy, Debug, PartialEq, Eq)]
pub struct Client {
    pub client: u16,
    pub available: Amount,
    pub held: Amount,
    pub total: Amount,
    pub locked: bool,
}

/// The balance fields that a transaction rule may move.
#[derive(Clone, Copy, Debug, PartialEq, Eq)]
pub enum AmountType {
    Available,
    Held,
    Total,
}

/// The account that a client id gets on first reference.
pub open spec fn fresh_client(id: u16) -> Client {
    Client { client: id, available: 0, held: 0, total: 0, locked: false }
}

/// `total == available + held`, with every field non-negative by type.
pub open spec fn balanced(c: Client) -> bool {
    c.total as int == c.available as int + c.held as int
}

/// The value of one balance field.
pub open spec fn field_of(c: Client, f: AmountType) -> int {
    match f {
        AmountType::Available => c.available as int,
        AmountType::Held => c.held as int,
        AmountType::Total => c.total as int,
    }
}

/// `c` with one balance field set to `v`, the others as they were.
pub open spec fn with_field(c: Client, f: AmountType, v: Amount) -> Client {
    match f {
        AmountType::Available => Client { available: v, ..c },
        AmountType::Held => Client { held: v, ..c },
        AmountType::Total => Client { total: v, ..c },
    }
}

impl Client {
    /// A zero-balance, unlocked account for `id`.
    pub fn new(id: u16) -> (r: Client)
        ensures
            r == fresh_client(id),
    {
        Client { client: id, available: 0, held: 0, total: 0, locked: false }
    }

    /// Adds `amount` to one balance field.
    pub fn increase(&mut self, amount_type: AmountType, amount: Amount)
        requires
            field_of(*old(self), amount_type) + amount <= u64::MAX,
        ensures
            *final(self) == with_field(
                *old(self),
                amount_type,
                (field_of(*old(self), amount_type) + amount) as u64,
            ),
    {
        match amount_type {
            AmountType::Available => self.available = self.available + amount,
            AmountType::Held => self.held = self.held + amount,
            AmountType::Total => self.total = self.total + amount,
        }
    }

    /// Subtracts `amount` from one balance field when the field holds at
    /// least `amount`; otherwise leaves the account as it is and fails.
    pub fn decrease(&mut self, amount_type: AmountType, amount: Amount) -> (r: Result<(), InsufficientFunds>)
        ensures
            r is Ok <==> amount <= field_of(*old(self), amount_type),
            r is Ok ==> *final(self) == with_field(
                *old(self),
                amount_type,
                (field_of(*old(self), amount_type) - amount) as u64,
            ),
            r is Err ==> *final(self) == *old(self),
    {
        match amount_type {
            AmountType::Available => {
                if self.available >= amount {
                    self.available = self.available - amount;
                    return Ok(());
                }
            },
            AmountType::Held => {
                if self.held >= amount {
                    self.held = self.held - amount;
                    return Ok(());
                }
            },
            AmountType::Total => {
                if self.total >= amount {
                    self.total = self.total - amount;
                    return Ok(());
                }
            },
        }
        Err(InsufficientFunds)
    }
}

/// A decrease that would drive a balance field below zero.
#[derive(Clone, Copy, Debug, PartialEq, Eq)]
pub struct InsufficientFunds;

} // verus!
