//! The ledger: one account per client id, created on first reference and
//! never deleted.
use vstd::prelude::*;
use std::collections::HashMap;
use crate::account::{Client, balanced, fresh_client};

verus! {

broadcast use vstd::std_specs::hash::group_hash_axioms;

/// All client accounts, keyed by client id. The ids are also kept in the
/// order in which their accounts were created, so that the final ledger can
/// be handed out in a stable order.
pub struct Ledger {
    accounts: HashMap<u16, Client>,
    order: Vec<u16>,
}

/// Each stored account carries the id it is stored under, and every account
/// that is not locked holds `total == available + held`.
pub open spec fn consistent(m: Map<u16, Client>) -> bool {
    forall|k: u16| #[trigger] m.contains_key(k) ==> m[k].client == k && (!m[k].locked ==> balanced(m[k]))
}

/// The account that `id` refers to in `m`: the stored one, or a fresh one.
pub open spec fn account_in(m: Map<u16, Client>, id: u16) -> Client {
    if m.contains_key(id) {
        m[id]
    } else {
        fresh_client(id)
    }
}

impl View for Ledger {
    type V = Map<u16, Client>;

    closed spec fn view(&self) -> Map<u16, Client> {
        self.accounts@
    }
}

impl Ledger {
    /// Every id is listed once in creation order, and each stored account
    /// carries the id it is stored under.
    pub closed spec fn wf(&self) -> bool {
        &&& self.order@.no_duplicates()
        &&& forall|i: int| 0 <= i < self.order@.len() ==> self.accounts@.contains_key(#[trigger] self.order@[i])
        &&& forall|k: u16| #[trigger] self.accounts@.contains_key(k) ==> self.order@.contains(k)
        &&& consistent(self.accounts@)
    }

    /// A well-formed ledger is consistent.
    pub proof fn lemma_wf_consistent(&self)
        requires
            self.wf(),
        ensures
            consistent(self@),
    {
    }

    /// An empty ledger.
    pub fn new() -> (r: Ledger)
        ensures
            r.wf(),
            r@ == Map::<u16, Client>::empty(),
    {
        Ledger { accounts: HashMap::new(), order: Vec::new() }
    }

    /// The account of `id`, if it has been created.
    pub fn get(&self, id: u16) -> (r: Option<Client>)
        requires
            self.wf(),
        ensures
            r == (if self@.contains_key(id) { Some(self@[id]) } else { None::<Client> }),
    {
        match self.accounts.get(&id) {
            Some(c) => Some(*c),
            None => None,
        }
    }

    /// The account of `id`, created with zero balances and unlocked when it
    /// does not exist yet.
    pub fn get_or_create(&mut self, id: u16) -> (r: Client)
        requires
            old(self).wf(),
        ensures
            final(self).wf(),
            r == account_in(old(self)@, id),
            final(self)@ == old(self)@.insert(id, r),
    {
        let c = match self.get(id) {
            Some(c) => c,
            None => Client::new(id),
        };
        self.put(c);
        c
    }

    /// Stores `c` as the account of `c.client`, creating that account when
    /// it does not exist yet.
    pub fn put(&mut self, c: Client)
        requires
            old(self).wf(),
            !c.locked ==> balanced(c),
        ensures
            final(self).wf(),
            final(self)@ == old(self)@.insert(c.client, c),
    {
        let id = c.client;
        let present = self.accounts.contains_key(&id);
        self.accounts.insert(id, c);
        if !present {
            self.order.push(id);
            proof {
                assert forall|i: int| 0 <= i < self.order@.len() implies self.accounts@.contains_key(
                    #[trigger] self.order@[i],
                ) by {
                    if i < self.order@.len() - 1 {
                        assert(old(self).order@[i] == self.order@[i]);
                    }
                }
                assert forall|k: u16| #[trigger] self.accounts@.contains_key(k) implies self.order@.contains(k) by {
                    if k != id {
                        let j = choose|j: int| 0 <= j < old(self).order@.len() && old(self).order@[j] == k;
                        assert(self.order@[j] == k);
                    } else {
                        assert(self.order@[self.order@.len() - 1] == id);
                    }
                }
            }
        }
    }

    /// Every account, each once, in the order in which they were created.
    pub fn accounts(&self) -> (r: Vec<Client>)
        requires
            self.wf(),
        ensures
            forall|i: int| 0 <= i < r@.len() ==> self@.contains_key(#[trigger] r@[i].client) && self@[r@[i].client] == r@[i],
            forall|k: u16| #[trigger] self@.contains_key(k) ==> exists|i: int| 0 <= i < r@.len() && r@[i].client == k,
            forall|i: int, j: int| 0 <= i < j < r@.len() ==> r@[i].client != r@[j].client,
    {
        let mut r: Vec<Client> = Vec::new();
        let mut n: usize = 0;
        while n < self.order.len()
            invariant
                self.wf(),
                n <= self.order@.len(),
                r@.len() == n,
                forall|i: int| 0 <= i < n ==> r@[i] == self.accounts@[self.order@[i]],
                forall|i: int| 0 <= i < n ==> r@[i].client == self.order@[i],
            decreases self.order@.len() - n,
        {
            let id = self.order[n];
            assert(self.accounts@.contains_key(self.order@[n as int]));
            match self.accounts.get(&id) {
                Some(c) => r.push(*c),
                None => {},
            }
            n = n + 1;
        }
        proof {
            assert forall|k: u16| #[trigger] self@.contains_key(k) implies exists|i: int| 0 <= i < r@.len() && r@[i].client == k by {
                let j = choose|j: int| 0 <= j < self.order@.len() && self.order@[j] == k;
                assert(r@[j].client == k);
            }
            assert forall|i: int, j: int| 0 <= i < j < r@.len() implies r@[i].client != r@[j].client by {
                assert(self.order@[i] != self.order@[j]);
            }
        }
        r
    }
}

} // verus!
