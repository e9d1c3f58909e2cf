//! A minimal reservable-currency ledger.
//!
//! The registry consumes the currency collaborator through a narrow
//! reserve/release contract.  This module gives that contract a small
//! verified model: one balance entry per account, a free part and a
//! reserved part, with the sum of the two always representable.

use vstd::prelude::*;
use vstd::pervasive::VecAdditionalExecFns;

use crate::Error;

verus! {

/// The balance of one account: a free part and a reserved part.
#[derive(Clone, Copy, PartialEq, Eq, Structural, Debug)]
pub struct BalanceEntry {
    pub account: u64,
    pub free: u64,
    pub reserved: u64,
}

/// Holds when `entries` has an entry for `account`.
pub open spec fn contains_account(entries: Seq<BalanceEntry>, account: u64) -> bool {
    exists|i: int| 0 <= i < entries.len() && entries[i].account == account
}

/// The index of the entry for `account`; meaningful only under
/// [`contains_account`], where well-formedness makes it unique.
pub open spec fn account_index(entries: Seq<BalanceEntry>, account: u64) -> int {
    choose|i: int| 0 <= i < entries.len() && entries[i].account == account
}

/// The free balance of `account`; zero for an account with no entry.
pub open spec fn free_of(entries: Seq<BalanceEntry>, account: u64) -> u64 {
    if contains_account(entries, account) {
        entries[account_index(entries, account)].free
    } else {
        0
    }
}

/// The reserved balance of `account`; zero for an account with no entry.
pub open spec fn reserved_of(entries: Seq<BalanceEntry>, account: u64) -> u64 {
    if contains_account(entries, account) {
        entries[account_index(entries, account)].reserved
    } else {
        0
    }
}

/// Every account has at most one entry, and each entry's total balance
/// fits in the balance type.
pub open spec fn ledger_wf(entries: Seq<BalanceEntry>) -> bool {
    &&& forall|i: int, j: int|
        0 <= i < j < entries.len() ==> entries[i].account != entries[j].account
    &&& forall|i: int|
        0 <= i < entries.len() ==> #[trigger] entries[i].free + entries[i].reserved <= u64::MAX
}

/// `entries` after moving `amount` from the free to the reserved part of
/// `account`'s balance.  Meaningful when the free part covers `amount`;
/// an account without an entry is unchanged (only reachable for a zero
/// `amount`).
pub open spec fn reserve_in(entries: Seq<BalanceEntry>, account: u64, amount: u64) -> Seq<
    BalanceEntry,
> {
    if contains_account(entries, account) {
        let i = account_index(entries, account);
        entries.update(
            i,
            BalanceEntry {
                account,
                free: (entries[i].free - amount) as u64,
                reserved: (entries[i].reserved + amount) as u64,
            },
        )
    } else {
        entries
    }
}

/// `entries` after moving back `amount` from the reserved to the free
/// part of `account`'s balance, capped at what is actually reserved.
pub open spec fn unreserve_in(entries: Seq<BalanceEntry>, account: u64, amount: u64) -> Seq<
    BalanceEntry,
> {
    if contains_account(entries, account) {
        let i = account_index(entries, account);
        let moved = if amount <= entries[i].reserved {
            amount
        } else {
            entries[i].reserved
        };
        entries.update(
            i,
            BalanceEntry {
                account,
                free: (entries[i].free + moved) as u64,
                reserved: (entries[i].reserved - moved) as u64,
            },
        )
    } else {
        entries
    }
}

/// `entries` after setting `account`'s balance to `free` free and
/// nothing reserved, adding an entry if none exists.
pub open spec fn set_balance_in(entries: Seq<BalanceEntry>, account: u64, free: u64) -> Seq<
    BalanceEntry,
> {
    if contains_account(entries, account) {
        entries.update(
            account_index(entries, account),
            BalanceEntry { account, free, reserved: 0 },
        )
    } else {
        entries.push(BalanceEntry { account, free, reserved: 0 })
    }
}

/// The account balances known to one registry instance.
pub struct Ledger {
    pub(crate) entries: Vec<BalanceEntry>,
}

impl View for Ledger {
    type V = Seq<BalanceEntry>;

    open(crate) spec fn view(&self) -> Seq<BalanceEntry> {
        self.entries@
    }
}

impl Ledger {
    /// Holds when the entries are a well-formed ledger.
    pub open spec fn wf(&self) -> bool {
        ledger_wf(self@)
    }

    /// A ledger with no accounts.
    pub fn new() -> (ledger: Ledger)
        ensures
            ledger@ == Seq::<BalanceEntry>::empty(),
            ledger.wf(),
    {
        Ledger { entries: Vec::new() }
    }

    /// The position of `account`'s entry, scanning from the front.
    fn position_of(&self, account: u64) -> (position: Option<usize>)
        requires
            self.wf(),
        ensures
            match position {
                Some(i) => contains_account(self@, account) && i == account_index(self@, account)
                    && i < self@.len() && self@[i as int].account == account,
                None => !contains_account(self@, account),
            },
    {
        let n = self.entries.len();
        for i in 0..n
            invariant
                self.wf(),
                n == self@.len(),
                forall|p: int| 0 <= p < i ==> self@[p].account != account,
        {
            if self.entries[i].account == account {
                proof {
                    assert(contains_account(self@, account));
                    let w = account_index(self@, account);
                    assert(self@[w].account == account);
                    assert(w == i);
                }
                return Some(i);
            }
        }
        None
    }

    /// The free balance of `account`.
    pub fn free_balance(&self, account: u64) -> (free: u64)
        requires
            self.wf(),
        ensures
            free == free_of(self@, account),
    {
        match self.position_of(account) {
            Some(i) => self.entries[i].free,
            None => 0,
        }
    }

    /// The reserved balance of `account`.
    pub fn reserved_balance(&self, account: u64) -> (reserved: u64)
        requires
            self.wf(),
        ensures
            reserved == reserved_of(self@, account),
    {
        match self.position_of(account) {
            Some(i) => self.entries[i].reserved,
            None => 0,
        }
    }

    /// Sets `account`'s balance to `free` free and nothing reserved,
    /// creating the entry if it does not exist.
    pub fn set_balance(&mut self, account: u64, free: u64)
        requires
            old(self).wf(),
        ensures
            final(self)@ == set_balance_in(old(self)@, account, free),
            final(self).wf(),
    {
        let entry = BalanceEntry { account, free, reserved: 0 };
        match self.position_of(account) {
            Some(i) => {
                self.entries.set(i, entry);
            },
            None => {
                self.entries.push(entry);
            },
        }
    }

    /// Moves `amount` from the free to the reserved part of `account`'s
    /// balance; fails without any change when the free part cannot cover
    /// it.
    pub fn reserve(&mut self, account: u64, amount: u64) -> (outcome: Result<(), Error>)
        requires
            old(self).wf(),
        ensures
            match outcome {
                Ok(()) => free_of(old(self)@, account) >= amount && final(self)@ == reserve_in(
                    old(self)@,
                    account,
                    amount,
                ),
                Err(e) => e == Error::InsufficientBalance && free_of(old(self)@, account) < amount
                    && final(self)@ == old(self)@,
            },
            final(self).wf(),
    {
        match self.position_of(account) {
            Some(i) => {
                let entry = self.entries[i];
                if entry.free < amount {
                    return Err(Error::InsufficientBalance);
                }
                let updated = BalanceEntry {
                    account,
                    free: entry.free - amount,
                    reserved: entry.reserved + amount,
                };
                self.entries.set(i, updated);
                Ok(())
            },
            None => {
                if amount > 0 {
                    Err(Error::InsufficientBalance)
                } else {
                    Ok(())
                }
            },
        }
    }

    /// Moves back `amount` from the reserved to the free part of
    /// `account`'s balance, capped at what is actually reserved.
    pub fn unreserve(&mut self, account: u64, amount: u64)
        requires
            old(self).wf(),
        ensures
            final(self)@ == unreserve_in(old(self)@, account, amount),
            final(self).wf(),
    {
        match self.position_of(account) {
            Some(i) => {
                let entry = self.entries[i];
                let moved = if amount <= entry.reserved {
                    amount
                } else {
                    entry.reserved
                };
                let updated = BalanceEntry {
                    account,
                    free: entry.free + moved,
                    reserved: entry.reserved - moved,
                };
                self.entries.set(i, updated);
            },
            None => {},
        }
    }
}

} // verus!
