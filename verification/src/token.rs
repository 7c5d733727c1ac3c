//! The token operations: the public contract of the ledger.
//!
//! Every invariant is enforced here. All amounts are unsigned; all arithmetic
//! that could overflow or underflow uses checked operations and converts
//! failure into a typed error — it never wraps, saturates silently, or
//! panics. Every operation is atomic: either all of its state mutations
//! commit, or none do and the typed failure is returned with the state
//! unchanged.
//!
//! Caller identity is always pre-resolved and passed in as an argument;
//! deciding who may invoke an operation (in particular who may mint or burn)
//! is the caller-resolution collaborator's concern, not this module's.

use crate::allowance::AllowanceRegistry;
use crate::ledger::AccountLedger;
use vstd::prelude::*;

verus! {

/// The typed failures. Each one is a precondition violation signaled to the
/// caller; none is silently corrected.
#[derive(Clone, Copy, Debug, PartialEq, Eq, Structural)]
pub enum Error {
    /// A balance is below the requested transfer or burn amount.
    InsufficientBalance,
    /// An allowance is below the requested transfer amount.
    InsufficientAllowance,
    /// Increasing an allowance would exceed the representable maximum.
    AllowanceOverflow,
    /// Decreasing an allowance would go negative.
    AllowanceUnderflow,
    /// Minting would exceed the representable maximum total supply.
    SupplyOverflow,
    /// A defensive-only condition: a checked operation failed although the
    /// conservation invariant says it cannot. It signals that the invariant
    /// was already broken by a prior bug and is fatal, not a user error.
    InternalInconsistency,
}

/// The domain event a successful operation emits. The host decides delivery;
/// the operations only return the value.
#[derive(Clone, Copy, Debug, PartialEq, Eq, Structural)]
pub enum Event {
    Transfer { from: u64, to: u64, value: u64 },
    Approval { owner: u64, spender: u64, value: u64 },
    Mint { account: u64, value: u64 },
    Burn { account: u64, value: u64 },
}

/// The token: the account ledger, the allowance registry, and the immutable
/// metadata constants (name, symbol, decimals).
pub struct TokenOperations {
    pub ledger: AccountLedger,
    pub allowances: AllowanceRegistry,
    pub name: Vec<u8>,
    pub symbol: Vec<u8>,
    pub decimals: u8,
}

/// No account's balance differs between the two states.
pub open spec fn balances_unchanged(pre: TokenOperations, post: TokenOperations) -> bool {
    forall|a: u64| post.balance_of(a) == pre.balance_of(a)
}

/// No pair's allowance differs between the two states.
pub open spec fn allowances_unchanged(pre: TokenOperations, post: TokenOperations) -> bool {
    forall|o: u64, s: u64| post.allowance_of(o, s) == pre.allowance_of(o, s)
}

/// The metadata constants are the same in the two states.
pub open spec fn metadata_unchanged(pre: TokenOperations, post: TokenOperations) -> bool {
    post.name == pre.name && post.symbol == pre.symbol && post.decimals == pre.decimals
}

impl TokenOperations {
    /// Well-formedness, which every operation preserves. Its last clause is
    /// the conservation invariant: the total supply equals the sum of all
    /// account balances.
    pub open spec fn wf(self) -> bool {
        &&& self.ledger.wf()
        &&& self.allowances.wf()
        &&& self.ledger.spec_total_supply() as int == self.ledger.sum()
    }

    /// The balance of `account`; an account never touched has balance zero.
    pub open spec fn balance_of(self, account: u64) -> u64 {
        self.ledger.spec_balance(account)
    }

    /// The allowance `owner` has granted `spender`; zero when never granted.
    pub open spec fn allowance_of(self, owner: u64, spender: u64) -> u64 {
        self.allowances.spec_allowance(owner, spender)
    }

    /// The total supply.
    pub open spec fn supply(self) -> u64 {
        self.ledger.spec_total_supply()
    }

    /// A fresh token: total supply zero, every balance and allowance zero,
    /// and the given metadata constants.
    pub fn new(name: Vec<u8>, symbol: Vec<u8>, decimals: u8) -> (r: TokenOperations)
        ensures
            r.wf(),
            r.supply() == 0,
            forall|a: u64| r.balance_of(a) == 0,
            forall|o: u64, s: u64| r.allowance_of(o, s) == 0,
            r.name == name,
            r.symbol == symbol,
            r.decimals == decimals,
    {
        TokenOperations {
            ledger: AccountLedger::new(),
            allowances: AllowanceRegistry::new(),
            name,
            symbol,
            decimals,
        }
    }

    /// The balance of `account`. Read-only; never fails.
    pub fn get_balance(&self, account: u64) -> (r: u64)
        requires
            self.wf(),
        ensures
            r == self.balance_of(account),
    {
        self.ledger.get_balance(account)
    }

    /// The allowance `owner` has granted `spender`. Read-only; never fails.
    pub fn get_allowance(&self, owner: u64, spender: u64) -> (r: u64)
        requires
            self.wf(),
        ensures
            r == self.allowance_of(owner, spender),
    {
        self.allowances.get_allowance(owner, spender)
    }

    /// The total supply. Read-only; never fails.
    pub fn get_total_supply(&self) -> (r: u64)
        ensures
            r == self.supply(),
    {
        self.ledger.get_total_supply()
    }

    /// The metadata constants: name, symbol, decimals. Read-only.
    pub fn get_metadata(&self) -> (r: (&Vec<u8>, &Vec<u8>, u8))
        ensures
            r.0 == self.name,
            r.1 == self.symbol,
            r.2 == self.decimals,
    {
        (&self.name, &self.symbol, self.decimals)
    }

    /// Unconditionally replaces the allowance `owner` grants `spender` with
    /// `value` — a replace, not an add. Cannot fail on valid unsigned input.
    pub fn approve(&mut self, owner: u64, spender: u64, value: u64) -> (r: Result<Event, Error>)
        requires
            old(self).wf(),
        ensures
            final(self).wf(),
            r == Ok::<Event, Error>(Event::Approval { owner, spender, value }),
            final(self).allowance_of(owner, spender) == value,
            forall|o: u64, s: u64|
                !(o == owner && s == spender) ==> final(self).allowance_of(o, s) == old(
                    self,
                ).allowance_of(o, s),
            balances_unchanged(*old(self), *final(self)),
            final(self).supply() == old(self).supply(),
            metadata_unchanged(*old(self), *final(self)),
    {
        self.allowances.set_allowance(owner, spender, value);
        Ok(Event::Approval { owner, spender, value })
    }

    /// Moves `value` from `sender` to `to`.
    ///
    /// Fails with `InsufficientBalance`, and changes nothing, exactly when
    /// the sender's balance is below `value`. A self-transfer passes the same
    /// sufficiency check and leaves every balance unchanged: both balances
    /// are computed from one pre-transfer snapshot, so no value is lost or
    /// duplicated. The receiver's credit uses a checked addition; under the
    /// conservation invariant it can never overflow, so the operation is owed
    /// success whenever the sufficiency check passes.
    pub fn transfer(&mut self, sender: u64, to: u64, value: u64) -> (r: Result<Event, Error>)
        requires
            old(self).wf(),
        ensures
            final(self).wf(),
            r is Err ==> *final(self) == *old(self),
            old(self).balance_of(sender) < value ==> r == Err::<Event, Error>(
                Error::InsufficientBalance,
            ),
            old(self).balance_of(sender) >= value ==> {
                &&& r == Ok::<Event, Error>(Event::Transfer { from: sender, to, value })
                &&& final(self).supply() == old(self).supply()
                &&& (sender == to ==> final(self).balance_of(sender) == old(self).balance_of(
                    sender,
                ))
                &&& (sender != to ==> final(self).balance_of(sender) == old(self).balance_of(
                    sender,
                ) - value && final(self).balance_of(to) == old(self).balance_of(to) + value)
                &&& forall|a: u64|
                    a != sender && a != to ==> final(self).balance_of(a) == old(self).balance_of(a)
            },
            allowances_unchanged(*old(self), *final(self)),
            metadata_unchanged(*old(self), *final(self)),
    {
        let sender_balance = self.ledger.get_balance(sender);
        if sender_balance < value {
            return Err(Error::InsufficientBalance);
        }
        // One pre-transfer snapshot: a self-transfer credits the already
        // debited balance instead of a stale second read.
        let receiver_balance = if sender == to {
            sender_balance - value
        } else {
            self.ledger.get_balance(to)
        };
        proof {
            if sender == to {
                self.ledger.lemma_balance_le_sum(sender);
            } else {
                self.ledger.lemma_two_balances_le_sum(sender, to);
            }
        }
        match receiver_balance.checked_add(value) {
            Some(credited) => {
                self.ledger.set_balance(sender, sender_balance - value);
                self.ledger.set_balance(to, credited);
                Ok(Event::Transfer { from: sender, to, value })
            }
            None => Err(Error::InternalInconsistency),
        }
    }

    /// Moves `value` from `from` to `to` on behalf of `spender`, consuming
    /// that much of the allowance `from` granted `spender`.
    ///
    /// The allowance is checked before the balance, so when both are
    /// insufficient the failure is `InsufficientAllowance`. The emitted event
    /// attributes the transfer to the token owner `from`, not to the invoking
    /// spender. Success is owed whenever both checks pass.
    pub fn transfer_from(&mut self, spender: u64, from: u64, to: u64, value: u64) -> (r: Result<
        Event,
        Error,
    >)
        requires
            old(self).wf(),
        ensures
            final(self).wf(),
            r is Err ==> *final(self) == *old(self),
            old(self).allowance_of(from, spender) < value ==> r == Err::<Event, Error>(
                Error::InsufficientAllowance,
            ),
            old(self).allowance_of(from, spender) >= value && old(self).balance_of(from) < value
                ==> r == Err::<Event, Error>(Error::InsufficientBalance),
            old(self).allowance_of(from, spender) >= value && old(self).balance_of(from) >= value
                ==> {
                &&& r == Ok::<Event, Error>(Event::Transfer { from, to, value })
                &&& final(self).supply() == old(self).supply()
                &&& final(self).allowance_of(from, spender) == old(self).allowance_of(
                    from,
                    spender,
                ) - value
                &&& forall|o: u64, s: u64|
                    !(o == from && s == spender) ==> final(self).allowance_of(o, s) == old(
                        self,
                    ).allowance_of(o, s)
                &&& (from == to ==> final(self).balance_of(from) == old(self).balance_of(from))
                &&& (from != to ==> final(self).balance_of(from) == old(self).balance_of(from)
                    - value && final(self).balance_of(to) == old(self).balance_of(to) + value)
                &&& forall|a: u64|
                    a != from && a != to ==> final(self).balance_of(a) == old(self).balance_of(a)
            },
            metadata_unchanged(*old(self), *final(self)),
    {
        let allowance = self.allowances.get_allowance(from, spender);
        if allowance < value {
            return Err(Error::InsufficientAllowance);
        }
        let sender_balance = self.ledger.get_balance(from);
        if sender_balance < value {
            return Err(Error::InsufficientBalance);
        }
        // One pre-transfer snapshot, as in `transfer`.
        let receiver_balance = if from == to {
            sender_balance - value
        } else {
            self.ledger.get_balance(to)
        };
        proof {
            if from == to {
                self.ledger.lemma_balance_le_sum(from);
            } else {
                self.ledger.lemma_two_balances_le_sum(from, to);
            }
        }
        match receiver_balance.checked_add(value) {
            Some(credited) => {
                self.allowances.set_allowance(from, spender, allowance - value);
                self.ledger.set_balance(from, sender_balance - value);
                self.ledger.set_balance(to, credited);
                Ok(Event::Transfer { from, to, value })
            }
            None => Err(Error::InternalInconsistency),
        }
    }

    /// Creates `value` new tokens and credits them to `owner`.
    ///
    /// Fails with `SupplyOverflow`, and changes nothing, exactly when the new
    /// total supply would not be representable. Who may mint is decided by
    /// the caller-resolution collaborator before this is invoked.
    pub fn mint(&mut self, owner: u64, value: u64) -> (r: Result<Event, Error>)
        requires
            old(self).wf(),
        ensures
            final(self).wf(),
            r is Err ==> *final(self) == *old(self),
            old(self).supply() + value > u64::MAX ==> r == Err::<Event, Error>(
                Error::SupplyOverflow,
            ),
            old(self).supply() + value <= u64::MAX ==> {
                &&& r == Ok::<Event, Error>(Event::Mint { account: owner, value })
                &&& final(self).supply() == old(self).supply() + value
                &&& final(self).balance_of(owner) == old(self).balance_of(owner) + value
                &&& forall|a: u64|
                    a != owner ==> final(self).balance_of(a) == old(self).balance_of(a)
            },
            allowances_unchanged(*old(self), *final(self)),
            metadata_unchanged(*old(self), *final(self)),
    {
        let total_supply = self.ledger.get_total_supply();
        match total_supply.checked_add(value) {
            Some(new_supply) => {
                let owner_balance = self.ledger.get_balance(owner);
                proof {
                    // The owner's balance is bounded by the supply, so the
                    // credit cannot overflow.
                    self.ledger.lemma_balance_le_sum(owner);
                }
                match owner_balance.checked_add(value) {
                    Some(credited) => {
                        self.ledger.set_total_supply(new_supply);
                        self.ledger.set_balance(owner, credited);
                        Ok(Event::Mint { account: owner, value })
                    }
                    None => Err(Error::InternalInconsistency),
                }
            }
            None => Err(Error::SupplyOverflow),
        }
    }

    /// Destroys `value` tokens held by `owner`.
    ///
    /// Fails with `InsufficientBalance`, and changes nothing, exactly when
    /// the owner's balance is below `value`. The supply decrement uses a
    /// checked subtraction; under the conservation invariant it can never
    /// underflow (an underflow would mean the invariant was already broken,
    /// a fatal `InternalInconsistency` rather than a user error), so success
    /// is owed whenever the balance check passes.
    pub fn burn(&mut self, owner: u64, value: u64) -> (r: Result<Event, Error>)
        requires
            old(self).wf(),
        ensures
            final(self).wf(),
            r is Err ==> *final(self) == *old(self),
            old(self).balance_of(owner) < value ==> r == Err::<Event, Error>(
                Error::InsufficientBalance,
            ),
            old(self).balance_of(owner) >= value ==> {
                &&& r == Ok::<Event, Error>(Event::Burn { account: owner, value })
                &&& final(self).supply() == old(self).supply() - value
                &&& final(self).balance_of(owner) == old(self).balance_of(owner) - value
                &&& forall|a: u64|
                    a != owner ==> final(self).balance_of(a) == old(self).balance_of(a)
            },
            allowances_unchanged(*old(self), *final(self)),
            metadata_unchanged(*old(self), *final(self)),
    {
        let owner_balance = self.ledger.get_balance(owner);
        if owner_balance < value {
            return Err(Error::InsufficientBalance);
        }
        let total_supply = self.ledger.get_total_supply();
        proof {
            // The owner's balance is bounded by the supply, so the decrement
            // cannot underflow.
            self.ledger.lemma_balance_le_sum(owner);
        }
        match total_supply.checked_sub(value) {
            Some(new_supply) => {
                self.ledger.set_total_supply(new_supply);
                self.ledger.set_balance(owner, owner_balance - value);
                Ok(Event::Burn { account: owner, value })
            }
            None => Err(Error::InternalInconsistency),
        }
    }

    /// Adds `value` to the allowance `owner` grants `spender` — an adjust,
    /// not a replace.
    ///
    /// Fails with `AllowanceOverflow`, and changes nothing, exactly when the
    /// new allowance would not be representable. The emitted event carries
    /// the resulting allowance, not the delta.
    pub fn increase_allowance(&mut self, owner: u64, spender: u64, value: u64) -> (r: Result<
        Event,
        Error,
    >)
        requires
            old(self).wf(),
        ensures
            final(self).wf(),
            r is Err ==> *final(self) == *old(self),
            old(self).allowance_of(owner, spender) + value > u64::MAX ==> r == Err::<Event, Error>(
                Error::AllowanceOverflow,
            ),
            old(self).allowance_of(owner, spender) + value <= u64::MAX ==> {
                &&& r == Ok::<Event, Error>(
                    Event::Approval {
                        owner,
                        spender,
                        value: (old(self).allowance_of(owner, spender) + value) as u64,
                    },
                )
                &&& final(self).allowance_of(owner, spender) == old(self).allowance_of(
                    owner,
                    spender,
                ) + value
                &&& forall|o: u64, s: u64|
                    !(o == owner && s == spender) ==> final(self).allowance_of(o, s) == old(
                        self,
                    ).allowance_of(o, s)
            },
            balances_unchanged(*old(self), *final(self)),
            final(self).supply() == old(self).supply(),
            metadata_unchanged(*old(self), *final(self)),
    {
        let current = self.allowances.get_allowance(owner, spender);
        match current.checked_add(value) {
            Some(updated) => {
                self.allowances.set_allowance(owner, spender, updated);
                Ok(Event::Approval { owner, spender, value: updated })
            }
            None => Err(Error::AllowanceOverflow),
        }
    }

    /// Subtracts `value` from the allowance `owner` grants `spender` — an
    /// adjust, not a replace.
    ///
    /// Fails with `AllowanceUnderflow`, and changes nothing, exactly when the
    /// current allowance is below `value`. The emitted event carries the
    /// resulting allowance, not the delta.
    pub fn decrease_allowance(&mut self, owner: u64, spender: u64, value: u64) -> (r: Result<
        Event,
        Error,
    >)
        requires
            old(self).wf(),
        ensures
            final(self).wf(),
            r is Err ==> *final(self) == *old(self),
            old(self).allowance_of(owner, spender) < value ==> r == Err::<Event, Error>(
                Error::AllowanceUnderflow,
            ),
            old(self).allowance_of(owner, spender) >= value ==> {
                &&& r == Ok::<Event, Error>(
                    Event::Approval {
                        owner,
                        spender,
                        value: (old(self).allowance_of(owner, spender) - value) as u64,
                    },
                )
                &&& final(self).allowance_of(owner, spender) == old(self).allowance_of(
                    owner,
                    spender,
                ) - value
                &&& forall|o: u64, s: u64|
                    !(o == owner && s == spender) ==> final(self).allowance_of(o, s) == old(
                        self,
                    ).allowance_of(o, s)
            },
            balances_unchanged(*old(self), *final(self)),
            final(self).supply() == old(self).supply(),
            metadata_unchanged(*old(self), *final(self)),
    {
        let current = self.allowances.get_allowance(owner, spender);
        match current.checked_sub(value) {
            Some(updated) => {
                self.allowances.set_allowance(owner, spender, updated);
                Ok(Event::Approval { owner, spender, value: updated })
            }
            None => Err(Error::AllowanceUnderflow),
        }
    }
}

/// Conservation law: in any well-formed state the total supply equals the
/// mathematical sum of all account balances. Every state reachable from
/// `TokenOperations::new` through the operations is well-formed, since `new`
/// establishes well-formedness and every operation both requires and
/// re-establishes it, so the equality holds after each operation of any such
/// sequence.
pub proof fn lemma_conservation(t: TokenOperations)
    requires
        t.wf(),
    ensures
        t.supply() as int == t.ledger.sum(),
{
}

/// Non-negativity law: every balance and every allowance is non-negative, in
/// every state. Amounts are unsigned, so no operation can store a negative
/// value; an operation that would need to (a transfer or burn above the
/// balance, an allowance decrease above the allowance) instead fails with the
/// state unchanged, as its contract states.
pub proof fn lemma_non_negativity(t: TokenOperations, account: u64, owner: u64, spender: u64)
    ensures
        t.balance_of(account) >= 0,
        t.allowance_of(owner, spender) >= 0,
{
}

} // verus!
