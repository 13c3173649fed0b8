//! The fungible side of the ledger: balances, direct transfers,
//! spender-delegated transfers under time-bounded allowances, and burns.
//!
//! Every verb takes the durable state as an explicit [`TokenStore`], the
//! authorization gate of the current invocation, and — where expiration
//! matters — the current ledger ordinal. A verb either commits all of its
//! writes and appends one notification record, or returns an error and
//! leaves the store exactly as it was.

use vstd::prelude::*;

use crate::auth::Account;
use crate::auth::AuthGate;
use crate::errors::TokenError;
use crate::pairmap::PairMap;
use crate::sums::int_of_i128;
use crate::sums::lemma_sum_i128_insert;
use crate::sums::msum;
use crate::umap::UMap;

verus! {

/// An allowance grant: what remains spendable for a `(owner, spender)`
/// pair, and the ledger ordinal past which it is no longer usable.
/// An absent expiration means no time limit.
#[derive(Clone, Copy)]
pub struct Allowance {
    pub remaining: i128,
    pub expiration: Option<u32>,
}

/// A notification record, appended exactly when an operation commits.
#[derive(Clone, Copy, Debug, PartialEq, Eq, Structural)]
pub enum TokenEvent {
    Approve(Account, Account, i128, u32),
    Transfer(Account, Account, i128),
    Burn(Account, i128),
}

/// The fungible ledger's durable state.
pub struct TokenStore {
    balances: UMap<i128>,
    allowances: PairMap<Allowance>,
    token_name: Option<String>,
    token_symbol: Option<String>,
    token_decimals: Option<u32>,
    events: Vec<TokenEvent>,
}

impl TokenStore {
    /// The balance records, as a mathematical map.
    pub closed spec fn bal_map(self) -> Map<u64, i128> {
        self.balances@
    }

    /// The allowance grants, as a mathematical map keyed by
    /// `(owner, spender)`.
    pub closed spec fn allow_map(self) -> Map<(u64, u64), Allowance> {
        self.allowances@
    }

    /// The notification records committed so far.
    pub closed spec fn log(self) -> Seq<TokenEvent> {
        self.events@
    }

    /// The configured display name, if any; inert deployment metadata.
    pub closed spec fn name_cfg(self) -> Option<String> {
        self.token_name
    }

    /// The configured display symbol, if any; inert deployment metadata.
    pub closed spec fn symbol_cfg(self) -> Option<String> {
        self.token_symbol
    }

    /// The configured display precision, if any; inert deployment metadata.
    pub closed spec fn decimals_cfg(self) -> Option<u32> {
        self.token_decimals
    }

    /// An account's balance; an absent record reads as 0.
    pub open spec fn balance_of(self, a: Account) -> int {
        if self.bal_map().dom().contains(a) {
            self.bal_map()[a] as int
        } else {
            0
        }
    }

    /// The stored remaining allowance; an absent grant reads as 0.
    pub open spec fn allowance_of(self, owner: Account, spender: Account) -> int {
        if self.allow_map().dom().contains((owner, spender)) {
            self.allow_map()[(owner, spender)].remaining as int
        } else {
            0
        }
    }

    /// The stored expiration ordinal of a grant, if any.
    pub open spec fn expiration_of(self, owner: Account, spender: Account) -> Option<u32> {
        if self.allow_map().dom().contains((owner, spender)) {
            self.allow_map()[(owner, spender)].expiration
        } else {
            None
        }
    }

    /// Whether the grant is usable at ordinal `now`: it is unusable only
    /// past a stored expiration; an absent expiration means no time limit.
    pub open spec fn usable_at(self, owner: Account, spender: Account, now: u32) -> bool {
        match self.expiration_of(owner, spender) {
            Some(e) => now <= e,
            None => true,
        }
    }

    /// The total fungible supply: the sum of all balances.
    pub open spec fn total_supply(self) -> int {
        msum(int_of_i128(self.bal_map()))
    }

    /// Well-formedness: representation invariants of the stores, and the
    /// global invariants that no balance and no remaining allowance is
    /// ever negative.
    pub closed spec fn wf(self) -> bool {
        &&& self.balances.wf()
        &&& self.allowances.wf()
        &&& balances_nonneg(self.bal_map())
        &&& allowances_nonneg(self.allow_map())
    }

    /// A fresh store: no balances, no grants, no events, and the given
    /// deployment metadata (`None` leaves the documented default in force).
    pub fn new(name: Option<String>, symbol: Option<String>, decimals: Option<u32>) -> (store:
        TokenStore)
        ensures
            store.wf(),
            store.bal_map() == Map::<u64, i128>::empty(),
            store.allow_map() == Map::<(u64, u64), Allowance>::empty(),
            store.name_cfg() == name,
            store.symbol_cfg() == symbol,
            store.decimals_cfg() == decimals,
            store.log() == Seq::<TokenEvent>::empty(),
            store.total_supply() == 0,
    {
        let store = TokenStore {
            balances: UMap::new(),
            allowances: PairMap::new(),
            token_name: name,
            token_symbol: symbol,
            token_decimals: decimals,
            events: Vec::new(),
        };
        proof {
            assert(int_of_i128(store.bal_map()).dom() =~= Set::<u64>::empty());
        }
        store
    }

    /// The notification records committed so far, for outside observers.
    pub fn event_log(&self) -> (r: &Vec<TokenEvent>)
        ensures
            r@ == self.log(),
    {
        &self.events
    }

    /// The balance ledger's credit primitive: adds a non-negative amount
    /// to one account, creating its record on first credit, and grows
    /// the total supply by exactly that amount.
    pub fn credit(&mut self, account: Account, amount: i128) -> (r: Result<(), TokenError>)
        requires
            old(self).wf(),
        ensures
            final(self).wf(),
            r == (if amount < 0 {
                Err::<(), TokenError>(TokenError::InvalidAmount)
            } else if old(self).balance_of(account) + amount > i128::MAX {
                Err::<(), TokenError>(TokenError::Overflow)
            } else {
                Ok::<(), TokenError>(())
            }),
            (match r {
                Ok(()) => {
                    &&& balances_credited(*old(self), *final(self), account, amount)
                    &&& final(self).total_supply() == old(self).total_supply() + amount
                    &&& final(self).allow_map() == old(self).allow_map()
                    &&& same_config(*old(self), *final(self))
                    &&& final(self).log() == old(self).log()
                },
                Err(_) => *final(self) == *old(self),
            }),
    {
        if amount < 0 {
            return Err(TokenError::InvalidAmount);
        }
        let balance = match self.balances.get(account) {
            Some(b) => *b,
            None => 0,
        };
        if balance > i128::MAX - amount {
            return Err(TokenError::Overflow);
        }
        proof {
            self.balances.lemma_dom_finite();
            lemma_sum_i128_insert(self.bal_map(), account, (balance + amount) as i128);
            lemma_balances_nonneg_insert(self.bal_map(), account, (balance + amount) as i128);
        }
        self.balances.insert(account, balance + amount);
        Ok(())
    }

    /// The balance ledger's debit primitive: removes a strictly positive,
    /// covered amount from one account, and shrinks the total supply by
    /// exactly that amount.
    pub fn debit(&mut self, account: Account, amount: i128) -> (r: Result<(), TokenError>)
        requires
            old(self).wf(),
        ensures
            final(self).wf(),
            r == (if amount > old(self).balance_of(account) {
                Err::<(), TokenError>(TokenError::InsufficientBalance)
            } else if amount <= 0 {
                Err::<(), TokenError>(TokenError::InvalidAmount)
            } else {
                Ok::<(), TokenError>(())
            }),
            (match r {
                Ok(()) => {
                    &&& balances_debited(*old(self), *final(self), account, amount)
                    &&& final(self).total_supply() == old(self).total_supply() - amount
                    &&& final(self).allow_map() == old(self).allow_map()
                    &&& same_config(*old(self), *final(self))
                    &&& final(self).log() == old(self).log()
                },
                Err(_) => *final(self) == *old(self),
            }),
    {
        let balance = match self.balances.get(account) {
            Some(b) => *b,
            None => 0,
        };
        if amount > balance {
            return Err(TokenError::InsufficientBalance);
        }
        if amount <= 0 {
            return Err(TokenError::InvalidAmount);
        }
        proof {
            self.balances.lemma_dom_finite();
            lemma_sum_i128_insert(self.bal_map(), account, (balance - amount) as i128);
            lemma_balances_nonneg_insert(self.bal_map(), account, (balance - amount) as i128);
        }
        self.balances.insert(account, balance - amount);
        Ok(())
    }
}

/// No balance record is negative.
pub open spec fn balances_nonneg(m: Map<u64, i128>) -> bool {
    forall|a: u64| #[trigger] m.dom().contains(a) ==> m[a] >= 0
}

/// No remaining allowance is negative.
pub open spec fn allowances_nonneg(m: Map<(u64, u64), Allowance>) -> bool {
    forall|p: (u64, u64)| #[trigger] m.dom().contains(p) ==> m[p].remaining >= 0
}

/// Writing a non-negative balance keeps all balances non-negative.
proof fn lemma_balances_nonneg_insert(m: Map<u64, i128>, k: u64, v: i128)
    requires
        balances_nonneg(m),
        v >= 0,
    ensures
        balances_nonneg(m.insert(k, v)),
{
    assert forall|a: u64| #[trigger]
        m.insert(k, v).dom().contains(a) implies m.insert(k, v)[a] >= 0 by {
        if a != k {
            assert(m.dom().contains(a));
        }
    }
}

/// Writing a non-negative grant keeps all grants non-negative.
proof fn lemma_allowances_nonneg_insert(m: Map<(u64, u64), Allowance>, k: (u64, u64), v: Allowance)
    requires
        allowances_nonneg(m),
        v.remaining >= 0,
    ensures
        allowances_nonneg(m.insert(k, v)),
{
    assert forall|p: (u64, u64)| #[trigger]
        m.insert(k, v).dom().contains(p) implies m.insert(k, v)[p].remaining >= 0 by {
        if p != k {
            assert(m.dom().contains(p));
        }
    }
}

/// Inert configuration is never touched by the fungible verbs.
pub open spec fn same_config(a: TokenStore, b: TokenStore) -> bool {
    &&& a.name_cfg() == b.name_cfg()
    &&& a.symbol_cfg() == b.symbol_cfg()
    &&& a.decimals_cfg() == b.decimals_cfg()
}

/// The outcome `approve` owes: rejected exactly when the owner did not
/// sanction the call or the amount is negative.
pub open spec fn approve_result(sanctioned: bool, amount: i128) -> Result<(), TokenError> {
    if !sanctioned {
        Err(TokenError::Unauthorized)
    } else if amount < 0 {
        Err(TokenError::InvalidAmount)
    } else {
        Ok(())
    }
}

/// Whether crediting `to` after debiting `from` by `amount` would exceed
/// the largest representable balance.
pub open spec fn credit_overflows(pre: TokenStore, from: Account, to: Account, amount: i128) -> bool {
    from != to && pre.balance_of(to) + amount > i128::MAX
}

/// The outcome `transfer` owes.
pub open spec fn transfer_result(
    pre: TokenStore,
    sanctioned: bool,
    from: Account,
    to: Account,
    amount: i128,
) -> Result<(), TokenError> {
    if !sanctioned {
        Err(TokenError::Unauthorized)
    } else if amount > pre.balance_of(from) {
        Err(TokenError::InsufficientBalance)
    } else if amount <= 0 {
        Err(TokenError::InvalidAmount)
    } else if credit_overflows(pre, from, to, amount) {
        Err(TokenError::Overflow)
    } else {
        Ok(())
    }
}

/// The outcome `burn` owes.
pub open spec fn burn_result(
    pre: TokenStore,
    sanctioned: bool,
    owner: Account,
    amount: i128,
) -> Result<(), TokenError> {
    if !sanctioned {
        Err(TokenError::Unauthorized)
    } else if amount > pre.balance_of(owner) {
        Err(TokenError::InsufficientBalance)
    } else if amount <= 0 {
        Err(TokenError::InvalidAmount)
    } else {
        Ok(())
    }
}

/// The outcome a delegated spend of the allowance owes, shared by
/// `transfer_from` and `burn_from` up to the balance checks.
pub open spec fn consume_result(
    pre: TokenStore,
    owner: Account,
    spender: Account,
    amount: i128,
    now: u32,
) -> Result<(), TokenError> {
    if !pre.usable_at(owner, spender, now) {
        Err(TokenError::ExpiredAllowance)
    } else if amount > pre.allowance_of(owner, spender) {
        Err(TokenError::InsufficientAllowance)
    } else if amount <= 0 {
        Err(TokenError::InvalidAmount)
    } else {
        Ok(())
    }
}

/// The outcome `transfer_from` owes.
pub open spec fn transfer_from_result(
    pre: TokenStore,
    sanctioned: bool,
    spender: Account,
    from: Account,
    to: Account,
    amount: i128,
    now: u32,
) -> Result<(), TokenError> {
    if !sanctioned {
        Err(TokenError::Unauthorized)
    } else if consume_result(pre, from, spender, amount, now) is Err {
        consume_result(pre, from, spender, amount, now)
    } else if amount > pre.balance_of(from) {
        Err(TokenError::InsufficientBalance)
    } else if credit_overflows(pre, from, to, amount) {
        Err(TokenError::Overflow)
    } else {
        Ok(())
    }
}

/// The outcome `burn_from` owes.
pub open spec fn burn_from_result(
    pre: TokenStore,
    sanctioned: bool,
    spender: Account,
    owner: Account,
    amount: i128,
    now: u32,
) -> Result<(), TokenError> {
    if !sanctioned {
        Err(TokenError::Unauthorized)
    } else if consume_result(pre, owner, spender, amount, now) is Err {
        consume_result(pre, owner, spender, amount, now)
    } else if amount > pre.balance_of(owner) {
        Err(TokenError::InsufficientBalance)
    } else {
        Ok(())
    }
}

/// How every balance moves when `amount` flows from `from` to `to`
/// (a self-transfer nets to no change).
pub open spec fn balances_moved(
    pre: TokenStore,
    post: TokenStore,
    from: Account,
    to: Account,
    amount: i128,
) -> bool {
    forall|c: Account| #[trigger]
        post.balance_of(c) == pre.balance_of(c) + (if c == to {
            amount as int
        } else {
            0
        }) - (if c == from {
            amount as int
        } else {
            0
        })
}

/// How every balance moves when `amount` is credited to `account` with
/// no matching debit.
pub open spec fn balances_credited(
    pre: TokenStore,
    post: TokenStore,
    account: Account,
    amount: i128,
) -> bool {
    forall|c: Account| #[trigger]
        post.balance_of(c) == pre.balance_of(c) + (if c == account {
            amount as int
        } else {
            0
        })
}

/// How every balance moves when `amount` is debited from `owner` with no
/// matching credit.
pub open spec fn balances_debited(
    pre: TokenStore,
    post: TokenStore,
    owner: Account,
    amount: i128,
) -> bool {
    forall|c: Account| #[trigger]
        post.balance_of(c) == pre.balance_of(c) - (if c == owner {
            amount as int
        } else {
            0
        })
}

/// The fungible token contract.
pub struct Token;

impl Token {
    /// An account's balance. Pure read, no authorization, no failure mode;
    /// an account without a record has balance 0.
    pub fn balance(store: &TokenStore, id: Account) -> (r: i128)
        requires
            store.wf(),
        ensures
            r == store.balance_of(id),
    {
        match store.balances.get(id) {
            Some(b) => *b,
            None => 0,
        }
    }

    /// The stored remaining allowance of `(from, spender)`. Pure raw read:
    /// it reports the stored number even past expiration, for transparency.
    pub fn allowance(store: &TokenStore, from: Account, spender: Account) -> (r: i128)
        requires
            store.wf(),
        ensures
            r == store.allowance_of(from, spender),
    {
        match store.allowances.get(from, spender) {
            Some(a) => a.remaining,
            None => 0,
        }
    }

    /// The spend-eligibility check at ordinal `now`: the stored amount
    /// while the grant is usable, and 0 once it has expired.
    pub fn remaining(store: &TokenStore, from: Account, spender: Account, now: u32) -> (r: i128)
        requires
            store.wf(),
        ensures
            r == (if store.usable_at(from, spender, now) {
                store.allowance_of(from, spender)
            } else {
                0
            }),
    {
        match store.allowances.get(from, spender) {
            Some(a) => {
                match a.expiration {
                    Some(e) => if now <= e {
                        a.remaining
                    } else {
                        0
                    },
                    None => a.remaining,
                }
            },
            None => 0,
        }
    }

    /// Grants `spender` a spendable amount out of `from`'s balance until
    /// the given expiration ordinal. The grant is overwritten wholesale:
    /// the newest call's amount is the sole effective value, with no
    /// accumulation. Requires the owner's sanction; a negative amount is
    /// rejected, since a remaining allowance is never negative.
    pub fn approve(
        store: &mut TokenStore,
        auth: &AuthGate,
        from: Account,
        spender: Account,
        amount: i128,
        expiration_ledger: u32,
    ) -> (r: Result<(), TokenError>)
        requires
            old(store).wf(),
        ensures
            final(store).wf(),
            r == approve_result(auth@.contains(from), amount),
            (match r {
                Ok(()) => {
                    &&& final(store).allow_map() == old(store).allow_map().insert(
                        (from, spender),
                        (Allowance { remaining: amount, expiration: Some(expiration_ledger) }),
                    )
                    &&& final(store).bal_map() == old(store).bal_map()
                    &&& same_config(*old(store), *final(store))
                    &&& final(store).log() == old(store).log().push(
                        TokenEvent::Approve(from, spender, amount, expiration_ledger),
                    )
                },
                Err(_) => *final(store) == *old(store),
            }),
    {
        if !auth.grants(from) {
            return Err(TokenError::Unauthorized);
        }
        if amount < 0 {
            return Err(TokenError::InvalidAmount);
        }
        store.allowances.insert(
            from,
            spender,
            Allowance { remaining: amount, expiration: Some(expiration_ledger) },
        );
        proof {
            lemma_allowances_nonneg_insert(
                old(store).allow_map(),
                (from, spender),
                Allowance { remaining: amount, expiration: Some(expiration_ledger) },
            );
        }
        store.events.push(TokenEvent::Approve(from, spender, amount, expiration_ledger));
        Ok(())
    }

    /// Moves `amount` from `from` to `to`: an atomic debit-then-credit;
    /// if either half is impossible, neither is applied. Requires `from`'s
    /// sanction and a strictly positive amount covered by `from`'s
    /// balance. The sum of all balances is unchanged.
    pub fn transfer(
        store: &mut TokenStore,
        auth: &AuthGate,
        from: Account,
        to: Account,
        amount: i128,
    ) -> (r: Result<(), TokenError>)
        requires
            old(store).wf(),
        ensures
            final(store).wf(),
            r == transfer_result(*old(store), auth@.contains(from), from, to, amount),
            (match r {
                Ok(()) => {
                    &&& balances_moved(*old(store), *final(store), from, to, amount)
                    &&& final(store).total_supply() == old(store).total_supply()
                    &&& final(store).allow_map() == old(store).allow_map()
                    &&& same_config(*old(store), *final(store))
                    &&& final(store).log() == old(store).log().push(
                        TokenEvent::Transfer(from, to, amount),
                    )
                },
                Err(_) => *final(store) == *old(store),
            }),
    {
        if !auth.grants(from) {
            return Err(TokenError::Unauthorized);
        }
        let from_balance = Token::balance(store, from);
        if amount > from_balance {
            return Err(TokenError::InsufficientBalance);
        }
        if amount <= 0 {
            return Err(TokenError::InvalidAmount);
        }
        let to_balance = Token::balance(store, to);
        if from != to && to_balance > i128::MAX - amount {
            return Err(TokenError::Overflow);
        }
        proof {
            store.balances.lemma_dom_finite();
            lemma_sum_i128_insert(store.bal_map(), from, (from_balance - amount) as i128);
        }
        let ghost mid = store.bal_map().insert(from, (from_balance - amount) as i128);
        store.balances.insert(from, from_balance - amount);
        let to_after_debit = Token::balance(store, to);
        proof {
            broadcast use vstd::set::group_set_axioms;

            lemma_sum_i128_insert(mid, to, (to_after_debit + amount) as i128);
        }
        store.balances.insert(to, to_after_debit + amount);
        store.events.push(TokenEvent::Transfer(from, to, amount));
        Ok(())
    }

    /// Moves `amount` from `from` to `to` on behalf of `from`, spending
    /// the `(from, spender)` allowance. Requires the spender's sanction, a
    /// usable (unexpired) grant covering the amount, and a covered
    /// balance; the whole operation is atomic, so a failed move leaves the
    /// allowance undecremented. On success the grant keeps its expiration
    /// and loses exactly `amount` of its remaining value.
    pub fn transfer_from(
        store: &mut TokenStore,
        auth: &AuthGate,
        spender: Account,
        from: Account,
        to: Account,
        amount: i128,
        now: u32,
    ) -> (r: Result<(), TokenError>)
        requires
            old(store).wf(),
        ensures
            final(store).wf(),
            r == transfer_from_result(
                *old(store),
                auth@.contains(spender),
                spender,
                from,
                to,
                amount,
                now,
            ),
            (match r {
                Ok(()) => {
                    &&& balances_moved(*old(store), *final(store), from, to, amount)
                    &&& final(store).total_supply() == old(store).total_supply()
                    &&& final(store).allow_map() == old(store).allow_map().insert(
                        (from, spender),
                        (Allowance {
                            remaining: (old(store).allowance_of(from, spender) - amount) as i128,
                            expiration: old(store).expiration_of(from, spender),
                        }),
                    )
                    &&& same_config(*old(store), *final(store))
                    &&& final(store).log() == old(store).log().push(
                        TokenEvent::Transfer(from, to, amount),
                    )
                },
                Err(_) => *final(store) == *old(store),
            }),
    {
        if !auth.grants(spender) {
            return Err(TokenError::Unauthorized);
        }
        let grant = match store.allowances.get(from, spender) {
            Some(a) => *a,
            None => Allowance { remaining: 0, expiration: None },
        };
        if let Some(e) = grant.expiration {
            if now > e {
                return Err(TokenError::ExpiredAllowance);
            }
        }
        if amount > grant.remaining {
            return Err(TokenError::InsufficientAllowance);
        }
        if amount <= 0 {
            return Err(TokenError::InvalidAmount);
        }
        let from_balance = Token::balance(store, from);
        if amount > from_balance {
            return Err(TokenError::InsufficientBalance);
        }
        let to_balance = Token::balance(store, to);
        if from != to && to_balance > i128::MAX - amount {
            return Err(TokenError::Overflow);
        }
        store.allowances.insert(
            from,
            spender,
            Allowance { remaining: grant.remaining - amount, expiration: grant.expiration },
        );
        proof {
            store.balances.lemma_dom_finite();
            lemma_sum_i128_insert(store.bal_map(), from, (from_balance - amount) as i128);
        }
        let ghost mid = store.bal_map().insert(from, (from_balance - amount) as i128);
        store.balances.insert(from, from_balance - amount);
        let to_after_debit = Token::balance(store, to);
        proof {
            broadcast use vstd::set::group_set_axioms;

            lemma_sum_i128_insert(mid, to, (to_after_debit + amount) as i128);
        }
        store.balances.insert(to, to_after_debit + amount);
        store.events.push(TokenEvent::Transfer(from, to, amount));
        Ok(())
    }

    /// Destroys `amount` out of `owner`'s balance with no matching credit:
    /// the total supply shrinks by exactly `amount` and no other balance
    /// changes. Requires the owner's sanction.
    pub fn burn(store: &mut TokenStore, auth: &AuthGate, owner: Account, amount: i128) -> (r:
        Result<(), TokenError>)
        requires
            old(store).wf(),
        ensures
            final(store).wf(),
            r == burn_result(*old(store), auth@.contains(owner), owner, amount),
            (match r {
                Ok(()) => {
                    &&& balances_debited(*old(store), *final(store), owner, amount)
                    &&& final(store).total_supply() == old(store).total_supply() - amount
                    &&& final(store).allow_map() == old(store).allow_map()
                    &&& same_config(*old(store), *final(store))
                    &&& final(store).log() == old(store).log().push(
                        TokenEvent::Burn(owner, amount),
                    )
                },
                Err(_) => *final(store) == *old(store),
            }),
    {
        if !auth.grants(owner) {
            return Err(TokenError::Unauthorized);
        }
        let owner_balance = Token::balance(store, owner);
        if amount > owner_balance {
            return Err(TokenError::InsufficientBalance);
        }
        if amount <= 0 {
            return Err(TokenError::InvalidAmount);
        }
        proof {
            store.balances.lemma_dom_finite();
            lemma_sum_i128_insert(store.bal_map(), owner, (owner_balance - amount) as i128);
        }
        store.balances.insert(owner, owner_balance - amount);
        store.events.push(TokenEvent::Burn(owner, amount));
        Ok(())
    }

    /// Destroys `amount` out of `owner`'s balance on the owner's behalf,
    /// spending the `(owner, spender)` allowance; atomic as a whole, like
    /// `transfer_from`, and supply-reducing, like `burn`.
    pub fn burn_from(
        store: &mut TokenStore,
        auth: &AuthGate,
        spender: Account,
        owner: Account,
        amount: i128,
        now: u32,
    ) -> (r: Result<(), TokenError>)
        requires
            old(store).wf(),
        ensures
            final(store).wf(),
            r == burn_from_result(
                *old(store),
                auth@.contains(spender),
                spender,
                owner,
                amount,
                now,
            ),
            (match r {
                Ok(()) => {
                    &&& balances_debited(*old(store), *final(store), owner, amount)
                    &&& final(store).total_supply() == old(store).total_supply() - amount
                    &&& final(store).allow_map() == old(store).allow_map().insert(
                        (owner, spender),
                        (Allowance {
                            remaining: (old(store).allowance_of(owner, spender) - amount) as i128,
                            expiration: old(store).expiration_of(owner, spender),
                        }),
                    )
                    &&& same_config(*old(store), *final(store))
                    &&& final(store).log() == old(store).log().push(
                        TokenEvent::Burn(owner, amount),
                    )
                },
                Err(_) => *final(store) == *old(store),
            }),
    {
        if !auth.grants(spender) {
            return Err(TokenError::Unauthorized);
        }
        let grant = match store.allowances.get(owner, spender) {
            Some(a) => *a,
            None => Allowance { remaining: 0, expiration: None },
        };
        if let Some(e) = grant.expiration {
            if now > e {
                return Err(TokenError::ExpiredAllowance);
            }
        }
        if amount > grant.remaining {
            return Err(TokenError::InsufficientAllowance);
        }
        if amount <= 0 {
            return Err(TokenError::InvalidAmount);
        }
        let owner_balance = Token::balance(store, owner);
        if amount > owner_balance {
            return Err(TokenError::InsufficientBalance);
        }
        store.allowances.insert(
            owner,
            spender,
            Allowance { remaining: grant.remaining - amount, expiration: grant.expiration },
        );
        proof {
            store.balances.lemma_dom_finite();
            lemma_sum_i128_insert(store.bal_map(), owner, (owner_balance - amount) as i128);
        }
        store.balances.insert(owner, owner_balance - amount);
        store.events.push(TokenEvent::Burn(owner, amount));
        Ok(())
    }

    /// The token's display precision; 18 when unset.
    pub fn decimals(store: &TokenStore) -> (r: u32)
        ensures
            r == (match store.decimals_cfg() {
                Some(d) => d,
                None => 18u32,
            }),
    {
        match &store.token_decimals {
            Some(d) => *d,
            None => 18,
        }
    }

    /// The token's display name; a documented default when unset.
    pub fn name(store: &TokenStore) -> (r: String)
        ensures
            r@ == (match store.name_cfg() {
                Some(n) => n@,
                None => "My Token"@,
            }),
    {
        match &store.token_name {
            Some(n) => n.clone(),
            None => "My Token".to_owned(),
        }
    }

    /// The token's display symbol; a documented default when unset.
    pub fn symbol(store: &TokenStore) -> (r: String)
        ensures
            r@ == (match store.symbol_cfg() {
                Some(s) => s@,
                None => "MYTOKEN"@,
            }),
    {
        match &store.token_symbol {
            Some(s) => s.clone(),
            None => "MYTOKEN".to_owned(),
        }
    }
}

/// Law: balances are never negative — in every well-formed store, which
/// every operation requires and re-establishes, every account's balance
/// is at least 0.
pub proof fn lemma_balance_nonnegative(store: TokenStore, a: Account)
    requires
        store.wf(),
    ensures
        store.balance_of(a) >= 0,
{
}

/// Law: remaining allowances are never negative in a well-formed store.
/// That they never exceed what the most recent `approve` set is read off
/// the operations' own contracts: `approve` stores exactly its amount,
/// and the delegated verbs only ever lower the stored remainder.
pub proof fn lemma_allowance_nonnegative(store: TokenStore, owner: Account, spender: Account)
    requires
        store.wf(),
    ensures
        store.allowance_of(owner, spender) >= 0,
{
}

/// Law: `approve` overwrites wholesale — after two grants to the same
/// `(owner, spender)` pair, the second call's amount is the sole
/// effective value; nothing accumulates. The two premises are exactly
/// what `approve` ensures of its two successful calls.
pub proof fn lemma_approve_overwrites(
    s0: TokenStore,
    s1: TokenStore,
    s2: TokenStore,
    owner: Account,
    spender: Account,
    amount1: i128,
    exp1: u32,
    amount2: i128,
    exp2: u32,
)
    requires
        s1.allow_map() == s0.allow_map().insert(
            (owner, spender),
            (Allowance { remaining: amount1, expiration: Some(exp1) }),
        ),
        s2.allow_map() == s1.allow_map().insert(
            (owner, spender),
            (Allowance { remaining: amount2, expiration: Some(exp2) }),
        ),
    ensures
        s2.allowance_of(owner, spender) == amount2,
        s2.expiration_of(owner, spender) == Some(exp2),
        s2.allow_map() == s0.allow_map().insert(
            (owner, spender),
            (Allowance { remaining: amount2, expiration: Some(exp2) }),
        ),
{
    assert(s2.allow_map() =~= s0.allow_map().insert(
        (owner, spender),
        (Allowance { remaining: amount2, expiration: Some(exp2) }),
    ));
}

} // verus!
