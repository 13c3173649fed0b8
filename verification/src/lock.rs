//! A one-off time lock: funds stay with the contract until a fixed
//! unlock time, then the owner — and only the owner — may withdraw them.
//!
//! The host clock and the held balance are injected as plain arguments;
//! `withdraw` returns the amount the host is to pay out to the owner, and
//! commits its event only when the payout is owed.

use vstd::prelude::*;

use crate::auth::Account;
use crate::errors::LockError;

verus! {

/// What the lock protects: the unlock time and the owning account.
#[derive(Clone, Copy, Debug, PartialEq, Eq, Structural)]
pub struct LockData {
    pub unlock_time: u64,
    pub owner: Account,
}

/// A notification record, appended exactly when an operation commits.
#[derive(Clone, Copy, Debug, PartialEq, Eq, Structural)]
pub enum LockEvent {
    Init(Account, u64),
    Withdrawal(Account, i128, u64),
}

/// The time lock's durable state.
pub struct LockStore {
    data: Option<LockData>,
    events: Vec<LockEvent>,
}

impl LockStore {
    /// The stored lock record, if one was initialized.
    pub closed spec fn data_of(self) -> Option<LockData> {
        self.data
    }

    /// The notification records committed so far.
    pub closed spec fn log(self) -> Seq<LockEvent> {
        self.events@
    }

    /// A fresh store: no lock record, no events.
    pub fn new() -> (store: LockStore)
        ensures
            store.data_of() is None,
            store.log() == Seq::<LockEvent>::empty(),
    {
        LockStore { data: None, events: Vec::new() }
    }

    /// The notification records committed so far, for outside observers.
    pub fn event_log(&self) -> (r: &Vec<LockEvent>)
        ensures
            r@ == self.log(),
    {
        &self.events
    }
}

/// The time-lock contract.
pub struct Lock;

impl Lock {
    /// Records the unlock time and the owner. The unlock time must lie
    /// strictly in the future of the given current time; a repeated call
    /// overwrites the record wholesale.
    pub fn init(store: &mut LockStore, now: u64, unlock_time: u64, owner: Account) -> (r: Result<
        (),
        LockError,
    >)
        ensures
            r == (if unlock_time <= now {
                Err::<(), LockError>(LockError::UnlockTimeNotInFuture)
            } else {
                Ok::<(), LockError>(())
            }),
            (match r {
                Ok(()) => {
                    &&& final(store).data_of() == Some(LockData { unlock_time, owner })
                    &&& final(store).log() == old(store).log().push(
                        LockEvent::Init(owner, unlock_time),
                    )
                },
                Err(_) => *final(store) == *old(store),
            }),
    {
        if unlock_time <= now {
            return Err(LockError::UnlockTimeNotInFuture);
        }
        store.data = Some(LockData { unlock_time, owner });
        store.events.push(LockEvent::Init(owner, unlock_time));
        Ok(())
    }

    /// Releases the held balance to the owner: succeeds exactly when a
    /// lock record exists, the caller is its owner, and the unlock time
    /// has been reached; the returned amount is what the host pays out to
    /// the owner. The record itself stays.
    pub fn withdraw(store: &mut LockStore, caller: Account, now: u64, balance: i128) -> (r: Result<
        i128,
        LockError,
    >)
        ensures
            r == (match old(store).data_of() {
                None => Err::<i128, LockError>(LockError::NoLockData),
                Some(data) => if caller != data.owner {
                    Err::<i128, LockError>(LockError::NotOwner)
                } else if now < data.unlock_time {
                    Err::<i128, LockError>(LockError::WithdrawalTooEarly)
                } else {
                    Ok::<i128, LockError>(balance)
                },
            }),
            (match r {
                Ok(amount) => {
                    &&& amount == balance
                    &&& final(store).data_of() == old(store).data_of()
                    &&& final(store).log() == old(store).log().push(
                        LockEvent::Withdrawal(caller, balance, now),
                    )
                },
                Err(_) => *final(store) == *old(store),
            }),
    {
        let data = match &store.data {
            Some(d) => *d,
            None => {
                return Err(LockError::NoLockData);
            },
        };
        if caller != data.owner {
            return Err(LockError::NotOwner);
        }
        if now < data.unlock_time {
            return Err(LockError::WithdrawalTooEarly);
        }
        store.events.push(LockEvent::Withdrawal(caller, balance, now));
        Ok(balance)
    }

    /// Reads the stored unlock time; fails when no lock was initialized.
    pub fn get_unlock_time(store: &LockStore) -> (r: Result<u64, LockError>)
        ensures
            r == (match store.data_of() {
                None => Err::<u64, LockError>(LockError::NoLockData),
                Some(data) => Ok::<u64, LockError>(data.unlock_time),
            }),
    {
        match &store.data {
            Some(d) => Ok(d.unlock_time),
            None => Err(LockError::NoLockData),
        }
    }

    /// Reads the stored owner; fails when no lock was initialized.
    pub fn get_owner(store: &LockStore) -> (r: Result<Account, LockError>)
        ensures
            r == (match store.data_of() {
                None => Err::<Account, LockError>(LockError::NoLockData),
                Some(data) => Ok::<Account, LockError>(data.owner),
            }),
    {
        match &store.data {
            Some(d) => Ok(d.owner),
            None => Err(LockError::NoLockData),
        }
    }
}

} // verus!
