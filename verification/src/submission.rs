//! A submission-review register: anyone may file a submission, and the
//! recorded admin approves or rejects it. Identifiers come from a
//! counter and are never reused; a processed submission keeps its
//! verdict — approval and rejection each refuse to repeat themselves.

use vstd::prelude::*;

use crate::auth::Account;
use crate::errors::SubmissionError;
use crate::umap::UMap;

verus! {

/// The review verdict on a submission.
#[derive(Clone, Copy, Debug, PartialEq, Eq, Structural)]
pub enum SubmissionStatus {
    Pending,
    Approved,
    Rejected,
}

/// A filed submission and its review state. The `data_uri` bytes are the
/// content reference (a content-addressed hash in practice) and are
/// inert payload.
pub struct Submission {
    pub id: u64,
    pub submitter: Account,
    pub data_uri: Vec<u8>,
    pub timestamp: u64,
    pub status: SubmissionStatus,
    pub approver: Option<Account>,
    pub processed_timestamp: Option<u64>,
    pub rewarded: bool,
}

/// The submission register's durable state.
pub struct SubmissionStore {
    admin: Option<Account>,
    count: u64,
    submissions: UMap<Submission>,
}

impl SubmissionStore {
    /// The recorded admin, if any.
    pub closed spec fn admin_of(self) -> Option<Account> {
        self.admin
    }

    /// How many submissions have been filed.
    pub closed spec fn count_of(self) -> u64 {
        self.count
    }

    /// The filed submissions, keyed by identifier.
    pub closed spec fn subs_map(self) -> Map<u64, Submission> {
        self.submissions@
    }

    /// Representation well-formedness of the backing store.
    pub closed spec fn wf(self) -> bool {
        self.submissions.wf()
    }

    /// A fresh register: no admin, no submissions, counter at 0.
    pub fn new() -> (store: SubmissionStore)
        ensures
            store.wf(),
            store.admin_of() is None,
            store.count_of() == 0,
            store.subs_map() == Map::<u64, Submission>::empty(),
    {
        SubmissionStore { admin: None, count: 0, submissions: UMap::new() }
    }
}

/// The verdict a review verb owes: only the recorded admin decides, the
/// submission must exist, and a verdict of the same kind is not repeated.
pub open spec fn review_result(
    pre: SubmissionStore,
    caller: Account,
    submission_id: u64,
    refused: SubmissionStatus,
    refusal: SubmissionError,
) -> Result<(), SubmissionError> {
    match pre.admin_of() {
        None => Err(SubmissionError::AdminNotSet),
        Some(admin) => if caller != admin {
            Err(SubmissionError::NotAdmin)
        } else if !pre.subs_map().dom().contains(submission_id) {
            Err(SubmissionError::SubmissionNotFound)
        } else if pre.subs_map()[submission_id].status == refused {
            Err(refusal)
        } else {
            Ok(())
        },
    }
}

/// The submission-review contract.
pub struct SubmissionContract;

impl SubmissionContract {
    /// Records the admin and resets the counter; a repeated call
    /// overwrites both.
    pub fn init(store: &mut SubmissionStore, admin: Account)
        requires
            old(store).wf(),
        ensures
            final(store).wf(),
            final(store).admin_of() == Some(admin),
            final(store).count_of() == 0,
            final(store).subs_map() == old(store).subs_map(),
    {
        store.admin = Some(admin);
        store.count = 0;
    }

    /// Files a submission for the invoking account at the given time:
    /// hands out the counter's value as its identifier, stores it as
    /// pending, unprocessed and unrewarded, and advances the counter.
    /// Fails only when the counter is exhausted.
    pub fn create_submission(
        store: &mut SubmissionStore,
        invoker: Account,
        now: u64,
        data_uri: Vec<u8>,
    ) -> (r: Result<u64, SubmissionError>)
        requires
            old(store).wf(),
        ensures
            final(store).wf(),
            r == (if old(store).count_of() == u64::MAX {
                Err::<u64, SubmissionError>(SubmissionError::Overflow)
            } else {
                Ok::<u64, SubmissionError>(old(store).count_of())
            }),
            (match r {
                Ok(submission_id) => {
                    &&& submission_id == old(store).count_of()
                    &&& final(store).count_of() == submission_id + 1
                    &&& final(store).subs_map() == old(store).subs_map().insert(
                        submission_id,
                        (Submission {
                            id: submission_id,
                            submitter: invoker,
                            data_uri,
                            timestamp: now,
                            status: SubmissionStatus::Pending,
                            approver: None,
                            processed_timestamp: None,
                            rewarded: false,
                        }),
                    )
                    &&& final(store).admin_of() == old(store).admin_of()
                },
                Err(_) => *final(store) == *old(store),
            }),
    {
        if store.count == u64::MAX {
            return Err(SubmissionError::Overflow);
        }
        let submission_id = store.count;
        store.count = submission_id + 1;
        let submission = Submission {
            id: submission_id,
            submitter: invoker,
            data_uri,
            timestamp: now,
            status: SubmissionStatus::Pending,
            approver: None,
            processed_timestamp: None,
            rewarded: false,
        };
        store.submissions.insert(submission_id, submission);
        Ok(submission_id)
    }

    /// Approves a pending or rejected submission: records the verdict,
    /// the approver, the processing time, and the reward. Only the
    /// recorded admin decides; approval does not repeat itself.
    pub fn approve_submission(
        store: &mut SubmissionStore,
        caller: Account,
        now: u64,
        submission_id: u64,
    ) -> (r: Result<(), SubmissionError>)
        requires
            old(store).wf(),
        ensures
            final(store).wf(),
            r == review_result(
                *old(store),
                caller,
                submission_id,
                SubmissionStatus::Approved,
                SubmissionError::AlreadyApproved,
            ),
            (match r {
                Ok(()) => {
                    &&& final(store).subs_map() == old(store).subs_map().insert(
                        submission_id,
                        (Submission {
                            status: SubmissionStatus::Approved,
                            approver: Some(caller),
                            processed_timestamp: Some(now),
                            rewarded: true,
                            ..old(store).subs_map()[submission_id]
                        }),
                    )
                    &&& final(store).admin_of() == old(store).admin_of()
                    &&& final(store).count_of() == old(store).count_of()
                },
                Err(_) => *final(store) == *old(store),
            }),
    {
        let admin = match &store.admin {
            Some(a) => *a,
            None => {
                return Err(SubmissionError::AdminNotSet);
            },
        };
        if caller != admin {
            return Err(SubmissionError::NotAdmin);
        }
        match store.submissions.get(submission_id) {
            Some(s) => {
                if s.status == SubmissionStatus::Approved {
                    return Err(SubmissionError::AlreadyApproved);
                }
            },
            None => {
                return Err(SubmissionError::SubmissionNotFound);
            },
        };
        let submission = match store.submissions.take(submission_id) {
            Some(s) => s,
            None => {
                return Err(SubmissionError::SubmissionNotFound);
            },
        };
        let updated = Submission {
            status: SubmissionStatus::Approved,
            approver: Some(caller),
            processed_timestamp: Some(now),
            rewarded: true,
            ..submission
        };
        store.submissions.insert(submission_id, updated);
        proof {
            assert(store.subs_map() =~= old(store).subs_map().insert(
                submission_id,
                store.subs_map()[submission_id],
            ));
        }
        Ok(())
    }

    /// Rejects a pending or approved submission: records the verdict, the
    /// deciding admin and the processing time; the reward flag stays.
    /// Only the recorded admin decides; rejection does not repeat itself.
    pub fn reject_submission(
        store: &mut SubmissionStore,
        caller: Account,
        now: u64,
        submission_id: u64,
    ) -> (r: Result<(), SubmissionError>)
        requires
            old(store).wf(),
        ensures
            final(store).wf(),
            r == review_result(
                *old(store),
                caller,
                submission_id,
                SubmissionStatus::Rejected,
                SubmissionError::AlreadyRejected,
            ),
            (match r {
                Ok(()) => {
                    &&& final(store).subs_map() == old(store).subs_map().insert(
                        submission_id,
                        (Submission {
                            status: SubmissionStatus::Rejected,
                            approver: Some(caller),
                            processed_timestamp: Some(now),
                            ..old(store).subs_map()[submission_id]
                        }),
                    )
                    &&& final(store).admin_of() == old(store).admin_of()
                    &&& final(store).count_of() == old(store).count_of()
                },
                Err(_) => *final(store) == *old(store),
            }),
    {
        let admin = match &store.admin {
            Some(a) => *a,
            None => {
                return Err(SubmissionError::AdminNotSet);
            },
        };
        if caller != admin {
            return Err(SubmissionError::NotAdmin);
        }
        match store.submissions.get(submission_id) {
            Some(s) => {
                if s.status == SubmissionStatus::Rejected {
                    return Err(SubmissionError::AlreadyRejected);
                }
            },
            None => {
                return Err(SubmissionError::SubmissionNotFound);
            },
        };
        let submission = match store.submissions.take(submission_id) {
            Some(s) => s,
            None => {
                return Err(SubmissionError::SubmissionNotFound);
            },
        };
        let updated = Submission {
            status: SubmissionStatus::Rejected,
            approver: Some(caller),
            processed_timestamp: Some(now),
            ..submission
        };
        store.submissions.insert(submission_id, updated);
        proof {
            assert(store.subs_map() =~= old(store).subs_map().insert(
                submission_id,
                store.subs_map()[submission_id],
            ));
        }
        Ok(())
    }

    /// Reads a filed submission; fails when none exists under the
    /// identifier.
    pub fn get_submission(store: &SubmissionStore, submission_id: u64) -> (r: Result<
        &Submission,
        SubmissionError,
    >)
        requires
            store.wf(),
        ensures
            (match r {
                Ok(s) => store.subs_map().dom().contains(submission_id) && *s == store.subs_map()[
                    submission_id
                ],
                Err(e) => e == SubmissionError::SubmissionNotFound && !store.subs_map(
                ).dom().contains(submission_id),
            }),
    {
        match store.submissions.get(submission_id) {
            Some(s) => Ok(s),
            None => Err(SubmissionError::SubmissionNotFound),
        }
    }

    /// How many submissions have been filed so far.
    pub fn get_submission_count(store: &SubmissionStore) -> (r: u64)
        ensures
            r == store.count_of(),
    {
        store.count
    }
}

} // verus!
