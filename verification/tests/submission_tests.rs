use delegated_ledger::errors::SubmissionError;
use delegated_ledger::submission::SubmissionContract;
use delegated_ledger::submission::SubmissionStatus;
use delegated_ledger::submission::SubmissionStore;

const ADMIN: u64 = 1;
const ALICE: u64 = 2;
const BOB: u64 = 3;

fn uri(byte: u8) -> Vec<u8> {
    vec![byte; 32]
}

#[test]
fn submissions_get_increasing_identifiers() {
    let mut store = SubmissionStore::new();
    SubmissionContract::init(&mut store, ADMIN);

    let first = SubmissionContract::create_submission(&mut store, ALICE, 50, uri(1)).unwrap();
    let second = SubmissionContract::create_submission(&mut store, BOB, 60, uri(2)).unwrap();
    assert_eq!(first, 0);
    assert_eq!(second, 1);
    assert_eq!(SubmissionContract::get_submission_count(&store), 2);

    let filed = SubmissionContract::get_submission(&store, 0).unwrap();
    assert_eq!(filed.id, 0);
    assert_eq!(filed.submitter, ALICE);
    assert_eq!(filed.data_uri, uri(1));
    assert_eq!(filed.timestamp, 50);
    assert_eq!(filed.status, SubmissionStatus::Pending);
    assert_eq!(filed.approver, None);
    assert_eq!(filed.processed_timestamp, None);
    assert!(!filed.rewarded);
}

#[test]
fn only_the_admin_reviews() {
    let mut store = SubmissionStore::new();
    assert_eq!(
        SubmissionContract::approve_submission(&mut store, ADMIN, 10, 0),
        Err(SubmissionError::AdminNotSet)
    );

    SubmissionContract::init(&mut store, ADMIN);
    SubmissionContract::create_submission(&mut store, ALICE, 5, uri(9)).unwrap();

    assert_eq!(
        SubmissionContract::approve_submission(&mut store, BOB, 10, 0),
        Err(SubmissionError::NotAdmin)
    );
    assert_eq!(
        SubmissionContract::reject_submission(&mut store, BOB, 10, 0),
        Err(SubmissionError::NotAdmin)
    );
    assert_eq!(
        SubmissionContract::approve_submission(&mut store, ADMIN, 10, 4),
        Err(SubmissionError::SubmissionNotFound)
    );
}

#[test]
fn approval_records_the_verdict_once() {
    let mut store = SubmissionStore::new();
    SubmissionContract::init(&mut store, ADMIN);
    SubmissionContract::create_submission(&mut store, ALICE, 5, uri(9)).unwrap();

    SubmissionContract::approve_submission(&mut store, ADMIN, 10, 0).unwrap();
    let approved = SubmissionContract::get_submission(&store, 0).unwrap();
    assert_eq!(approved.status, SubmissionStatus::Approved);
    assert_eq!(approved.approver, Some(ADMIN));
    assert_eq!(approved.processed_timestamp, Some(10));
    assert!(approved.rewarded);
    assert_eq!(approved.data_uri, uri(9));

    assert_eq!(
        SubmissionContract::approve_submission(&mut store, ADMIN, 11, 0),
        Err(SubmissionError::AlreadyApproved)
    );
}

#[test]
fn rejection_records_the_verdict_once() {
    let mut store = SubmissionStore::new();
    SubmissionContract::init(&mut store, ADMIN);
    SubmissionContract::create_submission(&mut store, ALICE, 5, uri(9)).unwrap();

    SubmissionContract::reject_submission(&mut store, ADMIN, 10, 0).unwrap();
    let rejected = SubmissionContract::get_submission(&store, 0).unwrap();
    assert_eq!(rejected.status, SubmissionStatus::Rejected);
    assert_eq!(rejected.approver, Some(ADMIN));
    assert_eq!(rejected.processed_timestamp, Some(10));
    assert!(!rejected.rewarded);

    assert_eq!(
        SubmissionContract::reject_submission(&mut store, ADMIN, 11, 0),
        Err(SubmissionError::AlreadyRejected)
    );

    // A rejected submission may still be approved afterwards.
    SubmissionContract::approve_submission(&mut store, ADMIN, 12, 0).unwrap();
    let reversed = SubmissionContract::get_submission(&store, 0).unwrap();
    assert_eq!(reversed.status, SubmissionStatus::Approved);
    assert!(reversed.rewarded);
}

#[test]
fn unknown_submission_reads_fail() {
    let mut store = SubmissionStore::new();
    SubmissionContract::init(&mut store, ADMIN);
    match SubmissionContract::get_submission(&store, 3) {
        Err(e) => assert_eq!(e, SubmissionError::SubmissionNotFound),
        Ok(_) => panic!("no submission was filed"),
    }
}
