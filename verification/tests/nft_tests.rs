use delegated_ledger::auth::AuthGate;
use delegated_ledger::errors::NFTError;
use delegated_ledger::nft::NFTContract;
use delegated_ledger::nft::NFTStorageLayer;
use delegated_ledger::nft::NftEvent;
use delegated_ledger::nft::NftStore;

const ADMIN: u64 = 1;
const USER: u64 = 2;
const RECEIVER: u64 = 3;
const ATTACKER: u64 = 4;

fn setup_contract() -> NftStore {
    NftStore::new()
}

fn mint_sample(store: &mut NftStore, auth: &AuthGate, to: u64) -> Result<u32, NFTError> {
    NFTContract::mint(
        store,
        auth,
        to,
        String::from("NFT Token"),
        String::from("NFT Description"),
        String::from("https://pinata.com"),
        7,
    )
}

#[test]
fn test_nft_minting() {
    let mut store = setup_contract();
    NFTContract::init_admin(&mut store, ADMIN).unwrap();

    let auth = AuthGate::new(vec![ADMIN, USER]);
    let result = mint_sample(&mut store, &auth, USER);
    assert!(result.is_ok());

    let nft_token_detail = NFTContract::get_metadata(&store, 0).unwrap();
    assert_eq!(nft_token_detail.owner, USER);
    assert_eq!(nft_token_detail.name, String::from("NFT Token"));
    assert_eq!(nft_token_detail.description, String::from("NFT Description"));
}

#[test]
fn test_admin_access_control() {
    // An unsanctioned mint is a structured `NotAuthorized` outcome,
    // never an abort.
    let mut store = setup_contract();
    NFTContract::init_admin(&mut store, ADMIN).unwrap();

    let no_auth = AuthGate::deny_all();
    let result = mint_sample(&mut store, &no_auth, USER);
    assert_eq!(result, Err(NFTError::NotAuthorized));
}

#[test]
fn test_transfer_ownership() {
    let mut store = setup_contract();
    NFTContract::init_admin(&mut store, ADMIN).unwrap();

    let auth = AuthGate::new(vec![ADMIN, USER]);
    mint_sample(&mut store, &auth, USER).unwrap();

    let result = NFTContract::transfer(&mut store, &auth, USER, RECEIVER, 0);
    assert!(result.is_ok());
}

#[test]
fn test_transfer_ownership_with_wrong_tokenid_should_fail() {
    let mut store = setup_contract();
    NFTContract::init_admin(&mut store, ADMIN).unwrap();

    let auth = AuthGate::new(vec![ADMIN, USER]);
    mint_sample(&mut store, &auth, USER).unwrap();

    let result = NFTContract::transfer(&mut store, &auth, USER, RECEIVER, 1);
    assert!(result.is_err());
}

#[test]
fn test_transfer_ownership_for_non_owner_should_fail() {
    let mut store = setup_contract();
    NFTContract::init_admin(&mut store, ADMIN).unwrap();

    let auth = AuthGate::new(vec![ADMIN, USER, ATTACKER]);
    mint_sample(&mut store, &auth, USER).unwrap();

    let result = NFTContract::transfer(&mut store, &auth, ATTACKER, RECEIVER, 0);
    assert!(result.is_err());
}

#[test]
fn test_burn_success() {
    let mut store = setup_contract();
    NFTContract::init_admin(&mut store, ADMIN).unwrap();

    let auth = AuthGate::new(vec![ADMIN, USER]);
    mint_sample(&mut store, &auth, USER).unwrap();

    let result = NFTContract::burn(&mut store, &auth, USER, 0);
    assert!(result.is_ok());
}

#[test]
fn test_burn_non_existing_token_should_fail() {
    let mut store = setup_contract();
    NFTContract::init_admin(&mut store, ADMIN).unwrap();

    let auth = AuthGate::new(vec![ADMIN, USER]);
    let result = NFTContract::burn(&mut store, &auth, USER, 99); // token ID 99 does not exist
    assert!(result.is_err());
}

#[test]
fn test_burn_token_by_non_owner_should_fail() {
    let mut store = setup_contract();
    NFTContract::init_admin(&mut store, ADMIN).unwrap();

    let auth = AuthGate::new(vec![ADMIN, USER, ATTACKER]);
    mint_sample(&mut store, &auth, USER).unwrap();

    let result = NFTContract::burn(&mut store, &auth, ATTACKER, 0);
    assert!(result.is_err());
}

#[test]
fn second_init_admin_fails_and_changes_nothing() {
    let mut store = setup_contract();
    NFTContract::init_admin(&mut store, ADMIN).unwrap();

    let result = NFTContract::init_admin(&mut store, USER);
    assert_eq!(result, Err(NFTError::AdminAlreadyExists));

    // The first admin still gates minting.
    let auth = AuthGate::new(vec![ADMIN]);
    assert!(mint_sample(&mut store, &auth, USER).is_ok());
}

#[test]
fn first_mint_returns_id_zero_and_records_owner() {
    let mut store = setup_contract();
    NFTContract::init_admin(&mut store, ADMIN).unwrap();

    let auth = AuthGate::new(vec![ADMIN]);
    let id = mint_sample(&mut store, &auth, USER).unwrap();
    assert_eq!(id, 0);
    assert_eq!(NFTContract::get_metadata(&store, 0).unwrap().owner, USER);
}

#[test]
fn mint_identifiers_strictly_increase() {
    let mut store = setup_contract();
    NFTContract::init_admin(&mut store, ADMIN).unwrap();

    let auth = AuthGate::new(vec![ADMIN]);
    let first = mint_sample(&mut store, &auth, USER).unwrap();
    let second = mint_sample(&mut store, &auth, RECEIVER).unwrap();
    let third = mint_sample(&mut store, &auth, USER).unwrap();
    assert_eq!(first, 0);
    assert_eq!(second, 1);
    assert_eq!(third, 2);
}

#[test]
fn mint_without_admin_fails() {
    let mut store = setup_contract();
    let auth = AuthGate::new(vec![ADMIN]);
    let result = mint_sample(&mut store, &auth, USER);
    assert_eq!(result, Err(NFTError::NotAuthorized));
}

#[test]
fn burned_item_is_gone_for_good() {
    let mut store = setup_contract();
    NFTContract::init_admin(&mut store, ADMIN).unwrap();

    let auth = AuthGate::new(vec![ADMIN, USER]);
    let id = mint_sample(&mut store, &auth, USER).unwrap();
    NFTContract::burn(&mut store, &auth, USER, id).unwrap();

    match NFTContract::get_metadata(&store, id) {
        Err(e) => assert_eq!(e, NFTError::EntityNotFound),
        Ok(_) => panic!("burned item still has metadata"),
    }
    // The identifier is not handed out again: the next mint gets a fresh one.
    let next = mint_sample(&mut store, &auth, USER).unwrap();
    assert_eq!(next, 1);
}

#[test]
fn non_owner_transfer_reports_invalid_owner_and_record_is_untouched() {
    let mut store = setup_contract();
    NFTContract::init_admin(&mut store, ADMIN).unwrap();

    let auth = AuthGate::new(vec![ADMIN, USER, ATTACKER]);
    let id = mint_sample(&mut store, &auth, USER).unwrap();

    let result = NFTContract::transfer(&mut store, &auth, ATTACKER, RECEIVER, id);
    assert_eq!(result, Err(NFTError::InvalidTokenOwner));
    assert_eq!(NFTStorageLayer::get_token_owner(&store, id), Some(USER));

    let unknown = NFTContract::transfer(&mut store, &auth, USER, RECEIVER, 17);
    assert_eq!(unknown, Err(NFTError::TokenDoesNotExist));
}

#[test]
fn transfer_without_sanction_fails_and_moves_nothing() {
    let mut store = setup_contract();
    NFTContract::init_admin(&mut store, ADMIN).unwrap();

    let mint_auth = AuthGate::new(vec![ADMIN]);
    let id = mint_sample(&mut store, &mint_auth, USER).unwrap();

    let no_auth = AuthGate::deny_all();
    let result = NFTContract::transfer(&mut store, &no_auth, USER, RECEIVER, id);
    assert_eq!(result, Err(NFTError::NotAuthorized));
    assert_eq!(NFTStorageLayer::get_token_owner(&store, id), Some(USER));
}

#[test]
fn transfer_reassigns_owner_and_metadata_stays_as_minted() {
    let mut store = setup_contract();
    NFTContract::init_admin(&mut store, ADMIN).unwrap();

    let auth = AuthGate::new(vec![ADMIN, USER]);
    let id = mint_sample(&mut store, &auth, USER).unwrap();
    NFTContract::transfer(&mut store, &auth, USER, RECEIVER, id).unwrap();

    assert_eq!(NFTStorageLayer::get_token_owner(&store, id), Some(RECEIVER));
    // The payload is inert: it still shows the receiver of the mint.
    assert_eq!(NFTContract::get_metadata(&store, id).unwrap().owner, USER);
}

#[test]
fn storage_layer_reads_and_writes_round_trip() {
    let mut store = setup_contract();
    assert_eq!(NFTStorageLayer::retrieve_admin(&store), None);
    NFTStorageLayer::set_admin(&mut store, ADMIN);
    assert_eq!(NFTStorageLayer::retrieve_admin(&store), Some(ADMIN));

    assert_eq!(NFTStorageLayer::get_token_owner(&store, 5), None);
    NFTStorageLayer::set_token_owner(&mut store, 5, USER);
    assert_eq!(NFTStorageLayer::get_token_owner(&store, 5), Some(USER));
    NFTStorageLayer::set_token_owner(&mut store, 5, RECEIVER);
    assert_eq!(NFTStorageLayer::get_token_owner(&store, 5), Some(RECEIVER));

    NFTStorageLayer::increment_balance(&mut store, USER);
    NFTStorageLayer::increment_balance(&mut store, USER);
    NFTStorageLayer::decrement_balance(&mut store, USER);
    // Counts are visible only through the registry's invariants; this
    // checks the calls compose without touching other records.
    assert_eq!(NFTStorageLayer::get_token_owner(&store, 5), Some(RECEIVER));
}

#[test]
fn nft_events_record_committed_operations() {
    let mut store = setup_contract();
    NFTContract::init_admin(&mut store, ADMIN).unwrap();

    let auth = AuthGate::new(vec![ADMIN, USER]);
    let id = mint_sample(&mut store, &auth, USER).unwrap();
    NFTContract::transfer(&mut store, &auth, USER, RECEIVER, id).unwrap();

    // A failed call commits no event.
    let _ = NFTContract::transfer(&mut store, &auth, USER, RECEIVER, id);

    let log = store.event_log();
    assert_eq!(log.len(), 3);
    assert_eq!(log[0], NftEvent::Init(ADMIN));
    assert_eq!(log[1], NftEvent::Mint(USER, 0));
    assert_eq!(log[2], NftEvent::Transfer(USER, RECEIVER, 0));
}
