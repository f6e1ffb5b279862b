use vault_pipeline::chain::ChainModel;
use vault_pipeline::decimal::Decimal;
use vault_pipeline::store::{DepositStatus, DepositStore};
use vault_pipeline::watcher::{
    balance_covers, effective_polling_interval, parse_address, process_pending_deposits,
};

fn seed_pending(store: &mut DepositStore, id: &str, token: &str, deposit_address: &str, amount: u128) {
    store
        .create_deposit(
            id.to_string(),
            "0x1".to_string(),
            1,
            Decimal::from_parts(false, amount, 0),
            token.to_string(),
            "0x3".to_string(),
            deposit_address.to_string(),
        )
        .unwrap();
}

fn chain_with_balance(token: &str, account: &str, balance: Decimal) -> ChainModel {
    ChainModel {
        balances: vec![(token.to_string(), account.to_string(), balance)],
        predicted_address: Some("0xpredicted".to_string()),
        tx_hash: "0xsettled".to_string(),
        submit_ok: true,
    }
}

#[test]
fn sufficient_balance_settles_in_one_cycle() {
    let mut store = DepositStore::new();
    seed_pending(&mut store, "0xd1", "0xaa", "0xf1", 100);
    let chain = chain_with_balance("0xaa", "0xf1", Decimal::from_parts(false, 150u128, 0));
    let processed = process_pending_deposits(&mut store, &chain);
    assert_eq!(processed, 1);
    let rec = store.get_deposit(&"0xd1".to_string()).unwrap();
    assert_eq!(rec.status, DepositStatus::Deposited);
    assert_eq!(rec.settlement_tx_hash.as_deref(), Some("0xsettled"));
}

#[test]
fn exact_balance_settles() {
    let mut store = DepositStore::new();
    seed_pending(&mut store, "0xd1", "0xaa", "0xf1", 100);
    let chain = chain_with_balance("0xaa", "0xf1", Decimal::from_parts(false, 100u128, 0));
    let processed = process_pending_deposits(&mut store, &chain);
    assert_eq!(processed, 1);
    assert_eq!(
        store.get_deposit(&"0xd1".to_string()).unwrap().status,
        DepositStatus::Deposited
    );
}

#[test]
fn insufficient_balance_leaves_the_deposit_pending() {
    let mut store = DepositStore::new();
    seed_pending(&mut store, "0xd1", "0xaa", "0xf1", 100);
    let chain = chain_with_balance("0xaa", "0xf1", Decimal::from_parts(false, 99u128, 0));
    let processed = process_pending_deposits(&mut store, &chain);
    assert_eq!(processed, 0);
    let rec = store.get_deposit(&"0xd1".to_string()).unwrap();
    assert_eq!(rec.status, DepositStatus::Created);
    assert_eq!(rec.settlement_tx_hash, None);
}

#[test]
fn missing_balance_entry_counts_as_zero() {
    let mut store = DepositStore::new();
    seed_pending(&mut store, "0xd1", "0xaa", "0xf1", 100);
    let chain = chain_with_balance("0xaa", "0xother", Decimal::from_parts(false, 500u128, 0));
    let processed = process_pending_deposits(&mut store, &chain);
    assert_eq!(processed, 0);
    assert_eq!(
        store.get_deposit(&"0xd1".to_string()).unwrap().status,
        DepositStatus::Created
    );
}

#[test]
fn fractional_balance_comparison_is_decimal_not_integer() {
    let mut store = DepositStore::new();
    // Amount 1.5, balance 1.25: insufficient even though both truncate to 1.
    store
        .create_deposit(
            "0xd1".to_string(),
            "0x1".to_string(),
            1,
            Decimal::from_parts(false, 15u128, 1),
            "0xaa".to_string(),
            "0x3".to_string(),
            "0xf1".to_string(),
        )
        .unwrap();
    let chain = chain_with_balance("0xaa", "0xf1", Decimal::from_parts(false, 125u128, 2));
    let processed = process_pending_deposits(&mut store, &chain);
    assert_eq!(processed, 0);
}

#[test]
fn one_malformed_deposit_does_not_starve_the_batch() {
    let mut store = DepositStore::new();
    seed_pending(&mut store, "0xbad", "not-hex", "0xf0", 10);
    seed_pending(&mut store, "0xd00d", "0xaa", "0xf1", 10);
    let chain = chain_with_balance("0xaa", "0xf1", Decimal::from_parts(false, 10u128, 0));
    let processed = process_pending_deposits(&mut store, &chain);
    assert_eq!(processed, 1);
    let bad = store.get_deposit(&"0xbad".to_string()).unwrap();
    assert_eq!(bad.status, DepositStatus::Created);
    assert_eq!(bad.settlement_tx_hash, None);
    let good = store.get_deposit(&"0xd00d".to_string()).unwrap();
    assert_eq!(good.status, DepositStatus::Deposited);
    assert_eq!(good.settlement_tx_hash.as_deref(), Some("0xsettled"));
}

#[test]
fn failed_submission_pre_commits_and_is_not_resubmitted() {
    let mut store = DepositStore::new();
    seed_pending(&mut store, "0xd1", "0xaa", "0xf1", 10);
    let mut chain = chain_with_balance("0xaa", "0xf1", Decimal::from_parts(false, 10u128, 0));
    chain.submit_ok = false;
    let processed = process_pending_deposits(&mut store, &chain);
    assert_eq!(processed, 0);
    // The deposit was pre-committed before the submission attempt, so it is
    // out of the pending set and surfaced to the operator instead of being
    // retried blindly.
    let rec = store.get_deposit(&"0xd1".to_string()).unwrap();
    assert_eq!(rec.status, DepositStatus::Initiated);
    assert_eq!(rec.settlement_tx_hash, None);
    chain.submit_ok = true;
    assert_eq!(process_pending_deposits(&mut store, &chain), 0);
    assert_eq!(
        store.get_deposit(&"0xd1".to_string()).unwrap().status,
        DepositStatus::Initiated
    );
}

#[test]
fn settled_deposits_are_not_reprocessed() {
    let mut store = DepositStore::new();
    seed_pending(&mut store, "0xd1", "0xaa", "0xf1", 10);
    let chain = chain_with_balance("0xaa", "0xf1", Decimal::from_parts(false, 10u128, 0));
    assert_eq!(process_pending_deposits(&mut store, &chain), 1);
    // A second cycle finds no pending work.
    assert_eq!(process_pending_deposits(&mut store, &chain), 0);
    assert_eq!(
        store.get_deposit(&"0xd1".to_string()).unwrap().status,
        DepositStatus::Deposited
    );
}

#[test]
fn oversized_amount_is_skipped_not_settled() {
    let mut store = DepositStore::new();
    store
        .create_deposit(
            "0xd1".to_string(),
            "0x1".to_string(),
            1,
            Decimal::new(false, vec![0xffu8; 33], 0),
            "0xaa".to_string(),
            "0x3".to_string(),
            "0xf1".to_string(),
        )
        .unwrap();
    let huge = Decimal::new(false, vec![0xffu8; 40], 0);
    let chain = chain_with_balance("0xaa", "0xf1", huge);
    let processed = process_pending_deposits(&mut store, &chain);
    assert_eq!(processed, 0);
    assert_eq!(
        store.get_deposit(&"0xd1".to_string()).unwrap().status,
        DepositStatus::Created
    );
}

#[test]
fn address_parsing_accepts_chain_addresses_only() {
    assert!(parse_address("0x04718f5a0fc34cc1af16a1cdee98ffb20c31f5cd61d6ab07201858f4287c938d", "token").is_ok());
    assert!(parse_address("1a2b", "token").is_ok());
    assert!(parse_address("not-an-address", "token").is_err());
    assert!(parse_address("", "token").is_err());
}

#[test]
fn balance_comparison_matches_decimal_order() {
    let b = Decimal::from_parts(false, 100u128, 0);
    assert!(balance_covers(&b, &Decimal::from_parts(false, 100u128, 0)));
    assert!(balance_covers(&b, &Decimal::from_parts(false, 9999u128, 2)));
    assert!(!balance_covers(&b, &Decimal::from_parts(false, 10001u128, 2)));
}

#[test]
fn polling_interval_defaults_to_ten_seconds() {
    assert_eq!(effective_polling_interval(None), 10);
    assert_eq!(effective_polling_interval(Some(3)), 3);
}
