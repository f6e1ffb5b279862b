use vault_pipeline::decimal::Decimal;
use vault_pipeline::errors::StoreError;
use vault_pipeline::store::{DepositStatus, DepositStore};

fn seed(store: &mut DepositStore, id: &str, user: &str) {
    store
        .create_deposit(
            id.to_string(),
            user.to_string(),
            1,
            Decimal::from_parts(false, 100u128, 0),
            "0xaa".to_string(),
            "0xbb".to_string(),
            "0xcc".to_string(),
        )
        .unwrap();
}

#[test]
fn create_assigns_created_status_and_tick() {
    let mut store = DepositStore::new();
    let rec = store
        .create_deposit(
            "id1".to_string(),
            "0x1".to_string(),
            7,
            Decimal::from_parts(false, 5u128, 0),
            "0xaa".to_string(),
            "0xbb".to_string(),
            "0xcc".to_string(),
        )
        .unwrap();
    assert_eq!(rec.status, DepositStatus::Created);
    assert_eq!(rec.settlement_tx_hash, None);
    assert_eq!(rec.created_at, 0);
    assert_eq!(rec.action, 7);
    assert_eq!(rec.deposit_id, "id1");
}

#[test]
fn duplicate_identifier_conflicts_and_changes_nothing() {
    let mut store = DepositStore::new();
    seed(&mut store, "dup", "0x1");
    let r = store.create_deposit(
        "dup".to_string(),
        "0x2".to_string(),
        1,
        Decimal::from_parts(false, 9u128, 0),
        "0xaa".to_string(),
        "0xbb".to_string(),
        "0xcc".to_string(),
    );
    assert!(matches!(r, Err(StoreError::Conflict)));
    let kept = store.get_deposit(&"dup".to_string()).unwrap();
    assert_eq!(kept.user_address, "0x1");
}

#[test]
fn get_finds_exactly_existing_ids() {
    let mut store = DepositStore::new();
    seed(&mut store, "a", "0x1");
    assert!(store.get_deposit(&"a".to_string()).is_some());
    assert!(store.get_deposit(&"b".to_string()).is_none());
}

#[test]
fn listing_by_status_is_newest_first() {
    let mut store = DepositStore::new();
    seed(&mut store, "first", "0x1");
    seed(&mut store, "second", "0x1");
    seed(&mut store, "third", "0x1");
    store
        .update_deposit_status_and_tx_hash(
            &"second".to_string(),
            DepositStatus::Deposited,
            Some("0xhash".to_string()),
        )
        .unwrap();
    let created = store.get_deposits_by_status(DepositStatus::Created);
    let ids: Vec<&str> = created.iter().map(|r| r.deposit_id.as_str()).collect();
    assert_eq!(ids, vec!["third", "first"]);
    let deposited = store.get_deposits_by_status(DepositStatus::Deposited);
    assert_eq!(deposited.len(), 1);
    assert_eq!(deposited[0].deposit_id, "second");
}

#[test]
fn listing_by_user_is_newest_first() {
    let mut store = DepositStore::new();
    seed(&mut store, "a", "alice");
    seed(&mut store, "b", "bob");
    seed(&mut store, "c", "alice");
    let mine = store.get_deposits_by_user_address(&"alice".to_string());
    let ids: Vec<&str> = mine.iter().map(|r| r.deposit_id.as_str()).collect();
    assert_eq!(ids, vec!["c", "a"]);
}

#[test]
fn settling_records_status_and_hash_atomically() {
    let mut store = DepositStore::new();
    seed(&mut store, "x", "0x1");
    store
        .update_deposit_status_and_tx_hash(
            &"x".to_string(),
            DepositStatus::Deposited,
            Some("0xabc".to_string()),
        )
        .unwrap();
    let rec = store.get_deposit(&"x".to_string()).unwrap();
    assert_eq!(rec.status, DepositStatus::Deposited);
    assert_eq!(rec.settlement_tx_hash.as_deref(), Some("0xabc"));
}

#[test]
fn settling_requires_a_nonempty_hash() {
    let mut store = DepositStore::new();
    seed(&mut store, "x", "0x1");
    let r = store.update_deposit_status_and_tx_hash(
        &"x".to_string(),
        DepositStatus::Deposited,
        Some("".to_string()),
    );
    assert!(matches!(r, Err(StoreError::MissingTxHash)));
    let r = store.update_deposit_status_and_tx_hash(&"x".to_string(), DepositStatus::Deposited, None);
    assert!(matches!(r, Err(StoreError::MissingTxHash)));
    assert_eq!(
        store.get_deposit(&"x".to_string()).unwrap().status,
        DepositStatus::Created
    );
}

#[test]
fn updating_a_missing_deposit_is_not_found() {
    let mut store = DepositStore::new();
    let r = store.update_deposit_status(&"ghost".to_string(), DepositStatus::Initiated);
    assert!(matches!(r, Err(StoreError::NotFound)));
}

#[test]
fn status_transitions_only_move_forward() {
    let statuses = [
        DepositStatus::Created,
        DepositStatus::Initiated,
        DepositStatus::Deposited,
    ];
    let rank = |s: &DepositStatus| match s {
        DepositStatus::Created => 0,
        DepositStatus::Initiated => 1,
        DepositStatus::Deposited => 2,
    };
    for from in &statuses {
        for to in &statuses {
            let mut store = DepositStore::new();
            seed(&mut store, "d", "0x1");
            // Drive the deposit to the starting status.
            if *from != DepositStatus::Created {
                let hash = if *from == DepositStatus::Deposited {
                    Some("0xh".to_string())
                } else {
                    None
                };
                store
                    .update_deposit_status_and_tx_hash(&"d".to_string(), *from, hash)
                    .unwrap();
            }
            let hash = if *to == DepositStatus::Deposited {
                Some("0xh2".to_string())
            } else {
                None
            };
            let r = store.update_deposit_status_and_tx_hash(&"d".to_string(), *to, hash);
            if rank(from) < rank(to) {
                assert!(r.is_ok(), "{:?} -> {:?} must be allowed", from, to);
            } else {
                assert!(
                    matches!(r, Err(StoreError::InvalidTransition)),
                    "{:?} -> {:?} must be rejected",
                    from,
                    to
                );
                // The rejected update must leave the record untouched.
                let rec = store.get_deposit(&"d".to_string()).unwrap();
                assert_eq!(rec.status, *from);
            }
        }
    }
}

#[test]
fn random_transition_sequences_never_regress() {
    // A deterministic pseudo-random walk over update attempts: whatever is
    // attempted, the observed status never moves backwards.
    let statuses = [
        DepositStatus::Created,
        DepositStatus::Initiated,
        DepositStatus::Deposited,
    ];
    let rank = |s: &DepositStatus| match s {
        DepositStatus::Created => 0,
        DepositStatus::Initiated => 1,
        DepositStatus::Deposited => 2,
    };
    let mut seed_val: u64 = 0x9e3779b97f4a7c15;
    for _round in 0..20 {
        let mut store = DepositStore::new();
        seed(&mut store, "d", "0x1");
        let mut last_rank = 0;
        for _step in 0..10 {
            seed_val = seed_val.wrapping_mul(6364136223846793005).wrapping_add(1442695040888963407);
            let target = statuses[(seed_val >> 33) as usize % 3];
            let hash = if target == DepositStatus::Deposited {
                Some("0xh".to_string())
            } else {
                None
            };
            let _ = store.update_deposit_status_and_tx_hash(&"d".to_string(), target, hash);
            let now = rank(&store.get_deposit(&"d".to_string()).unwrap().status);
            assert!(now >= last_rank, "status regressed");
            last_rank = now;
        }
    }
}

#[test]
fn initiated_path_is_reachable_without_a_hash() {
    let mut store = DepositStore::new();
    seed(&mut store, "d", "0x1");
    store
        .update_deposit_status(&"d".to_string(), DepositStatus::Initiated)
        .unwrap();
    let rec = store.get_deposit(&"d".to_string()).unwrap();
    assert_eq!(rec.status, DepositStatus::Initiated);
    assert_eq!(rec.settlement_tx_hash, None);
    // Settling through update_deposit_status alone is refused.
    let r = store.update_deposit_status(&"d".to_string(), DepositStatus::Deposited);
    assert!(matches!(r, Err(StoreError::MissingTxHash)));
}

#[test]
fn status_labels_match_the_wire_format() {
    assert_eq!(DepositStatus::Created.label(), "created");
    assert_eq!(DepositStatus::Initiated.label(), "initiated");
    assert_eq!(DepositStatus::Deposited.label(), "deposited");
}
