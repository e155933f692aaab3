use account_eventsourcing::codec::decode_event;
use account_eventsourcing::model::{
    AccountData, AccountDetail, BankEvent, EventDetail, StoredEvent, TransactionKind,
};
use account_eventsourcing::replay::get_final_state;
use account_eventsourcing::store::{
    insert_event, insert_record, should_retry, StoreError, MAX_ATTEMPTS,
};

#[test]
fn unavailable_store_is_tried_again_a_bounded_number_of_times() {
    assert_eq!(MAX_ATTEMPTS, 3);
    assert!(should_retry(StoreError::StoreUnavailable, 0));
    assert!(should_retry(StoreError::StoreUnavailable, 1));
    assert!(should_retry(StoreError::StoreUnavailable, 2));
    assert!(!should_retry(StoreError::StoreUnavailable, 3));
    assert!(!should_retry(StoreError::StoreUnavailable, 4));
    assert!(!should_retry(StoreError::StoreUnavailable, u32::MAX));
}

#[test]
fn rejected_write_is_not_tried_again() {
    assert!(!should_retry(StoreError::StoreWriteRejected, 0));
    assert!(!should_retry(StoreError::StoreWriteRejected, 1));
    assert!(!should_retry(StoreError::StoreWriteRejected, 3));
}

#[test]
fn only_an_unavailable_store_is_transient() {
    assert!(StoreError::StoreUnavailable.is_transient());
    assert!(!StoreError::StoreWriteRejected.is_transient());
}

#[test]
fn insert_builds_the_record_of_the_event() {
    let state = AccountData::seed("SAVINGS100".to_string());
    let event = BankEvent::FundsWithdrawn(
        AccountDetail {
            acctnum: "SAVINGS100".to_string(),
            balance: 400,
            trans_type: TransactionKind::Withdraw,
        },
        EventDetail { generation: 1, timestamp: 1234 },
    );
    let record = insert_record(&state, &event, "4f6e2c1a".to_string());
    assert_eq!(
        record,
        StoredEvent {
            account_id: "SAVINGS100".to_string(),
            event_id: "4f6e2c1a".to_string(),
            event: "{\"FundsWithdrawn\":[{\"acctnum\":\"SAVINGS100\",\"balance\":400,\"trans_type\":\"Withdraw\"},{\"generation\":1,\"timestamp\":1234}]}".to_string(),
        }
    );
    assert_eq!(decode_event(&record.event), Ok(event));
}

#[test]
fn insert_draws_a_fresh_identifier() {
    let state = AccountData::seed("SAVINGS100".to_string());
    let event = BankEvent::FundsDeposited(
        AccountDetail {
            acctnum: "SAVINGS100".to_string(),
            balance: 5,
            trans_type: TransactionKind::Deposit,
        },
        EventDetail { generation: 0, timestamp: 1 },
    );
    let first = insert_event(&state, &event);
    let second = insert_event(&state, &event);
    assert_eq!(first.account_id, "SAVINGS100");
    assert_eq!(decode_event(&first.event), Ok(event.clone()));
    assert_eq!(first.event, second.event);
    assert_eq!(first.event_id.chars().count(), 36);
    let parsed = uuid::Uuid::parse_str(&first.event_id).unwrap();
    assert_eq!(parsed.get_version_num(), 4);
    assert_eq!(parsed.to_string(), first.event_id);
    assert_ne!(first.event_id, second.event_id);
}

#[test]
fn inserted_records_replay_to_the_state_they_record() {
    let seed = AccountData::seed("SAVINGS100".to_string());
    let deposit = BankEvent::FundsDeposited(
        AccountDetail {
            acctnum: "SAVINGS100".to_string(),
            balance: 500,
            trans_type: TransactionKind::Deposit,
        },
        EventDetail { generation: 0, timestamp: 1 },
    );
    let withdrawal = BankEvent::FundsWithdrawn(
        AccountDetail {
            acctnum: "SAVINGS100".to_string(),
            balance: 400,
            trans_type: TransactionKind::Withdraw,
        },
        EventDetail { generation: 1, timestamp: 2 },
    );
    let records = vec![
        insert_record(&seed, &withdrawal, "b".to_string()),
        insert_record(&seed, &deposit, "a".to_string()),
    ];
    let last = get_final_state(records, seed).unwrap();
    assert_eq!(last.account.balance, 100);
    assert_eq!(last.payload.generation, 2);
    assert_eq!(last.payload.timestamp, 2);
}
