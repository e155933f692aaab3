use account_eventsourcing::account::Account;
use account_eventsourcing::codec::encode_event;
use account_eventsourcing::model::{
    AccountData, AccountDetail, ApplyError, BankEvent, EventDetail, LoggedEvent, ReplayError,
    StoredEvent, TransactionKind,
};
use account_eventsourcing::ordering::{precedes, sort_events};
use account_eventsourcing::replay::{get_events, get_final_state, replay};

fn state(acctnum: &str, balance: u32, generation: u64) -> AccountData {
    AccountData {
        account: AccountDetail {
            acctnum: acctnum.to_string(),
            balance,
            trans_type: TransactionKind::Deposit,
        },
        payload: EventDetail { generation, timestamp: 0 },
    }
}

fn deposited(amount: u32, timestamp: u64) -> BankEvent {
    BankEvent::FundsDeposited(
        AccountDetail {
            acctnum: "SAVINGS100".to_string(),
            balance: amount,
            trans_type: TransactionKind::Deposit,
        },
        EventDetail { generation: 1, timestamp },
    )
}

fn withdrawn(amount: u32, timestamp: u64) -> BankEvent {
    BankEvent::FundsWithdrawn(
        AccountDetail {
            acctnum: "SAVINGS100".to_string(),
            balance: amount,
            trans_type: TransactionKind::Withdraw,
        },
        EventDetail { generation: 1, timestamp },
    )
}

fn logged(event_id: &str, event: BankEvent) -> LoggedEvent {
    LoggedEvent { event_id: event_id.to_string(), event }
}

fn record(event_id: &str, event: &BankEvent) -> StoredEvent {
    StoredEvent {
        account_id: "SAVINGS100".to_string(),
        event_id: event_id.to_string(),
        event: encode_event(event),
    }
}

fn ids(log: &[LoggedEvent]) -> Vec<String> {
    log.iter().map(|entry| entry.event_id.clone()).collect()
}

fn permutations(items: &[StoredEvent]) -> Vec<Vec<StoredEvent>> {
    if items.len() <= 1 {
        return vec![items.to_vec()];
    }
    let mut all = Vec::new();
    for i in 0..items.len() {
        let mut rest = items.to_vec();
        let first = rest.remove(i);
        for mut tail in permutations(&rest) {
            tail.insert(0, first.clone());
            all.push(tail);
        }
    }
    all
}

#[test]
fn records_in_reverse_arrival_order_replay_in_time_order() {
    let t1 = record("id-1", &deposited(500, 1000));
    let t2 = record("id-2", &withdrawn(1200, 2000));
    let seed = state("SAVINGS100", 800, 1);
    let reversed = get_final_state(vec![t2.clone(), t1.clone()], seed.clone());
    let in_order = get_final_state(vec![t1, t2], seed);
    let expected = AccountData {
        account: AccountDetail {
            acctnum: "SAVINGS100".to_string(),
            balance: 100,
            trans_type: TransactionKind::Withdraw,
        },
        payload: EventDetail { generation: 3, timestamp: 2000 },
    };
    assert_eq!(reversed, Ok(expected.clone()));
    assert_eq!(in_order, Ok(expected));
}

#[test]
fn every_order_of_the_records_gives_the_same_state() {
    let records = vec![
        record("d", &deposited(100, 40)),
        record("c", &withdrawn(50, 30)),
        record("b", &deposited(60, 20)),
        record("a", &withdrawn(10, 10)),
    ];
    let seed = state("SAVINGS100", 10, 1);
    let expected = get_final_state(records.clone(), seed.clone());
    assert_eq!(expected.clone().unwrap().account.balance, 110);
    assert_eq!(expected.clone().unwrap().payload.generation, 5);
    let all = permutations(&records);
    assert_eq!(all.len(), 24);
    for order in all {
        assert_eq!(get_final_state(order, seed.clone()), expected);
    }
}

#[test]
fn every_order_of_failing_records_fails_alike() {
    let records = vec![
        record("c", &withdrawn(500, 30)),
        record("b", &deposited(60, 20)),
        record("a", &withdrawn(10, 10)),
    ];
    let seed = state("SAVINGS100", 10, 1);
    for order in permutations(&records) {
        assert_eq!(
            get_final_state(order, seed.clone()),
            Err(ReplayError::Apply(ApplyError::InsufficientFunds))
        );
    }
}

#[test]
fn replay_equals_applying_the_events_one_by_one() {
    let events =
        vec![deposited(500, 10), withdrawn(400, 20), deposited(7, 30), withdrawn(907, 40)];
    let seed = state("SAVINGS100", 800, 1);
    let mut live = seed.clone();
    let mut log = Vec::new();
    for (i, evt) in events.iter().enumerate() {
        live = Account::apply_event(&live, evt.clone()).unwrap();
        log.push(logged(&format!("id-{}", i), evt.clone()));
        assert_eq!(replay(seed.clone(), &log), Ok(live.clone()));
    }
    assert_eq!(live.account.balance, 0);
    assert_eq!(live.payload.generation, 5);
    let records: Vec<StoredEvent> =
        log.iter().rev().map(|entry| record(&entry.event_id, &entry.event)).collect();
    assert_eq!(get_final_state(records, seed), Ok(live));
}

#[test]
fn replay_of_no_events_is_the_seed() {
    let seed = state("SAVINGS100", 800, 1);
    assert_eq!(replay(seed.clone(), &Vec::new()), Ok(seed.clone()));
    assert_eq!(get_final_state(Vec::new(), seed.clone()), Ok(seed));
}

#[test]
fn replay_raises_the_generation_by_the_number_of_events() {
    let log: Vec<LoggedEvent> =
        (0..25).map(|i| logged(&format!("{:03}", i), deposited(1, i))).collect();
    let last = replay(state("KEEP", 0, 7), &log).unwrap();
    assert_eq!(last.payload.generation, 32);
    assert_eq!(last.account.balance, 25);
    assert_eq!(last.account.acctnum, "KEEP");
}

#[test]
fn replay_stops_at_the_first_event_that_cannot_be_applied() {
    let log = vec![
        logged("a", deposited(5, 10)),
        logged("b", withdrawn(106, 20)),
        logged("c", deposited(u32::MAX, 30)),
    ];
    assert_eq!(replay(state("A", 100, 1), &log), Err(ApplyError::InsufficientFunds));
    let log = vec![logged("a", deposited(u32::MAX, 10)), logged("b", withdrawn(u32::MAX, 20))];
    assert_eq!(replay(state("A", 1, 1), &log), Err(ApplyError::BalanceOverflow));
    let log = vec![logged("a", deposited(1, 10)), logged("b", withdrawn(1, 20))];
    assert_eq!(replay(state("A", 1, u64::MAX - 1), &log), Err(ApplyError::GenerationOverflow));
}

#[test]
fn corrupt_record_fails_the_replay() {
    let good = record("a", &deposited(5, 10));
    let bad = StoredEvent {
        account_id: "SAVINGS100".to_string(),
        event_id: "b".to_string(),
        event: "{\"FundsTransferred\":[]}".to_string(),
    };
    let seed = state("SAVINGS100", 0, 1);
    assert_eq!(
        get_final_state(vec![good.clone(), bad.clone()], seed.clone()),
        Err(ReplayError::RecordCorrupt)
    );
    assert_eq!(
        get_final_state(vec![bad.clone(), good.clone()], seed.clone()),
        Err(ReplayError::RecordCorrupt)
    );
    assert_eq!(get_events(vec![good.clone(), bad]), Err(ReplayError::RecordCorrupt));
    assert!(get_final_state(vec![good], seed).is_ok());
}

#[test]
fn corrupt_record_is_reported_before_an_event_that_cannot_be_applied() {
    let overdraft = record("a", &withdrawn(5, 10));
    let bad = StoredEvent {
        account_id: "SAVINGS100".to_string(),
        event_id: "z".to_string(),
        event: "oops".to_string(),
    };
    assert_eq!(
        get_final_state(vec![overdraft, bad], state("SAVINGS100", 0, 1)),
        Err(ReplayError::RecordCorrupt)
    );
}

#[test]
fn event_that_cannot_be_applied_fails_the_replay() {
    let records = vec![record("b", &withdrawn(150, 20)), record("a", &deposited(20, 10))];
    assert_eq!(
        get_final_state(records, state("SAVINGS100", 100, 1)),
        Err(ReplayError::Apply(ApplyError::InsufficientFunds))
    );
}

#[test]
fn decoded_records_come_in_replay_order() {
    let records = vec![
        record("z", &deposited(3, 30)),
        record("y", &deposited(1, 10)),
        record("x", &deposited(2, 20)),
    ];
    let log = get_events(records).unwrap();
    assert_eq!(ids(&log), vec!["y", "x", "z"]);
    assert_eq!(log[0].event, deposited(1, 10));
    assert_eq!(log[1].event, deposited(2, 20));
    assert_eq!(log[2].event, deposited(3, 30));
}

#[test]
fn events_are_sorted_by_timestamp() {
    let log = vec![
        logged("a", deposited(1, 50)),
        logged("b", deposited(1, 10)),
        logged("c", deposited(1, 40)),
        logged("d", deposited(1, 20)),
        logged("e", deposited(1, 30)),
    ];
    assert_eq!(ids(&sort_events(log)), vec!["b", "d", "e", "c", "a"]);
    assert_eq!(sort_events(Vec::new()), Vec::new());
}

#[test]
fn events_of_one_timestamp_are_sorted_by_event_id() {
    let log = vec![
        logged("id-b", deposited(1, 10)),
        logged("id-c", withdrawn(2, 10)),
        logged("id-a", deposited(3, 10)),
        logged("id", deposited(4, 10)),
        logged("zz", deposited(5, 9)),
    ];
    assert_eq!(ids(&sort_events(log)), vec!["zz", "id", "id-a", "id-b", "id-c"]);
}

#[test]
fn events_that_agree_in_timestamp_and_id_keep_their_order() {
    let log = vec![
        logged("same", deposited(1, 10)),
        logged("same", deposited(2, 10)),
        logged("first", deposited(9, 1)),
        logged("same", deposited(3, 10)),
    ];
    let sorted = sort_events(log);
    assert_eq!(ids(&sorted), vec!["first", "same", "same", "same"]);
    assert_eq!(sorted[1].event, deposited(1, 10));
    assert_eq!(sorted[2].event, deposited(2, 10));
    assert_eq!(sorted[3].event, deposited(3, 10));
}

#[test]
fn tie_on_the_timestamp_is_broken_by_event_id_in_replay() {
    let first = record("a", &deposited(100, 10));
    let second = record("b", &withdrawn(100, 10));
    let seed = state("SAVINGS100", 0, 1);
    let expected = get_final_state(vec![first.clone(), second.clone()], seed.clone()).unwrap();
    assert_eq!(expected.account.balance, 0);
    assert_eq!(expected.account.trans_type, TransactionKind::Withdraw);
    assert_eq!(get_final_state(vec![second, first], seed), Ok(expected));
}

#[test]
fn precedes_compares_timestamp_and_then_event_id() {
    let a = logged("b", deposited(1, 10));
    let b = logged("a", deposited(1, 20));
    assert!(precedes(&a, &b));
    assert!(!precedes(&b, &a));
    let c = logged("a", withdrawn(1, 10));
    assert!(precedes(&c, &a));
    assert!(!precedes(&a, &c));
    assert!(precedes(&a, &a));
    let d = logged("b", withdrawn(7, 10));
    assert!(precedes(&a, &d));
    assert!(precedes(&d, &a));
}
