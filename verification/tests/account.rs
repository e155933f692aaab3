use account_eventsourcing::account::Account;
use account_eventsourcing::model::{
    AccountData, AccountDetail, ApplyError, BankCommand, BankEvent, EventDetail, TransactionKind,
    ValidationError, BASELINE_GENERATION,
};

fn state(acctnum: &str, balance: u32, generation: u64) -> AccountData {
    AccountData {
        account: AccountDetail {
            acctnum: acctnum.to_string(),
            balance,
            trans_type: TransactionKind::Deposit,
        },
        payload: EventDetail { generation, timestamp: 0 },
    }
}

fn detail(acctnum: &str, balance: u32, trans_type: TransactionKind) -> AccountDetail {
    AccountDetail { acctnum: acctnum.to_string(), balance, trans_type }
}

fn deposited(acctnum: &str, amount: u32, timestamp: u64) -> BankEvent {
    BankEvent::FundsDeposited(
        detail(acctnum, amount, TransactionKind::Deposit),
        EventDetail { generation: 1, timestamp },
    )
}

fn withdrawn(acctnum: &str, amount: u32, timestamp: u64) -> BankEvent {
    BankEvent::FundsWithdrawn(
        detail(acctnum, amount, TransactionKind::Withdraw),
        EventDetail { generation: 1, timestamp },
    )
}

#[test]
fn deposit_of_500_on_800_gives_1300_at_generation_2() {
    let seed = state("SAVINGS100", 800, 1);
    let next = Account::apply_event(&seed, deposited("SAVINGS100", 500, 10)).unwrap();
    assert_eq!(next.account.balance, 1300);
    assert_eq!(next.payload.generation, 2);
    assert_eq!(next.generation(), 2);
    assert_eq!(next.account.acctnum, "SAVINGS100");
    assert_eq!(next.account.trans_type, TransactionKind::Deposit);
    assert_eq!(next.payload.timestamp, 10);
}

#[test]
fn withdrawal_of_400_after_the_deposit_gives_900_at_generation_3() {
    let seed = state("SAVINGS100", 800, 1);
    let after_deposit = Account::apply_event(&seed, deposited("SAVINGS100", 500, 10)).unwrap();
    let next = Account::apply_event(&after_deposit, withdrawn("SAVINGS100", 400, 20)).unwrap();
    assert_eq!(next.account.balance, 900);
    assert_eq!(next.payload.generation, 3);
    assert_eq!(next.account.trans_type, TransactionKind::Withdraw);
    assert_eq!(next.payload.timestamp, 20);
}

#[test]
fn withdrawal_of_150_on_100_fails_and_leaves_the_state() {
    let seed = state("SAVINGS100", 100, 1);
    let result = Account::apply_event(&seed, withdrawn("SAVINGS100", 150, 10));
    assert_eq!(result, Err(ApplyError::InsufficientFunds));
    assert_eq!(seed, state("SAVINGS100", 100, 1));
    assert_eq!(seed.account.balance, 100);
    assert_eq!(seed.payload.generation, 1);
}

#[test]
fn withdrawal_of_the_whole_balance_leaves_nothing() {
    let seed = state("A", 100, 7);
    let next = Account::apply_event(&seed, withdrawn("A", 100, 5)).unwrap();
    assert_eq!(next.account.balance, 0);
    assert_eq!(next.payload.generation, 8);
}

#[test]
fn withdrawal_of_one_more_than_the_balance_fails() {
    let seed = state("A", 100, 7);
    assert_eq!(
        Account::apply_event(&seed, withdrawn("A", 101, 5)),
        Err(ApplyError::InsufficientFunds)
    );
}

#[test]
fn deposit_past_the_largest_balance_fails() {
    let seed = state("A", u32::MAX - 10, 1);
    assert_eq!(
        Account::apply_event(&seed, deposited("A", 11, 5)),
        Err(ApplyError::BalanceOverflow)
    );
    let next = Account::apply_event(&seed, deposited("A", 10, 5)).unwrap();
    assert_eq!(next.account.balance, u32::MAX);
}

#[test]
fn generation_at_its_maximum_cannot_be_raised() {
    let seed = state("A", 100, u64::MAX);
    assert_eq!(
        Account::apply_event(&seed, deposited("A", 1, 5)),
        Err(ApplyError::GenerationOverflow)
    );
    assert_eq!(
        Account::apply_event(&seed, withdrawn("A", 1, 5)),
        Err(ApplyError::GenerationOverflow)
    );
}

#[test]
fn insufficient_funds_is_reported_before_generation_overflow() {
    let seed = state("A", 100, u64::MAX);
    assert_eq!(
        Account::apply_event(&seed, withdrawn("A", 101, 5)),
        Err(ApplyError::InsufficientFunds)
    );
}

#[test]
fn balance_overflow_is_reported_before_generation_overflow() {
    let seed = state("A", u32::MAX, u64::MAX);
    assert_eq!(
        Account::apply_event(&seed, deposited("A", 1, 5)),
        Err(ApplyError::BalanceOverflow)
    );
}

#[test]
fn applied_event_keeps_the_account_number_of_the_state() {
    let seed = state("MINE", 100, 1);
    let next = Account::apply_event(&seed, deposited("OTHER", 5, 9)).unwrap();
    assert_eq!(next.account.acctnum, "MINE");
    assert_eq!(next.account.balance, 105);
}

#[test]
fn apply_logged_agrees_with_apply_event() {
    let seed = state("A", 100, 1);
    let evt = deposited("A", 5, 9);
    assert_eq!(Account::apply_logged(&seed, &evt), Account::apply_event(&seed, evt.clone()));
    let evt = withdrawn("A", 500, 9);
    assert_eq!(Account::apply_logged(&seed, &evt), Account::apply_event(&seed, evt.clone()));
}

#[test]
fn deposit_command_becomes_one_deposited_event() {
    let seed = state("SAVINGS100", 0, 1);
    let cmd = BankCommand::DepositFunds(
        detail("SAVINGS100", 500, TransactionKind::Withdraw),
        EventDetail { generation: 4, timestamp: 77 },
    );
    let events = Account::handle_command(&seed, cmd).unwrap();
    assert_eq!(
        events,
        vec![BankEvent::FundsDeposited(
            detail("SAVINGS100", 500, TransactionKind::Deposit),
            EventDetail { generation: 4, timestamp: 77 },
        )]
    );
}

#[test]
fn withdraw_command_keeps_the_generation_of_the_caller() {
    let seed = state("SAVINGS100", 0, 1);
    let cmd = BankCommand::WithdrawFunds(
        detail("SAVINGS100", 400, TransactionKind::Deposit),
        EventDetail { generation: 9, timestamp: 78 },
    );
    let events = Account::handle_command(&seed, cmd).unwrap();
    assert_eq!(
        events,
        vec![BankEvent::FundsWithdrawn(
            detail("SAVINGS100", 400, TransactionKind::Withdraw),
            EventDetail { generation: 9, timestamp: 78 },
        )]
    );
}

#[test]
fn withdraw_command_is_accepted_without_funds() {
    let seed = state("A", 10, 1);
    let cmd = BankCommand::WithdrawFunds(
        detail("A", 400, TransactionKind::Withdraw),
        EventDetail { generation: 1, timestamp: 1 },
    );
    let mut events = Account::handle_command(&seed, cmd).unwrap();
    assert_eq!(events.len(), 1);
    let evt = events.pop().unwrap();
    assert_eq!(Account::apply_event(&seed, evt), Err(ApplyError::InsufficientFunds));
}

#[test]
fn command_for_another_account_is_rejected() {
    let seed = state("SAVINGS100", 800, 1);
    let deposit = BankCommand::DepositFunds(
        detail("SAVINGS200", 500, TransactionKind::Deposit),
        EventDetail { generation: 1, timestamp: 1 },
    );
    assert_eq!(Account::handle_command(&seed, deposit), Err(ValidationError::AccountMismatch));
    let withdraw = BankCommand::WithdrawFunds(
        detail("", 500, TransactionKind::Withdraw),
        EventDetail { generation: 1, timestamp: 1 },
    );
    assert_eq!(Account::handle_command(&seed, withdraw), Err(ValidationError::AccountMismatch));
}

#[test]
fn accepted_deposit_raises_balance_by_amount_and_generation_by_one() {
    for (balance, amount, generation) in [(0u32, 0u32, 0u64), (800, 500, 1), (1, u32::MAX - 1, 41)]
    {
        let seed = state("A", balance, generation);
        let cmd = BankCommand::DepositFunds(
            detail("A", amount, TransactionKind::Deposit),
            EventDetail { generation, timestamp: 3 },
        );
        let mut events = Account::handle_command(&seed, cmd).unwrap();
        let next = Account::apply_event(&seed, events.pop().unwrap()).unwrap();
        assert_eq!(next.account.balance, balance + amount);
        assert_eq!(next.payload.generation, generation + 1);
    }
}

#[test]
fn accepted_withdrawal_lowers_balance_by_amount() {
    for (balance, amount) in [(0u32, 0u32), (1300, 400), (u32::MAX, u32::MAX)] {
        let seed = state("A", balance, 5);
        let cmd = BankCommand::WithdrawFunds(
            detail("A", amount, TransactionKind::Withdraw),
            EventDetail { generation: 5, timestamp: 3 },
        );
        let mut events = Account::handle_command(&seed, cmd).unwrap();
        let next = Account::apply_event(&seed, events.pop().unwrap()).unwrap();
        assert_eq!(next.account.balance, balance - amount);
        assert_eq!(next.payload.generation, 6);
    }
}

#[test]
fn seed_state_is_empty_at_the_baseline_generation() {
    let seed = AccountData::seed("SAVINGS100".to_string());
    assert_eq!(BASELINE_GENERATION, 0);
    assert_eq!(seed.account.acctnum, "SAVINGS100");
    assert_eq!(seed.account.balance, 0);
    assert_eq!(seed.account.trans_type, TransactionKind::Deposit);
    assert_eq!(seed.payload.generation, 0);
    assert_eq!(seed.payload.timestamp, 0);
    assert_eq!(seed.generation(), 0);
}
