//! The aggregate itself: the command handler, which turns an accepted
//! command into events, and the event applier, which advances the state by
//! one event.

use crate::model::{
    events_view, view_ok, AccountData, AccountDataView, AccountDetail, AccountDetailView,
    ApplyError, BankCommand, BankCommandView, BankEvent, BankEventView, EventDetail,
    EventDetailView, TransactionKind, ValidationError,
};
use vstd::prelude::*;

verus! {

/// The bank account aggregate. It has no data of its own: its state is an
/// [`AccountData`] that the caller holds.
pub struct Account;

/// The event that an accepted command gives rise to. The account, the amount
/// and the ordering information are the command's; the kind follows from what
/// the command asks for.
pub open spec fn event_of(cmd: BankCommandView) -> BankEventView {
    match cmd {
        BankCommandView::DepositFunds(detail, payload) => BankEventView::FundsDeposited(
            AccountDetailView { trans_type: TransactionKind::Deposit, ..detail },
            payload,
        ),
        BankCommandView::WithdrawFunds(detail, payload) => BankEventView::FundsWithdrawn(
            AccountDetailView { trans_type: TransactionKind::Withdraw, ..detail },
            payload,
        ),
    }
}

/// What the command handler answers: the one event of a command that names
/// the account of the state, and a rejection of any other command.
pub open spec fn handle_spec(state: AccountDataView, cmd: BankCommandView) -> Result<
    Seq<BankEventView>,
    ValidationError,
> {
    if cmd.detail().acctnum == state.account.acctnum {
        Ok(seq![event_of(cmd)])
    } else {
        Err(ValidationError::AccountMismatch)
    }
}

/// The state after an event, where the event can be applied.
///
/// A deposit adds its amount to the balance and a withdrawal takes it away;
/// either raises the generation by one and stamps the state with the event's
/// own time. The account number is always that of the prior state. A
/// withdrawal of more than the balance fails before anything else is looked
/// at, then a deposit that the balance cannot hold, then a generation that
/// cannot be raised.
pub open spec fn apply_spec(state: AccountDataView, evt: BankEventView) -> Result<
    AccountDataView,
    ApplyError,
> {
    match evt {
        BankEventView::FundsWithdrawn(detail, payload) => {
            if detail.balance > state.account.balance {
                Err(ApplyError::InsufficientFunds)
            } else if state.payload.generation >= u64::MAX {
                Err(ApplyError::GenerationOverflow)
            } else {
                Ok(
                    AccountDataView {
                        account: AccountDetailView {
                            acctnum: state.account.acctnum,
                            balance: (state.account.balance - detail.balance) as nat,
                            trans_type: TransactionKind::Withdraw,
                        },
                        payload: EventDetailView {
                            generation: state.payload.generation + 1,
                            timestamp: payload.timestamp,
                        },
                    },
                )
            }
        },
        BankEventView::FundsDeposited(detail, payload) => {
            if state.account.balance + detail.balance > u32::MAX {
                Err(ApplyError::BalanceOverflow)
            } else if state.payload.generation >= u64::MAX {
                Err(ApplyError::GenerationOverflow)
            } else {
                Ok(
                    AccountDataView {
                        account: AccountDetailView {
                            acctnum: state.account.acctnum,
                            balance: state.account.balance + detail.balance,
                            trans_type: TransactionKind::Deposit,
                        },
                        payload: EventDetailView {
                            generation: state.payload.generation + 1,
                            timestamp: payload.timestamp,
                        },
                    },
                )
            }
        },
    }
}

impl Account {
    /// Advances `state` by one event and returns the new state; `state`
    /// itself is left as it was, also when the event is refused.
    pub fn apply_event(state: &AccountData, evt: BankEvent) -> (next: Result<
        AccountData,
        ApplyError,
    >)
        ensures
            view_ok(next) == apply_spec(state@, evt@),
    {
        Account::apply_logged(state, &evt)
    }

    /// As [`Account::apply_event`], for an event that stays with the
    /// caller.
    pub fn apply_logged(state: &AccountData, evt: &BankEvent) -> (next: Result<
        AccountData,
        ApplyError,
    >)
        ensures
            view_ok(next) == apply_spec(state@, evt@),
    {
        let (detail, payload, kind) = match evt {
            BankEvent::FundsWithdrawn(detail, payload) => (
                detail,
                payload,
                TransactionKind::Withdraw,
            ),
            BankEvent::FundsDeposited(detail, payload) => (
                detail,
                payload,
                TransactionKind::Deposit,
            ),
        };
        let balance = match kind {
            TransactionKind::Withdraw => match state.account.balance.checked_sub(detail.balance) {
                Some(balance) => balance,
                None => return Err(ApplyError::InsufficientFunds),
            },
            TransactionKind::Deposit => match state.account.balance.checked_add(detail.balance) {
                Some(balance) => balance,
                None => return Err(ApplyError::BalanceOverflow),
            },
        };
        let generation = match state.payload.generation.checked_add(1) {
            Some(generation) => generation,
            None => return Err(ApplyError::GenerationOverflow),
        };
        Ok(
            AccountData {
                account: AccountDetail {
                    acctnum: state.account.acctnum.clone(),
                    balance,
                    trans_type: kind,
                },
                payload: EventDetail { generation, timestamp: payload.timestamp },
            },
        )
    }

    /// Turns a command into the events that record it. A command for
    /// another account than that of `state` is rejected; whether the funds
    /// suffice is decided when the event is applied.
    pub fn handle_command(state: &AccountData, cmd: BankCommand) -> (events: Result<
        Vec<BankEvent>,
        ValidationError,
    >)
        ensures
            match events {
                Ok(events) => handle_spec(state@, cmd@) == Ok::<Seq<BankEventView>, ValidationError>(
                    events_view(events@),
                ),
                Err(error) => handle_spec(state@, cmd@) == Err::<Seq<BankEventView>, ValidationError>(
                    error,
                ),
            },
            events matches Ok(list) ==> list@.len() == 1 && list@[0]@ == event_of(cmd@),
    {
        let evt = match cmd {
            BankCommand::DepositFunds(detail, payload) => {
                if detail.acctnum != state.account.acctnum {
                    return Err(ValidationError::AccountMismatch);
                }
                BankEvent::FundsDeposited(
                    AccountDetail {
                        acctnum: detail.acctnum,
                        balance: detail.balance,
                        trans_type: TransactionKind::Deposit,
                    },
                    payload,
                )
            },
            BankCommand::WithdrawFunds(detail, payload) => {
                if detail.acctnum != state.account.acctnum {
                    return Err(ValidationError::AccountMismatch);
                }
                BankEvent::FundsWithdrawn(
                    AccountDetail {
                        acctnum: detail.acctnum,
                        balance: detail.balance,
                        trans_type: TransactionKind::Withdraw,
                    },
                    payload,
                )
            },
        };
        let mut events: Vec<BankEvent> = Vec::new();
        events.push(evt);
        proof {
            assert(events_view(events@) =~= seq![event_of(cmd@)]);
        }
        Ok(events)
    }
}

/// A deposit that is accepted and applied raises the balance by its amount
/// and the generation by one.
pub proof fn lemma_deposit_adds_amount(state: AccountDataView, cmd: BankCommandView)
    requires
        cmd is DepositFunds,
        cmd.detail().acctnum == state.account.acctnum,
        state.account.balance + cmd.detail().balance <= u32::MAX,
        state.payload.generation < u64::MAX,
    ensures
        handle_spec(state, cmd) == Ok::<Seq<BankEventView>, ValidationError>(seq![event_of(cmd)]),
        apply_spec(state, event_of(cmd)) is Ok,
        apply_spec(state, event_of(cmd))->Ok_0.account.balance == state.account.balance
            + cmd.detail().balance,
        apply_spec(state, event_of(cmd))->Ok_0.payload.generation == state.payload.generation + 1,
{
}

/// A withdrawal that is accepted and applied lowers the balance by its
/// amount and raises the generation by one, where the balance covers the
/// amount.
pub proof fn lemma_withdrawal_takes_amount(state: AccountDataView, cmd: BankCommandView)
    requires
        cmd is WithdrawFunds,
        cmd.detail().acctnum == state.account.acctnum,
        cmd.detail().balance <= state.account.balance,
        state.payload.generation < u64::MAX,
    ensures
        handle_spec(state, cmd) == Ok::<Seq<BankEventView>, ValidationError>(seq![event_of(cmd)]),
        apply_spec(state, event_of(cmd)) is Ok,
        apply_spec(state, event_of(cmd))->Ok_0.account.balance == state.account.balance
            - cmd.detail().balance,
        apply_spec(state, event_of(cmd))->Ok_0.payload.generation == state.payload.generation + 1,
{
}

/// A withdrawal of more than the balance is accepted as a command and
/// refused when its event is applied: no state comes after it, and the
/// state it was applied to stands.
pub proof fn lemma_overdraft_is_refused(state: AccountDataView, cmd: BankCommandView)
    requires
        cmd is WithdrawFunds,
        cmd.detail().acctnum == state.account.acctnum,
        cmd.detail().balance > state.account.balance,
    ensures
        handle_spec(state, cmd) == Ok::<Seq<BankEventView>, ValidationError>(seq![event_of(cmd)]),
        apply_spec(state, event_of(cmd)) == Err::<AccountDataView, ApplyError>(
            ApplyError::InsufficientFunds,
        ),
{
}

/// An event that is applied raises the generation by exactly one and leaves
/// the account number as it was, whatever account the event names.
pub proof fn lemma_apply_keeps_identity(state: AccountDataView, evt: BankEventView)
    requires
        apply_spec(state, evt) is Ok,
    ensures
        apply_spec(state, evt)->Ok_0.payload.generation == state.payload.generation + 1,
        apply_spec(state, evt)->Ok_0.account.acctnum == state.account.acctnum,
{
}

/// The event of an accepted command carries the account, the amount and
/// the ordering information of the command.
pub proof fn lemma_event_carries_command(cmd: BankCommandView)
    ensures
        event_of(cmd).detail().acctnum == cmd.detail().acctnum,
        event_of(cmd).detail().balance == cmd.detail().balance,
        event_of(cmd).payload() == cmd.payload(),
{
}

} // verus!
