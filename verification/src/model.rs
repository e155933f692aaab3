//! The data of the aggregate: commands, events, the derived state and the
//! errors that the rules can raise, each with its mathematical view.

use vstd::prelude::*;

verus! {

/// The generation of an account that no event has touched yet.
pub const BASELINE_GENERATION: u64 = 0;

/// Whether money went into the account or out of it.
#[derive(Clone, Copy, Debug, PartialEq, Eq, Structural)]
pub enum TransactionKind {
    Deposit,
    Withdraw,
}

/// The economic fact that a command or an event carries, and the economic
/// part of the state: which account, how much, and in which direction.
#[derive(Clone, Debug, PartialEq, Eq)]
pub struct AccountDetail {
    pub acctnum: String,
    pub balance: u32,
    pub trans_type: TransactionKind,
}

/// What orders a fact among the others: a counter and a point in time, in
/// milliseconds since the Unix epoch.
#[derive(Clone, Copy, Debug, PartialEq, Eq, Structural)]
pub struct EventDetail {
    pub generation: u64,
    pub timestamp: u64,
}

/// The derived state of one account.
#[derive(Clone, Debug, PartialEq, Eq)]
pub struct AccountData {
    pub account: AccountDetail,
    pub payload: EventDetail,
}

/// A fact that has been decided and is never revised.
#[derive(Clone, Debug, PartialEq, Eq)]
pub enum BankEvent {
    FundsWithdrawn(AccountDetail, EventDetail),
    FundsDeposited(AccountDetail, EventDetail),
}

/// An intent that the aggregate may accept or reject.
#[derive(Clone, Debug, PartialEq, Eq)]
pub enum BankCommand {
    WithdrawFunds(AccountDetail, EventDetail),
    DepositFunds(AccountDetail, EventDetail),
}

/// A record as the event store holds it: the account it belongs to, the
/// identifier under which it was appended, and the event as JSON text.
#[derive(Clone, Debug, PartialEq, Eq)]
pub struct StoredEvent {
    pub account_id: String,
    pub event_id: String,
    pub event: String,
}

/// A decoded event of the log, with the identifier of the record it came
/// from.
#[derive(Clone, Debug, PartialEq, Eq)]
pub struct LoggedEvent {
    pub event_id: String,
    pub event: BankEvent,
}

/// Why a command was rejected.
#[derive(Clone, Copy, Debug, PartialEq, Eq, Structural)]
pub enum ValidationError {
    /// The command names another account than the state it was issued against.
    AccountMismatch,
}

/// Why an event could not be applied.
#[derive(Clone, Copy, Debug, PartialEq, Eq, Structural)]
pub enum ApplyError {
    /// A withdrawal asks for more than the balance holds.
    InsufficientFunds,
    /// A deposit would take the balance past what it can hold.
    BalanceOverflow,
    /// The generation counter is at its maximum.
    GenerationOverflow,
}

/// Why the state of an account could not be rebuilt from its records.
#[derive(Clone, Copy, Debug, PartialEq, Eq, Structural)]
pub enum ReplayError {
    /// The payload of a record is not the JSON form of an event.
    RecordCorrupt,
    /// An event of the log could not be applied.
    Apply(ApplyError),
}

/// An account detail as mathematics sees it.
pub ghost struct AccountDetailView {
    pub acctnum: Seq<char>,
    pub balance: nat,
    pub trans_type: TransactionKind,
}

/// An ordering detail as mathematics sees it.
pub ghost struct EventDetailView {
    pub generation: nat,
    pub timestamp: nat,
}

/// A state as mathematics sees it.
pub ghost struct AccountDataView {
    pub account: AccountDetailView,
    pub payload: EventDetailView,
}

/// An event as mathematics sees it.
pub ghost enum BankEventView {
    FundsWithdrawn(AccountDetailView, EventDetailView),
    FundsDeposited(AccountDetailView, EventDetailView),
}

/// A command as mathematics sees it.
pub ghost enum BankCommandView {
    WithdrawFunds(AccountDetailView, EventDetailView),
    DepositFunds(AccountDetailView, EventDetailView),
}

/// A stored record as mathematics sees it.
pub ghost struct StoredEventView {
    pub account_id: Seq<char>,
    pub event_id: Seq<char>,
    pub event: Seq<char>,
}

/// A decoded event of the log as mathematics sees it.
pub ghost struct LoggedEventView {
    pub event_id: Seq<char>,
    pub event: BankEventView,
}

impl View for StoredEvent {
    type V = StoredEventView;

    open spec fn view(&self) -> StoredEventView {
        StoredEventView {
            account_id: self.account_id@,
            event_id: self.event_id@,
            event: self.event@,
        }
    }
}

impl View for LoggedEvent {
    type V = LoggedEventView;

    open spec fn view(&self) -> LoggedEventView {
        LoggedEventView { event_id: self.event_id@, event: self.event@ }
    }
}

impl LoggedEventView {
    /// The time of the event, by which the log is ordered first.
    pub open spec fn timestamp(self) -> nat {
        self.event.payload().timestamp
    }
}

/// The events of a list, each by its view.
pub open spec fn events_view(events: Seq<BankEvent>) -> Seq<BankEventView> {
    Seq::new(events.len(), |i: int| events[i]@)
}

/// The records of a store, each by its view.
pub open spec fn records_view(rows: Seq<StoredEvent>) -> Seq<StoredEventView> {
    Seq::new(rows.len(), |i: int| rows[i]@)
}

/// The events of a log, each by its view.
pub open spec fn log_view(log: Seq<LoggedEvent>) -> Seq<LoggedEventView> {
    Seq::new(log.len(), |i: int| log[i]@)
}

impl View for AccountDetail {
    type V = AccountDetailView;

    open spec fn view(&self) -> AccountDetailView {
        AccountDetailView {
            acctnum: self.acctnum@,
            balance: self.balance as nat,
            trans_type: self.trans_type,
        }
    }
}

impl View for EventDetail {
    type V = EventDetailView;

    open spec fn view(&self) -> EventDetailView {
        EventDetailView { generation: self.generation as nat, timestamp: self.timestamp as nat }
    }
}

impl View for AccountData {
    type V = AccountDataView;

    open spec fn view(&self) -> AccountDataView {
        AccountDataView { account: self.account@, payload: self.payload@ }
    }
}

impl View for BankEvent {
    type V = BankEventView;

    open spec fn view(&self) -> BankEventView {
        match self {
            BankEvent::FundsWithdrawn(detail, payload) => BankEventView::FundsWithdrawn(
                detail@,
                payload@,
            ),
            BankEvent::FundsDeposited(detail, payload) => BankEventView::FundsDeposited(
                detail@,
                payload@,
            ),
        }
    }
}

impl View for BankCommand {
    type V = BankCommandView;

    open spec fn view(&self) -> BankCommandView {
        match self {
            BankCommand::WithdrawFunds(detail, payload) => BankCommandView::WithdrawFunds(
                detail@,
                payload@,
            ),
            BankCommand::DepositFunds(detail, payload) => BankCommandView::DepositFunds(
                detail@,
                payload@,
            ),
        }
    }
}

impl BankEventView {
    /// The economic fact of the event.
    pub open spec fn detail(self) -> AccountDetailView {
        match self {
            BankEventView::FundsWithdrawn(detail, _) => detail,
            BankEventView::FundsDeposited(detail, _) => detail,
        }
    }

    /// The ordering information of the event.
    pub open spec fn payload(self) -> EventDetailView {
        match self {
            BankEventView::FundsWithdrawn(_, payload) => payload,
            BankEventView::FundsDeposited(_, payload) => payload,
        }
    }
}

impl BankCommandView {
    /// The economic fact that the command asks for.
    pub open spec fn detail(self) -> AccountDetailView {
        match self {
            BankCommandView::WithdrawFunds(detail, _) => detail,
            BankCommandView::DepositFunds(detail, _) => detail,
        }
    }

    /// The ordering information that the caller supplied.
    pub open spec fn payload(self) -> EventDetailView {
        match self {
            BankCommandView::WithdrawFunds(_, payload) => payload,
            BankCommandView::DepositFunds(_, payload) => payload,
        }
    }
}

/// A result with the value it carries on success replaced by that value's
/// view.
pub open spec fn view_ok<T: View, E>(r: Result<T, E>) -> Result<T::V, E> {
    match r {
        Ok(value) => Ok(value@),
        Err(error) => Err(error),
    }
}

impl AccountData {
    /// The state of an account that no event has touched yet: nothing on
    /// it, at the baseline generation.
    pub fn seed(acctnum: String) -> (state: AccountData)
        ensures
            state.account.acctnum@ == acctnum@,
            state.account.balance == 0,
            state.account.trans_type == TransactionKind::Deposit,
            state.payload.generation == BASELINE_GENERATION,
            state.payload.timestamp == 0,
    {
        AccountData {
            account: AccountDetail { acctnum, balance: 0, trans_type: TransactionKind::Deposit },
            payload: EventDetail { generation: BASELINE_GENERATION, timestamp: 0 },
        }
    }

    /// The generation that the state has reached.
    pub fn generation(&self) -> (generation: u64)
        ensures
            generation == self.payload.generation,
    {
        self.payload.generation
    }
}

} // verus!
