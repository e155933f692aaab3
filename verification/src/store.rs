//! What the aggregate decides about the event store, which it does not
//! reach itself: the record that an append sends, and whether a failed call
//! is worth another try.

use crate::codec::{encode_event, is_event_doc};
use crate::json::rendered_json;
use crate::model::{AccountData, BankEvent, StoredEvent};
use vstd::prelude::*;

verus! {

/// How often a call to the store is made at most before its failure is
/// reported.
pub const MAX_ATTEMPTS: u32 = 3;

/// Why a call to the event store failed.
#[derive(Clone, Copy, Debug, PartialEq, Eq, Structural)]
pub enum StoreError {
    /// The store could not be reached, or did not answer in time.
    StoreUnavailable,
    /// The store refused the record.
    StoreWriteRejected,
}

impl StoreError {
    /// Whether the same call may succeed later.
    pub fn is_transient(&self) -> (transient: bool)
        ensures
            transient == (*self == StoreError::StoreUnavailable),
    {
        match self {
            StoreError::StoreUnavailable => true,
            StoreError::StoreWriteRejected => false,
        }
    }
}

/// Whether a call that has failed with `error` is made again, after
/// `attempts` attempts in all: only an unavailable store is tried again, and
/// only until `MAX_ATTEMPTS` attempts have been made.
pub fn should_retry(error: StoreError, attempts: u32) -> (again: bool)
    ensures
        again == (error == StoreError::StoreUnavailable && attempts < MAX_ATTEMPTS),
{
    error.is_transient() && attempts < MAX_ATTEMPTS
}

/// `Uuid::new_v4`, shown through `Display`: a version 4 UUID drawn from the
/// operating system's random numbers, as 32 lower-case hexadecimal digits
/// in five groups with hyphens between them. Which identifier comes back is
/// left open.
#[verifier::external_body]
fn fresh_event_id() -> (event_id: String)
    ensures
        event_id@.len() == 36,
{
    uuid::Uuid::new_v4().to_string()
}

/// The record that appends `event` to the log of the account of `state`,
/// under the identifier that the caller has chosen for it.
pub fn insert_record(state: &AccountData, event: &BankEvent, event_id: String) -> (record:
    StoredEvent)
    ensures
        record.account_id@ == state.account.acctnum@,
        record.event_id@ == event_id@,
        exists|doc: serde_json::Value|
            is_event_doc(doc, event@) && record.event@ == #[trigger] rendered_json(doc),
{
    StoredEvent {
        account_id: state.account.acctnum.clone(),
        event_id,
        event: encode_event(event),
    }
}

/// The record that appends `event` to the log of the account of `state`,
/// under a freshly drawn identifier.
pub fn insert_event(state: &AccountData, event: &BankEvent) -> (record: StoredEvent)
    ensures
        record.account_id@ == state.account.acctnum@,
        record.event_id@.len() == 36,
        exists|doc: serde_json::Value|
            is_event_doc(doc, event@) && record.event@ == #[trigger] rendered_json(doc),
{
    insert_record(state, event, fresh_event_id())
}

} // verus!
