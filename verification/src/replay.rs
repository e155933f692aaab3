//! Rebuilding the state of an account from the records of its log.
//!
//! The records come from the store in no particular order. Each payload is
//! decoded, the events are put in replay order, and the seed state is
//! advanced by one event after the other. A record that cannot be decoded
//! fails the whole replay, and so does the first event that cannot be
//! applied.

use crate::account::{apply_spec, Account};
use crate::codec::{decode_event, decode_spec};
use crate::model::{
    log_view, records_view, view_ok, AccountData, AccountDataView, ApplyError, BankEventView,
    LoggedEvent, LoggedEventView, ReplayError, StoredEvent, StoredEventView,
};
use crate::ordering::{
    has_distinct_timestamps, keys_identify_events, lemma_distinct_timestamps_identify,
    lemma_replay_order_ignores_arrival, lemma_replay_order_sorts, replay_order, replays_before,
    sort_events,
};
use vstd::prelude::*;
use vstd::seq_lib::{to_multiset_build, to_multiset_insert, to_multiset_remove};

verus! {

/// The events of a log, without the identifiers of their records.
pub open spec fn events_of(log: Seq<LoggedEventView>) -> Seq<BankEventView> {
    Seq::new(log.len(), |i: int| log[i].event)
}

/// The state that applying the events, one after the other, leads to, or
/// the error of the first event that cannot be applied.
pub open spec fn replay_spec(state: AccountDataView, events: Seq<BankEventView>) -> Result<
    AccountDataView,
    ApplyError,
>
    decreases events.len(),
{
    if events.len() == 0 {
        Ok(state)
    } else {
        match apply_spec(state, events[0]) {
            Ok(next) => replay_spec(next, events.drop_first()),
            Err(error) => Err(error),
        }
    }
}

/// Whether the payload of the record is not the stored form of an event.
pub open spec fn is_corrupt(record: StoredEventView) -> bool {
    decode_spec(record.event) is Err
}

/// The event of a record that is not corrupt, with the record's identifier.
pub open spec fn logged(record: StoredEventView) -> LoggedEventView {
    LoggedEventView { event_id: record.event_id, event: decode_spec(record.event)->Ok_0 }
}

/// The events of the records, in the order of the records.
pub open spec fn decoded_log(records: Seq<StoredEventView>) -> Seq<LoggedEventView> {
    Seq::new(records.len(), |i: int| logged(records[i]))
}

/// Whether one of the records is corrupt.
pub open spec fn has_corrupt_record(records: Seq<StoredEventView>) -> bool {
    exists|i: int| 0 <= i < records.len() && is_corrupt(#[trigger] records[i])
}

/// The log that the records hold, in replay order; no log where a record is
/// corrupt.
pub open spec fn get_events_spec(records: Seq<StoredEventView>) -> Result<
    Seq<LoggedEventView>,
    ReplayError,
> {
    if has_corrupt_record(records) {
        Err(ReplayError::RecordCorrupt)
    } else {
        Ok(replay_order(decoded_log(records)))
    }
}

/// The state that the records of an account lead to from the seed state.
pub open spec fn final_state_spec(records: Seq<StoredEventView>, seed: AccountDataView) -> Result<
    AccountDataView,
    ReplayError,
> {
    match get_events_spec(records) {
        Ok(log) => match replay_spec(seed, events_of(log)) {
            Ok(state) => Ok(state),
            Err(error) => Err(ReplayError::Apply(error)),
        },
        Err(error) => Err(error),
    }
}

/// Applies the events of a log in the order of the log, starting from
/// `state`, and stops at the first event that cannot be applied.
pub fn replay(state: AccountData, log: &Vec<LoggedEvent>) -> (last: Result<
    AccountData,
    ApplyError,
>)
    ensures
        view_ok(last) == replay_spec(state@, events_of(log_view(log@))),
{
    let ghost events = events_of(log_view(log@));
    let mut current = state;
    let mut i: usize = 0;
    proof {
        assert(events.skip(0) =~= events);
    }
    while i < log.len()
        invariant
            i <= log.len(),
            events == events_of(log_view(log@)),
            replay_spec(state@, events) == replay_spec(current@, events.skip(i as int)),
        decreases log.len() - i,
    {
        proof {
            assert(events.skip(i as int)[0] == log@[i as int].event@);
            assert(events.skip(i as int).drop_first() =~= events.skip(i + 1));
        }
        match Account::apply_logged(&current, &log[i].event) {
            Ok(next) => {
                current = next;
            },
            Err(error) => {
                return Err(error);
            },
        }
        i += 1;
    }
    Ok(current)
}

/// Decodes the records of an account and puts their events in replay order.
/// A record whose payload is not the stored form of an event fails the whole
/// call.
pub fn get_events(rows: Vec<StoredEvent>) -> (log: Result<Vec<LoggedEvent>, ReplayError>)
    ensures
        match log {
            Ok(log) => get_events_spec(records_view(rows@)) == Ok::<
                Seq<LoggedEventView>,
                ReplayError,
            >(log_view(log@)),
            Err(error) => get_events_spec(records_view(rows@)) == Err::<
                Seq<LoggedEventView>,
                ReplayError,
            >(error),
        },
{
    let ghost records = records_view(rows@);
    let mut arrived: Vec<LoggedEvent> = Vec::new();
    let mut i: usize = 0;
    while i < rows.len()
        invariant
            i <= rows.len(),
            records == records_view(rows@),
            arrived.len() == i,
            forall|k: int| 0 <= k < i ==> !is_corrupt(#[trigger] records[k]),
            forall|k: int| 0 <= k < i ==> (#[trigger] arrived@[k])@ == logged(records[k]),
        decreases rows.len() - i,
    {
        match decode_event(rows[i].event.as_str()) {
            Ok(event) => {
                arrived.push(LoggedEvent { event_id: rows[i].event_id.clone(), event });
            },
            Err(error) => {
                proof {
                    assert(is_corrupt(records[i as int]));
                }
                return Err(error);
            },
        }
        i += 1;
    }
    proof {
        assert(log_view(arrived@) =~= decoded_log(records));
    }
    Ok(sort_events(arrived))
}

/// Rebuilds the state of an account: decodes its records, puts the events
/// in replay order, and applies them to `state`, the seed.
pub fn get_final_state(rows: Vec<StoredEvent>, state: AccountData) -> (last: Result<
    AccountData,
    ReplayError,
>)
    ensures
        view_ok(last) == final_state_spec(records_view(rows@), state@),
{
    let log = match get_events(rows) {
        Ok(log) => log,
        Err(error) => {
            return Err(error);
        },
    };
    match replay(state, &log) {
        Ok(last) => Ok(last),
        Err(error) => Err(ReplayError::Apply(error)),
    }
}

/// Replay is sequential application: replaying a log with one more event
/// at its end gives what applying that event to the outcome of the log
/// gives.
pub proof fn lemma_replay_applies_in_sequence(
    seed: AccountDataView,
    events: Seq<BankEventView>,
    evt: BankEventView,
)
    ensures
        replay_spec(seed, events.push(evt)) == match replay_spec(seed, events) {
            Ok(state) => apply_spec(state, evt),
            Err(error) => Err(error),
        },
    decreases events.len(),
{
    let longer = events.push(evt);
    if events.len() == 0 {
        assert(longer[0] == evt);
        assert(longer.drop_first() =~= events);
        match apply_spec(seed, evt) {
            Ok(next) => {
                assert(replay_spec(next, events) == Ok::<AccountDataView, ApplyError>(next));
            },
            Err(_) => {},
        }
    } else {
        assert(longer[0] == events[0]);
        assert(longer.drop_first() =~= events.drop_first().push(evt));
        match apply_spec(seed, events[0]) {
            Ok(next) => {
                lemma_replay_applies_in_sequence(next, events.drop_first(), evt);
            },
            Err(_) => {},
        }
    }
}

/// A log that replays without error raises the generation by one for each
/// of its events and leaves the account number as the seed has it.
pub proof fn lemma_replay_counts_events(seed: AccountDataView, events: Seq<BankEventView>)
    requires
        replay_spec(seed, events) is Ok,
    ensures
        replay_spec(seed, events)->Ok_0.payload.generation == seed.payload.generation
            + events.len(),
        replay_spec(seed, events)->Ok_0.account.acctnum == seed.account.acctnum,
    decreases events.len(),
{
    if events.len() > 0 {
        let next = apply_spec(seed, events[0])->Ok_0;
        lemma_replay_counts_events(next, events.drop_first());
    }
}

/// Records that are the same but for their order hold the same events but
/// for their order.
pub proof fn lemma_decoding_keeps_the_events(a: Seq<StoredEventView>, b: Seq<StoredEventView>)
    requires
        a.to_multiset() == b.to_multiset(),
    ensures
        decoded_log(a).to_multiset() == decoded_log(b).to_multiset(),
        has_corrupt_record(a) == has_corrupt_record(b),
    decreases a.len(),
{
    broadcast use vstd::seq_lib::group_to_multiset_ensures;

    assert(a.len() == b.len()) by {
        assert(a.to_multiset().len() == a.len());
        assert(b.to_multiset().len() == b.len());
    }
    if a.len() == 0 {
        assert(decoded_log(a) =~= decoded_log(b));
    } else {
        // Take the last record of `a` out of both.
        let last = a.last();
        assert(a.to_multiset().contains(last));
        assert(b.contains(last));
        let j = choose|j: int| 0 <= j < b.len() && b[j] == last;
        let shorter_a = a.drop_last();
        let shorter_b = b.remove(j);
        assert(a =~= shorter_a.push(last));
        to_multiset_build(shorter_a, last);
        to_multiset_remove(b, j);
        assert(shorter_a.to_multiset() =~= a.to_multiset().remove(last));
        lemma_decoding_keeps_the_events(shorter_a, shorter_b);
        // Its event goes back into both logs.
        assert(decoded_log(a) =~= decoded_log(shorter_a).push(logged(last)));
        assert(decoded_log(b) =~= decoded_log(shorter_b).insert(j, logged(last)));
        to_multiset_build(decoded_log(shorter_a), logged(last));
        to_multiset_insert(decoded_log(shorter_b), j, logged(last));
        // A corrupt record of one is a record of the other.
        if has_corrupt_record(a) {
            let i = choose|i: int| 0 <= i < a.len() && is_corrupt(#[trigger] a[i]);
            assert(a.to_multiset().contains(a[i]));
            assert(b.contains(a[i]));
            let k = choose|k: int| 0 <= k < b.len() && b[k] == a[i];
            assert(is_corrupt(b[k]));
        }
        if has_corrupt_record(b) {
            let i = choose|i: int| 0 <= i < b.len() && is_corrupt(#[trigger] b[i]);
            assert(b.to_multiset().contains(b[i]));
            assert(a.contains(b[i]));
            let k = choose|k: int| 0 <= k < a.len() && a[k] == b[i];
            assert(is_corrupt(a[k]));
        }
    }
}

/// Replay does not depend on the order in which the store returns the
/// records: records that are the same but for their order lead to the same
/// state, or fail alike, provided that timestamp and event identifier tell
/// the events apart.
pub proof fn lemma_replay_ignores_storage_order(
    a: Seq<StoredEventView>,
    b: Seq<StoredEventView>,
    seed: AccountDataView,
)
    requires
        a.to_multiset() == b.to_multiset(),
        !has_corrupt_record(a) ==> keys_identify_events(decoded_log(a)),
    ensures
        final_state_spec(a, seed) == final_state_spec(b, seed),
{
    lemma_decoding_keeps_the_events(a, b);
    if !has_corrupt_record(a) {
        lemma_replay_order_ignores_arrival(decoded_log(a), decoded_log(b));
    }
}

/// Replay does not depend on the order in which the store returns the
/// records, where no two events have the same timestamp.
pub proof fn lemma_replay_ignores_storage_order_of_distinct_timestamps(
    a: Seq<StoredEventView>,
    b: Seq<StoredEventView>,
    seed: AccountDataView,
)
    requires
        a.to_multiset() == b.to_multiset(),
        has_distinct_timestamps(decoded_log(a)),
    ensures
        final_state_spec(a, seed) == final_state_spec(b, seed),
{
    lemma_distinct_timestamps_identify(decoded_log(a));
    lemma_replay_ignores_storage_order(a, b, seed);
}

/// Rebuilding the state is applying the events one after the other, by
/// ascending timestamp, to the seed: the log that is replayed holds the
/// events of the records, each as often as the records do, and no event in
/// it has a later timestamp than one that follows it.
pub proof fn lemma_final_state_applies_in_time_order(
    records: Seq<StoredEventView>,
    seed: AccountDataView,
)
    requires
        !has_corrupt_record(records),
    ensures
        ({
            let log = replay_order(decoded_log(records));
            &&& log.to_multiset() == decoded_log(records).to_multiset()
            &&& forall|i: int, j: int|
                0 <= i < j < log.len() ==> log[i].timestamp() <= log[j].timestamp()
            &&& final_state_spec(records, seed) == match replay_spec(seed, events_of(log)) {
                Ok(state) => Ok::<AccountDataView, ReplayError>(state),
                Err(error) => Err(ReplayError::Apply(error)),
            }
        }),
{
    lemma_replay_order_sorts(decoded_log(records));
    let log = replay_order(decoded_log(records));
    assert forall|i: int, j: int| 0 <= i < j < log.len() implies log[i].timestamp()
        <= log[j].timestamp() by {
        assert(replays_before(log[i], log[j]));
    }
}

} // verus!
