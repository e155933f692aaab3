//! The order in which the events of a log are replayed.
//!
//! Events are replayed by ascending timestamp. Events with the same
//! timestamp are replayed by ascending event identifier, compared as texts.
//! Events that agree in both keep the order in which the store returned
//! them.

use crate::model::{log_view, BankEvent, LoggedEvent, LoggedEventView};
use crate::text::{
    lemma_bytes_le_antisymmetric, lemma_bytes_le_total, lemma_bytes_le_transitive,
    lemma_encoding_is_injective, text_le, text_precedes,
};
use vstd::prelude::*;
use vstd::seq_lib::{to_multiset_insert, to_multiset_remove};
use vstd::utf8::encode_utf8;

verus! {

/// Whether `a` is replayed before `b`, or may stand where `b` stands.
pub open spec fn replays_before(a: LoggedEventView, b: LoggedEventView) -> bool {
    a.timestamp() < b.timestamp() || (a.timestamp() == b.timestamp() && text_le(
        a.event_id,
        b.event_id,
    ))
}

/// Whether the log is in replay order.
pub open spec fn is_replay_ordered(log: Seq<LoggedEventView>) -> bool {
    forall|i: int, j: int| 0 <= i < j < log.len() ==> replays_before(log[i], log[j])
}

/// Whether no two events of the log have the same timestamp.
pub open spec fn has_distinct_timestamps(log: Seq<LoggedEventView>) -> bool {
    forall|i: int, j: int| 0 <= i < j < log.len() ==> log[i].timestamp() != log[j].timestamp()
}

/// Where `x` goes into an ordered log: before the first event that it may
/// stand in place of, and at the end if there is none.
pub open spec fn insert_position(x: LoggedEventView, log: Seq<LoggedEventView>) -> int
    decreases log.len(),
{
    if log.len() == 0 || replays_before(x, log[0]) {
        0
    } else {
        1 + insert_position(x, log.drop_first())
    }
}

/// The log in replay order: each event, from the last to the first, goes
/// into the ordered rest at its insert position.
pub open spec fn replay_order(log: Seq<LoggedEventView>) -> Seq<LoggedEventView>
    decreases log.len(),
{
    if log.len() == 0 {
        Seq::empty()
    } else {
        let rest = replay_order(log.drop_first());
        rest.insert(insert_position(log[0], rest), log[0])
    }
}

/// Of two events one is replayed before the other.
pub proof fn lemma_replays_before_total(a: LoggedEventView, b: LoggedEventView)
    ensures
        replays_before(a, b) || replays_before(b, a),
{
    lemma_bytes_le_total(encode_utf8(a.event_id), encode_utf8(b.event_id));
}

/// Replay order is transitive.
pub proof fn lemma_replays_before_transitive(
    a: LoggedEventView,
    b: LoggedEventView,
    c: LoggedEventView,
)
    requires
        replays_before(a, b),
        replays_before(b, c),
    ensures
        replays_before(a, c),
{
    if a.timestamp() == b.timestamp() && b.timestamp() == c.timestamp() {
        lemma_bytes_le_transitive(
            encode_utf8(a.event_id),
            encode_utf8(b.event_id),
            encode_utf8(c.event_id),
        );
    }
}

/// Two events that are each replayed before the other agree in timestamp
/// and event identifier.
pub proof fn lemma_replays_before_antisymmetric(a: LoggedEventView, b: LoggedEventView)
    requires
        replays_before(a, b),
        replays_before(b, a),
    ensures
        a.timestamp() == b.timestamp(),
        a.event_id == b.event_id,
{
    lemma_bytes_le_antisymmetric(encode_utf8(a.event_id), encode_utf8(b.event_id));
    lemma_encoding_is_injective(a.event_id, b.event_id);
}

/// The insert position lies in the log or at its end; `x` may stand in
/// place of no event before it, and in place of the event at it.
pub proof fn lemma_insert_position(x: LoggedEventView, log: Seq<LoggedEventView>)
    ensures
        0 <= insert_position(x, log) <= log.len(),
        forall|k: int| 0 <= k < insert_position(x, log) ==> !replays_before(x, #[trigger] log[k]),
        insert_position(x, log) < log.len() ==> replays_before(x, log[insert_position(x, log)]),
    decreases log.len(),
{
    if log.len() == 0 || replays_before(x, log[0]) {
    } else {
        let rest = log.drop_first();
        lemma_insert_position(x, rest);
        let p = insert_position(x, rest);
        assert forall|k: int| 0 <= k < p + 1 implies !replays_before(x, #[trigger] log[k]) by {
            if k > 0 {
                assert(log[k] == rest[k - 1]);
            }
        }
        if p < rest.len() {
        }
    }
}

/// The first place at which `x` may stand is the insert position.
pub proof fn lemma_first_place_is_insert_position(
    x: LoggedEventView,
    log: Seq<LoggedEventView>,
    p: int,
)
    requires
        0 <= p <= log.len(),
        forall|k: int| 0 <= k < p ==> !replays_before(x, #[trigger] log[k]),
        p < log.len() ==> replays_before(x, log[p]),
    ensures
        insert_position(x, log) == p,
    decreases log.len(),
{
    if p > 0 {
        let rest = log.drop_first();
        assert forall|k: int| 0 <= k < p - 1 implies !replays_before(x, #[trigger] rest[k]) by {
        }
        if p - 1 < rest.len() {
        }
        lemma_first_place_is_insert_position(x, rest, p - 1);
    }
}

/// A log that was put in replay order is in replay order and holds the same
/// events, each as often as before.
pub proof fn lemma_replay_order_sorts(log: Seq<LoggedEventView>)
    ensures
        is_replay_ordered(replay_order(log)),
        replay_order(log).to_multiset() == log.to_multiset(),
        replay_order(log).len() == log.len(),
    decreases log.len(),
{
    broadcast use vstd::seq_lib::group_to_multiset_ensures;

    if log.len() > 0 {
        let x = log[0];
        let rest = replay_order(log.drop_first());
        lemma_replay_order_sorts(log.drop_first());
        lemma_insert_position(x, rest);
        let p = insert_position(x, rest);
        let sorted = rest.insert(p, x);
        assert forall|i: int, j: int| 0 <= i < j < sorted.len() implies replays_before(
            sorted[i],
            sorted[j],
        ) by {
            if j == p {
                // An event before the place of `x` is replayed before `x`.
                lemma_replays_before_total(x, rest[i]);
            } else if i == p && j - 1 > p {
                // An event after the place of `x` is replayed after the
                // event at that place, before which `x` is replayed.
                lemma_replays_before_transitive(x, rest[p], rest[j - 1]);
            }
        }
        to_multiset_insert(rest, p, x);
        assert(log =~= log.drop_first().insert(0, x));
        to_multiset_insert(log.drop_first(), 0, x);
    }
}

/// Whether the timestamp and the event identifier together tell the events
/// of the log apart: two events of the log that agree in both are the same
/// event.
pub open spec fn keys_identify_events(log: Seq<LoggedEventView>) -> bool {
    forall|a: LoggedEventView, b: LoggedEventView|
        #[trigger] log.contains(a) && #[trigger] log.contains(b) && a.timestamp() == b.timestamp()
            && a.event_id == b.event_id ==> a == b
}

/// Distinct timestamps tell the events of a log apart.
pub proof fn lemma_distinct_timestamps_identify(log: Seq<LoggedEventView>)
    requires
        has_distinct_timestamps(log),
    ensures
        keys_identify_events(log),
{
    assert forall|a: LoggedEventView, b: LoggedEventView|
        #[trigger] log.contains(a) && #[trigger] log.contains(b) && a.timestamp() == b.timestamp()
            && a.event_id == b.event_id implies a == b by {
        let i = choose|i: int| 0 <= i < log.len() && log[i] == a;
        let j = choose|j: int| 0 <= j < log.len() && log[j] == b;
        assert(i == j);
    }
}

/// Two logs in replay order that hold the same events, each as often as in
/// the other, are the same log, provided that timestamp and event
/// identifier tell the events apart.
pub proof fn lemma_ordered_logs_agree(x: Seq<LoggedEventView>, y: Seq<LoggedEventView>)
    requires
        is_replay_ordered(x),
        is_replay_ordered(y),
        x.to_multiset() == y.to_multiset(),
        keys_identify_events(x),
    ensures
        x == y,
    decreases x.len(),
{
    broadcast use vstd::seq_lib::group_to_multiset_ensures;

    assert(x.len() == y.len()) by {
        assert(x.to_multiset().len() == x.len());
        assert(y.to_multiset().len() == y.len());
    }
    if x.len() > 0 {
        // The first events are the same: each occurs in the other log, not
        // before the other log's first event, so that each is replayed
        // before the other.
        assert(x.to_multiset().contains(x[0]));
        assert(y.to_multiset().contains(y[0]));
        let i = choose|i: int| 0 <= i < x.len() && x[i] == y[0];
        let j = choose|j: int| 0 <= j < y.len() && y[j] == x[0];
        if i != 0 && j != 0 {
            lemma_replays_before_antisymmetric(x[0], y[0]);
        }
        assert(x[0] == y[0]);
        // So are the rest, by induction.
        let xs = x.drop_first();
        let ys = y.drop_first();
        to_multiset_remove(x, 0);
        to_multiset_remove(y, 0);
        assert forall|a: LoggedEventView, b: LoggedEventView|
            #[trigger] xs.contains(a) && #[trigger] xs.contains(b) && a.timestamp()
                == b.timestamp() && a.event_id == b.event_id implies a == b by {
            assert(x.contains(a) && x.contains(b));
        }
        assert(is_replay_ordered(xs)) by {
            assert forall|m: int, n: int| 0 <= m < n < xs.len() implies replays_before(
                xs[m],
                xs[n],
            ) by {
                assert(xs[m] == x[m + 1] && xs[n] == x[n + 1]);
            }
        }
        assert(is_replay_ordered(ys)) by {
            assert forall|m: int, n: int| 0 <= m < n < ys.len() implies replays_before(
                ys[m],
                ys[n],
            ) by {
                assert(ys[m] == y[m + 1] && ys[n] == y[n + 1]);
            }
        }
        lemma_ordered_logs_agree(xs, ys);
        assert(x =~= seq![x[0]] + xs);
        assert(y =~= seq![y[0]] + ys);
    }
}

/// The replay order of a log does not depend on the order in which its
/// events arrived: two logs that hold the same events, each as often as in
/// the other, have the same replay order, provided that timestamp and event
/// identifier tell the events apart.
pub proof fn lemma_replay_order_ignores_arrival(a: Seq<LoggedEventView>, b: Seq<LoggedEventView>)
    requires
        a.to_multiset() == b.to_multiset(),
        keys_identify_events(a),
    ensures
        replay_order(a) == replay_order(b),
{
    broadcast use vstd::seq_lib::group_to_multiset_ensures;

    lemma_replay_order_sorts(a);
    lemma_replay_order_sorts(b);
    let x = replay_order(a);
    assert forall|u: LoggedEventView, v: LoggedEventView|
        #[trigger] x.contains(u) && #[trigger] x.contains(v) && u.timestamp() == v.timestamp()
            && u.event_id == v.event_id implies u == v by {
        assert(x.to_multiset().contains(u) && x.to_multiset().contains(v));
        assert(a.contains(u) && a.contains(v));
    }
    lemma_ordered_logs_agree(x, replay_order(b));
}

/// The timestamp of an event.
fn timestamp_of(evt: &BankEvent) -> (timestamp: u64)
    ensures
        timestamp == evt@.payload().timestamp,
{
    match evt {
        BankEvent::FundsWithdrawn(_, payload) => payload.timestamp,
        BankEvent::FundsDeposited(_, payload) => payload.timestamp,
    }
}

/// Whether `a` is replayed before `b`, or may stand where `b` stands.
pub fn precedes(a: &LoggedEvent, b: &LoggedEvent) -> (before: bool)
    ensures
        before == replays_before(a@, b@),
{
    let at = timestamp_of(&a.event);
    let bt = timestamp_of(&b.event);
    at < bt || (at == bt && text_precedes(a.event_id.as_str(), b.event_id.as_str()))
}

/// Puts the events of a log in replay order.
pub fn sort_events(events: Vec<LoggedEvent>) -> (sorted: Vec<LoggedEvent>)
    ensures
        log_view(sorted@) == replay_order(log_view(events@)),
{
    let ghost arrived = log_view(events@);
    let mut pending = events;
    let mut sorted: Vec<LoggedEvent> = Vec::new();
    proof {
        assert(arrived.take(arrived.len() as int) =~= arrived);
        assert(arrived.skip(arrived.len() as int) =~= Seq::empty());
        assert(log_view(sorted@) =~= Seq::empty());
    }
    while pending.len() > 0
        invariant
            pending.len() <= arrived.len(),
            log_view(pending@) == arrived.take(pending.len() as int),
            log_view(sorted@) == replay_order(arrived.skip(pending.len() as int)),
        decreases pending.len(),
    {
        let ghost before = log_view(sorted@);
        let ghost left = pending.len() as int;
        let ghost waiting = log_view(pending@);
        let next = pending.pop().unwrap();
        proof {
            assert(next@ == waiting[left - 1]);
        }
        let mut place: usize = 0;
        while place < sorted.len() && !precedes(&next, &sorted[place])
            invariant
                place <= sorted.len(),
                before == log_view(sorted@),
                forall|k: int| 0 <= k < place ==> !replays_before(next@, #[trigger] before[k]),
            decreases sorted.len() - place,
        {
            place += 1;
        }
        sorted.insert(place, next);
        proof {
            let rest = arrived.skip(left - 1);
            assert(rest[0] == next@);
            assert(rest.drop_first() =~= arrived.skip(left));
            lemma_first_place_is_insert_position(next@, before, place as int);
            assert(log_view(sorted@) =~= before.insert(place as int, next@));
            assert(log_view(pending@) =~= arrived.take(left - 1));
        }
    }
    proof {
        assert(arrived.skip(0) =~= arrived);
    }
    sorted
}

} // verus!
