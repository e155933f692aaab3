//! A bank account kept as an event-sourced aggregate.
//!
//! The balance of an account is never stored. It is derived by folding the
//! account's events, in replay order, into a seed state. This crate holds the
//! rules of that aggregate: how a command becomes an event, how an event
//! advances the state, how a stored payload becomes an event again, and how
//! the records of an account are ordered and replayed. It reaches no store
//! and no clock: records and times are handed to it.
//!
//! Three choices are fixed here and relied on throughout:
//!
//! - An account that no event has touched is at generation
//!   [`model::BASELINE_GENERATION`], and each applied event raises the
//!   generation by one.
//! - A state is stamped with the timestamp of the last event applied to it,
//!   not with the time of application, so that replaying the same records
//!   always gives the same state.
//! - Events are replayed by ascending timestamp, and events of one timestamp
//!   by ascending event identifier.
//!
//! The modules:
//!
//! - [`model`]: commands, events, states, records and errors.
//! - [`account`]: the command handler and the event applier.
//! - [`codec`]: the JSON form of an event.
//! - [`json`]: the functions of `serde_json` that the codec relies on.
//! - [`text`]: equality and order of texts.
//! - [`ordering`]: the replay order and the sort that establishes it.
//! - [`replay`]: from the records of an account to its state.
//! - [`store`]: the record that an append sends, and when a failed call to
//!   the store is made again.

pub mod account;
pub mod codec;
pub mod json;
pub mod model;
pub mod ordering;
pub mod replay;
pub mod store;
pub mod text;
