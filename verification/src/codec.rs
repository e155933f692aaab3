//! The JSON form of an event, as it is stored.
//!
//! An event is stored as an object with one member, whose key names the
//! variant and whose value is an array of two objects: the account detail
//! (`acctnum`, `balance`, `trans_type`) and the ordering detail
//! (`generation`, `timestamp`). Nothing else is read as an event.

use crate::json::{
    distinct_keys, items, json_items, json_members, json_number, json_text,
    list_value, member, member_count, number, number_value, object_value, parse_json,
    parsed_json, render_json, rendered_json, text, text_value,
};
use crate::model::{
    view_ok, AccountDetail, AccountDetailView, BankEvent, BankEventView, EventDetail,
    EventDetailView, ReplayError, TransactionKind,
};
use crate::text::same_text;
use vstd::prelude::*;
use vstd::set_lib::lemma_subset_equality;

verus! {

/// The name under which a kind of transaction is stored.
pub open spec fn kind_name(kind: TransactionKind) -> Seq<char> {
    match kind {
        TransactionKind::Deposit => "Deposit"@,
        TransactionKind::Withdraw => "Withdraw"@,
    }
}

/// The kind of transaction that a stored name stands for.
pub open spec fn kind_of_name(name: Seq<char>) -> Option<TransactionKind> {
    if name == "Deposit"@ {
        Some(TransactionKind::Deposit)
    } else if name == "Withdraw"@ {
        Some(TransactionKind::Withdraw)
    } else {
        None
    }
}

/// The key that names the variant of a stored event.
pub open spec fn event_tag(evt: BankEventView) -> Seq<char> {
    match evt {
        BankEventView::FundsWithdrawn(_, _) => "FundsWithdrawn"@,
        BankEventView::FundsDeposited(_, _) => "FundsDeposited"@,
    }
}

/// The keys of the object that stores an account detail.
pub open spec fn detail_keys() -> Set<Seq<char>> {
    set!["acctnum"@, "balance"@, "trans_type"@]
}

/// The keys of the object that stores an ordering detail.
pub open spec fn payload_keys() -> Set<Seq<char>> {
    set!["generation"@, "timestamp"@]
}

/// Whether `doc` is the stored form of the account detail.
pub open spec fn is_detail_doc(doc: serde_json::Value, detail: AccountDetailView) -> bool {
    &&& json_members(doc) matches Some(members)
    &&& members.dom() == detail_keys()
    &&& json_text(members["acctnum"@]) == Some(detail.acctnum)
    &&& json_number(members["balance"@]) matches Some(balance)
    &&& balance == detail.balance
    &&& balance <= u32::MAX
    &&& json_text(members["trans_type"@]) == Some(kind_name(detail.trans_type))
}

/// Whether `doc` is the stored form of the ordering detail.
pub open spec fn is_payload_doc(doc: serde_json::Value, payload: EventDetailView) -> bool {
    &&& json_members(doc) matches Some(members)
    &&& members.dom() == payload_keys()
    &&& json_number(members["generation"@]) matches Some(generation)
    &&& generation == payload.generation
    &&& json_number(members["timestamp"@]) matches Some(timestamp)
    &&& timestamp == payload.timestamp
}

/// Whether `doc` is the stored form of the event.
pub open spec fn is_event_doc(doc: serde_json::Value, evt: BankEventView) -> bool {
    &&& json_members(doc) matches Some(members)
    &&& members.dom() == set![event_tag(evt)]
    &&& json_items(members[event_tag(evt)]) matches Some(parts)
    &&& parts.len() == 2
    &&& is_detail_doc(parts[0], evt.detail())
    &&& is_payload_doc(parts[1], evt.payload())
}

/// The account detail that a document stores, if it stores one.
pub open spec fn document_detail(doc: serde_json::Value) -> Option<AccountDetailView> {
    match json_members(doc) {
        Some(members) => {
            if members.dom() == detail_keys() {
                match (
                    json_text(members["acctnum"@]),
                    json_number(members["balance"@]),
                    json_text(members["trans_type"@]),
                ) {
                    (Some(acctnum), Some(balance), Some(name)) => {
                        if balance <= u32::MAX {
                            match kind_of_name(name) {
                                Some(trans_type) => Some(
                                    AccountDetailView {
                                        acctnum,
                                        balance: balance as nat,
                                        trans_type,
                                    },
                                ),
                                None => None,
                            }
                        } else {
                            None
                        }
                    },
                    _ => None,
                }
            } else {
                None
            }
        },
        None => None,
    }
}

/// The ordering detail that a document stores, if it stores one.
pub open spec fn document_payload(doc: serde_json::Value) -> Option<EventDetailView> {
    match json_members(doc) {
        Some(members) => {
            if members.dom() == payload_keys() {
                match (
                    json_number(members["generation"@]),
                    json_number(members["timestamp"@]),
                ) {
                    (Some(generation), Some(timestamp)) => Some(
                        EventDetailView {
                            generation: generation as nat,
                            timestamp: timestamp as nat,
                        },
                    ),
                    _ => None,
                }
            } else {
                None
            }
        },
        None => None,
    }
}

/// The two details that the body of a stored event holds, if it is an array
/// of exactly an account detail and an ordering detail.
pub open spec fn document_parts(body: serde_json::Value) -> Option<
    (AccountDetailView, EventDetailView),
> {
    match json_items(body) {
        Some(parts) => {
            if parts.len() == 2 {
                match (document_detail(parts[0]), document_payload(parts[1])) {
                    (Some(detail), Some(payload)) => Some((detail, payload)),
                    _ => None,
                }
            } else {
                None
            }
        },
        None => None,
    }
}

/// The event that a document stores, if it stores one: the object has one
/// member, its key is the tag of a variant, and its value holds the two
/// details.
pub open spec fn document_event(doc: serde_json::Value) -> Option<BankEventView> {
    match json_members(doc) {
        Some(members) => {
            if members.dom() == set!["FundsDeposited"@] {
                match document_parts(members["FundsDeposited"@]) {
                    Some((detail, payload)) => Some(BankEventView::FundsDeposited(detail, payload)),
                    None => None,
                }
            } else if members.dom() == set!["FundsWithdrawn"@] {
                match document_parts(members["FundsWithdrawn"@]) {
                    Some((detail, payload)) => Some(BankEventView::FundsWithdrawn(detail, payload)),
                    None => None,
                }
            } else {
                None
            }
        },
        None => None,
    }
}

/// What decoding a payload gives: the event that the text stores, and
/// `RecordCorrupt` for a text that is no JSON or stores no event.
pub open spec fn decode_spec(payload: Seq<char>) -> Result<BankEventView, ReplayError> {
    match parsed_json(payload) {
        Some(doc) => match document_event(doc) {
            Some(evt) => Ok(evt),
            None => Err(ReplayError::RecordCorrupt),
        },
        None => Err(ReplayError::RecordCorrupt),
    }
}

/// The stored names differ from one another, and so the key sets have as
/// many keys as they name.
proof fn lemma_stored_names()
    ensures
        "acctnum"@ != "balance"@,
        "acctnum"@ != "trans_type"@,
        "balance"@ != "trans_type"@,
        "generation"@ != "timestamp"@,
        "FundsDeposited"@ != "FundsWithdrawn"@,
        "Deposit"@ != "Withdraw"@,
        detail_keys().finite(),
        detail_keys().len() == 3,
        payload_keys().finite(),
        payload_keys().len() == 2,
{
    broadcast use vstd::set::group_set_axioms;

    reveal_strlit("acctnum");
    reveal_strlit("balance");
    reveal_strlit("trans_type");
    reveal_strlit("generation");
    reveal_strlit("timestamp");
    reveal_strlit("FundsDeposited");
    reveal_strlit("FundsWithdrawn");
    reveal_strlit("Deposit");
    reveal_strlit("Withdraw");
    assert("acctnum"@[0] != "balance"@[0]);
    assert("generation"@.len() != "timestamp"@.len());
    assert("Deposit"@.len() != "Withdraw"@.len());
    assert("FundsDeposited"@[5] != "FundsWithdrawn"@[5]);
}

/// A stored name stands for the kind that is stored under it.
pub proof fn lemma_kind_name_round_trip(kind: TransactionKind)
    ensures
        kind_of_name(kind_name(kind)) == Some(kind),
{
    lemma_stored_names();
}

/// Decoding reads back what encoding builds: the stored form of an event
/// stores that event and no other.
pub proof fn lemma_decode_inverts_encode(doc: serde_json::Value, evt: BankEventView)
    requires
        is_event_doc(doc, evt),
    ensures
        document_event(doc) == Some(evt),
{
    lemma_stored_names();
    lemma_kind_name_round_trip(evt.detail().trans_type);
    let members = json_members(doc)->Some_0;
    let body = members[event_tag(evt)];
    let parts = json_items(body)->Some_0;
    assert(document_detail(parts[0]) == Some(evt.detail()));
    assert(document_payload(parts[1]) == Some(evt.payload()));
    assert(document_parts(body) == Some((evt.detail(), evt.payload())));
    // The one key of the document is the tag of the event, not the other
    // tag.
    assert(set!["FundsDeposited"@].contains("FundsDeposited"@));
    assert(set!["FundsWithdrawn"@].contains("FundsWithdrawn"@));
}

/// Decoding reads nothing but stored forms: a document that stores an event
/// is the stored form of that event.
pub proof fn lemma_decoded_document_is_stored_form(doc: serde_json::Value, evt: BankEventView)
    requires
        document_event(doc) == Some(evt),
    ensures
        is_event_doc(doc, evt),
{
    lemma_stored_names();
    let members = json_members(doc)->Some_0;
    let body = members[event_tag(evt)];
    let parts = json_items(body)->Some_0;
    assert(document_parts(body) == Some((evt.detail(), evt.payload())));
    assert(is_detail_doc(parts[0], evt.detail()));
    assert(is_payload_doc(parts[1], evt.payload()));
}

/// A text that holds the stored form of an event decodes to that event.
pub proof fn lemma_decode_reads_stored_form(
    payload: Seq<char>,
    doc: serde_json::Value,
    evt: BankEventView,
)
    requires
        parsed_json(payload) == Some(doc),
        is_event_doc(doc, evt),
    ensures
        decode_spec(payload) == Ok::<BankEventView, ReplayError>(evt),
{
    lemma_decode_inverts_encode(doc, evt);
}

impl TransactionKind {
    /// The name under which the kind is stored.
    pub fn name(&self) -> (name: &'static str)
        ensures
            name@ == kind_name(*self),
    {
        match self {
            TransactionKind::Deposit => "Deposit",
            TransactionKind::Withdraw => "Withdraw",
        }
    }

    /// The kind that is stored under `name`, if there is one.
    pub fn from_name(name: &str) -> (kind: Option<TransactionKind>)
        ensures
            kind == kind_of_name(name@),
    {
        if same_text(name, "Deposit") {
            Some(TransactionKind::Deposit)
        } else if same_text(name, "Withdraw") {
            Some(TransactionKind::Withdraw)
        } else {
            None
        }
    }
}

impl AccountDetail {
    /// The account detail with these stored fields: none where the balance
    /// is more than a balance can hold, or the name is that of no kind.
    pub fn from_fields(acctnum: &str, balance: u64, trans_type: &str) -> (detail: Option<
        AccountDetail,
    >)
        ensures
            match detail {
                Some(detail) => balance <= u32::MAX && kind_of_name(trans_type@) == Some(
                    detail.trans_type,
                ) && detail.acctnum@ == acctnum@ && detail.balance == balance,
                None => balance > u32::MAX || kind_of_name(trans_type@) is None,
            },
    {
        if balance > 0xffff_ffff {
            return None;
        }
        match TransactionKind::from_name(trans_type) {
            Some(kind) => Some(
                AccountDetail {
                    acctnum: acctnum.to_owned(),
                    balance: balance as u32,
                    trans_type: kind,
                },
            ),
            None => None,
        }
    }
}

/// The account detail that `doc` stores.
fn decode_detail(doc: &serde_json::Value) -> (detail: Option<AccountDetail>)
    ensures
        match detail {
            Some(detail) => document_detail(*doc) == Some(detail@),
            None => document_detail(*doc) is None,
        },
{
    proof {
        lemma_stored_names();
    }
    match member_count(doc) {
        Some(3) => {},
        _ => {
            return None;
        },
    }
    let acctnum = member(doc, "acctnum")?;
    let balance = member(doc, "balance")?;
    let trans_type = member(doc, "trans_type")?;
    proof {
        let members = json_members(*doc)->Some_0;
        lemma_subset_equality(detail_keys(), members.dom());
    }
    let acctnum = text(acctnum)?;
    let balance = number(balance)?;
    let trans_type = text(trans_type)?;
    AccountDetail::from_fields(acctnum, balance, trans_type)
}

/// The ordering detail that `doc` stores.
fn decode_payload(doc: &serde_json::Value) -> (payload: Option<EventDetail>)
    ensures
        match payload {
            Some(payload) => document_payload(*doc) == Some(payload@),
            None => document_payload(*doc) is None,
        },
{
    proof {
        lemma_stored_names();
    }
    match member_count(doc) {
        Some(2) => {},
        _ => {
            return None;
        },
    }
    let generation = member(doc, "generation")?;
    let timestamp = member(doc, "timestamp")?;
    proof {
        let members = json_members(*doc)->Some_0;
        lemma_subset_equality(payload_keys(), members.dom());
    }
    let generation = number(generation)?;
    let timestamp = number(timestamp)?;
    Some(EventDetail { generation, timestamp })
}

/// The two details that the body of a stored event holds.
fn decode_parts(body: &serde_json::Value) -> (parts: Option<(AccountDetail, EventDetail)>)
    ensures
        match parts {
            Some((detail, payload)) => document_parts(*body) == Some((detail@, payload@)),
            None => document_parts(*body) is None,
        },
{
    let list = items(body)?;
    if list.len() != 2 {
        return None;
    }
    let detail = decode_detail(&list[0])?;
    let payload = decode_payload(&list[1])?;
    Some((detail, payload))
}

/// Reads the event that a JSON document stores. A document that is not the
/// stored form of an event is refused as a corrupt record.
pub fn decode_value(doc: &serde_json::Value) -> (evt: Result<BankEvent, ReplayError>)
    ensures
        view_ok(evt) == match document_event(*doc) {
            Some(evt) => Ok::<BankEventView, ReplayError>(evt),
            None => Err(ReplayError::RecordCorrupt),
        },
{
    proof {
        lemma_stored_names();
        broadcast use vstd::set::group_set_axioms;

    }
    match member_count(doc) {
        Some(1) => {},
        _ => {
            return Err(ReplayError::RecordCorrupt);
        },
    }
    match member(doc, "FundsDeposited") {
        Some(body) => {
            proof {
                let members = json_members(*doc)->Some_0;
                lemma_subset_equality(set!["FundsDeposited"@], members.dom());
            }
            match decode_parts(body) {
                Some((detail, payload)) => Ok(BankEvent::FundsDeposited(detail, payload)),
                None => Err(ReplayError::RecordCorrupt),
            }
        },
        None => match member(doc, "FundsWithdrawn") {
            Some(body) => {
                proof {
                    let members = json_members(*doc)->Some_0;
                    lemma_subset_equality(set!["FundsWithdrawn"@], members.dom());
                }
                match decode_parts(body) {
                    Some((detail, payload)) => Ok(BankEvent::FundsWithdrawn(detail, payload)),
                    None => Err(ReplayError::RecordCorrupt),
                }
            },
            None => Err(ReplayError::RecordCorrupt),
        },
    }
}

/// Decodes the payload of a stored record. A text that is no JSON, or whose
/// document is not the stored form of an event, is refused as a corrupt
/// record.
pub fn decode_event(payload: &str) -> (evt: Result<BankEvent, ReplayError>)
    ensures
        view_ok(evt) == decode_spec(payload@),
{
    match parse_json(payload) {
        Ok(doc) => decode_value(&doc),
        Err(_) => Err(ReplayError::RecordCorrupt),
    }
}

/// The object that stores the account detail.
fn encode_detail(detail: &AccountDetail) -> (doc: serde_json::Value)
    ensures
        is_detail_doc(doc, detail@),
{
    let mut pairs: Vec<(String, serde_json::Value)> = Vec::new();
    pairs.push(("acctnum".to_owned(), text_value(detail.acctnum.as_str())));
    pairs.push(("balance".to_owned(), number_value(detail.balance as u64)));
    pairs.push(("trans_type".to_owned(), text_value(detail.trans_type.name())));
    proof {
        lemma_stored_names();
        assert(pairs@[0].0@ == "acctnum"@);
        assert(pairs@[1].0@ == "balance"@);
        assert(pairs@[2].0@ == "trans_type"@);
    }
    let doc = object_value(pairs);
    proof {
        let members = json_members(doc)->Some_0;
        assert(members.dom() =~= detail_keys());
    }
    doc
}

/// The object that stores the ordering detail.
fn encode_payload(payload: &EventDetail) -> (doc: serde_json::Value)
    ensures
        is_payload_doc(doc, payload@),
{
    let mut pairs: Vec<(String, serde_json::Value)> = Vec::new();
    pairs.push(("generation".to_owned(), number_value(payload.generation)));
    pairs.push(("timestamp".to_owned(), number_value(payload.timestamp)));
    proof {
        lemma_stored_names();
        assert(pairs@[0].0@ == "generation"@);
        assert(pairs@[1].0@ == "timestamp"@);
    }
    let doc = object_value(pairs);
    proof {
        let members = json_members(doc)->Some_0;
        assert(members.dom() =~= payload_keys());
    }
    doc
}

/// Builds the JSON document that stores the event.
pub fn encode_value(evt: &BankEvent) -> (doc: serde_json::Value)
    ensures
        is_event_doc(doc, evt@),
{
    let (tag, detail, payload) = match evt {
        BankEvent::FundsDeposited(detail, payload) => ("FundsDeposited", detail, payload),
        BankEvent::FundsWithdrawn(detail, payload) => ("FundsWithdrawn", detail, payload),
    };
    let mut parts: Vec<serde_json::Value> = Vec::new();
    parts.push(encode_detail(detail));
    parts.push(encode_payload(payload));
    let mut pairs: Vec<(String, serde_json::Value)> = Vec::new();
    pairs.push((tag.to_owned(), list_value(parts)));
    proof {
        assert(pairs@[0].0@ == event_tag(evt@));
    }
    let doc = object_value(pairs);
    proof {
        let members = json_members(doc)->Some_0;
        assert(members.dom() =~= set![event_tag(evt@)]);
    }
    doc
}

/// Encodes the event as the payload of a record: the compact JSON text of
/// its stored form.
pub fn encode_event(evt: &BankEvent) -> (payload: String)
    ensures
        exists|doc: serde_json::Value|
            is_event_doc(doc, evt@) && payload@ == #[trigger] rendered_json(doc),
{
    let doc = encode_value(evt);
    render_json(&doc)
}

} // verus!
