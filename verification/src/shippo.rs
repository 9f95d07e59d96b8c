//! Shipment tracking: tracking numbers, shipment statuses, and what the poller
//! does when a shipment's status changes.

use vstd::prelude::*;
use crate::text::{i64_decimal, same_text, signed_decimal};

verus! {

/// A tracking number together with the company that carries the shipment.
pub enum TrackingNumber {
    FedEx(String),
    Ups(String),
    Usps(String),
}

/// The name the tracking service and the database use for a carrier.
pub open spec fn carrier_text(t: TrackingNumber) -> Seq<char> {
    match t {
        TrackingNumber::FedEx(_) => "fedex"@,
        TrackingNumber::Ups(_) => "ups"@,
        TrackingNumber::Usps(_) => "usps"@,
    }
}

/// The tracking number itself.
pub open spec fn number_text(t: TrackingNumber) -> Seq<char> {
    match t {
        TrackingNumber::FedEx(n) => n@,
        TrackingNumber::Ups(n) => n@,
        TrackingNumber::Usps(n) => n@,
    }
}

impl TrackingNumber {
    /// The carrier's name: "fedex", "ups" or "usps".
    pub fn carrier(&self) -> (res: &'static str)
        ensures
            res@ == carrier_text(*self),
    {
        match self {
            TrackingNumber::FedEx(_) => "fedex",
            TrackingNumber::Ups(_) => "ups",
            TrackingNumber::Usps(_) => "usps",
        }
    }

    /// The tracking number.
    pub fn number(&self) -> (res: String)
        ensures
            res@ == number_text(*self),
    {
        match self {
            TrackingNumber::FedEx(n) => n.clone(),
            TrackingNumber::Ups(n) => n.clone(),
            TrackingNumber::Usps(n) => n.clone(),
        }
    }

    /// "<carrier>/<number>", as the shipment is named in logs.
    pub fn to_text(&self) -> (res: String)
        ensures
            res@ == carrier_text(*self) + "/"@ + number_text(*self),
    {
        let mut s = self.carrier().to_string();
        s.append("/");
        let n = self.number();
        s.append(n.as_str());
        s
    }

    /// The tracking number for a carrier name; `None` for an unknown carrier.
    pub fn from_carrier(carrier: &str, number: &str) -> (res: Option<TrackingNumber>)
        ensures
            carrier@ == "fedex"@ ==> (res matches Some(TrackingNumber::FedEx(n)) && n@ == number@),
            carrier@ == "ups"@ ==> (res matches Some(TrackingNumber::Ups(n)) && n@ == number@),
            carrier@ == "usps"@ ==> (res matches Some(TrackingNumber::Usps(n)) && n@ == number@),
            carrier@ != "fedex"@ && carrier@ != "ups"@ && carrier@ != "usps"@ ==> res is None,
    {
        proof {
            reveal_strlit("fedex");
            reveal_strlit("ups");
            reveal_strlit("usps");
            assert("fedex"@[0] != "ups"@[0] && "fedex"@[0] != "usps"@[0]);
            assert("ups"@[1] != "usps"@[1]);
        }
        if same_text(carrier, "fedex") {
            Some(TrackingNumber::FedEx(number.to_string()))
        } else if same_text(carrier, "ups") {
            Some(TrackingNumber::Ups(number.to_string()))
        } else if same_text(carrier, "usps") {
            Some(TrackingNumber::Usps(number.to_string()))
        } else {
            None
        }
    }
}

/// Naming a tracking number by its carrier and number gives it back.
pub proof fn lemma_carrier_round_trip(t: TrackingNumber)
    ensures
        carrier_text(t) == "fedex"@ ==> t is FedEx,
        carrier_text(t) == "ups"@ ==> t is Ups,
        carrier_text(t) == "usps"@ ==> t is Usps,
{
    reveal_strlit("fedex");
    reveal_strlit("ups");
    reveal_strlit("usps");
    assert("fedex"@[0] != "ups"@[0] && "fedex"@[0] != "usps"@[0]);
    assert("ups"@[1] != "usps"@[1]);
}

/// Where a shipment stands, as the tracking service reports it.
#[derive(Debug, PartialEq, Eq, Structural, Clone, Copy)]
pub enum Status {
    Unknown,
    PreTransit,
    Transit,
    Delivered,
    Returned,
    Failure,
}

/// The name a status has in the database.
pub open spec fn status_text(s: Status) -> Seq<char> {
    match s {
        Status::Unknown => "unknown"@,
        Status::PreTransit => "pre_transit"@,
        Status::Transit => "transit"@,
        Status::Delivered => "delivered"@,
        Status::Returned => "returned"@,
        Status::Failure => "failure"@,
    }
}

impl Status {
    /// The status's name: "unknown", "pre_transit", "transit", "delivered",
    /// "returned" or "failure".
    pub fn name(&self) -> (res: &'static str)
        ensures
            res@ == status_text(*self),
    {
        match self {
            Status::Unknown => "unknown",
            Status::PreTransit => "pre_transit",
            Status::Transit => "transit",
            Status::Delivered => "delivered",
            Status::Returned => "returned",
            Status::Failure => "failure",
        }
    }
}

/// What the poller does with a tracked shipment after asking for its status.
#[derive(Debug, PartialEq, Eq, Structural, Clone, Copy)]
pub enum PollAction {
    /// The status is missing or has not changed.
    Nothing,
    /// The status changed to one short of delivery: the new status is stored,
    /// and the shipment is polled again while it is unknown, pre-transit or in
    /// transit.
    Record(Status),
    /// The shipment was delivered: the user is told, then it is marked delivered.
    NotifyAndMarkDelivered,
}

/// What the poller decides for a shipment whose stored status is `stored`
/// when the service reports `reported`.
pub open spec fn poll_decision(stored: Seq<char>, reported: Option<Status>) -> PollAction {
    match reported {
        None => PollAction::Nothing,
        Some(s) => if stored == status_text(s) {
            PollAction::Nothing
        } else if s == Status::Delivered {
            PollAction::NotifyAndMarkDelivered
        } else {
            PollAction::Record(s)
        },
    }
}

/// Decides what the poller does, given the status stored for a shipment and
/// the status the tracking service now reports.
pub fn poll_action(stored: &str, reported: Option<Status>) -> (res: PollAction)
    ensures
        res == poll_decision(stored@, reported),
{
    match reported {
        None => PollAction::Nothing,
        Some(s) => {
            if same_text(stored, s.name()) {
                PollAction::Nothing
            } else if s == Status::Delivered {
                PollAction::NotifyAndMarkDelivered
            } else {
                PollAction::Record(s)
            }
        },
    }
}

/// Whether a shipment with this stored status is polled: while it is unknown,
/// pre-transit or in transit.
pub open spec fn polled(stored: Seq<char>) -> bool {
    stored == "unknown"@ || stored == "pre_transit"@ || stored == "transit"@
}

/// Whether a reported status is short of delivery and keeps a shipment polled.
pub open spec fn in_transit(s: Status) -> bool {
    s == Status::Unknown || s == Status::PreTransit || s == Status::Transit
}

/// The status stored after the poller acts.
pub open spec fn stored_after(stored: Seq<char>, action: PollAction) -> Seq<char> {
    match action {
        PollAction::Nothing => stored,
        PollAction::Record(s) => status_text(s),
        PollAction::NotifyAndMarkDelivered => status_text(Status::Delivered),
    }
}

/// Successive polls of one shipment, starting from `stored`, with the statuses
/// the service reports at each: the status stored at the end, and how many
/// times the delivery was announced.
pub open spec fn polls(stored: Seq<char>, reports: Seq<Option<Status>>) -> (Seq<char>, nat)
    decreases reports.len(),
{
    if reports.len() == 0 || !polled(stored) {
        (stored, 0)
    } else {
        let action = poll_decision(stored, reports[0]);
        let rest = polls(stored_after(stored, action), reports.drop_first());
        (rest.0, rest.1 + if action == PollAction::NotifyAndMarkDelivered { 1nat } else { 0nat })
    }
}

proof fn lemma_status_words()
    ensures
        !polled(status_text(Status::Delivered)),
        !polled(status_text(Status::Returned)),
        !polled(status_text(Status::Failure)),
        forall|s: Status| in_transit(s) ==> polled(#[trigger] status_text(s)),
{
    reveal_strlit("unknown");
    reveal_strlit("pre_transit");
    reveal_strlit("transit");
    reveal_strlit("delivered");
    reveal_strlit("returned");
    reveal_strlit("failure");
    assert("delivered"@[0] != "unknown"@[0] && "delivered"@[0] != "pre_transit"@[0] && "delivered"@[0] != "transit"@[0]);
    assert("returned"@[0] != "unknown"@[0] && "returned"@[0] != "pre_transit"@[0] && "returned"@[0] != "transit"@[0]);
    assert("failure"@[0] != "unknown"@[0] && "failure"@[0] != "pre_transit"@[0] && "failure"@[0] != "transit"@[0]);
}

/// A delivery is announced at most once, and once it is, the shipment is
/// stored as delivered.
pub proof fn lemma_delivery_announced_at_most_once(stored: Seq<char>, reports: Seq<Option<Status>>)
    ensures
        polls(stored, reports).1 <= 1,
        polls(stored, reports).1 == 1 ==> polls(stored, reports).0 == status_text(Status::Delivered),
    decreases reports.len(),
{
    lemma_status_words();
    if reports.len() > 0 && polled(stored) {
        let action = poll_decision(stored, reports[0]);
        lemma_delivery_announced_at_most_once(stored_after(stored, action), reports.drop_first());
        if action == PollAction::NotifyAndMarkDelivered {
            assert(!polled(stored_after(stored, action)));
        }
    }
}

/// A shipment that is polled, and that the service reports delivered after
/// reporting nothing or statuses short of delivery, has its delivery announced
/// once, at the first poll that reports it, and is then stored as delivered
/// and no longer polled.
pub proof fn lemma_delivery_announced(stored: Seq<char>, reports: Seq<Option<Status>>, k: int)
    requires
        polled(stored),
        0 <= k < reports.len(),
        reports[k] == Some(Status::Delivered),
        forall|j: int| 0 <= j < k ==> (#[trigger] reports[j] matches Some(s) ==> in_transit(s)),
    ensures
        polls(stored, reports) == (status_text(Status::Delivered), 1nat),
        polls(stored, reports.take(k)).1 == 0,
        poll_decision(polls(stored, reports.take(k)).0, reports[k]) == PollAction::NotifyAndMarkDelivered,
    decreases k,
{
    lemma_status_words();
    let action = poll_decision(stored, reports[0]);
    if k == 0 {
        assert(stored != status_text(Status::Delivered));
        assert(reports.take(0).len() == 0);
        assert(polls(stored_after(stored, action), reports.drop_first()) == (status_text(Status::Delivered), 0nat));
    } else {
        assert(polled(stored_after(stored, action))) by {
            if let Some(s) = reports[0] {
                assert(in_transit(s));
            }
        }
        let rest = reports.drop_first();
        assert forall|j: int| 0 <= j < k - 1 implies (#[trigger] rest[j] matches Some(s) ==> in_transit(s)) by {
            assert(rest[j] == reports[j + 1]);
        }
        lemma_delivery_announced(stored_after(stored, action), rest, k - 1);
        assert(reports.take(k).drop_first() =~= rest.take(k - 1));
        assert(reports.take(k)[0] == reports[0]);
    }
}

/// Whether the track command stores a shipment for polling: when the service
/// reports a status other than delivered.
pub fn tracks_shipment(reported: Option<Status>) -> (res: bool)
    ensures
        res == (reported matches Some(s) && s != Status::Delivered),
{
    match reported {
        Some(s) => s != Status::Delivered,
        None => false,
    }
}

/// The message that tells a user their shipment was delivered.
pub open spec fn delivery_text(
    author_id: int,
    carrier: Seq<char>,
    number: Seq<char>,
    comment: Option<Seq<char>>,
    delivered_at: Seq<char>,
    details: Seq<char>,
) -> Seq<char> {
    "<@"@ + signed_decimal(author_id) + ">: Your "@ + carrier + " shipment "@ + number + match comment {
        Some(c) => " ("@ + c + ") "@,
        None => " "@,
    } + "was marked as delivered at "@ + delivered_at + " with the following message: "@ + details
}

/// Writes the delivery message; `delivered_at` is the time of delivery as shown.
pub fn delivery_message(
    author_id: i64,
    carrier: &str,
    number: &str,
    comment: Option<&str>,
    delivered_at: &str,
    details: &str,
) -> (res: String)
    ensures
        res@ == delivery_text(
            author_id as int,
            carrier@,
            number@,
            match comment {
                Some(c) => Some(c@),
                None => None,
            },
            delivered_at@,
            details@,
        ),
{
    let mut s = "<@".to_string();
    let id = i64_decimal(author_id);
    s.append(id.as_str());
    s.append(">: Your ");
    s.append(carrier);
    s.append(" shipment ");
    s.append(number);
    match comment {
        Some(c) => {
            s.append(" (");
            s.append(c);
            s.append(") ");
        },
        None => s.append(" "),
    }
    s.append("was marked as delivered at ");
    s.append(delivered_at);
    s.append(" with the following message: ");
    s.append(details);
    s
}

/// The track command's reply: the status details (or "Status Unknown") and,
/// when the service gives one, the expected delivery date as shown.
pub fn track_reply(details: Option<&str>, eta: Option<&str>) -> (res: String)
    ensures
        res@ == match details {
            Some(d) => d@,
            None => "Status Unknown"@,
        } + match eta {
            Some(e) => "\nETA: "@ + e@,
            None => Seq::<char>::empty(),
        },
{
    let mut s = match details {
        Some(d) => d.to_string(),
        None => "Status Unknown".to_string(),
    };
    if let Some(e) = eta {
        s.append("\nETA: ");
        s.append(e);
    }
    s
}

} // verus!
