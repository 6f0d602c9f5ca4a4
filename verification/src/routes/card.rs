//! The card webhook route: what an accepted partner event is answered with.

use vstd::prelude::*;
use vstd::string::StringExecFns;

use crate::card::webhooks::PartnerEvent;

verus! {

/// The answer to an accepted partner event.
#[derive(Debug, Clone, PartialEq, Eq)]
pub struct WebhookAccepted {
    /// Always `accepted`.
    pub status: String,
    /// The identifier of the accepted event.
    pub event_id: String,
}

/// The answer to a partner event that decoded: status `accepted`, with the
/// event's identifier.
pub fn accept_partner_event(event: PartnerEvent) -> (r: WebhookAccepted)
    ensures
        r.status@ == "accepted"@,
        r.event_id@ == event.spec_event_id(),
        match event {
            PartnerEvent::Authorization(a) => r.event_id@ == a.event_id@,
            PartnerEvent::Clearing(c) => r.event_id@ == c.event_id@,
            PartnerEvent::Reversal(v) => r.event_id@ == v.event_id@,
        },
{
    let event_id = event.into_event_id();
    WebhookAccepted { status: String::from_str("accepted"), event_id }
}

} // verus!
