//! Card webhook events and the strict rejection of card data in them.
//!
//! Partner events carry a free-form `metadata` object. Properties named
//! `pan`, `cvv`, `cvc`, `track` or `pin` (in any ASCII case) are refused
//! before the event reaches any store operation.

use vstd::prelude::*;
use vstd::string::StringExecFns;

use crate::error::ApiError;
use crate::json::{
    lemma_members_names_cover, members_names, property_names, value_names, JsonValue,
};
use crate::text::{ascii_lower, same_text, string_views, to_ascii_lowercase};

verus! {

/// The error of a JSON decoding that failed.
#[verifier::external_type_specification]
#[verifier::external_body]
pub struct ExJsonError(serde_json::Error);

// ---------------------------------------------------------------------------
// Forbidden metadata fields
// ---------------------------------------------------------------------------

/// Whether a metadata property name is forbidden: its ASCII-lowercase form is
/// `pan`, `cvv`, `cvc`, `track` or `pin`.
pub open spec fn is_forbidden_field(key: Seq<char>) -> bool {
    let lower = ascii_lower(key);
    ||| lower == "pan"@
    ||| lower == "cvv"@
    ||| lower == "cvc"@
    ||| lower == "track"@
    ||| lower == "pin"@
}

/// The rejection text for a forbidden property, naming it as provided.
pub open spec fn forbidden_field_message(key: Seq<char>) -> Seq<char> {
    "Forbidden field '"@ + key + "' in card webhook payload"@
}

/// Whether the metadata property name `key` is forbidden in card webhook
/// payloads (compared in ASCII lowercase).
pub fn is_forbidden_field_name(key: &str) -> (r: bool)
    ensures
        r == is_forbidden_field(key@),
{
    let lower = to_ascii_lowercase(key);
    same_text(&lower, "pan") || same_text(&lower, "cvv") || same_text(&lower, "cvc")
        || same_text(&lower, "track") || same_text(&lower, "pin")
}

/// Checks a list of property names, in the order given: `Ok(())` where none
/// is forbidden; otherwise the rejection text for the first forbidden name.
fn check_names(names: &Vec<String>) -> (r: Result<(), String>)
    ensures
        r is Ok <==> forall|i: int| 0 <= i < names@.len() ==> !is_forbidden_field(#[trigger] names@[i]@),
        r matches Err(msg) ==> exists|i: int|
            0 <= i < names@.len() && is_forbidden_field(#[trigger] names@[i]@) && (forall|j: int|
                0 <= j < i ==> !is_forbidden_field(#[trigger] names@[j]@)) && msg@
                == forbidden_field_message(names@[i]@),
{
    let mut i: usize = 0;
    while i < names.len()
        invariant
            i <= names@.len(),
            forall|j: int| 0 <= j < i ==> !is_forbidden_field(#[trigger] names@[j]@),
        decreases names@.len() - i,
    {
        if is_forbidden_field_name(names[i].as_str()) {
            let mut msg = String::from_str("Forbidden field '");
            msg.append(names[i].as_str());
            msg.append("' in card webhook payload");
            assert(is_forbidden_field(names@[i as int]@));
            return Err(msg);
        }
        i = i + 1;
    }
    Ok(())
}

/// Checks a metadata object (its members): `Ok(())` where no property name
/// at any depth is forbidden; otherwise the rejection text for the first
/// forbidden name in document order, which names it as provided.
pub fn reject_forbidden_fields(metadata: &Vec<(String, JsonValue)>) -> (r: Result<(), String>)
    ensures
        r is Ok <==> forall|i: int|
            0 <= i < members_names(metadata@).len() ==> !is_forbidden_field(
                #[trigger] members_names(metadata@)[i],
            ),
        r matches Err(msg) ==> exists|i: int|
            0 <= i < members_names(metadata@).len() && is_forbidden_field(
                #[trigger] members_names(metadata@)[i],
            ) && (forall|j: int|
                0 <= j < i ==> !is_forbidden_field(#[trigger] members_names(metadata@)[j]))
                && msg@ == forbidden_field_message(members_names(metadata@)[i]),
{
    let names = property_names(metadata);
    let r = check_names(&names);
    proof {
        let ns = members_names(metadata@);
        assert forall|i: int| 0 <= i < names@.len() implies #[trigger] names@[i]@ == ns[i] by {
            assert(string_views(names@)[i] == names@[i]@);
        }
    }
    r
}

// ---------------------------------------------------------------------------
// Partner events
// ---------------------------------------------------------------------------

/// Partner authorization event.
#[derive(Debug)]
pub struct AuthEvent {
    /// Unique event identifier.
    pub event_id: String,
    /// Partner-specific transaction identifier.
    pub partner_transaction_id: String,
    /// Authorization amount in minor units (e.g. cents).
    pub amount: i64,
    /// Currency code (ISO 4217).
    pub currency: String,
    /// Merchant category code.
    pub mcc: Option<String>,
    /// Merchant identifier.
    pub merchant_id: Option<String>,
    /// Timestamp of the authorization (RFC3339).
    pub timestamp: String,
    /// Additional metadata: the members of a JSON object, free of forbidden
    /// fields at any depth.
    pub metadata: Vec<(String, JsonValue)>,
}

/// Partner clearing event.
#[derive(Debug)]
pub struct ClearingEvent {
    /// Unique event identifier.
    pub event_id: String,
    /// Partner transaction identifier from the authorization.
    pub partner_transaction_id: String,
    /// Clearing amount in minor units.
    pub amount: i64,
    /// Currency code (ISO 4217).
    pub currency: String,
    /// Timestamp of the clearing (RFC3339).
    pub timestamp: String,
    /// Additional metadata: the members of a JSON object, free of forbidden
    /// fields at any depth.
    pub metadata: Vec<(String, JsonValue)>,
}

/// Partner reversal event.
#[derive(Debug)]
pub struct ReversalEvent {
    /// Unique event identifier.
    pub event_id: String,
    /// Partner transaction identifier from the authorization.
    pub partner_transaction_id: String,
    /// Reversal amount in minor units.
    pub amount: i64,
    /// Currency code (ISO 4217).
    pub currency: String,
    /// Reason for the reversal.
    pub reason: Option<String>,
    /// Timestamp of the reversal (RFC3339).
    pub timestamp: String,
    /// Additional metadata: the members of a JSON object, free of forbidden
    /// fields at any depth.
    pub metadata: Vec<(String, JsonValue)>,
}

/// All partner webhook events.
#[derive(Debug)]
pub enum PartnerEvent {
    Authorization(AuthEvent),
    Clearing(ClearingEvent),
    Reversal(ReversalEvent),
}

impl PartnerEvent {
    /// The event's identifier.
    pub open spec fn spec_event_id(&self) -> Seq<char> {
        match self {
            PartnerEvent::Authorization(a) => a.event_id@,
            PartnerEvent::Clearing(c) => c.event_id@,
            PartnerEvent::Reversal(r) => r.event_id@,
        }
    }

    /// The event's identifier, taken out of the event.
    pub fn into_event_id(self) -> (r: String)
        ensures
            r@ == self.spec_event_id(),
            match self {
                PartnerEvent::Authorization(a) => r@ == a.event_id@,
                PartnerEvent::Clearing(c) => r@ == c.event_id@,
                PartnerEvent::Reversal(v) => r@ == v.event_id@,
            },
    {
        match self {
            PartnerEvent::Authorization(a) => a.event_id,
            PartnerEvent::Clearing(c) => c.event_id,
            PartnerEvent::Reversal(r) => r.event_id,
        }
    }
}

// ---------------------------------------------------------------------------
// Errors
// ---------------------------------------------------------------------------

/// Why a webhook payload was refused.
#[derive(Debug)]
pub enum WebhookDeserializeError {
    /// A forbidden field was detected.
    ForbiddenField(String),
    /// The payload did not decode as a partner event.
    Deserialize(serde_json::Error),
}

impl WebhookDeserializeError {
    /// The human-readable text of the error: `Forbidden field detected: <field>`,
    /// or `Deserialization error: ` followed by what the decoding error
    /// displays.
    pub fn message(&self) -> (r: String)
        ensures
            match self {
                WebhookDeserializeError::ForbiddenField(f) => r@ == "Forbidden field detected: "@
                    + f@,
                WebhookDeserializeError::Deserialize(e) => exists|t: String|
                    vstd::string::to_string_from_display_ensures::<serde_json::Error>(e, t) && r@
                        == "Deserialization error: "@ + t@,
            },
    {
        match self {
            WebhookDeserializeError::ForbiddenField(f) => {
                let mut r = String::from_str("Forbidden field detected: ");
                r.append(f.as_str());
                r
            },
            WebhookDeserializeError::Deserialize(e) => {
                let t = e.to_string();
                let mut r = String::from_str("Deserialization error: ");
                r.append(t.as_str());
                r
            },
        }
    }
}


impl ApiError {
    /// The API error for a refused webhook payload: a forbidden field is a
    /// validation error with the same text; a decoding error is a bad
    /// request `Invalid webhook payload: ` followed by what the decoding
    /// error displays.
    pub fn from_webhook_error(err: WebhookDeserializeError) -> (r: ApiError)
        ensures
            match err {
                WebhookDeserializeError::ForbiddenField(msg) => r == ApiError::Validation(msg),
                WebhookDeserializeError::Deserialize(e) => exists|t: String|
                    vstd::string::to_string_from_display_ensures::<serde_json::Error>(&e, t) && (
                    r matches ApiError::BadRequest(m) && m@ == "Invalid webhook payload: "@ + t@),
            },
    {
        match err {
            WebhookDeserializeError::ForbiddenField(msg) => ApiError::Validation(msg),
            WebhookDeserializeError::Deserialize(e) => {
                let t = e.to_string();
                let mut m = String::from_str("Invalid webhook payload: ");
                m.append(t.as_str());
                ApiError::BadRequest(m)
            },
        }
    }

    /// The API error for a request body that could not be turned back into
    /// JSON text: a bad request `Invalid JSON payload: ` followed by what the
    /// error displays.
    pub fn from_payload_error(e: &serde_json::Error) -> (r: ApiError)
        ensures
            exists|t: String|
                vstd::string::to_string_from_display_ensures::<serde_json::Error>(e, t) && (
                r matches ApiError::BadRequest(m) && m@ == "Invalid JSON payload: "@ + t@),
    {
        let t = e.to_string();
        let mut m = String::from_str("Invalid JSON payload: ");
        m.append(t.as_str());
        ApiError::BadRequest(m)
    }
}


// ---------------------------------------------------------------------------
// Laws
// ---------------------------------------------------------------------------

/// A forbidden name anywhere in the metadata, whether a member's own name or
/// a name nested at any depth in a member's value, is among the names that
/// `reject_forbidden_fields` checks, so the metadata is refused.
pub proof fn lemma_nested_forbidden_name_refused(
    metadata: Seq<(String, JsonValue)>,
    i: int,
    name: Seq<char>,
)
    requires
        0 <= i < metadata.len(),
        is_forbidden_field(name),
        name == metadata[i].0@ || value_names(metadata[i].1).contains(name),
    ensures
        exists|k: int|
            0 <= k < members_names(metadata).len() && is_forbidden_field(
                #[trigger] members_names(metadata)[k],
            ),
{
    lemma_members_names_cover(metadata, i);
    assert(members_names(metadata).contains(name));
    let k = choose|k: int| 0 <= k < members_names(metadata).len() && members_names(metadata)[k] == name;
    assert(is_forbidden_field(members_names(metadata)[k]));
}

/// The identifier of an event is the `event_id` field of the event itself,
/// whatever its other fields (transaction id, amount, metadata) hold.
pub proof fn lemma_event_id_is_own_field(event: PartnerEvent)
    ensures
        match event {
            PartnerEvent::Authorization(a) => event.spec_event_id() == a.event_id@,
            PartnerEvent::Clearing(c) => event.spec_event_id() == c.event_id@,
            PartnerEvent::Reversal(r) => event.spec_event_id() == r.event_id@,
        },
{
}

/// Two events of the same kind with the same `event_id` field have the same
/// identifier, however their other fields differ.
pub proof fn lemma_event_id_ignores_other_fields(e1: PartnerEvent, e2: PartnerEvent)
    requires
        match (e1, e2) {
            (PartnerEvent::Authorization(a), PartnerEvent::Authorization(b)) => a.event_id@
                == b.event_id@,
            (PartnerEvent::Clearing(a), PartnerEvent::Clearing(b)) => a.event_id@ == b.event_id@,
            (PartnerEvent::Reversal(a), PartnerEvent::Reversal(b)) => a.event_id@ == b.event_id@,
            _ => false,
        },
    ensures
        e1.spec_event_id() == e2.spec_event_id(),
{
}

/// Exactly five property names are forbidden, up to ASCII case: a name is
/// forbidden if and only if its ASCII-lowercase form is `pan`, `cvv`, `cvc`,
/// `track` or `pin`. Any other name, such as `order_id`, is allowed.
pub proof fn lemma_forbidden_names_exactly(key: Seq<char>)
    ensures
        is_forbidden_field(key) <==> seq!["pan"@, "cvv"@, "cvc"@, "track"@, "pin"@].contains(
            ascii_lower(key),
        ),
        is_forbidden_field(key) ==> 3 <= key.len() <= 5,
{
    let words = seq!["pan"@, "cvv"@, "cvc"@, "track"@, "pin"@];
    let l = ascii_lower(key);
    reveal_strlit("pan");
    reveal_strlit("cvv");
    reveal_strlit("cvc");
    reveal_strlit("track");
    reveal_strlit("pin");
    if words.contains(l) {
        let k = choose|k: int| 0 <= k < words.len() && words[k] == l;
        assert(k == 0 || k == 1 || k == 2 || k == 3 || k == 4);
    }
    assert(l.len() == key.len());
    if l == "pan"@ {
        assert(words[0] == l);
    } else if l == "cvv"@ {
        assert(words[1] == l);
    } else if l == "cvc"@ {
        assert(words[2] == l);
    } else if l == "track"@ {
        assert(words[3] == l);
    } else if l == "pin"@ {
        assert(words[4] == l);
    }
}

/// The rejection text is `Forbidden field '<name>' in card webhook payload`,
/// with the name as provided.
pub proof fn lemma_rejection_text(key: Seq<char>)
    ensures
        forbidden_field_message(key) == "Forbidden field '"@ + key + "' in card webhook payload"@,
{
}

/// Rejection ignores ASCII case: two property names that lowercase alike are
/// both forbidden or both allowed.
pub proof fn lemma_forbidden_ignores_ascii_case(a: Seq<char>, b: Seq<char>)
    requires
        ascii_lower(a) == ascii_lower(b),
    ensures
        is_forbidden_field(a) == is_forbidden_field(b),
{
}

/// The rejection text names the property exactly as it was provided.
pub proof fn lemma_rejection_names_field(key: Seq<char>)
    ensures
        forbidden_field_message(key).subrange(17, 17 + key.len() as int) == key,
{
    reveal_strlit("Forbidden field '");
    assert("Forbidden field '"@.len() == 17);
    assert(forbidden_field_message(key).subrange(17, 17 + key.len() as int) =~= key);
}

} // verus!
