use card_api::card::webhooks::{
    is_forbidden_field_name, reject_forbidden_fields, AuthEvent, ClearingEvent, PartnerEvent,
    ReversalEvent, WebhookDeserializeError,
};
use card_api::error::ApiError;
use card_api::json::{property_names, JsonValue};
use card_api::routes::card::accept_partner_event;

fn keys(names: &[&str]) -> Vec<(String, JsonValue)> {
    names
        .iter()
        .map(|s| (s.to_string(), JsonValue::String("value".to_string())))
        .collect()
}

fn object(members: Vec<(&str, JsonValue)>) -> JsonValue {
    JsonValue::Object(members.into_iter().map(|(k, v)| (k.to_string(), v)).collect())
}

#[test]
fn each_forbidden_field_is_rejected() {
    for field in ["pan", "cvv", "cvc", "track", "pin"] {
        let result = reject_forbidden_fields(&keys(&["key", field]));
        assert!(result.is_err(), "failed for field: {}", field);
        assert!(result.unwrap_err().contains(field));
    }
}

#[test]
fn forbidden_fields_rejected_in_any_case() {
    for field in ["PAN", "Pan", "CvV", "CVC", "Track", "PIN"] {
        let result = reject_forbidden_fields(&keys(&[field]));
        assert!(result.is_err(), "failed for field: {}", field);
        // The rejection names the field as provided.
        assert_eq!(
            result.unwrap_err(),
            format!("Forbidden field '{}' in card webhook payload", field)
        );
    }
}

#[test]
fn allowed_metadata_passes() {
    assert!(reject_forbidden_fields(&keys(&[])).is_ok());
    assert!(reject_forbidden_fields(&keys(&["key", "merchant_id", "mcc"])).is_ok());
    assert!(reject_forbidden_fields(&keys(&["pan_hint", "pins", "tracking", " pan"])).is_ok());
}

#[test]
fn first_forbidden_field_is_named() {
    let result = reject_forbidden_fields(&keys(&["mcc", "CVV", "pan"]));
    assert_eq!(
        result.unwrap_err(),
        "Forbidden field 'CVV' in card webhook payload"
    );
}

#[test]
fn forbidden_field_names() {
    assert!(is_forbidden_field_name("tRaCk"));
    assert!(!is_forbidden_field_name("tracks"));
    assert!(!is_forbidden_field_name(""));
    // Only ASCII letters are folded.
    assert!(!is_forbidden_field_name("pİn"));
}

#[test]
fn webhook_error_messages() {
    let forbidden = WebhookDeserializeError::ForbiddenField("pan".to_string());
    assert_eq!(forbidden.message(), "Forbidden field detected: pan");

    let json_err = serde_json::from_str::<serde_json::Value>("{").unwrap_err();
    let text = json_err.to_string();
    let decoding = WebhookDeserializeError::Deserialize(json_err);
    assert_eq!(decoding.message(), format!("Deserialization error: {}", text));
}

#[test]
fn webhook_errors_map_to_api_errors() {
    let forbidden = WebhookDeserializeError::ForbiddenField("Forbidden field detected: pan".to_string());
    assert_eq!(
        ApiError::from_webhook_error(forbidden),
        ApiError::Validation("Forbidden field detected: pan".to_string())
    );

    let json_err = serde_json::from_str::<serde_json::Value>("[1,").unwrap_err();
    let text = json_err.to_string();
    assert_eq!(
        ApiError::from_payload_error(&json_err),
        ApiError::BadRequest(format!("Invalid JSON payload: {}", text))
    );
    assert_eq!(
        ApiError::from_webhook_error(WebhookDeserializeError::Deserialize(json_err)),
        ApiError::BadRequest(format!("Invalid webhook payload: {}", text))
    );
}

fn auth_event(event_id: &str) -> AuthEvent {
    AuthEvent {
        event_id: event_id.to_string(),
        partner_transaction_id: "txn_456".to_string(),
        amount: 1000,
        currency: "USD".to_string(),
        mcc: None,
        merchant_id: None,
        timestamp: "2024-01-15T10:30:00Z".to_string(),
        metadata: Vec::new(),
    }
}

#[test]
fn accepted_event_answer_carries_event_id() {
    let ack = accept_partner_event(PartnerEvent::Authorization(auth_event("evt_123")));
    assert_eq!(ack.status, "accepted");
    assert_eq!(ack.event_id, "evt_123");

    let clearing = ClearingEvent {
        event_id: "evt_clearing_001".to_string(),
        partner_transaction_id: "txn_sandbox_001".to_string(),
        amount: 1000,
        currency: "USD".to_string(),
        timestamp: "2024-01-15T10:35:00Z".to_string(),
        metadata: Vec::new(),
    };
    assert_eq!(
        accept_partner_event(PartnerEvent::Clearing(clearing)).event_id,
        "evt_clearing_001"
    );

    let reversal = ReversalEvent {
        event_id: "evt_reversal_001".to_string(),
        partner_transaction_id: "txn_sandbox_001".to_string(),
        amount: 1000,
        currency: "USD".to_string(),
        reason: Some("customer_requested".to_string()),
        timestamp: "2024-01-15T10:40:00Z".to_string(),
        metadata: Vec::new(),
    };
    assert_eq!(
        PartnerEvent::Reversal(reversal).into_event_id(),
        "evt_reversal_001"
    );
}

#[test]
fn nested_forbidden_fields_are_rejected() {
    let metadata = vec![(
        "card".to_string(),
        object(vec![("pan", JsonValue::String("4111111111111111".to_string()))]),
    )];
    assert_eq!(
        reject_forbidden_fields(&metadata).unwrap_err(),
        "Forbidden field 'pan' in card webhook payload"
    );

    let in_array = vec![(
        "items".to_string(),
        JsonValue::Array(vec![
            JsonValue::Number("1".to_string()),
            object(vec![("note", JsonValue::Null), ("Track", JsonValue::Bool(true))]),
        ]),
    )];
    assert_eq!(
        reject_forbidden_fields(&in_array).unwrap_err(),
        "Forbidden field 'Track' in card webhook payload"
    );
}

#[test]
fn nested_allowed_metadata_passes() {
    let metadata = vec![
        ("merchant".to_string(), object(vec![("mcc", JsonValue::String("5411".to_string()))])),
        ("tags".to_string(), JsonValue::Array(vec![JsonValue::String("pan".to_string())])),
    ];
    // A string value "pan" is data, not a property name.
    assert!(reject_forbidden_fields(&metadata).is_ok());
}

#[test]
fn property_names_in_document_order() {
    let metadata = vec![
        ("a".to_string(), object(vec![("b", object(vec![("c", JsonValue::Null)]))])),
        ("d".to_string(), JsonValue::Array(vec![object(vec![("e", JsonValue::Null)])])),
    ];
    assert_eq!(property_names(&metadata), vec!["a", "b", "c", "d", "e"]);
}
