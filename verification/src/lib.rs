//! Card payment support: the card feature flag, country screening for card
//! transactions, and validation of partner webhook events.

pub mod card;
pub mod error;
pub mod json;
pub mod routes;
pub mod text;
