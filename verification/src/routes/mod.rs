//! Decisions behind the HTTP routes.

pub mod card;
