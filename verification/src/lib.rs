//! Admission control for event registration: a ledger of registrations with
//! capacity, uniqueness and authorization invariants, the controller that
//! sequences one admission attempt, credential checking, and reporting.

pub mod auth;
pub mod controller;
pub mod counting;
pub mod credentials;
pub mod errors;
pub mod events;
pub mod ledger;
pub mod oracle;
pub mod profiles;
pub mod stats;
