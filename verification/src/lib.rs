//! Relays alert notifications of an alert router to a Discord webhook: the
//! grouping of alerts, the messages built from the groups, the decisions of
//! the delivery loop and the readiness report.

pub mod alert;
pub mod classes;
pub mod config;
pub mod grouping;
pub mod grouping_laws;
pub mod http;
pub mod message;
pub mod readyz;
pub mod relay;
pub mod text;
