//! Session lobby and telemetry aggregator for a fleet of connected vehicles.
//!
//! Vehicles and their users meet in per-vehicle rooms; the lobby decides who is
//! admitted and where each message goes, and the aggregator folds telemetry
//! samples into daily summaries.

pub mod accounts;
pub mod client;
pub mod clock;
pub mod endpoint;
pub mod json;
pub mod laws;
pub mod lobby;
pub mod messages;
pub mod model;
pub mod telemetry;
