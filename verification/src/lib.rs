//! Admission control and anomaly detection for an HTTP service.
//!
//! The crate's core is a request-admission layer: a global rate limiter
//! raising a process-wide attack flag, a time-bounded client blacklist,
//! a per-client activity detector (failure streaks, path diversity,
//! request burstiness), and an orchestrator composing the three into a
//! single accept/deny decision per request.  All state transitions take
//! the current time as an explicit argument, so the windowing logic is
//! fully checkable with injected clocks.

pub mod admission;
pub mod airtable;
pub mod assoc;
pub mod auth;
pub mod blacklist;
pub mod client;
pub mod client_map;
pub mod clock;
pub mod detector;
pub mod environment;
pub mod limiter;
pub mod models_user;
pub mod oauth;
pub mod orm;
pub mod path_set;
pub mod rate_limit;
pub mod sub_tier;
pub mod tables_bits;
pub mod tables_latests;
pub mod tables_subgifts;
pub mod tables_user;
pub mod webhook_bits;
pub mod webhook_subgift;
