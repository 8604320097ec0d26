//! A page-watching library: content extraction, a persisted notification
//! throttle, and multi-channel notification rendering and dispatch
//! decisions, all with verified contracts.
//!
//! A run flows through four pieces.  The extractor ([`extract`]) turns raw
//! fetched content plus a match rule into an ordered sequence of match
//! fragments, rewriting relative links in HTML mode.  The throttle
//! ([`throttle`]) decides from a persisted per-target record whether this
//! run may notify, favouring notification over going dark on a corrupt
//! record.  The notifiers ([`notify`]) render the match-set into
//! channel-specific payloads without performing I/O.  The dispatcher
//! ([`dispatch`]) decides what a run does and folds per-channel delivery
//! reports into isolated outcomes, one per channel.
//!
//! Fetching, the record file, clocks and transports live with the caller:
//! every function here is a total, verified step from plain values to
//! plain values, and the few calls into outside crates (the HTML selector
//! engine, the URL and mailbox parsers, the clock) stand behind small
//! trusted declarations beside their callers.

pub mod chars;
pub mod config;
pub mod dispatch;
pub mod extract;
pub mod notify;
pub mod strings;
pub mod throttle;
