//! The decisions of a dynamic-DNS client that keeps a set of DNS A records
//! of one zone pointed at the caller's current public IPv4 address.
//!
//! A pass over the records is a [`run::Run`]. It asks DNS queries and makes
//! writes to the update API, but it does neither itself: it says what is to
//! be asked or written next and is handed what came of it. So every decision
//! of a pass is a function of plain values, and is proved to be the one that
//! its contract states:
//!
//! - [`config`]: the configuration, checked once.
//! - [`resolver`]: queries, answers, and which record of an answer is the
//!   result of a lookup.
//! - [`record`]: the records of an answer.
//! - [`discovery`]: the queries by which the caller's public address and a
//!   zone's authoritative name server are found.
//! - [`reconcile`]: the comparison of a record's address with the one to
//!   set, and the write that follows from it.
//! - [`run`]: the pass as a whole, step by step.
//! - [`trace`]: what holds of every pass, whatever is answered.
//! - [`gandi_client`]: the requests to the update API.
//! - [`ipv4`], [`text`], [`error`]: addresses, strings, failures.

pub mod config;
pub mod discovery;
pub mod error;
pub mod gandi_client;
pub mod ipv4;
pub mod reconcile;
pub mod record;
pub mod resolver;
pub mod run;
pub mod text;
pub mod trace;
