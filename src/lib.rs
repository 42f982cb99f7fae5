//! Presence tracking and alert dispatch for monitored entities.
//!
//! The library holds the decisions of a small monitoring runtime: the
//! per-entity presence state machines (push pings and active polls), the
//! notification filters, the provider registry with its configuration
//! reload, and the mapping of notifications to live-update messages.
//! Clocks, timers, sockets and configuration files live with the caller.

pub mod notification;
pub mod filter;
pub mod table;
pub mod status;
pub mod presence;
pub mod poller;
pub mod registry;
pub mod push;
pub mod email;
pub mod ntfy;
pub mod handle;
pub mod website;
