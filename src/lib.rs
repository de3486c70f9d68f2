//! Verified core of a multi-tenant database synchronization hub: identifiers,
//! vector clocks, the message envelope and its compact binary wire format,
//! conflict detection and resolution, and the hub's connection registry,
//! session handshake and tenant-isolating router.
pub mod ids;
pub mod util;
pub mod clock;
pub mod messages;
pub mod wire;
pub mod error;
pub mod codec;
pub mod conflict;
pub mod registry;
pub mod router;
pub mod session;
pub mod auth;
pub mod config;
pub mod client;
pub mod replication;
pub mod cdc;
