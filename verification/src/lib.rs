//! A synchronous-to-asynchronous call relay for embedded interpreters.
//!
//! An embedded interpreter can only make plain synchronous calls, while the
//! host that services those calls runs asynchronously on its own event loop.
//! This crate provides the verified core that bridges the two sides:
//!
//! * [`relay`] — converts one synchronous call into a queued, correlated
//!   request and a one-shot response slot;
//! * [`table`] — a registry handing out integer handles to owned objects;
//! * [`modules`] — a module loader built from two independent relays, one for
//!   specifier resolution and one for source loading;
//! * [`isolate`] — the lifecycle state of one interpreter instance;
//! * [`system`] — the top-level registry routing handle-addressed operations
//!   to the objects above.
//!
//! The crate holds only the state logic; blocking, threads and the engine
//! itself live with the embedding host.

pub mod errors;
pub mod isolate;
pub mod modules;
pub mod msg;
pub mod relay;
pub mod system;
pub mod table;
