//! The core of a client for language models: conversations and their wire format,
//! retries and failover between the providers of a pool, and the decisions behind
//! the C interface.
//!
//! What a provider answers is an event, and what follows from it is computed here:
//! [`attempt`] for the visit of one provider, [`operation`] for the visits of a
//! plan. Sending, waiting and listening are left to the caller.
pub mod attempt;
pub mod client;
pub mod context;
pub mod continuation;
pub mod error;
pub mod events;
pub mod failover;
pub mod failure;
pub mod ffi;
pub mod frames;
pub mod json;
pub mod operation;
pub mod payload;
pub mod responses;
pub mod slots;
pub mod text;
pub mod types;
