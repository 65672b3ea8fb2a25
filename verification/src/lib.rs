//! A cancellation registry for in-flight, killable database queries.
//!
//! The heart of the crate is the query registry (the "reaper"): a single
//! coordinating owner of a mapping from user identity to the set of currently
//! running queries for that user, together with the one-shot cancellation
//! signal of each. The registry reacts to four kinds of message: register,
//! deregister, kill every query of a user, and kill only the queries of one
//! category. Around it stand the request/response model types and the error
//! taxonomy that the request handlers share.

pub mod error;
pub mod models;
pub mod reaper;
pub mod registry;
