//! Conversation normalization and exchange pipeline for a chat mediator that
//! keeps a stored transcript and talks to a remote completion endpoint.

pub mod completion;
pub mod exchange;
pub mod model;
pub mod normalize;
pub mod seed;
pub mod store;
