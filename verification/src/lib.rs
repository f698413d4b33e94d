//! Core trust and transport machinery of a cross-chain interoperability
//! protocol: a light-client abstraction that tracks a counterparty chain's
//! verified height and consensus root, a commitment-proof engine that checks
//! Merkle membership against that root, a packet lifecycle controller that
//! enforces ordering and exactly-once delivery, and the module-event model
//! used to surface application outcomes.

pub mod client;
pub mod client_error;
pub mod codec;
pub mod commitment;
pub mod events;
pub mod header;
pub mod height;
pub mod packet;
pub mod seqmap;
pub mod strutil;
pub mod timestamp;
pub mod wire;
