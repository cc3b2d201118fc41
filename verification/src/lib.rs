//! Server-side codec for a length-framed binary request/response protocol.
//!
//! The library decodes variable-length integers, legacy and compact
//! length-prefixed strings, and compact arrays from raw byte buffers, and
//! assembles the framed responses for the two request shapes it understands:
//! capability negotiation and topic-partition description.  Every decoder and
//! encoder carries a contract that pins its result down to the byte level.

pub mod ext;
pub mod handler;
pub mod protocol;
pub mod rpc;
pub mod schema;
pub mod types;
