//! Task Packet Protocol documents: JSON model, canonical form, digests,
//! schema-finding reports and the persistence rules for task packets.

pub mod api;
pub mod canonical;
pub mod digest;
pub mod json;
pub mod mcp;
pub mod order;
pub mod protocol;
pub mod schema;
pub mod task_packet;
pub mod text;
