//! Verified core of a reactive client/server messaging library: the wire framings
//! (variable-size binary, textual and fixed-size binary), the retrying and answering
//! decisions, and the life cycle of servers and connections.

pub mod connection;
pub mod connection_provider;
pub mod dialog;
pub mod mmap_binary_dialog;
pub mod responsive;
pub mod retrying;
pub mod serde;
pub mod serialized_binary_dialog;
pub mod server_lifecycle;
pub mod size_prefix;
pub mod socket_server_types;
pub mod textual_dialog;
