//! A relay between web apps and the clients that call them.

pub mod chance;
pub mod codec;
pub mod discovery;
pub mod discovery_laws;
pub mod hub_error;
pub mod json;
pub mod laws;
pub mod registry;
pub mod registry_laws;
pub mod server;
pub mod server_laws;
pub mod slug;
pub mod socket;
pub mod table;
pub mod text;
pub mod text_laws;
pub mod wire;
pub mod wire_laws;
