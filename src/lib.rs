//! A line-framed chat broker: the wire codec, the bounded message history,
//! the user registry and the per-connection decisions, all verified.

pub mod client;
pub mod manager;
pub mod messages_pool;
pub mod reader;
pub mod roundtrip;
pub mod settings;
pub mod state;
pub mod sygnal;
pub mod text;
pub mod types;
