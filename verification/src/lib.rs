//! Page dispatch and host ABI of a headless browser that runs as a wasm plugin.
//!
//! The crate holds the decisions of the plugin: how calls are read, which page
//! a call speaks of, which pages stay open, what is asked of the host's network
//! stack and what is answered. Memory, sessions and the network stay outside.

pub mod base64_codec;
pub mod dispatch_laws;
pub mod host_abi;
pub mod json;
pub mod json_codec;
pub mod page_laws;
pub mod page_table;
pub mod text;
pub mod wasm_dispatch;
