//! A small MCP-style JSON-RPC diagnostic server library.
//!
//! The crate holds the protocol dispatch layer (envelope codec, tool
//! registry, dispatcher) and the decision logic of the network-diagnostic
//! tools (target parsing, DNS-server parsing, latency ranking), together
//! with the pure parts of the remaining tools.  All I/O (HTTP serving, TCP
//! probes, DNS resolution, file access) is driven by a thin runner outside
//! the library, which hands plain values in and takes plain values back.

pub mod codec;
pub mod dispatch;
pub mod file_tools;
pub mod ip;
pub mod json;
pub mod json_laws;
pub mod json_parse;
pub mod json_ser;
pub mod ping;
pub mod random_string;
pub mod read_ip;
pub mod registry;
pub mod sse;
pub mod strutil;
pub mod system_tool;
pub mod time_tool;
pub mod tool_dto;
