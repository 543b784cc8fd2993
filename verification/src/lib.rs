//! Client-side core of a remote scene-graph protocol: local `Node` proxies
//! stand for server-owned objects addressed by absolute `/`-separated paths,
//! a `Scenegraph` registry routes inbound signals and method calls to them,
//! and a `Messenger` records outbound frames and correlates method calls
//! with their responses.  All state is explicit; the surrounding runtime
//! performs the actual transport I/O and hands events back in.

pub mod client;
pub mod data;
pub mod fields;
pub mod flex;
pub mod ids;
pub mod messenger;
pub mod node;
pub mod handler;
pub mod scenegraph;
pub mod spatial;
