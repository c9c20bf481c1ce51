//! Host side of a sandboxed key-value capability: guest memory marshaling,
//! the capability store, the host bindings and the per-request orchestration.
pub mod memory;
pub mod store;
pub mod bindings;
pub mod guest;
pub mod orchestrator;
