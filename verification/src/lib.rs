//! Safe marshalling and bookkeeping layer for a handle-based native
//! networking resource (a multi-link transport endpoint and a companion
//! virtual-interface device).
//!
//! The crate owns the logic that sits between application code and the
//! native library: fixed-size byte buffers are converted to and from
//! strings, native flag words and enumerated constants are given typed
//! representations, live handles are tracked so that use after close is
//! rejected deterministically, configuration records and ordered ACL
//! lists are encoded and decoded, and native callback arguments are
//! decoded defensively before they reach user code.  The transport,
//! crypto and forwarding work itself stays in the native library.

pub mod acl;
pub mod bridge;
pub mod config;
pub mod errors;
pub mod flags;
pub mod logging;
pub mod nozzle;
pub mod registry;
pub mod strings;

pub use errors::ErrorKind;
pub use registry::{Handle, HostId, Registry};
