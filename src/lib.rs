//! Framing, session control and GPU inventory rules of a streaming agent.
//!
//! `frame` turns payloads into length-prefixed frames and back; `session`
//! decides what the read and write loops of a protocol session do;
//! `registry` maps message kinds to their handlers; `gpu` and `pci` read the
//! GPU inventory and pick GPUs from it; `text` holds the text routines they share.
pub mod args;
pub mod frame;
pub mod gpu;
pub mod pci;
pub mod registry;
pub mod session;
pub mod text;
