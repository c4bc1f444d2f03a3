//! A verified container-lifecycle core: an in-memory registry of container
//! records, a persistent state-file codec with a proved round trip, a typed
//! adapter for an OCI runtime binary, and a manager that composes them into
//! lifecycle operations with rollback and startup reconciliation.
//!
//! All filesystem and subprocess work is performed by the surrounding
//! program: the library computes paths, command lines and file contents,
//! and consumes the outcomes of those effects as plain values.

pub mod codec;
pub mod container;
pub mod container_manager;
pub mod container_map;
pub mod container_runtime;
pub mod container_store;
pub mod state_codec;
pub mod text;
