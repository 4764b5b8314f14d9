//! A compiler output cache: classify compiler invocations, fingerprint them
//! over their preprocessed source, and serve repeated compilations from a
//! bounded least-recently-used store of artifact bundles.
//!
//! The crate holds the cache-coordination engine: the argument classifier,
//! the compiler adapter, the fingerprint, the storage core with its byte
//! accounting and eviction, the artifact bundle, the wire protocol's shape,
//! and the daemon's request handling and statistics. Process spawning, file
//! and network transport live with the embedding program, which drives them
//! through these interfaces.

pub mod strutil;
pub mod config;
pub mod classify;
pub mod adapter;
pub mod splitter;
pub mod store;
pub mod fingerprint;
pub mod bundle;
pub mod stats;
pub mod protocol;
pub mod respfile;
pub mod mock_exec;
pub mod server;
pub mod cmdline;
