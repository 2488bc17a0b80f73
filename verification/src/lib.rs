//! A verified model of tombstone-based entry removal for a
//! content-addressable, append-only store.
//!
//! Removing a committed entry is not a physical delete: the pipeline resolves
//! the latest version of the entry, builds a deletion entry (tombstone) that
//! references it, validates the tombstone against the active rule set,
//! appends it to the local chain, and finally records removal metadata in the
//! distributed store so that later resolutions observe the deletion.  Every
//! stage is fallible and the pipeline is fail-fast: a stage never starts
//! before its predecessor succeeded, and no stage is rolled back.

pub mod address;
pub mod assoc;
pub mod cassette;
pub mod chain;
pub mod entry;
pub mod errors;
pub mod pipeline;
pub mod system;
pub mod validation;
