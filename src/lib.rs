//! Optimistic transactions over a pluggable, copy-on-write key-value store.
//!
//! A [`Quadrille`] handle shares one [`AtomicRoot`], the single slot that holds
//! the current snapshot. A [`Transation`] reads and writes its own working
//! snapshot and publishes it with a version-conditioned swap, folding its
//! writes onto newer versions through the store's `resolve` when it loses a
//! race.
pub mod laws;
pub mod root;
pub mod store;
pub mod stores;
pub mod transaction;

pub use root::{AtomicRoot, Basis};
pub use store::{KVStore, QuadrilleError};
pub use transaction::{Quadrille, Transation};
