//! Store implementations.
pub mod merging_btree;
pub mod naive_btree;

pub use merging_btree::MergingBTree;
pub use naive_btree::NaiveBTree;
