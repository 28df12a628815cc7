pub mod diff;
pub mod storage;

pub use diff::{diff_level, diff_trees_recursive, entry_name, ChangeType, DiffNode};
