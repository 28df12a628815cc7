pub mod error;
pub mod types;
pub mod walker;

pub use error::ScanError;
pub use types::{AggThresholds, DirNode, Entry, FileEntry, OthersEntry, ScanEvent};
pub use walker::{DirScan};
pub use crate::treemap::renderer::format_size;
