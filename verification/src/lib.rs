pub mod scanner;
pub mod treemap;
pub mod path;
pub mod sort;
pub mod sums;
pub mod snapshot;
pub mod text;
pub mod platform;
pub mod ui;
pub mod navigation;
