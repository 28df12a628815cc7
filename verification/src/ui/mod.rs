pub mod breadcrumb;
pub mod comparison;
pub mod info_panel;
pub mod snapshot_dialog;
