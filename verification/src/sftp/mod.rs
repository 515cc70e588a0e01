//! Remote file operations planned as shell commands, and remote listings.
pub mod paths;
pub mod archive;
pub mod remote_ops;
pub mod types;
pub mod shell_listing;
pub mod session;
pub mod dialog;
pub mod write_plan;
