//! The backends.

pub mod data_loader;
pub mod either;
pub mod embedded;
pub mod filesystem;
pub mod memory;
pub mod overlay;
pub mod symlink;
