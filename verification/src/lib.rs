//! A virtual filesystem layer: storage backends ("schemes") addressed by URL,
//! with open-mode flags, an in-memory store, a union-mount overlay and a
//! prefix-tree of symbolic links.

pub mod address;
pub mod cursor;
pub mod errors;
pub mod node;
pub mod scheme;
pub mod schemes;
pub mod text;
pub mod vfs;

pub use crate::address::{Address, AddressView};
pub use crate::errors::{ErrorSource, NodeError, SchemeError, VfsError};
pub use crate::node::{poll_io_err, IsAllowed, Node, SeekFrom};
pub use crate::schemes::data_loader::{DataLoaderNode, DataLoaderScheme};
pub use crate::schemes::either::{EitherNode, EitherScheme};
pub use crate::schemes::embedded::EmbeddedNode;
pub use crate::schemes::filesystem::{PathKind, Removal, TokioFileSystemScheme};
pub use crate::schemes::memory::{MemoryNode, MemoryScheme};
pub use crate::schemes::overlay::{OverlayAccess, OverlayNode, OverlayScheme, OverlaySchemeBuilder};
pub use crate::schemes::symlink::{SymLinkScheme, SymLinkSchemeBuilder, SymLinkTreeNode};
pub use crate::vfs::{Mount, Vfs, VfsNode};
pub use crate::scheme::{NodeEntry, NodeGetOptions, NodeMetadata, Scheme};
