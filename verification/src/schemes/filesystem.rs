//! The rules of the scheme that maps addresses onto a directory of the
//! platform's file system. What touches the file system itself is not here.

use crate::address::Address;
use crate::errors::{SchemeError, SchemeFault};
use crate::scheme::NodeGetOptions;
use crate::text::{path_segments, split_segments, texts};
use vstd::prelude::*;

verus! {

/// What lies at a place of the file system.
#[derive(Debug, Clone, Copy, PartialEq, Eq)]
pub enum PathKind {
    Missing,
    File,
    Directory,
    Other,
}

/// What a removal does to the file system.
#[derive(Debug, Clone, Copy, PartialEq, Eq)]
pub enum Removal {
    Nothing,
    File,
    Directory,
    DirectoryAndContents,
}

/// The scheme of the files under a root directory.
#[derive(Debug)]
pub struct TokioFileSystemScheme {
    root_path: String,
}

impl TokioFileSystemScheme {
    /// The root directory.
    pub closed spec fn root(&self) -> Seq<char> {
        self.root_path@
    }

    /// The scheme of the files under `root_path`.
    pub fn new(root_path: String) -> (r: Self)
        ensures
            r.root() == root_path@,
    {
        TokioFileSystemScheme { root_path }
    }

    /// The root directory.
    pub fn root_path(&self) -> (r: &str)
        ensures
            r@ == self.root(),
    {
        self.root_path.as_str()
    }

    /// The names that lead from the root directory to the place of an
    /// address: the segments of its path. An address without segments has no
    /// place.
    pub fn fs_path_from_url(&self, url: &Address) -> (r: Result<Vec<String>, SchemeError>)
        ensures
            match path_segments(url@.path) {
                Some(segments) => r matches Ok(parts) && texts(parts@) == segments,
                None => r matches Err(e) && e@ == SchemeFault::NodeDoesNotExist(url@.path),
            },
    {
        match split_segments(url.path()) {
            Some(parts) => Ok(parts),
            None => Err(SchemeError::missing(url.path())),
        }
    }

    /// Whether the directories above a node are made before it is opened:
    /// where the node may be created.
    pub fn creates_parent(options: &NodeGetOptions) -> (r: bool)
        ensures
            r == options.creates(),
    {
        options.get_create()
    }

    /// What a removal does: a file goes; a directory goes with its contents
    /// where `force` is set, else only if it is empty; nothing else is
    /// touched.
    pub fn removal(kind: PathKind, force: bool) -> (r: Removal)
        ensures
            r == (match kind {
                PathKind::File => Removal::File,
                PathKind::Directory => if force {
                    Removal::DirectoryAndContents
                } else {
                    Removal::Directory
                },
                _ => Removal::Nothing,
            }),
    {
        match kind {
            PathKind::File => Removal::File,
            PathKind::Directory => {
                if force {
                    Removal::DirectoryAndContents
                } else {
                    Removal::Directory
                }
            },
            PathKind::Missing => Removal::Nothing,
            PathKind::Other => Removal::Nothing,
        }
    }
}

} // verus!
