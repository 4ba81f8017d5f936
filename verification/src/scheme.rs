//! The vocabulary shared by every backend: open-mode flags and node metadata.

use crate::address::{Address, AddressView};
use crate::errors::{NodeError, SchemeError};
use crate::node::SeekFrom;
use vstd::prelude::*;

verus! {

/// What a backend knows about one address.
#[derive(Debug, Clone, Copy, PartialEq, Eq)]
pub struct NodeMetadata {
    /// True when `get_node` should usually give a node for the address; false for
    /// a directory-like container.
    pub is_node: bool,
    /// The length of the data where it is knowable: the shortest possible, and
    /// the longest possible where that is knowable too.
    pub len: Option<(usize, Option<usize>)>,
}

/// One element of a directory listing.
#[derive(Debug)]
pub struct NodeEntry {
    pub url: Address,
}

/// The open mode of a node, with the same meaning as the flags of a POSIX `open`.
///
/// Three implications hold of every value: `truncate` implies `write`, `create`
/// implies `write`, and `create_new` implies both `write` and `create`.
#[derive(Debug, Clone, Copy)]
pub struct NodeGetOptions {
    read: bool,
    write: bool,
    append: bool,
    truncate: bool,
    create: bool,
    create_new: bool,
}

impl NodeGetOptions {
    #[verifier::type_invariant]
    spec fn flags_agree(self) -> bool {
        &&& self.truncate ==> self.write
        &&& self.create ==> self.write
        &&& self.create_new ==> self.write && self.create
    }

    /// The node is opened for reading.
    pub closed spec fn reads(&self) -> bool {
        self.read
    }

    /// The node is opened for writing.
    pub closed spec fn writes(&self) -> bool {
        self.write
    }

    /// The cursor starts at the end of the content.
    pub closed spec fn appends(&self) -> bool {
        self.append
    }

    /// Existing content is cleared on open.
    pub closed spec fn truncates(&self) -> bool {
        self.truncate
    }

    /// A missing node is created.
    pub closed spec fn creates(&self) -> bool {
        self.create
    }

    /// The node must not exist yet.
    pub closed spec fn creates_new(&self) -> bool {
        self.create_new
    }

    /// The three implications between the flags.
    pub open spec fn wf(&self) -> bool {
        &&& self.truncates() ==> self.writes()
        &&& self.creates() ==> self.writes()
        &&& self.creates_new() ==> self.writes() && self.creates()
    }

    /// All flags off.
    pub fn new() -> (r: Self)
        ensures
            !r.reads(),
            !r.writes(),
            !r.appends(),
            !r.truncates(),
            !r.creates(),
            !r.creates_new(),
            r.wf(),
    {
        NodeGetOptions {
            read: false,
            write: false,
            append: false,
            truncate: false,
            create: false,
            create_new: false,
        }
    }

    /// Whether the node is opened for reading.
    pub fn get_read(&self) -> (r: bool)
        ensures
            r == self.reads(),
    {
        self.read
    }

    /// Whether the node is opened for writing.
    pub fn get_write(&self) -> (r: bool)
        ensures
            r == self.writes(),
    {
        self.write
    }

    /// Whether the cursor starts at the end of the content.
    pub fn get_append(&self) -> (r: bool)
        ensures
            r == self.appends(),
    {
        self.append
    }

    /// Whether existing content is cleared on open.
    pub fn get_truncate(&self) -> (r: bool)
        ensures
            r == self.truncates(),
    {
        self.truncate
    }

    /// Whether a missing node is created.
    pub fn get_create(&self) -> (r: bool)
        ensures
            r == self.creates(),
    {
        self.create
    }

    /// Whether the node must not exist yet.
    pub fn get_create_new(&self) -> (r: bool)
        ensures
            r == self.creates_new(),
    {
        self.create_new
    }

    /// Sets `read`; the other flags stay.
    pub fn read(self, read: bool) -> (r: Self)
        ensures
            r.reads() == read,
            r.writes() == self.writes(),
            r.appends() == self.appends(),
            r.truncates() == self.truncates(),
            r.creates() == self.creates(),
            r.creates_new() == self.creates_new(),
            r.wf(),
    {
        proof {
            use_type_invariant(&self);
        }
        NodeGetOptions { read, ..self }
    }

    /// Sets `write`, which stays on while a flag that implies it is on; the
    /// other flags stay.
    pub fn write(self, write: bool) -> (r: Self)
        ensures
            r.writes() == (write || self.truncates() || self.creates() || self.creates_new()),
            r.reads() == self.reads(),
            r.appends() == self.appends(),
            r.truncates() == self.truncates(),
            r.creates() == self.creates(),
            r.creates_new() == self.creates_new(),
            r.wf(),
    {
        proof {
            use_type_invariant(&self);
        }
        let write = write || self.truncate || self.create || self.create_new;
        NodeGetOptions { write, ..self }
    }

    /// Sets `append`; the other flags stay.
    pub fn append(self, append: bool) -> (r: Self)
        ensures
            r.appends() == append,
            r.reads() == self.reads(),
            r.writes() == self.writes(),
            r.truncates() == self.truncates(),
            r.creates() == self.creates(),
            r.creates_new() == self.creates_new(),
            r.wf(),
    {
        proof {
            use_type_invariant(&self);
        }
        NodeGetOptions { append, ..self }
    }

    /// Sets `truncate`, and `write` with it when it is switched on.
    pub fn truncate(self, truncate: bool) -> (r: Self)
        ensures
            r.truncates() == truncate,
            r.writes() == (truncate || self.writes()),
            r.reads() == self.reads(),
            r.appends() == self.appends(),
            r.creates() == self.creates(),
            r.creates_new() == self.creates_new(),
            r.wf(),
    {
        proof {
            use_type_invariant(&self);
        }
        let write = if truncate {
            true
        } else {
            self.write
        };
        NodeGetOptions { write, truncate, ..self }
    }

    /// Sets `create`, which stays on while `create_new` is on, and `write` with
    /// it when it is on.
    pub fn create(self, create: bool) -> (r: Self)
        ensures
            r.creates() == (create || self.creates_new()),
            r.writes() == (create || self.writes()),
            r.reads() == self.reads(),
            r.appends() == self.appends(),
            r.truncates() == self.truncates(),
            r.creates_new() == self.creates_new(),
            r.wf(),
    {
        proof {
            use_type_invariant(&self);
        }
        let create = create || self.create_new;
        let write = if create {
            true
        } else {
            self.write
        };
        NodeGetOptions { write, create, ..self }
    }

    /// Sets `create_new`, and `write` and `create` with it when it is switched on.
    pub fn create_new(self, create_new: bool) -> (r: Self)
        ensures
            r.creates_new() == create_new,
            r.writes() == (create_new || self.writes()),
            r.creates() == (create_new || self.creates()),
            r.reads() == self.reads(),
            r.appends() == self.appends(),
            r.truncates() == self.truncates(),
            r.wf(),
    {
        proof {
            use_type_invariant(&self);
        }
        let (write, create) = if create_new {
            (true, true)
        } else {
            (self.write, self.create)
        };
        NodeGetOptions { write, create, create_new, ..self }
    }
}

impl Default for NodeGetOptions {
    fn default() -> (r: Self)
        ensures
            !r.reads(),
            !r.writes(),
            !r.appends(),
            !r.truncates(),
            !r.creates(),
            !r.creates_new(),
    {
        NodeGetOptions::new()
    }
}

/// A backend: it opens, removes, describes and lists what is stored under
/// addresses, and reads, writes and moves within what it has opened.
///
/// Each operation comes with a relation of the same name and the ending
/// `_post`, which says what the operation may do and return. An
/// implementation defines the relation and shows that it keeps to it.
pub trait Scheme: Sized {
    /// An open instance of a path of this backend.
    type Node;

    /// The backend is in order.
    spec fn wf(&self) -> bool;

    /// The node was opened by this backend and can still be used with it.
    spec fn holds(&self, node: &Self::Node) -> bool;

    /// What `get_node` may do.
    spec fn get_node_post(
        &self,
        url: AddressView,
        options: NodeGetOptions,
        after: &Self,
        r: Result<Self::Node, SchemeError>,
    ) -> bool;

    /// What `remove_node` may do.
    spec fn remove_node_post(
        &self,
        url: AddressView,
        force: bool,
        after: &Self,
        r: Result<(), SchemeError>,
    ) -> bool;

    /// What `metadata` may return.
    spec fn metadata_post(&self, url: AddressView, r: Result<NodeMetadata, SchemeError>) -> bool;

    /// What `read_dir` may return.
    spec fn read_dir_post(&self, url: AddressView, r: Result<Vec<NodeEntry>, SchemeError>) -> bool;

    /// What `read` may do: `room` is the buffer before and `filled` after.
    spec fn read_post(
        &self,
        node: &Self::Node,
        room: Seq<u8>,
        node_after: &Self::Node,
        filled: Seq<u8>,
        r: Result<usize, NodeError>,
    ) -> bool;

    /// What `write` may do.
    spec fn write_post(
        &self,
        node: &Self::Node,
        data: Seq<u8>,
        after: &Self,
        node_after: &Self::Node,
        r: Result<usize, NodeError>,
    ) -> bool;

    /// What `seek` may do.
    spec fn seek_post(
        &self,
        node: &Self::Node,
        pos: SeekFrom,
        node_after: &Self::Node,
        r: Result<u64, NodeError>,
    ) -> bool;

    /// Whether a node was opened by this backend and can still be used with
    /// it.
    fn owns(&self, node: &Self::Node) -> (r: bool)
        requires
            self.wf(),
        ensures
            r == self.holds(node),
    ;

    /// Opens the node under an address in the mode that the options ask for.
    fn get_node(&mut self, url: &Address, options: &NodeGetOptions) -> (r: Result<
        Self::Node,
        SchemeError,
    >)
        requires
            old(self).wf(),
        ensures
            final(self).wf(),
            old(self).get_node_post(url@, *options, final(self), r),
            r matches Ok(node) ==> final(self).holds(&node),
            forall|n: Self::Node| #[trigger] old(self).holds(&n) ==> final(self).holds(&n),
    ;

    /// Removes what is stored under an address. What `force` means is up to
    /// the backend.
    fn remove_node(&mut self, url: &Address, force: bool) -> (r: Result<(), SchemeError>)
        requires
            old(self).wf(),
        ensures
            final(self).wf(),
            old(self).remove_node_post(url@, force, final(self), r),
            forall|n: Self::Node| #[trigger] old(self).holds(&n) ==> final(self).holds(&n),
    ;

    /// Says what is known of an address.
    fn metadata(&self, url: &Address) -> (r: Result<NodeMetadata, SchemeError>)
        requires
            self.wf(),
        ensures
            self.metadata_post(url@, r),
    ;

    /// Lists the nodes that belong to an address. Depending on the backend
    /// the list may hold duplicates and containers that are no nodes.
    fn read_dir(&self, url: &Address) -> (r: Result<Vec<NodeEntry>, SchemeError>)
        requires
            self.wf(),
        ensures
            self.read_dir_post(url@, r),
    ;

    /// Reads from the cursor of a node into a buffer and moves the cursor on.
    fn read(&self, node: &mut Self::Node, buf: &mut [u8]) -> (r: Result<usize, NodeError>)
        requires
            self.wf(),
            self.holds(old(node)),
        ensures
            self.holds(final(node)),
            self.read_post(old(node), old(buf)@, final(node), final(buf)@, r),
    ;

    /// Writes at the cursor of a node and moves the cursor on.
    fn write(&mut self, node: &mut Self::Node, data: &[u8]) -> (r: Result<usize, NodeError>)
        requires
            old(self).wf(),
            old(self).holds(old(node)),
        ensures
            final(self).wf(),
            final(self).holds(final(node)),
            old(self).write_post(old(node), data@, final(self), final(node), r),
            forall|n: Self::Node| #[trigger] old(self).holds(&n) ==> final(self).holds(&n),
    ;

    /// Moves the cursor of a node.
    fn seek(&self, node: &mut Self::Node, pos: SeekFrom) -> (r: Result<u64, NodeError>)
        requires
            self.wf(),
            self.holds(old(node)),
        ensures
            self.holds(final(node)),
            self.seek_post(old(node), pos, final(node), r),
    ;
}

} // verus!
