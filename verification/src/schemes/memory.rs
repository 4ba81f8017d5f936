//! The in-memory store: paths that name growable byte buffers.
//!
//! A node keeps the place of its buffer, and reads, writes and seeks go
//! through the store. The buffer is therefore shared between every node
//! opened on it, while each node has a cursor of its own. A buffer keeps its
//! place when its path is removed, so that a node that is still open on it
//! stays usable.

use crate::address::{parsed_url, path_set, Address, AddressView};
use crate::cursor::{
    copy_out, filled_by, read_amount, rest, seek_target, seek_to, splice, written, written_cursor,
};
use crate::errors::{NodeError, NodeFault, SchemeError, SchemeFault, SourceFault};
use crate::node::{poll_io_err, Node, SeekFrom};
use crate::scheme::{NodeEntry, NodeGetOptions, NodeMetadata, Scheme};
use crate::text::{
    ends_with_slash, has_prefix, head_to, join, last_slash, last_slash_index, slash_ended, texts,
};
use dashmap::DashMap;
use std::collections::hash_map::RandomState;
use vstd::prelude::*;

verus! {

/// `dashmap::DashMap`: a concurrent hash map. What one holds is named by
/// `stored`.
#[verifier::external_type_specification]
#[verifier::external_body]
#[verifier::reject_recursive_types(K)]
#[verifier::reject_recursive_types(V)]
#[verifier::reject_recursive_types(S)]
pub struct ExDashMap<K, V, S>(DashMap<K, V, S>);

/// The message of a listing with a path over the limit of an address.
pub const ENTRY_TOO_LONG: &'static str = "failed to rewrite path in directory entry";

/// What a `DashMap` from paths to buffer places holds.
pub uninterp spec fn stored(storage: DashMap<String, usize, RandomState>) -> Map<Seq<char>, usize>;

/// No stored paths.
pub open spec fn no_paths() -> Map<Seq<char>, usize> {
    Map::empty()
}

/// Calls `DashMap::new`: a map that holds nothing.
#[verifier::external_body]
fn store_new() -> (r: DashMap<String, usize, RandomState>)
    ensures
        stored(r) == no_paths(),
{
    DashMap::new()
}

/// Calls `DashMap::get`: the value under the key, if the map holds the key.
#[verifier::external_body]
fn store_get(storage: &DashMap<String, usize, RandomState>, key: &str) -> (r: Option<usize>)
    ensures
        r == (if stored(*storage).contains_key(key@) {
            Some(stored(*storage)[key@])
        } else {
            None
        }),
{
    storage.get(key).map(|entry| *entry.value())
}

/// Calls `DashMap::insert`: afterwards the map holds the value under the key,
/// and is otherwise as before.
#[verifier::external_body]
fn store_insert(storage: &mut DashMap<String, usize, RandomState>, key: String, value: usize)
    ensures
        stored(*final(storage)) == stored(*old(storage)).insert(key@, value),
{
    storage.insert(key, value);
}

/// Calls `DashMap::remove`: the value that was under the key, if any;
/// afterwards the map holds the key no more, and is otherwise as before.
#[verifier::external_body]
fn store_remove(storage: &mut DashMap<String, usize, RandomState>, key: &str) -> (r: Option<usize>)
    ensures
        r == (if stored(*old(storage)).contains_key(key@) {
            Some(stored(*old(storage))[key@])
        } else {
            None
        }),
        stored(*final(storage)) == stored(*old(storage)).remove(key@),
{
    storage.remove(key).map(|entry| entry.1)
}

/// Calls `DashMap::iter` and collects the keys: each key of the map once, in
/// an order that the map chooses.
#[verifier::external_body]
fn store_keys(storage: &DashMap<String, usize, RandomState>) -> (r: Vec<String>)
    ensures
        texts(r@).no_duplicates(),
        forall|key: Seq<char>| texts(r@).contains(key) <==> stored(*storage).contains_key(key),
{
    storage.iter().map(|entry| entry.key().clone()).collect()
}

/// The path prefix that a listing goes by: the path itself where it ends in a
/// slash, else the path up to its last slash, and `/` where it has none.
pub open spec fn listing_root(path: Seq<char>) -> Seq<char> {
    if slash_ended(path) {
        path
    } else if last_slash_index(path) >= 0 {
        path.take(last_slash_index(path))
    } else {
        seq!['/']
    }
}

/// An open instance of a path of the in-memory store.
#[derive(Debug)]
pub struct MemoryNode {
    buffer: usize,
    cursor: usize,
    read: bool,
    write: bool,
}

impl MemoryNode {
    /// The place of the buffer in the store.
    pub closed spec fn buffer(&self) -> nat {
        self.buffer as nat
    }

    /// Where the next read or write begins.
    pub closed spec fn cursor(&self) -> nat {
        self.cursor as nat
    }

    /// The node was opened for reading.
    pub closed spec fn reads(&self) -> bool {
        self.read
    }

    /// The node was opened for writing.
    pub closed spec fn writes(&self) -> bool {
        self.write
    }

    /// `after` is this node with its cursor at `cursor`.
    pub open spec fn moved(&self, after: &MemoryNode, cursor: nat) -> bool {
        &&& after.buffer() == self.buffer()
        &&& after.reads() == self.reads()
        &&& after.writes() == self.writes()
        &&& after.cursor() == cursor
    }
}

impl Node for MemoryNode {
    open spec fn can_read(&self) -> bool {
        self.reads()
    }

    open spec fn can_write(&self) -> bool {
        self.writes()
    }

    open spec fn can_seek(&self) -> bool {
        self.reads() || self.writes()
    }

    fn is_reader(&self) -> (r: bool) {
        self.read
    }

    fn is_writer(&self) -> (r: bool) {
        self.write
    }

    fn is_seeker(&self) -> (r: bool) {
        self.read || self.write
    }
}

/// The in-memory store.
pub struct MemoryScheme {
    storage: DashMap<String, usize, RandomState>,
    buffers: Vec<Vec<u8>>,
}

impl MemoryScheme {
    /// The stored paths, each with the place of its buffer.
    pub closed spec fn paths(&self) -> Map<Seq<char>, usize> {
        stored(self.storage)
    }

    /// The buffers, by place: those of the stored paths and those that only
    /// open nodes still hold.
    pub closed spec fn buffers(&self) -> Seq<Seq<u8>> {
        Seq::new(self.buffers@.len(), |i: int| self.buffers@[i]@)
    }

    /// What is stored under a path, if anything.
    pub open spec fn content(&self, path: Seq<char>) -> Option<Seq<u8>> {
        if self.paths().contains_key(path) && self.paths()[path] < self.buffers().len() {
            Some(self.buffers()[self.paths()[path] as int])
        } else {
            None
        }
    }

    /// What a node is open on.
    pub open spec fn content_of(&self, node: &MemoryNode) -> Seq<u8> {
        self.buffers()[node.buffer() as int]
    }

    /// A store that holds nothing.
    pub fn new() -> (r: Self)
        ensures
            r.wf(),
            r.paths() == Map::<Seq<char>, usize>::empty(),
            r.buffers() == Seq::<Seq<u8>>::empty(),
    {
        let r = MemoryScheme { storage: store_new(), buffers: Vec::new() };
        assert(r.buffers() =~= Seq::<Seq<u8>>::empty());
        r
    }
}

impl Default for MemoryScheme {
    fn default() -> (r: Self)
        ensures
            r.wf(),
            r.paths() == Map::<Seq<char>, usize>::empty(),
            r.buffers() == Seq::<Seq<u8>>::empty(),
    {
        MemoryScheme::new()
    }
}

impl Scheme for MemoryScheme {
    type Node = MemoryNode;

    /// Every stored path names a buffer.
    open spec fn wf(&self) -> bool {
        forall|path: Seq<char>| #[trigger]
            self.paths().contains_key(path) ==> self.paths()[path] < self.buffers().len()
    }

    /// The place of the node's buffer is one of this store. A node does not
    /// say which store opened it: one store's node is to be used with that
    /// store.
    open spec fn holds(&self, node: &MemoryNode) -> bool {
        node.buffer() < self.buffers().len()
    }

    /// Under a stored path: a refusal where the node must be new; else the
    /// node of its buffer, which is cleared where truncation is asked for.
    /// Under a path not stored: a refusal unless the node is to be created;
    /// else the node of a new, empty buffer. The cursor starts at the end of
    /// the content where appending is asked for, else at 0.
    open spec fn get_node_post(
        &self,
        url: AddressView,
        options: NodeGetOptions,
        after: &Self,
        r: Result<MemoryNode, SchemeError>,
    ) -> bool {
        let path = url.path;
        if self.paths().contains_key(path) {
            let place = self.paths()[path] as int;
            if options.creates_new() {
                &&& r matches Err(e) && e@ == SchemeFault::NodeAlreadyExists(path)
                &&& after.paths() == self.paths()
                &&& after.buffers() == self.buffers()
            } else {
                &&& after.paths() == self.paths()
                &&& after.buffers() == (if options.truncates() {
                    self.buffers().update(place, Seq::empty())
                } else {
                    self.buffers()
                })
                &&& r matches Ok(node) && node.buffer() == place && node.cursor() == (
                if options.appends() {
                    after.buffers()[place].len()
                } else {
                    0
                }) && node.reads() == options.reads() && node.writes() == options.writes()
            }
        } else if !options.creates() {
            &&& r matches Err(e) && e@ == SchemeFault::NodeDoesNotExist(path)
            &&& after.paths() == self.paths()
            &&& after.buffers() == self.buffers()
        } else {
            &&& after.paths() == self.paths().insert(path, self.buffers().len() as usize)
            &&& after.buffers() == self.buffers().push(Seq::empty())
            &&& r matches Ok(node) && node.buffer() == self.buffers().len() && node.cursor() == 0
                && node.reads() == options.reads() && node.writes() == options.writes()
        }
    }

    /// Under a stored path the path goes, and with `force` its buffer is
    /// cleared, which every node open on it sees. Under a path not stored:
    /// a refusal.
    open spec fn remove_node_post(
        &self,
        url: AddressView,
        force: bool,
        after: &Self,
        r: Result<(), SchemeError>,
    ) -> bool {
        let path = url.path;
        if self.paths().contains_key(path) {
            let place = self.paths()[path] as int;
            &&& r is Ok
            &&& after.paths() == self.paths().remove(path)
            &&& after.buffers() == (if force {
                self.buffers().update(place, Seq::empty())
            } else {
                self.buffers()
            })
        } else {
            &&& r matches Err(e) && e@ == SchemeFault::NodeDoesNotExist(path)
            &&& after.paths() == self.paths()
            &&& after.buffers() == self.buffers()
        }
    }

    /// A stored path is a node of the length of its content.
    open spec fn metadata_post(&self, url: AddressView, r: Result<NodeMetadata, SchemeError>) -> bool {
        match self.content(url.path) {
            Some(content) => r == Ok::<NodeMetadata, SchemeError>(
                NodeMetadata {
                    is_node: true,
                    len: Some((content.len() as usize, Some(content.len() as usize))),
                },
            ),
            None => r matches Err(e) && e@ == SchemeFault::NodeDoesNotExist(url.path),
        }
    }

    /// The stored paths that begin with the listing root of the address, each
    /// once and in no particular order, as addresses of the same scheme.
    open spec fn read_dir_post(&self, url: AddressView, r: Result<Vec<NodeEntry>, SchemeError>) -> bool {
        match parsed_url(url.scheme + seq![':'] + listing_root(url.path)) {
            None => r matches Err(e) && e@ == SchemeFault::UrlParse,
            Some(root) => if forall|key: Seq<char>| #[trigger]
                self.listed(root, key) ==> Address::path_edit(root, key).is_some() {
                r matches Ok(entries) && exists|keys: Seq<Seq<char>>|
                    {
                        &&& keys.no_duplicates()
                        &&& forall|key: Seq<char>| keys.contains(key) <==> self.listed(root, key)
                        &&& keys.len() == entries@.len()
                        &&& forall|i: int|
                            0 <= i < keys.len() ==> (#[trigger] entries@[i]).url@ == path_set(
                                root,
                                keys[i],
                            )
                    }
            } else {
                r matches Err(e) && e@ == SchemeFault::Generic(
                    Some(ENTRY_TOO_LONG@),
                    SourceFault::Unknown,
                )
            },
        }
    }

    /// A node not opened for reading is refused. Else the bytes behind the
    /// cursor go to the front of the buffer, as many as there is room for,
    /// and the cursor moves behind them. Nothing left to read is no failure.
    open spec fn read_post(
        &self,
        node: &MemoryNode,
        room: Seq<u8>,
        node_after: &MemoryNode,
        filled: Seq<u8>,
        r: Result<usize, NodeError>,
    ) -> bool {
        if !node.reads() {
            &&& r matches Err(e) && e@ == NodeFault::NotPermitted
            &&& node.moved(node_after, node.cursor())
            &&& filled == room
        } else {
            let content = self.content_of(node);
            let amount = read_amount(content.len(), node.cursor(), room.len());
            &&& r == Ok::<usize, NodeError>(amount as usize)
            &&& node.moved(node_after, node.cursor() + amount)
            &&& filled == filled_by(content, node.cursor(), room)
        }
    }

    /// A node not opened for writing is refused. Else the data is written at
    /// the cursor, as `written` says, and the cursor moves behind it.
    open spec fn write_post(
        &self,
        node: &MemoryNode,
        data: Seq<u8>,
        after: &Self,
        node_after: &MemoryNode,
        r: Result<usize, NodeError>,
    ) -> bool {
        if !node.writes() {
            &&& r matches Err(e) && e@ == NodeFault::NotPermitted
            &&& node.moved(node_after, node.cursor())
            &&& after.paths() == self.paths()
            &&& after.buffers() == self.buffers()
        } else {
            let content = self.content_of(node);
            &&& r == Ok::<usize, NodeError>(data.len() as usize)
            &&& node.moved(node_after, written_cursor(content, node.cursor(), data))
            &&& after.paths() == self.paths()
            &&& after.buffers() == self.buffers().update(
                node.buffer() as int,
                written(content, node.cursor(), data),
            )
        }
    }

    /// A node opened for neither reading nor writing is refused. Else the
    /// cursor goes where `seek_target` says.
    open spec fn seek_post(
        &self,
        node: &MemoryNode,
        pos: SeekFrom,
        node_after: &MemoryNode,
        r: Result<u64, NodeError>,
    ) -> bool {
        if !node.reads() && !node.writes() {
            &&& r matches Err(e) && e@ == NodeFault::NotPermitted
            &&& node.moved(node_after, node.cursor())
        } else {
            let target = seek_target(self.content_of(node).len(), node.cursor(), pos);
            &&& r == Ok::<u64, NodeError>(target as u64)
            &&& node.moved(node_after, target)
        }
    }

    fn owns(&self, node: &MemoryNode) -> (r: bool) {
        assert(self.buffers().len() == self.buffers@.len());
        node.buffer < self.buffers.len()
    }

    fn get_node(&mut self, url: &Address, options: &NodeGetOptions) -> (r: Result<
        MemoryNode,
        SchemeError,
    >) {
        let path = url.path();
        let ghost before = *self;
        let found = store_get(&self.storage, path);
        assert(found is Some == self.paths().contains_key(path@));
        let buffer: usize = match found {
            Some(place) => {
                if options.get_create_new() {
                    return Err(SchemeError::taken(path));
                }
                if options.get_truncate() {
                    self.buffers[place].clear();
                    assert(self.buffers() =~= before.buffers().update(place as int, Seq::empty()));
                } else {
                    assert(self.buffers() =~= before.buffers());
                }
                place
            },
            None => {
                if !options.get_create() {
                    return Err(SchemeError::missing(path));
                }
                let place = self.buffers.len();
                self.buffers.push(Vec::new());
                store_insert(&mut self.storage, path.to_owned(), place);
                assert(self.buffers() =~= before.buffers().push(Seq::empty()));
                place
            },
        };
        let cursor = if options.get_append() {
            self.buffers[buffer].len()
        } else {
            0
        };
        Ok(MemoryNode { buffer, cursor, read: options.get_read(), write: options.get_write() })
    }

    fn remove_node(&mut self, url: &Address, force: bool) -> (r: Result<(), SchemeError>) {
        let path = url.path();
        let ghost before = *self;
        assert(self.paths().contains_key(path@) ==> self.paths()[path@] < self.buffers().len());
        let found = store_remove(&mut self.storage, path);
        assert(self.paths() == before.paths().remove(path@));
        assert(found is Some == before.paths().contains_key(path@));
        assert(self.buffers() =~= before.buffers());
        proof {
            if found is None {
                assert(before.paths().remove(path@) =~= before.paths());
            }
        }
        match found {
            Some(place) => {
                if force {
                    self.buffers[place] = Vec::new();
                    assert(self.buffers() =~= before.buffers().update(place as int, Seq::empty()));
                } else {
                    assert(self.buffers() =~= before.buffers());
                }
                Ok(())
            },
            None => Err(SchemeError::missing(path)),
        }
    }

    fn metadata(&self, url: &Address) -> (r: Result<NodeMetadata, SchemeError>) {
        let path = url.path();
        let found = store_get(&self.storage, path);
        assert(found is Some == self.paths().contains_key(path@));
        match found {
            Some(place) => {
                let size = self.buffers[place].len();
                Ok(NodeMetadata { is_node: true, len: Some((size, Some(size))) })
            },
            None => Err(SchemeError::missing(path)),
        }
    }

    fn read_dir(&self, url: &Address) -> (r: Result<Vec<NodeEntry>, SchemeError>) {
        let path = url.path();
        let prefix: String = if ends_with_slash(path) {
            path.to_owned()
        } else {
            match last_slash(path) {
                Some(place) => head_to(path, place).to_owned(),
                None => {
                    proof {
                        reveal_strlit("/");
                        assert("/"@ =~= seq!['/']);
                    }
                    "/".to_owned()
                },
            }
        };
        proof {
            reveal_strlit(":");
            assert(":"@ =~= seq![':']);
        }
        let head = join(url.scheme(), ":");
        let text = join(head.as_str(), prefix.as_str());
        let root = match Address::parse(text.as_str()) {
            Ok(root) => root,
            Err(reason) => {
                return Err(SchemeError::UrlParseError(reason));
            },
        };
        assert(text@ =~= url@.scheme + seq![':'] + listing_root(url@.path));
        assert(parsed_url(url@.scheme + seq![':'] + listing_root(url@.path)) == Some(root@));
        let keys = store_keys(&self.storage);
        let ghost all = texts(keys@);
        let mut entries: Vec<NodeEntry> = Vec::new();
        let ghost mut picked: Seq<Seq<char>> = Seq::empty();
        let mut i: usize = 0;
        while i < keys.len()
            invariant
                i <= keys@.len(),
                all == texts(keys@),
                parsed_url(url@.scheme + seq![':'] + listing_root(url@.path)) == Some(root@),
                all.no_duplicates(),
                forall|key: Seq<char>| all.contains(key) <==> self.paths().contains_key(key),
                picked.no_duplicates(),
                picked.len() == entries@.len(),
                forall|k: int|
                    0 <= k < picked.len() ==> (#[trigger] entries@[k]).url@ == path_set(
                        root@,
                        picked[k],
                    ),
                forall|key: Seq<char>|
                    picked.contains(key) <==> (exists|j: int|
                        0 <= j < i && #[trigger] all[j] == key && self.listed(root@, key)),
                forall|j: int|
                    0 <= j < i && self.listed(root@, #[trigger] all[j]) ==> Address::path_edit(
                        root@,
                        all[j],
                    ).is_some(),
            decreases keys@.len() - i,
        {
            let key = keys[i].as_str();
            assert(all[i as int] == key@);
            assert(all.contains(key@));
            if has_prefix(key, root.path()) {
                match root.with_path(key) {
                    Some(entry) => {
                        proof {
                            if picked.contains(key@) {
                                let j = choose|j: int|
                                    0 <= j < i && #[trigger] all[j] == key@ && self.listed(
                                        root@,
                                        key@,
                                    );
                                assert(all[j] == all[i as int]);
                            }
                            let grown = picked.push(key@);
                            assert forall|other: Seq<char>| grown.contains(other) <==> (exists|
                                j: int,
                            |
                                0 <= j < i + 1 && #[trigger] all[j] == other && self.listed(
                                    root@,
                                    other,
                                )) by {
                                if grown.contains(other) {
                                    let k = choose|k: int| 0 <= k < grown.len() && grown[k] == other;
                                    if k < picked.len() {
                                        assert(picked.contains(other));
                                    } else {
                                        assert(all[i as int] == other);
                                    }
                                }
                                if exists|j: int|
                                    0 <= j < i + 1 && #[trigger] all[j] == other && self.listed(
                                        root@,
                                        other,
                                    ) {
                                    let j = choose|j: int|
                                        0 <= j < i + 1 && #[trigger] all[j] == other
                                            && self.listed(root@, other);
                                    if j < i {
                                        assert(picked.contains(other));
                                        let k = choose|k: int|
                                            0 <= k < picked.len() && picked[k] == other;
                                        assert(grown[k] == other);
                                    } else {
                                        assert(grown[picked.len() as int] == other);
                                    }
                                }
                            }
                            picked = grown;
                        }
                        entries.push(NodeEntry { url: entry });
                    },
                    None => {
                        assert(self.listed(root@, key@));
                        assert(Address::path_edit(root@, key@).is_none());
                        assert(!(forall|other: Seq<char>| #[trigger]
                            self.listed(root@, other) ==> Address::path_edit(
                                root@,
                                other,
                            ).is_some()));
                        let refusal = SchemeError::message(ENTRY_TOO_LONG);
                        assert(refusal@ == SchemeFault::Generic(
                            Some(ENTRY_TOO_LONG@),
                            SourceFault::Unknown,
                        ));
                        return Err(refusal);
                    },
                }
            } else {
                proof {
                    assert forall|other: Seq<char>| picked.contains(other) <==> (exists|j: int|
                        0 <= j < i + 1 && #[trigger] all[j] == other && self.listed(
                            root@,
                            other,
                        )) by {
                        if exists|j: int|
                            0 <= j < i + 1 && #[trigger] all[j] == other && self.listed(
                                root@,
                                other,
                            ) {
                            let j = choose|j: int|
                                0 <= j < i + 1 && #[trigger] all[j] == other && self.listed(
                                    root@,
                                    other,
                                );
                            assert(j < i);
                        }
                    }
                }
            }
            i += 1;
        }
        proof {
            assert forall|key: Seq<char>| picked.contains(key) <==> self.listed(root@, key) by {
                if self.listed(root@, key) {
                    assert(all.contains(key));
                    let j = choose|j: int| 0 <= j < all.len() && all[j] == key;
                    assert(all[j] == key);
                }
            }
            assert forall|key: Seq<char>| #[trigger] self.listed(root@, key) implies Address::path_edit(
                root@,
                key,
            ).is_some() by {
                assert(all.contains(key));
                let j = choose|j: int| 0 <= j < all.len() && all[j] == key;
                assert(self.listed(root@, all[j]));
            }
        }
        Ok(entries)
    }

    fn read(&self, node: &mut MemoryNode, buf: &mut [u8]) -> (r: Result<usize, NodeError>) {
        if !node.read {
            return poll_io_err();
        }
        assert(self.buffers().len() == self.buffers@.len());
        let amount = copy_out(&self.buffers[node.buffer], node.cursor, buf);
        node.cursor = node.cursor + amount;
        Ok(amount)
    }

    fn write(&mut self, node: &mut MemoryNode, data: &[u8]) -> (r: Result<usize, NodeError>) {
        if !node.write {
            return poll_io_err();
        }
        let ghost before = *self;
        assert(self.buffers().len() == self.buffers@.len());
        let ghost content = self.buffers()[node.buffer as int];
        let old_len = self.buffers[node.buffer].len();
        splice(&mut self.buffers[node.buffer], node.cursor, data);
        assert(self.buffers() =~= before.buffers().update(
            node.buffer as int,
            written(content, node.cursor as nat, data@),
        ));
        assert(self.paths() == before.paths());
        assert(self.buffers().len() == before.buffers().len());
        assert forall|path: Seq<char>| #[trigger] self.paths().contains_key(path) implies self.paths()[path]
            < self.buffers().len() by {
            assert(before.paths().contains_key(path));
        }
        let new_len = self.buffers[node.buffer].len();
        assert(new_len == written(content, node.cursor as nat, data@).len());
        node.cursor = if node.cursor >= old_len {
            new_len
        } else {
            assert(node.cursor + data@.len() <= new_len);
            node.cursor + data.len()
        };
        Ok(data.len())
    }

    fn seek(&self, node: &mut MemoryNode, pos: SeekFrom) -> (r: Result<u64, NodeError>) {
        if !node.read && !node.write {
            return poll_io_err();
        }
        assert(self.buffers().len() == self.buffers@.len());
        node.cursor = seek_to(self.buffers[node.buffer].len(), node.cursor, pos);
        Ok(node.cursor as u64)
    }
}

impl MemoryScheme {
    /// A stored path that a listing under `root` shows.
    pub open spec fn listed(&self, root: AddressView, key: Seq<char>) -> bool {
        self.paths().contains_key(key) && root.path.is_prefix_of(key)
    }

    /// Reads all that is left behind the cursor of a node and appends it to
    /// `out`; the cursor ends behind the content. A node not opened for
    /// reading is refused.
    pub fn read_to_end(&self, node: &mut MemoryNode, out: &mut Vec<u8>) -> (r: Result<
        usize,
        NodeError,
    >)
        requires
            self.wf(),
            self.holds(old(node)),
        ensures
            self.holds(final(node)),
            !old(node).reads() ==> (r matches Err(e) && e@ == NodeFault::NotPermitted) && old(
                node,
            ).moved(final(node), old(node).cursor()) && final(out)@ == old(out)@,
            old(node).reads() ==> {
                let left = rest(self.content_of(old(node)), old(node).cursor());
                &&& r == Ok::<usize, NodeError>(left.len() as usize)
                &&& final(out)@ == old(out)@ + left
                &&& old(node).moved(final(node), old(node).cursor() + left.len())
            },
    {
        if !node.read {
            return poll_io_err();
        }
        assert(self.buffers().len() == self.buffers@.len());
        let content = &self.buffers[node.buffer];
        let total = content.len();
        let start = node.cursor;
        if start >= total {
            assert(out@ =~= old(out)@ + Seq::<u8>::empty());
            return Ok(0);
        }
        while node.cursor < total
            invariant
                start <= node.cursor <= total,
                total == content@.len(),
                node.buffer == old(node).buffer,
                node.read == old(node).read,
                node.write == old(node).write,
                out@ == old(out)@ + content@.subrange(start as int, node.cursor as int),
            decreases total - node.cursor,
        {
            out.push(content[node.cursor]);
            node.cursor += 1;
            assert(out@ =~= old(out)@ + content@.subrange(start as int, node.cursor as int));
        }
        assert(content@.subrange(start as int, total as int) =~= content@.skip(start as int));
        Ok(total - start)
    }

    /// A node that must be new is refused under a stored path, with the
    /// failure that the path exists already. Under a path not stored it is
    /// opened, and the path is stored afterwards, with nothing in it.
    pub proof fn lemma_create_new(
        before: MemoryScheme,
        after: MemoryScheme,
        url: AddressView,
        options: NodeGetOptions,
        r: Result<MemoryNode, SchemeError>,
    )
        requires
            before.wf(),
            options.wf(),
            options.creates_new(),
            before.get_node_post(url, options, &after, r),
        ensures
            before.paths().contains_key(url.path) ==> (r matches Err(e) && e@
                == SchemeFault::NodeAlreadyExists(url.path)),
            !before.paths().contains_key(url.path) ==> r is Ok && after.paths().contains_key(
                url.path,
            ) && after.content(url.path) == Some(Seq::<u8>::empty()),
    {
    }

    /// What is written to a node that was opened with `create` is what is
    /// read back from its start to its end, and what the path then holds.
    ///
    /// This is so where the node begins empty or shorter than what is
    /// written: the path was not stored, or was truncated, or held nothing,
    /// or held no more than what is written and the cursor began at 0.
    pub proof fn lemma_round_trip(
        before: MemoryScheme,
        opened: MemoryScheme,
        filled: MemoryScheme,
        url: AddressView,
        options: NodeGetOptions,
        bytes: Seq<u8>,
        node: MemoryNode,
        node_written: MemoryNode,
        node_rewound: MemoryNode,
        r_write: Result<usize, NodeError>,
        r_seek: Result<u64, NodeError>,
    )
        requires
            before.wf(),
            options.wf(),
            options.creates(),
            match before.content(url.path) {
                None => true,
                Some(held) => options.truncates() || held.len() == 0 || (!options.appends()
                    && held.len() <= bytes.len()),
            },
            before.get_node_post(url, options, &opened, Ok(node)),
            opened.write_post(&node, bytes, &filled, &node_written, r_write),
            filled.seek_post(&node_written, SeekFrom::Start(0), &node_rewound, r_seek),
        ensures
            r_write == Ok::<usize, NodeError>(bytes.len() as usize),
            r_seek == Ok::<u64, NodeError>(0),
            node_rewound.cursor() == 0,
            rest(filled.content_of(&node_rewound), node_rewound.cursor()) == bytes,
            filled.content(url.path) == Some(bytes),
    {
        let content = opened.content_of(&node);
        let stored = written(content, node.cursor(), bytes);
        assert(stored =~= bytes);
        assert(filled.content_of(&node_rewound) == stored);
        assert(stored.skip(0) =~= stored);
    }

    /// A node that is open on a path sees the path removed by force: its
    /// next read finds nothing to read, and is no failure.
    pub proof fn lemma_forced_removal_seen(
        before: MemoryScheme,
        after: MemoryScheme,
        url: AddressView,
        node: MemoryNode,
        r_remove: Result<(), SchemeError>,
        room: Seq<u8>,
        node_after: MemoryNode,
        read: Seq<u8>,
        r_read: Result<usize, NodeError>,
    )
        requires
            before.wf(),
            before.paths().contains_key(url.path),
            before.paths()[url.path] == node.buffer(),
            node.reads(),
            before.remove_node_post(url, true, &after, r_remove),
            after.read_post(&node, room, &node_after, read, r_read),
        ensures
            r_remove is Ok,
            r_read == Ok::<usize, NodeError>(0),
            read == room,
    {
    }
}

} // verus!
