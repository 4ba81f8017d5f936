//! Assets that are built into the program: the rules of their scheme, and
//! the nodes over them. The table of assets itself is handed in.

use crate::address::{parsed_url, Address, AddressView};
use crate::cursor::{copy_out, filled_by, read_amount, seek_target, seek_to};
use crate::errors::{NodeError, NodeFault, SchemeError, SchemeFault, SourceFault};
use crate::node::{poll_io_err, Node, SeekFrom};
use crate::scheme::{NodeEntry, NodeGetOptions, NodeMetadata};
use crate::text::{
    ends_with_slash, has_prefix, head_to, join, last_slash, last_slash_index, slash_ended,
    tail_from, texts,
};
use vstd::prelude::*;

verus! {

/// An asset, open for reading.
#[derive(Debug)]
pub struct EmbeddedNode {
    data: Vec<u8>,
    cursor: usize,
}

impl EmbeddedNode {
    /// The asset.
    pub closed spec fn data(&self) -> Seq<u8> {
        self.data@
    }

    /// Where the next read begins.
    pub closed spec fn cursor(&self) -> nat {
        self.cursor as nat
    }

    /// A node at the start of an asset.
    pub fn new(data: Vec<u8>) -> (r: Self)
        ensures
            r.data() == data@,
            r.cursor() == 0,
    {
        EmbeddedNode { data, cursor: 0 }
    }

    /// The bytes behind the cursor go to the front of the buffer, as many as
    /// there is room for, and the cursor moves behind them.
    pub fn read(&mut self, buf: &mut [u8]) -> (r: Result<usize, NodeError>)
        ensures
            r == Ok::<usize, NodeError>(
                read_amount(old(self).data().len(), old(self).cursor(), old(buf)@.len()) as usize,
            ),
            final(self).data() == old(self).data(),
            final(self).cursor() == old(self).cursor() + read_amount(
                old(self).data().len(),
                old(self).cursor(),
                old(buf)@.len(),
            ),
            final(buf)@ == filled_by(old(self).data(), old(self).cursor(), old(buf)@),
    {
        let amount = copy_out(&self.data, self.cursor, buf);
        self.cursor = self.cursor + amount;
        Ok(amount)
    }

    /// An asset cannot be written.
    pub fn write(&mut self, data: &[u8]) -> (r: Result<usize, NodeError>)
        ensures
            r matches Err(e) && e@ == NodeFault::NotPermitted,
            final(self).data() == old(self).data(),
            final(self).cursor() == old(self).cursor(),
    {
        poll_io_err()
    }

    /// The cursor goes where `seek_target` says.
    pub fn seek(&mut self, pos: SeekFrom) -> (r: Result<u64, NodeError>)
        ensures
            r == Ok::<u64, NodeError>(
                seek_target(old(self).data().len(), old(self).cursor(), pos) as u64,
            ),
            final(self).data() == old(self).data(),
            final(self).cursor() == seek_target(old(self).data().len(), old(self).cursor(), pos),
    {
        self.cursor = seek_to(self.data.len(), self.cursor, pos);
        Ok(self.cursor as u64)
    }
}

impl Node for EmbeddedNode {
    open spec fn can_read(&self) -> bool {
        true
    }

    open spec fn can_write(&self) -> bool {
        false
    }

    open spec fn can_seek(&self) -> bool {
        true
    }

    fn is_reader(&self) -> (r: bool) {
        true
    }

    fn is_writer(&self) -> (r: bool) {
        false
    }

    fn is_seeker(&self) -> (r: bool) {
        true
    }
}

/// The message of a listing whose path is over the limit of an address.
pub const LISTING_TOO_LONG: &'static str = "failed to rewrite path in directory listing";

/// The name of the asset that an address stands for: its path without the
/// first character. The empty path stands for none.
pub open spec fn asset_of(url: AddressView) -> Option<Seq<char>> {
    if url.path.len() == 0 {
        None
    } else {
        Some(url.path.skip(1))
    }
}

/// The path that a listing goes by: the path itself where it ends in a
/// slash, else the path up to its last slash.
pub open spec fn listing_path(path: Seq<char>) -> Seq<char> {
    if slash_ended(path) {
        path
    } else {
        path.take(last_slash_index(path))
    }
}

/// The prefix of the names that a listing shows: the path of its address
/// without the first character.
pub open spec fn listing_prefix(base: AddressView) -> Seq<char> {
    if base.path.len() == 0 {
        base.path
    } else {
        base.path.skip(1)
    }
}

/// The addresses of the assets whose names begin with a prefix, in the order
/// of the names. The list ends before a name that gives no address.
pub open spec fn listed_assets(scheme: Seq<char>, prefix: Seq<char>, names: Seq<Seq<char>>) -> Seq<
    AddressView,
>
    decreases names.len(),
{
    if names.len() == 0 {
        Seq::empty()
    } else if prefix.is_prefix_of(names[0]) {
        match parsed_url(scheme + ":/"@ + names[0]) {
            Some(url) => seq![url] + listed_assets(scheme, prefix, names.skip(1)),
            None => Seq::empty(),
        }
    } else {
        listed_assets(scheme, prefix, names.skip(1))
    }
}

/// The addresses of the entries of a listing.
pub open spec fn entry_views(entries: Seq<NodeEntry>) -> Seq<AddressView> {
    Seq::new(entries.len(), |i: int| entries[i].url@)
}

/// The name of the asset that an address stands for.
pub fn asset_name(url: &Address) -> (r: Result<&str, SchemeError>)
    ensures
        match asset_of(url@) {
            Some(name) => r matches Ok(found) && found@ == name,
            None => r matches Err(e) && e@ == SchemeFault::NodeDoesNotExist(url@.path),
        },
{
    let path = url.path();
    if path.unicode_len() == 0 {
        Err(SchemeError::missing(path))
    } else {
        Ok(tail_from(path, 1))
    }
}

/// The node of an asset, where `found` is what the table holds under the
/// name of the address. An address without a name has no node, nor one
/// whose name the table does not hold; and an asset is opened for reading
/// only.
pub fn open_asset(url: &Address, options: &NodeGetOptions, found: Option<Vec<u8>>) -> (r: Result<
    EmbeddedNode,
    SchemeError,
>)
    ensures
        if asset_of(url@).is_none() {
            r matches Err(e) && e@ == SchemeFault::NodeDoesNotExist(url@.path)
        } else if !options.reads() {
            r matches Err(e) && e@ == SchemeFault::UrlAccess(url@)
        } else {
            match found {
                Some(data) => r matches Ok(node) && node.data() == data@ && node.cursor() == 0,
                None => r matches Err(e) && e@ == SchemeFault::NodeDoesNotExist(url@.path),
            }
        },
{
    if url.path().unicode_len() == 0 {
        return Err(SchemeError::missing(url.path()));
    }
    if options.get_read() {
        match found {
            Some(data) => Ok(EmbeddedNode::new(data)),
            None => Err(SchemeError::missing(url.path())),
        }
    } else {
        Err(SchemeError::UrlAccessError(url.clone()))
    }
}

/// What is known of an asset, where `found` is the length of what the table
/// holds under the name of the address.
pub fn describe_asset(url: &Address, found: Option<usize>) -> (r: Result<NodeMetadata, SchemeError>)
    ensures
        if asset_of(url@).is_none() {
            r matches Err(e) && e@ == SchemeFault::NodeDoesNotExist(url@.path)
        } else {
            match found {
                Some(size) => r == Ok::<NodeMetadata, SchemeError>(
                    NodeMetadata { is_node: true, len: Some((size, Some(size))) },
                ),
                None => r matches Err(e) && e@ == SchemeFault::NodeDoesNotExist(url@.path),
            }
        },
{
    if url.path().unicode_len() == 0 {
        return Err(SchemeError::missing(url.path()));
    }
    match found {
        Some(size) => Ok(NodeMetadata { is_node: true, len: Some((size, Some(size))) }),
        None => Err(SchemeError::missing(url.path())),
    }
}

/// The entries of a listing, where `names` are the names of all assets. The
/// path of the address must begin with a slash. The listing shows the assets
/// whose names begin with the listing path of the address.
pub fn list_assets(url: &Address, names: &Vec<String>) -> (r: Result<Vec<NodeEntry>, SchemeError>)
    ensures
        if url@.path.len() == 0 || url@.path[0] != '/' {
            r matches Err(e) && e@ == SchemeFault::UrlAccess(url@)
        } else {
            match Address::path_edit(url@, listing_path(url@.path)) {
                None => r matches Err(e) && e@ == SchemeFault::Generic(
                    Some(LISTING_TOO_LONG@),
                    SourceFault::Unknown,
                ),
                Some(base) => r matches Ok(entries) && entry_views(entries@) == listed_assets(
                    url@.scheme,
                    listing_prefix(base),
                    texts(names@),
                ),
            }
        },
{
    let path = url.path();
    if !has_prefix(path, "/") {
        proof {
            reveal_strlit("/");
            if path@.len() > 0 && path@[0] == '/' {
                assert("/"@ =~= path@.subrange(0, 1));
            }
        }
        return Err(SchemeError::UrlAccessError(url.clone()));
    }
    proof {
        reveal_strlit("/");
        assert("/"@.len() == 1);
        assert(path@.subrange(0, 1) == "/"@);
        assert(path@.subrange(0, 1)[0] == '/');
        assert(path@.len() > 0 && path@[0] == '/');
    }
    let listing: &str = if ends_with_slash(path) {
        path
    } else {
        match last_slash(path) {
            Some(place) => head_to(path, place),
            None => {
                proof {
                    assert(path@[0] == '/');
                    lemma_has_slash(path@, path@.len() as int);
                    assert(path@.take(path@.len() as int) =~= path@);
                }
                path
            },
        }
    };
    assert(listing@ == listing_path(path@));
    let base = match url.with_path(listing) {
        Some(base) => base,
        None => {
            return Err(SchemeError::message(LISTING_TOO_LONG));
        },
    };
    let prefix: &str = if base.path().unicode_len() == 0 {
        base.path()
    } else {
        tail_from(base.path(), 1)
    };
    assert(prefix@ == listing_prefix(base@));
    let head = join(url.scheme(), ":/");
    let ghost all = texts(names@);
    let mut entries: Vec<NodeEntry> = Vec::new();
    let mut i: usize = 0;
    assert(all.skip(0) =~= all);
    assert(entry_views(entries@) =~= Seq::<AddressView>::empty());
    while i < names.len()
        invariant
            i <= names@.len(),
            all == texts(names@),
            head@ == url@.scheme + ":/"@,
            url@.path.len() > 0 && url@.path[0] == '/',
            Address::path_edit(url@, listing_path(url@.path)) == Some(base@),
            prefix@ == listing_prefix(base@),
            listed_assets(url@.scheme, prefix@, all) == entry_views(entries@) + listed_assets(
                url@.scheme,
                prefix@,
                all.skip(i as int),
            ),
        decreases names@.len() - i,
    {
        let name = names[i].as_str();
        let ghost rest = all.skip(i as int);
        assert(rest[0] == name@);
        assert(rest.skip(1) =~= all.skip(i + 1));
        if has_prefix(name, prefix) {
            let text = join(head.as_str(), name);
            match Address::parse(text.as_str()) {
                Ok(found) => {
                    let ghost before = entry_views(entries@);
                    entries.push(NodeEntry { url: found });
                    assert(entry_views(entries@) =~= before + seq![found@]);
                    assert(before + (seq![found@] + listed_assets(
                        url@.scheme,
                        prefix@,
                        rest.skip(1),
                    )) =~= (before + seq![found@]) + listed_assets(
                        url@.scheme,
                        prefix@,
                        rest.skip(1),
                    ));
                },
                Err(_) => {
                    assert(parsed_url(url@.scheme + ":/"@ + rest[0]).is_none());
                    assert(listed_assets(url@.scheme, prefix@, rest) =~= Seq::<
                        AddressView,
                    >::empty());
                    assert(entry_views(entries@) + Seq::<AddressView>::empty() =~= entry_views(
                        entries@,
                    ));
                    return Ok(entries);
                },
            }
        }
        i += 1;
    }
    assert(all.skip(i as int) =~= Seq::<Seq<char>>::empty());
    assert(entry_views(entries@) + Seq::<AddressView>::empty() =~= entry_views(entries@));
    Ok(entries)
}

/// A text that holds a slash has a last one.
pub proof fn lemma_has_slash(s: Seq<char>, n: int)
    requires
        0 <= n <= s.len(),
        exists|j: int| 0 <= j < n && s[j] == '/',
    ensures
        last_slash_index(s.take(n)) >= 0,
    decreases n,
{
    let head = s.take(n);
    if head.last() == '/' {
    } else {
        assert(head.drop_last() =~= s.take(n - 1));
        let j = choose|j: int| 0 <= j < n && s[j] == '/';
        assert(j < n - 1) by {
            if j == n - 1 {
                assert(head.last() == s[j]);
            }
        }
        lemma_has_slash(s, n - 1);
    }
}

} // verus!
