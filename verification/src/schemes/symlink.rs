//! Symbolic links: registered paths that stand for addresses elsewhere.
//!
//! A request is redirected through the longest registered path that is a
//! prefix of its own; what is left of its path is appended to the target, and
//! its other components are merged into the target's.

use crate::address::{fits, parsed_url, Address, AddressView};
use crate::errors::{SchemeError, SchemeFault, SourceFault};
use crate::text::{
    ends_with_slash, join, lemma_prefix_in_path, lemma_prefix_len_step, path_segments, prefix_len,
    slash_ended, split_segments, suffix_after, tail_from, texts,
};
use vstd::prelude::*;

verus! {

/// The deepest path that can be linked, in segments.
pub const MAX_SYMLINK_PATH_SEGMENTS: usize = 16;

/// The messages of the failures of a merge: a component that both addresses
/// define cannot be overridden, and one that the target refuses cannot be
/// rewritten.
pub const PATH_REWRITE_FAILED: &'static str = "failed to rewrite path in symlink url";

pub const HOST_CONFLICT: &'static str = "unable to override host in url in symlink";

pub const HOST_REWRITE_FAILED: &'static str = "failed to rewrite host in symlink url";

pub const USERNAME_CONFLICT: &'static str = "unable to override username in url in symlink";

pub const USERNAME_REWRITE_FAILED: &'static str = "failed to rewrite username in symlink url";

pub const PASSWORD_CONFLICT: &'static str = "unable to override password in url in symlink";

pub const PASSWORD_REWRITE_FAILED: &'static str = "failed to rewrite password in symlink url";

pub const PORT_CONFLICT: &'static str = "unable to override port in url in symlink";

pub const PORT_REWRITE_FAILED: &'static str = "failed to rewrite port in symlink url";

pub const FRAGMENT_CONFLICT: &'static str = "unable to override fragment in url in symlink";

pub const FRAGMENT_REWRITE_FAILED: &'static str = "failed to rewrite fragment in symlink url";

pub const QUERY_REWRITE_FAILED: &'static str = "failed to rewrite query in symlink url";

/// A generic failure with a message and no known cause.
pub open spec fn generic(message: &'static str) -> SchemeFault {
    SchemeFault::Generic(Some(message@), SourceFault::Unknown)
}

/// The target with the rest of the requested path appended to its own.
pub open spec fn merged_path(base: AddressView, suffix: Seq<char>) -> Result<
    AddressView,
    SchemeFault,
> {
    match Address::path_edit(base, base.path + suffix) {
        Some(next) => Ok(next),
        None => Err(generic(PATH_REWRITE_FAILED)),
    }
}

/// The requested host moved onto `current`: a failure where the target has
/// one of its own, or where the host is refused.
pub open spec fn merged_host(base: AddressView, url: AddressView, current: AddressView) -> Result<
    AddressView,
    SchemeFault,
> {
    match url.host {
        None => Ok(current),
        Some(host) => if base.host.is_some() {
            Err(generic(HOST_CONFLICT))
        } else {
            match Address::host_edit(current, host) {
                Some(next) => Ok(next),
                None => if fits(current.text) && fits(host) {
                    Err(SchemeFault::UrlParse)
                } else {
                    Err(generic(HOST_REWRITE_FAILED))
                },
            }
        },
    }
}

/// The requested user name moved onto `current`.
pub open spec fn merged_username(
    base: AddressView,
    url: AddressView,
    current: AddressView,
) -> Result<AddressView, SchemeFault> {
    if url.username.len() == 0 {
        Ok(current)
    } else if base.username.len() != 0 {
        Err(generic(USERNAME_CONFLICT))
    } else {
        match Address::username_edit(current, url.username) {
            Some(next) => Ok(next),
            None => Err(generic(USERNAME_REWRITE_FAILED)),
        }
    }
}

/// The requested password moved onto `current`.
pub open spec fn merged_password(
    base: AddressView,
    url: AddressView,
    current: AddressView,
) -> Result<AddressView, SchemeFault> {
    match url.password {
        None => Ok(current),
        Some(password) => if base.password.is_some() {
            Err(generic(PASSWORD_CONFLICT))
        } else {
            match Address::password_edit(current, password) {
                Some(next) => Ok(next),
                None => Err(generic(PASSWORD_REWRITE_FAILED)),
            }
        },
    }
}

/// The requested port moved onto `current`.
pub open spec fn merged_port(base: AddressView, url: AddressView, current: AddressView) -> Result<
    AddressView,
    SchemeFault,
> {
    match url.port {
        None => Ok(current),
        Some(port) => if base.port.is_some() {
            Err(generic(PORT_CONFLICT))
        } else {
            match Address::port_edit(current, port) {
                Some(next) => Ok(next),
                None => Err(generic(PORT_REWRITE_FAILED)),
            }
        },
    }
}

/// The requested fragment moved onto `current`.
pub open spec fn merged_fragment(
    base: AddressView,
    url: AddressView,
    current: AddressView,
) -> Result<AddressView, SchemeFault> {
    match url.fragment {
        None => Ok(current),
        Some(fragment) => if base.fragment.is_some() {
            Err(generic(FRAGMENT_CONFLICT))
        } else {
            match Address::fragment_edit(current, fragment) {
                Some(next) => Ok(next),
                None => Err(generic(FRAGMENT_REWRITE_FAILED)),
            }
        },
    }
}

/// The query of the merged address: the target's and the requested one with
/// `&` between them where both have one, else the requested one.
pub open spec fn merged_query_text(base: AddressView, query: Seq<char>) -> Seq<char> {
    match base.query {
        Some(own) => if own.len() == 0 {
            query
        } else {
            own + seq!['&'] + query
        },
        None => query,
    }
}

/// The requested query merged into `current`.
pub open spec fn merged_query(base: AddressView, url: AddressView, current: AddressView) -> Result<
    AddressView,
    SchemeFault,
> {
    match url.query {
        None => Ok(current),
        Some(query) => match Address::query_edit(current, merged_query_text(base, query)) {
            Some(next) => Ok(next),
            None => Err(generic(QUERY_REWRITE_FAILED)),
        },
    }
}

/// The address that a request is redirected to: the target `base` with
/// `suffix` appended to its path and the components of the requested `url`
/// merged in, one after the other; the first failure ends it.
pub open spec fn merged(base: AddressView, url: AddressView, suffix: Seq<char>) -> Result<
    AddressView,
    SchemeFault,
> {
    match merged_path(base, suffix) {
        Err(fault) => Err(fault),
        Ok(a) => match merged_host(base, url, a) {
            Err(fault) => Err(fault),
            Ok(b) => match merged_username(base, url, b) {
                Err(fault) => Err(fault),
                Ok(c) => match merged_password(base, url, c) {
                    Err(fault) => Err(fault),
                    Ok(d) => match merged_port(base, url, d) {
                        Err(fault) => Err(fault),
                        Ok(e) => match merged_fragment(base, url, e) {
                            Err(fault) => Err(fault),
                            Ok(f) => merged_query(base, url, f),
                        },
                    },
                },
            },
        },
    }
}

/// Whether a result is the one that a specification names.
pub open spec fn agrees(r: Result<Address, SchemeError>, wanted: Result<AddressView, SchemeFault>) -> bool {
    match r {
        Ok(u) => wanted == Ok::<AddressView, SchemeFault>(u@),
        Err(e) => wanted == Err::<AddressView, SchemeFault>(e@),
    }
}

fn merge_path(base_url: &Address, url_path: &str) -> (r: Result<Address, SchemeError>)
    ensures
        agrees(r, merged_path(base_url@, url_path@)),
{
    let path = join(base_url.path(), url_path);
    match base_url.with_path(path.as_str()) {
        Some(next) => Ok(next),
        None => Err(SchemeError::message(PATH_REWRITE_FAILED)),
    }
}

fn merge_host(base_url: &Address, url: &Address, current: Address) -> (r: Result<
    Address,
    SchemeError,
>)
    ensures
        agrees(r, merged_host(base_url@, url@, current@)),
{
    match url.host_str() {
        None => Ok(current),
        Some(host) => {
            if base_url.has_host() {
                return Err(SchemeError::message(HOST_CONFLICT));
            }
            match current.with_host(host) {
                Ok(next) => Ok(next),
                Err(Some(reason)) => Err(SchemeError::UrlParseError(reason)),
                Err(None) => Err(SchemeError::message(HOST_REWRITE_FAILED)),
            }
        },
    }
}

fn merge_username(base_url: &Address, url: &Address, current: Address) -> (r: Result<
    Address,
    SchemeError,
>)
    ensures
        agrees(r, merged_username(base_url@, url@, current@)),
{
    let username = url.username();
    if username.unicode_len() == 0 {
        return Ok(current);
    }
    if base_url.username().unicode_len() != 0 {
        return Err(SchemeError::message(USERNAME_CONFLICT));
    }
    match current.with_username(username) {
        Some(next) => Ok(next),
        None => Err(SchemeError::message(USERNAME_REWRITE_FAILED)),
    }
}

fn merge_password(base_url: &Address, url: &Address, current: Address) -> (r: Result<
    Address,
    SchemeError,
>)
    ensures
        agrees(r, merged_password(base_url@, url@, current@)),
{
    match url.password() {
        None => Ok(current),
        Some(password) => {
            if base_url.password().is_some() {
                return Err(SchemeError::message(PASSWORD_CONFLICT));
            }
            match current.with_password(password) {
                Some(next) => Ok(next),
                None => Err(SchemeError::message(PASSWORD_REWRITE_FAILED)),
            }
        },
    }
}

fn merge_port(base_url: &Address, url: &Address, current: Address) -> (r: Result<
    Address,
    SchemeError,
>)
    ensures
        agrees(r, merged_port(base_url@, url@, current@)),
{
    match url.port() {
        None => Ok(current),
        Some(port) => {
            if base_url.port().is_some() {
                return Err(SchemeError::message(PORT_CONFLICT));
            }
            match current.with_port(port) {
                Some(next) => Ok(next),
                None => Err(SchemeError::message(PORT_REWRITE_FAILED)),
            }
        },
    }
}

fn merge_fragment(base_url: &Address, url: &Address, current: Address) -> (r: Result<
    Address,
    SchemeError,
>)
    ensures
        agrees(r, merged_fragment(base_url@, url@, current@)),
{
    match url.fragment() {
        None => Ok(current),
        Some(fragment) => {
            if base_url.fragment().is_some() {
                return Err(SchemeError::message(FRAGMENT_CONFLICT));
            }
            match current.with_fragment(fragment) {
                Some(next) => Ok(next),
                None => Err(SchemeError::message(FRAGMENT_REWRITE_FAILED)),
            }
        },
    }
}

fn merge_query(base_url: &Address, url: &Address, current: Address) -> (r: Result<
    Address,
    SchemeError,
>)
    ensures
        agrees(r, merged_query(base_url@, url@, current@)),
{
    match url.query() {
        None => Ok(current),
        Some(query) => {
            let text = match base_url.query() {
                Some(own) => {
                    if own.unicode_len() == 0 {
                        query.to_owned()
                    } else {
                        proof {
                            reveal_strlit("&");
                            assert("&"@ =~= seq!['&']);
                        }
                        let head = join(own, "&");
                        join(head.as_str(), query)
                    }
                },
                None => query.to_owned(),
            };
            match current.with_query(text.as_str()) {
                Some(next) => Ok(next),
                None => Err(SchemeError::message(QUERY_REWRITE_FAILED)),
            }
        },
    }
}

/// The address that a request for `url` is redirected to, where `base_url` is
/// the target of the link and `url_path` what is left of the requested path
/// behind the linked one.
///
/// The path is the target's with `url_path` appended. Host, user name,
/// password, port and fragment of the request are taken over where the target
/// has none of its own; where both have one, the merge fails. The queries of
/// both are joined with `&`.
pub fn merge_urls(base_url: &Address, url: &Address, url_path: &str) -> (r: Result<
    Address,
    SchemeError,
>)
    ensures
        agrees(r, merged(base_url@, url@, url_path@)),
{
    let a = merge_path(base_url, url_path)?;
    let b = merge_host(base_url, url, a)?;
    let c = merge_username(base_url, url, b)?;
    let d = merge_password(base_url, url, c)?;
    let e = merge_port(base_url, url, d)?;
    let f = merge_fragment(base_url, url, e)?;
    merge_query(base_url, url, f)
}


/// The messages of the refusals of a link.
pub const FROM_TRAILING_SLASH: &'static str = "`from` path has trailing `/`";

pub const FROM_HAS_HOST: &'static str = "`from` path has host, must only be a path";

pub const FROM_HAS_FRAGMENT: &'static str = "`from` path has fragment, must only be a path";

pub const FROM_HAS_QUERY: &'static str = "`from` path has query, must only be a path";

pub const LINK_TOO_DEEP: &'static str = "max symlink path segment depth exceeded, limit is 16";

pub const LINK_TAKEN: &'static str = "url already set at link, remove it first";

pub const LINK_RELATIVE: &'static str = "relative symlink is not allowed";

/// The links of a scheme: registered paths, as sequences of segments, and the
/// address that each stands for.
pub type Links = Map<Seq<Seq<char>>, AddressView>;

/// Why an address cannot be the place of a link, if it cannot: it ends in a
/// slash, or has a host, a fragment or a query.
pub open spec fn from_fault(from: AddressView) -> Option<SchemeFault> {
    if slash_ended(from.path) {
        Some(generic(FROM_TRAILING_SLASH))
    } else if from.host.is_some() {
        Some(generic(FROM_HAS_HOST))
    } else if from.fragment.is_some() {
        Some(generic(FROM_HAS_FRAGMENT))
    } else if from.query.is_some() {
        Some(generic(FROM_HAS_QUERY))
    } else {
        None
    }
}

/// The place of a link in the tree: the segments of its path, which are none
/// for the empty path. A relative path has no place, nor one of more than
/// sixteen segments.
pub open spec fn link_place(from: AddressView) -> Result<Seq<Seq<char>>, SchemeFault> {
    match from_fault(from) {
        Some(fault) => Err(fault),
        None => match path_segments(from.path) {
            Some(segments) => if segments.len() > MAX_SYMLINK_PATH_SEGMENTS {
                Err(generic(LINK_TOO_DEEP))
            } else {
                Ok(segments)
            },
            None => if from.path.len() == 0 {
                Ok(Seq::empty())
            } else {
                Err(generic(LINK_RELATIVE))
            },
        },
    }
}

/// The links after `from` is linked to `to`, or why it cannot be: it has no
/// place, or its place is taken.
pub open spec fn link_outcome(links: Links, from: AddressView, to: AddressView) -> Result<
    Links,
    SchemeFault,
> {
    match link_place(from) {
        Err(fault) => Err(fault),
        Ok(place) => if links.contains_key(place) {
            Err(generic(LINK_TAKEN))
        } else {
            Ok(links.insert(place, to))
        },
    }
}

/// How many of the first `k` segments the longest linked prefix takes, if
/// any prefix of at most `k` segments is linked.
pub open spec fn longest_link(links: Links, segments: Seq<Seq<char>>, k: nat) -> Option<nat>
    decreases k,
{
    if links.contains_key(segments.take(k as int)) {
        Some(k)
    } else if k == 0 {
        None
    } else {
        longest_link(links, segments, (k - 1) as nat)
    }
}

/// How many segments of a path are looked at.
pub open spec fn walk_limit(segments: Seq<Seq<char>>) -> nat {
    if segments.len() <= MAX_SYMLINK_PATH_SEGMENTS {
        segments.len()
    } else {
        MAX_SYMLINK_PATH_SEGMENTS as nat
    }
}

/// Where a request is redirected to: through the longest linked prefix of
/// its path, with the rest of the path appended. A path without segments goes
/// through the link of the empty path, whole.
pub open spec fn destination(links: Links, url: AddressView) -> Result<AddressView, SchemeFault> {
    match path_segments(url.path) {
        Some(segments) => match longest_link(links, segments, walk_limit(segments)) {
            Some(k) => merged(
                links[segments.take(k as int)],
                url,
                suffix_after(url.path, segments, k),
            ),
            None => Err(SchemeFault::NodeDoesNotExist(url.text)),
        },
        None => if links.contains_key(Seq::empty()) {
            merged(links[Seq::empty()], url, url.path)
        } else {
            Err(SchemeFault::NodeDoesNotExist(url.text))
        },
    }
}

/// One branch of a tree node: the segment that leads there, and the node.
pub struct SymLinkChild {
    name: String,
    node: usize,
}

/// One node of the prefix tree: what the path that ends here stands for, if
/// it is linked, and the segments that lead on from it.
pub struct SymLinkTreeNode {
    base_url: Option<Address>,
    children: Vec<SymLinkChild>,
    path: Ghost<Seq<Seq<char>>>,
}

impl SymLinkTreeNode {
    /// The address that the path to this node stands for, if it is linked.
    pub closed spec fn target(&self) -> Option<AddressView> {
        match self.base_url {
            Some(url) => Some(url@),
            None => None,
        }
    }

    /// Whether a branch of this node goes by the name.
    pub closed spec fn child_named(&self, name: Seq<char>) -> bool {
        exists|c: int| 0 <= c < self.children@.len() && #[trigger] self.children@[c].name@ == name
    }

    /// The address that the path to this node stands for, if it is linked.
    pub fn get_base_url(&self) -> (r: Option<&Address>)
        ensures
            match r {
                Some(url) => self.target() == Some(url@),
                None => self.target().is_none(),
            },
    {
        match &self.base_url {
            Some(url) => Some(url),
            None => None,
        }
    }

    fn find_child(&self, name: &String) -> (r: Option<usize>)
        ensures
            match r {
                Some(node) => exists|c: int|
                    0 <= c < self.children@.len() && #[trigger] self.children@[c].name@ == name@
                        && self.children@[c].node == node,
                None => !self.child_named(name@),
            },
    {
        let mut c: usize = 0;
        while c < self.children.len()
            invariant
                c <= self.children@.len(),
                forall|j: int| 0 <= j < c ==> #[trigger] self.children@[j].name@ != name@,
            decreases self.children@.len() - c,
        {
            if self.children[c].name == *name {
                return Some(self.children[c].node);
            }
            c += 1;
        }
        None
    }
}

/// A scheme of symbolic links: a prefix tree of registered paths.
pub struct SymLinkScheme {
    nodes: Vec<SymLinkTreeNode>,
    index: Ghost<Map<Seq<Seq<char>>, int>>,
}

impl View for SymLinkScheme {
    type V = Links;

    closed spec fn view(&self) -> Links {
        Map::new(
            |p: Seq<Seq<char>>| self.known(p) && self.nodes@[self.node_of(p)].base_url.is_some(),
            |p: Seq<Seq<char>>| self.nodes@[self.node_of(p)].base_url.unwrap()@,
        )
    }
}

impl SymLinkScheme {
    /// Whether the tree has a node for the path.
    closed spec fn known(&self, p: Seq<Seq<char>>) -> bool {
        self.index@.contains_key(p)
    }

    /// The node of a path.
    closed spec fn node_of(&self, p: Seq<Seq<char>>) -> int {
        self.index@[p]
    }

    /// The `c`-th branch of the `i`-th node.
    closed spec fn branch(&self, i: int, c: int) -> SymLinkChild {
        self.nodes@[i].children@[c]
    }

    /// The node of a path hangs on the node of the path that is one shorter.
    closed spec fn has_parent(&self, p: Seq<Seq<char>>) -> bool {
        &&& self.known(p.drop_last())
        &&& 0 <= self.node_of(p.drop_last()) < self.nodes@.len()
        &&& self.nodes@[self.node_of(p.drop_last())].child_named(p.last())
    }

    /// The tree is one: every node stands for one path and every path for one
    /// node, the empty path for the first; branches lead to the node of the
    /// path that is one longer; and every node but the first hangs on another.
    pub closed spec fn wf(&self) -> bool {
        &&& self.nodes@.len() >= 1
        &&& self.known(Seq::empty())
        &&& self.node_of(Seq::empty()) == 0
        &&& forall|p: Seq<Seq<char>>| #[trigger]
            self.known(p) ==> 0 <= self.node_of(p) < self.nodes@.len() && self.nodes@[self.node_of(
                p,
            )].path@ == p
        &&& forall|i: int|
            0 <= i < self.nodes@.len() ==> self.known((#[trigger] self.nodes@[i]).path@)
                && self.node_of(self.nodes@[i].path@) == i
        &&& forall|i: int, c: int|
            0 <= i < self.nodes@.len() && 0 <= c < self.nodes@[i].children@.len() ==> self.known(
                self.nodes@[i].path@.push((#[trigger] self.branch(i, c)).name@),
            ) && self.node_of(self.nodes@[i].path@.push(self.branch(i, c).name@)) == self.branch(
                i,
                c,
            ).node
        &&& forall|p: Seq<Seq<char>>|
            self.known(p) && p.len() > 0 ==> #[trigger] self.has_parent(p)
    }

    /// With a path the tree knows each of its prefixes.
    proof fn lemma_prefix_known(&self, p: Seq<Seq<char>>, k: int)
        requires
            self.wf(),
            self.known(p),
            0 <= k <= p.len(),
        ensures
            self.known(p.take(k)),
        decreases p.len() - k,
    {
        if k == p.len() {
            assert(p.take(k) =~= p);
        } else {
            self.lemma_prefix_known(p, k + 1);
            let q = p.take(k + 1);
            assert(self.has_parent(q));
            assert(q.drop_last() =~= p.take(k));
        }
    }

    /// Where the node of a path has no branch by a name, the tree knows no
    /// path that goes on by that name.
    proof fn lemma_no_branch(&self, segments: Seq<Seq<char>>, d: int, j: int)
        requires
            self.wf(),
            0 <= d < j <= segments.len(),
            self.known(segments.take(d)),
            !self.nodes@[self.node_of(segments.take(d))].child_named(segments[d]),
        ensures
            !self.known(segments.take(j)),
    {
        if self.known(segments.take(j)) {
            self.lemma_prefix_known(segments.take(j), d + 1);
            let q = segments.take(d + 1);
            assert(segments.take(j).take(d + 1) =~= q);
            assert(self.has_parent(q));
            assert(q.drop_last() =~= segments.take(d));
            assert(q.last() == segments[d]);
        }
    }

    /// Where no prefix of more than `d` and at most `k` segments is linked,
    /// the longest linked prefix of at most `k` segments has at most `d`.
    proof fn lemma_longest_stops(links: Links, segments: Seq<Seq<char>>, d: nat, k: nat)
        requires
            d <= k,
            forall|j: int| d < j <= k ==> !links.contains_key(#[trigger] segments.take(j)),
        ensures
            longest_link(links, segments, k) == longest_link(links, segments, d),
        decreases k - d,
    {
        if d < k {
            assert(!links.contains_key(segments.take(k as int)));
            Self::lemma_longest_stops(links, segments, d, (k - 1) as nat);
        }
    }

    /// A scheme without links.
    pub fn new() -> (r: Self)
        ensures
            r.wf(),
            r@ == Map::<Seq<Seq<char>>, AddressView>::empty(),
    {
        let mut nodes: Vec<SymLinkTreeNode> = Vec::new();
        nodes.push(
            SymLinkTreeNode {
                base_url: None,
                children: Vec::new(),
                path: Ghost(Seq::empty()),
            },
        );
        let r = SymLinkScheme {
            nodes,
            index: Ghost(Map::<Seq<Seq<char>>, int>::empty().insert(Seq::empty(), 0)),
        };
        proof {
            assert forall|p: Seq<Seq<char>>| #[trigger] r.known(p) implies p =~= Seq::<
                Seq<char>,
            >::empty() by {}
            assert(r@ =~= Map::<Seq<Seq<char>>, AddressView>::empty());
        }
        r
    }

    /// The node that stands for the empty path.
    pub fn root(&self) -> (r: &SymLinkTreeNode)
        requires
            self.wf(),
        ensures
            r.target() == (if self@.contains_key(Seq::empty()) {
                Some(self@[Seq::empty()])
            } else {
                None
            }),
    {
        &self.nodes[0]
    }

    /// One node more keeps the tree a tree: a new last node under `cur`, by a
    /// name that `cur` has no branch for yet.
    proof fn lemma_grow(before: SymLinkScheme, after: SymLinkScheme, cur: int, name: Seq<char>)
        requires
            before.wf(),
            0 <= cur < before.nodes@.len(),
            !before.nodes@[cur].child_named(name),
            after.nodes@.len() == before.nodes@.len() + 1,
            forall|i: int|
                0 <= i < before.nodes@.len() && i != cur ==> after.nodes@[i] == before.nodes@[i],
            after.nodes@[cur].base_url == before.nodes@[cur].base_url,
            after.nodes@[cur].path@ == before.nodes@[cur].path@,
            after.nodes@[cur].children@.len() == before.nodes@[cur].children@.len() + 1,
            forall|c: int|
                0 <= c < before.nodes@[cur].children@.len() ==> after.nodes@[cur].children@[c]
                    == before.nodes@[cur].children@[c],
            after.nodes@[cur].children@.last().name@ == name,
            after.nodes@[cur].children@.last().node == before.nodes@.len(),
            after.nodes@.last().base_url.is_none(),
            after.nodes@.last().children@.len() == 0,
            after.nodes@.last().path@ == before.nodes@[cur].path@.push(name),
            after.index@ == before.index@.insert(
                before.nodes@[cur].path@.push(name),
                before.nodes@.len() as int,
            ),
        ensures
            after.wf(),
            after@ == before@,
            after.known(before.nodes@[cur].path@.push(name)),
            after.node_of(before.nodes@[cur].path@.push(name)) == before.nodes@.len(),
            forall|p: Seq<Seq<char>>| before.known(p) ==> after.known(p) && after.node_of(p) == before.node_of(p),
    {
        let n = before.nodes@.len() as int;
        let here = before.nodes@[cur].path@;
        let np = here.push(name);
        assert(before.known(here) && before.node_of(here) == cur);
        assert(np.drop_last() =~= here);
        assert(np.last() == name);
        if before.known(np) {
            assert(before.has_parent(np));
        }
        assert(!before.known(np));
        assert forall|p: Seq<Seq<char>>| #[trigger] after.known(p) implies 0 <= after.node_of(p)
            < after.nodes@.len() && after.nodes@[after.node_of(p)].path@ == p by {
            if p != np {
                assert(before.known(p));
            }
        }
        assert forall|i: int| 0 <= i < after.nodes@.len() implies after.known(
            (#[trigger] after.nodes@[i]).path@,
        ) && after.node_of(after.nodes@[i].path@) == i by {
            if i < n {
                assert(before.known(before.nodes@[i].path@));
                assert(after.nodes@[i].path@ == before.nodes@[i].path@);
            }
        }
        assert forall|i: int, c: int|
            0 <= i < after.nodes@.len() && 0 <= c < after.nodes@[i].children@.len() implies after.known(
            after.nodes@[i].path@.push((#[trigger] after.branch(i, c)).name@),
        ) && after.node_of(after.nodes@[i].path@.push(after.branch(i, c).name@)) == after.branch(
            i,
            c,
        ).node by {
            if i == cur && c == before.nodes@[cur].children@.len() {
            } else {
                assert(i < n);
                assert(after.branch(i, c) == before.branch(i, c));
                assert(after.nodes@[i].path@ == before.nodes@[i].path@);
                assert(before.known(before.nodes@[i].path@.push(before.branch(i, c).name@)));
            }
        }
        assert forall|p: Seq<Seq<char>>| after.known(p) && p.len() > 0 implies #[trigger]
            after.has_parent(p) by {
            if p == np {
                let last = before.nodes@[cur].children@.len() as int;
                assert(after.nodes@[cur].children@[last].name@ == name);
                assert(after.nodes@[cur].child_named(name));
            } else {
                assert(before.known(p));
                assert(before.has_parent(p));
                let q = p.drop_last();
                let parent = before.node_of(q);
                let c = choose|c: int|
                    0 <= c < before.nodes@[parent].children@.len()
                        && #[trigger] before.nodes@[parent].children@[c].name@ == p.last();
                assert(after.nodes@[parent].children@[c].name@ == p.last());
                assert(after.nodes@[parent].child_named(p.last()));
            }
        }
        assert(after@ =~= before@) by {
            assert forall|p: Seq<Seq<char>>| after@.contains_key(p) == before@.contains_key(
                p,
            ) by {
                if before.known(p) {
                    assert(after.known(p));
                }
            }
            assert forall|p: Seq<Seq<char>>| before@.contains_key(p) implies after@[p]
                == before@[p] by {
                assert(before.known(p));
            }
        }
    }

    /// Walks to the node of a path, making the nodes that are missing on the
    /// way. The links stay as they are.
    fn reach(&mut self, segments: &Vec<String>) -> (cur: usize)
        requires
            old(self).wf(),
        ensures
            final(self).wf(),
            final(self)@ == old(self)@,
            final(self).known(texts(segments@)),
            final(self).node_of(texts(segments@)) == cur,
    {
        let ghost segs = texts(segments@);
        let mut cur: usize = 0;
        let mut d: usize = 0;
        assert(segs.take(0) =~= Seq::<Seq<char>>::empty());
        while d < segments.len()
            invariant
                self.wf(),
                self@ == old(self)@,
                segs == texts(segments@),
                d <= segments@.len(),
                self.known(segs.take(d as int)),
                self.node_of(segs.take(d as int)) == cur,
            decreases segments@.len() - d,
        {
            let ghost here = segs.take(d as int);
            let ghost name = segs[d as int];
            assert(here.push(name) =~= segs.take(d + 1));
            assert(self.nodes@[cur as int].path@ == here);
            match self.nodes[cur].find_child(&segments[d]) {
                Some(next) => {
                    proof {
                        let c = choose|c: int|
                            0 <= c < self.nodes@[cur as int].children@.len()
                                && #[trigger] self.nodes@[cur as int].children@[c].name@ == name
                                && self.nodes@[cur as int].children@[c].node == next;
                        assert(self.branch(cur as int, c).name@ == name);
                    }
                    cur = next;
                },
                None => {
                    let ghost before = *self;
                    let fresh = self.nodes.len();
                    self.nodes.push(
                        SymLinkTreeNode {
                            base_url: None,
                            children: Vec::new(),
                            path: Ghost(here.push(name)),
                        },
                    );
                    let child = SymLinkChild { name: segments[d].clone(), node: fresh };
                    self.nodes[cur].children.push(child);
                    self.index = Ghost(self.index@.insert(here.push(name), fresh as int));
                    proof {
                        Self::lemma_grow(before, *self, cur as int, name);
                    }
                    cur = fresh;
                },
            }
            d += 1;
        }
        assert(segs.take(d as int) =~= segs);
        cur
    }

    /// Links the path of a node, unless it is linked already.
    fn set_target(&mut self, node: usize, to: Address, Ghost(place): Ghost<Seq<Seq<char>>>) -> (r:
        Result<(), SchemeError>)
        requires
            old(self).wf(),
            old(self).known(place),
            old(self).node_of(place) == node,
        ensures
            final(self).wf(),
            old(self)@.contains_key(place) ==> (r matches Err(e) && e@ == generic(LINK_TAKEN))
                && final(self)@ == old(self)@,
            !old(self)@.contains_key(place) ==> r is Ok && final(self)@ == old(self)@.insert(
                place,
                to@,
            ),
    {
        if self.nodes[node].base_url.is_some() {
            return Err(SchemeError::message(LINK_TAKEN));
        }
        let ghost before = *self;
        self.nodes[node].base_url = Some(to);
        proof {
            assert(self.index@ == before.index@);
            assert(self.nodes@.len() == before.nodes@.len());
            assert forall|i: int| 0 <= i < self.nodes@.len() implies (#[trigger] self.nodes@[i]).path@
                == before.nodes@[i].path@ && self.nodes@[i].children@
                == before.nodes@[i].children@ by {}
            assert forall|i: int| 0 <= i < self.nodes@.len() && i != node implies #[trigger]
                self.nodes@[i] == before.nodes@[i] by {}
            assert forall|p: Seq<Seq<char>>| #[trigger] self.known(p) implies 0 <= self.node_of(p)
                < self.nodes@.len() && self.nodes@[self.node_of(p)].path@ == p by {
                assert(before.known(p));
            }
            assert forall|i: int| 0 <= i < self.nodes@.len() implies self.known(
                (#[trigger] self.nodes@[i]).path@,
            ) && self.node_of(self.nodes@[i].path@) == i by {
                assert(before.known(before.nodes@[i].path@));
            }
            assert forall|p: Seq<Seq<char>>| self.known(p) && p.len() > 0 implies #[trigger]
                self.has_parent(p) by {
                assert(before.known(p));
                assert(before.has_parent(p));
                let parent = before.node_of(p.drop_last());
                let c = choose|c: int|
                    0 <= c < before.nodes@[parent].children@.len()
                        && #[trigger] before.nodes@[parent].children@[c].name@ == p.last();
                assert(self.nodes@[parent].children@[c].name@ == p.last());
                assert(self.nodes@[parent].child_named(p.last()));
            }
            assert forall|i: int, c: int|
                0 <= i < self.nodes@.len() && 0 <= c < self.nodes@[i].children@.len() implies self.known(
                self.nodes@[i].path@.push((#[trigger] self.branch(i, c)).name@),
            ) && self.node_of(self.nodes@[i].path@.push(self.branch(i, c).name@)) == self.branch(
                i,
                c,
            ).node by {
                assert(self.branch(i, c) == before.branch(i, c));
                assert(before.known(before.nodes@[i].path@.push(before.branch(i, c).name@)));
            }
            assert(self.wf());
            let wanted = before@.insert(place, to@);
            assert forall|p: Seq<Seq<char>>| self@.contains_key(p) == wanted.contains_key(p) by {
                if before.known(p) && p != place {
                    assert(before.nodes@[before.node_of(p)].path@ == p);
                    assert(before.node_of(p) != node);
                }
            }
            assert forall|p: Seq<Seq<char>>| self@.contains_key(p) implies self@[p] == wanted[p] by {
                if p != place {
                    assert(before.nodes@[before.node_of(p)].path@ == p);
                    assert(before.node_of(p) != node);
                }
            }
            assert(self@ =~= wanted);
        }
        Ok(())
    }

    /// Links the place that an address names to `to`.
    ///
    /// The place is refused where it ends in a slash, has a host, a fragment
    /// or a query, is relative, or is deeper than sixteen segments; and where
    /// it is linked already. A refusal leaves the links as they are.
    pub fn link_at(&mut self, from: &Address, to: Address) -> (r: Result<(), SchemeError>)
        requires
            old(self).wf(),
        ensures
            final(self).wf(),
            match link_outcome(old(self)@, from@, to@) {
                Ok(links) => r is Ok && final(self)@ == links,
                Err(fault) => (r matches Err(e) && e@ == fault) && final(self)@ == old(self)@,
            },
    {
        match Self::check_from(from) {
            Err(e) => {
                return Err(e);
            },
            Ok(_) => {},
        }
        match split_segments(from.path()) {
            None => {
                if from.path().unicode_len() == 0 {
                    self.set_target(0, to, Ghost(Seq::empty()))
                } else {
                    Err(SchemeError::message(LINK_RELATIVE))
                }
            },
            Some(segments) => {
                if segments.len() > MAX_SYMLINK_PATH_SEGMENTS {
                    return Err(SchemeError::message(LINK_TOO_DEEP));
                }
                let node = self.reach(&segments);
                self.set_target(node, to, Ghost(texts(segments@)))
            },
        }
    }

    /// Links a path to `to`. The path is read as the address `x:` followed by
    /// the path, and that address is linked as `link_at` does.
    pub fn link(&mut self, from: &str, to: Address) -> (r: Result<(), SchemeError>)
        requires
            old(self).wf(),
        ensures
            final(self).wf(),
            match parsed_url("x:"@ + from@) {
                None => (r matches Err(e) && e@ == SchemeFault::UrlParse) && final(self)@ == old(self)@,
                Some(place) => match link_outcome(old(self)@, place, to@) {
                    Ok(links) => r is Ok && final(self)@ == links,
                    Err(fault) => (r matches Err(e) && e@ == fault) && final(self)@ == old(self)@,
                },
            },
    {
        let text = join("x:", from);
        match Address::parse(text.as_str()) {
            Err(reason) => Err(SchemeError::UrlParseError(reason)),
            Ok(place) => self.link_at(&place, to),
        }
    }

    /// Where a request for `url` is redirected to.
    ///
    /// The path of `url` is followed through the tree, segment by segment and
    /// at most sixteen deep. The longest linked path on the way decides: the
    /// request goes to its target, with what is left of the requested path
    /// appended and the other components merged as `merge_urls` does. Where
    /// no path on the way is linked, nothing exists under `url`.
    pub fn get_symlink_dest(&self, url: &Address) -> (r: Result<Address, SchemeError>)
        requires
            self.wf(),
        ensures
            agrees(r, destination(self@, url@)),
    {
        let length = url.path().unicode_len();
        match split_segments(url.path()) {
            None => match &self.nodes[0].base_url {
                Some(base) => merge_urls(base, url, url.path()),
                None => Err(SchemeError::missing(url.as_str())),
            },
            Some(segments) => {
                let ghost segs = texts(segments@);
                let limit: usize = if segments.len() <= MAX_SYMLINK_PATH_SEGMENTS {
                    segments.len()
                } else {
                    MAX_SYMLINK_PATH_SEGMENTS
                };
                let mut cur: usize = 0;
                let mut best: Option<usize> = if self.nodes[0].base_url.is_some() {
                    Some(0)
                } else {
                    None
                };
                let mut best_len: usize = 0;
                let mut best_off: usize = 0;
                let mut off: usize = 0;
                let mut d: usize = 0;
                let mut open = true;
                assert(segs.take(0) =~= Seq::<Seq<char>>::empty());
                while open && d < limit
                    invariant
                        self.wf(),
                        segs == texts(segments@),
                        path_segments(url@.path) == Some(segs),
                        length == url@.path.len(),
                        limit == walk_limit(segs),
                        d <= limit <= segs.len(),
                        self.known(segs.take(d as int)),
                        cur == self.node_of(segs.take(d as int)),
                        off == prefix_len(segs, d as nat),
                        best_len <= d,
                        best_off == prefix_len(segs, best_len as nat),
                        match best {
                            Some(b) => longest_link(self@, segs, d as nat) == Some(best_len as nat)
                                && self.known(segs.take(best_len as int)) && b == self.node_of(
                                segs.take(best_len as int),
                            ),
                            None => longest_link(self@, segs, d as nat).is_none(),
                        },
                        best is Some ==> self@.contains_key(segs.take(best_len as int)),
                        !open ==> forall|j: int|
                            d < j <= limit ==> !self@.contains_key(#[trigger] segs.take(j)),
                    decreases (limit - d) + (if open { 1int } else { 0int }),
                {
                    let ghost here = segs.take(d as int);
                    let ghost name = segs[d as int];
                    assert(here.push(name) =~= segs.take(d + 1));
                    assert(self.nodes@[cur as int].path@ == here);
                    match self.nodes[cur].find_child(&segments[d]) {
                        None => {
                            proof {
                                assert forall|j: int| d < j <= limit implies !self@.contains_key(
                                    #[trigger] segs.take(j),
                                ) by {
                                    self.lemma_no_branch(segs, d as int, j);
                                }
                            }
                            open = false;
                        },
                        Some(next) => {
                            proof {
                                let c = choose|c: int|
                                    0 <= c < self.nodes@[cur as int].children@.len()
                                        && #[trigger] self.nodes@[cur as int].children@[c].name@
                                        == name && self.nodes@[cur as int].children@[c].node
                                        == next;
                                assert(self.branch(cur as int, c).name@ == name);
                                lemma_prefix_len_step(segs, d as nat);
                                lemma_prefix_in_path(url@.path, (d + 1) as nat);
                            }
                            let width = segments[d].as_str().unicode_len();
                            off = off + width + 1;
                            cur = next;
                            d += 1;
                            if self.nodes[cur].base_url.is_some() {
                                best = Some(cur);
                                best_len = d;
                                best_off = off;
                            }
                        },
                    }
                }
                proof {
                    if open {
                        assert(d == limit);
                    } else {
                        Self::lemma_longest_stops(self@, segs, d as nat, limit as nat);
                    }
                    lemma_prefix_in_path(url@.path, best_len as nat);
                    assert(longest_link(self@, segs, limit as nat) == longest_link(
                        self@,
                        segs,
                        d as nat,
                    ));
                    if best is Some {
                        assert(self@[segs.take(best_len as int)] == self.nodes@[best.unwrap() as int].base_url.unwrap()@);
                        assert(suffix_after(url@.path, segs, best_len as nat) == url@.path.skip(
                            best_off as int,
                        ));
                    }
                }
                match best {
                    None => Err(SchemeError::missing(url.as_str())),
                    Some(b) => match &self.nodes[b].base_url {
                        Some(base) => {
                            let suffix = tail_from(url.path(), best_off);
                            merge_urls(base, url, suffix)
                        },
                        None => Err(SchemeError::missing(url.as_str())),
                    },
                }
            },
        }
    }

    /// Checks that an address can be the place of a link: it must not end in
    /// a slash nor have a host, a fragment or a query.
    pub fn check_from(from: &Address) -> (r: Result<(), SchemeError>)
        ensures
            match r {
                Ok(_) => from_fault(from@).is_none(),
                Err(e) => from_fault(from@) == Some(e@),
            },
    {
        if ends_with_slash(from.path()) {
            Err(SchemeError::message(FROM_TRAILING_SLASH))
        } else if from.has_host() {
            Err(SchemeError::message(FROM_HAS_HOST))
        } else if from.fragment().is_some() {
            Err(SchemeError::message(FROM_HAS_FRAGMENT))
        } else if from.query().is_some() {
            Err(SchemeError::message(FROM_HAS_QUERY))
        } else {
            Ok(())
        }
    }

    /// Reads a path as the place of a link. The path is parsed as the
    /// address `x:` followed by the path, and checked as `check_from` does.
    pub fn validate_from_url_path(from: &str) -> (r: Result<Address, SchemeError>)
        ensures
            match parsed_url("x:"@ + from@) {
                None => r matches Err(e) && e@ == SchemeFault::UrlParse,
                Some(place) => match from_fault(place) {
                    Some(fault) => r matches Err(e) && e@ == fault,
                    None => r matches Ok(u) && u@ == place,
                },
            },
    {
        let text = join("x:", from);
        match Address::parse(text.as_str()) {
            Err(reason) => Err(SchemeError::UrlParseError(reason)),
            Ok(place) => match Self::check_from(&place) {
                Err(e) => Err(e),
                Ok(_) => Ok(place),
            },
        }
    }
}

impl SymLinkScheme {
    /// The node of a path, if the tree has one.
    fn find(&self, segments: &Vec<String>) -> (r: Option<usize>)
        requires
            self.wf(),
        ensures
            match r {
                Some(node) => self.known(texts(segments@)) && self.node_of(texts(segments@))
                    == node && node < self.nodes@.len(),
                None => !self.known(texts(segments@)),
            },
    {
        let ghost segs = texts(segments@);
        let mut cur: usize = 0;
        let mut d: usize = 0;
        assert(segs.take(0) =~= Seq::<Seq<char>>::empty());
        while d < segments.len()
            invariant
                self.wf(),
                segs == texts(segments@),
                d <= segments@.len(),
                self.known(segs.take(d as int)),
                self.node_of(segs.take(d as int)) == cur,
            decreases segments@.len() - d,
        {
            let ghost here = segs.take(d as int);
            let ghost name = segs[d as int];
            assert(here.push(name) =~= segs.take(d + 1));
            assert(self.nodes@[cur as int].path@ == here);
            match self.nodes[cur].find_child(&segments[d]) {
                Some(next) => {
                    proof {
                        let c = choose|c: int|
                            0 <= c < self.nodes@[cur as int].children@.len()
                                && #[trigger] self.nodes@[cur as int].children@[c].name@ == name
                                && self.nodes@[cur as int].children@[c].node == next;
                        assert(self.branch(cur as int, c).name@ == name);
                    }
                    cur = next;
                },
                None => {
                    proof {
                        self.lemma_no_branch(segs, d as int, segs.len() as int);
                        assert(segs.take(segs.len() as int) =~= segs);
                    }
                    return None;
                },
            }
            d += 1;
        }
        assert(segs.take(d as int) =~= segs);
        Some(cur)
    }

    /// Whether the place that an address names can be linked: it is a place,
    /// and it is not linked yet.
    pub fn can_link(&self, from: &Address) -> (r: bool)
        requires
            self.wf(),
        ensures
            r == (link_place(from@) matches Ok(place) && !self@.contains_key(place)),
    {
        match Self::check_from(from) {
            Err(_) => {
                return false;
            },
            Ok(_) => {},
        }
        match split_segments(from.path()) {
            None => from.path().unicode_len() == 0 && self.nodes[0].base_url.is_none(),
            Some(segments) => {
                if segments.len() > MAX_SYMLINK_PATH_SEGMENTS {
                    return false;
                }
                match self.find(&segments) {
                    Some(node) => self.nodes[node].base_url.is_none(),
                    None => true,
                }
            },
        }
    }

    /// A scheme of links in the making.
    pub fn builder() -> (r: SymLinkSchemeBuilder)
        ensures
            r.wf(),
            r.links() == Map::<Seq<Seq<char>>, AddressView>::empty(),
    {
        SymLinkSchemeBuilder { scheme: Self::new() }
    }

    /// The longest linked prefix is linked, and no longer prefix within the
    /// limit is; where there is none, no prefix within the limit is linked.
    pub proof fn lemma_longest_link(links: Links, segments: Seq<Seq<char>>, limit: nat)
        ensures
            match longest_link(links, segments, limit) {
                Some(k) => k <= limit && links.contains_key(segments.take(k as int)) && forall|
                    j: int,
                |
                    k < j <= limit ==> !links.contains_key(#[trigger] segments.take(j)),
                None => forall|j: int|
                    0 <= j <= limit ==> !links.contains_key(#[trigger] segments.take(j)),
            },
        decreases limit,
    {
        if links.contains_key(segments.take(limit as int)) {
        } else if limit == 0 {
        } else {
            Self::lemma_longest_link(links, segments, (limit - 1) as nat);
        }
    }

    /// Of two linked paths of which one goes on from the other, the longer
    /// one decides where a request under both is redirected: to its target,
    /// with what is left of the requested path behind it.
    pub proof fn lemma_longer_link_wins(links: Links, url: AddressView, short: nat, long: nat)
        requires
            path_segments(url.path) is Some,
            short < long <= walk_limit(path_segments(url.path).unwrap()),
            links.contains_key(path_segments(url.path).unwrap().take(short as int)),
            links.contains_key(path_segments(url.path).unwrap().take(long as int)),
            forall|j: int|
                long < j <= walk_limit(path_segments(url.path).unwrap()) ==> !links.contains_key(
                    #[trigger] path_segments(url.path).unwrap().take(j),
                ),
        ensures
            destination(links, url) == merged(
                links[path_segments(url.path).unwrap().take(long as int)],
                url,
                suffix_after(url.path, path_segments(url.path).unwrap(), long),
            ),
    {
        let segments = path_segments(url.path).unwrap();
        Self::lemma_longest_stops(links, segments, long, walk_limit(segments));
    }

    /// A place is refused where the path ends in a slash, where it is
    /// relative, and where it is deeper than sixteen segments; and a place
    /// that is linked already is refused, whatever it is to be linked to.
    pub proof fn lemma_link_rejections(links: Links, from: AddressView, to: AddressView)
        ensures
            slash_ended(from.path) ==> link_outcome(links, from, to) is Err,
            from.path.len() > 0 && from.path[0] != '/' ==> link_outcome(links, from, to) is Err,
            path_segments(from.path) matches Some(segments) && segments.len()
                > MAX_SYMLINK_PATH_SEGMENTS ==> link_outcome(links, from, to) is Err,
            link_place(from) matches Ok(place) && links.contains_key(place) ==> link_outcome(
                links,
                from,
                to,
            ) == Err::<Links, SchemeFault>(generic(LINK_TAKEN)),
    {
    }
}

impl Default for SymLinkScheme {
    fn default() -> (r: Self)
        ensures
            r.wf(),
            r@ == Map::<Seq<Seq<char>>, AddressView>::empty(),
    {
        SymLinkScheme::new()
    }
}

/// A scheme of links in the making.
pub struct SymLinkSchemeBuilder {
    scheme: SymLinkScheme,
}

impl SymLinkSchemeBuilder {
    /// The links so far.
    pub closed spec fn links(&self) -> Links {
        self.scheme@
    }

    /// The tree so far is in order.
    pub closed spec fn wf(&self) -> bool {
        self.scheme.wf()
    }

    /// The scheme of the links so far.
    pub fn build(self) -> (r: SymLinkScheme)
        requires
            self.wf(),
        ensures
            r.wf(),
            r@ == self.links(),
    {
        self.scheme
    }

    /// One more link. The path must be a place that is not linked yet.
    pub fn link(self, from: &str, to: Address) -> (r: Self)
        requires
            self.wf(),
            parsed_url("x:"@ + from@) matches Some(place) && link_outcome(self.links(), place, to@) is Ok,
        ensures
            r.wf(),
            parsed_url("x:"@ + from@) matches Some(place) && link_outcome(self.links(), place, to@)
                == Ok::<Links, SchemeFault>(r.links()),
    {
        let mut scheme = self.scheme;
        let done = scheme.link(from, to);
        SymLinkSchemeBuilder { scheme }
    }

    /// One more link, where the path is a place that is not linked yet;
    /// else the reason for which it cannot be linked.
    pub fn try_link(self, from: &str, to: Address) -> (r: Result<Self, SchemeError>)
        requires
            self.wf(),
        ensures
            match parsed_url("x:"@ + from@) {
                None => r matches Err(e) && e@ == SchemeFault::UrlParse,
                Some(place) => match link_outcome(self.links(), place, to@) {
                    Ok(links) => r matches Ok(next) && next.wf() && next.links() == links,
                    Err(fault) => r matches Err(e) && e@ == fault,
                },
            },
    {
        let text = join("x:", from);
        match Address::parse(text.as_str()) {
            Err(reason) => Err(SchemeError::UrlParseError(reason)),
            Ok(place) => {
                if self.scheme.can_link(&place) {
                    Ok(self.link(from, to))
                } else {
                    let mut scheme = self.scheme;
                    match scheme.link_at(&place, to) {
                        Err(e) => Err(e),
                        Ok(_) => Ok(SymLinkSchemeBuilder { scheme }),
                    }
                }
            },
        }
    }
}

} // verus!
