//! The registry: schemes under names, and the dispatch of a request to the
//! scheme that its address names.
//!
//! A name stands for a backend or for a scheme of symbolic links. A request
//! to a scheme of links is redirected to where the link points, which the
//! registry then resolves in turn; a chain of redirections ends after
//! `MAX_REDIRECTS` of them.

use crate::address::{parsed_url, Address, AddressView};
use crate::errors::{
    ErrorSource, NodeError, SchemeError, SchemeFault, SourceFault, VfsError, VfsFault,
};
use crate::node::{Node, SeekFrom};
use crate::scheme::{NodeEntry, NodeGetOptions, NodeMetadata, Scheme};
use crate::schemes::data_loader::DataLoaderScheme;
use crate::schemes::symlink::{destination, generic, SymLinkScheme};
use crate::text::{same_text, texts};
use vstd::pervasive::unreached;
use vstd::prelude::*;

verus! {

/// The longest chain of redirections that is followed.
pub const MAX_REDIRECTS: usize = 40;

/// The message of a failure that came back through a redirection.
pub const VFS_ERROR: &'static str = "vfs error";

/// The message of a chain of redirections that is given up.
pub const TOO_MANY_REDIRECTS: &'static str = "too many symlink redirections";

/// What a backend is called where a scheme is of the wrong type.
pub const BACKEND_TYPE: &'static str = "backend scheme";

/// What a scheme of links is called where a scheme is of the wrong type.
pub const LINKS_TYPE: &'static str = "SymLinkScheme";

/// What a name of the registry stands for.
pub enum Mount<S> {
    /// A backend.
    Scheme(S),
    /// A scheme of symbolic links.
    Links(SymLinkScheme),
}

impl<S: Scheme> Mount<S> {
    /// The scheme under the name is in order.
    pub open spec fn wf(&self) -> bool {
        match self {
            Mount::Scheme(s) => s.wf(),
            Mount::Links(links) => links.wf(),
        }
    }

    /// Whether this is a backend.
    pub open spec fn is_backend(&self) -> bool {
        self is Scheme
    }

    /// The backend that this is.
    pub open spec fn as_backend(&self) -> S {
        self->Scheme_0
    }

    fn open(&mut self, url: &Address, options: &NodeGetOptions) -> (r: Result<S::Node, SchemeError>)
        requires
            old(self).wf(),
            old(self).is_backend(),
        ensures
            final(self).wf(),
            final(self).is_backend(),
            old(self).as_backend().get_node_post(url@, *options, &final(self).as_backend(), r),
            r matches Ok(node) ==> final(self).as_backend().holds(&node),
            forall|n: S::Node| #[trigger]
                old(self).as_backend().holds(&n) ==> final(self).as_backend().holds(&n),
    {
        match self {
            Mount::Scheme(s) => s.get_node(url, options),
            Mount::Links(_) => unreached(),
        }
    }

    fn remove(&mut self, url: &Address, force: bool) -> (r: Result<(), SchemeError>)
        requires
            old(self).wf(),
            old(self).is_backend(),
        ensures
            final(self).wf(),
            final(self).is_backend(),
            old(self).as_backend().remove_node_post(url@, force, &final(self).as_backend(), r),
            forall|n: S::Node| #[trigger]
                old(self).as_backend().holds(&n) ==> final(self).as_backend().holds(&n),
    {
        match self {
            Mount::Scheme(s) => s.remove_node(url, force),
            Mount::Links(_) => unreached(),
        }
    }

    fn write_to(&mut self, node: &mut S::Node, data: &[u8]) -> (r: Result<usize, NodeError>)
        requires
            old(self).wf(),
            old(self).is_backend(),
            old(self).as_backend().holds(old(node)),
        ensures
            final(self).wf(),
            final(self).is_backend(),
            final(self).as_backend().holds(final(node)),
            old(self).as_backend().write_post(
                old(node),
                data@,
                &final(self).as_backend(),
                final(node),
                r,
            ),
            forall|n: S::Node| #[trigger]
                old(self).as_backend().holds(&n) ==> final(self).as_backend().holds(&n),
    {
        match self {
            Mount::Scheme(s) => s.write(node, data),
            Mount::Links(_) => unreached(),
        }
    }

    fn backend(&self) -> (r: &S)
        requires
            self.is_backend(),
        ensures
            *r == self.as_backend(),
    {
        match self {
            Mount::Scheme(s) => s,
            Mount::Links(_) => unreached(),
        }
    }
}

/// A node that the registry opened: the node of one of its backends.
pub struct VfsNode<N> {
    mount: usize,
    node: N,
}

impl<N> VfsNode<N> {
    /// The place in the registry of the backend that opened the node.
    pub closed spec fn mount(&self) -> nat {
        self.mount as nat
    }

    /// The node of the backend.
    pub closed spec fn inner(&self) -> N {
        self.node
    }

    /// The node of the backend.
    pub fn get_node(&self) -> (r: &N)
        ensures
            *r == self.inner(),
    {
        &self.node
    }
}

impl<N: Node> Node for VfsNode<N> {
    open spec fn can_read(&self) -> bool {
        self.inner().can_read()
    }

    open spec fn can_write(&self) -> bool {
        self.inner().can_write()
    }

    open spec fn can_seek(&self) -> bool {
        self.inner().can_seek()
    }

    fn is_reader(&self) -> (r: bool) {
        self.node.is_reader()
    }

    fn is_writer(&self) -> (r: bool) {
        self.node.is_writer()
    }

    fn is_seeker(&self) -> (r: bool) {
        self.node.is_seeker()
    }
}

/// A failure as it comes back through `hops` redirections: each wraps it as
/// the cause of a generic failure of the scheme of links.
pub open spec fn nested(fault: VfsFault, hops: nat) -> VfsFault
    decreases hops,
{
    if hops == 0 {
        fault
    } else {
        VfsFault::Scheme(
            SchemeFault::Generic(
                Some(VFS_ERROR@),
                SourceFault::Vfs(Box::new(nested(fault, (hops - 1) as nat))),
            ),
        )
    }
}

/// The registry of schemes.
pub struct Vfs<S: Scheme> {
    names: Vec<String>,
    mounts: Vec<Mount<S>>,
}

impl<S: Scheme> Vfs<S> {
    /// The registered names, in the order of registration.
    pub closed spec fn names(&self) -> Seq<Seq<char>> {
        texts(self.names@)
    }

    /// What the names stand for, each at the place of its name.
    pub closed spec fn mounts(&self) -> Seq<Mount<S>> {
        self.mounts@
    }

    /// Every name is registered once and stands for a scheme in order.
    pub open spec fn wf(&self) -> bool {
        &&& self.names().len() == self.mounts().len()
        &&& self.names().no_duplicates()
        &&& forall|i: int| 0 <= i < self.mounts().len() ==> (#[trigger] self.mounts()[i]).wf()
    }

    /// The place of a name, if it is registered.
    pub open spec fn place_of(&self, name: Seq<char>) -> Option<int> {
        if self.names().contains(name) {
            Some(self.names().index_of(name))
        } else {
            None
        }
    }

    /// The node was opened by this registry and can still be used with it.
    pub open spec fn holds(&self, node: &VfsNode<S::Node>) -> bool {
        &&& node.mount() < self.mounts().len()
        &&& self.mounts()[node.mount() as int] is Scheme
        &&& self.mounts()[node.mount() as int]->Scheme_0.holds(&node.inner())
    }

    /// Where a request ends up: the place of the backend, the address that
    /// the backend is asked for, and the number of redirections on the way.
    ///
    /// The name of the address must be registered. Where it stands for a
    /// scheme of links, the request goes on to the destination that the
    /// links give, as long as the budget of redirections lasts. A failure on
    /// the way comes back through the redirections before it.
    pub open spec fn route(&self, url: AddressView, budget: nat) -> Result<
        (int, AddressView, nat),
        VfsFault,
    >
        decreases budget,
    {
        match self.place_of(url.scheme) {
            None => Err(VfsFault::SchemeNotFound(url.scheme)),
            Some(i) => match self.mounts()[i] {
                Mount::Scheme(_) => Ok((i, url, 0)),
                Mount::Links(links) => match destination(links@, url) {
                    Err(fault) => Err(VfsFault::Scheme(fault)),
                    Ok(dest) => if budget == 0 {
                        Err(VfsFault::Scheme(generic(TOO_MANY_REDIRECTS)))
                    } else {
                        match self.route(dest, (budget - 1) as nat) {
                            Ok((place, last, hops)) => Ok((place, last, hops + 1)),
                            Err(fault) => Err(nested(fault, 1)),
                        }
                    },
                },
            },
        }
    }

    /// A route ends at a backend of the registry.
    pub proof fn lemma_route_ends_at_backend(&self, url: AddressView, budget: nat)
        requires
            self.wf(),
        ensures
            self.route(url, budget) matches Ok((place, _, hops)) ==> 0 <= place
                < self.mounts().len() && self.mounts()[place] is Scheme && hops <= budget,
        decreases budget,
    {
        match self.place_of(url.scheme) {
            None => {},
            Some(i) => {
                assert(0 <= i < self.names().len());
                match self.mounts()[i] {
                    Mount::Scheme(_) => {},
                    Mount::Links(links) => match destination(links@, url) {
                        Err(_) => {},
                        Ok(dest) => {
                            if budget > 0 {
                                self.lemma_route_ends_at_backend(dest, (budget - 1) as nat);
                            }
                        },
                    },
                }
            },
        }
    }

    /// All but the mount at `place` are as before, which is a backend as
    /// before.
    pub open spec fn changed_at(&self, after: &Self, place: int) -> bool {
        &&& after.names() == self.names()
        &&& after.mounts().len() == self.mounts().len()
        &&& 0 <= place < self.mounts().len()
        &&& self.mounts()[place] is Scheme
        &&& after.mounts()[place] is Scheme
        &&& forall|j: int|
            0 <= j < self.mounts().len() && j != place ==> #[trigger] after.mounts()[j]
                == self.mounts()[j]
    }

    /// A registry without schemes.
    pub fn empty() -> (r: Self)
        ensures
            r.wf(),
            r.names() == Seq::<Seq<char>>::empty(),
    {
        Self::empty_with_capacity(0)
    }

    /// A registry without schemes, with room for some.
    pub fn empty_with_capacity(capacity: usize) -> (r: Self)
        ensures
            r.wf(),
            r.names() == Seq::<Seq<char>>::empty(),
    {
        let r = Vfs { names: Vec::with_capacity(capacity), mounts: Vec::with_capacity(capacity) };
        assert(r.names() =~= Seq::<Seq<char>>::empty());
        r
    }

    fn find(&self, name: &str) -> (r: Option<usize>)
        requires
            self.wf(),
        ensures
            match r {
                Some(i) => self.place_of(name@) == Some(i as int) && i < self.mounts().len(),
                None => self.place_of(name@).is_none(),
            },
    {
        let mut i: usize = 0;
        while i < self.names.len()
            invariant
                i <= self.names@.len(),
                self.wf(),
                forall|j: int| 0 <= j < i ==> self.names()[j] != name@,
            decreases self.names@.len() - i,
        {
            if same_text(self.names[i].as_str(), name) {
                assert(self.names()[i as int] == name@);
                assert(self.names().contains(name@));
                return Some(i);
            }
            i += 1;
        }
        None
    }

    fn mount_named(&mut self, name: &str, mount: Mount<S>) -> (r: Result<(), VfsError>)
        requires
            old(self).wf(),
            mount.wf(),
        ensures
            final(self).wf(),
            match old(self).place_of(name@) {
                Some(_) => (r matches Err(e) && e@ == VfsFault::SchemeAlreadyExists(name@))
                    && final(self).names() == old(self).names() && final(self).mounts() == old(self).mounts(),
                None => r is Ok && final(self).names() == old(self).names().push(name@) && final(self).mounts() == old(self).mounts().push(mount),
            },
            r is Ok ==> final(self).place_of(name@) == Some(old(self).names().len() as int),
    {
        match self.find(name) {
            Some(_) => Err(VfsError::SchemeAlreadyExists(name.to_owned())),
            None => {
                let ghost before = *self;
                self.names.push(name.to_owned());
                self.mounts.push(mount);
                proof {
                    assert(self.names() =~= before.names().push(name@));
                    assert(self.names()[before.names().len() as int] == name@);
                    assert(self.names().contains(name@));
                    assert forall|i: int, j: int|
                        0 <= i < self.names().len() && 0 <= j < self.names().len() && i
                            != j implies self.names()[i] != self.names()[j] by {
                        if i < before.names().len() && j < before.names().len() {
                        } else if i < before.names().len() {
                            assert(before.names().contains(before.names()[i]));
                        } else {
                            assert(before.names().contains(before.names()[j]));
                        }
                    }
                }
                Ok(())
            },
        }
    }

    /// Registers a backend under a name that is not taken yet.
    pub fn add_scheme(&mut self, scheme_name: &str, scheme: S) -> (r: Result<(), VfsError>)
        requires
            old(self).wf(),
            scheme.wf(),
        ensures
            final(self).wf(),
            match old(self).place_of(scheme_name@) {
                Some(_) => (r matches Err(e) && e@ == VfsFault::SchemeAlreadyExists(scheme_name@))
                    && final(self).names() == old(self).names() && final(self).mounts() == old(self).mounts(),
                None => r is Ok && final(self).names() == old(self).names().push(scheme_name@)
                    && final(self).mounts() == old(self).mounts().push(Mount::Scheme(scheme)),
            },
            r is Ok ==> final(self).place_of(scheme_name@) == Some(
                old(self).names().len() as int,
            ),
    {
        self.mount_named(scheme_name, Mount::Scheme(scheme))
    }

    /// Registers a backend under a name that is not taken yet.
    pub fn add_boxed_scheme(&mut self, scheme_name: &str, scheme: Box<S>) -> (r: Result<
        (),
        VfsError,
    >)
        requires
            old(self).wf(),
            scheme.wf(),
        ensures
            final(self).wf(),
            match old(self).place_of(scheme_name@) {
                Some(_) => (r matches Err(e) && e@ == VfsFault::SchemeAlreadyExists(scheme_name@))
                    && final(self).names() == old(self).names() && final(self).mounts() == old(self).mounts(),
                None => r is Ok && final(self).names() == old(self).names().push(scheme_name@)
                    && final(self).mounts() == old(self).mounts().push(Mount::Scheme(*scheme)),
            },
            r is Ok ==> final(self).place_of(scheme_name@) == Some(
                old(self).names().len() as int,
            ),
    {
        self.mount_named(scheme_name, Mount::Scheme(*scheme))
    }

    /// Registers a scheme of symbolic links under a name that is not taken
    /// yet.
    pub fn add_links(&mut self, scheme_name: &str, links: SymLinkScheme) -> (r: Result<
        (),
        VfsError,
    >)
        requires
            old(self).wf(),
            links.wf(),
        ensures
            final(self).wf(),
            match old(self).place_of(scheme_name@) {
                Some(_) => (r matches Err(e) && e@ == VfsFault::SchemeAlreadyExists(scheme_name@))
                    && final(self).names() == old(self).names() && final(self).mounts() == old(self).mounts(),
                None => r is Ok && final(self).names() == old(self).names().push(scheme_name@)
                    && final(self).mounts() == old(self).mounts().push(Mount::Links(links)),
            },
            r is Ok ==> final(self).place_of(scheme_name@) == Some(
                old(self).names().len() as int,
            ),
    {
        self.mount_named(scheme_name, Mount::Links(links))
    }

    /// What stands under a name.
    pub fn get_scheme(&self, scheme_name: &str) -> (r: Result<&Mount<S>, VfsError>)
        requires
            self.wf(),
        ensures
            match self.place_of(scheme_name@) {
                Some(i) => r matches Ok(mount) && *mount == self.mounts()[i],
                None => r matches Err(e) && e@ == VfsFault::SchemeNotFound(scheme_name@),
            },
    {
        match self.find(scheme_name) {
            Some(i) => Ok(&self.mounts[i]),
            None => Err(VfsError::SchemeNotFound(scheme_name.to_owned())),
        }
    }

    /// What stands under a name, to be changed in place. Whoever changes it
    /// keeps it in order.
    pub fn get_scheme_mut(&mut self, scheme_name: &str) -> (r: Result<&mut Mount<S>, VfsError>)
        requires
            old(self).wf(),
        ensures
            final(self).names() == old(self).names(),
            final(self).mounts().len() == old(self).mounts().len(),
            match old(self).place_of(scheme_name@) {
                Some(i) => r matches Ok(mount) && *mount == old(self).mounts()[i] && final(self).mounts() == old(self).mounts().update(i, *final(mount)),
                None => (r matches Err(e) && e@ == VfsFault::SchemeNotFound(scheme_name@))
                    && final(self).mounts() == old(self).mounts(),
            },
    {
        match self.find(scheme_name) {
            Some(i) => Ok(&mut self.mounts[i]),
            None => Err(VfsError::SchemeNotFound(scheme_name.to_owned())),
        }
    }

    /// The backend under a name. A scheme of links under the name is of the
    /// wrong type.
    pub fn get_scheme_as(&self, scheme_name: &str) -> (r: Result<&S, VfsError>)
        requires
            self.wf(),
        ensures
            match self.place_of(scheme_name@) {
                Some(i) => match self.mounts()[i] {
                    Mount::Scheme(s) => r matches Ok(found) && *found == s,
                    Mount::Links(_) => r matches Err(e) && e@ == VfsFault::SchemeWrongType(
                        scheme_name@,
                        BACKEND_TYPE@,
                    ),
                },
                None => r matches Err(e) && e@ == VfsFault::SchemeNotFound(scheme_name@),
            },
    {
        match self.find(scheme_name) {
            Some(i) => match &self.mounts[i] {
                Mount::Scheme(s) => Ok(s),
                Mount::Links(_) => Err(
                    VfsError::SchemeWrongType(scheme_name.to_owned(), BACKEND_TYPE),
                ),
            },
            None => Err(VfsError::SchemeNotFound(scheme_name.to_owned())),
        }
    }

    /// The backend under a name, to be changed in place. Whoever changes it
    /// keeps it in order.
    pub fn get_scheme_mut_as(&mut self, scheme_name: &str) -> (r: Result<&mut S, VfsError>)
        requires
            old(self).wf(),
        ensures
            final(self).names() == old(self).names(),
            final(self).mounts().len() == old(self).mounts().len(),
            match old(self).place_of(scheme_name@) {
                Some(i) => match old(self).mounts()[i] {
                    Mount::Scheme(s) => r matches Ok(found) && *found == s && final(self).mounts()
                        == old(self).mounts().update(i, Mount::Scheme(*final(found))),
                    Mount::Links(_) => (r matches Err(e) && e@ == VfsFault::SchemeWrongType(
                        scheme_name@,
                        BACKEND_TYPE@,
                    )) && final(self).mounts() == old(self).mounts(),
                },
                None => (r matches Err(e) && e@ == VfsFault::SchemeNotFound(scheme_name@))
                    && final(self).mounts() == old(self).mounts(),
            },
    {
        match self.find(scheme_name) {
            Some(i) => match &mut self.mounts[i] {
                Mount::Scheme(s) => Ok(s),
                Mount::Links(_) => Err(
                    VfsError::SchemeWrongType(scheme_name.to_owned(), BACKEND_TYPE),
                ),
            },
            None => Err(VfsError::SchemeNotFound(scheme_name.to_owned())),
        }
    }

    /// The scheme of links under a name. A backend under the name is of the
    /// wrong type.
    pub fn get_links(&self, scheme_name: &str) -> (r: Result<&SymLinkScheme, VfsError>)
        requires
            self.wf(),
        ensures
            match self.place_of(scheme_name@) {
                Some(i) => match self.mounts()[i] {
                    Mount::Links(links) => r matches Ok(found) && *found == links,
                    Mount::Scheme(_) => r matches Err(e) && e@ == VfsFault::SchemeWrongType(
                        scheme_name@,
                        LINKS_TYPE@,
                    ),
                },
                None => r matches Err(e) && e@ == VfsFault::SchemeNotFound(scheme_name@),
            },
    {
        match self.find(scheme_name) {
            Some(i) => match &self.mounts[i] {
                Mount::Links(links) => Ok(links),
                Mount::Scheme(_) => Err(
                    VfsError::SchemeWrongType(scheme_name.to_owned(), LINKS_TYPE),
                ),
            },
            None => Err(VfsError::SchemeNotFound(scheme_name.to_owned())),
        }
    }

    /// A failure as it comes back through `hops` redirections.
    pub fn nest(error: VfsError, hops: usize) -> (r: VfsError)
        ensures
            r@ == nested(error@, hops as nat),
    {
        let mut wrapped = error;
        let mut done: usize = 0;
        while done < hops
            invariant
                done <= hops,
                wrapped@ == nested(error@, done as nat),
            decreases hops - done,
        {
            wrapped =
            VfsError::SchemeError(
                SchemeError::GenericError(Some(VFS_ERROR), Some(ErrorSource::Vfs(Box::new(wrapped)))),
            );
            done += 1;
        }
        wrapped
    }

    /// Where a request ends up, as `route` says.
    pub fn resolve(&self, url: &Address, budget: usize) -> (r: Result<
        (usize, Address, usize),
        VfsError,
    >)
        requires
            self.wf(),
        ensures
            match self.route(url@, budget as nat) {
                Ok((place, last, hops)) => r matches Ok(found) && found.0 == place && found.1@
                    == last && found.2 == hops && place < self.mounts().len() && self.mounts()[place] is Scheme,
                Err(fault) => r matches Err(e) && e@ == fault,
            },
        decreases budget,
    {
        proof {
            self.lemma_route_ends_at_backend(url@, budget as nat);
        }
        match self.find(url.scheme()) {
            None => Err(VfsError::SchemeNotFound(url.scheme().to_owned())),
            Some(i) => match &self.mounts[i] {
                Mount::Scheme(_) => Ok((i, url.clone(), 0)),
                Mount::Links(links) => {
                    assert(self.mounts()[i as int].wf());
                    match links.get_symlink_dest(url) {
                        Err(e) => Err(VfsError::SchemeError(e)),
                        Ok(dest) => {
                            if budget == 0 {
                                Err(
                                    VfsError::SchemeError(
                                        SchemeError::message(TOO_MANY_REDIRECTS),
                                    ),
                                )
                            } else {
                                match self.resolve(&dest, budget - 1) {
                                    Ok(found) => Ok((found.0, found.1, found.2 + 1)),
                                    Err(e) => Err(Self::nest(e, 1)),
                                }
                            }
                        },
                    }
                },
            },
        }
    }
}

impl<S: Scheme> Vfs<S> {
    /// The request is routed as `route` says, and the backend at the end of
    /// the route opens the node under the address at the end of the route.
    /// What the backend fails with comes back through the redirections.
    pub open spec fn get_node_post(
        &self,
        url: AddressView,
        options: NodeGetOptions,
        after: &Self,
        r: Result<VfsNode<S::Node>, VfsError>,
    ) -> bool {
        match self.route(url, MAX_REDIRECTS as nat) {
            Err(fault) => (r matches Err(e) && e@ == fault) && after.names() == self.names()
                && after.mounts() == self.mounts(),
            Ok((place, last, hops)) => {
                &&& self.changed_at(after, place)
                &&& match r {
                    Ok(node) => node.mount() == place
                        && self.mounts()[place].as_backend().get_node_post(
                        last,
                        options,
                        &after.mounts()[place].as_backend(),
                        Ok(node.inner()),
                    ),
                    Err(e) => exists|inner: SchemeError| #[trigger]
                        self.mounts()[place].as_backend().get_node_post(
                            last,
                            options,
                            &after.mounts()[place].as_backend(),
                            Err(inner),
                        ) && e@ == nested(VfsFault::Scheme(inner@), hops),
                }
            },
        }
    }

    /// The request is routed as `route` says, and the backend at the end of
    /// the route removes what is under the address at the end of the route.
    pub open spec fn remove_node_post(
        &self,
        url: AddressView,
        force: bool,
        after: &Self,
        r: Result<(), VfsError>,
    ) -> bool {
        match self.route(url, MAX_REDIRECTS as nat) {
            Err(fault) => (r matches Err(e) && e@ == fault) && after.names() == self.names()
                && after.mounts() == self.mounts(),
            Ok((place, last, hops)) => {
                &&& self.changed_at(after, place)
                &&& match r {
                    Ok(_) => self.mounts()[place].as_backend().remove_node_post(
                        last,
                        force,
                        &after.mounts()[place].as_backend(),
                        Ok(()),
                    ),
                    Err(e) => exists|inner: SchemeError| #[trigger]
                        self.mounts()[place].as_backend().remove_node_post(
                            last,
                            force,
                            &after.mounts()[place].as_backend(),
                            Err(inner),
                        ) && e@ == nested(VfsFault::Scheme(inner@), hops),
                }
            },
        }
    }

    /// The request is routed as `route` says, and the backend at the end of
    /// the route says what it knows of the address at the end of the route.
    pub open spec fn metadata_post(&self, url: AddressView, r: Result<NodeMetadata, VfsError>) -> bool {
        match self.route(url, MAX_REDIRECTS as nat) {
            Err(fault) => r matches Err(e) && e@ == fault,
            Ok((place, last, hops)) => match r {
                Ok(found) => self.mounts()[place].as_backend().metadata_post(last, Ok(found)),
                Err(e) => exists|inner: SchemeError| #[trigger]
                    self.mounts()[place].as_backend().metadata_post(last, Err(inner)) && e@
                        == nested(VfsFault::Scheme(inner@), hops),
            },
        }
    }

    /// The request is routed as `route` says, and the backend at the end of
    /// the route lists what belongs to the address at the end of the route.
    pub open spec fn read_dir_post(&self, url: AddressView, r: Result<Vec<NodeEntry>, VfsError>) -> bool {
        match self.route(url, MAX_REDIRECTS as nat) {
            Err(fault) => r matches Err(e) && e@ == fault,
            Ok((place, last, hops)) => match r {
                Ok(entries) => self.mounts()[place].as_backend().read_dir_post(last, Ok(entries)),
                Err(e) => exists|inner: SchemeError| #[trigger]
                    self.mounts()[place].as_backend().read_dir_post(last, Err(inner)) && e@
                        == nested(VfsFault::Scheme(inner@), hops),
            },
        }
    }

    /// Opens the node under an address: the scheme that the address names is
    /// asked, and where the name is not registered the request fails.
    pub fn get_node(&mut self, url: &Address, options: &NodeGetOptions) -> (r: Result<
        VfsNode<S::Node>,
        VfsError,
    >)
        requires
            old(self).wf(),
        ensures
            final(self).wf(),
            old(self).get_node_post(url@, *options, final(self), r),
            r matches Ok(node) ==> final(self).holds(&node),
            forall|n: VfsNode<S::Node>| #[trigger] old(self).holds(&n) ==> final(self).holds(&n),
    {
        let (place, last, hops) = match self.resolve(url, MAX_REDIRECTS) {
            Ok(found) => found,
            Err(e) => {
                return Err(e);
            },
        };
        let ghost before = *self;
        assert(self.mounts()[place as int].wf());
        let attempt = self.mounts[place].open(&last, options);
        proof {
            assert(self.names() == before.names());
            assert forall|j: int| 0 <= j < self.mounts().len() implies (
            #[trigger] self.mounts()[j]).wf() by {
                if j != place {
                    assert(self.mounts()[j] == before.mounts()[j]);
                }
            }
            assert forall|n: VfsNode<S::Node>| #[trigger] before.holds(&n) implies self.holds(
                &n,
            ) by {
                if n.mount() == place {
                    assert(before.mounts()[place as int].as_backend().holds(&n.inner()));
                } else {
                    assert(self.mounts()[n.mount() as int] == before.mounts()[n.mount() as int]);
                }
            }
        }
        match attempt {
            Ok(node) => Ok(VfsNode { mount: place, node }),
            Err(inner) => {
                assert(before.mounts()[place as int].as_backend().get_node_post(
                    last@,
                    *options,
                    &self.mounts()[place as int].as_backend(),
                    Err(inner),
                ));
                Err(Self::nest(VfsError::SchemeError(inner), hops))
            },
        }
    }

    /// Removes what is under an address: the scheme that the address names
    /// is asked.
    pub fn remove_node(&mut self, url: &Address, force: bool) -> (r: Result<(), VfsError>)
        requires
            old(self).wf(),
        ensures
            final(self).wf(),
            old(self).remove_node_post(url@, force, final(self), r),
            forall|n: VfsNode<S::Node>| #[trigger] old(self).holds(&n) ==> final(self).holds(&n),
    {
        let (place, last, hops) = match self.resolve(url, MAX_REDIRECTS) {
            Ok(found) => found,
            Err(e) => {
                return Err(e);
            },
        };
        let ghost before = *self;
        assert(self.mounts()[place as int].wf());
        let attempt = self.mounts[place].remove(&last, force);
        proof {
            assert(self.names() == before.names());
            assert forall|j: int| 0 <= j < self.mounts().len() implies (
            #[trigger] self.mounts()[j]).wf() by {
                if j != place {
                    assert(self.mounts()[j] == before.mounts()[j]);
                }
            }
            assert forall|n: VfsNode<S::Node>| #[trigger] before.holds(&n) implies self.holds(
                &n,
            ) by {
                if n.mount() == place {
                    assert(before.mounts()[place as int].as_backend().holds(&n.inner()));
                } else {
                    assert(self.mounts()[n.mount() as int] == before.mounts()[n.mount() as int]);
                }
            }
        }
        match attempt {
            Ok(done) => {
                assert(done == ());
                Ok(())
            },
            Err(inner) => {
                assert(before.mounts()[place as int].as_backend().remove_node_post(
                    last@,
                    force,
                    &self.mounts()[place as int].as_backend(),
                    Err(inner),
                ));
                Err(Self::nest(VfsError::SchemeError(inner), hops))
            },
        }
    }

    /// Says what is known of an address: the scheme that the address names
    /// is asked.
    pub fn metadata(&self, url: &Address) -> (r: Result<NodeMetadata, VfsError>)
        requires
            self.wf(),
        ensures
            self.metadata_post(url@, r),
    {
        let (place, last, hops) = match self.resolve(url, MAX_REDIRECTS) {
            Ok(found) => found,
            Err(e) => {
                return Err(e);
            },
        };
        assert(self.mounts()[place as int].wf());
        let answer = self.mounts[place].backend().metadata(&last);
        match answer {
            Ok(found) => Ok(found),
            Err(inner) => {
                assert(self.mounts()[place as int].as_backend().metadata_post(last@, Err(inner)));
                Err(Self::nest(VfsError::SchemeError(inner), hops))
            },
        }
    }

    /// Lists what belongs to an address: the scheme that the address names
    /// is asked.
    pub fn read_dir(&self, url: &Address) -> (r: Result<Vec<NodeEntry>, VfsError>)
        requires
            self.wf(),
        ensures
            self.read_dir_post(url@, r),
    {
        let (place, last, hops) = match self.resolve(url, MAX_REDIRECTS) {
            Ok(found) => found,
            Err(e) => {
                return Err(e);
            },
        };
        assert(self.mounts()[place as int].wf());
        let answer = self.mounts[place].backend().read_dir(&last);
        match answer {
            Ok(entries) => Ok(entries),
            Err(inner) => {
                assert(self.mounts()[place as int].as_backend().read_dir_post(last@, Err(inner)));
                Err(Self::nest(VfsError::SchemeError(inner), hops))
            },
        }
    }

    /// As `get_node`, for an address given as text. A text that is no
    /// address fails.
    pub fn get_node_at(&mut self, uri: &str, options: &NodeGetOptions) -> (r: Result<
        VfsNode<S::Node>,
        VfsError,
    >)
        requires
            old(self).wf(),
        ensures
            final(self).wf(),
            match parsed_url(uri@) {
                Some(url) => old(self).get_node_post(url, *options, final(self), r),
                None => (r matches Err(e) && e@ == VfsFault::UrlParseFailed) && final(self).names()
                    == old(self).names() && final(self).mounts() == old(self).mounts(),
            },
            r matches Ok(node) ==> final(self).holds(&node),
            forall|n: VfsNode<S::Node>| #[trigger] old(self).holds(&n) ==> final(self).holds(&n),
    {
        match Address::parse(uri) {
            Ok(url) => self.get_node(&url, options),
            Err(reason) => Err(VfsError::UrlParseFailed(reason)),
        }
    }

    /// As `remove_node`, for an address given as text.
    pub fn remove_node_at(&mut self, uri: &str, force: bool) -> (r: Result<(), VfsError>)
        requires
            old(self).wf(),
        ensures
            final(self).wf(),
            match parsed_url(uri@) {
                Some(url) => old(self).remove_node_post(url, force, final(self), r),
                None => (r matches Err(e) && e@ == VfsFault::UrlParseFailed) && final(self).names()
                    == old(self).names() && final(self).mounts() == old(self).mounts(),
            },
            forall|n: VfsNode<S::Node>| #[trigger] old(self).holds(&n) ==> final(self).holds(&n),
    {
        match Address::parse(uri) {
            Ok(url) => self.remove_node(&url, force),
            Err(reason) => Err(VfsError::UrlParseFailed(reason)),
        }
    }

    /// As `metadata`, for an address given as text.
    pub fn metadata_at(&self, uri: &str) -> (r: Result<NodeMetadata, VfsError>)
        requires
            self.wf(),
        ensures
            match parsed_url(uri@) {
                Some(url) => self.metadata_post(url, r),
                None => r matches Err(e) && e@ == VfsFault::UrlParseFailed,
            },
    {
        match Address::parse(uri) {
            Ok(url) => self.metadata(&url),
            Err(reason) => Err(VfsError::UrlParseFailed(reason)),
        }
    }

    /// As `read_dir`, for an address given as text.
    pub fn read_dir_at(&self, uri: &str) -> (r: Result<Vec<NodeEntry>, VfsError>)
        requires
            self.wf(),
        ensures
            match parsed_url(uri@) {
                Some(url) => self.read_dir_post(url, r),
                None => r matches Err(e) && e@ == VfsFault::UrlParseFailed,
            },
    {
        match Address::parse(uri) {
            Ok(url) => self.read_dir(&url),
            Err(reason) => Err(VfsError::UrlParseFailed(reason)),
        }
    }

    /// Whether a node was opened by this registry and can still be used
    /// with it.
    pub fn owns(&self, node: &VfsNode<S::Node>) -> (r: bool)
        requires
            self.wf(),
        ensures
            r == self.holds(node),
    {
        if node.mount < self.mounts.len() {
            assert(self.mounts()[node.mount as int].wf());
            match &self.mounts[node.mount] {
                Mount::Scheme(s) => s.owns(&node.node),
                Mount::Links(_) => false,
            }
        } else {
            false
        }
    }

    /// The backend that opened the node reads.
    pub fn read(&self, node: &mut VfsNode<S::Node>, buf: &mut [u8]) -> (r: Result<usize, NodeError>)
        requires
            self.wf(),
            self.holds(old(node)),
        ensures
            self.holds(final(node)),
            final(node).mount() == old(node).mount(),
            self.mounts()[old(node).mount() as int].as_backend().read_post(
                &old(node).inner(),
                old(buf)@,
                &final(node).inner(),
                final(buf)@,
                r,
            ),
    {
        assert(self.mounts()[node.mount as int].wf());
        self.mounts[node.mount].backend().read(&mut node.node, buf)
    }

    /// The backend that opened the node writes; the other schemes stay.
    pub fn write(&mut self, node: &mut VfsNode<S::Node>, data: &[u8]) -> (r: Result<
        usize,
        NodeError,
    >)
        requires
            old(self).wf(),
            old(self).holds(old(node)),
        ensures
            final(self).wf(),
            final(self).holds(final(node)),
            final(node).mount() == old(node).mount(),
            old(self).changed_at(final(self), old(node).mount() as int),
            old(self).mounts()[old(node).mount() as int].as_backend().write_post(
                &old(node).inner(),
                data@,
                &final(self).mounts()[old(node).mount() as int].as_backend(),
                &final(node).inner(),
                r,
            ),
            forall|n: VfsNode<S::Node>| #[trigger] old(self).holds(&n) ==> final(self).holds(&n),
    {
        let ghost before = *self;
        let place = node.mount;
        assert(self.mounts()[place as int].wf());
        let r = self.mounts[place].write_to(&mut node.node, data);
        proof {
            assert(self.names() == before.names());
            assert forall|j: int| 0 <= j < self.mounts().len() implies (
            #[trigger] self.mounts()[j]).wf() by {
                if j != place {
                    assert(self.mounts()[j] == before.mounts()[j]);
                }
            }
            assert forall|n: VfsNode<S::Node>| #[trigger] before.holds(&n) implies self.holds(
                &n,
            ) by {
                if n.mount() == place {
                    assert(before.mounts()[place as int].as_backend().holds(&n.inner()));
                } else {
                    assert(self.mounts()[n.mount() as int] == before.mounts()[n.mount() as int]);
                }
            }
        }
        r
    }

    /// The backend that opened the node seeks.
    pub fn seek(&self, node: &mut VfsNode<S::Node>, pos: SeekFrom) -> (r: Result<u64, NodeError>)
        requires
            self.wf(),
            self.holds(old(node)),
        ensures
            self.holds(final(node)),
            final(node).mount() == old(node).mount(),
            self.mounts()[old(node).mount() as int].as_backend().seek_post(
                &old(node).inner(),
                pos,
                &final(node).inner(),
                r,
            ),
    {
        assert(self.mounts()[node.mount as int].wf());
        self.mounts[node.mount].backend().seek(&mut node.node, pos)
    }
}

impl Vfs<DataLoaderScheme> {
    /// Registers the data scheme under the name `data`.
    pub fn add_default_schemes(&mut self) -> (r: Result<(), VfsError>)
        requires
            old(self).wf(),
        ensures
            final(self).wf(),
            match old(self).place_of("data"@) {
                Some(_) => (r matches Err(e) && e@ == VfsFault::SchemeAlreadyExists("data"@))
                    && final(self).names() == old(self).names() && final(self).mounts() == old(self).mounts(),
                None => r is Ok && final(self).names() == old(self).names().push("data"@)
                    && final(self).mounts().len() == old(self).mounts().len() + 1,
            },
    {
        self.add_scheme("data", DataLoaderScheme::default())
    }
}

impl Default for Vfs<DataLoaderScheme> {
    /// A registry with the data scheme under the name `data`.
    fn default() -> (r: Self)
        ensures
            r.wf(),
            r.names() == seq!["data"@],
    {
        let mut vfs = Self::empty_with_capacity(10);
        assert(!vfs.names().contains("data"@));
        let added = vfs.add_default_schemes();
        assert(vfs.names() =~= seq!["data"@]);
        vfs
    }
}

} // verus!
