//! The overlay: an ordered list of layers, each a scheme with an access mode,
//! that answers a request from the first layer that can.
//!
//! The list is fixed once the overlay is built. What a layer fails with is
//! dropped: where every layer fails or is passed over, the overlay says that
//! the node does not exist.

use crate::address::{Address, AddressView};
use crate::errors::{NodeError, SchemeError, SchemeFault};
use crate::node::{Node, SeekFrom};
use crate::scheme::{NodeEntry, NodeGetOptions, NodeMetadata, Scheme};
use crate::schemes::memory::MemoryScheme;
use vstd::prelude::*;

verus! {

/// A layer: a scheme, and what it may be asked for.
pub enum OverlayAccess<S> {
    /// Asked only by requests to read.
    Read(S),
    /// Asked only by requests to write.
    Write(S),
    /// Asked by requests to read or to write.
    ReadWrite(S),
}

impl<S: Scheme> OverlayAccess<S> {
    /// The scheme of the layer.
    pub open spec fn scheme(&self) -> &S {
        match self {
            OverlayAccess::Read(s) => s,
            OverlayAccess::Write(s) => s,
            OverlayAccess::ReadWrite(s) => s,
        }
    }

    /// Whether a request to open with these options is put to the layer.
    pub open spec fn allows_get(&self, options: NodeGetOptions) -> bool {
        match self {
            OverlayAccess::Read(_) => options.reads(),
            OverlayAccess::Write(_) => options.writes(),
            OverlayAccess::ReadWrite(_) => options.reads() || options.writes(),
        }
    }

    /// Whether a request to remove is put to the layer.
    pub open spec fn allows_remove(&self) -> bool {
        !(self is Read)
    }

    /// Two layers of the same access mode.
    pub open spec fn same_access(&self, other: &Self) -> bool {
        &&& self is Read <==> other is Read
        &&& self is Write <==> other is Write
        &&& self is ReadWrite <==> other is ReadWrite
    }

    /// Whether a request to open with these options is put to the layer.
    pub fn eligible(&self, options: &NodeGetOptions) -> (r: bool)
        ensures
            r == self.allows_get(*options),
    {
        match self {
            OverlayAccess::Read(_) => options.get_read(),
            OverlayAccess::Write(_) => options.get_write(),
            OverlayAccess::ReadWrite(_) => options.get_read() || options.get_write(),
        }
    }

    /// Whether a request to remove is put to the layer.
    pub fn writable(&self) -> (r: bool)
        ensures
            r == self.allows_remove(),
    {
        match self {
            OverlayAccess::Read(_) => false,
            OverlayAccess::Write(_) => true,
            OverlayAccess::ReadWrite(_) => true,
        }
    }

    /// The scheme of the layer.
    pub fn get_scheme(&self) -> (r: &S)
        ensures
            r == self.scheme(),
    {
        match self {
            OverlayAccess::Read(s) => s,
            OverlayAccess::Write(s) => s,
            OverlayAccess::ReadWrite(s) => s,
        }
    }

    fn open(&mut self, url: &Address, options: &NodeGetOptions) -> (r: Result<S::Node, SchemeError>)
        requires
            old(self).scheme().wf(),
        ensures
            final(self).scheme().wf(),
            old(self).same_access(final(self)),
            old(self).scheme().get_node_post(url@, *options, final(self).scheme(), r),
            r matches Ok(node) ==> final(self).scheme().holds(&node),
            forall|n: S::Node| #[trigger]
                old(self).scheme().holds(&n) ==> final(self).scheme().holds(&n),
    {
        match self {
            OverlayAccess::Read(s) => s.get_node(url, options),
            OverlayAccess::Write(s) => s.get_node(url, options),
            OverlayAccess::ReadWrite(s) => s.get_node(url, options),
        }
    }

    fn remove(&mut self, url: &Address, force: bool) -> (r: Result<(), SchemeError>)
        requires
            old(self).scheme().wf(),
        ensures
            final(self).scheme().wf(),
            old(self).same_access(final(self)),
            old(self).scheme().remove_node_post(url@, force, final(self).scheme(), r),
            forall|n: S::Node| #[trigger]
                old(self).scheme().holds(&n) ==> final(self).scheme().holds(&n),
    {
        match self {
            OverlayAccess::Read(s) => s.remove_node(url, force),
            OverlayAccess::Write(s) => s.remove_node(url, force),
            OverlayAccess::ReadWrite(s) => s.remove_node(url, force),
        }
    }

    fn write_to(&mut self, node: &mut S::Node, data: &[u8]) -> (r: Result<usize, NodeError>)
        requires
            old(self).scheme().wf(),
            old(self).scheme().holds(old(node)),
        ensures
            final(self).scheme().wf(),
            old(self).same_access(final(self)),
            final(self).scheme().holds(final(node)),
            old(self).scheme().write_post(old(node), data@, final(self).scheme(), final(node), r),
            forall|n: S::Node| #[trigger]
                old(self).scheme().holds(&n) ==> final(self).scheme().holds(&n),
    {
        match self {
            OverlayAccess::Read(s) => s.write(node, data),
            OverlayAccess::Write(s) => s.write(node, data),
            OverlayAccess::ReadWrite(s) => s.write(node, data),
        }
    }
}

/// A node that an overlay opened: the node of one of its layers.
pub struct OverlayNode<N> {
    layer: usize,
    node: N,
}

impl<N> OverlayNode<N> {
    /// The place of the layer that opened the node.
    pub closed spec fn layer(&self) -> nat {
        self.layer as nat
    }

    /// The node of the layer.
    pub closed spec fn inner(&self) -> N {
        self.node
    }

    /// The node of the layer at a place.
    pub fn new(layer: usize, node: N) -> (r: Self)
        ensures
            r.layer() == layer,
            r.inner() == node,
    {
        OverlayNode { layer, node }
    }

    /// The place of the layer that opened the node.
    pub fn get_layer(&self) -> (r: usize)
        ensures
            r == self.layer(),
    {
        self.layer
    }

    /// The node of the layer.
    pub fn get_node(&self) -> (r: &N)
        ensures
            *r == self.inner(),
    {
        &self.node
    }
}

impl<N: Node> Node for OverlayNode<N> {
    open spec fn can_read(&self) -> bool {
        self.inner().can_read()
    }

    open spec fn can_write(&self) -> bool {
        self.inner().can_write()
    }

    open spec fn can_seek(&self) -> bool {
        self.inner().can_seek()
    }

    fn is_reader(&self) -> (r: bool) {
        self.node.is_reader()
    }

    fn is_writer(&self) -> (r: bool) {
        self.node.is_writer()
    }

    fn is_seeker(&self) -> (r: bool) {
        self.node.is_seeker()
    }
}

/// The union of several schemes.
pub struct OverlayScheme<S: Scheme> {
    overlays: Vec<OverlayAccess<S>>,
}

/// An overlay in the making.
pub struct OverlaySchemeBuilder<S: Scheme> {
    overlays: Vec<OverlayAccess<S>>,
}

/// The entries of a listing; none where the listing failed.
pub open spec fn entries_of(r: Result<Vec<NodeEntry>, SchemeError>) -> Seq<NodeEntry> {
    match r {
        Ok(entries) => entries@,
        Err(_) => Seq::empty(),
    }
}

/// The entries of several listings in one: those of a later listing before
/// those of an earlier one.
pub open spec fn gathered(results: Seq<Result<Vec<NodeEntry>, SchemeError>>) -> Seq<NodeEntry>
    decreases results.len(),
{
    if results.len() == 0 {
        Seq::empty()
    } else {
        gathered(results.skip(1)) + entries_of(results[0])
    }
}

impl<S: Scheme> OverlayScheme<S> {
    /// The layers, in the order in which they are asked.
    pub closed spec fn layers(&self) -> Seq<OverlayAccess<S>> {
        self.overlays@
    }

    /// A layer was not asked to open, or was asked and failed.
    pub open spec fn passed_get(
        before: &OverlayAccess<S>,
        after: &OverlayAccess<S>,
        url: AddressView,
        options: NodeGetOptions,
    ) -> bool {
        if before.allows_get(options) {
            &&& before.same_access(after)
            &&& exists|e: SchemeError| #[trigger]
                before.scheme().get_node_post(url, options, after.scheme(), Err(e))
        } else {
            after == before
        }
    }

    /// A layer was not asked to remove, or was asked and failed.
    pub open spec fn passed_remove(
        before: &OverlayAccess<S>,
        after: &OverlayAccess<S>,
        url: AddressView,
        force: bool,
    ) -> bool {
        if before.allows_remove() {
            &&& before.same_access(after)
            &&& exists|e: SchemeError| #[trigger]
                before.scheme().remove_node_post(url, force, after.scheme(), Err(e))
        } else {
            after == before
        }
    }

    /// A layer knows nothing of an address.
    pub open spec fn passed_metadata(layer: &OverlayAccess<S>, url: AddressView) -> bool {
        exists|e: SchemeError| #[trigger] layer.scheme().metadata_post(url, Err(e))
    }

    /// An overlay of one layer that is asked by requests to read.
    pub fn builder_read(first_overlay: S) -> (r: OverlaySchemeBuilder<S>)
        requires
            first_overlay.wf(),
        ensures
            r.wf(),
            r.layers() == seq![OverlayAccess::Read(first_overlay)],
    {
        let mut overlays = Vec::new();
        overlays.push(OverlayAccess::Read(first_overlay));
        OverlaySchemeBuilder { overlays }
    }

    /// An overlay of one layer that is asked by requests to write.
    pub fn builder_write(first_overlay: S) -> (r: OverlaySchemeBuilder<S>)
        requires
            first_overlay.wf(),
        ensures
            r.wf(),
            r.layers() == seq![OverlayAccess::Write(first_overlay)],
    {
        let mut overlays = Vec::new();
        overlays.push(OverlayAccess::Write(first_overlay));
        OverlaySchemeBuilder { overlays }
    }

    /// An overlay of one layer that is asked by requests to read or write.
    pub fn builder_read_write(first_overlay: S) -> (r: OverlaySchemeBuilder<S>)
        requires
            first_overlay.wf(),
        ensures
            r.wf(),
            r.layers() == seq![OverlayAccess::ReadWrite(first_overlay)],
    {
        let mut overlays = Vec::new();
        overlays.push(OverlayAccess::ReadWrite(first_overlay));
        OverlaySchemeBuilder { overlays }
    }

    /// As `builder_read`, for a layer in a box.
    pub fn builder_boxed_read(first_overlay: Box<S>) -> (r: OverlaySchemeBuilder<S>)
        requires
            first_overlay.wf(),
        ensures
            r.wf(),
            r.layers() == seq![OverlayAccess::Read(*first_overlay)],
    {
        Self::builder_read(*first_overlay)
    }

    /// As `builder_write`, for a layer in a box.
    pub fn builder_boxed_write(first_overlay: Box<S>) -> (r: OverlaySchemeBuilder<S>)
        requires
            first_overlay.wf(),
        ensures
            r.wf(),
            r.layers() == seq![OverlayAccess::Write(*first_overlay)],
    {
        Self::builder_write(*first_overlay)
    }

    /// As `builder_read_write`, for a layer in a box.
    pub fn builder_boxed_read_write(first_overlay: Box<S>) -> (r: OverlaySchemeBuilder<S>)
        requires
            first_overlay.wf(),
        ensures
            r.wf(),
            r.layers() == seq![OverlayAccess::ReadWrite(*first_overlay)],
    {
        Self::builder_read_write(*first_overlay)
    }

    /// The number of layers.
    pub fn layer_count(&self) -> (r: usize)
        ensures
            r == self.layers().len(),
    {
        self.overlays.len()
    }

    /// The layer at a place.
    pub fn layer(&self, place: usize) -> (r: &OverlayAccess<S>)
        requires
            place < self.layers().len(),
        ensures
            *r == self.layers()[place as int],
    {
        &self.overlays[place]
    }
}

impl<S: Scheme> OverlaySchemeBuilder<S> {
    /// The layers so far, in the order in which they will be asked.
    pub closed spec fn layers(&self) -> Seq<OverlayAccess<S>> {
        self.overlays@
    }

    /// There is a layer, and every layer is in order.
    pub open spec fn wf(&self) -> bool {
        &&& self.layers().len() >= 1
        &&& forall|i: int| 0 <= i < self.layers().len() ==> (#[trigger] self.layers()[i]).scheme().wf()
    }

    /// The overlay of the layers so far.
    pub fn build(self) -> (r: OverlayScheme<S>)
        requires
            self.wf(),
        ensures
            r.wf(),
            r.layers() == self.layers(),
    {
        OverlayScheme { overlays: self.overlays }
    }

    /// One more layer, asked last and only by requests to read.
    pub fn read(self, overlay: S) -> (r: Self)
        requires
            self.wf(),
            overlay.wf(),
        ensures
            r.wf(),
            r.layers() == self.layers().push(OverlayAccess::Read(overlay)),
    {
        let mut overlays = self.overlays;
        overlays.push(OverlayAccess::Read(overlay));
        OverlaySchemeBuilder { overlays }
    }

    /// One more layer, asked last and only by requests to write.
    pub fn write(self, overlay: S) -> (r: Self)
        requires
            self.wf(),
            overlay.wf(),
        ensures
            r.wf(),
            r.layers() == self.layers().push(OverlayAccess::Write(overlay)),
    {
        let mut overlays = self.overlays;
        overlays.push(OverlayAccess::Write(overlay));
        OverlaySchemeBuilder { overlays }
    }

    /// One more layer, asked last by requests to read or write.
    pub fn read_write(self, overlay: S) -> (r: Self)
        requires
            self.wf(),
            overlay.wf(),
        ensures
            r.wf(),
            r.layers() == self.layers().push(OverlayAccess::ReadWrite(overlay)),
    {
        let mut overlays = self.overlays;
        overlays.push(OverlayAccess::ReadWrite(overlay));
        OverlaySchemeBuilder { overlays }
    }

    /// As `read`, for a layer in a box.
    pub fn boxed_read(self, overlay: Box<S>) -> (r: Self)
        requires
            self.wf(),
            overlay.wf(),
        ensures
            r.wf(),
            r.layers() == self.layers().push(OverlayAccess::Read(*overlay)),
    {
        self.read(*overlay)
    }

    /// As `write`, for a layer in a box.
    pub fn boxed_write(self, overlay: Box<S>) -> (r: Self)
        requires
            self.wf(),
            overlay.wf(),
        ensures
            r.wf(),
            r.layers() == self.layers().push(OverlayAccess::Write(*overlay)),
    {
        self.write(*overlay)
    }

    /// As `read_write`, for a layer in a box.
    pub fn boxed_read_write(self, overlay: Box<S>) -> (r: Self)
        requires
            self.wf(),
            overlay.wf(),
        ensures
            r.wf(),
            r.layers() == self.layers().push(OverlayAccess::ReadWrite(*overlay)),
    {
        self.read_write(*overlay)
    }
}

impl<S: Scheme> Scheme for OverlayScheme<S> {
    type Node = OverlayNode<S::Node>;

    /// There is a layer, and every layer is in order.
    open spec fn wf(&self) -> bool {
        &&& self.layers().len() >= 1
        &&& forall|i: int| 0 <= i < self.layers().len() ==> (#[trigger] self.layers()[i]).scheme().wf()
    }

    open spec fn holds(&self, node: &OverlayNode<S::Node>) -> bool {
        &&& node.layer() < self.layers().len()
        &&& self.layers()[node.layer() as int].scheme().holds(&node.inner())
    }

    /// The layers are asked in order, each that the options admit: a layer
    /// asked only by requests to read where the options read, one asked only
    /// by requests to write where they write, one asked by both where they do
    /// either. The first that opens the node gives it; the layers behind it
    /// are not asked. Where none does, the node does not exist.
    open spec fn get_node_post(
        &self,
        url: AddressView,
        options: NodeGetOptions,
        after: &Self,
        r: Result<OverlayNode<S::Node>, SchemeError>,
    ) -> bool {
        &&& after.layers().len() == self.layers().len()
        &&& match r {
            Ok(node) => {
                let k = node.layer() as int;
                &&& k < self.layers().len()
                &&& self.layers()[k].allows_get(options)
                &&& self.layers()[k].same_access(&after.layers()[k])
                &&& self.layers()[k].scheme().get_node_post(
                    url,
                    options,
                    after.layers()[k].scheme(),
                    Ok(node.inner()),
                )
                &&& forall|j: int|
                    0 <= j < k ==> Self::passed_get(
                        &self.layers()[j],
                        #[trigger] &after.layers()[j],
                        url,
                        options,
                    )
                &&& forall|j: int|
                    k < j < self.layers().len() ==> #[trigger] after.layers()[j] == self.layers()[j]
            },
            Err(e) => {
                &&& e@ == SchemeFault::NodeDoesNotExist(url.path)
                &&& forall|j: int|
                    0 <= j < self.layers().len() ==> Self::passed_get(
                        &self.layers()[j],
                        #[trigger] &after.layers()[j],
                        url,
                        options,
                    )
            },
        }
    }

    /// The layers that may be written are asked in order; the first that
    /// removes ends it. Layers asked only by requests to read are passed
    /// over. Where none removes, the node does not exist.
    open spec fn remove_node_post(
        &self,
        url: AddressView,
        force: bool,
        after: &Self,
        r: Result<(), SchemeError>,
    ) -> bool {
        &&& after.layers().len() == self.layers().len()
        &&& match r {
            Ok(_) => exists|k: int|
                {
                    &&& 0 <= k < self.layers().len()
                    &&& self.layers()[k].allows_remove()
                    &&& self.layers()[k].same_access(&after.layers()[k])
                    &&& #[trigger] self.layers()[k].scheme().remove_node_post(
                        url,
                        force,
                        after.layers()[k].scheme(),
                        Ok(()),
                    )
                    &&& forall|j: int|
                        0 <= j < k ==> Self::passed_remove(
                            &self.layers()[j],
                            #[trigger] &after.layers()[j],
                            url,
                            force,
                        )
                    &&& forall|j: int|
                        k < j < self.layers().len() ==> #[trigger] after.layers()[j]
                            == self.layers()[j]
                },
            Err(e) => {
                &&& e@ == SchemeFault::NodeDoesNotExist(url.path)
                &&& forall|j: int|
                    0 <= j < self.layers().len() ==> Self::passed_remove(
                        &self.layers()[j],
                        #[trigger] &after.layers()[j],
                        url,
                        force,
                    )
            },
        }
    }

    /// Every layer is asked in order, whatever its access mode; the first
    /// that knows the address answers. Where none does, the node does not
    /// exist.
    open spec fn metadata_post(&self, url: AddressView, r: Result<NodeMetadata, SchemeError>) -> bool {
        match r {
            Ok(found) => exists|k: int|
                {
                    &&& 0 <= k < self.layers().len()
                    &&& #[trigger] self.layers()[k].scheme().metadata_post(url, Ok(found))
                    &&& forall|j: int|
                        0 <= j < k ==> Self::passed_metadata(#[trigger] &self.layers()[j], url)
                },
            Err(e) => {
                &&& e@ == SchemeFault::NodeDoesNotExist(url.path)
                &&& forall|j: int|
                    0 <= j < self.layers().len() ==> Self::passed_metadata(
                        #[trigger] &self.layers()[j],
                        url,
                    )
            },
        }
    }

    /// Every layer is asked. The listings that succeed come one after the
    /// other, that of the last layer first; an entry that several layers
    /// list is there several times.
    open spec fn read_dir_post(&self, url: AddressView, r: Result<Vec<NodeEntry>, SchemeError>) -> bool {
        r matches Ok(entries) && exists|results: Seq<Result<Vec<NodeEntry>, SchemeError>>|
            {
                &&& results.len() == self.layers().len()
                &&& forall|i: int|
                    0 <= i < results.len() ==> self.layers()[i].scheme().read_dir_post(
                        url,
                        #[trigger] results[i],
                    )
                &&& entries@ == gathered(results)
            }
    }

    /// The layer that opened the node reads.
    open spec fn read_post(
        &self,
        node: &OverlayNode<S::Node>,
        room: Seq<u8>,
        node_after: &OverlayNode<S::Node>,
        filled: Seq<u8>,
        r: Result<usize, NodeError>,
    ) -> bool {
        &&& node_after.layer() == node.layer()
        &&& self.layers()[node.layer() as int].scheme().read_post(
            &node.inner(),
            room,
            &node_after.inner(),
            filled,
            r,
        )
    }

    /// The layer that opened the node writes; the other layers stay.
    open spec fn write_post(
        &self,
        node: &OverlayNode<S::Node>,
        data: Seq<u8>,
        after: &Self,
        node_after: &OverlayNode<S::Node>,
        r: Result<usize, NodeError>,
    ) -> bool {
        let k = node.layer() as int;
        &&& node_after.layer() == node.layer()
        &&& after.layers().len() == self.layers().len()
        &&& self.layers()[k].same_access(&after.layers()[k])
        &&& self.layers()[k].scheme().write_post(
            &node.inner(),
            data,
            after.layers()[k].scheme(),
            &node_after.inner(),
            r,
        )
        &&& forall|j: int|
            0 <= j < self.layers().len() && j != k ==> #[trigger] after.layers()[j]
                == self.layers()[j]
    }

    /// The layer that opened the node seeks.
    open spec fn seek_post(
        &self,
        node: &OverlayNode<S::Node>,
        pos: SeekFrom,
        node_after: &OverlayNode<S::Node>,
        r: Result<u64, NodeError>,
    ) -> bool {
        &&& node_after.layer() == node.layer()
        &&& self.layers()[node.layer() as int].scheme().seek_post(
            &node.inner(),
            pos,
            &node_after.inner(),
            r,
        )
    }

    fn owns(&self, node: &OverlayNode<S::Node>) -> (r: bool) {
        if node.layer < self.overlays.len() {
            self.overlays[node.layer].get_scheme().owns(&node.node)
        } else {
            false
        }
    }

    fn get_node(&mut self, url: &Address, options: &NodeGetOptions) -> (r: Result<
        OverlayNode<S::Node>,
        SchemeError,
    >) {
        let mut i: usize = 0;
        while i < self.overlays.len()
            invariant
                i <= self.overlays@.len(),
                self.overlays@.len() == old(self).overlays@.len(),
                self.wf(),
                forall|j: int|
                    0 <= j < i ==> Self::passed_get(
                        &old(self).overlays@[j],
                        #[trigger] &self.overlays@[j],
                        url@,
                        *options,
                    ),
                forall|j: int|
                    i <= j < self.overlays@.len() ==> #[trigger] self.overlays@[j] == old(
                        self,
                    ).overlays@[j],
                forall|n: OverlayNode<S::Node>| #[trigger]
                    old(self).holds(&n) ==> self.holds(&n),
            decreases self.overlays@.len() - i,
        {
            let ghost before = *self;
            if self.overlays[i].eligible(options) {
                let attempt = self.overlays[i].open(url, options);
                proof {
                    assert forall|n: OverlayNode<S::Node>| #[trigger]
                        old(self).holds(&n) implies self.holds(&n) by {
                        assert(before.holds(&n));
                        if n.layer() == i {
                            assert(before.overlays@[i as int].scheme().holds(&n.inner()));
                        } else {
                            assert(self.overlays@[n.layer() as int] == before.overlays@[n.layer() as int]);
                        }
                    }
                    assert forall|j: int| 0 <= j < self.overlays@.len() implies (
                    #[trigger] self.overlays@[j]).scheme().wf() by {
                        if j != i {
                            assert(self.overlays@[j] == before.overlays@[j]);
                        }
                    }
                    assert forall|j: int| 0 <= j < i implies Self::passed_get(
                        &old(self).overlays@[j],
                        #[trigger] &self.overlays@[j],
                        url@,
                        *options,
                    ) by {
                        assert(self.overlays@[j] == before.overlays@[j]);
                    }
                }
                match attempt {
                    Ok(node) => {
                        return Ok(OverlayNode { layer: i, node });
                    },
                    Err(e) => {
                        assert(before.overlays@[i as int].scheme().get_node_post(
                            url@,
                            *options,
                            self.overlays@[i as int].scheme(),
                            Err(e),
                        ));
                    },
                }
            }
            i += 1;
        }
        Err(SchemeError::missing(url.path()))
    }

    fn remove_node(&mut self, url: &Address, force: bool) -> (r: Result<(), SchemeError>) {
        let mut i: usize = 0;
        while i < self.overlays.len()
            invariant
                i <= self.overlays@.len(),
                self.overlays@.len() == old(self).overlays@.len(),
                self.wf(),
                forall|j: int|
                    0 <= j < i ==> Self::passed_remove(
                        &old(self).overlays@[j],
                        #[trigger] &self.overlays@[j],
                        url@,
                        force,
                    ),
                forall|j: int|
                    i <= j < self.overlays@.len() ==> #[trigger] self.overlays@[j] == old(
                        self,
                    ).overlays@[j],
                forall|n: OverlayNode<S::Node>| #[trigger]
                    old(self).holds(&n) ==> self.holds(&n),
            decreases self.overlays@.len() - i,
        {
            let ghost before = *self;
            if self.overlays[i].writable() {
                let attempt = self.overlays[i].remove(url, force);
                proof {
                    assert forall|n: OverlayNode<S::Node>| #[trigger]
                        old(self).holds(&n) implies self.holds(&n) by {
                        assert(before.holds(&n));
                        if n.layer() == i {
                            assert(before.overlays@[i as int].scheme().holds(&n.inner()));
                        } else {
                            assert(self.overlays@[n.layer() as int] == before.overlays@[n.layer() as int]);
                        }
                    }
                    assert forall|j: int| 0 <= j < self.overlays@.len() implies (
                    #[trigger] self.overlays@[j]).scheme().wf() by {
                        if j != i {
                            assert(self.overlays@[j] == before.overlays@[j]);
                        }
                    }
                    assert forall|j: int| 0 <= j < i implies Self::passed_remove(
                        &old(self).overlays@[j],
                        #[trigger] &self.overlays@[j],
                        url@,
                        force,
                    ) by {
                        assert(self.overlays@[j] == before.overlays@[j]);
                    }
                }
                match attempt {
                    Ok(done) => {
                        assert(old(self).layers()[i as int].scheme().remove_node_post(
                            url@,
                            force,
                            self.layers()[i as int].scheme(),
                            Ok(done),
                        ));
                        assert(done == ());
                        return Ok(());
                    },
                    Err(e) => {
                        assert(before.overlays@[i as int].scheme().remove_node_post(
                            url@,
                            force,
                            self.overlays@[i as int].scheme(),
                            Err(e),
                        ));
                    },
                }
            }
            i += 1;
        }
        Err(SchemeError::missing(url.path()))
    }

    fn metadata(&self, url: &Address) -> (r: Result<NodeMetadata, SchemeError>) {
        let mut i: usize = 0;
        while i < self.overlays.len()
            invariant
                i <= self.overlays@.len(),
                self.wf(),
                forall|j: int|
                    0 <= j < i ==> Self::passed_metadata(#[trigger] &self.overlays@[j], url@),
            decreases self.overlays@.len() - i,
        {
            let answer = self.overlays[i].get_scheme().metadata(url);
            match answer {
                Ok(found) => {
                    assert(self.layers()[i as int].scheme().metadata_post(url@, Ok(found)));
                    return Ok(found);
                },
                Err(e) => {
                    assert(self.overlays@[i as int].scheme().metadata_post(url@, Err(e)));
                },
            }
            i += 1;
        }
        Err(SchemeError::missing(url.path()))
    }

    fn read_dir(&self, url: &Address) -> (r: Result<Vec<NodeEntry>, SchemeError>) {
        let mut entries: Vec<NodeEntry> = Vec::new();
        let ghost mut results: Seq<Result<Vec<NodeEntry>, SchemeError>> = Seq::empty();
        let mut i: usize = self.overlays.len();
        while i > 0
            invariant
                i <= self.overlays@.len(),
                self.wf(),
                results.len() == self.overlays@.len() - i,
                forall|j: int|
                    0 <= j < results.len() ==> self.overlays@[i + j].scheme().read_dir_post(
                        url@,
                        #[trigger] results[j],
                    ),
                entries@ == gathered(results),
            decreases i,
        {
            i -= 1;
            let listing = self.overlays[i].get_scheme().read_dir(url);
            proof {
                let grown = seq![listing] + results;
                assert(grown.skip(1) =~= results);
                assert(grown[0] == listing);
                assert forall|j: int| 0 <= j < grown.len() implies self.overlays@[i
                    + j].scheme().read_dir_post(url@, #[trigger] grown[j]) by {
                    if j > 0 {
                        assert(grown[j] == results[j - 1]);
                    }
                }
                results = grown;
            }
            match listing {
                Ok(mut found) => {
                    entries.append(&mut found);
                },
                Err(_) => {
                    assert(entries@ + Seq::<NodeEntry>::empty() =~= entries@);
                },
            }
        }
        Ok(entries)
    }

    fn read(&self, node: &mut OverlayNode<S::Node>, buf: &mut [u8]) -> (r: Result<
        usize,
        NodeError,
    >) {
        self.overlays[node.layer].get_scheme().read(&mut node.node, buf)
    }

    fn write(&mut self, node: &mut OverlayNode<S::Node>, data: &[u8]) -> (r: Result<
        usize,
        NodeError,
    >) {
        let ghost before = *self;
        let r = self.overlays[node.layer].write_to(&mut node.node, data);
        proof {
            let k = node.layer as int;
            assert forall|n: OverlayNode<S::Node>| #[trigger] before.holds(&n) implies self.holds(
                &n,
            ) by {
                if n.layer() == k {
                    assert(before.overlays@[k].scheme().holds(&n.inner()));
                } else {
                    assert(self.overlays@[n.layer() as int] == before.overlays@[n.layer() as int]);
                }
            }
            assert forall|j: int| 0 <= j < self.overlays@.len() implies (
            #[trigger] self.overlays@[j]).scheme().wf() by {
                if j != k {
                    assert(self.overlays@[j] == before.overlays@[j]);
                }
            }
        }
        r
    }

    fn seek(&self, node: &mut OverlayNode<S::Node>, pos: SeekFrom) -> (r: Result<u64, NodeError>) {
        self.overlays[node.layer].get_scheme().seek(&mut node.node, pos)
    }
}

impl<S: Scheme> OverlayScheme<S> {
    /// Where the options admit no layer, the node does not exist, and no
    /// layer has changed.
    pub proof fn lemma_no_layer_asked(
        before: OverlayScheme<S>,
        after: OverlayScheme<S>,
        url: AddressView,
        options: NodeGetOptions,
        r: Result<OverlayNode<S::Node>, SchemeError>,
    )
        requires
            before.get_node_post(url, options, &after, r),
            forall|j: int|
                0 <= j < before.layers().len() ==> !(#[trigger] before.layers()[j]).allows_get(
                    options,
                ),
        ensures
            r matches Err(e) && e@ == SchemeFault::NodeDoesNotExist(url.path),
            after.layers() == before.layers(),
    {
        assert(after.layers() =~= before.layers()) by {
            assert forall|j: int| 0 <= j < before.layers().len() implies after.layers()[j]
                == before.layers()[j] by {
                assert(!before.layers()[j].allows_get(options));
                assert(Self::passed_get(&before.layers()[j], &after.layers()[j], url, options));
            }
        }
    }
}

impl OverlayScheme<MemoryScheme> {
    /// A path that only layers asked by requests to write hold does not exist
    /// for a request that reads and does not write, and those layers are not
    /// touched.
    pub proof fn lemma_write_layer_hidden(
        before: OverlayScheme<MemoryScheme>,
        after: OverlayScheme<MemoryScheme>,
        url: AddressView,
        options: NodeGetOptions,
        r: Result<OverlayNode<crate::schemes::memory::MemoryNode>, SchemeError>,
    )
        requires
            before.wf(),
            options.wf(),
            options.reads(),
            !options.writes(),
            before.get_node_post(url, options, &after, r),
            forall|j: int|
                0 <= j < before.layers().len() && (#[trigger] before.layers()[j]).scheme().paths().contains_key(
                    url.path,
                ) ==> before.layers()[j] is Write,
        ensures
            r matches Err(e) && e@ == SchemeFault::NodeDoesNotExist(url.path),
            forall|j: int|
                0 <= j < before.layers().len() && (#[trigger] before.layers()[j]) is Write
                    ==> after.layers()[j] == before.layers()[j],
    {
        match r {
            Ok(node) => {
                let k = node.layer() as int;
                assert(before.layers()[k].allows_get(options));
                assert(!(before.layers()[k] is Write));
                assert(!before.layers()[k].scheme().paths().contains_key(url.path));
            },
            Err(_) => {
                assert forall|j: int|
                    0 <= j < before.layers().len() && (#[trigger] before.layers()[j]) is Write implies after.layers()[j]
                    == before.layers()[j] by {
                    assert(Self::passed_get(&before.layers()[j], &after.layers()[j], url, options));
                }
            },
        }
    }
}

} // verus!
