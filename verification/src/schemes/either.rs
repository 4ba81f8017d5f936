//! One of two schemes: what lets a registry or an overlay hold backends of
//! different kinds. More than two are had by nesting.

use crate::address::{Address, AddressView};
use crate::errors::{NodeError, SchemeError};
use crate::node::{Node, SeekFrom};
use crate::scheme::{NodeEntry, NodeGetOptions, NodeMetadata, Scheme};
use vstd::pervasive::unreached;
use vstd::prelude::*;

verus! {

/// A scheme of one of two kinds.
pub enum EitherScheme<A, B> {
    Left(A),
    Right(B),
}

/// A node of a scheme of one of two kinds.
pub enum EitherNode<M, N> {
    Left(M),
    Right(N),
}

impl<M: Node, N: Node> Node for EitherNode<M, N> {
    open spec fn can_read(&self) -> bool {
        match self {
            EitherNode::Left(node) => node.can_read(),
            EitherNode::Right(node) => node.can_read(),
        }
    }

    open spec fn can_write(&self) -> bool {
        match self {
            EitherNode::Left(node) => node.can_write(),
            EitherNode::Right(node) => node.can_write(),
        }
    }

    open spec fn can_seek(&self) -> bool {
        match self {
            EitherNode::Left(node) => node.can_seek(),
            EitherNode::Right(node) => node.can_seek(),
        }
    }

    fn is_reader(&self) -> (r: bool) {
        match self {
            EitherNode::Left(node) => node.is_reader(),
            EitherNode::Right(node) => node.is_reader(),
        }
    }

    fn is_writer(&self) -> (r: bool) {
        match self {
            EitherNode::Left(node) => node.is_writer(),
            EitherNode::Right(node) => node.is_writer(),
        }
    }

    fn is_seeker(&self) -> (r: bool) {
        match self {
            EitherNode::Left(node) => node.is_seeker(),
            EitherNode::Right(node) => node.is_seeker(),
        }
    }
}

/// The result of the left scheme as one of the sum.
pub open spec fn left_result<M, N, E>(r: Result<EitherNode<M, N>, E>) -> Option<Result<M, E>> {
    match r {
        Ok(EitherNode::Left(node)) => Some(Ok(node)),
        Ok(EitherNode::Right(_)) => None,
        Err(e) => Some(Err(e)),
    }
}

/// The result of the right scheme as one of the sum.
pub open spec fn right_result<M, N, E>(r: Result<EitherNode<M, N>, E>) -> Option<Result<N, E>> {
    match r {
        Ok(EitherNode::Right(node)) => Some(Ok(node)),
        Ok(EitherNode::Left(_)) => None,
        Err(e) => Some(Err(e)),
    }
}

impl<A: Scheme, B: Scheme> Scheme for EitherScheme<A, B> {
    type Node = EitherNode<A::Node, B::Node>;

    open spec fn wf(&self) -> bool {
        match self {
            EitherScheme::Left(scheme) => scheme.wf(),
            EitherScheme::Right(scheme) => scheme.wf(),
        }
    }

    /// The node is of the kind of the scheme, which holds it.
    open spec fn holds(&self, node: &EitherNode<A::Node, B::Node>) -> bool {
        match (self, node) {
            (EitherScheme::Left(scheme), EitherNode::Left(inner)) => scheme.holds(inner),
            (EitherScheme::Right(scheme), EitherNode::Right(inner)) => scheme.holds(inner),
            _ => false,
        }
    }

    /// What the scheme does, with a node of its kind.
    open spec fn get_node_post(
        &self,
        url: AddressView,
        options: NodeGetOptions,
        after: &Self,
        r: Result<EitherNode<A::Node, B::Node>, SchemeError>,
    ) -> bool {
        match (self, after) {
            (EitherScheme::Left(before), EitherScheme::Left(then)) => left_result(r) matches Some(
                inner,
            ) && before.get_node_post(url, options, then, inner),
            (EitherScheme::Right(before), EitherScheme::Right(then)) => right_result(
                r,
            ) matches Some(inner) && before.get_node_post(url, options, then, inner),
            _ => false,
        }
    }

    /// What the scheme does.
    open spec fn remove_node_post(
        &self,
        url: AddressView,
        force: bool,
        after: &Self,
        r: Result<(), SchemeError>,
    ) -> bool {
        match (self, after) {
            (EitherScheme::Left(before), EitherScheme::Left(then)) => before.remove_node_post(
                url,
                force,
                then,
                r,
            ),
            (EitherScheme::Right(before), EitherScheme::Right(then)) => before.remove_node_post(
                url,
                force,
                then,
                r,
            ),
            _ => false,
        }
    }

    /// What the scheme returns.
    open spec fn metadata_post(&self, url: AddressView, r: Result<NodeMetadata, SchemeError>) -> bool {
        match self {
            EitherScheme::Left(scheme) => scheme.metadata_post(url, r),
            EitherScheme::Right(scheme) => scheme.metadata_post(url, r),
        }
    }

    /// What the scheme returns.
    open spec fn read_dir_post(&self, url: AddressView, r: Result<Vec<NodeEntry>, SchemeError>) -> bool {
        match self {
            EitherScheme::Left(scheme) => scheme.read_dir_post(url, r),
            EitherScheme::Right(scheme) => scheme.read_dir_post(url, r),
        }
    }

    /// What the scheme does with its node.
    open spec fn read_post(
        &self,
        node: &EitherNode<A::Node, B::Node>,
        room: Seq<u8>,
        node_after: &EitherNode<A::Node, B::Node>,
        filled: Seq<u8>,
        r: Result<usize, NodeError>,
    ) -> bool {
        match (self, node, node_after) {
            (
                EitherScheme::Left(scheme),
                EitherNode::Left(before),
                EitherNode::Left(then),
            ) => scheme.read_post(before, room, then, filled, r),
            (
                EitherScheme::Right(scheme),
                EitherNode::Right(before),
                EitherNode::Right(then),
            ) => scheme.read_post(before, room, then, filled, r),
            _ => false,
        }
    }

    /// What the scheme does with its node.
    open spec fn write_post(
        &self,
        node: &EitherNode<A::Node, B::Node>,
        data: Seq<u8>,
        after: &Self,
        node_after: &EitherNode<A::Node, B::Node>,
        r: Result<usize, NodeError>,
    ) -> bool {
        match (self, after, node, node_after) {
            (
                EitherScheme::Left(scheme),
                EitherScheme::Left(scheme_then),
                EitherNode::Left(before),
                EitherNode::Left(then),
            ) => scheme.write_post(before, data, scheme_then, then, r),
            (
                EitherScheme::Right(scheme),
                EitherScheme::Right(scheme_then),
                EitherNode::Right(before),
                EitherNode::Right(then),
            ) => scheme.write_post(before, data, scheme_then, then, r),
            _ => false,
        }
    }

    /// What the scheme does with its node.
    open spec fn seek_post(
        &self,
        node: &EitherNode<A::Node, B::Node>,
        pos: SeekFrom,
        node_after: &EitherNode<A::Node, B::Node>,
        r: Result<u64, NodeError>,
    ) -> bool {
        match (self, node, node_after) {
            (
                EitherScheme::Left(scheme),
                EitherNode::Left(before),
                EitherNode::Left(then),
            ) => scheme.seek_post(before, pos, then, r),
            (
                EitherScheme::Right(scheme),
                EitherNode::Right(before),
                EitherNode::Right(then),
            ) => scheme.seek_post(before, pos, then, r),
            _ => false,
        }
    }

    fn owns(&self, node: &EitherNode<A::Node, B::Node>) -> (r: bool) {
        match self {
            EitherScheme::Left(scheme) => match node {
                EitherNode::Left(inner) => scheme.owns(inner),
                EitherNode::Right(_) => false,
            },
            EitherScheme::Right(scheme) => match node {
                EitherNode::Right(inner) => scheme.owns(inner),
                EitherNode::Left(_) => false,
            },
        }
    }

    fn get_node(&mut self, url: &Address, options: &NodeGetOptions) -> (r: Result<
        EitherNode<A::Node, B::Node>,
        SchemeError,
    >) {
        match self {
            EitherScheme::Left(scheme) => match scheme.get_node(url, options) {
                Ok(node) => Ok(EitherNode::Left(node)),
                Err(e) => Err(e),
            },
            EitherScheme::Right(scheme) => match scheme.get_node(url, options) {
                Ok(node) => Ok(EitherNode::Right(node)),
                Err(e) => Err(e),
            },
        }
    }

    fn remove_node(&mut self, url: &Address, force: bool) -> (r: Result<(), SchemeError>) {
        match self {
            EitherScheme::Left(scheme) => scheme.remove_node(url, force),
            EitherScheme::Right(scheme) => scheme.remove_node(url, force),
        }
    }

    fn metadata(&self, url: &Address) -> (r: Result<NodeMetadata, SchemeError>) {
        match self {
            EitherScheme::Left(scheme) => scheme.metadata(url),
            EitherScheme::Right(scheme) => scheme.metadata(url),
        }
    }

    fn read_dir(&self, url: &Address) -> (r: Result<Vec<NodeEntry>, SchemeError>) {
        match self {
            EitherScheme::Left(scheme) => scheme.read_dir(url),
            EitherScheme::Right(scheme) => scheme.read_dir(url),
        }
    }

    fn read(&self, node: &mut EitherNode<A::Node, B::Node>, buf: &mut [u8]) -> (r: Result<
        usize,
        NodeError,
    >) {
        match self {
            EitherScheme::Left(scheme) => match node {
                EitherNode::Left(inner) => scheme.read(inner, buf),
                EitherNode::Right(_) => unreached(),
            },
            EitherScheme::Right(scheme) => match node {
                EitherNode::Right(inner) => scheme.read(inner, buf),
                EitherNode::Left(_) => unreached(),
            },
        }
    }

    fn write(&mut self, node: &mut EitherNode<A::Node, B::Node>, data: &[u8]) -> (r: Result<
        usize,
        NodeError,
    >) {
        match self {
            EitherScheme::Left(scheme) => match node {
                EitherNode::Left(inner) => scheme.write(inner, data),
                EitherNode::Right(_) => unreached(),
            },
            EitherScheme::Right(scheme) => match node {
                EitherNode::Right(inner) => scheme.write(inner, data),
                EitherNode::Left(_) => unreached(),
            },
        }
    }

    fn seek(&self, node: &mut EitherNode<A::Node, B::Node>, pos: SeekFrom) -> (r: Result<
        u64,
        NodeError,
    >) {
        match self {
            EitherScheme::Left(scheme) => match node {
                EitherNode::Left(inner) => scheme.seek(inner, pos),
                EitherNode::Right(_) => unreached(),
            },
            EitherScheme::Right(scheme) => match node {
                EitherNode::Right(inner) => scheme.seek(inner, pos),
                EitherNode::Left(_) => unreached(),
            },
        }
    }
}

} // verus!
