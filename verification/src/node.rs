//! Open nodes: what they may do, and the refusal of what they may not.

use crate::errors::{NodeError, NodeFault};
use vstd::prelude::*;

verus! {

/// Where a seek goes: counted from the start, from the end, or from the
/// cursor.
#[derive(Debug, Clone, Copy, PartialEq, Eq)]
pub enum SeekFrom {
    Start(u64),
    End(i64),
    Current(i64),
}

/// An open instance of a path. It says which of reading, writing and seeking
/// it was opened for; an operation that it was not opened for is refused.
pub trait Node {
    /// The node was opened for reading.
    spec fn can_read(&self) -> bool;

    /// The node was opened for writing.
    spec fn can_write(&self) -> bool;

    /// The cursor of the node can be moved.
    spec fn can_seek(&self) -> bool;

    fn is_reader(&self) -> (r: bool)
        ensures
            r == self.can_read(),
    ;

    fn is_writer(&self) -> (r: bool)
        ensures
            r == self.can_write(),
    ;

    fn is_seeker(&self) -> (r: bool)
        ensures
            r == self.can_seek(),
    ;

    /// Hands on what was written. Nothing is held back, so there is nothing
    /// to do; a node not opened for writing is refused.
    fn flush(&self) -> (r: Result<(), NodeError>)
        ensures
            self.can_write() ==> r is Ok,
            !self.can_write() ==> (r matches Err(e) && e@ == NodeFault::NotPermitted),
    {
        if self.is_writer() {
            Ok(())
        } else {
            poll_io_err()
        }
    }

    /// Ends the writing. A node not opened for writing is refused.
    fn close(&self) -> (r: Result<(), NodeError>)
        ensures
            self.can_write() ==> r is Ok,
            !self.can_write() ==> (r matches Err(e) && e@ == NodeFault::NotPermitted),
    {
        if self.is_writer() {
            Ok(())
        } else {
            poll_io_err()
        }
    }
}

/// The refusal of an operation that a node was not opened for.
pub fn poll_io_err<T>() -> (r: Result<T, NodeError>)
    ensures
        r matches Err(e) && e@ == NodeFault::NotPermitted,
{
    Err(NodeError::NotPermitted)
}

/// A permission that turns into a result: the value where it is given, the
/// refusal where it is not.
pub trait IsAllowed: Sized {
    /// Whether the permission is given.
    spec fn allows(self) -> bool;

    fn allowed(self) -> (r: bool)
        ensures
            r == self.allows(),
    ;

    fn else_poll_io_error(self) -> (r: Result<(), NodeError>)
        ensures
            self.allows() ==> r is Ok,
            !self.allows() ==> (r matches Err(e) && e@ == NodeFault::NotPermitted),
    {
        if self.allowed() {
            Ok(())
        } else {
            poll_io_err()
        }
    }

    fn into_poll_io<T>(self, ret: T) -> (r: Result<T, NodeError>)
        ensures
            self.allows() ==> r == Ok::<T, NodeError>(ret),
            !self.allows() ==> (r matches Err(e) && e@ == NodeFault::NotPermitted),
    {
        if self.allowed() {
            Ok(ret)
        } else {
            poll_io_err()
        }
    }

    fn into_poll_io_of<T, F: FnOnce() -> T>(self, ret: F) -> (r: Result<T, NodeError>)
        requires
            self.allows() ==> call_requires(ret, ()),
        ensures
            self.allows() ==> (r matches Ok(value) && call_ensures(ret, (), value)),
            !self.allows() ==> (r matches Err(e) && e@ == NodeFault::NotPermitted),
    {
        if self.allowed() {
            Ok(ret())
        } else {
            poll_io_err()
        }
    }

    fn into_poll_io_then<T, F: FnOnce() -> Result<T, NodeError>>(self, ret: F) -> (r: Result<
        T,
        NodeError,
    >)
        requires
            self.allows() ==> call_requires(ret, ()),
        ensures
            self.allows() ==> call_ensures(ret, (), r),
            !self.allows() ==> (r matches Err(e) && e@ == NodeFault::NotPermitted),
    {
        if self.allowed() {
            ret()
        } else {
            poll_io_err()
        }
    }
}

impl IsAllowed for bool {
    open spec fn allows(self) -> bool {
        self
    }

    fn allowed(self) -> (r: bool) {
        self
    }
}

} // verus!
