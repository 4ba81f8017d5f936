//! The failures that nodes, schemes and the registry report.

use crate::address::{Address, AddressView};
use crate::text::join;
use vstd::prelude::*;
use vstd::std_specs::convert::FromSpecImpl;

verus! {

/// `std::io::Error`, carried along unread: a failure that the platform
/// reported.
#[verifier::external_type_specification]
#[verifier::external_body]
pub struct ExIoError(std::io::Error);

/// `base64::DecodeError`, carried along unread: why a text is no Base64.
#[verifier::external_type_specification]
#[verifier::external_body]
pub struct ExDecodeError(base64::DecodeError);

/// Why an operation on an open node failed.
#[derive(Debug)]
pub enum NodeError {
    /// A failure that the node cannot classify, with its description.
    UnknownError(String),
    /// The node was not opened for the operation.
    NotPermitted,
}

/// A node failure as a mathematical value.
pub enum NodeFault {
    Unknown(Seq<char>),
    NotPermitted,
}

impl View for NodeError {
    type V = NodeFault;

    open spec fn view(&self) -> NodeFault {
        match self {
            NodeError::UnknownError(text) => NodeFault::Unknown(text@),
            NodeError::NotPermitted => NodeFault::NotPermitted,
        }
    }
}

impl NodeError {
    /// The same failure, holding nothing borrowed.
    pub fn into_owned(self) -> (r: NodeError)
        ensures
            r == self,
    {
        self
    }
}

/// What lies behind a generic scheme failure.
#[derive(Debug)]
pub enum ErrorSource {
    /// The registry failed while a scheme delegated to it.
    Vfs(Box<VfsError>),
    /// Base64 text could not be decoded.
    Decode(base64::DecodeError),
}

/// Why a scheme failed.
#[derive(Debug)]
pub enum SchemeError {
    /// A backend-specific failure: a message and what caused it, where known.
    GenericError(Option<&'static str>, Option<ErrorSource>),
    /// A text is no address.
    UrlParseError(url::ParseError),
    /// The operation is not allowed for this address and these options.
    UrlAccessError(Address),
    /// Nothing is stored under the path.
    NodeDoesNotExist(String),
    /// Something is stored under the path already.
    NodeAlreadyExists(String),
    /// The platform reported a failure.
    IOError(std::io::Error),
}

/// Why the registry failed.
#[derive(Debug)]
pub enum VfsError {
    /// The name is taken.
    SchemeAlreadyExists(String),
    /// No scheme is registered under the name.
    SchemeNotFound(String),
    /// The scheme under the name is of another type than the one asked for.
    SchemeWrongType(String, &'static str),
    /// A text is no address.
    UrlParseFailed(url::ParseError),
    /// The scheme that the address selects failed.
    SchemeError(SchemeError),
}

/// The source of a generic failure as a mathematical value.
pub enum SourceFault {
    Unknown,
    Decode,
    Vfs(Box<VfsFault>),
}

/// A scheme failure as a mathematical value.
pub enum SchemeFault {
    Generic(Option<Seq<char>>, SourceFault),
    UrlParse,
    UrlAccess(AddressView),
    NodeDoesNotExist(Seq<char>),
    NodeAlreadyExists(Seq<char>),
    Io,
}

/// A registry failure as a mathematical value.
pub enum VfsFault {
    SchemeAlreadyExists(Seq<char>),
    SchemeNotFound(Seq<char>),
    SchemeWrongType(Seq<char>, Seq<char>),
    UrlParseFailed,
    Scheme(SchemeFault),
}

/// The view of an optional message.
pub open spec fn opt_message(message: Option<&'static str>) -> Option<Seq<char>> {
    match message {
        Some(text) => Some(text@),
        None => None,
    }
}

/// The view of what lies behind a generic failure.
pub open spec fn source_fault(source: Option<ErrorSource>) -> SourceFault
    decreases source,
{
    match source {
        None => SourceFault::Unknown,
        Some(ErrorSource::Decode(_)) => SourceFault::Decode,
        Some(ErrorSource::Vfs(inner)) => SourceFault::Vfs(Box::new(vfs_fault(*inner))),
    }
}

/// The view of a scheme failure.
pub open spec fn scheme_fault(error: SchemeError) -> SchemeFault
    decreases error,
{
    match error {
        SchemeError::GenericError(message, source) => SchemeFault::Generic(
            opt_message(message),
            source_fault(source),
        ),
        SchemeError::UrlParseError(_) => SchemeFault::UrlParse,
        SchemeError::UrlAccessError(url) => SchemeFault::UrlAccess(url@),
        SchemeError::NodeDoesNotExist(path) => SchemeFault::NodeDoesNotExist(path@),
        SchemeError::NodeAlreadyExists(path) => SchemeFault::NodeAlreadyExists(path@),
        SchemeError::IOError(_) => SchemeFault::Io,
    }
}

/// The view of a registry failure.
pub open spec fn vfs_fault(error: VfsError) -> VfsFault
    decreases error,
{
    match error {
        VfsError::SchemeAlreadyExists(name) => VfsFault::SchemeAlreadyExists(name@),
        VfsError::SchemeNotFound(name) => VfsFault::SchemeNotFound(name@),
        VfsError::SchemeWrongType(name, wanted) => VfsFault::SchemeWrongType(name@, wanted@),
        VfsError::UrlParseFailed(_) => VfsFault::UrlParseFailed,
        VfsError::SchemeError(inner) => VfsFault::Scheme(scheme_fault(inner)),
    }
}

impl View for SchemeError {
    type V = SchemeFault;

    open spec fn view(&self) -> SchemeFault {
        scheme_fault(*self)
    }
}

impl View for VfsError {
    type V = VfsFault;

    open spec fn view(&self) -> VfsFault {
        vfs_fault(*self)
    }
}

impl SchemeError {
    /// A generic failure with a message and no known cause.
    pub fn message(text: &'static str) -> (r: SchemeError)
        ensures
            r@ == SchemeFault::Generic(Some(text@), SourceFault::Unknown),
    {
        SchemeError::GenericError(Some(text), None)
    }

    /// The failure for a path under which nothing is stored.
    pub fn missing(path: &str) -> (r: SchemeError)
        ensures
            r@ == SchemeFault::NodeDoesNotExist(path@),
    {
        SchemeError::NodeDoesNotExist(path.to_owned())
    }

    /// The failure for a path that is taken.
    pub fn taken(path: &str) -> (r: SchemeError)
        ensures
            r@ == SchemeFault::NodeAlreadyExists(path@),
    {
        SchemeError::NodeAlreadyExists(path.to_owned())
    }

    /// The same failure, holding nothing borrowed.
    pub fn into_owned(self) -> (r: SchemeError)
        ensures
            r == self,
    {
        self
    }
}

impl VfsError {
    /// The same failure, holding nothing borrowed.
    pub fn into_owned(self) -> (r: VfsError)
        ensures
            r == self,
    {
        self
    }
}

impl NodeError {
    /// What the failure says of itself.
    pub fn describe(&self) -> (r: String)
        ensures
            r@ == (match self {
                NodeError::UnknownError(_) => "unknown error"@,
                NodeError::NotPermitted => "operation not permitted"@,
            }),
    {
        match self {
            NodeError::UnknownError(_) => "unknown error".to_owned(),
            NodeError::NotPermitted => "operation not permitted".to_owned(),
        }
    }
}

impl SchemeError {
    /// What the failure says of itself.
    pub fn describe(&self) -> (r: String)
        ensures
            r@ == (match self {
                SchemeError::GenericError(Some(text), _) => text@,
                SchemeError::GenericError(None, _) => "generic error"@,
                SchemeError::UrlParseError(_) => "failed parsing url string"@,
                SchemeError::UrlAccessError(url) => "access error with path: "@ + url@.text,
                SchemeError::NodeDoesNotExist(name) => "node not found: "@ + name@,
                SchemeError::NodeAlreadyExists(name) => "node already exists: "@ + name@,
                SchemeError::IOError(_) => "generic IO error"@,
            }),
    {
        match self {
            SchemeError::GenericError(Some(text), _) => (*text).to_owned(),
            SchemeError::GenericError(None, _) => "generic error".to_owned(),
            SchemeError::UrlParseError(_) => "failed parsing url string".to_owned(),
            SchemeError::UrlAccessError(url) => join("access error with path: ", url.as_str()),
            SchemeError::NodeDoesNotExist(name) => join("node not found: ", name.as_str()),
            SchemeError::NodeAlreadyExists(name) => join("node already exists: ", name.as_str()),
            SchemeError::IOError(_) => "generic IO error".to_owned(),
        }
    }
}

impl VfsError {
    /// What the failure says of itself.
    pub fn describe(&self) -> (r: String)
        ensures
            r@ == (match self {
                VfsError::SchemeAlreadyExists(name) => "scheme already exists: "@ + name@,
                VfsError::SchemeNotFound(name) => "scheme not found: "@ + name@,
                VfsError::SchemeWrongType(name, wanted) => "scheme `"@ + name@
                    + "` cannot be cast to type: "@ + wanted@,
                VfsError::UrlParseFailed(_) => "url failed to parse"@,
                VfsError::SchemeError(_) => "scheme error"@,
            }),
    {
        match self {
            VfsError::SchemeAlreadyExists(name) => join("scheme already exists: ", name.as_str()),
            VfsError::SchemeNotFound(name) => join("scheme not found: ", name.as_str()),
            VfsError::SchemeWrongType(name, wanted) => {
                let head = join("scheme `", name.as_str());
                let middle = join(head.as_str(), "` cannot be cast to type: ");
                join(middle.as_str(), *wanted)
            },
            VfsError::UrlParseFailed(_) => "url failed to parse".to_owned(),
            VfsError::SchemeError(_) => "scheme error".to_owned(),
        }
    }
}

impl From<&'static str> for SchemeError {
    fn from(msg: &'static str) -> (r: SchemeError) {
        SchemeError::GenericError(Some(msg), None)
    }
}

impl FromSpecImpl<&'static str> for SchemeError {
    open spec fn obeys_from_spec() -> bool {
        true
    }

    open spec fn from_spec(msg: &'static str) -> SchemeError {
        SchemeError::GenericError(Some(msg), None)
    }
}

impl From<Option<&'static str>> for SchemeError {
    fn from(msg: Option<&'static str>) -> (r: SchemeError) {
        SchemeError::GenericError(msg, None)
    }
}

impl FromSpecImpl<Option<&'static str>> for SchemeError {
    open spec fn obeys_from_spec() -> bool {
        true
    }

    open spec fn from_spec(msg: Option<&'static str>) -> SchemeError {
        SchemeError::GenericError(msg, None)
    }
}

impl From<std::io::Error> for SchemeError {
    fn from(source: std::io::Error) -> (r: SchemeError) {
        SchemeError::IOError(source)
    }
}

impl FromSpecImpl<std::io::Error> for SchemeError {
    open spec fn obeys_from_spec() -> bool {
        true
    }

    open spec fn from_spec(source: std::io::Error) -> SchemeError {
        SchemeError::IOError(source)
    }
}

impl From<url::ParseError> for SchemeError {
    fn from(source: url::ParseError) -> (r: SchemeError) {
        SchemeError::UrlParseError(source)
    }
}

impl FromSpecImpl<url::ParseError> for SchemeError {
    open spec fn obeys_from_spec() -> bool {
        true
    }

    open spec fn from_spec(source: url::ParseError) -> SchemeError {
        SchemeError::UrlParseError(source)
    }
}

impl From<VfsError> for SchemeError {
    fn from(source: VfsError) -> (r: SchemeError) {
        SchemeError::GenericError(Some("vfs error"), Some(ErrorSource::Vfs(Box::new(source))))
    }
}

impl FromSpecImpl<VfsError> for SchemeError {
    open spec fn obeys_from_spec() -> bool {
        true
    }

    open spec fn from_spec(source: VfsError) -> SchemeError {
        SchemeError::GenericError(Some("vfs error"), Some(ErrorSource::Vfs(Box::new(source))))
    }
}

impl From<url::ParseError> for VfsError {
    fn from(source: url::ParseError) -> (r: VfsError) {
        VfsError::UrlParseFailed(source)
    }
}

impl FromSpecImpl<url::ParseError> for VfsError {
    open spec fn obeys_from_spec() -> bool {
        true
    }

    open spec fn from_spec(source: url::ParseError) -> VfsError {
        VfsError::UrlParseFailed(source)
    }
}

impl From<SchemeError> for VfsError {
    fn from(source: SchemeError) -> (r: VfsError) {
        VfsError::SchemeError(source)
    }
}

impl FromSpecImpl<SchemeError> for VfsError {
    open spec fn obeys_from_spec() -> bool {
        true
    }

    open spec fn from_spec(source: SchemeError) -> VfsError {
        VfsError::SchemeError(source)
    }
}

} // verus!
