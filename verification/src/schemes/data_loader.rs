//! The data scheme: addresses that carry their content in their path, as
//! percent-encoded text or as Base64.
//!
//! The path is `type,data`, or the data alone. A type that is `base64` or
//! ends in `;base64` says that the data is Base64; what stands before it is
//! the media type.

use crate::address::{fits, text_fits, Address, AddressView};
use crate::cursor::{copy_out, filled_by, read_amount, seek_target, seek_to};
use crate::errors::{ErrorSource, NodeError, NodeFault, SchemeError, SchemeFault, SourceFault};
use crate::node::{poll_io_err, Node, SeekFrom};
use crate::scheme::{NodeEntry, NodeGetOptions, NodeMetadata, Scheme};
use crate::text::{
    find_char, first_place, has_suffix, head_to, path_segments, same_text, split_segments,
    tail_from, trim_end, trim_end_matches,
};
use vstd::prelude::*;

verus! {

/// The message of a failure to decode.
pub const DATA_LOADER_ERROR: &'static str = "data_loader error";

/// The type of data that names none.
pub const DEFAULT_DATA_TYPE: &'static str = "text/plain;charset=US-ASCII";

/// What `base64::decode` makes of a text: the bytes, or `None` where the text
/// is no Base64.
pub uninterp spec fn base64_decoded(text: Seq<char>) -> Option<Seq<u8>>;

/// What `percent_encoding::percent_decode_str` makes of a text, collected.
pub uninterp spec fn percent_decoded(text: Seq<char>) -> Seq<u8>;

/// Calls `base64::decode`. The result is the bytes that `base64_decoded`
/// names, and the crate's error exactly where it names none. Texts over the
/// limit are left out: the call stops the program where its estimate of the
/// length overflows.
#[verifier::external_body]
fn outside_base64_decode(text: &str) -> (r: Result<Vec<u8>, base64::DecodeError>)
    requires
        fits(text@),
    ensures
        match r {
            Ok(bytes) => base64_decoded(text@) == Some(bytes@),
            Err(_) => base64_decoded(text@).is_none(),
        },
{
    base64::decode(text)
}

/// Calls `percent_encoding::percent_decode_str` and collects the bytes. The
/// result is what `percent_decoded` names.
#[verifier::external_body]
fn outside_percent_decode(text: &str) -> (r: Vec<u8>)
    ensures
        r@ == percent_decoded(text@),
{
    percent_encoding::percent_decode_str(text).collect()
}

/// The type and the data of a path: what stands before and behind its first
/// comma. A path without a comma is data of the default type.
pub open spec fn data_parts(path: Seq<char>) -> (Seq<char>, Seq<char>) {
    let i = first_place(path, ',') as int;
    if i < path.len() {
        (path.take(i), path.skip(i + 1))
    } else {
        (DEFAULT_DATA_TYPE@, path)
    }
}

/// Whether a type says that the data is Base64.
pub open spec fn is_base64(data_type: Seq<char>) -> bool {
    data_type == "base64"@ || ";base64"@.is_suffix_of(data_type)
}

/// The media type that a type names.
pub open spec fn mimetype_of(data_type: Seq<char>) -> Seq<char> {
    if is_base64(data_type) {
        trim_end(trim_end(data_type, "base64"@), ";"@)
    } else {
        data_type
    }
}

/// The media type and the content that an address carries. An address whose
/// path has segments carries none.
pub open spec fn data_of(url: AddressView) -> Result<(Seq<char>, Seq<u8>), SchemeFault> {
    if path_segments(url.path).is_some() {
        Err(SchemeFault::NodeDoesNotExist(url.path))
    } else {
        let (data_type, data) = data_parts(url.path);
        if is_base64(data_type) {
            if !fits(data) {
                Err(SchemeFault::Generic(Some(DATA_LOADER_ERROR@), SourceFault::Unknown))
            } else {
                match base64_decoded(data) {
                    Some(bytes) => Ok((mimetype_of(data_type), bytes)),
                    None => Err(SchemeFault::Generic(Some(DATA_LOADER_ERROR@), SourceFault::Decode)),
                }
            }
        } else {
            Ok((data_type, percent_decoded(data)))
        }
    }
}

/// The data scheme. It holds nothing: every address is its own content.
#[derive(Debug)]
pub struct DataLoaderScheme {}

impl Default for DataLoaderScheme {
    fn default() -> (r: Self)
        ensures
            r.wf(),
    {
        DataLoaderScheme {  }
    }
}

/// A node of the data scheme: the content of its address, open for reading.
#[derive(Debug)]
pub struct DataLoaderNode {
    data: Vec<u8>,
    cursor: usize,
}

impl DataLoaderNode {
    /// The content.
    pub closed spec fn data(&self) -> Seq<u8> {
        self.data@
    }

    /// Where the next read begins.
    pub closed spec fn cursor(&self) -> nat {
        self.cursor as nat
    }

    /// `after` is this node with its cursor at `cursor`.
    pub open spec fn moved(&self, after: &DataLoaderNode, cursor: nat) -> bool {
        after.data() == self.data() && after.cursor() == cursor
    }
}

impl Node for DataLoaderNode {
    open spec fn can_read(&self) -> bool {
        true
    }

    open spec fn can_write(&self) -> bool {
        false
    }

    open spec fn can_seek(&self) -> bool {
        true
    }

    fn is_reader(&self) -> (r: bool) {
        true
    }

    fn is_writer(&self) -> (r: bool) {
        false
    }

    fn is_seeker(&self) -> (r: bool) {
        true
    }
}

impl DataLoaderScheme {
    /// The data scheme.
    pub fn new() -> (r: Self)
        ensures
            r.wf(),
    {
        DataLoaderScheme {  }
    }

    /// The media type and the content that an address carries.
    pub fn parse_url_into_data(url: &Address) -> (r: Result<(String, Vec<u8>), SchemeError>)
        ensures
            match data_of(url@) {
                Ok((mimetype, bytes)) => r matches Ok(found) && found.0@ == mimetype && found.1@
                    == bytes,
                Err(fault) => r matches Err(e) && e@ == fault,
            },
    {
        let path = url.path();
        if split_segments(path).is_some() {
            return Err(SchemeError::missing(path));
        }
        let length = path.unicode_len();
        let (data_type, data): (&str, &str) = match find_char(path, ',') {
            Some(place) => (head_to(path, place), tail_from(path, place + 1)),
            None => (DEFAULT_DATA_TYPE, path),
        };
        if same_text(data_type, "base64") || has_suffix(data_type, ";base64") {
            let mimetype = trim_end_matches(trim_end_matches(data_type, "base64"), ";");
            if !text_fits(data) {
                return Err(SchemeError::message(DATA_LOADER_ERROR));
            }
            match outside_base64_decode(data) {
                Ok(bytes) => Ok((mimetype.to_owned(), bytes)),
                Err(reason) => Err(
                    SchemeError::GenericError(
                        Some(DATA_LOADER_ERROR),
                        Some(ErrorSource::Decode(reason)),
                    ),
                ),
            }
        } else {
            Ok((data_type.to_owned(), outside_percent_decode(data)))
        }
    }
}

impl Scheme for DataLoaderScheme {
    type Node = DataLoaderNode;

    open spec fn wf(&self) -> bool {
        true
    }

    open spec fn holds(&self, node: &DataLoaderNode) -> bool {
        true
    }

    /// The node of the content that the address carries, with its cursor at
    /// 0, whatever the options.
    open spec fn get_node_post(
        &self,
        url: AddressView,
        options: NodeGetOptions,
        after: &Self,
        r: Result<DataLoaderNode, SchemeError>,
    ) -> bool {
        match data_of(url) {
            Ok((_, bytes)) => r matches Ok(node) && node.data() == bytes && node.cursor() == 0,
            Err(fault) => r matches Err(e) && e@ == fault,
        }
    }

    /// There is nothing to remove, which is no failure.
    open spec fn remove_node_post(
        &self,
        url: AddressView,
        force: bool,
        after: &Self,
        r: Result<(), SchemeError>,
    ) -> bool {
        r is Ok
    }

    /// An address that carries content is a node of the length of the content.
    open spec fn metadata_post(&self, url: AddressView, r: Result<NodeMetadata, SchemeError>) -> bool {
        match data_of(url) {
            Ok((_, bytes)) => r == Ok::<NodeMetadata, SchemeError>(
                NodeMetadata {
                    is_node: true,
                    len: Some((bytes.len() as usize, Some(bytes.len() as usize))),
                },
            ),
            Err(fault) => r matches Err(e) && e@ == fault,
        }
    }

    /// There is nothing to list.
    open spec fn read_dir_post(&self, url: AddressView, r: Result<Vec<NodeEntry>, SchemeError>) -> bool {
        r matches Err(e) && e@ == SchemeFault::NodeDoesNotExist(url.text)
    }

    /// The bytes behind the cursor go to the front of the buffer, as many as
    /// there is room for, and the cursor moves behind them.
    open spec fn read_post(
        &self,
        node: &DataLoaderNode,
        room: Seq<u8>,
        node_after: &DataLoaderNode,
        filled: Seq<u8>,
        r: Result<usize, NodeError>,
    ) -> bool {
        let amount = read_amount(node.data().len(), node.cursor(), room.len());
        &&& r == Ok::<usize, NodeError>(amount as usize)
        &&& node.moved(node_after, node.cursor() + amount)
        &&& filled == filled_by(node.data(), node.cursor(), room)
    }

    /// The content cannot be written.
    open spec fn write_post(
        &self,
        node: &DataLoaderNode,
        data: Seq<u8>,
        after: &Self,
        node_after: &DataLoaderNode,
        r: Result<usize, NodeError>,
    ) -> bool {
        &&& r matches Err(e) && e@ == NodeFault::NotPermitted
        &&& node.moved(node_after, node.cursor())
    }

    /// The cursor goes where `seek_target` says.
    open spec fn seek_post(
        &self,
        node: &DataLoaderNode,
        pos: SeekFrom,
        node_after: &DataLoaderNode,
        r: Result<u64, NodeError>,
    ) -> bool {
        let target = seek_target(node.data().len(), node.cursor(), pos);
        &&& r == Ok::<u64, NodeError>(target as u64)
        &&& node.moved(node_after, target)
    }

    fn owns(&self, node: &DataLoaderNode) -> (r: bool) {
        true
    }

    fn get_node(&mut self, url: &Address, options: &NodeGetOptions) -> (r: Result<
        DataLoaderNode,
        SchemeError,
    >) {
        match Self::parse_url_into_data(url) {
            Ok(found) => Ok(DataLoaderNode { data: found.1, cursor: 0 }),
            Err(e) => Err(e),
        }
    }

    fn remove_node(&mut self, url: &Address, force: bool) -> (r: Result<(), SchemeError>) {
        Ok(())
    }

    fn metadata(&self, url: &Address) -> (r: Result<NodeMetadata, SchemeError>) {
        match Self::parse_url_into_data(url) {
            Ok(found) => {
                let size = found.1.len();
                Ok(NodeMetadata { is_node: true, len: Some((size, Some(size))) })
            },
            Err(e) => Err(e),
        }
    }

    fn read_dir(&self, url: &Address) -> (r: Result<Vec<NodeEntry>, SchemeError>) {
        Err(SchemeError::missing(url.as_str()))
    }

    fn read(&self, node: &mut DataLoaderNode, buf: &mut [u8]) -> (r: Result<usize, NodeError>) {
        let amount = copy_out(&node.data, node.cursor, buf);
        node.cursor = node.cursor + amount;
        Ok(amount)
    }

    fn write(&mut self, node: &mut DataLoaderNode, data: &[u8]) -> (r: Result<usize, NodeError>) {
        poll_io_err()
    }

    fn seek(&self, node: &mut DataLoaderNode, pos: SeekFrom) -> (r: Result<u64, NodeError>) {
        node.cursor = seek_to(node.data.len(), node.cursor, pos);
        Ok(node.cursor as u64)
    }
}

} // verus!
