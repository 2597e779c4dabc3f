//! Advertising a stream in the peer metadata.
//!
//! A streaming peer publishes the metadata object
//! `{"potato_stream_server": true, "stream_name": <name>}`.
use vstd::prelude::*;

verus! {

/// Metadata key of the flag that marks a streaming peer.
pub const SERVER_FLAG_KEY: &'static str = "potato_stream_server";

/// Metadata key of the stream's name.
pub const STREAM_NAME_KEY: &'static str = "stream_name";

/// The value found under one key of a peer's metadata object.
#[derive(Clone, Debug, PartialEq, Eq)]
pub enum MetaValue {
    /// The key is not there (or the metadata is not an object).
    Absent,
    /// A JSON boolean.
    Bool(bool),
    /// A JSON string.
    Str(String),
    /// Any other JSON value (null, number, array, object).
    Other,
}

/// What the stream search reads of a peer's metadata.
#[derive(Clone, Debug, PartialEq, Eq)]
pub struct PeerMetadata {
    /// The value under `potato_stream_server`.
    pub server_flag: MetaValue,
    /// The value under `stream_name`.
    pub stream_name: MetaValue,
}

/// The metadata published for a stream: the flag `true` and the name.
pub open spec fn advertised_metadata(stream_name: String) -> PeerMetadata {
    PeerMetadata { server_flag: MetaValue::Bool(true), stream_name: MetaValue::Str(stream_name) }
}

/// The metadata a streaming peer publishes for the stream `stream_name`.
pub fn advertise_stream(stream_name: String) -> (m: PeerMetadata)
    ensures
        m == advertised_metadata(stream_name),
{
    PeerMetadata { server_flag: MetaValue::Bool(true), stream_name: MetaValue::Str(stream_name) }
}

} // verus!
