//! Finding the peer that advertises a stream of a given name.
//!
//! A watching peer looks at the metadata of every remote peer: it is a
//! candidate when the flag is the boolean `true` and the name is the string
//! it is looking for. A missing flag counts as `false` and a missing name as
//! the empty string.
use vstd::prelude::*;
use super::advertise_stream::{MetaValue, PeerMetadata, advertised_metadata};

verus! {

/// A remote peer as the stream search sees it.
#[derive(Clone, Debug, PartialEq, Eq)]
pub struct PeerAdvert {
    /// The peer's key in its textual form.
    pub peer_key_string: String,
    /// The peer's metadata.
    pub metadata: PeerMetadata,
}

/// The flag reads as `true`: only the boolean `true` does.
pub open spec fn flag_is_set(v: MetaValue) -> bool {
    v == MetaValue::Bool(true)
}

/// The name a value reads as: a string is itself, a missing value is the
/// empty string, anything else is no name at all.
pub open spec fn name_of(v: MetaValue) -> Option<Seq<char>> {
    match v {
        MetaValue::Absent => Some(Seq::<char>::empty()),
        MetaValue::Str(s) => Some(s@),
        _ => None,
    }
}

/// The metadata advertises a stream called `wanted`.
pub open spec fn advertises(m: PeerMetadata, wanted: Seq<char>) -> bool {
    flag_is_set(m.server_flag) && name_of(m.stream_name) == Some(wanted)
}

/// Whether `metadata` advertises a stream called `stream_name`.
pub fn advertises_stream(metadata: &PeerMetadata, stream_name: &String) -> (r: bool)
    ensures
        r == advertises(*metadata, stream_name@),
{
    let flag = match &metadata.server_flag {
        MetaValue::Bool(b) => *b,
        _ => false,
    };
    if !flag {
        return false;
    }
    match &metadata.stream_name {
        MetaValue::Absent => {
            let empty = stream_name.as_str().is_empty();
            proof {
                if empty {
                    assert(stream_name@ =~= Seq::<char>::empty());
                }
            }
            empty
        },
        MetaValue::Str(s) => *s == *stream_name,
        _ => false,
    }
}

/// Which of `peers` the search settles on: the last one, in the order
/// given, that advertises a stream called `stream_name`; `None` when no peer
/// does.
pub fn find_stream(peers: &Vec<PeerAdvert>, stream_name: &String) -> (found: Option<usize>)
    ensures
        match found {
            Some(i) => {
                &&& i < peers@.len()
                &&& advertises(peers@[i as int].metadata, stream_name@)
                &&& forall|j: int|
                    i < j < peers@.len() ==> !advertises(#[trigger] peers@[j].metadata, stream_name@)
            },
            None => forall|j: int|
                0 <= j < peers@.len() ==> !advertises(#[trigger] peers@[j].metadata, stream_name@),
        },
{
    let mut found: Option<usize> = None;
    let mut i: usize = 0;
    while i < peers.len()
        invariant
            i <= peers@.len(),
            match found {
                Some(k) => {
                    &&& k < i
                    &&& advertises(peers@[k as int].metadata, stream_name@)
                    &&& forall|j: int|
                        k < j < i ==> !advertises(#[trigger] peers@[j].metadata, stream_name@)
                },
                None => forall|j: int|
                    0 <= j < i ==> !advertises(#[trigger] peers@[j].metadata, stream_name@),
            },
        decreases peers@.len() - i,
    {
        if advertises_stream(&peers[i].metadata, stream_name) {
            found = Some(i);
        }
        i = i + 1;
    }
    found
}

/// What one peer advertises, another finds: the metadata published for a
/// stream is recognised by the search for exactly that stream's name.
pub proof fn lemma_advertised_stream_is_found(stream_name: String, wanted: Seq<char>)
    ensures
        advertises(advertised_metadata(stream_name), wanted) <==> stream_name@ == wanted,
{
}

} // verus!
