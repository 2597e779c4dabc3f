//! The WebRTC session carried over a mesh stream: the messages the two
//! peers exchange, the events the session loop reacts to, and the socket
//! addresses that stand for the peers.
//!
//! A peer is known on the mesh by its public key. WebRTC wants socket
//! addresses, so each key is mapped onto an IPv6 socket address: the first
//! twenty bits are the fixed header `0xd1770`, the last eighty bits are the
//! last ten bytes of the key, and the port is `0xd177`. Such an address is
//! never used with a real UDP or TCP socket.
pub mod advertise_stream;
pub mod find_stream;
pub mod stream_client;
pub mod stream_server;

use vstd::prelude::*;
use core::time::Duration;
use str0m::change::{SdpAnswer, SdpOffer};
use str0m::channel::ChannelData;
use str0m::media::MediaData;

verus! {

/// Port carried by every address derived from a peer key.
pub const PEER_SOCKET_PORT: u16 = 0xd177;

/// Number of trailing key bytes that make up the low part of the address.
pub const PEER_KEY_TAIL_LEN: usize = 10;

/// The fixed top twenty bits of every derived address, in place.
pub const IPV6_HEADER: u128 = 0xd1770u128 << 108u128;

/// An IPv6 socket address derived from a peer key (flow info and scope id
/// are always zero).
#[derive(Clone, Copy, Debug, PartialEq, Eq)]
pub struct PeerSocketAddr {
    /// The IPv6 address as a 128-bit number (its first octet is the most
    /// significant byte).
    pub ip_bits: u128,
    /// The port.
    pub port: u16,
}

/// Octet `k` (counted from the most significant, `0 <= k < 16`) of a 128-bit
/// address.
pub open spec fn ipv6_octet(bits: u128, k: int) -> u8 {
    ((bits >> ((120 - 8 * k) as u128)) & 0xffu128) as u8
}

/// The six leading octets of every derived address: `d1 77 00 00 00 00`.
pub open spec fn peer_addr_prefix() -> Seq<u8> {
    seq![0xd1u8, 0x77u8, 0u8, 0u8, 0u8, 0u8]
}

/// The last ten bytes of a key.
pub open spec fn key_tail(key: Seq<u8>) -> Seq<u8>
    recommends
        key.len() >= 10,
{
    key.subrange(key.len() - 10, key.len() as int)
}

/// The octets of the address that stands for `key`.
pub open spec fn peer_addr_octets(key: Seq<u8>) -> Seq<u8> {
    peer_addr_prefix() + key_tail(key)
}

/// The octets of a peer's address, in terms of the key: `d1 77 00 00 00 00`,
/// then the last ten bytes of the key exactly as they are, in order.
pub proof fn lemma_peer_addr_octets_fields(key: Seq<u8>)
    requires
        key.len() >= 10,
    ensures
        peer_addr_octets(key).len() == 16,
        peer_addr_octets(key)[0] == 0xd1u8,
        peer_addr_octets(key)[1] == 0x77u8,
        forall|k: int| 2 <= k < 6 ==> #[trigger] peer_addr_octets(key)[k] == 0u8,
        forall|k: int|
            0 <= k < 10 ==> #[trigger] peer_addr_octets(key)[6 + k] == key[key.len() - 10 + k],
{
}

/// The address `bits` has the octets `octets`.
pub open spec fn has_octets(bits: u128, octets: Seq<u8>) -> bool {
    &&& octets.len() == 16
    &&& forall|k: int| 0 <= k < 16 ==> #[trigger] ipv6_octet(bits, k) == octets[k]
}

/// Setting a byte into a zero slot of a 128-bit number changes that octet
/// only.
proof fn lemma_or_byte(b: u128, v: u8, i: u128, k: u128)
    by (bit_vector)
    requires
        i < 16,
        k < 16,
        (b >> ((120 - 8 * i) as u128)) & 0xff == 0,
    ensures
        ((b | ((v as u128) << ((120 - 8 * i) as u128))) >> ((120 - 8 * k) as u128)) & 0xff == if k == i {
            v as u128
        } else {
            (b >> ((120 - 8 * k) as u128)) & 0xff
        },
{
}

/// The octets of the header: `d1 77 00`, then zeros.
proof fn lemma_header_octets(k: u128)
    by (bit_vector)
    requires
        k < 16,
    ensures
        ((0xd1770u128 << 108u128) >> ((120 - 8 * k) as u128)) & 0xff == if k == 0 {
            0xd1u128
        } else if k == 1 {
            0x77u128
        } else {
            0u128
        },
{
}

/// A 128-bit number is fixed by its sixteen octets.
proof fn lemma_octets_determine(a: u128, b: u128)
    by (bit_vector)
    requires
        (a >> 120) & 0xff == (b >> 120) & 0xff,
        (a >> 112) & 0xff == (b >> 112) & 0xff,
        (a >> 104) & 0xff == (b >> 104) & 0xff,
        (a >> 96) & 0xff == (b >> 96) & 0xff,
        (a >> 88) & 0xff == (b >> 88) & 0xff,
        (a >> 80) & 0xff == (b >> 80) & 0xff,
        (a >> 72) & 0xff == (b >> 72) & 0xff,
        (a >> 64) & 0xff == (b >> 64) & 0xff,
        (a >> 56) & 0xff == (b >> 56) & 0xff,
        (a >> 48) & 0xff == (b >> 48) & 0xff,
        (a >> 40) & 0xff == (b >> 40) & 0xff,
        (a >> 32) & 0xff == (b >> 32) & 0xff,
        (a >> 24) & 0xff == (b >> 24) & 0xff,
        (a >> 16) & 0xff == (b >> 16) & 0xff,
        (a >> 8) & 0xff == (b >> 8) & 0xff,
        a & 0xff == b & 0xff,
    ensures
        a == b,
{
}

/// Equal octets at `k` mean equal bytes at that position.
proof fn lemma_octet_eq(a: u128, b: u128, k: int)
    requires
        0 <= k < 16,
        ipv6_octet(a, k) == ipv6_octet(b, k),
    ensures
        (a >> ((120 - 8 * k) as u128)) & 0xff == (b >> ((120 - 8 * k) as u128)) & 0xff,
{
    let s = (120 - 8 * k) as u128;
    let ka = (a >> s) & 0xffu128;
    let kb = (b >> s) & 0xffu128;
    assert(ka <= 0xff) by (bit_vector)
        requires
            ka == (a >> s) & 0xffu128,
    ;
    assert(kb <= 0xff) by (bit_vector)
        requires
            kb == (b >> s) & 0xffu128,
    ;
}

/// Two addresses with the same octets are the same address.
pub proof fn lemma_same_octets_same_bits(a: u128, b: u128, octets: Seq<u8>)
    requires
        has_octets(a, octets),
        has_octets(b, octets),
    ensures
        a == b,
{
    assert forall|k: int| 0 <= k < 16 implies ipv6_octet(a, k) == ipv6_octet(b, k) by {
        assert(ipv6_octet(a, k) == octets[k]);
        assert(ipv6_octet(b, k) == octets[k]);
    }
    assert((a >> 120u128) & 0xff == (b >> 120u128) & 0xff) by {
        lemma_octet_eq(a, b, 0);
    }
    assert((a >> 112u128) & 0xff == (b >> 112u128) & 0xff) by {
        lemma_octet_eq(a, b, 1);
    }
    assert((a >> 104u128) & 0xff == (b >> 104u128) & 0xff) by {
        lemma_octet_eq(a, b, 2);
    }
    assert((a >> 96u128) & 0xff == (b >> 96u128) & 0xff) by {
        lemma_octet_eq(a, b, 3);
    }
    assert((a >> 88u128) & 0xff == (b >> 88u128) & 0xff) by {
        lemma_octet_eq(a, b, 4);
    }
    assert((a >> 80u128) & 0xff == (b >> 80u128) & 0xff) by {
        lemma_octet_eq(a, b, 5);
    }
    assert((a >> 72u128) & 0xff == (b >> 72u128) & 0xff) by {
        lemma_octet_eq(a, b, 6);
    }
    assert((a >> 64u128) & 0xff == (b >> 64u128) & 0xff) by {
        lemma_octet_eq(a, b, 7);
    }
    assert((a >> 56u128) & 0xff == (b >> 56u128) & 0xff) by {
        lemma_octet_eq(a, b, 8);
    }
    assert((a >> 48u128) & 0xff == (b >> 48u128) & 0xff) by {
        lemma_octet_eq(a, b, 9);
    }
    assert((a >> 40u128) & 0xff == (b >> 40u128) & 0xff) by {
        lemma_octet_eq(a, b, 10);
    }
    assert((a >> 32u128) & 0xff == (b >> 32u128) & 0xff) by {
        lemma_octet_eq(a, b, 11);
    }
    assert((a >> 24u128) & 0xff == (b >> 24u128) & 0xff) by {
        lemma_octet_eq(a, b, 12);
    }
    assert((a >> 16u128) & 0xff == (b >> 16u128) & 0xff) by {
        lemma_octet_eq(a, b, 13);
    }
    assert((a >> 8u128) & 0xff == (b >> 8u128) & 0xff) by {
        lemma_octet_eq(a, b, 14);
    }
    assert(a & 0xff == b & 0xff) by {
        lemma_octet_eq(a, b, 15);
        assert((a >> 0u128) == a) by (bit_vector);
        assert((b >> 0u128) == b) by (bit_vector);
    }
    lemma_octets_determine(a, b);
}

/// Maps a peer key onto the socket address that stands for the peer in the
/// WebRTC state machine: the header `0xd1770` in the top twenty bits, the
/// last ten bytes of the key in the low eighty bits, port `0xd177`.
pub fn socket_from_peer_key(value: &[u8]) -> (sock: PeerSocketAddr)
    requires
        value@.len() >= 10,
    ensures
        has_octets(sock.ip_bits, peer_addr_octets(value@)),
        forall|k: int|
            0 <= k < 10 ==> #[trigger] ipv6_octet(sock.ip_bits, 6 + k) == value@[value@.len() - 10
                + k],
        ipv6_octet(sock.ip_bits, 0) == 0xd1u8,
        ipv6_octet(sock.ip_bits, 1) == 0x77u8,
        forall|k: int| 2 <= k < 6 ==> #[trigger] ipv6_octet(sock.ip_bits, k) == 0u8,
        sock.port == PEER_SOCKET_PORT,
        sock.port == 0xd177u16,
{
    let start: usize = value.len() - PEER_KEY_TAIL_LEN;
    let mut bits: u128 = IPV6_HEADER;
    proof {
        assert forall|k: int| 0 <= k < 16 implies #[trigger] ipv6_octet(bits, k) == (if k
            < 6 {
            peer_addr_prefix()[k]
        } else {
            0u8
        }) by {
            lemma_header_octets(k as u128);
            assert((120 - 8 * k) as u128 == 120 - 8 * (k as u128));
        }
    }
    let mut i: usize = 0;
    while i < PEER_KEY_TAIL_LEN
        invariant
            start == value@.len() - 10,
            value@.len() <= usize::MAX,
            i <= 10,
            forall|k: int|
                0 <= k < 6 + i ==> #[trigger] ipv6_octet(bits, k) == peer_addr_octets(value@)[k],
            forall|k: int| 6 + i <= k < 16 ==> #[trigger] ipv6_octet(bits, k) == 0,
        decreases 10 - i,
    {
        let shift: u128 = (72 - i * 8) as u128;
        let byte: u8 = value[start + i];
        let ghost old_bits = bits;
        proof {
            let slot = (6 + i) as int;
            assert(ipv6_octet(old_bits, slot) == 0);
            assert((120 - 8 * slot) as u128 == shift);
            let o = (old_bits >> shift) & 0xffu128;
            assert(o <= 0xff) by (bit_vector)
                requires
                    o == (old_bits >> shift) & 0xffu128,
            ;
        }
        bits = bits | ((byte as u128) << shift);
        proof {
            let slot = (6 + i) as int;
            assert forall|k: int| 0 <= k < 16 implies #[trigger] ipv6_octet(bits, k) == if k
                == slot {
                byte
            } else {
                ipv6_octet(old_bits, k)
            } by {
                lemma_or_byte(old_bits, byte, (6 + i) as u128, k as u128);
                assert((120 - 8 * (6 + i)) as u128 == shift);
                let sk = (120 - 8 * k) as u128;
                let kk = (old_bits >> sk) & 0xffu128;
                assert(kk <= 0xff) by (bit_vector)
                    requires
                        kk == (old_bits >> sk) & 0xffu128,
                ;
            }
            assert(peer_addr_octets(value@)[slot] == value@[start + i]);
        }
        i = i + 1;
    }
    proof {
        lemma_peer_addr_octets_fields(value@);
        assert forall|k: int| 0 <= k < 10 implies #[trigger] ipv6_octet(bits, 6 + k) == value@[value@.len()
            - 10 + k] by {
            assert(ipv6_octet(bits, 6 + k) == peer_addr_octets(value@)[6 + k]);
        }
        assert forall|k: int| 2 <= k < 6 implies #[trigger] ipv6_octet(bits, k) == 0u8 by {
            assert(ipv6_octet(bits, k) == peer_addr_octets(value@)[k]);
        }
        assert(ipv6_octet(bits, 0) == peer_addr_octets(value@)[0]);
        assert(ipv6_octet(bits, 1) == peer_addr_octets(value@)[1]);
    }
    PeerSocketAddr { ip_bits: bits, port: PEER_SOCKET_PORT }
}

/// Two keys whose last ten bytes differ are given different addresses, and
/// two keys that end in the same ten bytes are given the same address.
pub proof fn lemma_peer_addr_injective(a: Seq<u8>, b: Seq<u8>, bits_a: u128, bits_b: u128)
    requires
        a.len() >= 10,
        b.len() >= 10,
        has_octets(bits_a, peer_addr_octets(a)),
        has_octets(bits_b, peer_addr_octets(b)),
    ensures
        bits_a == bits_b <==> key_tail(a) == key_tail(b),
{
    if bits_a == bits_b {
        assert(peer_addr_octets(a) =~= peer_addr_octets(b)) by {
            assert forall|k: int| 0 <= k < 16 implies peer_addr_octets(a)[k] == peer_addr_octets(
                b,
            )[k] by {
                assert(ipv6_octet(bits_a, k) == peer_addr_octets(a)[k]);
                assert(ipv6_octet(bits_b, k) == peer_addr_octets(b)[k]);
            }
        }
        assert(key_tail(a) =~= peer_addr_octets(a).subrange(6, 16));
        assert(key_tail(b) =~= peer_addr_octets(b).subrange(6, 16));
    } else {
        if key_tail(a) == key_tail(b) {
            assert(peer_addr_octets(a) =~= peer_addr_octets(b));
            lemma_same_octets_same_bits(bits_a, bits_b, peer_addr_octets(a));
        }
    }
}



/// The transport protocol of the local host candidate that both peers add
/// to their session.
pub fn candidate_protocol() -> (p: &'static str)
    ensures
        p@ == "udp"@,
{
    "udp"
}

/// An SDP offer (opaque here).
#[verifier::external_type_specification]
#[verifier::external_body]
pub struct ExSdpOffer(SdpOffer);

/// An SDP answer (opaque here).
#[verifier::external_type_specification]
#[verifier::external_body]
pub struct ExSdpAnswer(SdpAnswer);

/// Media data received from the remote peer (opaque here).
#[verifier::external_type_specification]
#[verifier::external_body]
pub struct ExMediaData(MediaData);

/// Data-channel data received from the remote peer (opaque here).
#[verifier::external_type_specification]
#[verifier::external_body]
pub struct ExChannelData(ChannelData);

/// A message exchanged by the two peers over the mesh stream.
#[derive(Debug)]
pub enum WebRtcUserApi {
    /// The streaming peer's SDP offer.
    SdpOffer(SdpOffer),
    /// The watching peer's SDP answer.
    SdpAnswer(SdpAnswer),
    /// A datagram of the WebRTC session.
    RtcData(Vec<u8>),
}

/// What the session loop reacts to after draining the WebRTC output.
#[derive(Debug)]
pub enum WebRtcEvent {
    /// Nothing more to do for this long, unless input arrives.
    Continue(Duration),
    /// Media arrived from the remote peer.
    Media(MediaData),
    /// Data-channel data arrived from the remote peer.
    Channel(ChannelData),
    /// The ICE connection was lost.
    Disconnected,
}

/// Why a streaming session ended.
#[derive(Debug)]
pub enum StreamError {
    /// The mesh stream closed.
    DittoStreamClosed,
    /// No video payload parameters fit.
    PayloadParams,
    /// The WebRTC session disconnected.
    WebRtcDisconnect,
    /// A message came that does not belong at this point of the exchange.
    ApiOutOfSequence(WebRtcUserApi),
}

/// What came off the mesh stream, once decoded.
#[derive(Debug)]
pub enum Received {
    /// The stream is closed.
    Closed,
    /// Bytes that are not an encoded message.
    Undecodable,
    /// A message.
    Message(WebRtcUserApi),
}

/// Input to hand to the WebRTC session.
#[derive(Debug)]
pub enum RtcInput {
    /// A UDP datagram from `source` to `destination`.
    Receive { payload: Vec<u8>, source: PeerSocketAddr, destination: PeerSocketAddr },
    /// Nothing arrived: let time move on.
    Timeout,
}

/// The input for what came off the mesh stream: a closed stream ends the
/// session; a datagram goes to the session as coming from the remote peer
/// to the local one; anything else only lets time move on.
pub fn input_for(received: Received, remote: &PeerSocketAddr, local: &PeerSocketAddr) -> (r: Result<
    RtcInput,
    StreamError,
>)
    ensures
        match received {
            Received::Closed => r matches Err(StreamError::DittoStreamClosed),
            Received::Message(WebRtcUserApi::RtcData(p)) => r matches Ok(
                RtcInput::Receive { payload, source, destination },
            ) && payload == p && source == *remote && destination == *local,
            _ => r matches Ok(RtcInput::Timeout),
        },
{
    match received {
        Received::Closed => Err(StreamError::DittoStreamClosed),
        Received::Message(WebRtcUserApi::RtcData(payload)) => Ok(
            RtcInput::Receive {
                payload,
                source: *remote,
                destination: *local,
            },
        ),
        _ => Ok(RtcInput::Timeout),
    }
}

/// One output of the WebRTC session, as the session loop tells them apart.
#[derive(Debug)]
pub enum PolledOutput {
    /// The session wants a timeout after this long.
    Timeout(Duration),
    /// A datagram to send to the remote peer.
    Transmit(Vec<u8>),
    /// The event that the ICE connection is now disconnected.
    IceDisconnected,
    /// The event that media arrived.
    Media(MediaData),
    /// Any other event.
    OtherEvent,
}

/// What the session loop does with one output.
#[derive(Debug)]
pub enum RtcStep {
    /// Stop draining the output and react to this event.
    Return(WebRtcEvent),
    /// Send this datagram over the mesh stream, then keep draining.
    Transmit(Vec<u8>),
    /// Keep draining.
    Poll,
}

/// How the session loop handles one output: a timeout ends the draining
/// with `Continue`, a lost connection with `Disconnected`, media with
/// `Media`; datagrams are sent on; other events are passed over.
pub fn rtc_output_step(output: PolledOutput) -> (step: RtcStep)
    ensures
        match output {
            PolledOutput::Timeout(d) => step matches RtcStep::Return(WebRtcEvent::Continue(e))
                && e == d,
            PolledOutput::Transmit(b) => step matches RtcStep::Transmit(c) && c == b,
            PolledOutput::IceDisconnected => step matches RtcStep::Return(
                WebRtcEvent::Disconnected,
            ),
            PolledOutput::Media(m) => step matches RtcStep::Return(WebRtcEvent::Media(n)) && n
                == m,
            PolledOutput::OtherEvent => step matches RtcStep::Poll,
        },
{
    match output {
        PolledOutput::Timeout(d) => RtcStep::Return(WebRtcEvent::Continue(d)),
        PolledOutput::Transmit(b) => RtcStep::Transmit(b),
        PolledOutput::IceDisconnected => RtcStep::Return(WebRtcEvent::Disconnected),
        PolledOutput::Media(m) => RtcStep::Return(WebRtcEvent::Media(m)),
        PolledOutput::OtherEvent => RtcStep::Poll,
    }
}

} // verus!
