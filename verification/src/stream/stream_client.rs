//! The watching side of a streaming session.
//!
//! The watcher connects to the streamer's mesh stream and waits for the
//! streamer's SDP offer, which must be the first message. It answers, then
//! runs the session: every video frame that arrives is shown, data-channel
//! data is passed over, and a lost connection ends the session.
use vstd::prelude::*;
use core::time::Duration;
use str0m::change::SdpOffer;
use str0m::channel::ChannelData;
use str0m::media::MediaData;
use super::{Received, StreamError, WebRtcEvent, WebRtcUserApi};

verus! {

/// Why the watcher could not take up the session.
#[derive(Debug)]
pub enum ClientSetupError {
    /// The exchange went wrong.
    Stream(StreamError),
    /// The first message could not be decoded.
    Undecodable,
}

/// How the watcher reads the first message.
pub open spec fn client_offer_spec(first: Received) -> Result<SdpOffer, ClientSetupError> {
    match first {
        Received::Closed => Err(ClientSetupError::Stream(StreamError::DittoStreamClosed)),
        Received::Undecodable => Err(ClientSetupError::Undecodable),
        Received::Message(WebRtcUserApi::SdpOffer(o)) => Ok(o),
        Received::Message(m) => Err(ClientSetupError::Stream(StreamError::ApiOutOfSequence(m))),
    }
}

/// The offer the session starts from, read off the first message: a closed
/// stream is `DittoStreamClosed`, any message but an offer is out of
/// sequence.
pub fn client_offer(first: Received) -> (r: Result<SdpOffer, ClientSetupError>)
    ensures
        r == client_offer_spec(first),
{
    match first {
        Received::Closed => Err(ClientSetupError::Stream(StreamError::DittoStreamClosed)),
        Received::Undecodable => Err(ClientSetupError::Undecodable),
        Received::Message(WebRtcUserApi::SdpOffer(o)) => Ok(o),
        Received::Message(m) => Err(ClientSetupError::Stream(StreamError::ApiOutOfSequence(m))),
    }
}

/// What the watcher does next in its session loop.
#[derive(Debug)]
pub enum ClientAction {
    /// Wait this long for input from the mesh stream, then time out.
    Wait(Duration),
    /// End the session with this error.
    Fail(StreamError),
    /// Decode this frame and show it.
    ShowFrame(MediaData),
    /// Pass over data-channel data.
    IgnoreChannel(ChannelData),
}

/// The watcher's reaction to a session event.
pub fn client_event_action(event: WebRtcEvent) -> (a: ClientAction)
    ensures
        match event {
            WebRtcEvent::Continue(d) => a matches ClientAction::Wait(e) && e == d,
            WebRtcEvent::Disconnected => a matches ClientAction::Fail(
                StreamError::WebRtcDisconnect,
            ),
            WebRtcEvent::Media(m) => a matches ClientAction::ShowFrame(n) && n == m,
            WebRtcEvent::Channel(c) => a matches ClientAction::IgnoreChannel(k) && k == c,
        },
{
    match event {
        WebRtcEvent::Continue(d) => ClientAction::Wait(d),
        WebRtcEvent::Disconnected => ClientAction::Fail(StreamError::WebRtcDisconnect),
        WebRtcEvent::Media(m) => ClientAction::ShowFrame(m),
        WebRtcEvent::Channel(c) => ClientAction::IgnoreChannel(c),
    }
}

} // verus!
