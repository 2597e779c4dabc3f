//! The streaming side of a session.
//!
//! The streamer accepts watchers on its mesh topic. For each watcher it sends
//! an SDP offer with one send-only video track and expects the SDP answer as
//! the next message; then it runs the session, sending every new video frame
//! on the H.264 payload type with profile-level-id `0x42e01f`. A lost
//! connection ends the watcher's session; the streamer itself only stops
//! when its topic closes.
use vstd::prelude::*;
use core::time::Duration;
use str0m::change::{SdpAnswer, SdpOffer};
use super::stream_client::{client_offer_spec, ClientSetupError};
use super::{Received, StreamError, WebRtcEvent, WebRtcUserApi};

verus! {

/// The profile-level-id the video is sent with.
pub const VIDEO_PROFILE_LEVEL_ID: u32 = 4382751;

/// The kind of a media line.
#[derive(Clone, Copy, Debug, PartialEq, Eq)]
pub enum TrackKind {
    /// Audio.
    Audio,
    /// Video.
    Video,
}

/// The direction of a media line, seen from the local peer.
#[derive(Clone, Copy, Debug, PartialEq, Eq)]
pub enum TrackDirection {
    /// Neither sent nor received.
    Inactive,
    /// Only received.
    RecvOnly,
    /// Only sent.
    SendOnly,
    /// Sent and received.
    SendRecv,
}

/// A media line to put in the SDP offer.
#[derive(Clone, Debug, PartialEq, Eq)]
pub struct TrackPlan {
    /// Its kind.
    pub kind: TrackKind,
    /// Its direction.
    pub direction: TrackDirection,
    /// The stream id it is announced under.
    pub stream_id: Option<String>,
    /// The track id it is announced under.
    pub track_id: Option<String>,
    /// Whether it is sent as simulcast.
    pub simulcast: bool,
}

/// The one media line the streamer offers: send-only video, announced under
/// the stream's name, with no track id and no simulcast.
pub fn streamer_track(stream_name: String) -> (t: TrackPlan)
    ensures
        t.kind == TrackKind::Video,
        t.direction == TrackDirection::SendOnly,
        t.stream_id == Some(stream_name),
        t.track_id is None,
        !t.simulcast,
{
    TrackPlan {
        kind: TrackKind::Video,
        direction: TrackDirection::SendOnly,
        stream_id: Some(stream_name),
        track_id: None,
        simulcast: false,
    }
}

/// How the streamer takes the watcher's reply to its offer.
#[derive(Debug)]
pub enum AnswerOutcome {
    /// The answer, to apply to the pending offer.
    Accept(SdpAnswer),
    /// The stream closed before an answer came.
    Closed,
    /// The reply could not be decoded.
    Undecodable,
    /// A message other than an answer came.
    OutOfOrder,
}

/// How the streamer reads the watcher's reply.
pub open spec fn server_answer_spec(reply: Received) -> AnswerOutcome {
    match reply {
        Received::Closed => AnswerOutcome::Closed,
        Received::Undecodable => AnswerOutcome::Undecodable,
        Received::Message(WebRtcUserApi::SdpAnswer(a)) => AnswerOutcome::Accept(a),
        Received::Message(_) => AnswerOutcome::OutOfOrder,
    }
}

/// Reads the watcher's reply to the offer.
pub fn server_answer(reply: Received) -> (r: AnswerOutcome)
    ensures
        r == server_answer_spec(reply),
{
    match reply {
        Received::Closed => AnswerOutcome::Closed,
        Received::Undecodable => AnswerOutcome::Undecodable,
        Received::Message(WebRtcUserApi::SdpAnswer(a)) => AnswerOutcome::Accept(a),
        Received::Message(_) => AnswerOutcome::OutOfOrder,
    }
}

/// The two halves of the exchange fit: the offer the streamer sends first is
/// what the watcher starts from, and the answer the watcher sends back is
/// what the streamer applies; neither side takes the other message in place
/// of the one it waits for, nor a datagram.
pub proof fn lemma_signalling_exchange(offer: SdpOffer, answer: SdpAnswer, data: Vec<u8>)
    ensures
        client_offer_spec(Received::Message(WebRtcUserApi::SdpOffer(offer))) == Ok::<
            SdpOffer,
            ClientSetupError,
        >(offer),
        server_answer_spec(Received::Message(WebRtcUserApi::SdpAnswer(answer)))
            == AnswerOutcome::Accept(answer),
        client_offer_spec(Received::Message(WebRtcUserApi::SdpAnswer(answer))) is Err,
        client_offer_spec(Received::Message(WebRtcUserApi::RtcData(data))) is Err,
        server_answer_spec(Received::Message(WebRtcUserApi::SdpOffer(offer)))
            == AnswerOutcome::OutOfOrder,
        server_answer_spec(Received::Message(WebRtcUserApi::RtcData(data)))
            == AnswerOutcome::OutOfOrder,
{
}

/// What the streamer does next in a watcher's session loop.
#[derive(Debug)]
pub enum ServerAction {
    /// Wait this long for input or a new frame, then time out.
    Wait(Duration),
    /// End the watcher's session with this error.
    Fail(StreamError),
    /// Pass over this event.
    Ignore(WebRtcEvent),
}

/// The streamer's reaction to a session event: only waiting and losing the
/// connection matter, anything else is passed over.
pub fn server_event_action(event: WebRtcEvent) -> (a: ServerAction)
    ensures
        match event {
            WebRtcEvent::Continue(d) => a matches ServerAction::Wait(e) && e == d,
            WebRtcEvent::Disconnected => a matches ServerAction::Fail(
                StreamError::WebRtcDisconnect,
            ),
            _ => a matches ServerAction::Ignore(e) && e == event,
        },
{
    match event {
        WebRtcEvent::Continue(d) => ServerAction::Wait(d),
        WebRtcEvent::Disconnected => ServerAction::Fail(StreamError::WebRtcDisconnect),
        other => ServerAction::Ignore(other),
    }
}

/// What the video sender reads of one set of payload parameters.
#[derive(Clone, Copy, Debug, PartialEq, Eq)]
pub struct CodecParams {
    /// The codec is H.264.
    pub is_h264: bool,
    /// The H.264 profile-level-id, when the parameters give one.
    pub profile_level_id: Option<u32>,
}

/// The parameters fit the video: H.264 with profile-level-id `0x42e01f`
/// (a missing id counts as 0).
pub open spec fn fits_video(p: CodecParams) -> bool {
    p.is_h264 && match p.profile_level_id {
        Some(id) => id == VIDEO_PROFILE_LEVEL_ID,
        None => 0 == VIDEO_PROFILE_LEVEL_ID,
    }
}

/// Which parameters fit the video, in terms of their fields: exactly the
/// H.264 ones whose profile-level-id is `0x42e01f`. Parameters that are not
/// H.264, or that give no profile-level-id, never fit.
pub proof fn lemma_fits_video_fields(p: CodecParams)
    ensures
        fits_video(p) <==> (p.is_h264 && p.profile_level_id == Some(0x42e01fu32)),
        !p.is_h264 ==> !fits_video(p),
        p.profile_level_id is None ==> !fits_video(p),
{
}

/// The first parameters that fit the video, or `PayloadParams` when none
/// do.
pub fn select_video_params(params: &Vec<CodecParams>) -> (r: Result<usize, StreamError>)
    ensures
        match r {
            Ok(i) => {
                &&& i < params@.len()
                &&& fits_video(params@[i as int])
                &&& params@[i as int].is_h264
                &&& params@[i as int].profile_level_id == Some(0x42e01fu32)
                &&& forall|j: int| 0 <= j < i ==> !fits_video(#[trigger] params@[j])
            },
            Err(e) => {
                &&& e matches StreamError::PayloadParams
                &&& forall|j: int| 0 <= j < params@.len() ==> !fits_video(#[trigger] params@[j])
            },
        },
{
    let mut i: usize = 0;
    while i < params.len()
        invariant
            i <= params@.len(),
            forall|j: int| 0 <= j < i ==> !fits_video(#[trigger] params@[j]),
        decreases params@.len() - i,
    {
        let p = params[i];
        let id: u32 = match p.profile_level_id {
            Some(id) => id,
            None => 0,
        };
        if p.is_h264 && id == VIDEO_PROFILE_LEVEL_ID {
            return Ok(i);
        }
        i = i + 1;
    }
    Err(StreamError::PayloadParams)
}

/// Clock ticks per second of the microsecond time base.
pub const MICROS_PER_SECOND: u32 = 1_000_000;

/// The RTP time of a frame captured `elapsed_micros` after the capture
/// started, in ticks of a `clock_rate` clock: the elapsed time is taken in
/// microseconds (cut to 64 bits) and moved to the codec's clock, rounding
/// down; a result that does not fit in 64 bits is cut to its low 64 bits.
pub open spec fn frame_ticks_spec(elapsed_micros: u128, clock_rate: u32) -> u64 {
    let micros = elapsed_micros as u64;
    if clock_rate == MICROS_PER_SECOND {
        micros
    } else {
        ((micros as int * clock_rate as int) / (MICROS_PER_SECOND as int)) as u64
    }
}

/// The RTP time of a frame, in ticks of the codec's clock.
pub fn frame_ticks(elapsed_micros: u128, clock_rate: u32) -> (ticks: u64)
    ensures
        ticks == frame_ticks_spec(elapsed_micros, clock_rate),
{
    let micros: u64 = elapsed_micros as u64;
    if clock_rate == MICROS_PER_SECOND {
        micros
    } else {
        assert(micros as int * clock_rate as int <= u64::MAX as int * u32::MAX as int) by (nonlinear_arith);
        let scaled: u128 = (micros as u128) * (clock_rate as u128) / (MICROS_PER_SECOND as u128);
        scaled as u64
    }
}

/// What the streamer waits for in its accept loop.
#[derive(Clone, Copy, Debug, PartialEq, Eq)]
pub enum ServerWait {
    /// Only a new watcher (no session is running).
    AcceptOnly,
    /// A new watcher or the end of a running session.
    AcceptOrJoin,
}

/// With no session running the streamer waits only for a watcher; with
/// sessions running it also waits for one of them to end.
pub fn server_wait(n_clients: usize) -> (w: ServerWait)
    ensures
        w == (if n_clients == 0 {
            ServerWait::AcceptOnly
        } else {
            ServerWait::AcceptOrJoin
        }),
{
    if n_clients == 0 {
        ServerWait::AcceptOnly
    } else {
        ServerWait::AcceptOrJoin
    }
}

/// How a watcher's session task ended.
#[derive(Clone, Copy, Debug, PartialEq, Eq)]
pub enum ClientOutcome {
    /// The session ended without error.
    Finished,
    /// The session ended with an error.
    Failed,
    /// The session task panicked.
    Panicked,
    /// The session task was cancelled.
    Cancelled,
}

/// What the streamer does in its accept loop.
#[derive(Debug)]
pub enum ServerStep {
    /// Set up a session with the new watcher.
    SetUpClient,
    /// Stop serving with this error.
    Stop(StreamError),
    /// Report that a session ended with an error.
    ReportError,
    /// Report that a session task panicked.
    ReportPanic,
    /// Nothing to do.
    Nothing,
}

/// What the streamer's accept loop is woken by.
#[derive(Clone, Copy, Debug, PartialEq, Eq)]
pub enum ServerEvent {
    /// A new watcher's stream was accepted.
    Accepted,
    /// The topic closed: no more watchers will come.
    AcceptorClosed,
    /// A session task ended.
    ClientExited(ClientOutcome),
}

/// The streamer's reaction to one event of its accept loop.
pub open spec fn server_step_spec(event: ServerEvent) -> ServerStep {
    match event {
        ServerEvent::Accepted => ServerStep::SetUpClient,
        ServerEvent::AcceptorClosed => ServerStep::Stop(StreamError::DittoStreamClosed),
        ServerEvent::ClientExited(ClientOutcome::Failed) => ServerStep::ReportError,
        ServerEvent::ClientExited(ClientOutcome::Panicked) => ServerStep::ReportPanic,
        ServerEvent::ClientExited(_) => ServerStep::Nothing,
    }
}

/// The streamer's reaction in its accept loop: a closed topic stops the
/// streamer with `DittoStreamClosed`, a new watcher gets a session, a
/// session that failed or panicked is reported.
pub fn server_step(event: ServerEvent) -> (s: ServerStep)
    ensures
        s == server_step_spec(event),
{
    match event {
        ServerEvent::Accepted => ServerStep::SetUpClient,
        ServerEvent::AcceptorClosed => ServerStep::Stop(StreamError::DittoStreamClosed),
        ServerEvent::ClientExited(ClientOutcome::Failed) => ServerStep::ReportError,
        ServerEvent::ClientExited(ClientOutcome::Panicked) => ServerStep::ReportPanic,
        ServerEvent::ClientExited(_) => ServerStep::Nothing,
    }
}

/// The streamer keeps serving whatever its sessions do: every accepted
/// watcher gets a session set up, and a session that ends (even with an
/// error or a panic) never stops the streamer; only a closed topic does.
pub proof fn lemma_streamer_keeps_serving(outcome: ClientOutcome)
    ensures
        server_step_spec(ServerEvent::Accepted) == ServerStep::SetUpClient,
        !(server_step_spec(ServerEvent::ClientExited(outcome)) is Stop),
        server_step_spec(ServerEvent::AcceptorClosed) == ServerStep::Stop(
            StreamError::DittoStreamClosed,
        ),
{
}

/// After a round of the accept loop the streamer pauses only when no
/// session is left.
pub fn server_pauses(n_clients: usize) -> (r: bool)
    ensures
        r == (n_clients == 0),
{
    n_clients == 0
}

} // verus!
