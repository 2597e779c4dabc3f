use std::time::{Duration, Instant};

use potato_stream::stream::stream_client::{client_event_action, client_offer, ClientAction, ClientSetupError};
use potato_stream::stream::stream_server::{
    select_video_params, server_answer, server_event_action, server_pauses, server_step,
    server_wait, AnswerOutcome, ClientOutcome, CodecParams, ServerAction, ServerEvent,
    ServerStep, ServerWait, VIDEO_PROFILE_LEVEL_ID,
};
use potato_stream::stream::{
    input_for, rtc_output_step, socket_from_peer_key, PolledOutput, Received, RtcInput,
    RtcStep, StreamError, WebRtcEvent, WebRtcUserApi,
};
use potato_stream::stream::candidate_protocol;
use potato_stream::stream::stream_server::{frame_ticks, streamer_track, TrackDirection, TrackKind};
use str0m::change::{SdpAnswer, SdpOffer};
use str0m::media::{Frequency, MediaTime};
use str0m::media::{Direction, MediaKind};
use str0m::Rtc;

fn offer_and_answer() -> (SdpOffer, SdpAnswer) {
    let mut streamer = Rtc::new(Instant::now());
    let mut change = streamer.sdp_api();
    change.add_media(MediaKind::Video, Direction::SendOnly, Some("s".to_string()), None, None);
    let (offer, _pending) = change.apply().unwrap();
    let mut watcher = Rtc::new(Instant::now());
    let offer_copy = SdpOffer::from_sdp_string(&offer.to_sdp_string()).unwrap();
    let answer = watcher.sdp_api().accept_offer(offer_copy).unwrap();
    (offer, answer)
}

#[test]
fn datagram_is_received_from_remote_to_local() {
    let remote = socket_from_peer_key(&[9u8; 12]);
    let local = socket_from_peer_key(&[4u8; 12]);
    let r = input_for(Received::Message(WebRtcUserApi::RtcData(vec![1, 2, 3])), &remote, &local);
    match r {
        Ok(RtcInput::Receive { payload, source, destination }) => {
            assert_eq!(payload, vec![1, 2, 3]);
            assert_eq!(source, remote);
            assert_eq!(destination, local);
        }
        other => panic!("unexpected {other:?}"),
    }
}

#[test]
fn closed_stream_ends_the_session_and_junk_only_times_out() {
    let a = socket_from_peer_key(&[1u8; 10]);
    assert!(matches!(input_for(Received::Closed, &a, &a), Err(StreamError::DittoStreamClosed)));
    assert!(matches!(input_for(Received::Undecodable, &a, &a), Ok(RtcInput::Timeout)));
    let (offer, _) = offer_and_answer();
    assert!(matches!(
        input_for(Received::Message(WebRtcUserApi::SdpOffer(offer)), &a, &a),
        Ok(RtcInput::Timeout)
    ));
}

#[test]
fn watcher_starts_only_from_an_offer() {
    let (offer, answer) = offer_and_answer();
    let sdp = offer.to_sdp_string();
    match client_offer(Received::Message(WebRtcUserApi::SdpOffer(offer))) {
        Ok(o) => assert_eq!(o.to_sdp_string(), sdp),
        Err(e) => panic!("unexpected {e:?}"),
    }
    assert!(matches!(
        client_offer(Received::Closed),
        Err(ClientSetupError::Stream(StreamError::DittoStreamClosed))
    ));
    assert!(matches!(client_offer(Received::Undecodable), Err(ClientSetupError::Undecodable)));
    assert!(matches!(
        client_offer(Received::Message(WebRtcUserApi::SdpAnswer(answer))),
        Err(ClientSetupError::Stream(StreamError::ApiOutOfSequence(WebRtcUserApi::SdpAnswer(_))))
    ));
    assert!(matches!(
        client_offer(Received::Message(WebRtcUserApi::RtcData(vec![7]))),
        Err(ClientSetupError::Stream(StreamError::ApiOutOfSequence(WebRtcUserApi::RtcData(d)))) if d == vec![7]
    ));
}

#[test]
fn streamer_accepts_only_an_answer() {
    let (offer, answer) = offer_and_answer();
    assert!(matches!(
        server_answer(Received::Message(WebRtcUserApi::SdpAnswer(answer))),
        AnswerOutcome::Accept(_)
    ));
    assert!(matches!(server_answer(Received::Closed), AnswerOutcome::Closed));
    assert!(matches!(server_answer(Received::Undecodable), AnswerOutcome::Undecodable));
    assert!(matches!(
        server_answer(Received::Message(WebRtcUserApi::SdpOffer(offer))),
        AnswerOutcome::OutOfOrder
    ));
    assert!(matches!(
        server_answer(Received::Message(WebRtcUserApi::RtcData(vec![]))),
        AnswerOutcome::OutOfOrder
    ));
}

#[test]
fn rtc_outputs_are_drained_until_an_event_to_react_to() {
    let d = Duration::from_millis(250);
    assert!(matches!(
        rtc_output_step(PolledOutput::Timeout(d)),
        RtcStep::Return(WebRtcEvent::Continue(e)) if e == d
    ));
    assert!(matches!(
        rtc_output_step(PolledOutput::Transmit(vec![5, 6])),
        RtcStep::Transmit(b) if b == vec![5, 6]
    ));
    assert!(matches!(
        rtc_output_step(PolledOutput::IceDisconnected),
        RtcStep::Return(WebRtcEvent::Disconnected)
    ));
    assert!(matches!(rtc_output_step(PolledOutput::OtherEvent), RtcStep::Poll));
}

#[test]
fn session_events_drive_both_sides() {
    let d = Duration::from_secs(2);
    assert!(matches!(client_event_action(WebRtcEvent::Continue(d)), ClientAction::Wait(e) if e == d));
    assert!(matches!(
        client_event_action(WebRtcEvent::Disconnected),
        ClientAction::Fail(StreamError::WebRtcDisconnect)
    ));
    assert!(matches!(server_event_action(WebRtcEvent::Continue(d)), ServerAction::Wait(e) if e == d));
    assert!(matches!(
        server_event_action(WebRtcEvent::Disconnected),
        ServerAction::Fail(StreamError::WebRtcDisconnect)
    ));
}

#[test]
fn video_params_are_the_first_h264_with_the_profile() {
    let vp8 = CodecParams { is_h264: false, profile_level_id: Some(VIDEO_PROFILE_LEVEL_ID) };
    let h264_other = CodecParams { is_h264: true, profile_level_id: Some(0x42001f) };
    let h264_none = CodecParams { is_h264: true, profile_level_id: None };
    let h264 = CodecParams { is_h264: true, profile_level_id: Some(4382751) };
    assert_eq!(VIDEO_PROFILE_LEVEL_ID, 0x42e01f);
    assert!(matches!(select_video_params(&vec![vp8, h264_other, h264, h264]), Ok(2)));
    assert!(matches!(
        select_video_params(&vec![vp8, h264_other, h264_none]),
        Err(StreamError::PayloadParams)
    ));
    assert!(matches!(select_video_params(&vec![]), Err(StreamError::PayloadParams)));
}

#[test]
fn streamer_accept_loop() {
    assert_eq!(server_wait(0), ServerWait::AcceptOnly);
    assert_eq!(server_wait(3), ServerWait::AcceptOrJoin);
    assert!(matches!(server_step(ServerEvent::Accepted), ServerStep::SetUpClient));
    assert!(matches!(
        server_step(ServerEvent::AcceptorClosed),
        ServerStep::Stop(StreamError::DittoStreamClosed)
    ));
    assert!(matches!(
        server_step(ServerEvent::ClientExited(ClientOutcome::Failed)),
        ServerStep::ReportError
    ));
    assert!(matches!(
        server_step(ServerEvent::ClientExited(ClientOutcome::Panicked)),
        ServerStep::ReportPanic
    ));
    assert!(matches!(
        server_step(ServerEvent::ClientExited(ClientOutcome::Finished)),
        ServerStep::Nothing
    ));
    assert!(matches!(
        server_step(ServerEvent::ClientExited(ClientOutcome::Cancelled)),
        ServerStep::Nothing
    ));
    assert!(server_pauses(0));
    assert!(!server_pauses(1));
}

#[test]
fn frame_time_in_codec_clock_ticks() {
    assert_eq!(frame_ticks(1_000_000, 90_000), 90_000);
    assert_eq!(frame_ticks(33_333, 90_000), 2_999);
    assert_eq!(frame_ticks(123_456, 1_000_000), 123_456);
    assert_eq!(frame_ticks(0, 48_000), 0);
    // Microseconds beyond 64 bits are cut first.
    assert_eq!(frame_ticks((1u128 << 64) + 1_000_000, 90_000), 90_000);
    // The same as moving the elapsed time to the codec's clock with str0m.
    for micros in [0u64, 1, 999_999, 1_000_000, 40_000_000_123] {
        let d = Duration::from_micros(micros);
        let expected = MediaTime::from(d).rebase(Frequency::NINETY_KHZ).numer();
        assert_eq!(frame_ticks(d.as_micros(), 90_000), expected);
    }
}

#[test]
fn fixed_session_settings() {
    assert_eq!(candidate_protocol(), "udp");
    let t = streamer_track("garden".to_string());
    assert_eq!(t.kind, TrackKind::Video);
    assert_eq!(t.direction, TrackDirection::SendOnly);
    assert_eq!(t.stream_id, Some("garden".to_string()));
    assert_eq!(t.track_id, None);
    assert!(!t.simulcast);
}
