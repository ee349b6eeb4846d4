use jitsi_guest::rtc_stats::{QualityLimitationDurations, RtcOutboundRtpStreamStats};
use jitsi_guest::session::{
    authentication, focus_jid_or_default, guest_conference_config, guest_receiver_constraints,
    init_message, links_to_pli_injector, log_level, muc_domain_or_default, notify_step,
    parse_video_type, room_details_url, room_jid, simulcast_conference_config,
    simulcast_receiver_constraints, stereo_from_reply, Authentication, BackendError, LogLevel,
    NotifyAction, NotifyEvent, RoomDetailsReply, VideoType,
};

#[test]
fn verbosity_levels() {
    assert_eq!(log_level(0), LogLevel::Info);
    assert_eq!(log_level(1), LogLevel::Debug);
    assert_eq!(log_level(2), LogLevel::Trace);
    assert_eq!(log_level(255), LogLevel::Trace);
}

#[test]
fn video_types() {
    assert_eq!(parse_video_type("camera").unwrap(), VideoType::Camera);
    assert_eq!(parse_video_type("desktop").unwrap(), VideoType::Desktop);
    assert_eq!(parse_video_type("screen").unwrap_err(), "invalid video type: screen");
    assert_eq!(parse_video_type("Camera").unwrap_err(), "invalid video type: Camera");
}

#[test]
fn authentication_choice() {
    match authentication(Some("u".to_string()), Some("p".to_string()), Some("t".to_string())).unwrap() {
        Authentication::Plain { username, password } => assert_eq!((username.as_str(), password.as_str()), ("u", "p")),
        other => panic!("unexpected {:?}", other),
    }
    assert_eq!(
        authentication(Some("u".to_string()), None, None).unwrap_err(),
        "if xmpp-username is provided, xmpp-password must also be provided"
    );
    match authentication(None, Some("p".to_string()), Some("t".to_string())).unwrap() {
        Authentication::Jwt { token } => assert_eq!(token, "t"),
        other => panic!("unexpected {:?}", other),
    }
    assert!(matches!(authentication(None, None, None).unwrap(), Authentication::Anonymous));
}

#[test]
fn jids_and_defaults() {
    assert_eq!(room_jid("room1", "muc.meet.jitsi"), "room1@muc.meet.jitsi");
    assert_eq!(muc_domain_or_default(None, "meet.example"), "conference.meet.example");
    assert_eq!(muc_domain_or_default(Some("m".to_string()), "meet.example"), "m");
    assert_eq!(focus_jid_or_default(None, "meet.example"), "focus@auth.meet.example/focus");
    assert_eq!(focus_jid_or_default(Some("f".to_string()), "meet.example"), "f");
}

#[test]
fn simulcast_config_defaults() {
    let c = simulcast_conference_config(
        "room1", "meet.example", None, None, "gst-meet".to_string(), None, "vp8".to_string(), None, None, 720, 1280, 200,
    );
    assert_eq!(c.muc, "room1@conference.meet.example");
    assert_eq!(c.focus, "focus@auth.meet.example/focus");
    assert_eq!(c.start_bitrate, 800);
    assert!(!c.stereo);
    assert_eq!((c.recv_video_scale_height, c.recv_video_scale_width, c.buffer_size), (720, 1280, 200));
    let c = simulcast_conference_config(
        "r", "d", Some("muc.d".to_string()), Some("focus@d".to_string()), "n".to_string(),
        Some("eu".to_string()), "h264".to_string(), Some(1200), Some(true), 360, 640, 50,
    );
    assert_eq!(c.muc, "r@muc.d");
    assert_eq!(c.focus, "focus@d");
    assert_eq!(c.region.as_deref(), Some("eu"));
    assert_eq!(c.start_bitrate, 1200);
    assert!(c.stereo);
}

#[test]
fn guest_config() {
    let c = guest_conference_config("room1", "muc.meet.jitsi", "focus.meet.jitsi".to_string(), "StreamStudio".to_string(), "h264".to_string(), true, 2000);
    assert_eq!(c.muc, "room1@muc.meet.jitsi");
    assert_eq!(c.focus, "focus.meet.jitsi");
    assert_eq!(c.nick, "StreamStudio");
    assert!(c.region.is_none());
    assert_eq!(c.start_bitrate, 800);
    assert_eq!((c.recv_video_scale_height, c.recv_video_scale_width), (720, 1280));
    assert!(c.stereo);
    assert_eq!(c.buffer_size, 2000);
}

#[test]
fn receiver_constraints() {
    let c = simulcast_receiver_constraints(None, None, 720);
    assert_eq!((c.last_n, c.max_height), (-1, 720));
    assert!(c.selected_endpoints.is_none());
    let c = simulcast_receiver_constraints(Some(3), Some("a,b".to_string()), 360);
    assert_eq!(c.last_n, 3);
    assert_eq!(c.selected_endpoints.unwrap(), vec!["a", "b"]);
    assert_eq!(c.max_height, 360);
    let g = guest_receiver_constraints();
    assert_eq!((g.last_n, g.max_height), (0, 720));
    assert!(g.selected_endpoints.is_none());
}

#[test]
fn stereo_from_backend() {
    assert_eq!(room_details_url("https://conference.tellyo.com", "r1"), "https://conference.tellyo.com/roomdetails/r1");
    assert_eq!(stereo_from_reply(&RoomDetailsReply::Details { hq_audio: Some(true) }), Ok(true));
    assert_eq!(stereo_from_reply(&RoomDetailsReply::Details { hq_audio: None }), Ok(false));
    let errors = RoomDetailsReply::ApiErrors { errors: vec![("room not found".to_string(), 404)] };
    assert_eq!(stereo_from_reply(&errors), Err(BackendError::RoomDetailsUnavailable));
    assert_eq!(stereo_from_reply(&RoomDetailsReply::Unreadable), Err(BackendError::UnreadableReply));
    assert_eq!(BackendError::RoomDetailsUnavailable.to_string(), "Failed to get room details from backend");
    assert_eq!(BackendError::UnreadableReply.to_string(), "Failed to parse response from backend");
}

#[test]
fn init_announcement() {
    let m = init_message("room1".to_string(), "abcd".to_string(), "tok".to_string());
    assert_eq!(m.message_type, "init");
    assert!(!m.data.mic && m.data.camera);
    assert_eq!((m.data.room.as_str(), m.data.display_name.as_str()), ("room1", "Alek1"));
    assert_eq!((m.data.endpoint_id.as_str(), m.data.token.as_str()), ("abcd", "tok"));
}

#[test]
fn notification_steps() {
    assert_eq!(notify_step(NotifyEvent::Tick), NotifyAction::Announce);
    assert_eq!(notify_step(NotifyEvent::Message), NotifyAction::Wait);
    for e in [NotifyEvent::SendFailed, NotifyEvent::Closed, NotifyEvent::ReadFailed, NotifyEvent::Ended] {
        assert_eq!(notify_step(e), NotifyAction::Stop);
    }
}

#[test]
fn first_receive_pad() {
    assert!(links_to_pli_injector("recv_rtp_src_0_12345_96"));
    assert!(links_to_pli_injector("recv_rtp_src_0"));
    assert!(!links_to_pli_injector("recv_rtp_src_1_1_96"));
    assert!(!links_to_pli_injector("recv_rtp"));
}

#[test]
fn outbound_stats_fresh() {
    let mut stats = RtcOutboundRtpStreamStats::new(1234, "video", 42.0f64.to_bits());
    assert_eq!(stats.id, "outbound-rtp-video-1234");
    assert_eq!(stats.stats_type, "outbound-rtp");
    assert_eq!(f64::from_bits(stats.timestamp_bits), 42.0);
    assert_eq!(stats.transport_id.as_deref(), Some("transport-0"));
    assert_eq!(stats.media_type.as_deref(), Some("video"));
    assert_eq!(stats.active, Some(true));
    assert!(stats.codec_id.is_none() && stats.bytes_sent.is_none() && stats.rtx_ssrc.is_none());
    stats.bytes_sent = Some(10);
    stats.header_bytes_sent = Some(20);
    stats.rtx_ssrc = Some(5678);
    assert_eq!((stats.bytes_sent, stats.header_bytes_sent, stats.rtx_ssrc), (Some(10), Some(20), Some(5678)));
    assert_ne!(RtcOutboundRtpStreamStats::new(1, "audio", 0).id, RtcOutboundRtpStreamStats::new(10, "audio", 0).id);
    let d = QualityLimitationDurations::default();
    assert!(d.none.is_none() && d.cpu.is_none() && d.bandwidth.is_none() && d.other.is_none());
}
