use jitsi_guest::pipeline::{
    branch_element_names, generate_gst_pipeline_string, participant_bin_name,
    participant_pipeline_description, send_pipeline_description, simulcast_layers, supported_codec,
};

fn expected(encoding: &str, depay: &str, ip: &str, port: &str, audio: &str) -> String {
    format!("rtpbin name=return_rtpbin
    udpsrc reuse=true address={ip} port={port} caps=\"application/x-rtp, media=video, clock-rate=90000, encoding-name={encoding}, rtcp-fb-nack=1, rtcp-fb-nack-pli=(int)1, rtcp-fb-ccm-fir=1, payload=96\" ! return_rtpbin.recv_rtp_sink_0
    return_rtpbin. ! identity name=pli-injector ! {depay} ! queue name=video
    udpsrc reuse=true address={ip} port=5035 ! identity name=rtcp_logger_receiver ! return_rtpbin.recv_rtcp_sink_0
    return_rtpbin.send_rtcp_src_0 ! identity name=rtcp_logger_sender ! udpsink host=localhost port=5036 sync=false async=false
    jackaudiosrc connect=0 client-name={audio} !
    queue !
    rawaudioparse pcm-format=f32le sample-rate=48000 !
    audioconvert !
    queue !
    audioresample !
    audio/x-raw,channels=2,rate=48000 !
    queue !
    opusenc bitrate=100000 inband-fec=true name=audio")
}

fn generate(codec: &str) -> String {
    generate_gst_pipeline_string(codec.to_string(), "239.0.0.1".to_string(), "5004".to_string(), "studio".to_string())
}

#[test]
fn h264_pipeline() {
    assert_eq!(
        generate("h264"),
        expected("H264", "rtph264depay ! h264parse config-interval=-1", "239.0.0.1", "5004", "studio")
    );
}

#[test]
fn vp9_av1_vp8_pipelines() {
    assert_eq!(generate("vp9"), expected("VP9", "rtpvp9depay ! vp9parse", "239.0.0.1", "5004", "studio"));
    assert_eq!(generate("av1"), expected("AV1", "rtpav1depay ! av1parse", "239.0.0.1", "5004", "studio"));
    assert_eq!(generate("vp8"), expected("VP8", "rtpvp8depay", "239.0.0.1", "5004", "studio"));
}

#[test]
fn supported_codecs() {
    for c in ["h264", "vp9", "av1", "vp8"] {
        assert!(supported_codec(c));
    }
    for c in ["H264", "opus", "", "vp10"] {
        assert!(!supported_codec(c));
    }
}

#[test]
fn given_send_pipeline_wins() {
    let given = send_pipeline_description(
        Some("videotestsrc ! queue name=video".to_string()),
        "unknown".to_string(),
        "a".to_string(),
        "b".to_string(),
        "c".to_string(),
    );
    assert_eq!(given, "videotestsrc ! queue name=video");
    let generated = send_pipeline_description(None, "vp8".to_string(), "239.0.0.1".to_string(), "5004".to_string(), "studio".to_string());
    assert_eq!(generated, generate("vp8"));
}

#[test]
fn participant_template_filled() {
    let t = "queue name={participant_id} ! fakesink name=sink_{nick} jid={jid} user={jid_user} again={nick}";
    assert_eq!(
        participant_pipeline_description(t, "alice@example.com/res", "alice", "abcd1234", "Alice"),
        "queue name=abcd1234 ! fakesink name=sink_Alice jid=alice@example.com/res user=alice again=Alice"
    );
    assert_eq!(participant_pipeline_description("plain", "j", "u", "p", "n"), "plain");
    assert_eq!(participant_bin_name("abcd1234"), "participant_abcd1234");
}

#[test]
fn three_simulcast_layers() {
    let ls = simulcast_layers();
    assert_eq!(ls.len(), 3);
    let got: Vec<_> = ls
        .iter()
        .map(|l| (l.label.as_str(), l.width, l.height, l.payload_type, l.send_pad_index, l.needs_scale, l.bitrate))
        .collect();
    assert_eq!(
        got,
        vec![
            ("1080p", 1920, 1080, 96, 0, false, 3000),
            ("720p", 1280, 720, 97, 1, true, 1500),
            ("360p", 640, 360, 98, 2, true, 750),
        ]
    );
}

#[test]
fn branch_names_in_link_order() {
    assert_eq!(branch_element_names("1080p", false), vec!["queue_1080p", "vp8enc_1080p", "vp8enc_queue_1080p"]);
    assert_eq!(
        branch_element_names("720p", true),
        vec!["queue_720p", "videoscale_720p", "caps_720p", "vp8enc_720p", "vp8enc_queue_720p"]
    );
}
