use vstd::prelude::*;

use crate::text::{
    is_placeholder, lemma_replaced_at_pattern, lemma_replaced_other_placeholder, lemma_replaced_plain_prefix,
    replace_all, replaced, str_eq,
};

verus! {

/// For a supported video codec name, the RTP encoding name and the
/// depayloader/parser chain of its receive branch.
pub open spec fn codec_params(codec: Seq<char>) -> Option<(Seq<char>, Seq<char>)> {
    if codec == "h264"@ {
        Some(("H264"@, "rtph264depay ! h264parse config-interval=-1"@))
    } else if codec == "vp9"@ {
        Some(("VP9"@, "rtpvp9depay ! vp9parse"@))
    } else if codec == "av1"@ {
        Some(("AV1"@, "rtpav1depay ! av1parse"@))
    } else if codec == "vp8"@ {
        Some(("VP8"@, "rtpvp8depay"@))
    } else {
        None
    }
}

/// The guest-return send pipeline: RTP video received by multicast on
/// `ip:port` (RTCP on port 5035 in, 5036 out), with JACK audio from the
/// client `audio` encoded as Opus.
pub open spec fn pipeline_text(
    encoding: Seq<char>,
    depay: Seq<char>,
    ip: Seq<char>,
    port: Seq<char>,
    audio: Seq<char>,
) -> Seq<char> {
    "rtpbin name=return_rtpbin\n    udpsrc reuse=true address="@ + ip + " port="@ + port
        + " caps=\"application/x-rtp, media=video, clock-rate=90000, encoding-name="@ + encoding
        + ", rtcp-fb-nack=1, rtcp-fb-nack-pli=(int)1, rtcp-fb-ccm-fir=1, payload=96\" ! return_rtpbin.recv_rtp_sink_0\n    return_rtpbin. ! identity name=pli-injector ! "@
        + depay + " ! queue name=video\n    udpsrc reuse=true address="@ + ip
        + " port=5035 ! identity name=rtcp_logger_receiver ! return_rtpbin.recv_rtcp_sink_0\n    return_rtpbin.send_rtcp_src_0 ! identity name=rtcp_logger_sender ! udpsink host=localhost port=5036 sync=false async=false\n    jackaudiosrc connect=0 client-name="@
        + audio
        + " !\n    queue !\n    rawaudioparse pcm-format=f"@
        + "32le sample-rate=48000 !\n    audioconvert !\n    queue !\n    audioresample !\n    audio/x-raw,channels=2,rate=48000 !\n    queue !\n    opusenc bitrate=100000 inband-fec=true name=audio"@
}

/// Whether a send pipeline can be generated for the codec: one of h264,
/// vp9, av1, vp8.
pub fn supported_codec(codec: &str) -> (b: bool)
    ensures
        b == codec_params(codec@) is Some,
{
    str_eq(codec, "h264") || str_eq(codec, "vp9") || str_eq(codec, "av1") || str_eq(codec, "vp8")
}

/// The send pipeline description for a supported codec.
pub fn generate_gst_pipeline_string(codec: String, ip_video: String, port_video: String, audio_source: String) -> (s: String)
    requires
        codec_params(codec@) is Some,
    ensures
        s@ == pipeline_text(
            codec_params(codec@).unwrap().0,
            codec_params(codec@).unwrap().1,
            ip_video@,
            port_video@,
            audio_source@,
        ),
{
    let (encoding, depay): (&str, &str) = if str_eq(codec.as_str(), "h264") {
        ("H264", "rtph264depay ! h264parse config-interval=-1")
    } else if str_eq(codec.as_str(), "vp9") {
        ("VP9", "rtpvp9depay ! vp9parse")
    } else if str_eq(codec.as_str(), "av1") {
        ("AV1", "rtpav1depay ! av1parse")
    } else {
        ("VP8", "rtpvp8depay")
    };
    let mut s = String::from_str("rtpbin name=return_rtpbin\n    udpsrc reuse=true address=");
    s.append(ip_video.as_str());
    s.append(" port=");
    s.append(port_video.as_str());
    s.append(" caps=\"application/x-rtp, media=video, clock-rate=90000, encoding-name=");
    s.append(encoding);
    s.append(", rtcp-fb-nack=1, rtcp-fb-nack-pli=(int)1, rtcp-fb-ccm-fir=1, payload=96\" ! return_rtpbin.recv_rtp_sink_0\n    return_rtpbin. ! identity name=pli-injector ! ");
    s.append(depay);
    s.append(" ! queue name=video\n    udpsrc reuse=true address=");
    s.append(ip_video.as_str());
    s.append(" port=5035 ! identity name=rtcp_logger_receiver ! return_rtpbin.recv_rtcp_sink_0\n    return_rtpbin.send_rtcp_src_0 ! identity name=rtcp_logger_sender ! udpsink host=localhost port=5036 sync=false async=false\n    jackaudiosrc connect=0 client-name=");
    s.append(audio_source.as_str());
    s.append(" !\n    queue !\n    rawaudioparse pcm-format=f");
    s.append("32le sample-rate=48000 !\n    audioconvert !\n    queue !\n    audioresample !\n    audio/x-raw,channels=2,rate=48000 !\n    queue !\n    opusenc bitrate=100000 inband-fec=true name=audio");
    s
}

/// The send pipeline to use: the one given, or else the generated one for
/// the codec (which must then be supported).
pub fn send_pipeline_description(
    send_pipeline: Option<String>,
    codec: String,
    ip_video: String,
    port_video: String,
    audio_source: String,
) -> (s: String)
    requires
        send_pipeline is Some || codec_params(codec@) is Some,
    ensures
        send_pipeline matches Some(p) ==> s@ == p@,
        send_pipeline is None ==> s@ == pipeline_text(
            codec_params(codec@).unwrap().0,
            codec_params(codec@).unwrap().1,
            ip_video@,
            port_video@,
            audio_source@,
        ),
{
    match send_pipeline {
        Some(p) => p,
        None => generate_gst_pipeline_string(codec, ip_video, port_video, audio_source),
    }
}

/// A participant's receive pipeline: the template with the placeholders
/// `{jid}`, `{jid_user}`, `{participant_id}` and `{nick}` filled in, in
/// that order.
pub open spec fn participant_pipeline_text(
    template: Seq<char>,
    jid: Seq<char>,
    jid_user: Seq<char>,
    participant_id: Seq<char>,
    nick: Seq<char>,
) -> Seq<char> {
    replaced(
        replaced(
            replaced(replaced(template, "{jid}"@, jid), "{jid_user}"@, jid_user),
            "{participant_id}"@,
            participant_id,
        ),
        "{nick}"@,
        nick,
    )
}

/// Fills in the placeholders of a participant pipeline template.
pub fn participant_pipeline_description(
    template: &str,
    jid: &str,
    jid_user: &str,
    participant_id: &str,
    nick: &str,
) -> (s: String)
    ensures
        s@ == participant_pipeline_text(template@, jid@, jid_user@, participant_id@, nick@),
{
    proof {
        reveal_strlit("{jid}");
        reveal_strlit("{jid_user}");
        reveal_strlit("{participant_id}");
        reveal_strlit("{nick}");
    }
    let a = replace_all(template, "{jid}", jid);
    let b = replace_all(a.as_str(), "{jid_user}", jid_user);
    let c = replace_all(b.as_str(), "{participant_id}", participant_id);
    replace_all(c.as_str(), "{nick}", nick)
}

/// The four placeholders of a participant pipeline template are
/// placeholders in the sense of `is_placeholder`, and no two are the same.
proof fn lemma_pipeline_placeholders()
    ensures
        is_placeholder("{jid}"@),
        is_placeholder("{jid_user}"@),
        is_placeholder("{participant_id}"@),
        is_placeholder("{nick}"@),
        "{jid}"@.len() != "{jid_user}"@.len(),
        "{jid}"@.len() != "{participant_id}"@.len(),
        "{jid}"@.len() != "{nick}"@.len(),
        "{jid_user}"@.len() != "{participant_id}"@.len(),
        "{jid_user}"@.len() != "{nick}"@.len(),
        "{participant_id}"@.len() != "{nick}"@.len(),
{
    reveal_strlit("{jid}");
    reveal_strlit("{jid_user}");
    reveal_strlit("{participant_id}");
    reveal_strlit("{nick}");
}

/// Filling goes through a template piece by piece: text without an
/// opening brace stays as written, and each placeholder at the head of the
/// rest becomes its value, an empty value too, whatever follows it. So no
/// placeholder of the template is left in the pipeline. This holds when
/// the values hold no opening brace (else a value could form a placeholder
/// with the text after it).
pub proof fn law_participant_pipeline_pieces(
    head: Seq<char>,
    rest: Seq<char>,
    jid: Seq<char>,
    jid_user: Seq<char>,
    participant_id: Seq<char>,
    nick: Seq<char>,
)
    requires
        !head.contains('{'),
        !jid.contains('{'),
        !jid_user.contains('{'),
        !participant_id.contains('{'),
        !nick.contains('{'),
    ensures
        participant_pipeline_text(Seq::empty(), jid, jid_user, participant_id, nick) == Seq::<char>::empty(),
        participant_pipeline_text(head + rest, jid, jid_user, participant_id, nick) == head
            + participant_pipeline_text(rest, jid, jid_user, participant_id, nick),
        participant_pipeline_text("{jid}"@ + rest, jid, jid_user, participant_id, nick) == jid
            + participant_pipeline_text(rest, jid, jid_user, participant_id, nick),
        participant_pipeline_text("{jid_user}"@ + rest, jid, jid_user, participant_id, nick) == jid_user
            + participant_pipeline_text(rest, jid, jid_user, participant_id, nick),
        participant_pipeline_text("{participant_id}"@ + rest, jid, jid_user, participant_id, nick)
            == participant_id + participant_pipeline_text(rest, jid, jid_user, participant_id, nick),
        participant_pipeline_text("{nick}"@ + rest, jid, jid_user, participant_id, nick) == nick
            + participant_pipeline_text(rest, jid, jid_user, participant_id, nick),
{
    lemma_pipeline_placeholders();
    let p1 = "{jid}"@;
    let p2 = "{jid_user}"@;
    let p3 = "{participant_id}"@;
    let p4 = "{nick}"@;
    let x1 = replaced(rest, p1, jid);
    let x2 = replaced(x1, p2, jid_user);
    let x3 = replaced(x2, p3, participant_id);
    // Text without a brace.
    lemma_replaced_plain_prefix(head, rest, p1, jid);
    lemma_replaced_plain_prefix(head, x1, p2, jid_user);
    lemma_replaced_plain_prefix(head, x2, p3, participant_id);
    lemma_replaced_plain_prefix(head, x3, p4, nick);
    // `{jid}`.
    lemma_replaced_at_pattern(rest, p1, jid);
    lemma_replaced_plain_prefix(jid, x1, p2, jid_user);
    lemma_replaced_plain_prefix(jid, x2, p3, participant_id);
    lemma_replaced_plain_prefix(jid, x3, p4, nick);
    // `{jid_user}`.
    lemma_replaced_other_placeholder(p2, rest, p1, jid);
    lemma_replaced_at_pattern(x1, p2, jid_user);
    lemma_replaced_plain_prefix(jid_user, x2, p3, participant_id);
    lemma_replaced_plain_prefix(jid_user, x3, p4, nick);
    // `{participant_id}`.
    lemma_replaced_other_placeholder(p3, rest, p1, jid);
    lemma_replaced_other_placeholder(p3, x1, p2, jid_user);
    lemma_replaced_at_pattern(x2, p3, participant_id);
    lemma_replaced_plain_prefix(participant_id, x3, p4, nick);
    // `{nick}`.
    lemma_replaced_other_placeholder(p4, rest, p1, jid);
    lemma_replaced_other_placeholder(p4, x1, p2, jid_user);
    lemma_replaced_other_placeholder(p4, x2, p3, participant_id);
    lemma_replaced_at_pattern(x3, p4, nick);
}

/// The name of the bin holding a participant's receive pipeline.
pub fn participant_bin_name(participant_id: &str) -> (s: String)
    ensures
        s@ == "participant_"@ + participant_id@,
{
    let mut s = String::from_str("participant_");
    s.append(participant_id);
    s
}

/// One layer of a simulcast sender: its label, size, RTP payload type,
/// the send pad it feeds, whether the source is scaled for it, and its
/// target bitrate.
#[derive(Debug)]
pub struct SimulcastLayer {
    pub label: String,
    pub width: i32,
    pub height: i32,
    pub payload_type: i32,
    pub send_pad_index: u32,
    pub needs_scale: bool,
    pub bitrate: i32,
}

/// Whether a layer is the one described.
pub open spec fn layer_is(
    l: SimulcastLayer,
    label: Seq<char>,
    width: i32,
    height: i32,
    payload_type: i32,
    send_pad_index: u32,
    needs_scale: bool,
    bitrate: i32,
) -> bool {
    &&& l.label@ == label
    &&& l.width == width
    &&& l.height == height
    &&& l.payload_type == payload_type
    &&& l.send_pad_index == send_pad_index
    &&& l.needs_scale == needs_scale
    &&& l.bitrate == bitrate
}

fn layer(
    label: &str,
    width: i32,
    height: i32,
    payload_type: i32,
    send_pad_index: u32,
    needs_scale: bool,
    bitrate: i32,
) -> (l: SimulcastLayer)
    ensures
        layer_is(l, label@, width, height, payload_type, send_pad_index, needs_scale, bitrate),
{
    SimulcastLayer { label: String::from_str(label), width, height, payload_type, send_pad_index, needs_scale, bitrate }
}

/// The three layers of the simulcast sender, from the 1080p source: 1080p
/// unscaled at 3000 kbit/s, 720p at 1500, 360p at 750, on payload types 96
/// to 98 and send pads 0 to 2.
pub fn simulcast_layers() -> (ls: Vec<SimulcastLayer>)
    ensures
        ls@.len() == 3,
        layer_is(ls@[0], "1080p"@, 1920, 1080, 96, 0, false, 3000),
        layer_is(ls@[1], "720p"@, 1280, 720, 97, 1, true, 1500),
        layer_is(ls@[2], "360p"@, 640, 360, 98, 2, true, 750),
{
    let mut ls: Vec<SimulcastLayer> = Vec::new();
    ls.push(layer("1080p", 1920, 1080, 96, 0, false, 3000));
    ls.push(layer("720p", 1280, 720, 97, 1, true, 1500));
    ls.push(layer("360p", 640, 360, 98, 2, true, 750));
    ls
}

/// The elements of a layer's branch, in link order: a queue, the scaler
/// and its caps filter when the layer is scaled, the VP8 encoder, and the
/// output queue that feeds the layer's video sink.
pub open spec fn branch_names(label: Seq<char>, needs_scale: bool) -> Seq<Seq<char>> {
    seq!["queue_"@ + label] + (if needs_scale {
        seq!["videoscale_"@ + label, "caps_"@ + label]
    } else {
        Seq::empty()
    }) + seq!["vp8enc_"@ + label, "vp8enc_queue_"@ + label]
}

fn prefixed(prefix: &str, label: &str) -> (s: String)
    ensures
        s@ == prefix@ + label@,
{
    let mut s = String::from_str(prefix);
    s.append(label);
    s
}

/// The names of the elements of a layer's branch, in link order.
pub fn branch_element_names(label: &str, needs_scale: bool) -> (names: Vec<String>)
    ensures
        names@.len() == branch_names(label@, needs_scale).len(),
        forall|i: int| 0 <= i < names@.len() ==> (#[trigger] names@[i])@ == branch_names(label@, needs_scale)[i],
{
    let mut names: Vec<String> = Vec::new();
    names.push(prefixed("queue_", label));
    if needs_scale {
        names.push(prefixed("videoscale_", label));
        names.push(prefixed("caps_", label));
    }
    names.push(prefixed("vp8enc_", label));
    names.push(prefixed("vp8enc_queue_", label));
    let ghost expected = branch_names(label@, needs_scale);
    assert(names@.len() == expected.len());
    assert forall|i: int| 0 <= i < names@.len() implies (#[trigger] names@[i])@ == expected[i] by {
        if needs_scale {
            assert(expected =~= seq!["queue_"@ + label@, "videoscale_"@ + label@, "caps_"@ + label@, "vp8enc_"@ + label@, "vp8enc_queue_"@ + label@]);
        } else {
            assert(expected =~= seq!["queue_"@ + label@, "vp8enc_"@ + label@, "vp8enc_queue_"@ + label@]);
        }
    }
    names
}

} // verus!
