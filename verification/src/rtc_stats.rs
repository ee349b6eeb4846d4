use vstd::prelude::*;

use crate::text::{decimal, decimal_value, is_canonical_decimal, lemma_decimal_canonical, lemma_decimal_value, push_decimal};
use crate::uri::opt_text;

verus! {

/// How long an outbound stream's quality was limited, per reason. Each
/// duration is held as the bit pattern of an IEEE-754 double.
#[derive(Debug, Clone)]
pub struct QualityLimitationDurations {
    pub none: Option<u64>,
    pub cpu: Option<u64>,
    pub bandwidth: Option<u64>,
    pub other: Option<u64>,
}

impl Default for QualityLimitationDurations {
    /// No duration known for any reason.
    fn default() -> (d: Self)
        ensures
            d.none is None,
            d.cpu is None,
            d.bandwidth is None,
            d.other is None,
    {
        QualityLimitationDurations { none: None, cpu: None, bandwidth: None, other: None }
    }
}

/// The WebRTC statistics of one outbound RTP stream. Fields that hold a
/// time or duration hold the bit pattern of an IEEE-754 double.
#[derive(Debug, Clone)]
pub struct RtcOutboundRtpStreamStats {
    pub id: String,
    pub timestamp_bits: u64,
    pub stats_type: String,
    pub ssrc: u32,
    pub kind: String,
    pub codec_id: Option<String>,
    pub transport_id: Option<String>,
    pub media_type: Option<String>,
    pub bytes_sent: Option<u64>,
    pub packets_sent: Option<u64>,
    pub active: Option<bool>,
    pub encoder_implementation: Option<String>,
    pub fir_count: Option<u32>,
    pub frame_height: Option<u32>,
    pub frame_width: Option<u32>,
    pub frames_encoded: Option<u32>,
    pub frames_per_second: Option<u32>,
    pub frames_sent: Option<u32>,
    pub header_bytes_sent: Option<u64>,
    pub huge_frames_sent: Option<u32>,
    pub key_frames_encoded: Option<u32>,
    pub media_source_id: Option<String>,
    pub mid: Option<String>,
    pub nack_count: Option<u32>,
    pub pli_count: Option<u32>,
    pub power_efficient_encoder: Option<bool>,
    pub qp_sum: Option<u64>,
    pub quality_limitation_durations: Option<QualityLimitationDurations>,
    pub quality_limitation_reason: Option<String>,
    pub quality_limitation_resolution_changes: Option<u32>,
    pub remote_id: Option<String>,
    pub retransmitted_bytes_sent: Option<u64>,
    pub retransmitted_packets_sent: Option<u64>,
    pub rtx_ssrc: Option<u32>,
    pub scalability_mode: Option<String>,
    pub target_bitrate: Option<u64>,
    pub total_encode_time_bits: Option<u64>,
    pub total_encoded_bytes_target: Option<u32>,
    pub total_packet_send_delay_bits: Option<u64>,
}

/// The id of the outbound stream of a kind with an SSRC:
/// `outbound-rtp-<kind>-<ssrc>`.
pub open spec fn outbound_stats_id(kind: Seq<char>, ssrc: u32) -> Seq<char> {
    "outbound-rtp-"@ + kind + "-"@ + decimal(ssrc as nat)
}

impl RtcOutboundRtpStreamStats {
    /// Fresh statistics of an active stream: its id, type `outbound-rtp`,
    /// transport `transport-0`, media type its kind, and nothing measured.
    pub fn new(ssrc: u32, kind: &str, timestamp_bits: u64) -> (s: Self)
        ensures
            s.id@ == outbound_stats_id(kind@, ssrc),
            s.timestamp_bits == timestamp_bits,
            s.stats_type@ == "outbound-rtp"@,
            s.ssrc == ssrc,
            s.kind@ == kind@,
            s.codec_id is None,
            opt_text(s.transport_id) == Some("transport-0"@),
            opt_text(s.media_type) == Some(kind@),
            s.bytes_sent is None,
            s.packets_sent is None,
            s.active == Some(true),
            s.encoder_implementation is None,
            s.fir_count is None,
            s.frame_height is None,
            s.frame_width is None,
            s.frames_encoded is None,
            s.frames_per_second is None,
            s.frames_sent is None,
            s.header_bytes_sent is None,
            s.huge_frames_sent is None,
            s.key_frames_encoded is None,
            s.media_source_id is None,
            s.mid is None,
            s.nack_count is None,
            s.pli_count is None,
            s.power_efficient_encoder is None,
            s.qp_sum is None,
            s.quality_limitation_durations is None,
            s.quality_limitation_reason is None,
            s.quality_limitation_resolution_changes is None,
            s.remote_id is None,
            s.retransmitted_bytes_sent is None,
            s.retransmitted_packets_sent is None,
            s.rtx_ssrc is None,
            s.scalability_mode is None,
            s.target_bitrate is None,
            s.total_encode_time_bits is None,
            s.total_encoded_bytes_target is None,
            s.total_packet_send_delay_bits is None,
    {
        let mut id = String::from_str("outbound-rtp-");
        id.append(kind);
        id.append("-");
        push_decimal(&mut id, ssrc as u64);
        RtcOutboundRtpStreamStats {
            id,
            timestamp_bits,
            stats_type: String::from_str("outbound-rtp"),
            ssrc,
            kind: String::from_str(kind),
            codec_id: None,
            transport_id: Some(String::from_str("transport-0")),
            media_type: Some(String::from_str(kind)),
            bytes_sent: None,
            packets_sent: None,
            active: Some(true),
            encoder_implementation: None,
            fir_count: None,
            frame_height: None,
            frame_width: None,
            frames_encoded: None,
            frames_per_second: None,
            frames_sent: None,
            header_bytes_sent: None,
            huge_frames_sent: None,
            key_frames_encoded: None,
            media_source_id: None,
            mid: None,
            nack_count: None,
            pli_count: None,
            power_efficient_encoder: None,
            qp_sum: None,
            quality_limitation_durations: None,
            quality_limitation_reason: None,
            quality_limitation_resolution_changes: None,
            remote_id: None,
            retransmitted_bytes_sent: None,
            retransmitted_packets_sent: None,
            rtx_ssrc: None,
            scalability_mode: None,
            target_bitrate: None,
            total_encode_time_bits: None,
            total_encoded_bytes_target: None,
            total_packet_send_delay_bits: None,
        }
    }
}

/// Streams that differ in kind or in SSRC have distinct ids.
pub proof fn law_outbound_ids_distinct(kind_a: Seq<char>, a: u32, kind_b: Seq<char>, b: u32)
    requires
        kind_a != kind_b || a != b,
    ensures
        outbound_stats_id(kind_a, a) != outbound_stats_id(kind_b, b),
{
    reveal_strlit("-");
    lemma_decimal_value(a as nat);
    lemma_decimal_value(b as nat);
    let da = decimal(a as nat);
    let db = decimal(b as nat);
    let head_a = "outbound-rtp-"@ + kind_a;
    let head_b = "outbound-rtp-"@ + kind_b;
    let sa = head_a + "-"@ + da;
    let sb = head_b + "-"@ + db;
    assert(sa == outbound_stats_id(kind_a, a));
    assert(sb == outbound_stats_id(kind_b, b));
    if sa == sb {
        let n = sa.len();
        if da.len() == db.len() {
            assert(sa.skip(n - da.len()) =~= da);
            assert(sb.skip(n - db.len()) =~= db);
            assert(sa.take(n - da.len() - 1) =~= head_a);
            assert(sb.take(n - db.len() - 1) =~= head_b);
            assert(head_a.skip("outbound-rtp-"@.len() as int) =~= kind_a);
            assert(head_b.skip("outbound-rtp-"@.len() as int) =~= kind_b);
        } else if da.len() < db.len() {
            let i = n - da.len() - 1;
            assert(sa[i] == '-');
            assert(sb[i] == db[i - (n - db.len())]);
        } else {
            let i = n - db.len() - 1;
            assert(sb[i] == '-');
            assert(sa[i] == da[i - (n - da.len())]);
        }
    }
}

/// An outbound stream's id reads back as its kind and its SSRC: it is
/// `outbound-rtp-`, the kind and `-`, followed by the SSRC as `Display`
/// writes a `u32` (decimal digits with no leading zero), and that number is
/// the SSRC itself, for every SSRC, those of `2^31` and above included.
pub proof fn law_outbound_id_reads_back(kind: Seq<char>, ssrc: u32)
    ensures
        outbound_stats_id(kind, ssrc).take(("outbound-rtp-"@.len() + kind.len() + 1) as int) == "outbound-rtp-"@ + kind + "-"@,
        is_canonical_decimal(outbound_stats_id(kind, ssrc).skip(("outbound-rtp-"@.len() + kind.len() + 1) as int)),
        decimal_value(outbound_stats_id(kind, ssrc).skip(("outbound-rtp-"@.len() + kind.len() + 1) as int)) == ssrc,
{
    reveal_strlit("-");
    lemma_decimal_canonical(ssrc as nat);
    let head = "outbound-rtp-"@ + kind + "-"@;
    let id = outbound_stats_id(kind, ssrc);
    assert(head.len() == "outbound-rtp-"@.len() + kind.len() + 1);
    assert(id == head + decimal(ssrc as nat));
    assert(id.take(head.len() as int) =~= head);
    assert(id.skip(head.len() as int) =~= decimal(ssrc as nat));
}

} // verus!
