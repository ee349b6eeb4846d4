use vstd::prelude::*;

use crate::text::{
    chars_of, count_char, joined, lemma_join_split, lemma_split_pieces_count, lemma_split_pieces_shape, split_on,
    split_pieces, str_eq,
};

verus! {

/// How much the client logs.
#[derive(PartialEq, Eq, Structural, Clone, Copy, Debug)]
pub enum LogLevel {
    Info,
    Debug,
    Trace,
}

/// The log level for the number of `-v` flags: none logs at INFO, one at
/// DEBUG, more at TRACE.
pub fn log_level(verbose: u8) -> (l: LogLevel)
    ensures
        verbose == 0 ==> l == LogLevel::Info,
        verbose == 1 ==> l == LogLevel::Debug,
        verbose >= 2 ==> l == LogLevel::Trace,
{
    match verbose {
        0 => LogLevel::Info,
        1 => LogLevel::Debug,
        _ => LogLevel::Trace,
    }
}

/// The kind of video a participant signals that it sends.
#[derive(PartialEq, Eq, Structural, Clone, Copy, Debug)]
pub enum VideoType {
    Camera,
    Desktop,
}

/// The video type named `name` ("camera" or "desktop"); otherwise an error
/// message naming it.
pub fn parse_video_type(name: &str) -> (r: Result<VideoType, String>)
    ensures
        name@ == "camera"@ ==> r == Ok::<VideoType, String>(VideoType::Camera),
        name@ == "desktop"@ ==> r == Ok::<VideoType, String>(VideoType::Desktop),
        name@ != "camera"@ && name@ != "desktop"@ ==> (r matches Err(m) && m@ == "invalid video type: "@ + name@),
{
    proof {
        reveal_strlit("camera");
        reveal_strlit("desktop");
        assert("camera"@.len() != "desktop"@.len());
    }
    if str_eq(name, "camera") {
        Ok(VideoType::Camera)
    } else if str_eq(name, "desktop") {
        Ok(VideoType::Desktop)
    } else {
        let mut m = String::from_str("invalid video type: ");
        m.append(name);
        Err(m)
    }
}

/// How the client authenticates to the XMPP server.
#[derive(Debug)]
pub enum Authentication {
    Anonymous,
    Plain { username: String, password: String },
    Jwt { token: String },
}

/// The message of the error for a user name given without a password.
pub open spec fn missing_password_message() -> Seq<char> {
    "if xmpp-username is provided, xmpp-password must also be provided"@
}

/// The authentication to use: plain with the user name and password when a
/// user name is given (the password is then required), else JWT with the
/// token when one is given, else anonymous.
pub fn authentication(username: Option<String>, password: Option<String>, jwt: Option<String>) -> (r: Result<Authentication, String>)
    ensures
        username matches Some(u) ==> match password {
            Some(p) => r matches Ok(Authentication::Plain { username: ru, password: rp }) && ru@ == u@ && rp@ == p@,
            None => r matches Err(m) && m@ == missing_password_message(),
        },
        username is None ==> match jwt {
            Some(t) => r matches Ok(Authentication::Jwt { token: rt }) && rt@ == t@,
            None => r matches Ok(Authentication::Anonymous),
        },
{
    match username {
        Some(u) => match password {
            Some(p) => Ok(Authentication::Plain { username: u, password: p }),
            None => Err(String::from_str("if xmpp-username is provided, xmpp-password must also be provided")),
        },
        None => match jwt {
            Some(t) => Ok(Authentication::Jwt { token: t }),
            None => Ok(Authentication::Anonymous),
        },
    }
}

/// The JID of a conference room in a MUC domain: `room@muc`.
pub fn room_jid(room: &str, muc_domain: &str) -> (j: String)
    ensures
        j@ == room@ + "@"@ + muc_domain@,
{
    let mut j = String::from_str(room);
    j.append("@");
    j.append(muc_domain);
    j
}

/// The MUC domain given, or else `conference.<xmpp domain>`.
pub fn muc_domain_or_default(given: Option<String>, xmpp_domain: &str) -> (d: String)
    ensures
        given matches Some(g) ==> d@ == g@,
        given is None ==> d@ == "conference."@ + xmpp_domain@,
{
    match given {
        Some(g) => g,
        None => {
            let mut d = String::from_str("conference.");
            d.append(xmpp_domain);
            d
        },
    }
}

/// The focus JID given, or else `focus@auth.<xmpp domain>/focus`.
pub fn focus_jid_or_default(given: Option<String>, xmpp_domain: &str) -> (f: String)
    ensures
        given matches Some(g) ==> f@ == g@,
        given is None ==> f@ == "focus@auth."@ + xmpp_domain@ + "/focus"@,
{
    match given {
        Some(g) => g,
        None => {
            let mut f = String::from_str("focus@auth.");
            f.append(xmpp_domain);
            f.append("/focus");
            f
        },
    }
}

/// The settings with which the client joins a conference.
#[derive(Debug)]
pub struct ConferenceConfig {
    pub muc: String,
    pub focus: String,
    pub nick: String,
    pub region: Option<String>,
    pub video_codec: String,
    pub start_bitrate: u32,
    pub stereo: bool,
    pub recv_video_scale_height: u16,
    pub recv_video_scale_width: u16,
    pub buffer_size: u32,
}

/// The start bitrate used when none is given.
pub open spec fn default_start_bitrate() -> u32 {
    800
}

/// The settings of a simulcast sender: the room JID in the MUC domain
/// (by default `conference.<xmpp domain>`), the focus JID (by default
/// `focus@auth.<xmpp domain>/focus`), a start bitrate of 800 unless given,
/// and mono unless stereo is asked for; the rest as given.
pub fn simulcast_conference_config(
    room_name: &str,
    xmpp_domain: &str,
    muc_domain: Option<String>,
    focus_jid: Option<String>,
    nick: String,
    region: Option<String>,
    video_codec: String,
    start_bitrate: Option<u32>,
    stereo: Option<bool>,
    recv_video_scale_height: u16,
    recv_video_scale_width: u16,
    buffer_size: u32,
) -> (c: ConferenceConfig)
    ensures
        c.muc@ == room_name@ + "@"@ + (match muc_domain {
            Some(m) => m@,
            None => "conference."@ + xmpp_domain@,
        }),
        c.focus@ == (match focus_jid {
            Some(f) => f@,
            None => "focus@auth."@ + xmpp_domain@ + "/focus"@,
        }),
        c.nick == nick,
        c.region == region,
        c.video_codec == video_codec,
        c.start_bitrate == (match start_bitrate {
            Some(b) => b,
            None => default_start_bitrate(),
        }),
        c.stereo == (match stereo {
            Some(s) => s,
            None => false,
        }),
        c.recv_video_scale_height == recv_video_scale_height,
        c.recv_video_scale_width == recv_video_scale_width,
        c.buffer_size == buffer_size,
{
    let muc = muc_domain_or_default(muc_domain, xmpp_domain);
    let muc_jid = room_jid(room_name, muc.as_str());
    let focus = focus_jid_or_default(focus_jid, xmpp_domain);
    ConferenceConfig {
        muc: muc_jid,
        focus,
        nick,
        region,
        video_codec,
        start_bitrate: match start_bitrate {
            Some(b) => b,
            None => 800,
        },
        stereo: match stereo {
            Some(s) => s,
            None => false,
        },
        recv_video_scale_height,
        recv_video_scale_width,
        buffer_size,
    }
}

/// The height, in pixels, that a guest scales received video to.
pub open spec fn guest_recv_height() -> u16 {
    720
}

/// The width, in pixels, that a guest scales received video to.
pub open spec fn guest_recv_width() -> u16 {
    1280
}

/// The settings of a guest-return client: the room JID in the given MUC
/// domain, the given focus JID and name, no region, a start bitrate of
/// 800, and received video scaled to 1280x720.
pub fn guest_conference_config(
    room_name: &str,
    muc_domain: &str,
    focus_jid: String,
    name: String,
    video_codec: String,
    stereo: bool,
    buffer_size: u32,
) -> (c: ConferenceConfig)
    ensures
        c.muc@ == room_name@ + "@"@ + muc_domain@,
        c.focus == focus_jid,
        c.nick == name,
        c.region is None,
        c.video_codec == video_codec,
        c.start_bitrate == default_start_bitrate(),
        c.stereo == stereo,
        c.recv_video_scale_height == guest_recv_height(),
        c.recv_video_scale_width == guest_recv_width(),
        c.buffer_size == buffer_size,
{
    ConferenceConfig {
        muc: room_jid(room_name, muc_domain),
        focus: focus_jid,
        nick: name,
        region: None,
        video_codec,
        start_bitrate: 800,
        stereo,
        recv_video_scale_height: 720,
        recv_video_scale_width: 1280,
        buffer_size,
    }
}

/// The video a client asks the bridge to send it.
#[derive(Debug)]
pub struct ReceiverVideoConstraints {
    /// How many video streams at most (-1: no limit).
    pub last_n: i32,
    /// The endpoints whose video is preferred, if any are selected.
    pub selected_endpoints: Option<Vec<String>>,
    /// The greatest height of video to receive.
    pub max_height: i32,
}

/// The endpoint ids of a comma-separated selection.
pub open spec fn selected_ids(list: Seq<char>) -> Seq<Seq<char>> {
    split_pieces(list, ',')
}

/// The selected endpoints are all the comma-separated pieces of the list,
/// in order: joined back with commas they give the list, there is one more
/// of them than the list has commas, and none holds a comma.
pub proof fn law_selected_ids_cover_list(list: Seq<char>)
    ensures
        joined(selected_ids(list), ',') == list,
        selected_ids(list).len() == count_char(list, ',') + 1,
        forall|i: int| 0 <= i < selected_ids(list).len() ==> !(#[trigger] selected_ids(list)[i]).contains(','),
{
    lemma_join_split(list, ',');
    lemma_split_pieces_count(list, ',');
    lemma_split_pieces_shape(list, ',');
}

/// The constraints of a simulcast sender: at most `last_n` streams (no
/// limit when not given), the comma-separated endpoints selected when
/// given, and video no higher than the receive scale height.
pub fn simulcast_receiver_constraints(last_n: Option<u16>, select_endpoints: Option<String>, recv_video_scale_height: u16) -> (c: ReceiverVideoConstraints)
    ensures
        c.last_n == (match last_n {
            Some(n) => n as i32,
            None => -1i32,
        }),
        select_endpoints is None ==> c.selected_endpoints is None,
        select_endpoints matches Some(list) ==> (c.selected_endpoints matches Some(ids) && ids@.len()
            == selected_ids(list@).len() && forall|i: int|
            0 <= i < ids@.len() ==> (#[trigger] ids@[i])@ == selected_ids(list@)[i]),
        c.max_height == recv_video_scale_height as i32,
{
    ReceiverVideoConstraints {
        last_n: match last_n {
            Some(n) => n as i32,
            None => -1,
        },
        selected_endpoints: match select_endpoints {
            Some(list) => Some(split_on(list.as_str(), ',')),
            None => None,
        },
        max_height: recv_video_scale_height as i32,
    }
}

/// The constraints of a guest-return client: no incoming video streams,
/// none selected, at most 720 pixels high.
pub fn guest_receiver_constraints() -> (c: ReceiverVideoConstraints)
    ensures
        c.last_n == 0,
        c.selected_endpoints is None,
        c.max_height == guest_recv_height() as i32,
{
    ReceiverVideoConstraints { last_n: 0, selected_endpoints: None, max_height: 720 }
}

/// The URL of the conference backend's details of a room.
pub fn room_details_url(conference_url: &str, room: &str) -> (u: String)
    ensures
        u@ == conference_url@ + "/roomdetails/"@ + room@,
{
    let mut u = String::from_str(conference_url);
    u.append("/roomdetails/");
    u.append(room);
    u
}

/// What the conference backend answered to a request for a room's details.
#[derive(Debug)]
pub enum RoomDetailsReply {
    /// The room's details, with its high-quality-audio setting when the
    /// backend gives one.
    Details { hq_audio: Option<bool> },
    /// Errors the backend reported, each with its details and status.
    ApiErrors { errors: Vec<(String, u32)> },
    /// A reply that is neither.
    Unreadable,
}

/// Why the stereo setting could not be had from the backend.
#[derive(PartialEq, Eq, Structural, Clone, Copy, Debug)]
pub enum BackendError {
    /// The backend reported errors (as for a room that does not exist).
    RoomDetailsUnavailable,
    /// The reply could not be read.
    UnreadableReply,
}

impl BackendError {
    /// The text shown to a user for the error.
    pub fn to_string(&self) -> (s: String)
        ensures
            *self == BackendError::RoomDetailsUnavailable ==> s@ == "Failed to get room details from backend"@,
            *self == BackendError::UnreadableReply ==> s@ == "Failed to parse response from backend"@,
    {
        match self {
            BackendError::RoomDetailsUnavailable => String::from_str("Failed to get room details from backend"),
            BackendError::UnreadableReply => String::from_str("Failed to parse response from backend"),
        }
    }
}

/// The stereo setting a room's details give: its high-quality-audio flag,
/// off when the backend does not say; an error for any other reply.
pub fn stereo_from_reply(reply: &RoomDetailsReply) -> (r: Result<bool, BackendError>)
    ensures
        *reply matches RoomDetailsReply::Details { hq_audio } ==> r == Ok::<bool, BackendError>(
            match hq_audio {
                Some(h) => h,
                None => false,
            },
        ),
        *reply matches RoomDetailsReply::ApiErrors { .. } ==> r == Err::<bool, BackendError>(BackendError::RoomDetailsUnavailable),
        *reply matches RoomDetailsReply::Unreadable ==> r == Err::<bool, BackendError>(BackendError::UnreadableReply),
{
    match reply {
        RoomDetailsReply::Details { hq_audio } => match hq_audio {
            Some(h) => Ok(*h),
            None => Ok(false),
        },
        RoomDetailsReply::ApiErrors { .. } => Err(BackendError::RoomDetailsUnavailable),
        RoomDetailsReply::Unreadable => Err(BackendError::UnreadableReply),
    }
}

/// The data of the message announcing a sender to the notification
/// service.
#[derive(Debug)]
pub struct InitData {
    pub mic: bool,
    pub camera: bool,
    pub room: String,
    pub display_name: String,
    pub endpoint_id: String,
    pub token: String,
}

/// The message announcing a sender to the notification service.
#[derive(Debug)]
pub struct InitMessage {
    pub message_type: String,
    pub data: InitData,
}

/// The announcement of a camera-only sender named "Alek1" in `room`, with
/// its endpoint id and access token.
pub fn init_message(room: String, endpoint_id: String, token: String) -> (m: InitMessage)
    ensures
        m.message_type@ == "init"@,
        !m.data.mic,
        m.data.camera,
        m.data.room == room,
        m.data.display_name@ == "Alek1"@,
        m.data.endpoint_id == endpoint_id,
        m.data.token == token,
{
    InitMessage {
        message_type: String::from_str("init"),
        data: InitData {
            mic: false,
            camera: true,
            room,
            display_name: String::from_str("Alek1"),
            endpoint_id,
            token,
        },
    }
}

/// Something that happened on the connection to the notification service.
#[derive(PartialEq, Eq, Structural, Clone, Copy, Debug)]
pub enum NotifyEvent {
    /// The once-a-second timer fired.
    Tick,
    /// Sending the announcement failed.
    SendFailed,
    /// The server closed the connection.
    Closed,
    /// Some other message arrived.
    Message,
    /// Reading from the connection failed.
    ReadFailed,
    /// The connection's stream of messages ended.
    Ended,
}

/// What to do next on the connection to the notification service.
#[derive(PartialEq, Eq, Structural, Clone, Copy, Debug)]
pub enum NotifyAction {
    /// Send the announcement again.
    Announce,
    /// Keep waiting.
    Wait,
    /// Stop and drop the connection.
    Stop,
}

/// The next step on the notification connection: announce again on every
/// tick, ignore ordinary messages, and stop on any failure, on close, or
/// at the end of the stream.
pub fn notify_step(event: NotifyEvent) -> (a: NotifyAction)
    ensures
        event == NotifyEvent::Tick ==> a == NotifyAction::Announce,
        event == NotifyEvent::Message ==> a == NotifyAction::Wait,
        event != NotifyEvent::Tick && event != NotifyEvent::Message ==> a == NotifyAction::Stop,
{
    match event {
        NotifyEvent::Tick => NotifyAction::Announce,
        NotifyEvent::Message => NotifyAction::Wait,
        _ => NotifyAction::Stop,
    }
}

/// The pad-name prefix of the first RTP stream received by the return
/// pipeline's RTP bin.
pub open spec fn first_receive_pad_prefix() -> Seq<char> {
    "recv_rtp_src_0"@
}

/// Whether a pad added to the return pipeline's RTP bin carries the first
/// received RTP stream, which goes through the PLI injector: exactly when
/// its name starts with `recv_rtp_src_0`.
pub fn links_to_pli_injector(pad_name: &str) -> (b: bool)
    ensures
        b == (first_receive_pad_prefix().len() <= pad_name@.len() && pad_name@.subrange(
            0,
            first_receive_pad_prefix().len() as int,
        ) == first_receive_pad_prefix()),
{
    let name = chars_of(pad_name);
    let prefix = chars_of("recv_rtp_src_0");
    if prefix.len() > name.len() {
        return false;
    }
    let mut i: usize = 0;
    while i < prefix.len()
        invariant
            name@ == pad_name@,
            prefix@ == first_receive_pad_prefix(),
            prefix@.len() <= name@.len(),
            i <= prefix@.len(),
            forall|j: int| 0 <= j < i ==> name@[j] == prefix@[j],
        decreases prefix@.len() - i,
    {
        if name[i] != prefix[i] {
            assert(pad_name@.subrange(0, prefix@.len() as int)[i as int] != prefix@[i as int]);
            return false;
        }
        i = i + 1;
    }
    assert(pad_name@.subrange(0, prefix@.len() as int) =~= prefix@);
    true
}

} // verus!
