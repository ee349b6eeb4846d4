use vstd::prelude::*;

use crate::query::{PairText, pairs_text, room_query, room_query_pairs};
use http::Error as HttpError;
use serde_urlencoded::de::Error as FormDecodeError;
use serde_urlencoded::ser::Error as FormEncodeError;

verus! {

#[verifier::external_type_specification]
#[verifier::external_body]
pub struct ExInvalidUri(http::uri::InvalidUri);

#[verifier::external_type_specification]
#[verifier::external_body]
pub struct ExHttpError(HttpError);

#[verifier::external_type_specification]
#[verifier::external_body]
pub struct ExFormDecodeError(FormDecodeError);

#[verifier::external_type_specification]
#[verifier::external_body]
pub struct ExFormEncodeError(FormEncodeError);

/// The text of an optional string.
pub open spec fn opt_text(o: Option<String>) -> Option<Seq<char>> {
    match o {
        Some(s) => Some(s@),
        None => None,
    }
}

/// The text of an optional string slice.
pub open spec fn opt_str_text(o: Option<&str>) -> Option<Seq<char>> {
    match o {
        Some(s) => Some(s@),
        None => None,
    }
}

/// The parts of a URI as text: scheme, authority, host, and the path
/// with the query when the URI has a path.
pub type UriText = (
    Option<Seq<char>>,
    Option<Seq<char>>,
    Option<Seq<char>>,
    Option<(Seq<char>, Option<Seq<char>>)>,
);

/// The parts of a parsed URI, as plain text.
#[derive(Debug)]
pub struct UriParts {
    pub scheme: Option<String>,
    pub authority: Option<String>,
    pub host: Option<String>,
    /// The path and, when present, the query (without its `?`).
    pub path_and_query: Option<(String, Option<String>)>,
}

impl View for UriParts {
    type V = UriText;

    open spec fn view(&self) -> UriText {
        (
            opt_text(self.scheme),
            opt_text(self.authority),
            opt_text(self.host),
            match self.path_and_query {
                Some(pq) => Some((pq.0@, opt_text(pq.1))),
                None => None,
            },
        )
    }
}

/// What `http::Uri` parsing makes of a text, split into its parts; `None`
/// when the text is not a valid URI.
pub uninterp spec fn parsed_uri(s: Seq<char>) -> Option<UriText>;

/// The text of the URI that `http::Uri::from_parts` makes of the given
/// parts; `None` when a part is invalid or the parts do not fit together.
pub uninterp spec fn assembled_uri(
    scheme: Option<Seq<char>>,
    authority: Option<Seq<char>>,
    path_and_query: Option<Seq<char>>,
) -> Option<Seq<char>>;

/// The (name, value) pairs that `serde_urlencoded` decodes from a query;
/// `None` when the query cannot be decoded.
pub uninterp spec fn form_decoded(query: Seq<char>) -> Option<Seq<PairText>>;

/// The query that `serde_urlencoded` encodes the pairs into; `None` when
/// encoding fails.
pub uninterp spec fn form_encoded(pairs: Seq<PairText>) -> Option<Seq<char>>;

/// Trusted: wraps `<http::Uri as FromStr>::from_str` and reads the parts
/// of the result (`scheme_str`, `authority`, `host`, and the `path` and
/// `query` of `into_parts().path_and_query`). The outcome depends on the
/// text alone and is named `parsed_uri`; nothing more is stated.
#[verifier::external_body]
fn parse_uri(s: &str) -> (r: Result<UriParts, http::uri::InvalidUri>)
    ensures
        r is Ok == parsed_uri(s@) is Some,
        r matches Ok(p) ==> p@ == parsed_uri(s@)->0,
{
    let uri: http::Uri = s.parse()?;
    let host = uri.host().map(str::to_string);
    let parts = uri.into_parts();
    Ok(UriParts {
        scheme: parts.scheme.map(|x| x.as_str().to_string()),
        authority: parts.authority.map(|a| a.as_str().to_string()),
        host,
        path_and_query: parts.path_and_query.map(|p| (p.path().to_string(), p.query().map(str::to_string))),
    })
}

/// A path with an optional query that `http` keeps as written: it starts
/// with `/` and holds no fragment mark `#`.
pub open spec fn plain_path_and_query(p: Seq<char>) -> bool {
    p.len() > 0 && p[0] == '/' && !p.contains('#')
}

/// Trusted: parses each given part (`Scheme`, `Authority`,
/// `PathAndQuery`), wraps `http::Uri::from_parts` on them, and renders the
/// URI with `Display`. The outcome depends on the parts alone and is named
/// `assembled_uri`. Of a URI with all three parts and a plain path (one
/// that starts with `/` and has no `#`), it states what the source shows:
/// the parsed parts keep their text, and `Display` writes the scheme,
/// `://`, the authority, and the path with its query.
#[verifier::external_body]
fn assemble_uri(scheme: Option<&str>, authority: Option<&str>, path_and_query: Option<&str>) -> (r: Result<String, HttpError>)
    ensures
        r is Ok == assembled_uri(opt_str_text(scheme), opt_str_text(authority), opt_str_text(path_and_query)) is Some,
        r matches Ok(t) ==> t@ == assembled_uri(opt_str_text(scheme), opt_str_text(authority), opt_str_text(path_and_query))->0,
        r matches Ok(t) ==> match (scheme, authority, path_and_query) {
            (Some(sc), Some(a), Some(p)) => plain_path_and_query(p@) ==> t@ == sc@ + "://"@ + a@ + p@,
            _ => true,
        },
{
    let mut parts = http::uri::Parts::default();
    parts.scheme = scheme.map(str::parse).transpose()?;
    parts.authority = authority.map(str::parse).transpose()?;
    parts.path_and_query = path_and_query.map(str::parse).transpose()?;
    Ok(http::Uri::from_parts(parts)?.to_string())
}

/// Trusted: wraps `serde_urlencoded::from_str` into (name, value) pairs,
/// in the order the query holds them. The outcome depends on the query
/// alone and is named `form_decoded`; nothing more is stated.
#[verifier::external_body]
fn decode_form(query: &str) -> (r: Result<Vec<(String, String)>, FormDecodeError>)
    ensures
        r is Ok == form_decoded(query@) is Some,
        r matches Ok(v) ==> pairs_text(v@) == form_decoded(query@)->0,
{
    serde_urlencoded::from_str::<Vec<(String, String)>>(query)
}

/// Trusted: wraps `serde_urlencoded::to_string` on (name, value) pairs.
/// The outcome depends on the pairs alone and is named `form_encoded`.
/// It states one fact the source shows: names and values are
/// percent-encoded (by `form_urlencoded::byte_serialize`), so the text
/// holds no `#`.
#[verifier::external_body]
fn encode_form(pairs: &Vec<(String, String)>) -> (r: Result<String, FormEncodeError>)
    ensures
        r is Ok == form_encoded(pairs_text(pairs@)) is Some,
        r matches Ok(t) ==> t@ == form_encoded(pairs_text(pairs@))->0,
        r matches Ok(t) ==> !t@.contains('#'),
{
    serde_urlencoded::to_string(pairs)
}

/// Why a URL could not be made. Where an outside parser or encoder
/// failed, the variant holds the text its error displays.
#[derive(Debug)]
pub enum UrlError {
    /// The text is not a valid URI.
    InvalidUri(String),
    /// The conference URL (held here) has no authority part.
    MissingAuthority(String),
    /// The query could not be decoded.
    InvalidQuery(String),
    /// The new query could not be encoded.
    QueryEncoding(String),
    /// The parts do not make a valid URI.
    InvalidParts(String),
}

/// Trusted: the text that `http::uri::InvalidUri` displays (its
/// `to_string`). Nothing is stated of the text.
#[verifier::external_body]
fn invalid_uri_text(e: &http::uri::InvalidUri) -> String {
    e.to_string()
}

/// Trusted: the text that `http::Error` displays (its `to_string`).
/// Nothing is stated of the text.
#[verifier::external_body]
fn http_error_text(e: &HttpError) -> String {
    e.to_string()
}

/// Trusted: the text that a `serde_urlencoded` decoding error displays
/// (its `to_string`). Nothing is stated of the text.
#[verifier::external_body]
fn decode_error_text(e: &FormDecodeError) -> String {
    e.to_string()
}

/// Trusted: the text that a `serde_urlencoded` encoding error displays
/// (its `to_string`). Nothing is stated of the text.
#[verifier::external_body]
fn encode_error_text(e: &FormEncodeError) -> String {
    e.to_string()
}

/// The message shown for a conference URL without an authority part.
pub open spec fn missing_authority_message(url: Seq<char>) -> Seq<char> {
    "Invalid conference url: "@ + url + ": Should be in format https://conference.tellyo.com"@
}

impl UrlError {
    /// The text shown to a user for the error: the fixed message for a
    /// missing authority, else the text of the outside error.
    pub fn to_string(&self) -> (s: String)
        ensures
            self matches UrlError::MissingAuthority(url) ==> s@ == missing_authority_message(url@),
            self matches UrlError::InvalidUri(m) ==> s@ == m@,
            self matches UrlError::InvalidQuery(m) ==> s@ == m@,
            self matches UrlError::QueryEncoding(m) ==> s@ == m@,
            self matches UrlError::InvalidParts(m) ==> s@ == m@,
    {
        match self {
            UrlError::MissingAuthority(url) => {
                let mut s = String::from_str("Invalid conference url: ");
                s.append(url.as_str());
                s.append(": Should be in format https://conference.tellyo.com");
                s
            },
            UrlError::InvalidUri(m) => m.clone(),
            UrlError::InvalidQuery(m) => m.clone(),
            UrlError::QueryEncoding(m) => m.clone(),
            UrlError::InvalidParts(m) => m.clone(),
        }
    }
}

/// `r` is the assembled URI text, or the error for invalid parts.
pub open spec fn assembled_outcome(r: Result<String, UrlError>, t: Option<Seq<char>>) -> bool {
    match t {
        Some(x) => r matches Ok(s) && s@ == x,
        None => r matches Err(UrlError::InvalidParts(_)),
    }
}

/// The pairs of an optional query: none when there is no query.
pub open spec fn decoded_query(query: Option<Seq<char>>) -> Option<Seq<PairText>> {
    match query {
        Some(q) => form_decoded(q),
        None => Some(Seq::empty()),
    }
}

/// A path followed by `?` and a query.
pub open spec fn path_query_text(path: Seq<char>, query: Seq<char>) -> Seq<char> {
    path + "?"@ + query
}

/// What `add_room_to_uri` gives for a URI and a room: the URI with its
/// query rewritten so that it names the room, or why that failed.
pub open spec fn room_uri_outcome(r: Result<String, UrlError>, uri: Seq<char>, room: Seq<char>) -> bool {
    match parsed_uri(uri) {
        None => r matches Err(UrlError::InvalidUri(_)),
        Some(p) => match p.3 {
            None => assembled_outcome(r, assembled_uri(p.0, p.1, None)),
            Some(pq) => match decoded_query(pq.1) {
                None => r matches Err(UrlError::InvalidQuery(_)),
                Some(d) => match form_encoded(room_query(d, room)) {
                    None => r matches Err(UrlError::QueryEncoding(_)),
                    Some(enc) => assembled_outcome(r, assembled_uri(p.0, p.1, Some(path_query_text(pq.0, enc)))),
                },
            },
        },
    }
}

/// A path followed by `?` and an encoded query.
pub fn path_with_query(path: &str, query: &str) -> (s: String)
    ensures
        s@ == path_query_text(path@, query@),
{
    let mut s = String::from_str(path);
    s.append("?");
    s.append(query);
    s
}

/// The URI with its query rewritten so that it passes the conference
/// room: the query's pairs, one per name, with `room` added unless the
/// query names a room already. A URI without a path is rendered unchanged.
pub fn add_room_to_uri(uri: &str, room: &str) -> (r: Result<String, UrlError>)
    ensures
        room_uri_outcome(r, uri@, room@),
{
    let parts = match parse_uri(uri) {
        Ok(p) => p,
        Err(e) => return Err(UrlError::InvalidUri(invalid_uri_text(&e))),
    };
    let UriParts { scheme, authority, host: _, path_and_query } = parts;
    let scheme_ref: Option<&str> = match &scheme { Some(s) => Some(s.as_str()), None => None };
    let authority_ref: Option<&str> = match &authority { Some(a) => Some(a.as_str()), None => None };
    match path_and_query {
        None => match assemble_uri(scheme_ref, authority_ref, None) {
            Ok(t) => Ok(t),
            Err(e) => Err(UrlError::InvalidParts(http_error_text(&e))),
        },
        Some((path, query)) => {
            let decoded: Vec<(String, String)> = match query {
                Some(q) => match decode_form(q.as_str()) {
                    Ok(v) => v,
                    Err(e) => return Err(UrlError::InvalidQuery(decode_error_text(&e))),
                },
                None => {
                    let v: Vec<(String, String)> = Vec::new();
                    assert(pairs_text(v@) =~= Seq::<PairText>::empty());
                    v
                },
            };
            let pairs = room_query_pairs(decoded, room);
            let encoded = match encode_form(&pairs) {
                Ok(e) => e,
                Err(e) => return Err(UrlError::QueryEncoding(encode_error_text(&e))),
            };
            let pq = path_with_query(path.as_str(), encoded.as_str());
            match assemble_uri(scheme_ref, authority_ref, Some(pq.as_str())) {
                Ok(t) => Ok(t),
                Err(e) => Err(UrlError::InvalidParts(http_error_text(&e))),
            }
        },
    }
}

/// The WebSocket path of a conference server.
pub open spec fn xmpp_websocket_path() -> Seq<char> {
    "/xmpp-websocket"@
}

/// What `guest_websocket_url` gives for a conference URL and a room: the
/// secure WebSocket URL on the conference's authority, at the XMPP
/// WebSocket path, with the room as the only query pair; or why not.
pub open spec fn guest_websocket_outcome(r: Result<String, UrlError>, url: Seq<char>, room: Seq<char>) -> bool {
    match parsed_uri(url) {
        None => r matches Err(UrlError::InvalidUri(_)),
        Some(p) => match p.1 {
            None => r matches Err(UrlError::MissingAuthority(u)) && u@ == url,
            Some(authority) => match assembled_uri(Some("wss"@), Some(authority), Some(xmpp_websocket_path())) {
                None => r matches Err(UrlError::InvalidParts(_)),
                Some(_) => match form_encoded(room_query(Seq::empty(), room)) {
                    None => r matches Err(UrlError::QueryEncoding(_)),
                    Some(enc) => assembled_outcome(
                        r,
                        assembled_uri(Some("wss"@), Some(authority), Some(path_query_text(xmpp_websocket_path(), enc))),
                    ),
                },
            },
        },
    }
}

/// The text of a guest's WebSocket URL, when the conference URL has an
/// authority and the room query can be encoded: `wss://`, the authority,
/// the XMPP WebSocket path, `?`, and the encoded room query.
pub open spec fn guest_websocket_text(url: Seq<char>, room: Seq<char>) -> Option<Seq<char>> {
    match parsed_uri(url) {
        Some(p) => match p.1 {
            Some(authority) => match form_encoded(room_query(Seq::empty(), room)) {
                Some(enc) => Some("wss"@ + "://"@ + authority + path_query_text(xmpp_websocket_path(), enc)),
                None => None,
            },
            None => None,
        },
        None => None,
    }
}

/// Whatever the scheme of the conference URL, `http` included, a guest's
/// WebSocket URL is a secure one on the conference's authority: `wss://`,
/// the authority, the path `/xmpp-websocket`, `?`, and the encoded query
/// that names the room.
pub proof fn law_guest_websocket_secure(url: Seq<char>, room: Seq<char>)
    requires
        guest_websocket_text(url, room) is Some,
    ensures
        parsed_uri(url) matches Some(p) && p.1 matches Some(a) && form_encoded(room_query(Seq::empty(), room)) matches Some(
            q,
        ) && guest_websocket_text(url, room)->0 == "wss://"@ + a + "/xmpp-websocket?"@ + q,
{
    reveal_strlit("wss");
    reveal_strlit("://");
    reveal_strlit("wss://");
    reveal_strlit("/xmpp-websocket");
    reveal_strlit("?");
    reveal_strlit("/xmpp-websocket?");
    let p = parsed_uri(url)->0;
    let a = p.1->0;
    let q = form_encoded(room_query(Seq::empty(), room))->0;
    assert(guest_websocket_text(url, room)->0 == "wss"@ + "://"@ + a + path_query_text(xmpp_websocket_path(), q));
    assert("wss"@ + "://"@ + a + path_query_text(xmpp_websocket_path(), q) =~= "wss://"@ + a + "/xmpp-websocket?"@ + q);
}

/// A guest's WebSocket URL depends on the conference URL only through its
/// authority: two conference URLs with the same authority, whatever their
/// schemes, give the same WebSocket URL for a room.
pub proof fn law_guest_websocket_scheme_free(url_a: Seq<char>, url_b: Seq<char>, room: Seq<char>)
    requires
        parsed_uri(url_a) is Some,
        parsed_uri(url_b) is Some,
        parsed_uri(url_a).unwrap().1 == parsed_uri(url_b).unwrap().1,
    ensures
        guest_websocket_text(url_a, room) == guest_websocket_text(url_b, room),
{
}

/// The WebSocket URL a guest connects to for conference room `room`, on
/// the server of the conference URL `conference_url`.
pub fn guest_websocket_url(conference_url: &str, room: &str) -> (r: Result<String, UrlError>)
    ensures
        guest_websocket_outcome(r, conference_url@, room@),
        r matches Ok(u) ==> guest_websocket_text(conference_url@, room@) == Some(u@),
{
    let parts = match parse_uri(conference_url) {
        Ok(p) => p,
        Err(e) => return Err(UrlError::InvalidUri(invalid_uri_text(&e))),
    };
    let authority = match parts.authority {
        Some(a) => a,
        None => return Err(UrlError::MissingAuthority(String::from_str(conference_url))),
    };
    match assemble_uri(Some("wss"), Some(authority.as_str()), Some("/xmpp-websocket")) {
        Ok(_) => {},
        Err(e) => return Err(UrlError::InvalidParts(http_error_text(&e))),
    }
    let none: Vec<(String, String)> = Vec::new();
    assert(pairs_text(none@) =~= Seq::<PairText>::empty());
    let pairs = room_query_pairs(none, room);
    let encoded = match encode_form(&pairs) {
        Ok(e) => e,
        Err(e) => return Err(UrlError::QueryEncoding(encode_error_text(&e))),
    };
    let pq = path_with_query("/xmpp-websocket", encoded.as_str());
    proof {
        reveal_strlit("/xmpp-websocket");
        reveal_strlit("?");
        let lit = xmpp_websocket_path();
        assert(pq@ == lit + "?"@ + encoded@);
        assert(pq@[0] == '/');
        assert forall|i: int| 0 <= i < pq@.len() implies pq@[i] != '#' by {
            if i >= lit.len() + 1 {
                assert(pq@[i] == encoded@[i - lit.len() - 1]);
            }
        }
        assert(plain_path_and_query(pq@));
    }
    match assemble_uri(Some("wss"), Some(authority.as_str()), Some(pq.as_str())) {
        Ok(t) => Ok(t),
        Err(e) => Err(UrlError::InvalidParts(http_error_text(&e))),
    }
}

/// The host of a URI: `None` when the text is not a valid URI or has no
/// host.
pub open spec fn uri_host_text(uri: Seq<char>) -> Option<Seq<char>> {
    match parsed_uri(uri) {
        Some(p) => p.2,
        None => None,
    }
}

/// The XMPP domain of a session: the one given, or else the host of the
/// WebSocket URL; `None` when neither is there.
pub fn xmpp_domain(given: Option<String>, web_socket_url: &str) -> (d: Option<String>)
    ensures
        given is Some ==> opt_text(d) == opt_text(given),
        given is None ==> opt_text(d) == uri_host_text(web_socket_url@),
{
    match given {
        Some(g) => Some(g),
        None => match parse_uri(web_socket_url) {
            Ok(p) => p.host,
            Err(_) => None,
        },
    }
}

} // verus!
