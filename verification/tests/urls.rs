use jitsi_guest::query::{collapse_pairs, room_query_pairs};
use jitsi_guest::text::{push_decimal, replace_all, split_on};
use jitsi_guest::uri::{add_room_to_uri, guest_websocket_url, path_with_query, xmpp_domain, UrlError};

fn pairs(v: &[(&str, &str)]) -> Vec<(String, String)> {
    v.iter().map(|(a, b)| (a.to_string(), b.to_string())).collect()
}

#[test]
fn decimal_rendering() {
    let mut s = String::from("n=");
    push_decimal(&mut s, 0);
    assert_eq!(s, "n=0");
    let mut s = String::new();
    push_decimal(&mut s, 1516);
    assert_eq!(s, "1516");
    let mut s = String::new();
    push_decimal(&mut s, u64::MAX);
    assert_eq!(s, u64::MAX.to_string());
}

#[test]
fn replace_every_occurrence() {
    assert_eq!(replace_all("a{x}b{x}", "{x}", "-"), "a-b-");
    assert_eq!(replace_all("aaa", "aa", "b"), "ba");
    assert_eq!(replace_all("no match", "{x}", "y"), "no match");
    assert_eq!(replace_all("same {x}", "{x}", "{x}"), "same {x}");
    assert_eq!(replace_all("", "{x}", "y"), "");
}

#[test]
fn split_keeps_empty_pieces() {
    assert_eq!(split_on("a,b,,c,", ','), vec!["a", "b", "", "c", ""]);
    assert_eq!(split_on("", ','), vec![""]);
    assert_eq!(split_on("one", ','), vec!["one"]);
    let text = ",x,,y";
    assert_eq!(split_on(text, ',').join(","), text);
}

#[test]
fn collapse_keeps_first_position_and_last_value() {
    let out = collapse_pairs(pairs(&[("a", "1"), ("b", "2"), ("a", "3")]));
    assert_eq!(out, pairs(&[("a", "3"), ("b", "2")]));
    assert!(collapse_pairs(vec![]).is_empty());
}

#[test]
fn room_added_only_when_absent() {
    let out = room_query_pairs(pairs(&[("x", "1")]), "conf");
    assert_eq!(out, pairs(&[("x", "1"), ("room", "conf")]));
    let out = room_query_pairs(pairs(&[("room", "old"), ("room", "newer")]), "conf");
    assert_eq!(out, pairs(&[("room", "newer")]));
    assert_eq!(room_query_pairs(vec![], "r"), pairs(&[("room", "r")]));
}

#[test]
fn path_and_query_joined() {
    assert_eq!(path_with_query("/xmpp-websocket", "room=a"), "/xmpp-websocket?room=a");
}

#[test]
fn guest_websocket_on_conference_host() {
    assert_eq!(
        guest_websocket_url("https://conference.tellyo.com", "room1").unwrap(),
        "wss://conference.tellyo.com/xmpp-websocket?room=room1"
    );
    assert_eq!(
        guest_websocket_url("https://conference.tellyo.com:8443/some/path?q=1", "my room").unwrap(),
        "wss://conference.tellyo.com:8443/xmpp-websocket?room=my+room"
    );
}

#[test]
fn guest_websocket_needs_authority() {
    match guest_websocket_url("/only/a/path", "r") {
        Err(UrlError::MissingAuthority(url)) => assert_eq!(url, "/only/a/path"),
        other => panic!("unexpected {:?}", other),
    }
    let e = guest_websocket_url("/only/a/path", "r").unwrap_err();
    assert_eq!(
        e.to_string(),
        "Invalid conference url: /only/a/path: Should be in format https://conference.tellyo.com"
    );
    let empty = guest_websocket_url("", "r").unwrap_err();
    assert!(matches!(empty, UrlError::InvalidUri(_)));
    assert_eq!(empty.to_string(), "empty string");
    let bad = guest_websocket_url("http://bad host/", "r").unwrap_err();
    assert!(matches!(bad, UrlError::InvalidUri(_)));
    assert_eq!(bad.to_string(), "invalid uri character");
}

#[test]
fn room_added_to_websocket_url() {
    assert_eq!(
        add_room_to_uri("wss://meet.example.com/xmpp-websocket", "conf").unwrap(),
        "wss://meet.example.com/xmpp-websocket?room=conf"
    );
    assert_eq!(
        add_room_to_uri("wss://meet.example.com/xmpp-websocket?a=1&room=x&a=2", "conf").unwrap(),
        "wss://meet.example.com/xmpp-websocket?a=2&room=x"
    );
    assert_eq!(
        add_room_to_uri("wss://meet.example.com/ws?token=a%20b", "c").unwrap(),
        "wss://meet.example.com/ws?token=a+b&room=c"
    );
    assert!(matches!(add_room_to_uri("not a uri", "c"), Err(UrlError::InvalidUri(_))));
}

#[test]
fn xmpp_domain_given_or_from_host() {
    assert_eq!(xmpp_domain(Some("given.example".to_string()), "wss://host.example/x"), Some("given.example".to_string()));
    assert_eq!(xmpp_domain(None, "wss://host.example:443/x?room=r"), Some("host.example".to_string()));
    assert_eq!(xmpp_domain(None, "/relative"), None);
    assert_eq!(xmpp_domain(None, "not a uri"), None);
}
