use jitsi_guest::error::Error;
use jitsi_guest::jitsi::{list_invited_url, Invitation, Jitsi, ListInvited, Room, RoomEntry};

fn invitation(username: &str) -> Invitation {
    Invitation {
        link: format!("https://conference-dev.tellyo.com/client?token={}", username),
        username: username.to_string(),
        expiration: 10413788400000,
        conference_name: "main-k4qltpl5e1nw".to_string(),
        pretty_conference_name: "main".to_string(),
        high_quality_audio: false,
        source_type: "WEBCAM".to_string(),
        video_quality: "HIGHEST".to_string(),
        incoming_video_quality: "HIGHEST".to_string(),
        shortened_id: "4epPhgWOqL8".to_string(),
        endpoint_id: "a7e834b4".to_string(),
        recording_disabled: false,
        webcam_enabled: true,
        microphone_enabled: false,
        screen_share_enabled: false,
        restrictions: vec!["ON_AIR".to_string()],
    }
}

fn entry(name: &str, no_return: bool) -> RoomEntry {
    RoomEntry {
        pretty_name: name.to_string(),
        is_non_deletable: false,
        is_no_return: no_return,
        invitations: vec![invitation("Alek"), invitation("Jan")],
    }
}

fn listed(rooms: Vec<(&str, RoomEntry)>) -> ListInvited {
    let mut map = Room::new();
    for (id, e) in rooms {
        map.insert(id.to_string(), e);
    }
    ListInvited { code: 0, user_message: String::new(), success: "ok".to_string(), rooms: map }
}

#[test]
fn error_keeps_its_description() {
    let e = Error::new("room not found");
    assert_eq!(e.description(), "room not found");
    assert_eq!(e.to_string(), "Error obtaining data from backend");
    assert_eq!(Error::new("other").to_string(), "Error obtaining data from backend");
}

#[test]
fn return_enabled_unless_marked_no_return() {
    let mut open = entry("main", false);
    assert!(open.is_return_enabled());
    assert!(!open.is_no_return);
    let mut closed = entry("main", true);
    assert!(!closed.is_return_enabled());
    assert!(closed.is_no_return);
}

#[test]
fn room_map_insert_get_remove() {
    let mut rooms = Room::new();
    assert_eq!(rooms.len(), 0);
    assert!(rooms.insert("a".to_string(), entry("first", false)).is_none());
    assert!(rooms.insert("b".to_string(), entry("second", true)).is_none());
    assert_eq!(rooms.len(), 2);
    let prev = rooms.insert("a".to_string(), entry("third", false)).unwrap();
    assert_eq!(prev.pretty_name, "first");
    assert_eq!(rooms.len(), 2);
    assert_eq!(rooms.get("a").unwrap().pretty_name, "third");
    assert_eq!(rooms.get("b").unwrap().pretty_name, "second");
    assert!(rooms.get("c").is_none());
    let taken = rooms.remove("b").unwrap();
    assert_eq!(taken.pretty_name, "second");
    assert!(rooms.get("b").is_none());
    assert!(rooms.remove("b").is_none());
    assert_eq!(rooms.len(), 1);
    let entries = rooms.into_entries();
    assert_eq!(entries.len(), 1);
    assert_eq!(entries[0].0, "a");
}

#[test]
fn list_url_for_dev_in_any_case() {
    let j = Jitsi::new("DEV".to_string(), 1516);
    assert_eq!(
        j.get_url_list_invited().unwrap(),
        "https://brutus.tellyo.com:8443/tellyo-rtc-web/rest/lsp/jitsi/listInvited/1516"
    );
    let j = Jitsi::new("dEv".to_string(), 7);
    assert_eq!(
        j.get_url_list_invited().unwrap(),
        "https://brutus.tellyo.com:8443/tellyo-rtc-web/rest/lsp/jitsi/listInvited/7"
    );
}

#[test]
fn list_url_for_qa() {
    let j = Jitsi::new("Qa".to_string(), 0);
    assert_eq!(
        j.get_url_list_invited().unwrap(),
        "https://rtc-elb-qa.tellyo.com/tellyo-rtc-web/rest/lsp/jitsi/listInvited/0"
    );
}

#[test]
fn list_url_rejects_other_environments() {
    let j = Jitsi::new("PROD".to_string(), 1516);
    let e = j.get_url_list_invited().unwrap_err();
    assert_eq!(e.description(), "invalid ENV. Possible values: [DEV, QA]");
    assert!(list_invited_url("DEV", 1).is_err());
    assert!(list_invited_url("", 1).is_err());
}

#[test]
fn list_url_renders_producer_in_decimal() {
    assert_eq!(
        list_invited_url("qa", u32::MAX).unwrap(),
        "https://rtc-elb-qa.tellyo.com/tellyo-rtc-web/rest/lsp/jitsi/listInvited/4294967295"
    );
    assert_eq!(
        list_invited_url("dev", 10).unwrap(),
        "https://brutus.tellyo.com:8443/tellyo-rtc-web/rest/lsp/jitsi/listInvited/10"
    );
    assert_ne!(list_invited_url("dev", 1).unwrap(), list_invited_url("dev", 10).unwrap());
}

#[test]
fn room_details_found() {
    let mut j = Jitsi::new("DEV".to_string(), 1516);
    let list = listed(vec![("main-k4qltpl5e1nw", entry("main", false)), ("other", entry("other", true))]);
    let room = j.get_room_details(list, "main-k4qltpl5e1nw").unwrap();
    assert_eq!(room.pretty_name, "main");
    assert_eq!(room.invitations.len(), 2);
    assert_eq!(room.invitations[1].username, "Jan");
}

#[test]
fn room_details_not_found() {
    let mut j = Jitsi::new("DEV".to_string(), 1516);
    let list = listed(vec![("main-k4qltpl5e1nw", entry("main", false))]);
    let e = j.get_room_details(list, "main").unwrap_err();
    assert_eq!(e.description(), "room not found");
    let e = j.get_room_details(listed(vec![]), "main").unwrap_err();
    assert_eq!(e.description(), "room not found");
}

#[test]
fn guest_details_are_the_listed_rooms() {
    let mut j = Jitsi::new("QA".to_string(), 3);
    let list = listed(vec![("r1", entry("one", false)), ("r2", entry("two", false))]);
    let rooms = j.get_lsp_guest_details(list).unwrap();
    assert_eq!(rooms.len(), 2);
    assert_eq!(rooms.get("r2").unwrap().pretty_name, "two");
}

#[test]
fn lookups_fail_on_invalid_environment() {
    let mut j = Jitsi::new("PROD".to_string(), 1516);
    let list = listed(vec![("main", entry("main", false))]);
    let e = j.get_room_details(list, "main").unwrap_err();
    assert_eq!(e.description(), "invalid ENV. Possible values: [DEV, QA]");
    let list = listed(vec![("main", entry("main", false))]);
    let e = j.get_lsp_guest_details(list).unwrap_err();
    assert_eq!(e.description(), "invalid ENV. Possible values: [DEV, QA]");
}
