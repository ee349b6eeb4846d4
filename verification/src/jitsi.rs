use vstd::prelude::*;

use crate::error::Error;
use crate::text::{
    decimal, decimal_value, is_canonical_decimal, lemma_decimal_canonical, lemma_decimal_distinct, push_decimal, str_eq,
};

verus! {

/// One guest invitation to a conference room, as the backend lists it.
#[derive(Debug, Clone)]
pub struct Invitation {
    pub link: String,
    pub username: String,
    pub expiration: u64,
    pub conference_name: String,
    pub pretty_conference_name: String,
    pub high_quality_audio: bool,
    pub source_type: String,
    pub video_quality: String,
    pub incoming_video_quality: String,
    pub shortened_id: String,
    pub endpoint_id: String,
    pub recording_disabled: bool,
    pub webcam_enabled: bool,
    pub microphone_enabled: bool,
    pub screen_share_enabled: bool,
    pub restrictions: Vec<String>,
}

/// A conference room of a producer, with its invitations.
#[derive(Debug, Clone)]
pub struct RoomEntry {
    pub pretty_name: String,
    pub is_non_deletable: bool,
    pub is_no_return: bool,
    pub invitations: Vec<Invitation>,
}

impl RoomEntry {
    /// Whether the return feed is enabled for this room: exactly when the
    /// room is not marked "no return". The entry is left as it was.
    pub fn is_return_enabled(&mut self) -> (enabled: bool)
        ensures
            enabled == !old(self).is_no_return,
            *final(self) == *old(self),
    {
        !self.is_no_return
    }
}

/// The rooms of a producer, keyed by room id; no room id occurs twice.
#[derive(Debug)]
pub struct Room {
    invitation_map: Vec<(String, RoomEntry)>,
}

/// No two entries share a room id.
pub open spec fn ids_distinct(entries: Seq<(String, RoomEntry)>) -> bool {
    forall|i: int, j: int|
        0 <= i < entries.len() && 0 <= j < entries.len() && i != j ==> (#[trigger] entries[i]).0@
            != (#[trigger] entries[j]).0@
}

/// Whether some entry has room id `id`.
pub open spec fn has_id(entries: Seq<(String, RoomEntry)>, id: Seq<char>) -> bool {
    exists|i: int| 0 <= i < entries.len() && (#[trigger] entries[i]).0@ == id
}

/// The entries read as a map from room id to room.
pub open spec fn entries_map(entries: Seq<(String, RoomEntry)>) -> Map<Seq<char>, RoomEntry> {
    Map::new(
        |id: Seq<char>| has_id(entries, id),
        |id: Seq<char>|
            entries[choose|i: int| 0 <= i < entries.len() && (#[trigger] entries[i]).0@ == id].1,
    )
}

/// With distinct ids, the map holds each entry under its id.
proof fn lemma_entries_map_at(entries: Seq<(String, RoomEntry)>, i: int)
    requires
        ids_distinct(entries),
        0 <= i < entries.len(),
    ensures
        entries_map(entries).dom().contains(entries[i].0@),
        entries_map(entries)[entries[i].0@] == entries[i].1,
{
    let id = entries[i].0@;
    assert(has_id(entries, id));
    let j = choose|j: int| 0 <= j < entries.len() && (#[trigger] entries[j]).0@ == id;
    assert(j == i);
}

impl View for Room {
    type V = Map<Seq<char>, RoomEntry>;

    closed spec fn view(&self) -> Map<Seq<char>, RoomEntry> {
        entries_map(self.invitation_map@)
    }
}

impl Room {
    #[verifier::type_invariant]
    closed spec fn wf(self) -> bool {
        ids_distinct(self.invitation_map@)
    }

    /// A producer with no rooms.
    pub fn new() -> (r: Room)
        ensures
            r@ == Map::<Seq<char>, RoomEntry>::empty(),
    {
        let r = Room { invitation_map: Vec::new() };
        assert(r@ =~= Map::<Seq<char>, RoomEntry>::empty());
        r
    }

    /// The position of the entry with room id `id`, if there is one.
    fn position(&self, id: &str) -> (p: Option<usize>)
        ensures
            match p {
                Some(i) => i < self.invitation_map@.len() && self.invitation_map@[i as int].0@ == id@,
                None => !has_id(self.invitation_map@, id@),
            },
    {
        let mut i: usize = 0;
        while i < self.invitation_map.len()
            invariant
                i <= self.invitation_map@.len(),
                forall|j: int| 0 <= j < i ==> (#[trigger] self.invitation_map@[j]).0@ != id@,
            decreases self.invitation_map@.len() - i,
        {
            if str_eq(self.invitation_map[i].0.as_str(), id) {
                return Some(i);
            }
            i = i + 1;
        }
        None
    }

    /// The room with id `id`, if the producer has one.
    pub fn get(&self, id: &str) -> (r: Option<&RoomEntry>)
        ensures
            match r {
                Some(e) => self@.dom().contains(id@) && *e == self@[id@],
                None => !self@.dom().contains(id@),
            },
    {
        proof { use_type_invariant(self); }
        match self.position(id) {
            Some(i) => {
                proof { lemma_entries_map_at(self.invitation_map@, i as int); }
                Some(&self.invitation_map[i].1)
            },
            None => None,
        }
    }

    /// Stores `entry` under `id`, replacing and returning the room stored
    /// there before, if any.
    pub fn insert(&mut self, id: String, entry: RoomEntry) -> (prev: Option<RoomEntry>)
        ensures
            final(self)@ == old(self)@.insert(id@, entry),
            match prev {
                Some(e) => old(self)@.dom().contains(id@) && e == old(self)@[id@],
                None => !old(self)@.dom().contains(id@),
            },
    {
        proof { use_type_invariant(&*self); }
        let ghost old_entries = self.invitation_map@;
        let ghost key = id@;
        let pos = self.position(id.as_str());
        let mut entries: Vec<(String, RoomEntry)> = Vec::new();
        std::mem::swap(&mut entries, &mut self.invitation_map);
        match pos {
            Some(i) => {
                proof { lemma_entries_map_at(old_entries, i as int); }
                let (old_id, old_entry) = entries.remove(i);
                entries.insert(i, (old_id, entry));
                let ghost new_entries = entries@;
                assert(new_entries =~= old_entries.update(i as int, (old_entries[i as int].0, entry)));
                assert(ids_distinct(new_entries));
                proof {
                    assert forall|k: Seq<char>| #![auto] entries_map(new_entries).dom().contains(k)
                        == entries_map(old_entries).insert(key, entry).dom().contains(k) by {
                        if has_id(old_entries, k) {
                            let j = choose|j: int| 0 <= j < old_entries.len() && (#[trigger] old_entries[j]).0@ == k;
                            assert(new_entries[j].0@ == k);
                        }
                        if has_id(new_entries, k) {
                            let j = choose|j: int| 0 <= j < new_entries.len() && (#[trigger] new_entries[j]).0@ == k;
                            assert(old_entries[j].0@ == k);
                        }
                    }
                    assert forall|k: Seq<char>| #![auto] entries_map(new_entries).dom().contains(k)
                        implies entries_map(new_entries)[k] == entries_map(old_entries).insert(key, entry)[k] by {
                        let j = choose|j: int| 0 <= j < new_entries.len() && (#[trigger] new_entries[j]).0@ == k;
                        lemma_entries_map_at(new_entries, j);
                        if j != i {
                            lemma_entries_map_at(old_entries, j);
                        }
                    }
                    assert(entries_map(new_entries) =~= entries_map(old_entries).insert(key, entry));
                }
                self.invitation_map = entries;
                Some(old_entry)
            },
            None => {
                entries.push((id, entry));
                let ghost new_entries = entries@;
                assert(new_entries =~= old_entries.push((new_entries.last().0, entry)));
                assert(ids_distinct(new_entries));
                proof {
                    assert forall|k: Seq<char>| #![auto] entries_map(new_entries).dom().contains(k)
                        == entries_map(old_entries).insert(key, entry).dom().contains(k) by {
                        if has_id(old_entries, k) {
                            let j = choose|j: int| 0 <= j < old_entries.len() && (#[trigger] old_entries[j]).0@ == k;
                            assert(new_entries[j].0@ == k);
                        }
                        if k == key {
                            assert(new_entries[old_entries.len() as int].0@ == k);
                        }
                        if has_id(new_entries, k) {
                            let j = choose|j: int| 0 <= j < new_entries.len() && (#[trigger] new_entries[j]).0@ == k;
                            if j < old_entries.len() {
                                assert(old_entries[j].0@ == k);
                            }
                        }
                    }
                    assert forall|k: Seq<char>| #![auto] entries_map(new_entries).dom().contains(k)
                        implies entries_map(new_entries)[k] == entries_map(old_entries).insert(key, entry)[k] by {
                        let j = choose|j: int| 0 <= j < new_entries.len() && (#[trigger] new_entries[j]).0@ == k;
                        lemma_entries_map_at(new_entries, j);
                        if j < old_entries.len() {
                            lemma_entries_map_at(old_entries, j);
                        }
                    }
                    assert(entries_map(new_entries) =~= entries_map(old_entries).insert(key, entry));
                }
                self.invitation_map = entries;
                None
            },
        }
    }
}


impl Room {
    /// Takes the room with id `id` out, if the producer has one.
    pub fn remove(&mut self, id: &str) -> (taken: Option<RoomEntry>)
        ensures
            final(self)@ == old(self)@.remove(id@),
            match taken {
                Some(e) => old(self)@.dom().contains(id@) && e == old(self)@[id@],
                None => !old(self)@.dom().contains(id@),
            },
    {
        proof { use_type_invariant(&*self); }
        let ghost old_entries = self.invitation_map@;
        let ghost key = id@;
        match self.position(id) {
            Some(i) => {
                proof { lemma_entries_map_at(old_entries, i as int); }
                let mut entries: Vec<(String, RoomEntry)> = Vec::new();
                std::mem::swap(&mut entries, &mut self.invitation_map);
                let (_, entry) = entries.remove(i);
                let ghost new_entries = entries@;
                assert(new_entries =~= old_entries.remove(i as int));
                assert(ids_distinct(new_entries)) by {
                    assert forall|a: int, b: int|
                        0 <= a < new_entries.len() && 0 <= b < new_entries.len() && a != b
                        implies (#[trigger] new_entries[a]).0@ != (#[trigger] new_entries[b]).0@ by {
                        let oa = if a < i { a } else { a + 1 };
                        let ob = if b < i { b } else { b + 1 };
                        assert(new_entries[a] == old_entries[oa]);
                        assert(new_entries[b] == old_entries[ob]);
                    }
                }
                proof {
                    assert forall|k: Seq<char>| #![auto] entries_map(new_entries).dom().contains(k)
                        == entries_map(old_entries).remove(key).dom().contains(k) by {
                        if has_id(old_entries, k) && k != key {
                            let j = choose|j: int| 0 <= j < old_entries.len() && (#[trigger] old_entries[j]).0@ == k;
                            let nj = if j < i { j } else { j - 1 };
                            assert(new_entries[nj] == old_entries[j]);
                        }
                        if has_id(new_entries, k) {
                            let j = choose|j: int| 0 <= j < new_entries.len() && (#[trigger] new_entries[j]).0@ == k;
                            let oj = if j < i { j } else { j + 1 };
                            assert(new_entries[j] == old_entries[oj]);
                        }
                    }
                    assert forall|k: Seq<char>| #![auto] entries_map(new_entries).dom().contains(k)
                        implies entries_map(new_entries)[k] == entries_map(old_entries).remove(key)[k] by {
                        let j = choose|j: int| 0 <= j < new_entries.len() && (#[trigger] new_entries[j]).0@ == k;
                        let oj = if j < i { j } else { j + 1 };
                        assert(new_entries[j] == old_entries[oj]);
                        lemma_entries_map_at(new_entries, j);
                        lemma_entries_map_at(old_entries, oj);
                    }
                    assert(entries_map(new_entries) =~= entries_map(old_entries).remove(key));
                }
                self.invitation_map = entries;
                Some(entry)
            },
            None => {
                assert(old_entries =~= self.invitation_map@);
                assert(entries_map(old_entries).remove(key) =~= entries_map(old_entries));
                None
            },
        }
    }

    /// The number of rooms.
    pub fn len(&self) -> (n: usize)
        ensures
            n == self@.dom().len(),
    {
        proof {
            use_type_invariant(self);
            let entries = self.invitation_map@;
            let ids = Seq::new(entries.len(), |i: int| entries[i].0@);
            assert(ids.no_duplicates());
            ids.unique_seq_to_set();
            assert forall|k: Seq<char>| #![auto] ids.to_set().contains(k) == self@.dom().contains(k) by {
                if ids.contains(k) {
                    let j = choose|j: int| 0 <= j < ids.len() && ids[j] == k;
                    assert(entries[j].0@ == k);
                }
                if has_id(entries, k) {
                    let j = choose|j: int| 0 <= j < entries.len() && (#[trigger] entries[j]).0@ == k;
                    assert(ids[j] == k);
                }
            }
            assert(ids.to_set() =~= self@.dom());
        }
        self.invitation_map.len()
    }

    /// The rooms as (room id, room) pairs, in no particular order; no room
    /// id occurs twice.
    pub fn into_entries(self) -> (entries: Vec<(String, RoomEntry)>)
        ensures
            ids_distinct(entries@),
            entries_map(entries@) == self@,
    {
        proof { use_type_invariant(&self); }
        let Room { invitation_map } = self;
        invitation_map
    }
}

/// The reply of the backend to a request for the invited guests of a
/// producer.
#[derive(Debug)]
pub struct ListInvited {
    pub code: u32,
    pub user_message: String,
    pub success: String,
    pub rooms: Room,
}

/// The backend environments a client can talk to, with the URL prefix of
/// the list of invited guests in each.
pub open spec fn list_invited_prefix(lowered_env: Seq<char>) -> Option<Seq<char>> {
    if lowered_env == "dev"@ {
        Some("https://brutus.tellyo.com:8443/tellyo-rtc-web/rest/lsp/jitsi/listInvited/"@)
    } else if lowered_env == "qa"@ {
        Some("https://rtc-elb-qa.tellyo.com/tellyo-rtc-web/rest/lsp/jitsi/listInvited/"@)
    } else {
        None
    }
}

/// The message of the error for an environment other than DEV or QA.
pub open spec fn invalid_env_message() -> Seq<char> {
    "invalid ENV. Possible values: [DEV, QA]"@
}

/// The message of the error for a room id the producer does not have.
pub open spec fn room_not_found_message() -> Seq<char> {
    "room not found"@
}

/// The URL listing the invited guests of producer `lsp_id`, given the
/// environment name already in lower case: the environment's prefix
/// followed by the producer id in decimal.
pub fn list_invited_url(lowered_env: &str, lsp_id: u32) -> (r: Result<String, Error>)
    ensures
        match list_invited_prefix(lowered_env@) {
            Some(prefix) => r matches Ok(url) && url@ == prefix + decimal(lsp_id as nat),
            None => r matches Err(e) && e@ == invalid_env_message(),
        },
{
    let mut url: String;
    if str_eq(lowered_env, "dev") {
        url = String::from_str("https://brutus.tellyo.com:8443/tellyo-rtc-web/rest/lsp/jitsi/listInvited/");
    } else if str_eq(lowered_env, "qa") {
        url = String::from_str("https://rtc-elb-qa.tellyo.com/tellyo-rtc-web/rest/lsp/jitsi/listInvited/");
    } else {
        return Err(Error::new("invalid ENV. Possible values: [DEV, QA]"));
    }
    push_decimal(&mut url, lsp_id as u64);
    Ok(url)
}

/// What `str::to_lowercase` returns for a string: its lowercase
/// equivalent as Unicode defines it.
pub uninterp spec fn lowercase_of(s: Seq<char>) -> Seq<char>;

/// Whether every character of `s` is ASCII.
pub open spec fn is_ascii_text(s: Seq<char>) -> bool {
    forall|i: int| 0 <= i < s.len() ==> (#[trigger] s[i] as u32) < 128
}

/// An ASCII character in lower case: `A` to `Z` become `a` to `z`, every
/// other character stays.
pub open spec fn ascii_lower_char(c: char) -> char {
    if 'A' <= c && c <= 'Z' {
        ((c as u32) + 32) as char
    } else {
        c
    }
}

/// ASCII text in lower case, character by character.
pub open spec fn ascii_lowercase(s: Seq<char>) -> Seq<char> {
    s.map_values(|c: char| ascii_lower_char(c))
}

/// Trusted: wraps `str::to_lowercase`; its result depends on the
/// characters of `s` alone, and is given the name `lowercase_of`. Of ASCII
/// text it states what std documents: each ASCII letter becomes its lower
/// case form and every other ASCII character stays. Nothing is stated of
/// other text.
#[verifier::external_body]
fn to_lowercase(s: &str) -> (r: String)
    ensures
        r@ == lowercase_of(s@),
        is_ascii_text(s@) ==> r@ == ascii_lowercase(s@),
{
    s.to_lowercase()
}

/// A client of the backend of one environment (DEV or QA, in any letter
/// case), acting for one producer.
#[derive(Debug)]
pub struct Jitsi {
    env: String,
    lsp_id: u32,
}

impl Jitsi {
    /// A client for producer `lsp_id` in environment `env`.
    pub fn new(env: String, lsp_id: u32) -> (j: Jitsi)
        ensures
            j.env() == env@,
            j.lsp_id() == lsp_id,
    {
        Jitsi { env, lsp_id }
    }

    /// The environment name the client was made with.
    pub closed spec fn env(&self) -> Seq<char> {
        self.env@
    }

    /// The producer the client acts for.
    pub closed spec fn lsp_id(&self) -> u32 {
        self.lsp_id
    }

    /// The URL listing the invited guests of the producer: an error unless
    /// the environment is DEV or QA in some letter case.
    pub fn get_url_list_invited(&self) -> (r: Result<String, Error>)
        ensures
            match list_invited_prefix(lowercase_of(self.env())) {
                Some(prefix) => r matches Ok(url) && url@ == prefix + decimal(self.lsp_id() as nat),
                None => r matches Err(e) && e@ == invalid_env_message(),
            },
            is_ascii_text(self.env()) ==> lowercase_of(self.env()) == ascii_lowercase(self.env()),
    {
        let lowered = to_lowercase(self.env.as_str());
        list_invited_url(lowered.as_str(), self.lsp_id)
    }

    /// The rooms of the producer: an error, before any request could be
    /// made, unless the environment is DEV or QA in some letter case;
    /// otherwise the rooms of the backend's reply to the list request.
    pub fn get_lsp_guest_details(&mut self, listed: ListInvited) -> (r: Result<Room, Error>)
        ensures
            match list_invited_prefix(lowercase_of(old(self).env())) {
                Some(_) => r matches Ok(rooms) && rooms@ == listed.rooms@,
                None => r matches Err(e) && e@ == invalid_env_message(),
            },
            is_ascii_text(old(self).env()) ==> lowercase_of(old(self).env()) == ascii_lowercase(old(self).env()),
            final(self).env() == old(self).env(),
            final(self).lsp_id() == old(self).lsp_id(),
    {
        match self.get_url_list_invited() {
            Ok(_) => Ok(listed.rooms),
            Err(e) => Err(e),
        }
    }

    /// The room with id `room_id`: an error, before any request could be
    /// made, unless the environment is DEV or QA in some letter case;
    /// otherwise the room from the backend's reply to the list request, or
    /// an error when the producer has no such room.
    pub fn get_room_details(&mut self, listed: ListInvited, room_id: &str) -> (r: Result<RoomEntry, Error>)
        ensures
            match list_invited_prefix(lowercase_of(old(self).env())) {
                Some(_) => {
                    &&& listed.rooms@.dom().contains(room_id@) ==> r == Ok::<RoomEntry, Error>(listed.rooms@[room_id@])
                    &&& !listed.rooms@.dom().contains(room_id@) ==> (r matches Err(e) && e@ == room_not_found_message())
                },
                None => r matches Err(e) && e@ == invalid_env_message(),
            },
            is_ascii_text(old(self).env()) ==> lowercase_of(old(self).env()) == ascii_lowercase(old(self).env()),
            final(self).env() == old(self).env(),
            final(self).lsp_id() == old(self).lsp_id(),
    {
        if let Err(e) = self.get_url_list_invited() {
            return Err(e);
        }
        let mut rooms = listed.rooms;
        match rooms.remove(room_id) {
            Some(entry) => Ok(entry),
            None => Err(Error::new("room not found")),
        }
    }
}

/// In one environment, distinct producers have distinct guest-list URLs.
pub proof fn law_list_invited_urls_distinct(lowered_env: Seq<char>, a: u32, b: u32)
    requires
        list_invited_prefix(lowered_env) is Some,
        a != b,
    ensures
        list_invited_prefix(lowered_env)->0 + decimal(a as nat) != list_invited_prefix(lowered_env)->0
            + decimal(b as nat),
{
    lemma_decimal_distinct(list_invited_prefix(lowered_env)->0, a as nat, b as nat);
}

/// A guest-list URL ends with the producer id as `Display` writes it:
/// after the environment's prefix come decimal digits with no leading zero,
/// and they read back as the producer id.
pub proof fn law_list_invited_url_reads_back(lowered_env: Seq<char>, lsp_id: u32)
    requires
        list_invited_prefix(lowered_env) is Some,
    ensures
        is_canonical_decimal(
            (list_invited_prefix(lowered_env)->0 + decimal(lsp_id as nat)).skip(
                list_invited_prefix(lowered_env)->0.len() as int,
            ),
        ),
        decimal_value(
            (list_invited_prefix(lowered_env)->0 + decimal(lsp_id as nat)).skip(
                list_invited_prefix(lowered_env)->0.len() as int,
            ),
        ) == lsp_id,
{
    let prefix = list_invited_prefix(lowered_env)->0;
    lemma_decimal_canonical(lsp_id as nat);
    assert((prefix + decimal(lsp_id as nat)).skip(prefix.len() as int) =~= decimal(lsp_id as nat));
}

/// Reading a room back after storing it gives the stored room and leaves
/// the other rooms as they were; taking out a room that was newly stored
/// gives back the rooms from before.
pub proof fn law_room_store_then_read(before: Map<Seq<char>, RoomEntry>, id: Seq<char>, entry: RoomEntry)
    ensures
        before.insert(id, entry).dom().contains(id),
        before.insert(id, entry)[id] == entry,
        forall|other: Seq<char>| other != id ==> (#[trigger] before.insert(id, entry).dom().contains(other))
            == before.dom().contains(other),
        forall|other: Seq<char>| other != id && before.dom().contains(other) ==> #[trigger] before.insert(id, entry)[other]
            == before[other],
        !before.dom().contains(id) ==> before.insert(id, entry).remove(id) == before,
{
    if !before.dom().contains(id) {
        assert(before.insert(id, entry).remove(id) =~= before);
    }
}

} // verus!
