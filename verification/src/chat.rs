//! Multi-user chat over a relay.
//!
//! Each user publishes a broadcast at `<username>_<session>` with a "messages" track. Users find
//! each other by what the relay announces. Messages are JSON:
//! `{"name": "str", "text": "str", "ts": millis}`.

use crate::address::{parse_url, url_in, AddressError, UrlParts};
use crate::text::{
    hex_padded, hex_value, hex_writes_the_number, joined3, opt_text, put_hex, same, utf8_text,
};
use vstd::arithmetic::power::pow;
use vstd::prelude::*;
use vstd::utf8::{decode_utf8, valid_utf8};

verus! {

/// The track that messages are published on.
pub const MESSAGES_TRACK: &'static str = "messages";

/// How many sessions there can be.
pub const SESSIONS: u32 = 0x100_0000;

/// A chat message received from another user.
#[derive(Debug, Clone)]
pub struct ChatMessage {
    pub name: String,
    pub text: String,
    pub ts: u64,
}

/// The name, text and time of a message.
pub open spec fn message_parts(m: ChatMessage) -> (Seq<char>, Seq<char>, u64) {
    (m.name@, m.text@, m.ts)
}

/// Errors of the serde_json crate.
#[verifier::external_type_specification]
#[verifier::external_body]
pub struct ExJsonError(serde_json::Error);

/// What `serde_json::from_str` finds in a text that is JSON: the strings under two keys and the
/// unsigned number under a third, as far as they are there.
pub uninterp spec fn json_fields(
    text: Seq<char>,
    first: Seq<char>,
    second: Seq<char>,
    third: Seq<char>,
) -> Option<(Option<Seq<char>>, Option<Seq<char>>, Option<u64>)>;

/// The bytes that `serde_json::to_vec` writes for an object with a string under each of two keys
/// and a number under a third.
pub uninterp spec fn json_bytes(
    first: (Seq<char>, Seq<char>),
    second: (Seq<char>, Seq<char>),
    third: (Seq<char>, u64),
) -> Seq<u8>;

/// Reads a text with `serde_json::from_str` and looks up two strings and a number by their keys
/// in the value. What is no object, or has nothing of the kind under a key, has no such field.
#[verifier::external_body]
fn read_json(text: &str, first: &str, second: &str, third: &str) -> (r: Result<
    (Option<String>, Option<String>, Option<u64>),
    serde_json::Error,
>)
    ensures
        match r {
            Ok((a, b, n)) => json_fields(text@, first@, second@, third@) == Some(
                (opt_text(a), opt_text(b), n),
            ),
            Err(_) => json_fields(text@, first@, second@, third@) is None,
        },
{
    let value: serde_json::Value = serde_json::from_str(text)?;
    let a = value[first].as_str().map(|s| s.to_string());
    let b = value[second].as_str().map(|s| s.to_string());
    Ok((a, b, value[third].as_u64()))
}

/// Writes an object with two strings and a number under their keys with `serde_json::to_vec`.
/// Writing such a value to memory does not fail, and what is written is UTF-8. Where the keys
/// differ, reading it gives the fields back.
#[verifier::external_body]
fn write_json(first: (&str, &str), second: (&str, &str), third: (&str, u64)) -> (r: Result<
    Vec<u8>,
    serde_json::Error,
>)
    ensures
        r is Ok,
        r->Ok_0@ == json_bytes((first.0@, first.1@), (second.0@, second.1@), (third.0@, third.1)),
        valid_utf8(r->Ok_0@),
        first.0@ != second.0@ && first.0@ != third.0@ && second.0@ != third.0@ ==> json_fields(
            decode_utf8(r->Ok_0@),
            first.0@,
            second.0@,
            third.0@,
        ) == Some((Some(first.1@), Some(second.1@), Some(third.1))),
{
    let mut map = serde_json::Map::new();
    map.insert(first.0.to_string(), serde_json::Value::from(first.1));
    map.insert(second.0.to_string(), serde_json::Value::from(second.1));
    map.insert(third.0.to_string(), serde_json::Value::from(third.1));
    serde_json::to_vec(&serde_json::Value::Object(map))
}

/// A number below a limit, by chance (`rand::Rng::random_range`). It is only known to be below
/// the limit.
#[verifier::external_body]
fn random_below(limit: u32) -> (r: u32)
    requires
        limit > 0,
    ensures
        r < limit,
{
    rand::Rng::random_range(&mut rand::rng(), 0..limit)
}

/// The name, text and time in the message that bytes hold: fields that are missing are empty.
pub open spec fn message_in(data: Seq<u8>) -> Option<(Seq<char>, Seq<char>, u64)> {
    if !valid_utf8(data) {
        None
    } else {
        match json_fields(decode_utf8(data), "name"@, "text"@, "ts"@) {
            Some(fields) => Some(filled(fields)),
            None => None,
        }
    }
}

/// The fields of a message, empty where they are missing.
pub open spec fn filled(fields: (Option<Seq<char>>, Option<Seq<char>>, Option<u64>)) -> (
    Seq<char>,
    Seq<char>,
    u64,
) {
    (
        match fields.0 {
            Some(name) => name,
            None => ""@,
        },
        match fields.1 {
            Some(text) => text,
            None => ""@,
        },
        match fields.2 {
            Some(ts) => ts,
            None => 0,
        },
    )
}

impl ChatMessage {
    /// A message with the given fields, empty where they are missing.
    pub fn from_fields(name: Option<String>, text: Option<String>, ts: Option<u64>) -> (r: Self)
        ensures
            message_parts(r) == filled((opt_text(name), opt_text(text), ts)),
    {
        ChatMessage {
            name: match name {
                Some(name) => name,
                None => "".to_owned(),
            },
            text: match text {
                Some(text) => text,
                None => "".to_owned(),
            },
            ts: match ts {
                Some(ts) => ts,
                None => 0,
            },
        }
    }

    /// Reads a message. Bytes that are not UTF-8 or not JSON hold none.
    pub fn decode(data: &[u8]) -> (r: Option<Self>)
        ensures
            match r {
                Some(m) => message_in(data@) == Some(message_parts(m)),
                None => message_in(data@) is None,
            },
    {
        match utf8_text(data) {
            Some(text) => match read_json(&text, "name", "text", "ts") {
                Ok((name, body, ts)) => Some(ChatMessage::from_fields(name, body, ts)),
                Err(_) => None,
            },
            None => None,
        }
    }

    /// The bytes of a message. Reading them gives the message back.
    pub fn encode(name: &str, text: &str, ts: u64) -> (r: Vec<u8>)
        ensures
            r@ == json_bytes(("name"@, name@), ("text"@, text@), ("ts"@, ts)),
            message_in(r@) == Some((name@, text@, ts)),
    {
        proof {
            reveal_strlit("name");
            reveal_strlit("text");
            reveal_strlit("ts");
            assert("name"@[0] == 'n' && "text"@[0] == 't');
            assert("name"@.len() == 4 && "text"@.len() == 4 && "ts"@.len() == 2);
        }
        match write_json(("name", name), ("text", text), ("ts", ts)) {
            Ok(bytes) => bytes,
            Err(_) => Vec::new(),
        }
    }
}

/// The path that a user publishes on in a session.
pub open spec fn publish_path(username: Seq<char>, session: int) -> Seq<char> {
    username + "_"@ + hex_padded(session as nat, 6)
}

/// The path that a user publishes on in the session with a given number.
pub fn path_in_session(username: &str, session: u32) -> (r: String)
    requires
        session < SESSIONS,
    ensures
        r@ == publish_path(username@, session as int),
{
    let mut id = String::new();
    put_hex(&mut id, session as u64, 6);
    assert(id@ =~= hex_padded(session as nat, 6));
    joined3(username, "_", &id)
}

/// A path for a new session of a user; the number of the session is random.
pub fn new_session(username: &str) -> (r: String)
    ensures
        exists|session: int|
            0 <= session < SESSIONS && r@ == #[trigger] publish_path(username@, session),
{
    let session: u32 = random_below(SESSIONS);
    path_in_session(username, session)
}

/// The URL of a chat channel.
pub fn channel_url(relay: &str, path: &str) -> (r: Result<UrlParts, AddressError>)
    ensures
        match r {
            Ok(parts) => url_in(relay@ + "/"@ + path@) == Some(parts.model()),
            Err(e) => url_in(relay@ + "/"@ + path@) is None && e == AddressError::NotAUrl,
        },
{
    parse_url(&joined3(relay, "/", path))
}

/// What the discovery of other users is told.
#[derive(Debug)]
pub enum DiscoveryEvent {
    /// A broadcast begins at a path.
    Announced(String),
    /// A broadcast ends.
    Unannounced,
    /// A subscription failed.
    SubscriptionFailed(String),
    /// The relay announces nothing any more.
    Closed,
}

/// What the discovery does.
#[derive(Debug, Clone, Copy, PartialEq, Eq, Structural)]
pub enum DiscoveryStep {
    /// Subscribe to the broadcast.
    Subscribe,
    /// Nothing.
    Wait,
    /// Stop.
    Stop,
}

/// The other users whose messages are being read.
#[derive(Debug)]
pub struct Discovery {
    our_path: String,
    subscribed: Vec<String>,
}

/// The own path, and the paths that are subscribed to.
pub struct Known {
    pub our_path: Seq<char>,
    pub subscribed: Set<Seq<char>>,
}

spec fn members(v: Seq<String>) -> Set<Seq<char>> {
    Set::new(|p: Seq<char>| exists|i: int| 0 <= i < v.len() && (#[trigger] v[i])@ == p)
}

impl View for Discovery {
    type V = Known;

    closed spec fn view(&self) -> Known {
        Known { our_path: self.our_path@, subscribed: members(self.subscribed@) }
    }
}

impl Known {
    /// What is known after an event, and what follows: broadcasts of others that are not yet
    /// subscribed to are; a failed subscription is forgotten, so that it can be tried again.
    pub open spec fn next(self, event: DiscoveryEvent) -> (Known, DiscoveryStep) {
        match event {
            DiscoveryEvent::Announced(path) => if path@ == self.our_path || self.subscribed.contains(
                path@,
            ) {
                (self, DiscoveryStep::Wait)
            } else {
                (
                    Known { subscribed: self.subscribed.insert(path@), ..self },
                    DiscoveryStep::Subscribe,
                )
            },
            DiscoveryEvent::Unannounced => (self, DiscoveryStep::Wait),
            DiscoveryEvent::SubscriptionFailed(path) => (
                Known { subscribed: self.subscribed.remove(path@), ..self },
                DiscoveryStep::Wait,
            ),
            DiscoveryEvent::Closed => (self, DiscoveryStep::Stop),
        }
    }
}

/// After a subscription has failed, the same broadcast is subscribed to again when it is
/// announced anew.
pub proof fn failed_subscription_is_retried(k: Known, failed: String, again: String)
    requires
        failed@ == again@,
        again@ != k.our_path,
    ensures
        k.next(DiscoveryEvent::SubscriptionFailed(failed)).0.next(
            DiscoveryEvent::Announced(again),
        ).1 == DiscoveryStep::Subscribe,
{
}

impl Discovery {
    #[verifier::type_invariant]
    spec fn valid(self) -> bool {
        forall|i: int, j: int|
            0 <= i < j < self.subscribed@.len() ==> self.subscribed@[i]@ != self.subscribed@[j]@
    }

    /// Nobody is known yet.
    pub fn new(our_path: &str) -> (r: Self)
        ensures
            r@ == (Known { our_path: our_path@, subscribed: Set::empty() }),
    {
        let r = Discovery { our_path: our_path.to_owned(), subscribed: Vec::new() };
        assert(members(r.subscribed@) =~= Set::empty());
        r
    }

    fn position(&self, path: &str) -> (r: Option<usize>)
        ensures
            match r {
                Some(i) => i < self.subscribed@.len() && self.subscribed@[i as int]@ == path@,
                None => forall|i: int|
                    0 <= i < self.subscribed@.len() ==> (#[trigger] self.subscribed@[i])@ != path@,
            },
    {
        let mut i: usize = 0;
        while i < self.subscribed.len()
            invariant
                i <= self.subscribed@.len(),
                forall|j: int| 0 <= j < i ==> (#[trigger] self.subscribed@[j])@ != path@,
            decreases self.subscribed@.len() - i,
        {
            if same(&self.subscribed[i], path) {
                return Some(i);
            }
            i = i + 1;
        }
        None
    }

    /// Takes an event and says what follows.
    pub fn step(self, event: DiscoveryEvent) -> (r: (Self, DiscoveryStep))
        ensures
            (r.0@, r.1) == self@.next(event),
    {
        proof {
            use_type_invariant(&self);
        }
        match event {
            DiscoveryEvent::Announced(path) => {
                let found = self.position(&path);
                if let Some(i) = found {
                    assert(self@.subscribed.contains(self.subscribed@[i as int]@));
                    return (self, DiscoveryStep::Wait);
                }
                if same(&path, &self.our_path) {
                    return (self, DiscoveryStep::Wait);
                }
                let ghost before = self.subscribed@;
                let Discovery { our_path, subscribed } = self;
                let mut list = subscribed;
                list.push(path);
                proof {
                    let after = before.push(path);
                    assert(after[before.len() as int]@ == path@);
                    assert forall|p: Seq<char>| members(before).contains(p) implies members(
                        after,
                    ).contains(p) by {
                        let i = choose|i: int| 0 <= i < before.len() && (#[trigger] before[i])@ == p;
                        assert(after[i]@ == p);
                    }
                    assert(members(after) =~= members(before).insert(path@));
                }
                (Discovery { our_path, subscribed: list }, DiscoveryStep::Subscribe)
            },
            DiscoveryEvent::Unannounced => (self, DiscoveryStep::Wait),
            DiscoveryEvent::SubscriptionFailed(path) => {
                match self.position(&path) {
                    Some(i) => {
                        let ghost before = self.subscribed@;
                        let Discovery { our_path, subscribed } = self;
                        let mut list = subscribed;
                        let _gone = list.remove(i);
                        proof {
                            let after = before.remove(i as int);
                            assert(list@ == after);
                            assert forall|p: Seq<char>| members(after).contains(p) == members(
                                before,
                            ).remove(path@).contains(p) by {
                                if members(after).contains(p) {
                                    let j = choose|j: int|
                                        0 <= j < after.len() && (#[trigger] after[j])@ == p;
                                    let k = if j < i {
                                        j
                                    } else {
                                        j + 1
                                    };
                                    assert(before[k]@ == p);
                                }
                                if members(before).contains(p) && p != path@ {
                                    let j = choose|j: int|
                                        0 <= j < before.len() && (#[trigger] before[j])@ == p;
                                    let k = if j < i {
                                        j
                                    } else {
                                        j - 1
                                    };
                                    assert(after[k]@ == p);
                                }
                            }
                            assert(members(after) =~= members(before).remove(path@));
                        }
                        (Discovery { our_path, subscribed: list }, DiscoveryStep::Wait)
                    },
                    None => {
                        assert(self@.subscribed.remove(path@) =~= self@.subscribed);
                        (self, DiscoveryStep::Wait)
                    },
                }
            },
            DiscoveryEvent::Closed => (self, DiscoveryStep::Stop),
        }
    }
}

/// The path of a session is the user's name, an underscore and the session's number in six hexadecimal
/// digits, so that no two sessions of a user publish on the same path.
pub proof fn session_reads_back(username: Seq<char>, session: int)
    requires
        0 <= session < SESSIONS,
    ensures
        ({
            let path = publish_path(username, session);
            &&& path.len() == username.len() + 7
            &&& path.take(username.len() as int) == username
            &&& path[username.len() as int] == '_'
            &&& hex_value(path.skip(username.len() as int + 1)) == Some(session)
        }),
{
    reveal_strlit("_");
    assert(pow(16, 6) == 0x100_0000) by {
        reveal_with_fuel(pow, 7);
    }
    hex_writes_the_number(session as nat, 6);
    let path = publish_path(username, session);
    assert(path.take(username.len() as int) =~= username);
    assert(path.skip(username.len() as int + 1) =~= hex_padded(session as nat, 6));
}

/// A user's own broadcast is not subscribed to, and one that is subscribed to is not again.
pub proof fn broadcast_is_read_once(k: Known, first: String, again: String)
    requires
        first@ == again@,
    ensures
        first@ == k.our_path ==> k.next(DiscoveryEvent::Announced(first)).1 == DiscoveryStep::Wait,
        first@ != k.our_path && !k.subscribed.contains(first@) ==> k.next(
            DiscoveryEvent::Announced(first),
        ).1 == DiscoveryStep::Subscribe,
        k.next(DiscoveryEvent::Announced(first)).0.next(DiscoveryEvent::Announced(again)).1
            == DiscoveryStep::Wait,
{
}

/// Whatever happens, a user keeps the own path and does not come to read the own messages, and what
/// happens to one broadcast leaves the others as they were.
pub proof fn own_messages_are_not_read(k: Known, event: DiscoveryEvent, other: Seq<char>)
    requires
        !k.subscribed.contains(k.our_path),
        match event {
            DiscoveryEvent::Announced(path) => path@ != other,
            DiscoveryEvent::SubscriptionFailed(path) => path@ != other,
            _ => true,
        },
    ensures
        k.next(event).0.our_path == k.our_path,
        !k.next(event).0.subscribed.contains(k.our_path),
        k.next(event).0.subscribed.contains(other) == k.subscribed.contains(other),
        k.next(event).1 == DiscoveryStep::Stop <==> event is Closed,
{
}

} // verus!
