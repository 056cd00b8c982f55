//! MoQ transport: how to reach a relay, and in what order its tracks and groups are read.

use crate::address::{parse_url, url_in, AddressError, UrlParts};
use crate::text::{joined2, opt_text};
use vstd::prelude::*;
use vstd::string::StringExecFns;

verus! {

/// How long to wait for the announcement of a broadcast, in milliseconds.
pub const ANNOUNCE_TIMEOUT_MS: u64 = 10000;

/// How long a stream waits for its peer before it connects anew, in milliseconds.
pub const SUBSCRIBE_TIMEOUT_MS: u64 = 2000;

/// How long a stream waits between two attempts, in milliseconds.
pub const RETRY_PAUSE_MS: u64 = 500;

/// The track of a stream.
pub const STREAM_TRACK: &'static str = "data";

/// Builder for MoQ connections
#[derive(Debug)]
pub struct MoqBuilder {
    pub relay_url: String,
    pub token: Option<String>,
    pub path: String,
    pub disable_tls_verify: bool,
}

/// How to reach a relay.
pub struct Target {
    pub relay_url: Seq<char>,
    pub token: Option<Seq<char>>,
    pub path: Seq<char>,
    pub disable_tls_verify: bool,
}

impl View for MoqBuilder {
    type V = Target;

    open spec fn view(&self) -> Target {
        Target {
            relay_url: self.relay_url@,
            token: opt_text(self.token),
            path: self.path@,
            disable_tls_verify: self.disable_tls_verify,
        }
    }
}

impl Clone for MoqBuilder {
    fn clone(&self) -> (r: Self)
        ensures
            r@ == self@,
    {
        MoqBuilder {
            relay_url: self.relay_url.as_str().to_owned(),
            token: match &self.token {
                Some(t) => Some(t.as_str().to_owned()),
                None => None,
            },
            path: self.path.as_str().to_owned(),
            disable_tls_verify: self.disable_tls_verify,
        }
    }
}

impl Target {
    /// The address: the relay, the path, and the token where there is one.
    pub open spec fn address(self) -> Seq<char> {
        let base = self.relay_url + "/"@ + self.path;
        match self.token {
            Some(token) => base + "?token="@ + token,
            None => base,
        }
    }
}

impl MoqBuilder {
    /// Create a new builder with default relay (cdn.moq.dev)
    pub fn new() -> (r: Self)
        ensures
            r@ == (Target {
                relay_url: "https://cdn.moq.dev"@,
                token: None,
                path: "anon/xoq"@,
                disable_tls_verify: false,
            }),
    {
        MoqBuilder {
            relay_url: "https://cdn.moq.dev".to_owned(),
            token: None,
            path: "anon/xoq".to_owned(),
            disable_tls_verify: false,
        }
    }

    /// Set the relay URL
    pub fn relay(self, url: &str) -> (r: Self)
        ensures
            r@ == (Target { relay_url: url@, ..self@ }),
    {
        let mut r = self;
        r.relay_url = url.to_owned();
        r
    }

    /// Set the path on the relay
    pub fn path(self, path: &str) -> (r: Self)
        ensures
            r@ == (Target { path: path@, ..self@ }),
    {
        let mut r = self;
        r.path = path.to_owned();
        r
    }

    /// Set authentication token (JWT)
    pub fn token(self, token: &str) -> (r: Self)
        ensures
            r@ == (Target { token: Some(token@), ..self@ }),
    {
        let mut r = self;
        r.token = Some(token.to_owned());
        r
    }

    /// Disable TLS certificate verification (for self-signed certs)
    pub fn disable_tls_verify(self) -> (r: Self)
        ensures
            r@ == (Target { disable_tls_verify: true, ..self@ }),
    {
        let mut r = self;
        r.disable_tls_verify = true;
        r
    }

    /// The address to connect to.
    pub fn address(&self) -> (r: String)
        ensures
            r@ == self@.address(),
    {
        let mut r = self.relay_url.as_str().to_owned();
        r.append("/");
        r.append(&self.path);
        if let Some(token) = &self.token {
            r.append("?token=");
            r.append(token);
        }
        r
    }

    /// The URL to connect to.
    pub fn build_url(&self) -> (r: Result<UrlParts, AddressError>)
        ensures
            match r {
                Ok(parts) => url_in(self@.address()) == Some(parts.model()),
                Err(e) => url_in(self@.address()) is None && e == AddressError::NotAUrl,
            },
    {
        parse_url(&self.address())
    }
}

impl Default for MoqBuilder {
    fn default() -> (r: Self)
        ensures
            r@ == (Target {
                relay_url: "https://cdn.moq.dev"@,
                token: None,
                path: "anon/xoq"@,
                disable_tls_verify: false,
            }),
    {
        Self::new()
    }
}

/// The side of a stream.
#[derive(Debug, Clone, Copy, PartialEq, Eq, Structural)]
pub enum Side {
    Client,
    Server,
}

impl Side {
    /// The side that talks to this one.
    pub open spec fn peer(self) -> Side {
        match self {
            Side::Client => Side::Server,
            Side::Server => Side::Client,
        }
    }

    /// The path that a side publishes on.
    pub open spec fn publishes(self, path: Seq<char>) -> Seq<char> {
        match self {
            Side::Client => path + "/c2s"@,
            Side::Server => path + "/s2c"@,
        }
    }

    /// The path that a side subscribes to.
    pub open spec fn subscribes(self, path: Seq<char>) -> Seq<char> {
        match self {
            Side::Client => path + "/s2c"@,
            Side::Server => path + "/c2s"@,
        }
    }

    /// How to publish and how to subscribe, in this order, for a stream at a relay.
    pub fn builders(self, relay: &str, path: &str, insecure: bool) -> (r: (MoqBuilder, MoqBuilder))
        ensures
            r.0@ == (Target {
                relay_url: relay@,
                token: None,
                path: self.publishes(path@),
                disable_tls_verify: insecure,
            }),
            r.1@ == (Target { path: self.subscribes(path@), ..r.0@ }),
    {
        let mut builder = MoqBuilder::new().relay(relay);
        if insecure {
            builder = builder.disable_tls_verify();
        }
        let (out, back) = match self {
            Side::Client => ("/c2s", "/s2c"),
            Side::Server => ("/s2c", "/c2s"),
        };
        let publisher = builder.clone().path(&joined2(path, out));
        let subscriber = builder.path(&joined2(path, back));
        (publisher, subscriber)
    }
}

/// Each side of a stream subscribes to what the other publishes, and does not hear itself.
pub proof fn sides_meet(side: Side, path: Seq<char>)
    ensures
        side.subscribes(path) == side.peer().publishes(path),
        side.publishes(path) == side.peer().subscribes(path),
        side.publishes(path) != side.subscribes(path),
{
    reveal_strlit("/c2s");
    reveal_strlit("/s2c");
    let a = path + "/c2s"@;
    let b = path + "/s2c"@;
    assert(a[path.len() as int + 1] == 'c');
    assert(b[path.len() as int + 1] == 's');
}

/// What a relay announces.
#[derive(Debug, Clone, Copy, PartialEq, Eq, Structural)]
pub enum Announcement {
    /// A broadcast begins.
    Begins,
    /// A broadcast ends.
    Ends,
    /// There will be no further announcement.
    Closed,
    /// None came in time.
    TimedOut,
}

/// What waiting for a broadcast leads to.
#[derive(Debug, Clone, Copy, PartialEq, Eq, Structural)]
pub enum Awaited {
    /// Subscribe to the track of the broadcast.
    Subscribe,
    /// Wait for the next announcement.
    Wait,
    /// There is no broadcast.
    Absent,
    /// Give up: none came in time.
    Fail,
}

/// Decides on an announcement.
pub fn await_broadcast(announcement: Announcement) -> (r: Awaited)
    ensures
        r == (match announcement {
            Announcement::Begins => Awaited::Subscribe,
            Announcement::Ends => Awaited::Wait,
            Announcement::Closed => Awaited::Absent,
            Announcement::TimedOut => Awaited::Fail,
        }),
{
    match announcement {
        Announcement::Begins => Awaited::Subscribe,
        Announcement::Ends => Awaited::Wait,
        Announcement::Closed => Awaited::Absent,
        Announcement::TimedOut => Awaited::Fail,
    }
}

/// How an attempt to subscribe to the peer of a stream went.
#[derive(Debug, Clone, Copy, PartialEq, Eq, Structural)]
pub enum Attempt {
    /// A connection could not be made.
    NoConnection,
    /// The track is there.
    Subscribed,
    /// There is no broadcast, subscribing failed, or it took too long.
    NotYet,
}

/// What follows an attempt.
#[derive(Debug, Clone, Copy, PartialEq, Eq, Structural)]
pub enum Next {
    Done,
    Fail,
    /// Try again after this many milliseconds.
    RetryAfter(u64),
}

/// Decides what follows an attempt to subscribe: only a failed connection ends the attempts.
pub fn after_attempt(attempt: Attempt) -> (r: Next)
    ensures
        r == (match attempt {
            Attempt::NoConnection => Next::Fail,
            Attempt::Subscribed => Next::Done,
            Attempt::NotYet => Next::RetryAfter(500),
        }),
{
    match attempt {
        Attempt::NoConnection => Next::Fail,
        Attempt::Subscribed => Next::Done,
        Attempt::NotYet => Next::RetryAfter(RETRY_PAUSE_MS),
    }
}

/// What a track reader is told.
#[derive(Debug)]
pub enum TrackEvent {
    /// A frame of the current group.
    Frame(Vec<u8>),
    /// The current group has no further frame.
    GroupEnded,
    /// Reading the current group failed.
    FrameFailed,
    /// The next group has begun.
    GroupBegan,
    /// The track has no further group.
    TrackEnded,
    /// Asking for the next group failed.
    GroupFailed,
}

/// What a track reader asks for, or returns.
#[derive(Debug)]
pub enum TrackStep {
    /// Read a frame of the current group.
    ReadFrame,
    /// Ask for the next group.
    NextGroup,
    /// Return a frame.
    Deliver(Vec<u8>),
    /// Return that the track has ended.
    End,
    /// Return an error.
    Fail,
}

/// Reads a track group by group: all frames of one before those of the next.
#[derive(Debug, Clone, Copy, PartialEq, Eq, Structural)]
pub struct TrackReader {
    /// Whether a group is being read.
    pub in_group: bool,
}

impl TrackReader {
    /// No group is being read yet.
    pub fn new() -> (r: Self)
        ensures
            !r.in_group,
    {
        TrackReader { in_group: false }
    }

    /// What is asked for first when a frame is wanted.
    pub fn begin(&self) -> (r: TrackStep)
        ensures
            r == (if self.in_group {
                TrackStep::ReadFrame
            } else {
                TrackStep::NextGroup
            }),
    {
        if self.in_group {
            TrackStep::ReadFrame
        } else {
            TrackStep::NextGroup
        }
    }

    /// Whether a group is being read after an event, and what follows.
    pub open spec fn next(self, event: TrackEvent) -> (TrackReader, TrackStep) {
        match event {
            TrackEvent::Frame(data) => (self, TrackStep::Deliver(data)),
            TrackEvent::GroupEnded => (TrackReader { in_group: false }, TrackStep::NextGroup),
            TrackEvent::FrameFailed => (self, TrackStep::Fail),
            TrackEvent::GroupBegan => (TrackReader { in_group: true }, TrackStep::ReadFrame),
            TrackEvent::TrackEnded => (self, TrackStep::End),
            TrackEvent::GroupFailed => (self, TrackStep::Fail),
        }
    }

    /// Takes an event and says what follows.
    pub fn step(&mut self, event: TrackEvent) -> (r: TrackStep)
        ensures
            (*final(self), r) == old(self).next(event),
    {
        match event {
            TrackEvent::Frame(data) => TrackStep::Deliver(data),
            TrackEvent::GroupEnded => {
                self.in_group = false;
                TrackStep::NextGroup
            },
            TrackEvent::FrameFailed => TrackStep::Fail,
            TrackEvent::GroupBegan => {
                self.in_group = true;
                TrackStep::ReadFrame
            },
            TrackEvent::TrackEnded => TrackStep::End,
            TrackEvent::GroupFailed => TrackStep::Fail,
        }
    }
}

/// The group that a frame is written to.
#[derive(Debug, Clone, Copy, PartialEq, Eq, Structural)]
pub enum Group {
    /// A new one, for this frame alone.
    Own,
    /// A new one, which later frames of the stream share.
    OpenShared,
    /// The one that earlier frames of the stream are in.
    Shared,
}

/// Chooses the groups of the frames of a track.
#[derive(Debug, Clone, Copy, PartialEq, Eq, Structural)]
pub struct TrackWriter {
    /// Whether the shared group has been opened.
    pub opened: bool,
}

impl TrackWriter {
    /// Nothing has been written yet.
    pub fn new() -> (r: Self)
        ensures
            !r.opened,
    {
        TrackWriter { opened: false }
    }

    /// The group of a frame of which only the latest counts: slow readers may skip it.
    pub fn write(&self) -> (r: Group)
        ensures
            r == Group::Own,
    {
        Group::Own
    }

    /// The group of a frame that must not be skipped.
    pub fn write_stream(&mut self) -> (r: Group)
        ensures
            final(self).opened,
            r == (if old(self).opened {
                Group::Shared
            } else {
                Group::OpenShared
            }),
    {
        if self.opened {
            Group::Shared
        } else {
            self.opened = true;
            Group::OpenShared
        }
    }
}

/// A reader delivers each frame as it came, asks for the next group only when one has ended, and reads
/// a group from its beginning to its end.
pub proof fn groups_are_read_to_their_end(reader: TrackReader, event: TrackEvent)
    ensures
        ({
            let (next, step) = reader.next(event);
            &&& event matches TrackEvent::Frame(data) ==> step == TrackStep::Deliver(data)
            &&& step is Deliver ==> event is Frame
            &&& step is NextGroup <==> event is GroupEnded
            &&& step is ReadFrame <==> event is GroupBegan
            &&& step is End <==> event is TrackEnded
            &&& step is Fail <==> event is FrameFailed || event is GroupFailed
            &&& step is NextGroup ==> !next.in_group
            &&& step is ReadFrame ==> next.in_group
            &&& !(step is NextGroup || step is ReadFrame) ==> next == reader
        }),
{
}

/// The address begins with the relay, and the path follows behind a slash; a token changes nothing of
/// that and stands at the end.
pub proof fn address_is_laid_out(t: Target)
    ensures
        ({
            let n = t.relay_url.len() as int;
            let end = n + 1 + t.path.len();
            let s = t.address();
            &&& s.len() >= end
            &&& s.take(n) == t.relay_url
            &&& s[n] == '/'
            &&& s.subrange(n + 1, end) == t.path
            &&& s.take(end) == (Target { token: None, ..t }).address()
            &&& t.token is None ==> s.len() == end
            &&& t.token is Some ==> s.skip(end) == seq!['?', 't', 'o', 'k', 'e', 'n', '='] + t.token->0
        }),
{
    reveal_strlit("/");
    reveal_strlit("?token=");
    let n = t.relay_url.len() as int;
    let end = n + 1 + t.path.len();
    let s = t.address();
    assert("?token="@ =~= seq!['?', 't', 'o', 'k', 'e', 'n', '=']);
    assert(s.take(n) =~= t.relay_url);
    assert(s.subrange(n + 1, end) =~= t.path);
    assert(s.take(end) =~= t.relay_url + "/"@ + t.path);
    if t.token is Some {
        assert(s.skip(end) =~= "?token="@ + t.token->0);
    }
}

} // verus!
