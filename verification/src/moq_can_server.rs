//! CAN bridge over a relay: who reads what, and when the server tries again.
//!
//! State: CAN frames go to `{path}/state`, track "can", in batches. Commands come from
//! `{path}/commands`, track "can", one operator after another.

use crate::can_server::{bus_health, frame_views, frames_in, remainder, BusHealth, FrameAssembler};
use crate::can_types::{AnyCanFrame, AnyFrame};
use crate::moq::{MoqBuilder, Target};
use crate::text::joined2;
use vstd::prelude::*;

verus! {

/// The track of CAN frames, in both directions.
pub const CAN_TRACK: &'static str = "can";

/// How often the bus is looked at, in milliseconds.
pub const MONITOR_INTERVAL_MS: u64 = 5000;

/// How long to wait for somebody who publishes commands, in milliseconds.
pub const SUBSCRIBE_TIMEOUT_MS: u64 = 5000;

/// Where CAN frames are published.
pub fn state_path(path: &str) -> (r: String)
    ensures
        r@ == path@ + "/state"@,
{
    joined2(path, "/state")
}

/// Where commands are read.
pub fn command_path(path: &str) -> (r: String)
    ensures
        r@ == path@ + "/commands"@,
{
    joined2(path, "/commands")
}

/// How to publish state and how to read commands, in this order, at a relay.
pub fn builders(relay: &str, path: &str, insecure: bool) -> (r: (MoqBuilder, MoqBuilder))
    ensures
        r.0@ == (Target {
            relay_url: relay@,
            token: None,
            path: path@ + "/state"@,
            disable_tls_verify: insecure,
        }),
        r.1@ == (Target { path: path@ + "/commands"@, ..r.0@ }),
{
    let mut builder = MoqBuilder::new().relay(relay);
    if insecure {
        builder = builder.disable_tls_verify();
    }
    let state = builder.clone().path(&state_path(path));
    let commands = builder.path(&command_path(path));
    (state, commands)
}

/// Whether the server may start, or go on, with the bus in a given state: a bus whose state
/// cannot be read is taken to work.
pub fn bus_usable(state: Option<&str>) -> (r: bool)
    ensures
        r == (match state {
            Some(s) => s@ == "ERROR-ACTIVE"@,
            None => true,
        }),
{
    match bus_health(state) {
        BusHealth::Degraded => false,
        _ => true,
    }
}

/// What the server is doing about commands.
#[derive(Debug, Clone, Copy, PartialEq, Eq, Structural)]
pub enum Phase {
    /// Connecting to the relay.
    Connecting,
    /// Waiting for somebody who publishes commands.
    Subscribing,
    /// Reading an operator's commands.
    Reading,
    /// Waiting before the next attempt, for this many milliseconds.
    Pausing(u64),
}

/// What came of it.
#[derive(Debug)]
pub enum OperatorEvent {
    /// The relay was reached.
    Connected,
    /// The relay could not be reached.
    ConnectFailed,
    /// Somebody publishes commands.
    Subscribed,
    /// Nobody publishes commands: the broadcast ended, the subscription failed, or there was
    /// none in time.
    NoPublisher,
    /// Commands, or pieces of them.
    Data(Vec<u8>),
    /// The operator's stream ended or failed.
    StreamEnded,
    /// The pause is over.
    PauseOver,
}

/// The commands of one operator after another.
#[derive(Debug)]
pub struct CommandLink {
    phase: Phase,
    frames: FrameAssembler,
}

/// What the server is doing, and the beginning of a frame that has come in.
pub struct Link {
    pub phase: Phase,
    pub pending: Seq<u8>,
}

impl View for CommandLink {
    type V = Link;

    closed spec fn view(&self) -> Link {
        Link { phase: self.phase, pending: self.frames@ }
    }
}

impl Link {
    /// The state after an event, and the frames for the bus. An event that does not belong to
    /// what the server is doing changes nothing.
    pub open spec fn next(self, event: OperatorEvent) -> (Link, Seq<AnyFrame>) {
        let none = Seq::<AnyFrame>::empty();
        match (self.phase, event) {
            (Phase::Connecting, OperatorEvent::Connected) => (
                Link { phase: Phase::Subscribing, ..self },
                none,
            ),
            (Phase::Connecting, OperatorEvent::ConnectFailed) => (
                Link { phase: Phase::Pausing(2000), ..self },
                none,
            ),
            (Phase::Subscribing, OperatorEvent::Subscribed) => (
                Link { phase: Phase::Reading, pending: Seq::empty() },
                none,
            ),
            (Phase::Subscribing, OperatorEvent::NoPublisher) => (
                Link { phase: Phase::Pausing(2000), ..self },
                none,
            ),
            (Phase::Reading, OperatorEvent::Data(data)) => (
                Link { pending: remainder(self.pending + data@), ..self },
                frames_in(self.pending + data@),
            ),
            (Phase::Reading, OperatorEvent::StreamEnded) => (
                Link { phase: Phase::Pausing(500), ..self },
                none,
            ),
            (Phase::Pausing(_), OperatorEvent::PauseOver) => (
                Link { phase: Phase::Connecting, ..self },
                none,
            ),
            _ => (self, none),
        }
    }
}

impl CommandLink {
    /// The relay has not been reached yet.
    pub fn new() -> (r: Self)
        ensures
            r@ == (Link { phase: Phase::Connecting, pending: Seq::empty() }),
    {
        CommandLink { phase: Phase::Connecting, frames: FrameAssembler::new() }
    }

    /// What the server is doing.
    pub fn phase(&self) -> (r: Phase)
        ensures
            r == self@.phase,
    {
        self.phase
    }

    /// Takes an event and returns the frames for the bus.
    pub fn step(&mut self, event: OperatorEvent) -> (r: Vec<AnyCanFrame>)
        ensures
            (final(self)@, frame_views(r@)) == old(self)@.next(event),
    {
        let none: Vec<AnyCanFrame> = Vec::new();
        assert(frame_views(none@) =~= Seq::<AnyFrame>::empty());
        match self.phase {
            Phase::Connecting => match event {
                OperatorEvent::Connected => self.phase = Phase::Subscribing,
                OperatorEvent::ConnectFailed => self.phase = Phase::Pausing(2000),
                _ => {},
            },
            Phase::Subscribing => match event {
                OperatorEvent::Subscribed => {
                    self.phase = Phase::Reading;
                    self.frames = FrameAssembler::new();
                },
                OperatorEvent::NoPublisher => self.phase = Phase::Pausing(2000),
                _ => {},
            },
            Phase::Reading => match event {
                OperatorEvent::Data(data) => return self.frames.push(&data),
                OperatorEvent::StreamEnded => self.phase = Phase::Pausing(500),
                _ => {},
            },
            Phase::Pausing(_) => match event {
                OperatorEvent::PauseOver => self.phase = Phase::Connecting,
                _ => {},
            },
        }
        none
    }
}

/// What one operator left unfinished does not reach the bus with the commands of the next.
pub proof fn operators_do_not_mix(link: Link, data: Vec<u8>)
    requires
        link.phase == Phase::Subscribing,
    ensures
        link.next(OperatorEvent::Subscribed).0.next(OperatorEvent::Data(data)).1 == frames_in(data@),
{
    assert(Seq::<u8>::empty() + data@ =~= data@);
}

/// Whatever goes wrong, the server connects again: after a failure it pauses, and after the
/// pause it connects.
pub proof fn server_keeps_trying(link: Link, failure: OperatorEvent)
    requires
        match link.phase {
            Phase::Connecting => failure is ConnectFailed,
            Phase::Subscribing => failure is NoPublisher,
            Phase::Reading => failure is StreamEnded,
            Phase::Pausing(_) => false,
        },
    ensures
        link.next(failure).0.phase is Pausing,
        link.next(failure).0.next(OperatorEvent::PauseOver).0.phase == Phase::Connecting,
{
}

} // verus!
