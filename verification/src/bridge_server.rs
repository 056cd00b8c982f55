//! Shared bridge server: the rules by which backend data (CAN, serial, simulated) reaches
//! clients and a relay, and by which commands reach the backend.
//!
//! All data flows as byte vectors; the bridge does not look inside. Connections, timers and
//! channels live outside: what happens next is decided here from what happened last.

use crate::endian::put_bytes;
use crate::text::joined3;
use vstd::arithmetic::power2::{lemma_pow2_pos, lemma_pow2_unfold, pow2};
use vstd::prelude::*;

verus! {

/// Configuration for MoQ integration.
#[derive(Debug, Clone)]
pub struct MoqConfig {
    pub relay: String,
    pub path: String,
    pub insecure: bool,
    pub state_subpath: String,
    pub command_subpath: String,
    pub track_name: String,
}

impl MoqConfig {
    /// Where the state of the backend is published.
    pub fn state_path(&self) -> (r: String)
        ensures
            r@ == self.path@ + "/"@ + self.state_subpath@,
    {
        joined3(&self.path, "/", &self.state_subpath)
    }

    /// Where commands for the backend are read.
    pub fn command_path(&self) -> (r: String)
        ensures
            r@ == self.path@ + "/"@ + self.command_subpath@,
    {
        joined3(&self.path, "/", &self.command_subpath)
    }
}

/// How many backend messages go into one network write.
pub const MAX_BATCH: usize = 8;

/// Backend messages that are sent in one network write.
#[derive(Debug)]
pub struct Batch {
    data: Vec<u8>,
    messages: usize,
}

impl Batch {
    /// The bytes collected so far.
    pub closed spec fn bytes(&self) -> Seq<u8> {
        self.data@
    }

    /// How many messages they come from.
    pub closed spec fn count(&self) -> nat {
        self.messages as nat
    }

    #[verifier::type_invariant]
    spec fn valid(self) -> bool {
        1 <= self.messages <= MAX_BATCH
    }

    /// A batch that begins with a message.
    pub fn start(first: &[u8]) -> (r: Self)
        ensures
            r.bytes() == first@,
            r.count() == 1,
    {
        Batch { data: vstd::slice::slice_to_vec(first), messages: 1 }
    }

    /// Whether no further message fits.
    pub fn is_full(&self) -> (r: bool)
        ensures
            r == (self.count() == MAX_BATCH),
    {
        self.messages == MAX_BATCH
    }

    /// The batch with one more message.
    pub fn with(self, message: &[u8]) -> (r: Self)
        requires
            self.count() < MAX_BATCH,
        ensures
            r.bytes() == self.bytes() + message@,
            r.count() == self.count() + 1,
    {
        let mut data = self.data;
        put_bytes(&mut data, message);
        Batch { data, messages: self.messages + 1 }
    }

    /// The bytes to send.
    pub fn into_bytes(self) -> (r: Vec<u8>)
        ensures
            r@ == self.bytes(),
    {
        self.data
    }
}

/// What came of waiting for data from the network.
#[derive(Debug, Clone, Copy, PartialEq, Eq, Structural)]
pub enum NetEvent {
    /// The connection was cancelled, here or by the peer.
    Cancelled,
    /// This many bytes were read.
    Read { count: usize },
    /// The peer closed the stream.
    Closed,
    /// Reading failed.
    Failed,
    /// The backend takes no more data.
    BackendGone,
}

/// What to do next.
#[derive(Debug, Clone, Copy, PartialEq, Eq, Structural)]
pub enum NetStep {
    /// Hand the bytes to the backend.
    Forward,
    /// Wait on.
    Wait,
    /// End the connection in order.
    Finish,
    /// End the connection and report the error.
    Fail,
}

/// Decides on an event of a connection.
pub fn net_step(event: NetEvent) -> (r: NetStep)
    ensures
        r == (match event {
            NetEvent::Read { count } => if count > 0 {
                NetStep::Forward
            } else {
                NetStep::Wait
            },
            NetEvent::Failed => NetStep::Fail,
            _ => NetStep::Finish,
        }),
{
    match event {
        NetEvent::Read { count } => if count > 0 {
            NetStep::Forward
        } else {
            NetStep::Wait
        },
        NetEvent::Failed => NetStep::Fail,
        NetEvent::Cancelled => NetStep::Finish,
        NetEvent::Closed => NetStep::Finish,
        NetEvent::BackendGone => NetStep::Finish,
    }
}

/// Where the receiving end of the backend channel is.
#[derive(Debug, Clone, Copy, PartialEq, Eq, Structural)]
pub enum Receiver {
    /// With the server.
    Home,
    /// With a connection.
    Lent,
    /// Gone with a connection that panicked.
    Lost,
}

/// Which connection a server has. One is active at a time.
#[derive(Debug, Clone, Copy, PartialEq, Eq, Structural)]
pub struct Sessions {
    pub receiver: Receiver,
}

impl Sessions {
    /// No client has connected.
    pub fn new() -> (r: Self)
        ensures
            r.receiver == Receiver::Home,
    {
        Sessions { receiver: Receiver::Home }
    }

    /// Whether the previous connection has to be closed, and its receiver awaited, before a new
    /// client is served.
    pub fn must_close_previous(&self) -> (r: bool)
        ensures
            r == (self.receiver == Receiver::Lent),
    {
        match self.receiver {
            Receiver::Lent => true,
            _ => false,
        }
    }

    /// The previous connection has ended, in order or by a panic.
    pub fn connection_ended(&mut self, in_order: bool)
        requires
            old(self).receiver == Receiver::Lent,
        ensures
            final(self).receiver == (if in_order {
                Receiver::Home
            } else {
                Receiver::Lost
            }),
    {
        self.receiver = if in_order {
            Receiver::Home
        } else {
            Receiver::Lost
        };
    }

    /// A new connection takes the receiver.
    pub fn serve(&mut self)
        requires
            old(self).receiver == Receiver::Home,
        ensures
            final(self).receiver == Receiver::Lent,
    {
        self.receiver = Receiver::Lent;
    }
}

impl Default for Sessions {
    fn default() -> (r: Self)
        ensures
            r.receiver == Receiver::Home,
    {
        Self::new()
    }
}

/// First pause between attempts to connect, in seconds.
pub const FIRST_DELAY_S: u64 = 1;

/// Longest pause between attempts to connect, in seconds.
pub const MAX_DELAY_S: u64 = 30;

/// The pause after `failures` failed attempts and one more: it doubles up to the longest.
pub open spec fn delay_after(failures: nat) -> int
    decreases failures,
{
    if failures == 0 {
        FIRST_DELAY_S as int
    } else {
        let doubled = 2 * delay_after((failures - 1) as nat);
        if doubled <= MAX_DELAY_S {
            doubled
        } else {
            MAX_DELAY_S as int
        }
    }
}

/// Pauses that grow with each failure.
#[derive(Debug, Clone, Copy, PartialEq, Eq, Structural)]
pub struct Backoff {
    /// The pause after the next failure, in seconds.
    pub delay_s: u64,
}

impl Backoff {
    /// Whether this is the pause after `failures` failures.
    pub open spec fn is_after(self, failures: nat) -> bool {
        self.delay_s == delay_after(failures)
    }

    /// No attempt has failed.
    pub fn new() -> (r: Self)
        ensures
            r.is_after(0),
    {
        Backoff { delay_s: FIRST_DELAY_S }
    }

    /// An attempt failed: how long to pause, in seconds.
    pub fn failed(&mut self) -> (r: u64)
        requires
            old(self).delay_s <= MAX_DELAY_S,
        ensures
            r == old(self).delay_s,
            final(self).delay_s <= MAX_DELAY_S,
            forall|n: nat| #[trigger] old(self).is_after(n) ==> final(self).is_after(n + 1),
            final(self).delay_s == (if 2 * old(self).delay_s <= 30 {
                2 * old(self).delay_s
            } else {
                30
            }),
    {
        let pause: u64 = self.delay_s;
        let doubled: u64 = pause * 2;
        self.delay_s = if doubled < MAX_DELAY_S {
            doubled
        } else {
            MAX_DELAY_S
        };
        pause
    }
}

impl Default for Backoff {
    fn default() -> (r: Self)
        ensures
            r.is_after(0),
    {
        Self::new()
    }
}

/// The pause never exceeds the longest, and from the fifth failure on it is the longest.
pub proof fn delay_levels_off(failures: nat)
    ensures
        1 <= delay_after(failures) <= MAX_DELAY_S,
        failures >= 5 ==> delay_after(failures) == MAX_DELAY_S,
    decreases failures,
{
    if failures > 0 {
        delay_levels_off((failures - 1) as nat);
    }
    if failures == 5 {
        reveal_with_fuel(delay_after, 6);
    }
}

/// The pauses are the powers of two, as long as they do not exceed the longest.
pub proof fn delays_are_powers_of_two(failures: nat)
    ensures
        delay_after(failures) == (if pow2(failures) <= 30 {
            pow2(failures) as int
        } else {
            30
        }),
    decreases failures,
{
    delay_levels_off(failures);
    if failures == 0 {
        reveal(pow2);
        reveal(vstd::arithmetic::power::pow);
        assert(pow2(0) == 1);
    } else {
        let before = (failures - 1) as nat;
        delays_are_powers_of_two(before);
        delay_levels_off(before);
        lemma_pow2_unfold(failures);
        lemma_pow2_pos(before);
    }
}

/// Backend data on its way to the relay, collected between two ticks.
#[derive(Debug)]
pub struct StateBatch {
    pub buf: Vec<u8>,
    pub has_data: bool,
}

impl StateBatch {
    /// Nothing collected.
    pub fn new() -> (r: Self)
        ensures
            r.buf@ == Seq::<u8>::empty(),
            !r.has_data,
    {
        StateBatch { buf: Vec::new(), has_data: false }
    }

    /// A backend message arrived.
    pub fn push(&mut self, data: &[u8])
        ensures
            final(self).buf@ == old(self).buf@ + data@,
            final(self).has_data,
    {
        put_bytes(&mut self.buf, data);
        self.has_data = true;
    }

    /// The tick: what to publish, if anything arrived since the last one.
    pub fn tick(&mut self) -> (r: Option<Vec<u8>>)
        ensures
            match r {
                Some(data) => old(self).has_data && data@ == old(self).buf@ && !final(self).has_data
                    && final(self).buf@ == Seq::<u8>::empty(),
                None => !old(self).has_data && final(self).buf@ == old(self).buf@
                    && !final(self).has_data,
            },
    {
        if !self.has_data {
            return None;
        }
        let data = vstd::slice::slice_to_vec(self.buf.as_slice());
        self.buf.clear();
        self.has_data = false;
        Some(data)
    }
}

impl Default for StateBatch {
    fn default() -> (r: Self)
        ensures
            r.buf@ == Seq::<u8>::empty(),
            !r.has_data,
    {
        Self::new()
    }
}

/// What happened to the state publisher.
#[derive(Debug, Clone, Copy, PartialEq, Eq, Structural)]
pub enum PublishEvent {
    /// The relay accepted the connection.
    Connected,
    /// The relay refused, or did not answer in time.
    ConnectFailed,
    /// The session ended.
    SessionClosed,
    /// The backend is gone.
    InputClosed,
}

/// What the state publisher does next.
#[derive(Debug, Clone, Copy, PartialEq, Eq, Structural)]
pub enum PublishStep {
    /// Publish what the backend sends.
    Publish,
    /// Drop what the backend sent meanwhile, pause, connect again.
    Retry { pause_s: u64 },
    /// Drop what the backend sent meanwhile and connect again, with fresh pauses.
    Reconnect,
    /// Stop.
    Stop,
}

/// Decides on an event of the state publisher.
pub fn publish_step(backoff: &mut Backoff, event: PublishEvent) -> (r: PublishStep)
    requires
        old(backoff).delay_s <= MAX_DELAY_S,
    ensures
        final(backoff).delay_s <= MAX_DELAY_S,
        match event {
            PublishEvent::Connected => r == PublishStep::Publish && *final(backoff) == *old(backoff),
            PublishEvent::ConnectFailed => r == (PublishStep::Retry { pause_s: old(backoff).delay_s })
                && final(backoff).delay_s == (if 2 * old(backoff).delay_s <= 30 {
                2 * old(backoff).delay_s
            } else {
                30
            }),
            PublishEvent::SessionClosed => r == PublishStep::Reconnect && final(backoff).delay_s == 1,
            PublishEvent::InputClosed => r == PublishStep::Stop && *final(backoff) == *old(backoff),
        },
{
    match event {
        PublishEvent::Connected => PublishStep::Publish,
        PublishEvent::ConnectFailed => PublishStep::Retry { pause_s: backoff.failed() },
        PublishEvent::SessionClosed => {
            *backoff = Backoff::new();
            PublishStep::Reconnect
        },
        PublishEvent::InputClosed => PublishStep::Stop,
    }
}

/// How far the command subscriber has come.
#[derive(Debug, Clone, Copy, PartialEq, Eq, Structural)]
pub enum Phase {
    /// It connects to the relay.
    Connecting,
    /// It waits for someone to publish commands.
    Awaiting,
    /// It reads commands.
    Reading,
}

/// What happened to the command subscriber.
#[derive(Debug, Clone, Copy, PartialEq, Eq, Structural)]
pub enum CommandEvent {
    /// The relay accepted the connection.
    Connected,
    /// The relay refused, or did not answer within 5 seconds.
    ConnectFailed,
    /// Commands are being published (again).
    Announced,
    /// Commands are no longer published.
    Unannounced,
    /// The relay hands out no more announcements.
    OriginClosed,
    /// Nobody published commands for 10 seconds, or nothing at all happened for 30.
    Idle,
    /// A command arrived.
    Data,
    /// The publisher ended its track.
    TrackEnded,
    /// Reading failed.
    ReadError,
    /// The backend takes no more commands.
    BackendGone,
}

/// What the command subscriber does next.
#[derive(Debug, Clone, Copy, PartialEq, Eq, Structural)]
pub enum CommandStep {
    /// Pause for this many milliseconds, then connect.
    Reconnect { pause_ms: u64 },
    /// Wait for announcements.
    Await,
    /// Subscribe to the broadcast just announced; start the idle timer afresh.
    Subscribe,
    /// Subscribe again to the broadcast at hand.
    Resubscribe,
    /// Offer the command to the backend, which may have no room for it; start the idle timer
    /// afresh.
    Forward,
    /// Wait on.
    Wait,
    /// Stop.
    Stop,
}

/// How many read errors in a row lead to a new subscription.
pub const MAX_RESUBSCRIBE: u32 = 3;

/// The command subscriber.
#[derive(Debug, Clone, Copy, PartialEq, Eq, Structural)]
pub struct CommandSubscriber {
    pub phase: Phase,
    /// Whether the reader is worth waiting for.
    pub reader_alive: bool,
    /// Read errors since the last command.
    pub errors: u32,
}

impl CommandSubscriber {
    pub open spec fn wf(self) -> bool {
        self.errors <= MAX_RESUBSCRIBE
    }

    pub open spec fn connecting() -> CommandSubscriber {
        CommandSubscriber { phase: Phase::Connecting, reader_alive: false, errors: 0 }
    }

    /// The next state, and what to do.
    pub open spec fn next(self, event: CommandEvent) -> (CommandSubscriber, CommandStep) {
        match self.phase {
            Phase::Connecting => match event {
                CommandEvent::Connected => (
                    CommandSubscriber { phase: Phase::Awaiting, ..self },
                    CommandStep::Await,
                ),
                CommandEvent::ConnectFailed => (self, CommandStep::Reconnect { pause_ms: 2000 }),
                _ => (self, CommandStep::Wait),
            },
            Phase::Awaiting => match event {
                CommandEvent::Announced => (
                    CommandSubscriber { phase: Phase::Reading, reader_alive: true, errors: 0 },
                    CommandStep::Subscribe,
                ),
                CommandEvent::OriginClosed | CommandEvent::Idle => (
                    CommandSubscriber::connecting(),
                    CommandStep::Reconnect { pause_ms: 500 },
                ),
                _ => (self, CommandStep::Wait),
            },
            Phase::Reading => match event {
                CommandEvent::Data => (
                    CommandSubscriber { errors: 0, ..self },
                    CommandStep::Forward,
                ),
                CommandEvent::TrackEnded => (
                    CommandSubscriber { reader_alive: false, ..self },
                    CommandStep::Wait,
                ),
                CommandEvent::ReadError => if self.errors < MAX_RESUBSCRIBE {
                    (
                        CommandSubscriber { errors: (self.errors + 1) as u32, ..self },
                        CommandStep::Resubscribe,
                    )
                } else {
                    (
                        CommandSubscriber { reader_alive: false, errors: 0, ..self },
                        CommandStep::Wait,
                    )
                },
                CommandEvent::Announced => (
                    CommandSubscriber { reader_alive: true, ..self },
                    CommandStep::Subscribe,
                ),
                CommandEvent::OriginClosed | CommandEvent::Idle => (
                    CommandSubscriber::connecting(),
                    CommandStep::Reconnect { pause_ms: 500 },
                ),
                CommandEvent::BackendGone => (self, CommandStep::Stop),
                _ => (self, CommandStep::Wait),
            },
        }
    }

    /// A subscriber that is about to connect.
    pub fn new() -> (r: Self)
        ensures
            r == CommandSubscriber::connecting(),
            r.wf(),
    {
        CommandSubscriber { phase: Phase::Connecting, reader_alive: false, errors: 0 }
    }

    /// Decides on an event.
    pub fn step(&mut self, event: CommandEvent) -> (r: CommandStep)
        requires
            old(self).wf(),
        ensures
            (*final(self), r) == old(self).next(event),
            final(self).wf(),
    {
        match self.phase {
            Phase::Connecting => match event {
                CommandEvent::Connected => {
                    self.phase = Phase::Awaiting;
                    CommandStep::Await
                },
                CommandEvent::ConnectFailed => CommandStep::Reconnect { pause_ms: 2000 },
                _ => CommandStep::Wait,
            },
            Phase::Awaiting => match event {
                CommandEvent::Announced => {
                    self.phase = Phase::Reading;
                    self.reader_alive = true;
                    self.errors = 0;
                    CommandStep::Subscribe
                },
                CommandEvent::OriginClosed | CommandEvent::Idle => {
                    *self = Self::new();
                    CommandStep::Reconnect { pause_ms: 500 }
                },
                _ => CommandStep::Wait,
            },
            Phase::Reading => match event {
                CommandEvent::Data => {
                    self.errors = 0;
                    CommandStep::Forward
                },
                CommandEvent::TrackEnded => {
                    self.reader_alive = false;
                    CommandStep::Wait
                },
                CommandEvent::ReadError => if self.errors < MAX_RESUBSCRIBE {
                    self.errors = self.errors + 1;
                    CommandStep::Resubscribe
                } else {
                    self.reader_alive = false;
                    self.errors = 0;
                    CommandStep::Wait
                },
                CommandEvent::Announced => {
                    self.reader_alive = true;
                    CommandStep::Subscribe
                },
                CommandEvent::OriginClosed | CommandEvent::Idle => {
                    *self = Self::new();
                    CommandStep::Reconnect { pause_ms: 500 }
                },
                CommandEvent::BackendGone => CommandStep::Stop,
                _ => CommandStep::Wait,
            },
        }
    }
}

impl Default for CommandSubscriber {
    fn default() -> (r: Self)
        ensures
            r == CommandSubscriber::connecting(),
    {
        Self::new()
    }
}

/// A command makes up for the read errors before it: as many can follow it as at the beginning. A
/// subscriber that has lost the relay, or hears nothing, connects anew.
pub proof fn subscriber_recovers(s: CommandSubscriber, n: nat)
    requires
        s.phase == Phase::Reading,
        n <= 3,
    ensures
        after_errors(s.next(CommandEvent::Data).0, n).reader_alive == s.reader_alive,
        s.next(CommandEvent::Data).1 == CommandStep::Forward,
        s.next(CommandEvent::OriginClosed) == s.next(CommandEvent::Idle),
        s.next(CommandEvent::Idle).0.phase == Phase::Connecting,
        s.next(CommandEvent::Idle).1 is Reconnect,
        s.next(CommandEvent::Idle).0.next(CommandEvent::Connected).1 == CommandStep::Await,
        s.next(CommandEvent::Idle).0.next(CommandEvent::ConnectFailed) == (
            s.next(CommandEvent::Idle).0,
            CommandStep::Reconnect { pause_ms: 2000 },
        ),
{
    reveal_with_fuel(after_errors, 5);
}

/// The state after `n` read errors in a row.
pub open spec fn after_errors(s: CommandSubscriber, n: nat) -> CommandSubscriber
    decreases n,
{
    if n == 0 {
        s
    } else {
        after_errors(s, (n - 1) as nat).next(CommandEvent::ReadError).0
    }
}

/// A reader that fails again and again is given up after three new subscriptions; a new
/// announcement brings it back.
pub proof fn failing_reader_is_given_up(s: CommandSubscriber)
    requires
        s.phase == Phase::Reading,
        s.reader_alive,
        s.errors == 0,
    ensures
        forall|n: nat| n <= 3 ==> (#[trigger] after_errors(s, n)).reader_alive,
        !after_errors(s, 4).reader_alive,
        after_errors(s, 4).next(CommandEvent::Announced).0.reader_alive,
{
    reveal_with_fuel(after_errors, 5);
    assert forall|n: nat| n <= 3 implies (#[trigger] after_errors(s, n)).reader_alive by {
        assert(n == 0 || n == 1 || n == 2 || n == 3);
    }
}

} // verus!
