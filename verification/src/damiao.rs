//! Simulated Damiao motors on a CAN bus: the frames they are sent, and which of them they heed.
//!
//! Positions, velocities and torques travel as raw integers of 16 or 12 bits; what they stand
//! for, in radians and newton metres, is not looked at here.

use crate::cmaf::layout::zeros;
use crate::can_types::wire::{encoded, frame_bytes};
use crate::can_types::{AnyFrame, Frame};
use crate::endian::{be64_at, get_le32, le32, le32_at, le32_round_trip, put_bytes, put_le32, put_zeros};
use vstd::prelude::*;
use vstd::slice::{slice_subrange, slice_to_vec};

verus! {

/// How many motors there are.
pub const MOTORS: usize = 8;

/// Length of a CAN frame on the wire.
pub const WIRE_LEN: usize = 72;

/// The motor with a CAN id: ids 0x01 to 0x08 and 0x11 to 0x18 both stand for the eight motors.
pub open spec fn motor_of(can_id: int) -> Option<int> {
    if 0x01 <= can_id <= 0x08 {
        Some(can_id - 0x01)
    } else if 0x11 <= can_id <= 0x18 {
        Some(can_id - 0x11)
    } else {
        None
    }
}

/// The motor with a CAN id.
pub fn motor_index(can_id: u32) -> (r: Option<usize>)
    ensures
        match r {
            Some(i) => motor_of(can_id as int) == Some(i as int) && i < MOTORS,
            None => motor_of(can_id as int) is None,
        },
{
    if 0x01 <= can_id && can_id <= 0x08 {
        Some((can_id - 0x01) as usize)
    } else if 0x11 <= can_id && can_id <= 0x18 {
        Some((can_id - 0x11) as usize)
    } else {
        None
    }
}

/// The id that a motor answers with, whichever of its ids it was called by.
pub fn response_id(index: usize) -> (r: u32)
    requires
        index < MOTORS,
    ensures
        r == 0x11 + index,
        motor_of(r as int) == Some(index as int),
{
    0x11 + index as u32
}

/// A command: position (16 bits), velocity, stiffness, damping and torque (12 bits each).
#[derive(Debug, Clone, Copy, PartialEq, Eq, Structural)]
pub struct RawCommand {
    pub pos: u16,
    pub vel: u16,
    pub kp: u16,
    pub kd: u16,
    pub tau: u16,
}

impl RawCommand {
    /// The command in the first 8 bytes, most significant bits first.
    pub open spec fn read(s: Seq<u8>) -> RawCommand {
        RawCommand {
            pos: (s[0] * 256 + s[1]) as u16,
            vel: (s[2] * 16 + s[3] / 16) as u16,
            kp: (s[3] % 16 * 256 + s[4]) as u16,
            kd: (s[5] * 16 + s[6] / 16) as u16,
            tau: (s[6] % 16 * 256 + s[7]) as u16,
        }
    }

    /// The bytes of the command.
    pub open spec fn bytes(self) -> Seq<u8> {
        seq![
            (self.pos / 256) as u8,
            (self.pos % 256) as u8,
            (self.vel / 16) as u8,
            (self.vel % 16 * 16 + self.kp / 256) as u8,
            (self.kp % 256) as u8,
            (self.kd / 16) as u8,
            (self.kd % 16 * 16 + self.tau / 256) as u8,
            (self.tau % 256) as u8,
        ]
    }

    /// Whether the fields of 12 bits have no more.
    pub open spec fn fits(self) -> bool {
        self.vel < 4096 && self.kp < 4096 && self.kd < 4096 && self.tau < 4096
    }

    /// Decode a Damiao MIT command (8 bytes).
    pub fn decode(data: &[u8]) -> (r: Self)
        requires
            data@.len() >= 8,
        ensures
            r == RawCommand::read(data@),
            r.fits(),
    {
        RawCommand {
            pos: data[0] as u16 * 256 + data[1] as u16,
            vel: data[2] as u16 * 16 + data[3] as u16 / 16,
            kp: (data[3] as u16 % 16) * 256 + data[4] as u16,
            kd: data[5] as u16 * 16 + data[6] as u16 / 16,
            tau: (data[6] as u16 % 16) * 256 + data[7] as u16,
        }
    }
}

/// Every command that fits is read back from its bytes.
pub proof fn command_reads_back(c: RawCommand)
    requires
        c.fits(),
    ensures
        RawCommand::read(c.bytes()) == c,
{
}

/// The fields of a command follow one another in its 64 bits, the position at the top: 16 bits, then
/// velocity, stiffness, damping and torque in 12 bits each.
pub proof fn command_fields_follow_one_another(c: RawCommand)
    requires
        c.fits(),
    ensures
        c.bytes().len() == 8,
        be64_at(c.bytes(), 0) == (((c.pos * 4096 + c.vel) * 4096 + c.kp) * 4096 + c.kd) * 4096 + c.tau,
{
    let s = c.bytes();
    assert(s[0] * 256 + s[1] == c.pos);
    assert(s[2] * 16 + s[3] / 16 == c.vel);
    assert(s[3] % 16 * 256 + s[4] == c.kp);
    assert(s[5] * 16 + s[6] / 16 == c.kd);
    assert(s[6] % 16 * 256 + s[7] == c.tau);
}

/// A response: a motor's id, its position (16 bits), velocity and torque (12 bits each), and two
/// temperatures.
#[derive(Debug, Clone, Copy, PartialEq, Eq, Structural)]
pub struct RawResponse {
    pub motor_id: u8,
    pub pos: u16,
    pub vel: u16,
    pub tau: u16,
    pub temp_mos: u8,
    pub temp_rotor: u8,
}

impl RawResponse {
    /// The bytes of the response, most significant bits first.
    pub open spec fn bytes(self) -> Seq<u8> {
        seq![
            self.motor_id,
            (self.pos / 256) as u8,
            (self.pos % 256) as u8,
            (self.vel / 16) as u8,
            (self.vel % 16 * 16 + self.tau / 256) as u8,
            (self.tau % 256) as u8,
            self.temp_mos,
            self.temp_rotor,
        ]
    }

    /// The response in the first 8 bytes.
    pub open spec fn read(s: Seq<u8>) -> RawResponse {
        RawResponse {
            motor_id: s[0],
            pos: (s[1] * 256 + s[2]) as u16,
            vel: (s[3] * 16 + s[4] / 16) as u16,
            tau: (s[4] % 16 * 256 + s[5]) as u16,
            temp_mos: s[6],
            temp_rotor: s[7],
        }
    }

    /// Encode a Damiao MIT response frame into 8 bytes.
    pub fn encode(&self) -> (r: [u8; 8])
        requires
            self.vel < 4096,
            self.tau < 4096,
        ensures
            r@ == self.bytes(),
    {
        let r = [
            self.motor_id,
            (self.pos / 256) as u8,
            (self.pos % 256) as u8,
            (self.vel / 16) as u8,
            (self.vel % 16 * 16 + self.tau / 256) as u8,
            (self.tau % 256) as u8,
            self.temp_mos,
            self.temp_rotor,
        ];
        assert(r@ =~= self.bytes());
        r
    }
}

/// Every response that fits is read back from its bytes.
pub proof fn response_reads_back(x: RawResponse)
    requires
        x.vel < 4096,
        x.tau < 4096,
    ensures
        RawResponse::read(x.bytes()) == x,
{
}

/// The fields of a response follow one another in its 64 bits: the id in 8 bits, the position in
/// 16, velocity and torque in 12 each, and two temperatures in 8 each.
pub proof fn response_fields_follow_one_another(x: RawResponse)
    requires
        x.vel < 4096,
        x.tau < 4096,
    ensures
        x.bytes().len() == 8,
        be64_at(x.bytes(), 0) == ((((x.motor_id * 0x1_0000 + x.pos) * 4096 + x.vel) * 4096 + x.tau) * 256
            + x.temp_mos) * 256 + x.temp_rotor,
{
    let s = x.bytes();
    assert(s[1] * 256 + s[2] == x.pos);
    assert(s[3] * 16 + s[4] / 16 == x.vel);
    assert(s[4] % 16 * 256 + s[5] == x.tau);
}

/// A CAN frame on the wire: its id and its length, then 64 bytes that its data begins.
pub open spec fn wire_frame(can_id: u32, data: Seq<u8>) -> Seq<u8> {
    le32(can_id as int) + seq![data.len() as u8, 0u8, 0u8, 0u8] + data + zeros(
        (64 - data.len()) as nat,
    )
}

/// The id and data of the CAN frame that `s` begins with. A length beyond 64 counts as 64.
pub open spec fn read_wire_frame(s: Seq<u8>) -> (u32, Seq<u8>) {
    let len = if s[4] > 64 {
        64
    } else {
        s[4] as int
    };
    (le32_at(s, 0) as u32, s.subrange(8, 8 + len))
}

/// Encode a CAN frame as a 72-byte canfd_frame.
pub fn encode_wire_frame(can_id: u32, data: &[u8]) -> (r: Vec<u8>)
    requires
        data@.len() <= 64,
    ensures
        r@ == wire_frame(can_id, data@),
        r@.len() == WIRE_LEN,
{
    let mut buf: Vec<u8> = Vec::new();
    put_le32(&mut buf, can_id);
    buf.push(data.len() as u8);
    put_zeros(&mut buf, 3);
    assert(buf@ =~= le32(can_id as int) + seq![data@.len() as u8, 0u8, 0u8, 0u8]);
    put_bytes(&mut buf, data);
    put_zeros(&mut buf, 64 - data.len());
    assert(buf@ =~= wire_frame(can_id, data@));
    buf
}

/// Decode one 72-byte canfd_frame: returns (can_id, data, bytes_consumed).
pub fn decode_wire_frame(buf: &[u8]) -> (r: Option<(u32, Vec<u8>, usize)>)
    ensures
        match r {
            Some((can_id, data, consumed)) => buf@.len() >= WIRE_LEN && consumed == WIRE_LEN && (
                can_id,
                data@,
            ) == read_wire_frame(buf@),
            None => buf@.len() < WIRE_LEN,
        },
{
    if buf.len() < WIRE_LEN {
        return None;
    }
    let can_id: u32 = get_le32(buf, 0);
    let len: usize = if buf[4] > 64 {
        64
    } else {
        buf[4] as usize
    };
    let data = slice_to_vec(slice_subrange(buf, 8, 8 + len));
    Some((can_id, data, WIRE_LEN))
}

/// Decoding an encoded CAN frame gives its id and data back, whatever follows it.
pub proof fn wire_frame_reads_back(can_id: u32, data: Seq<u8>, rest: Seq<u8>)
    requires
        data.len() <= 64,
    ensures
        read_wire_frame(wire_frame(can_id, data) + rest) == (can_id, data),
{
    let s = wire_frame(can_id, data) + rest;
    le32_round_trip(can_id as int);
    assert(le32_at(s, 0) == le32_at(le32(can_id as int), 0));
    assert(s[4] == data.len() as u8);
    assert(s.subrange(8, 8 + data.len() as int) =~= data);
}

/// The frames on this wire are those of all CAN servers: data frames without flags.
pub proof fn wire_frame_is_a_can_frame(can_id: u32, data: Seq<u8>)
    requires
        data.len() <= 8,
        can_id <= 0x7FF,
    ensures
        wire_frame(can_id, data) == encoded(
            AnyFrame::Can(
                Frame { id: can_id, data, is_extended: false, is_remote: false, is_error: false },
            ),
        ),
{
    assert(wire_frame(can_id, data) =~= frame_bytes(can_id, 0, data));
}

/// Position, velocity and torque of a motor, as they travel.
#[derive(Debug, Clone, Copy, PartialEq, Eq, Structural)]
pub struct RawState {
    pub pos: u16,
    pub vel: u16,
    pub tau: u16,
}

impl RawState {
    /// Whether the fields of 12 bits have no more.
    pub open spec fn fits(self) -> bool {
        self.vel < 4096 && self.tau < 4096
    }

    /// The frame in which a motor answers with this state. It is 45 degrees warm, and its rotor
    /// 50.
    pub open spec fn answer(self, motor: int) -> Seq<u8> {
        wire_frame(
            (0x11 + motor) as u32,
            (RawResponse {
                motor_id: (0x11 + motor) as u8,
                pos: self.pos,
                vel: self.vel,
                tau: self.tau,
                temp_mos: 45,
                temp_rotor: 50,
            }).bytes(),
        )
    }

    /// Makes the frame in which a motor answers with this state.
    pub fn response_frame(&self, motor: usize) -> (r: Vec<u8>)
        requires
            motor < MOTORS,
            self.fits(),
        ensures
            r@ == self.answer(motor as int),
            r@.len() == WIRE_LEN,
    {
        let id: u32 = response_id(motor);
        let response = RawResponse {
            motor_id: id as u8,
            pos: self.pos,
            vel: self.vel,
            tau: self.tau,
            temp_mos: 45,
            temp_rotor: 50,
        };
        let bytes = response.encode();
        encode_wire_frame(id, bytes.as_slice())
    }
}

/// A motor answers under its own id, with its state.
pub proof fn answer_states_the_motor(state: RawState, motor: int, rest: Seq<u8>)
    requires
        state.fits(),
        0 <= motor < 8,
    ensures
        ({
            let (id, data) = read_wire_frame(state.answer(motor) + rest);
            let x = RawResponse::read(data);
            &&& state.answer(motor).len() == 72
            &&& motor_of(id as int) == Some(motor)
            &&& id == x.motor_id
            &&& data.len() == 8
            &&& x.pos == state.pos
            &&& x.vel == state.vel
            &&& x.tau == state.tau
        }),
{
    let x = RawResponse {
        motor_id: (0x11 + motor) as u8,
        pos: state.pos,
        vel: state.vel,
        tau: state.tau,
        temp_mos: 45,
        temp_rotor: 50,
    };
    wire_frame_reads_back((0x11 + motor) as u32, x.bytes(), rest);
    response_reads_back(x);
}

/// What a motor is told.
#[derive(Debug, Clone, Copy, PartialEq, Eq, Structural)]
pub enum Order {
    Enable,
    Disable,
    Command(RawCommand),
}

/// Whether 8 bytes are 7 times 0xFF and a given last one.
pub open spec fn special(s: Seq<u8>, last: u8) -> bool {
    s == seq![0xFFu8, 0xFF, 0xFF, 0xFF, 0xFF, 0xFF, 0xFF, last]
}

/// The motor that a frame is for, and what it is told, if it is for one and has 8 bytes.
pub open spec fn order_of(can_id: u32, data: Seq<u8>) -> Option<(int, Order)> {
    match motor_of(can_id as int) {
        Some(i) => if data.len() != 8 {
            None
        } else if special(data, 0xFC) {
            Some((i, Order::Enable))
        } else if special(data, 0xFD) {
            Some((i, Order::Disable))
        } else {
            Some((i, Order::Command(RawCommand::read(data))))
        },
        None => None,
    }
}

fn is_special(data: &[u8], last: u8) -> (r: bool)
    requires
        data@.len() == 8,
    ensures
        r == special(data@, last),
{
    let ghost want = seq![0xFFu8, 0xFF, 0xFF, 0xFF, 0xFF, 0xFF, 0xFF, last];
    let r = data[0] == 0xFF && data[1] == 0xFF && data[2] == 0xFF && data[3] == 0xFF && data[4] == 0xFF
        && data[5] == 0xFF && data[6] == 0xFF && data[7] == last;
    assert(r ==> data@ =~= want);
    assert(data@ == want ==> data@[0] == want[0] && data@[1] == want[1] && data@[2] == want[2]
        && data@[3] == want[3] && data@[4] == want[4] && data@[5] == want[5] && data@[6] == want[6]
        && data@[7] == want[7]);
    r
}

/// Reads what a frame tells which motor.
pub fn read_order(can_id: u32, data: &[u8]) -> (r: Option<(usize, Order)>)
    ensures
        match r {
            Some((i, order)) => order_of(can_id, data@) == Some((i as int, order)) && i < MOTORS,
            None => order_of(can_id, data@) is None,
        },
{
    match motor_index(can_id) {
        Some(i) => {
            if data.len() != 8 {
                None
            } else if is_special(data, 0xFC) {
                Some((i, Order::Enable))
            } else if is_special(data, 0xFD) {
                Some((i, Order::Disable))
            } else {
                Some((i, Order::Command(RawCommand::decode(data))))
            }
        },
        None => None,
    }
}

/// How a motor answers.
#[derive(Debug, Clone, Copy, PartialEq, Eq, Structural)]
pub enum Reply {
    /// It does not.
    Silent,
    /// With its position, at rest.
    AtRest { motor: usize },
    /// With its state after it has obeyed a command. It takes over the position only where the
    /// stiffness is not 0.
    Obeyed { motor: usize, command: RawCommand, takes_position: bool },
}

/// Which motors are enabled.
#[derive(Debug)]
pub struct MotorBank {
    enabled: Vec<bool>,
}

impl View for MotorBank {
    type V = Seq<bool>;

    closed spec fn view(&self) -> Seq<bool> {
        self.enabled@
    }
}

/// What the motors are after a frame, and how they answer. A motor that is not enabled does not
/// heed commands.
pub open spec fn obey(enabled: Seq<bool>, can_id: u32, data: Seq<u8>) -> (Seq<bool>, Reply) {
    match order_of(can_id, data) {
        Some((i, Order::Enable)) => (enabled.update(i, true), Reply::AtRest { motor: i as usize }),
        Some((i, Order::Disable)) => (enabled.update(i, false), Reply::AtRest { motor: i as usize }),
        Some((i, Order::Command(command))) => if enabled[i] {
            (
                enabled,
                Reply::Obeyed { motor: i as usize, command, takes_position: command.kp > 0 },
            )
        } else {
            (enabled, Reply::Silent)
        },
        None => (enabled, Reply::Silent),
    }
}

impl MotorBank {
    #[verifier::type_invariant]
    spec fn valid(self) -> bool {
        self.enabled@.len() == MOTORS
    }

    /// No motor is enabled.
    pub fn new() -> (r: Self)
        ensures
            r@ == Seq::new(8, |i: int| false),
    {
        let mut enabled: Vec<bool> = Vec::new();
        let mut i: usize = 0;
        while i < MOTORS
            invariant
                i <= MOTORS,
                enabled@ == Seq::new(i as nat, |j: int| false),
            decreases MOTORS - i,
        {
            enabled.push(false);
            i = i + 1;
            assert(enabled@ =~= Seq::new(i as nat, |j: int| false));
        }
        MotorBank { enabled }
    }

    /// Whether a motor is enabled.
    pub fn is_enabled(&self, motor: usize) -> (r: bool)
        requires
            motor < MOTORS,
        ensures
            r == self@[motor as int],
    {
        proof {
            use_type_invariant(self);
        }
        self.enabled[motor]
    }

    /// Whether any motor is enabled.
    pub fn any_enabled(&self) -> (r: bool)
        ensures
            r == exists|i: int| 0 <= i < MOTORS && self@[i],
    {
        proof {
            use_type_invariant(self);
        }
        let mut i: usize = 0;
        while i < MOTORS
            invariant
                self.enabled@.len() == MOTORS,
                i <= MOTORS,
                forall|j: int| 0 <= j < i ==> !self.enabled@[j],
            decreases MOTORS - i,
        {
            if self.enabled[i] {
                assert(self@[i as int]);
                return true;
            }
            i = i + 1;
        }
        false
    }

    /// Takes in a frame from the bus.
    pub fn process(&mut self, can_id: u32, data: &[u8]) -> (r: Reply)
        ensures
            (final(self)@, r) == obey(old(self)@, can_id, data@),
    {
        proof {
            use_type_invariant(&*self);
        }
        match read_order(can_id, data) {
            Some((motor, order)) => {
                let mut enabled = slice_to_vec(self.enabled.as_slice());
                assert(enabled@ =~= self.enabled@);
                match order {
                    Order::Enable => {
                        enabled.set(motor, true);
                        *self = MotorBank { enabled };
                        Reply::AtRest { motor }
                    },
                    Order::Disable => {
                        enabled.set(motor, false);
                        *self = MotorBank { enabled };
                        Reply::AtRest { motor }
                    },
                    Order::Command(command) => {
                        if enabled[motor] {
                            Reply::Obeyed { motor, command, takes_position: command.kp > 0 }
                        } else {
                            Reply::Silent
                        }
                    },
                }
            },
            None => Reply::Silent,
        }
    }
}

/// The answers of the enabled ones among the first `n` motors, one after another.
pub open spec fn answers(enabled: Seq<bool>, states: Seq<RawState>, n: int) -> Seq<u8>
    decreases n,
{
    if n <= 0 {
        Seq::empty()
    } else if enabled[n - 1] {
        answers(enabled, states, n - 1) + states[n - 1].answer(n - 1)
    } else {
        answers(enabled, states, n - 1)
    }
}

/// Those who watch read one frame of each enabled motor, in the order of the motors.
pub proof fn watchers_read_the_enabled_motors(
    enabled: Seq<bool>,
    states: Seq<RawState>,
    n: int,
    rest: Seq<u8>,
)
    requires
        0 <= n <= enabled.len(),
        n <= states.len(),
        n <= 8,
        forall|i: int| 0 <= i < states.len() ==> (#[trigger] states[i]).fits(),
    ensures
        frames_in(answers(enabled, states, n) + rest) == Seq::new(n as nat, |i: int| i).filter(
            |i: int| enabled[i],
        ).map_values(|i: int| read_wire_frame(states[i].answer(i))) + frames_in(rest),
    decreases n,
{
    let on = |i: int| enabled[i];
    let read = |i: int| read_wire_frame(states[i].answer(i));
    let all = Seq::new(n as nat, |i: int| i);
    reveal(Seq::filter);
    if n <= 0 {
        assert(all.filter(on).map_values(read) + frames_in(rest) =~= frames_in(rest));
        assert(answers(enabled, states, n) + rest =~= rest);
    } else {
        let before = Seq::new((n - 1) as nat, |i: int| i);
        assert(all.drop_last() =~= before);
        assert(all.last() == n - 1);
        if enabled[n - 1] {
            let frame = states[n - 1].answer(n - 1);
            assert(answers(enabled, states, n) + rest =~= answers(enabled, states, n - 1) + (frame + rest));
            watchers_read_the_enabled_motors(enabled, states, n - 1, frame + rest);
            let x = RawResponse {
                motor_id: (0x11 + (n - 1)) as u8,
                pos: states[n - 1].pos,
                vel: states[n - 1].vel,
                tau: states[n - 1].tau,
                temp_mos: 45,
                temp_rotor: 50,
            };
            frames_are_read_in_order((0x11 + (n - 1)) as u32, x.bytes(), rest);
            wire_frame_reads_back((0x11 + (n - 1)) as u32, x.bytes(), Seq::empty());
            assert(frame + Seq::<u8>::empty() =~= frame);
            assert(all.filter(on).map_values(read) + frames_in(rest) =~= before.filter(on).map_values(read)
                + (seq![read(n - 1)] + frames_in(rest)));
        } else {
            watchers_read_the_enabled_motors(enabled, states, n - 1, rest);
        }
    }
}

impl MotorBank {
    /// The states of all enabled motors, for those who watch.
    pub fn state_batch(&self, states: &[RawState; 8]) -> (r: Vec<u8>)
        requires
            forall|i: int| 0 <= i < 8 ==> (#[trigger] states@[i]).fits(),
        ensures
            r@ == answers(self@, states@, 8),
    {
        proof {
            use_type_invariant(self);
        }
        let mut batch: Vec<u8> = Vec::new();
        let mut i: usize = 0;
        while i < MOTORS
            invariant
                i <= MOTORS,
                self.enabled@.len() == MOTORS,
                forall|k: int| 0 <= k < 8 ==> (#[trigger] states@[k]).fits(),
                batch@ == answers(self@, states@, i as int),
            decreases MOTORS - i,
        {
            if self.enabled[i] {
                let state = states[i];
                assert(state == states@[i as int]);
                let frame = state.response_frame(i);
                put_bytes(&mut batch, &frame);
            }
            i = i + 1;
        }
        batch
    }
}

/// A command to a motor that was disabled last gets no answer.
pub proof fn disabled_motor_is_silent(enabled: Seq<bool>, stop_id: u32, id: u32, stop: Seq<u8>, data: Seq<u8>)
    requires
        enabled.len() == MOTORS,
        stop.len() == 8,
        special(stop, 0xFD),
        motor_of(stop_id as int) is Some,
        motor_of(id as int) == motor_of(stop_id as int),
        !special(data, 0xFC),
        !special(data, 0xFD),
    ensures
        obey(obey(enabled, stop_id, stop).0, id, data) == (
            obey(enabled, stop_id, stop).0,
            Reply::Silent,
        ),
{
    let i = motor_of(stop_id as int)->0;
    assert(!special(stop, 0xFC)) by {
        assert(stop[7] == 0xFD);
        if special(stop, 0xFC) {
            assert(stop[7] == 0xFC);
        }
    }
    assert(obey(enabled, stop_id, stop).0 == enabled.update(i, false));
}

/// A motor that was enabled last obeys a command, and takes over its position where its stiffness
/// is not 0. What a motor is told does not change the others.
pub proof fn enabled_motor_obeys(
    enabled: Seq<bool>,
    start_id: u32,
    id: u32,
    start: Seq<u8>,
    data: Seq<u8>,
    other: int,
)
    requires
        enabled.len() == MOTORS,
        special(start, 0xFC),
        motor_of(start_id as int) is Some,
        motor_of(id as int) == motor_of(start_id as int),
        data.len() == 8,
        !special(data, 0xFC),
        !special(data, 0xFD),
        0 <= other < 8,
        motor_of(id as int) != Some(other),
    ensures
        ({
            let on = obey(enabled, start_id, start).0;
            let motor = motor_of(id as int)->0 as usize;
            let command = RawCommand::read(data);
            &&& on[other] == enabled[other]
            &&& obey(enabled, start_id, start).1 == (Reply::AtRest { motor })
            &&& obey(on, id, data) == (
                on,
                Reply::Obeyed { motor, command, takes_position: command.kp != 0 },
            )
        }),
{
}

/// CAN frames that come in pieces.
#[derive(Debug)]
pub struct FrameQueue {
    pending: Vec<u8>,
}

/// The frames at the beginning of `s`.
pub open spec fn frames_in(s: Seq<u8>) -> Seq<(u32, Seq<u8>)>
    decreases s.len(),
{
    if s.len() < WIRE_LEN {
        Seq::empty()
    } else {
        seq![read_wire_frame(s)] + frames_in(s.skip(72))
    }
}

/// What is left behind the frames at the beginning of `s`.
pub open spec fn remainder(s: Seq<u8>) -> Seq<u8>
    decreases s.len(),
{
    if s.len() < WIRE_LEN {
        s
    } else {
        remainder(s.skip(72))
    }
}

/// Data that arrives in two pieces gives the frames that it gives in one.
pub proof fn pieces_do_not_matter(a: Seq<u8>, b: Seq<u8>)
    ensures
        frames_in(a) + frames_in(remainder(a) + b) == frames_in(a + b),
        remainder(remainder(a) + b) == remainder(a + b),
        remainder(a).len() < 72,
    decreases a.len(),
{
    if a.len() < WIRE_LEN {
        assert(frames_in(a) + frames_in(a + b) =~= frames_in(a + b));
    } else {
        let rest = a.skip(72);
        pieces_do_not_matter(rest, b);
        assert((a + b).skip(72) =~= rest + b);
        assert(read_wire_frame(a) == read_wire_frame(a + b)) by {
            let len = if a[4] > 64 {
                64
            } else {
                a[4] as int
            };
            assert(a.subrange(8, 8 + len) =~= (a + b).subrange(8, 8 + len));
        }
        assert(frames_in(a) + frames_in(remainder(a) + b) =~= seq![read_wire_frame(a)] + (frames_in(rest)
            + frames_in(remainder(rest) + b)));
    }
}

/// A frame that is sent is the first that is read, and what follows it is read behind it.
pub proof fn frames_are_read_in_order(can_id: u32, data: Seq<u8>, rest: Seq<u8>)
    requires
        data.len() <= 64,
    ensures
        frames_in(wire_frame(can_id, data) + rest) == seq![(can_id, data)] + frames_in(rest),
        remainder(wire_frame(can_id, data) + rest) == remainder(rest),
{
    wire_frame_reads_back(can_id, data, rest);
    assert((wire_frame(can_id, data) + rest).skip(72) =~= rest);
}

/// The ids and data of frames.
pub open spec fn frame_views(v: Seq<(u32, Vec<u8>)>) -> Seq<(u32, Seq<u8>)> {
    v.map_values(|f: (u32, Vec<u8>)| (f.0, f.1@))
}

impl View for FrameQueue {
    type V = Seq<u8>;

    closed spec fn view(&self) -> Seq<u8> {
        self.pending@
    }
}

impl FrameQueue {
    /// Nothing has come in yet.
    pub fn new() -> (r: Self)
        ensures
            r@ == Seq::<u8>::empty(),
    {
        FrameQueue { pending: Vec::new() }
    }

    /// Takes in a piece and returns the frames that are complete.
    pub fn push(&mut self, data: &[u8]) -> (r: Vec<(u32, Vec<u8>)>)
        ensures
            frame_views(r@) == frames_in(old(self)@ + data@),
            final(self)@ == remainder(old(self)@ + data@),
    {
        let mut all = slice_to_vec(self.pending.as_slice());
        put_bytes(&mut all, data);
        let ghost whole = all@;
        assert(whole =~= old(self)@ + data@);
        let mut frames: Vec<(u32, Vec<u8>)> = Vec::new();
        let mut at: usize = 0;
        assert(whole.skip(0) =~= whole);
        assert(frame_views(frames@) + frames_in(whole) =~= frames_in(whole));
        loop
            invariant
                all@ == whole,
                at <= all.len(),
                frame_views(frames@) + frames_in(whole.skip(at as int)) == frames_in(whole),
                remainder(whole.skip(at as int)) == remainder(whole),
            ensures
                at <= all.len(),
                whole.skip(at as int).len() < WIRE_LEN,
            decreases all.len() - at,
        {
            let rest = slice_subrange(all.as_slice(), at, all.len());
            assert(rest@ =~= whole.skip(at as int));
            match decode_wire_frame(rest) {
                Some((can_id, data, consumed)) => {
                    let ghost before = frame_views(frames@);
                    let ghost one = read_wire_frame(rest@);
                    frames.push((can_id, data));
                    assert(frame_views(frames@) =~= before.push(one));
                    assert(rest@.skip(72) =~= whole.skip(at + 72));
                    assert(before + (seq![one] + frames_in(whole.skip(at + 72))) =~= before.push(one)
                        + frames_in(whole.skip(at + 72)));
                    at = at + consumed;
                },
                None => {
                    break;
                },
            }
        }
        assert(frame_views(frames@) + Seq::<(u32, Seq<u8>)>::empty() =~= frame_views(frames@));
        self.pending = slice_to_vec(slice_subrange(all.as_slice(), at, all.len()));
        assert(self.pending@ =~= whole.skip(at as int));
        frames
    }
}

/// Counts the steps of a simulation; every tenth one is published.
#[derive(Debug, Clone, Copy, PartialEq, Eq, Structural)]
pub struct PublishTicks {
    pub count: u32,
}

impl PublishTicks {
    /// No step yet.
    pub fn new() -> (r: Self)
        ensures
            r.count == 0,
    {
        PublishTicks { count: 0 }
    }

    /// Counts a step and says whether to publish.
    pub fn tick(&mut self) -> (r: bool)
        requires
            old(self).count < 10,
        ensures
            r == (old(self).count == 9),
            final(self).count == (if r {
                0
            } else {
                old(self).count + 1
            }),
            final(self).count < 10,
    {
        self.count = self.count + 1;
        if self.count >= 10 {
            self.count = 0;
            true
        } else {
            false
        }
    }
}

/// A motor is enabled by seven bytes 0xFF and 0xFC, and disabled by seven bytes 0xFF and 0xFD. Any
/// other eight bytes are a command, and of another number of bytes, or under an id of no motor,
/// nothing is an order.
pub proof fn orders_are_told_apart(can_id: u32, data: Seq<u8>)
    ensures
        ({
            let head = Seq::new(7, |i: int| 0xFFu8);
            let order = order_of(can_id, data);
            &&& order is Some <==> data.len() == 8 && motor_of(can_id as int) is Some
            &&& order is Some ==> (order->0).0 == motor_of(can_id as int)->0
            &&& order is Some ==> ((order->0).1 == Order::Enable <==> data == head.push(0xFC))
            &&& order is Some ==> ((order->0).1 == Order::Disable <==> data == head.push(0xFD))
            &&& order is Some && data != head.push(0xFC) && data != head.push(0xFD) ==> (order->0).1
                == Order::Command(RawCommand::read(data))
        }),
{
    let head = Seq::new(7, |i: int| 0xFFu8);
    assert(head.push(0xFC) =~= seq![0xFFu8, 0xFF, 0xFF, 0xFF, 0xFF, 0xFF, 0xFF, 0xFC]);
    assert(head.push(0xFD) =~= seq![0xFFu8, 0xFF, 0xFF, 0xFF, 0xFF, 0xFF, 0xFF, 0xFD]);
    assert(head.push(0xFC)[7] != head.push(0xFD)[7]);
}

/// Each of the eight motors has two ids, sixteen apart, in the order of the motors, and no other id
/// stands for a motor.
pub proof fn motors_have_two_ids(can_id: int, motor: int)
    ensures
        motor_of(can_id) == Some(motor) <==> 0 <= motor < 8 && (can_id == motor + 1 || can_id == motor + 17),
        motor_of(can_id) matches Some(m) ==> 0 <= m < 8,
{
}


} // verus!
