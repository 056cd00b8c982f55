use xoq::damiao::{
    decode_wire_frame, encode_wire_frame, motor_index, read_order, response_id, FrameQueue,
    MotorBank, Order, PublishTicks, RawCommand, RawResponse, Reply,
};

const ENABLE: [u8; 8] = [0xFF, 0xFF, 0xFF, 0xFF, 0xFF, 0xFF, 0xFF, 0xFC];
const DISABLE: [u8; 8] = [0xFF, 0xFF, 0xFF, 0xFF, 0xFF, 0xFF, 0xFF, 0xFD];
const COMMAND: [u8; 8] = [0x12, 0x34, 0x56, 0x78, 0x9A, 0xBC, 0xDE, 0xF0];

#[test]
fn both_id_ranges_name_the_motors() {
    assert_eq!(motor_index(0x01), Some(0));
    assert_eq!(motor_index(0x08), Some(7));
    assert_eq!(motor_index(0x11), Some(0));
    assert_eq!(motor_index(0x18), Some(7));
    for id in [0x00, 0x09, 0x10, 0x19] {
        assert_eq!(motor_index(id), None);
    }
    assert_eq!(response_id(0), 0x11);
    assert_eq!(response_id(7), 0x18);
}

#[test]
fn commands_are_unpacked() {
    let command = RawCommand { pos: 0x1234, vel: 0x567, kp: 0x89A, kd: 0xBCD, tau: 0xEF0 };
    assert_eq!(RawCommand::decode(&COMMAND), command);
    assert_eq!(read_order(0x03, &COMMAND), Some((2, Order::Command(command))));
    assert_eq!(read_order(0x13, &ENABLE), Some((2, Order::Enable)));
    assert_eq!(read_order(0x13, &DISABLE), Some((2, Order::Disable)));
    assert_eq!(read_order(0x13, &ENABLE[..7]), None);
    assert_eq!(read_order(0x99, &ENABLE), None);
}

#[test]
fn responses_are_packed() {
    let response = RawResponse {
        motor_id: 3,
        pos: 0x1234,
        vel: 0x567,
        tau: 0x89A,
        temp_mos: 30,
        temp_rotor: 31,
    };
    assert_eq!(response.encode(), [3, 0x12, 0x34, 0x56, 0x78, 0x9A, 30, 31]);
}

#[test]
fn wire_frames_read_back() {
    let bytes = encode_wire_frame(0x0102_0304, &[5, 6]);
    assert_eq!(bytes.len(), 72);
    assert_eq!(&bytes[..10], &[4, 3, 2, 1, 2, 0, 0, 0, 5, 6]);
    assert_eq!(decode_wire_frame(&bytes), Some((0x0102_0304, vec![5, 6], 72)));
    assert_eq!(decode_wire_frame(&bytes[..71]), None);
    let mut long = bytes.clone();
    long[4] = 200;
    assert_eq!(decode_wire_frame(&long).unwrap().1.len(), 64);
}

#[test]
fn motors_heed_commands_while_enabled() {
    let mut bank = MotorBank::new();
    assert!(!bank.any_enabled());
    assert_eq!(bank.process(0x02, &COMMAND), Reply::Silent);
    assert_eq!(bank.process(0x02, &ENABLE), Reply::AtRest { motor: 1 });
    assert!(bank.is_enabled(1) && !bank.is_enabled(0) && bank.any_enabled());
    let command = RawCommand::decode(&COMMAND);
    assert_eq!(
        bank.process(0x12, &COMMAND),
        Reply::Obeyed { motor: 1, command, takes_position: true }
    );
    let slack = [0x12, 0x34, 0x56, 0x70, 0x00, 0xBC, 0xDE, 0xF0];
    assert!(matches!(
        bank.process(0x12, &slack),
        Reply::Obeyed { motor: 1, takes_position: false, .. }
    ));
    assert_eq!(bank.process(0x12, &DISABLE), Reply::AtRest { motor: 1 });
    assert_eq!(bank.process(0x02, &COMMAND), Reply::Silent);
    assert!(!bank.any_enabled());
}

#[test]
fn frames_come_in_pieces() {
    let mut bytes = encode_wire_frame(1, &[1]);
    bytes.extend_from_slice(&encode_wire_frame(2, &[2, 2]));
    let mut queue = FrameQueue::new();
    assert!(queue.push(&bytes[..71]).is_empty());
    assert_eq!(queue.push(&bytes[71..100]), vec![(1, vec![1])]);
    assert_eq!(queue.push(&bytes[100..]), vec![(2, vec![2, 2])]);
}

#[test]
fn every_tenth_step_is_published() {
    let mut ticks = PublishTicks::new();
    let published: Vec<bool> = (0..20).map(|_| ticks.tick()).collect();
    assert!((0..20).all(|i| published[i] == (i % 10 == 9)));
}
