use xoq::bridge_server::MoqConfig;
use xoq::can::{
    bus_id, is_can_interface, read_reply, receive, transmit, BusId, BusRead, BusWrite, CanConfig,
    ReadReply, Received, SocketRead,
};
use xoq::can_server::{
    bus_health, can_moq_config, encode_batch, parse_bus_state, read_failed, sysfs_bus_state,
    write_failed, BusHealth, FrameAssembler, ReadRetry, WriteRetry,
};
use xoq::can_types::wire::{decode, encode, encoded_size, FRAME_SIZE};
use xoq::can_types::{AnyCanFrame, CanError, CanFdFlags, CanFdFrame, CanFrame};

fn standard(id: u32, data: &[u8]) -> AnyCanFrame {
    AnyCanFrame::Can(CanFrame::new(id, data).unwrap())
}

fn fd(id: u32, data: &[u8], brs: bool, esi: bool) -> AnyCanFrame {
    AnyCanFrame::CanFd(CanFdFrame::new_with_flags(id, data, CanFdFlags { brs, esi }).unwrap())
}

#[test]
fn frames_hold_what_they_are_made_of() {
    let frame = CanFrame::new(0x123, &[1, 2, 3]).unwrap();
    assert_eq!((frame.id(), frame.data(), frame.dlc()), (0x123, &[1u8, 2, 3][..], 3));
    assert!(!frame.is_extended() && !frame.is_remote() && !frame.is_error());
    assert!(CanFrame::new(0x800, &[]).unwrap().is_extended());
    assert!(!CanFrame::new(0x7FF, &[]).unwrap().is_extended());
    assert!(CanFrame::new_extended(0x12, &[9]).unwrap().is_extended());
    let remote = CanFrame::new_remote(0x12, 4).unwrap();
    assert!(remote.is_remote());
    assert_eq!((remote.dlc(), remote.data()), (4, &[0u8; 4][..]));
    let empty = CanFdFrame::new(5, &[]).unwrap();
    assert!(empty.is_empty());
    assert_eq!(empty.len(), 0);
    assert_eq!(empty.flags(), CanFdFlags { brs: false, esi: false });
}

#[test]
fn oversized_frames_are_refused() {
    assert_eq!(CanFrame::new(1, &[0; 9]).unwrap_err(), CanError::DataTooLong);
    assert_eq!(CanFrame::new_extended(1, &[0; 9]).unwrap_err(), CanError::DataTooLong);
    assert_eq!(CanFrame::new_remote(1, 9).unwrap_err(), CanError::DlcTooLarge);
    assert_eq!(CanFdFrame::new(1, &[0; 65]).unwrap_err(), CanError::FdDataTooLong);
    assert!(CanFrame::new(1, &[0; 8]).is_ok());
    assert!(CanFdFrame::new(1, &[0; 64]).is_ok());
}

#[test]
fn wire_format_is_a_canfd_frame() {
    let bytes = encode(&standard(0x123, &[0xAA, 0xBB]));
    assert_eq!(bytes.len(), FRAME_SIZE);
    assert_eq!(&bytes[..10], &[0x23, 1, 0, 0, 2, 0, 0, 0, 0xAA, 0xBB]);
    assert!(bytes[10..].iter().all(|b| *b == 0));
    let extended = AnyCanFrame::Can(CanFrame::new_extended(0x12, &[]).unwrap());
    assert_eq!(&encode(&extended)[..4], &[0x12, 0, 0, 0x80]);
    let remote = AnyCanFrame::Can(CanFrame::new_remote(0x12, 3).unwrap());
    assert_eq!(&encode(&remote)[..5], &[0x12, 0, 0, 0x40, 3]);
    assert_eq!(&encode(&fd(0x12, &[7], true, true))[..9], &[0x12, 0, 0, 0, 1, 3, 0, 0, 7]);
    assert_eq!(encoded_size(&[]), Ok(72));
}

#[test]
fn frames_read_back_from_the_wire() {
    let long: Vec<u8> = (0..40).collect();
    for frame in [
        standard(0x123, &[1, 2, 3]),
        standard(0x1234, &[1]),
        AnyCanFrame::Can(CanFrame::new_remote(0x12, 0).unwrap()),
        fd(0x5, &long, false, false),
        fd(0x5, &[1], true, false),
    ] {
        let bytes = encode(&frame);
        let (back, used) = decode(&bytes).unwrap();
        assert_eq!(used, 72);
        assert_eq!((back.id(), back.data(), back.is_fd()), (frame.id(), frame.data(), frame.is_fd()));
        assert_eq!(encode(&back), bytes);
    }
    // Short FD data without flags cannot be told from a standard frame.
    assert!(!decode(&encode(&fd(5, &[1], false, false))).unwrap().0.is_fd());
    assert_eq!(decode(&[0; 71]).unwrap_err(), CanError::ShortBuffer { got: 71 });
}

#[test]
fn identifiers_are_checked_before_they_reach_the_bus() {
    assert_eq!(bus_id(0x7FF, false), Ok(BusId::Standard(0x7FF)));
    assert_eq!(bus_id(0x800, false), Err(CanError::InvalidStandardId { id: 0x800 }));
    assert_eq!(bus_id(0x1FFF_FFFF, true), Ok(BusId::Extended(0x1FFF_FFFF)));
    assert_eq!(bus_id(0x2000_0000, true), Err(CanError::InvalidExtendedId { id: 0x2000_0000 }));
}

#[test]
fn sockets_take_what_they_are_opened_for() {
    match transmit(&standard(0x12, &[5]), false).unwrap() {
        BusWrite::Data { id, data } => assert_eq!((id, data), (BusId::Standard(0x12), vec![5])),
        other => panic!("{:?}", other),
    }
    match transmit(&fd(0x1234, &[5], true, false), true).unwrap() {
        BusWrite::Fd { id, data, flags } => {
            assert_eq!((id, data), (BusId::Extended(0x1234), vec![5]));
            assert_eq!(flags, CanFdFlags { brs: true, esi: false });
        }
        other => panic!("{:?}", other),
    }
    assert_eq!(transmit(&fd(0x12, &[5], true, false), false).unwrap_err(), CanError::FdUnsupported);
}

#[test]
fn standard_sockets_report_what_fd_sockets_pass_over() {
    assert!(matches!(receive(BusRead::Error, false), Received::Failed(CanError::ErrorFrame)));
    assert!(matches!(receive(BusRead::Error, true), Received::Skip));
    assert!(matches!(receive(BusRead::Remote { id: 1, dlc: 2 }, true), Received::Skip));
    match receive(BusRead::Remote { id: 1, dlc: 2 }, false) {
        Received::Frame(AnyCanFrame::Can(f)) => assert!(f.is_remote() && f.dlc() == 2),
        other => panic!("{:?}", other),
    }
    match receive(BusRead::Data { id: 0x12, is_extended: true, data: vec![1] }, true) {
        Received::Frame(AnyCanFrame::Can(f)) => assert!(f.is_extended() && f.data() == &[1]),
        other => panic!("{:?}", other),
    }
    let flags = CanFdFlags { brs: true, esi: true };
    match receive(BusRead::Fd { id: 0x12, data: vec![0; 64], flags }, true) {
        Received::Frame(AnyCanFrame::CanFd(f)) => assert_eq!((f.len(), f.flags()), (64, flags)),
        other => panic!("{:?}", other),
    }
}

#[test]
fn requests_for_frames_are_answered() {
    assert!(matches!(read_reply(SocketRead::Idle, false), Some(ReadReply::Timeout)));
    assert!(matches!(read_reply(SocketRead::Failed, true), Some(ReadReply::SocketFailed)));
    assert!(read_reply(SocketRead::Frame(BusRead::Error), true).is_none());
    assert!(matches!(
        read_reply(SocketRead::Frame(BusRead::Error), false),
        Some(ReadReply::NotConverted(CanError::ErrorFrame))
    ));
    let data = BusRead::Data { id: 3, is_extended: false, data: vec![4] };
    match read_reply(SocketRead::Frame(data), false) {
        Some(ReadReply::Frame(f)) => assert_eq!((f.id(), f.data()), (3, &[4u8][..])),
        other => panic!("{:?}", other),
    }
}

#[test]
fn config_defaults() {
    let config = CanConfig::new("can0");
    assert_eq!((config.interface.as_str(), config.enable_fd), ("can0", false));
    assert_eq!(config.read_timeout_ms, 100);
    assert!(CanConfig::new_fd("can1").enable_fd);
}

#[test]
fn interface_type_is_read_from_sysfs() {
    assert!(is_can_interface("280\n"));
    assert!(!is_can_interface("1\n"));
    assert!(!is_can_interface("can"));
}

#[test]
fn assembler_does_not_mind_how_bytes_are_cut() {
    let frames = [standard(1, &[1]), standard(2, &[2, 2]), fd(3, &[3; 20], false, true)];
    let bytes = encode_batch(&frames);
    assert_eq!(bytes.len(), 3 * 72);
    let mut whole = FrameAssembler::new();
    let at_once: Vec<u32> = whole.push(&bytes).iter().map(|f| f.id()).collect();
    let mut pieces = FrameAssembler::new();
    let mut in_pieces = Vec::new();
    for piece in bytes.chunks(50) {
        for frame in pieces.push(piece) {
            in_pieces.push(frame.id());
        }
    }
    assert_eq!(at_once, vec![1, 2, 3]);
    assert_eq!(in_pieces, at_once);
}

#[test]
fn full_queue_gets_three_more_attempts() {
    assert_eq!(write_failed(Some(105), 0), WriteRetry::Again { pause_us: 100 });
    assert_eq!(write_failed(Some(105), 2), WriteRetry::Again { pause_us: 100 });
    assert_eq!(write_failed(Some(105), 3), WriteRetry::Drop);
    assert_eq!(write_failed(Some(5), 0), WriteRetry::Drop);
    assert_eq!(write_failed(None, 0), WriteRetry::Drop);
    assert_eq!(read_failed(true, false), ReadRetry::Now);
    assert_eq!(read_failed(false, true), ReadRetry::Now);
    assert_eq!(read_failed(false, false), ReadRetry::After { pause_ms: 10 });
}

#[test]
fn bus_state_is_read_from_the_description() {
    let text = "3: can0: <NOARP,UP> mtu 16\n    link/can\n    can <FD> state ERROR-ACTIVE restart-ms 0\n";
    assert_eq!(parse_bus_state(text).as_deref(), Some("ERROR-ACTIVE"));
    assert_eq!(parse_bus_state("    can state BUS-OFF").as_deref(), Some("BUS-OFF"));
    assert_eq!(parse_bus_state("link/can state UP\n"), None);
    assert_eq!(parse_bus_state(""), None);
    assert_eq!(sysfs_bus_state("  error-active\n"), "ERROR-ACTIVE");
    assert_eq!(bus_health(Some("ERROR-ACTIVE")), BusHealth::Healthy);
    assert_eq!(bus_health(Some("BUS-OFF")), BusHealth::Degraded);
    assert_eq!(bus_health(None), BusHealth::Unknown);
}

#[test]
fn relay_is_used_only_where_it_is_given() {
    assert!(can_moq_config("can0", None, Some("p"), false).is_none());
    let config: MoqConfig = can_moq_config("can0", Some("https://r"), None, true).unwrap();
    assert_eq!((config.relay.as_str(), config.path.as_str()), ("https://r", "anon/xoq-can-can0"));
    assert!(config.insecure);
    assert_eq!(config.state_path(), "anon/xoq-can-can0/state");
    assert_eq!(config.command_path(), "anon/xoq-can-can0/commands");
    assert_eq!(config.track_name, "can");
    let config = can_moq_config("can0", Some("https://r"), Some("arm"), false).unwrap();
    assert_eq!(config.path, "arm");
}
