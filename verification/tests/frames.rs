use xoq::camera_server::{
    after_sending, jpeg_message, relayed_jpeg_message, H264Settings, Sending,
};
use xoq::cmaf::{CmafConfig, CmafMuxer, NalUnit};
use xoq::damiao::{decode_wire_frame, MotorBank, RawState};
use xoq::frame::{Frame, FrameError};
use xoq::nvdec_av1_decoder::{copy_row, next_row, surface_size, RowCopy};
use xoq::opencv::vtdec::{picture_frame, VtDecoder, VtError};
use xoq::opencv::{
    direct_frame, jpeg_frame, relayed_jpeg, CameraClientError, DirectFrame, FrameHeader, RelayRead,
    RelayReader, RelayStep, StreamEncoding,
};
use xoq::pixels::{i420_pixel, nv12_pixel, put_nv12, rgb_pixel, yuyv_pair};
use xoq::realsense::{
    after_start, applies_table, counts_as_applied, device_info, error_message, streams,
    AfterCalibration, Calibration, CalibrationStep, OpenStep, StreamKind,
};
use xoq::realsense_client::{find_intrinsics, PairEvent, PairReader, PairStep};
use xoq::realsense_server::feed::{
    after_relay, depth_stats, frame_times, publisher, AfterRelay, DepthStats, RelayChoice,
    TrackFeed,
};

fn grey_frame() -> Frame {
    let mut frame = Frame::new(8, 8, vec![128; 8 * 8 * 3]);
    frame.timestamp_us = 0x1_0000_0009;
    frame
}

#[test]
fn direct_frames_reach_the_client() {
    let message = jpeg_message(&grey_frame(), 80).unwrap();
    let header = FrameHeader::decode(&message);
    assert_eq!((header.width, header.height, header.timestamp_us), (8, 8, 0x1_0000_0009));
    assert_eq!(header.length as usize, message.len() - 20);
    match direct_frame(&header, &message[20..], StreamEncoding::Jpeg, false) {
        Ok(DirectFrame::Ready(frame)) => {
            assert_eq!((frame.width, frame.timestamp_us), (8, 0x1_0000_0009));
            assert_eq!(frame.data.len(), 192);
        }
        other => panic!("{:?}", other),
    }
    assert!(matches!(
        direct_frame(&header, &[1], StreamEncoding::Jpeg, true),
        Err(CameraClientError::NotDecodable)
    ));
    assert!(matches!(
        direct_frame(&header, &[1], StreamEncoding::H264, true),
        Ok(DirectFrame::Decode { width: 8, height: 8, timestamp_us: 0x1_0000_0009 })
    ));
    assert!(matches!(
        direct_frame(&header, &[1], StreamEncoding::H264, false),
        Err(CameraClientError::NoDecoder)
    ));
}

#[test]
fn relayed_frames_reach_the_client() {
    let message = relayed_jpeg_message(&grey_frame(), 80).unwrap();
    let frame = relayed_jpeg(&message).unwrap();
    assert_eq!((frame.width, frame.height, frame.timestamp_us), (8, 8, 9));
    assert_eq!(jpeg_frame(&message[12..], 5).unwrap().timestamp_us, 5);
    assert_eq!(relayed_jpeg(&[0; 11]).unwrap_err(), CameraClientError::InvalidFrame);
    assert_eq!(relayed_jpeg(&[0; 12]).unwrap_err(), CameraClientError::NotDecodable);
    let broken = Frame::new(8, 8, vec![]);
    assert_eq!(jpeg_message(&broken, 80), Err(FrameError::DataTooShort));
    assert_eq!(relayed_jpeg_message(&broken, 80), Err(FrameError::DataTooShort));
}

#[test]
fn relay_reader_puts_up_with_empty_reads() {
    let mut reader = RelayReader::new(StreamEncoding::Jpeg);
    for _ in 0..200 {
        assert!(matches!(reader.step(RelayRead::Nothing), RelayStep::Again { pause_ms: 5 }));
    }
    assert!(matches!(
        reader.step(RelayRead::Nothing),
        RelayStep::Fail(CameraClientError::NoFrame)
    ));
    let message = relayed_jpeg_message(&grey_frame(), 80).unwrap();
    reader.step(RelayRead::Nothing);
    assert!(matches!(reader.step(RelayRead::Data(message)), RelayStep::Ready(f) if f.width == 8));
    assert_eq!(reader.retries, 0);
}

#[test]
fn relay_reader_starts_a_decoder() {
    let mut muxer = CmafMuxer::new(CmafConfig::default());
    let init = muxer.create_init_segment(&[0x67, 1, 2, 3], &[0x68, 4], 640, 480);
    muxer.add_frame(&[NalUnit { data: vec![0x65, 9], nal_type: 5 }], 0, 0, 3000, true);
    let media = muxer.flush().unwrap();
    let mut reader = RelayReader::new(StreamEncoding::H264);
    assert!(reader.readable(&media));
    assert!(matches!(
        reader.step(RelayRead::Data(media.clone())),
        RelayStep::Again { pause_ms: 0 }
    ));
    match reader.step(RelayRead::Data(init)) {
        RelayStep::Start { width: 640, height: 480, priming, stream: None } => {
            assert_eq!(priming, vec![0, 0, 0, 1, 0x67, 1, 2, 3, 0, 0, 0, 1, 0x68, 4]);
        }
        other => panic!("{:?}", other),
    }
    match reader.step(RelayRead::Data(media)) {
        RelayStep::Decode { width: 640, height: 480, stream } => {
            assert_eq!(stream, vec![0, 0, 0, 1, 0x65, 9]);
        }
        other => panic!("{:?}", other),
    }
}

#[test]
fn relay_reader_asks_again_for_a_decoder() {
    let mut muxer = CmafMuxer::new(CmafConfig::default());
    let init = muxer.create_init_segment(&[0x67, 1, 2, 3], &[0x68, 4], 640, 480);
    let mut reader = RelayReader::new(StreamEncoding::H264);
    reader.step(RelayRead::Nothing);
    let before = reader.retries;
    assert!(matches!(reader.step(RelayRead::Data(init.clone())), RelayStep::Start { .. }));
    assert!(matches!(reader.step(RelayRead::Data(init.clone())), RelayStep::Again { .. }));
    reader.step(RelayRead::Nothing);
    reader.decoder_failed();
    assert_eq!((reader.retries, reader.encoding), (before, StreamEncoding::H264));
    assert!(!reader.cmaf.initialized);
    assert_eq!((reader.cmaf.width, reader.cmaf.height), (0, 0));
    match reader.step(RelayRead::Data(init)) {
        RelayStep::Start { width: 640, height: 480, priming, stream: None } => {
            assert_eq!(priming, vec![0, 0, 0, 1, 0x67, 1, 2, 3, 0, 0, 0, 1, 0x68, 4]);
        }
        other => panic!("{:?}", other),
    }
}

#[test]
fn decoder_session_follows_the_parameter_sets() {
    let key = [0, 0, 0, 1, 0x67, 1, 0, 0, 0, 1, 0x68, 2, 0, 0, 0, 1, 0x65, 3];
    let slice = [0, 0, 0, 1, 0x41, 4];
    let mut decoder = VtDecoder::new();
    assert_eq!(decoder.accept(&slice).unwrap_err(), VtError::NoParameterSets { frame: 0 });
    let work = decoder.accept(&key).unwrap();
    assert!(work.new_session);
    assert_eq!(decoder.parameter_sets(), (&[0x67u8, 1][..], &[0x68u8, 2][..]));
    decoder.session_made(true);
    assert_eq!(work.avcc, vec![0, 0, 0, 2, 0x65, 3]);
    assert_eq!(decoder.presentation_time(&work), Ok(0));
    let frame = decoder.decoded(Some(grey_frame()), 77).unwrap();
    assert_eq!((frame.width, frame.timestamp_us), (8, 77));
    assert!(!decoder.accept(&slice).unwrap().new_session);
    assert!(!decoder.accept(&key).unwrap().new_session);
    let only_sets = decoder.accept(&key[..12]).unwrap();
    assert_eq!(decoder.presentation_time(&only_sets), Err(VtError::NoSliceData { frame: 1 }));
    assert_eq!(decoder.decoded(None, 0).unwrap_err(), VtError::NoFrame { frame: 1 });
    let other = [0, 0, 0, 1, 0x67, 9, 0, 0, 0, 1, 0x65, 3];
    assert!(decoder.accept(&other).unwrap().new_session);
    decoder.session_made(false);
    assert!(decoder.accept(&slice).unwrap().new_session);
}

#[test]
fn pictures_become_frames() {
    let bgra = [1, 2, 3, 0, 4, 5, 6, 0, 9, 9, 7, 8, 9, 0, 10, 11, 12, 0, 9, 9];
    let frame = picture_frame(&bgra, 2, 2, 10).unwrap();
    assert_eq!((frame.width, frame.height), (2, 2));
    assert_eq!(frame.data, vec![3, 2, 1, 6, 5, 4, 9, 8, 7, 12, 11, 10]);
    assert!(picture_frame(&[], 0, 0, 0).is_none());
}

#[test]
fn surface_rows_fill_the_frame() {
    assert_eq!(copy_row(2, 10, 64, 10), RowCopy { from: 128, to: 40, len: 20 });
    assert_eq!(copy_row(2, 10, 64, 8), RowCopy { from: 128, to: 20, len: 10 });
    let last = copy_row(5, 10, 64, 8);
    assert_eq!(last.to + last.len, surface_size(10, 4, 8));
    assert_eq!(next_row(0, 4, true), Some(1));
    assert_eq!(next_row(1, 4, false), Some(4));
    assert_eq!(next_row(4, 4, false), None);
    assert_eq!(next_row(5, 4, true), None);
}

#[test]
fn samples_of_pixels() {
    let nv12 = [1, 2, 3, 4, 50, 60];
    assert_eq!(nv12_pixel(&nv12, 2, 2, 1, 1), (4, 50, 60));
    assert_eq!(nv12_pixel(&nv12[..3], 2, 2, 1, 1), (0, 128, 128));
    let planes = (&[1u8, 2, 0, 3, 4, 0][..], &[5u8][..], &[6u8][..]);
    assert_eq!(i420_pixel(planes, (3, 1, 1), 1, 1), (4, 5, 6));
    assert_eq!(i420_pixel(planes, (3, 1, 1), 0, 2), (0, 128, 128));
    assert_eq!(yuyv_pair(&[1, 2, 3, 4, 5, 6], 0), (1, 2, 3, 4));
    assert_eq!(yuyv_pair(&[1, 2, 3, 4, 5, 6], 2), (5, 6, 0, 128));
    assert_eq!(rgb_pixel(&[1, 2, 3, 4], 1), (4, 0, 0));
    let mut frame = vec![0; 6];
    put_nv12(&mut frame, 2, 2, 0, 0, (1, 7, 8));
    put_nv12(&mut frame, 2, 2, 1, 0, (2, 9, 9));
    put_nv12(&mut frame, 2, 2, 0, 1, (3, 9, 9));
    assert_eq!(frame, vec![1, 2, 3, 0, 7, 8]);
}

#[test]
fn encoder_rules_of_the_camera_server() {
    let settings = H264Settings::new(30, 3000);
    assert_eq!((settings.gop_length, settings.idr_period, settings.vbv_buffer_size), (30, 30, 100));
    assert!(!settings.intra_refresh && settings.repeat_parameter_sets);
    assert_eq!(after_sending(Sending::Sent), Some(30));
    assert_eq!(after_sending(Sending::Failed), None);
    assert_eq!(after_sending(Sending::TimedOut), None);
}

#[test]
fn realsense_streams_and_calibration() {
    assert_eq!(streams(640, 480, 30, false).len(), 2);
    let with_accel = streams(640, 480, 30, true);
    assert_eq!(with_accel[2].kind, StreamKind::Accel);
    assert!(with_accel[1].required && !with_accel[2].required);
    assert_eq!(after_start(true, false), OpenStep::RetryWithoutAccel);
    assert_eq!(after_start(false, false), OpenStep::Fail);
    assert_eq!(after_start(true, true), OpenStep::Opened { accel: true });
    assert_eq!(device_info(None), "Unknown");
    assert_eq!(error_message(None), "unknown error");
    let mut step = CalibrationStep::Size;
    let mut taken = 1;
    while let AfterCalibration::Go(next) = step.after(None, true) {
        step = next;
        taken += 1;
    }
    assert_eq!((taken, step), (4, CalibrationStep::Write));
    assert!(matches!(
        CalibrationStep::Write.after(Some("full"), true),
        AfterCalibration::Fail(m) if m == "Failed to write calibration to EEPROM: full"
    ));
    assert!(matches!(
        CalibrationStep::Size.after(None, false),
        AfterCalibration::Fail(m) if m == "Calibration buffer is empty"
    ));
    assert!(!applies_table(Calibration::OnChip { poor: false }, true));
    assert!(applies_table(Calibration::Tare, true));
    assert!(!counts_as_applied(Calibration::OnChip { poor: true }, false));
    assert!(counts_as_applied(Calibration::OnChip { poor: true }, true));
    assert!(counts_as_applied(Calibration::Tare, true));
    assert!(!counts_as_applied(Calibration::Tare, false));
}

#[test]
fn color_and_depth_are_read_in_turn() {
    let mdat = |ts: u8, byte: u8| {
        let mut data = vec![ts, 0, 0, 0, 0, 0, 0, 0];
        data.extend_from_slice(&[0, 0, 0, 9, 0x6D, 0x64, 0x61, 0x74, byte]);
        PairEvent::Data(data)
    };
    let mut reader = PairReader::new();
    assert!(matches!(reader.step(PairEvent::Data(vec![1; 9])), PairStep::ReadColor));
    assert!(matches!(reader.step(mdat(7, 3)), PairStep::Decode(d) if d == vec![3]));
    assert!(matches!(reader.step(PairEvent::Decoded { frame: false }), PairStep::ReadColor));
    assert!(matches!(reader.step(mdat(8, 4)), PairStep::Decode(d) if d == vec![4]));
    assert!(matches!(reader.step(PairEvent::Decoded { frame: true }), PairStep::ReadDepth));
    assert!(matches!(reader.step(mdat(9, 5)), PairStep::Decode(d) if d == vec![5]));
    assert!(matches!(
        reader.step(PairEvent::Decoded { frame: true }),
        PairStep::Done { timestamp_ms: 8 }
    ));
    assert!(matches!(reader.step(PairEvent::Ended), PairStep::DepthEnded));
    assert!(matches!(PairReader::new().step(PairEvent::Ended), PairStep::VideoEnded));
}

#[test]
fn intrinsics_are_found() {
    let json = "{\"fx\": 1.5, \"fy\": 2, \"ppx\": 3, \"ppy\": 4, \"width\": 640, \"height\": 480}";
    let found = find_intrinsics(json).unwrap();
    assert_eq!((found.fx.as_str(), found.height.as_str()), ("1.5", "480"));
    assert_eq!(found.depth_shift, None);
    assert!(find_intrinsics("{\"fx\": 1.5}").is_none());
}

#[test]
fn depth_server_feed() {
    let mut feed = TrackFeed::new();
    assert!(feed.needs_init(true) && !feed.needs_init(false));
    assert_eq!(feed.publish(&[5], true), vec![5]);
    assert_eq!(feed.begin(vec![1, 2]), vec![1, 2]);
    assert!(!feed.needs_init(true));
    assert_eq!(feed.publish(&[5], true), vec![1, 2, 5]);
    assert_eq!(feed.publish(&[5], false), vec![5]);
    assert_eq!(frame_times(2, 30), (6000, 3000));
    assert_eq!(depth_stats(&[0, 7, 3, 0]), DepthStats { min: 3, max: 7, valid: 2 });
    assert_eq!(depth_stats(&[0]), DepthStats { min: u16::MAX, max: 0, valid: 0 });
    assert_eq!(publisher("https://r", "p", true).address(), "https://r/p");
    assert!(publisher("https://r", "p", true).disable_tls_verify);
    assert_eq!(after_relay(RelayChoice::Quic, false), AfterRelay::Try(RelayChoice::Given));
    assert_eq!(after_relay(RelayChoice::Given, false), AfterRelay::Fail);
    assert_eq!(after_relay(RelayChoice::Quic, true), AfterRelay::Publish);
}

#[test]
fn enabled_motors_report_their_state() {
    let state = RawState { pos: 0x1234, vel: 0x567, tau: 0x89A };
    let frame = state.response_frame(2);
    let (id, data, _) = decode_wire_frame(&frame).unwrap();
    assert_eq!((id, data), (0x13, vec![0x13, 0x12, 0x34, 0x56, 0x78, 0x9A, 45, 50]));
    let mut bank = MotorBank::new();
    assert!(bank.state_batch(&[state; 8]).is_empty());
    let enable = [0xFF, 0xFF, 0xFF, 0xFF, 0xFF, 0xFF, 0xFF, 0xFC];
    bank.process(0x03, &enable);
    bank.process(0x08, &enable);
    let batch = bank.state_batch(&[state; 8]);
    assert_eq!(batch.len(), 144);
    assert_eq!(&batch[..72], &frame[..]);
    assert_eq!(batch[72], 0x18);
}
