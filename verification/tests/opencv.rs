use xoq::cmaf::{CmafConfig, CmafMuxer, NalUnit};
use xoq::opencv::{
    annex_b_to_avcc, connect_step, decode_relay_frame, empty_read, encode_relay_frame,
    parse_annex_b, remote_camera, track_step, CameraClientBuilder, CameraClientError,
    CameraProtocol, CameraTrack, CmafClient, CmafStep, ConnectStep, FrameHeader, StreamEncoding,
    Transport, FRAME_HEADER_LEN,
};

#[test]
fn test_annex_b_parse_single_nal() {
    // Single NAL unit with 4-byte start code
    let data = [0x00, 0x00, 0x00, 0x01, 0x65, 0xAA, 0xBB];
    let nals = parse_annex_b(&data);
    assert_eq!(nals.len(), 1);
    assert_eq!(nals[0].0, 5); // NAL type 5 = IDR slice
    assert_eq!(nals[0].1, vec![0x65, 0xAA, 0xBB]);
}

#[test]
fn test_annex_b_parse_multiple_nals() {
    // SPS (type 7) + PPS (type 8) + IDR (type 5) with 4-byte start codes
    let mut data = Vec::new();
    data.extend_from_slice(&[0x00, 0x00, 0x00, 0x01]); // start code
    data.extend_from_slice(&[0x67, 0x42, 0x00, 0x1E]); // SPS (type 7)
    data.extend_from_slice(&[0x00, 0x00, 0x00, 0x01]); // start code
    data.extend_from_slice(&[0x68, 0xCE, 0x38, 0x80]); // PPS (type 8)
    data.extend_from_slice(&[0x00, 0x00, 0x00, 0x01]); // start code
    data.extend_from_slice(&[0x65, 0x88, 0x84]);        // IDR (type 5)

    let nals = parse_annex_b(&data);
    assert_eq!(nals.len(), 3);
    assert_eq!(nals[0].0, 7); // SPS
    assert_eq!(nals[1].0, 8); // PPS
    assert_eq!(nals[2].0, 5); // IDR
    assert_eq!(nals[0].1, vec![0x67, 0x42, 0x00, 0x1E]);
    assert_eq!(nals[1].1, vec![0x68, 0xCE, 0x38, 0x80]);
    assert_eq!(nals[2].1, vec![0x65, 0x88, 0x84]);
}

#[test]
fn test_annex_b_parse_3byte_start_code() {
    // 3-byte start codes
    let mut data = Vec::new();
    data.extend_from_slice(&[0x00, 0x00, 0x01]); // 3-byte start code
    data.extend_from_slice(&[0x67, 0x42]);        // SPS
    data.extend_from_slice(&[0x00, 0x00, 0x01]); // 3-byte start code
    data.extend_from_slice(&[0x68, 0xCE]);        // PPS

    let nals = parse_annex_b(&data);
    assert_eq!(nals.len(), 2);
    assert_eq!(nals[0].0, 7); // SPS
    assert_eq!(nals[1].0, 8); // PPS
}

#[test]
fn test_annex_b_parse_empty_input() {
    let nals = parse_annex_b(&[]);
    assert!(nals.is_empty());
}

#[test]
fn test_annex_b_to_avcc_extracts_sps_pps() {
    // SPS + PPS + IDR
    let mut data = Vec::new();
    data.extend_from_slice(&[0x00, 0x00, 0x00, 0x01]);
    data.extend_from_slice(&[0x67, 0x42, 0x00, 0x1E]); // SPS
    data.extend_from_slice(&[0x00, 0x00, 0x00, 0x01]);
    data.extend_from_slice(&[0x68, 0xCE, 0x38, 0x80]); // PPS
    data.extend_from_slice(&[0x00, 0x00, 0x00, 0x01]);
    data.extend_from_slice(&[0x65, 0x88, 0x84]);        // IDR

    let (avcc, sps, pps) = annex_b_to_avcc(&data);

    // SPS/PPS should be extracted
    assert_eq!(sps, Some(vec![0x67, 0x42, 0x00, 0x1E]));
    assert_eq!(pps, Some(vec![0x68, 0xCE, 0x38, 0x80]));

    // AVCC should contain only the IDR NAL with 4-byte length prefix
    assert_eq!(avcc.len(), 4 + 3); // 4-byte length + 3-byte NAL
    assert_eq!(&avcc[0..4], &(3u32).to_be_bytes()); // length = 3
    assert_eq!(&avcc[4..], &[0x65, 0x88, 0x84]);
}

#[test]
fn test_annex_b_to_avcc_no_sps_pps() {
    // Only non-IDR slice (no SPS/PPS)
    let mut data = Vec::new();
    data.extend_from_slice(&[0x00, 0x00, 0x00, 0x01]);
    data.extend_from_slice(&[0x41, 0x9A, 0x01]); // non-IDR (type 1)

    let (avcc, sps, pps) = annex_b_to_avcc(&data);

    assert!(sps.is_none());
    assert!(pps.is_none());
    assert_eq!(avcc.len(), 4 + 3);
    assert_eq!(&avcc[4..], &[0x41, 0x9A, 0x01]);
}

#[test]
fn frame_header_is_twenty_bytes() {
    let header = FrameHeader { width: 640, height: 480, timestamp_us: 0x1_0000_0002, length: 7 };
    let bytes = header.encode();
    assert_eq!(bytes.len(), FRAME_HEADER_LEN);
    assert_eq!(
        bytes,
        vec![0x80, 2, 0, 0, 0xE0, 1, 0, 0, 2, 0, 0, 0, 1, 0, 0, 0, 7, 0, 0, 0]
    );
    assert_eq!(FrameHeader::decode(&bytes), header);
}

#[test]
fn relay_frame_keeps_the_low_half_of_the_timestamp() {
    let bytes = encode_relay_frame(2, 1, 0x5_0000_0007, &[0xFF, 0xD8]);
    assert_eq!(bytes, vec![2, 0, 0, 0, 1, 0, 0, 0, 7, 0, 0, 0, 0xFF, 0xD8]);
    assert_eq!(decode_relay_frame(&bytes), Ok((2, 1, 7, vec![0xFF, 0xD8])));
    assert_eq!(decode_relay_frame(&bytes[..11]), Err(CameraClientError::InvalidFrame));
    assert_eq!(decode_relay_frame(&bytes[..12]), Ok((2, 1, 7, vec![])));
}

#[test]
fn builder_says_how_to_connect() {
    assert!(matches!(
        CameraClientBuilder::new().plan(),
        Err(CameraClientError::TransportNotSpecified)
    ));
    let (transport, h264) = CameraClientBuilder::default().moq("robot/cam").plan().unwrap();
    assert!(h264);
    assert!(matches!(&transport, Transport::Moq { path, relay_url: None } if path == "robot/cam"));
    let builder = CameraClientBuilder::new().moq_with_relay("a", "https://r").jpeg_only();
    let (transport, h264) = builder.plan().unwrap();
    assert!(!h264);
    assert!(matches!(
        &transport,
        Transport::Moq { path, relay_url: Some(u) } if path == "a" && u == "https://r"
    ));
    let (transport, h264) = remote_camera("id").client().prefer_h264(false).plan().unwrap();
    assert!(!h264);
    assert!(matches!(&transport, Transport::Iroh { server_id } if server_id == "id"));
}

#[test]
fn protocols_are_tried_in_three_rounds() {
    let step = |pause_ms, protocol, encoding| ConnectStep::Try { pause_ms, protocol, encoding };
    assert_eq!(connect_step(true, 0), step(0, CameraProtocol::H264, StreamEncoding::H264));
    assert_eq!(connect_step(true, 1), step(0, CameraProtocol::Jpeg, StreamEncoding::Jpeg));
    assert_eq!(connect_step(true, 2), step(0, CameraProtocol::Legacy, StreamEncoding::Jpeg));
    assert_eq!(connect_step(true, 3), step(500, CameraProtocol::H264, StreamEncoding::H264));
    assert_eq!(connect_step(true, 8), step(0, CameraProtocol::Legacy, StreamEncoding::Jpeg));
    assert_eq!(connect_step(true, 9), ConnectStep::GiveUp);
    assert_eq!(connect_step(false, 4), step(500, CameraProtocol::Jpeg, StreamEncoding::Jpeg));
    assert_eq!(connect_step(false, 6), ConnectStep::GiveUp);
}

#[test]
fn tracks_are_tried_by_preference() {
    assert_eq!(track_step(true, 0), Ok((CameraTrack::Video, StreamEncoding::H264)));
    assert_eq!(track_step(true, 1), Ok((CameraTrack::Camera, StreamEncoding::Jpeg)));
    assert_eq!(track_step(true, 2), Err(CameraClientError::NoCameraTrack));
    assert_eq!(track_step(false, 0), Ok((CameraTrack::Camera, StreamEncoding::Jpeg)));
    assert_eq!(track_step(false, 1), Err(CameraClientError::NoCameraTrack));
}

#[test]
fn empty_reads_end_after_two_hundred() {
    assert_eq!(empty_read(1), Ok(5));
    assert_eq!(empty_read(200), Ok(5));
    assert_eq!(empty_read(201), Err(CameraClientError::NoFrame));
}

#[test]
fn cmaf_client_waits_starts_and_decodes() {
    let mut muxer = CmafMuxer::new(CmafConfig::default());
    let init = muxer.create_init_segment(&[0x67, 0x42, 0x00, 0x1E], &[0x68, 0xCE], 640, 480);
    let nal = NalUnit { data: vec![0x65, 0x88], nal_type: 5 };
    muxer.add_frame(&[nal], 0, 0, 3000, true);
    let media = muxer.flush().unwrap();

    let mut client = CmafClient::new();
    assert!(client.readable(&media));
    assert!(matches!(client.on_data(&media), CmafStep::Wait));
    let priming = vec![0, 0, 0, 1, 0x67, 0x42, 0x00, 0x1E, 0, 0, 0, 1, 0x68, 0xCE];
    let mut late = init.clone();
    late.extend_from_slice(&media);
    let mut newcomer = client;
    match newcomer.on_data(&late) {
        CmafStep::Start { priming: p, frame: Some(frame) } => {
            assert_eq!(p, priming);
            assert_eq!(frame, [priming.clone(), vec![0, 0, 0, 1, 0x65, 0x88]].concat());
        }
        other => panic!("{:?}", other),
    }
    match client.on_data(&init) {
        CmafStep::Start { priming: p, frame: None } => assert_eq!(p, priming),
        other => panic!("{:?}", other),
    }
    assert_eq!(client, CmafClient { initialized: true, width: 640, height: 480 });
    match client.on_data(&media) {
        CmafStep::Decode { frame } => assert_eq!(frame, vec![0, 0, 0, 1, 0x65, 0x88]),
        other => panic!("{:?}", other),
    }
    assert!(matches!(client.on_data(&[]), CmafStep::Wait));
}
