use xoq::cmaf::demux::{
    init_segment_readable, media_segment_readable, parse_avcc_box, parse_cmaf_init_segment,
    parse_cmaf_media_segment, CmafError,
};
use xoq::cmaf::{nal_unit_type, parse_annex_b, CmafConfig, CmafMuxer, NalUnit};

#[test]
fn test_nal_unit_types() {
    let idr = NalUnit { data: vec![0x65, 0x00], nal_type: nal_unit_type::IDR_SLICE };
    assert!(idr.is_idr());
    assert!(idr.is_slice());
    assert!(!idr.is_sps());
    assert!(!idr.is_pps());

    let non_idr = NalUnit { data: vec![0x41, 0x00], nal_type: nal_unit_type::NON_IDR_SLICE };
    assert!(!non_idr.is_idr());
    assert!(non_idr.is_slice());

    let sps = NalUnit { data: vec![0x67, 0x64, 0x00, 0x1f], nal_type: nal_unit_type::SPS };
    assert!(sps.is_sps());
    assert!(!sps.is_slice());

    let pps = NalUnit { data: vec![0x68, 0xee, 0x3c], nal_type: nal_unit_type::PPS };
    assert!(pps.is_pps());
    assert!(!pps.is_slice());
}

#[test]
fn test_nal_unit_to_annex_b() {
    let nal = NalUnit { data: vec![0x65, 0xAA, 0xBB], nal_type: nal_unit_type::IDR_SLICE };
    let annex_b = nal.to_annex_b();
    assert_eq!(&annex_b[..4], &[0x00, 0x00, 0x00, 0x01]);
    assert_eq!(&annex_b[4..], &[0x65, 0xAA, 0xBB]);
}

#[test]
fn test_parse_annex_b_keyframe() {
    // Build an Annex B stream: SPS + PPS + IDR slice
    let mut data = Vec::new();
    // SPS
    data.extend_from_slice(&[0x00, 0x00, 0x00, 0x01]);
    data.extend_from_slice(&[0x67, 0x64, 0x00, 0x1f, 0xAC]);
    // PPS
    data.extend_from_slice(&[0x00, 0x00, 0x00, 0x01]);
    data.extend_from_slice(&[0x68, 0xEE, 0x3C, 0x80]);
    // IDR slice
    data.extend_from_slice(&[0x00, 0x00, 0x00, 0x01]);
    data.extend_from_slice(&[0x65, 0x88, 0x80, 0x40, 0x00]);

    let parsed = parse_annex_b(&data);
    assert!(parsed.is_keyframe);
    assert!(parsed.sps.is_some());
    assert!(parsed.pps.is_some());
    assert_eq!(parsed.sps.unwrap(), vec![0x67, 0x64, 0x00, 0x1f, 0xAC]);
    assert_eq!(parsed.pps.unwrap(), vec![0x68, 0xEE, 0x3C, 0x80]);
    assert_eq!(parsed.nals.len(), 1);
    assert!(parsed.nals[0].is_idr());
}

#[test]
fn test_parse_annex_b_non_keyframe() {
    let mut data = Vec::new();
    // Non-IDR slice only
    data.extend_from_slice(&[0x00, 0x00, 0x00, 0x01]);
    data.extend_from_slice(&[0x41, 0x9A, 0x00, 0x10]);

    let parsed = parse_annex_b(&data);
    assert!(!parsed.is_keyframe);
    assert!(parsed.sps.is_none());
    assert!(parsed.pps.is_none());
    assert_eq!(parsed.nals.len(), 1);
    assert!(!parsed.nals[0].is_idr());
}

#[test]
fn test_parse_annex_b_3byte_start_codes() {
    let mut data = Vec::new();
    // 3-byte start code + non-IDR slice
    data.extend_from_slice(&[0x00, 0x00, 0x01]);
    data.extend_from_slice(&[0x41, 0x9A, 0x00]);

    let parsed = parse_annex_b(&data);
    assert_eq!(parsed.nals.len(), 1);
    assert_eq!(parsed.nals[0].nal_type, nal_unit_type::NON_IDR_SLICE);
}

#[test]
fn test_parse_annex_b_empty() {
    let parsed = parse_annex_b(&[]);
    assert!(!parsed.is_keyframe);
    assert!(parsed.sps.is_none());
    assert!(parsed.pps.is_none());
    assert!(parsed.nals.is_empty());
}

#[test]
fn test_default_config() {
    let config = CmafConfig::default();
    assert_eq!(config.fragment_duration_ms, 2000);
    assert_eq!(config.timescale, 90000);
}

#[test]
fn test_muxer_initialization() {
    let mut muxer = CmafMuxer::new(CmafConfig::default());
    assert!(!muxer.is_initialized());

    let sps = vec![0x67, 0x64, 0x00, 0x1f, 0xac, 0xd9, 0x40, 0x50];
    let pps = vec![0x68, 0xee, 0x3c, 0x80];

    let init = muxer.create_init_segment(&sps, &pps, 1920, 1080);
    assert!(muxer.is_initialized());
    assert!(!init.is_empty());

    // Check ftyp box
    assert_eq!(&init[4..8], b"ftyp");
    // Check moov box exists
    assert!(init.windows(4).any(|w| w == b"moov"));
}

#[test]
fn test_ftyp_box() {
    let muxer = CmafMuxer::new(CmafConfig::default());
    let mut buf = Vec::new();
    muxer.write_ftyp(&mut buf);

    let size = u32::from_be_bytes([buf[0], buf[1], buf[2], buf[3]]);
    assert_eq!(&buf[4..8], b"ftyp");
    assert_eq!(size as usize, buf.len());
}

#[test]
fn test_add_frame_before_init() {
    let mut muxer = CmafMuxer::new(CmafConfig::default());
    let nals = vec![NalUnit { data: vec![0x65, 0x88], nal_type: nal_unit_type::IDR_SLICE }];
    let result = muxer.add_frame(&nals, 0, 0, 3000, true);
    assert!(result.is_none());
}

#[test]
fn test_muxer_add_frame_and_flush() {
    let mut muxer = CmafMuxer::new(CmafConfig {
        fragment_duration_ms: 33,
        timescale: 90000,
    });

    let sps = vec![0x67, 0x64, 0x00, 0x1f];
    let pps = vec![0x68, 0xee, 0x3c, 0x80];
    muxer.create_init_segment(&sps, &pps, 640, 480);

    // First frame (keyframe) - no segment returned yet
    let nals = vec![NalUnit { data: vec![0x65, 0x88, 0x80], nal_type: nal_unit_type::IDR_SLICE }];
    let seg = muxer.add_frame(&nals, 0, 0, 3000, true);
    assert!(seg.is_none());
    assert_eq!(muxer.pending_frame_count(), 1);

    // Second frame (non-keyframe)
    let nals = vec![NalUnit { data: vec![0x41, 0x9A, 0x00], nal_type: nal_unit_type::NON_IDR_SLICE }];
    let seg = muxer.add_frame(&nals, 3000, 3000, 3000, false);
    assert!(seg.is_none());
    assert_eq!(muxer.pending_frame_count(), 2);

    // Flush remaining
    let seg = muxer.flush();
    assert!(seg.is_some());
    let seg = seg.unwrap();
    // Check styp box
    assert!(seg.windows(4).any(|w| w == b"styp"));
    // Check moof box
    assert!(seg.windows(4).any(|w| w == b"moof"));
    // Check mdat box
    assert!(seg.windows(4).any(|w| w == b"mdat"));
}

fn slice(byte: u8, len: usize) -> NalUnit {
    let mut data = vec![byte];
    data.resize(len, 0xA5);
    NalUnit { data, nal_type: byte & 0x1F }
}

#[test]
fn init_segment_gives_back_its_parameters() {
    let mut muxer = CmafMuxer::new(CmafConfig::default());
    let init = muxer.create_init_segment(&[0x67, 0x64, 0x00, 0x1f], &[0x68, 0xee], 640, 480);
    assert!(init_segment_readable(&init));
    assert_eq!(
        parse_cmaf_init_segment(&init),
        Ok((vec![0x67, 0x64, 0x00, 0x1f], vec![0x68, 0xee], 640, 480))
    );
}

#[test]
fn segment_without_avcc_is_refused() {
    assert_eq!(parse_cmaf_init_segment(&[]), Err(CmafError::AvccNotFound));
    let ftyp = [0, 0, 0, 8, 0x66, 0x74, 0x79, 0x70];
    assert!(init_segment_readable(&ftyp));
    assert_eq!(parse_cmaf_init_segment(&ftyp), Err(CmafError::AvccNotFound));
}

#[test]
fn media_segment_gives_back_its_nals() {
    let mut muxer = CmafMuxer::new(CmafConfig { fragment_duration_ms: 1000, timescale: 90000 });
    muxer.create_init_segment(&[0x67, 0x64, 0x00, 0x1f], &[0x68, 0xee], 640, 480);
    assert!(muxer.add_frame(&[slice(0x65, 9), slice(0x65, 3)], 0, 0, 3000, true).is_none());
    assert!(muxer.add_frame(&[slice(0x41, 5)], 3000, 3000, 3000, false).is_none());
    let segment = muxer.flush().unwrap();
    assert!(media_segment_readable(&segment));
    let nals = parse_cmaf_media_segment(&segment).unwrap();
    assert_eq!(nals, vec![slice(0x65, 9).data, slice(0x65, 3).data, slice(0x41, 5).data]);
    assert_eq!(muxer.pending_frame_count(), 0);
    assert_eq!(muxer.sequence_number(), 2);
    assert!(muxer.flush().is_none());
}

#[test]
fn segment_without_mdat_holds_no_nals() {
    assert_eq!(parse_cmaf_media_segment(&[]), Ok(vec![]));
    assert_eq!(parse_cmaf_media_segment(&[0, 0, 0, 8, 0x6D, 0x6F, 0x6F, 0x66]), Ok(vec![]));
}

#[test]
fn boxes_shorter_than_their_headers_are_not_readable() {
    assert!(!init_segment_readable(&[0, 0, 0, 4, 0x6D, 0x6F, 0x6F, 0x76]));
    assert!(!media_segment_readable(&[0, 0, 0, 4, 0x6D, 0x64, 0x61, 0x74]));
}

#[test]
fn keyframe_closes_a_full_fragment() {
    let mut muxer = CmafMuxer::new(CmafConfig { fragment_duration_ms: 33, timescale: 90000 });
    muxer.create_init_segment(&[0x67, 0x64, 0x00, 0x1f], &[0x68, 0xee], 640, 480);
    assert!(muxer.add_frame(&[slice(0x65, 4)], 0, 0, 3000, true).is_none());
    let segment = muxer.add_frame(&[slice(0x65, 6)], 3000, 3000, 3000, true).unwrap();
    assert_eq!(parse_cmaf_media_segment(&segment).unwrap(), vec![slice(0x65, 4).data]);
    assert_eq!(muxer.pending_frame_count(), 1);
}

#[test]
fn every_box_states_its_length() {
    let mut muxer = CmafMuxer::new(CmafConfig::default());
    let init = muxer.create_init_segment(&[0x67, 0x64, 0x00, 0x1f], &[0x68, 0xee], 640, 480);
    let mut at = 0;
    let mut kinds = Vec::new();
    while at < init.len() {
        let size = u32::from_be_bytes([init[at], init[at + 1], init[at + 2], init[at + 3]]);
        kinds.push(init[at + 4..at + 8].to_vec());
        at += size as usize;
    }
    assert_eq!(at, init.len());
    assert_eq!(kinds, vec![b"ftyp".to_vec(), b"moov".to_vec()]);
}

#[test]
fn movie_fragment_says_where_the_payload_starts() {
    let mut muxer = CmafMuxer::new(CmafConfig::default());
    muxer.create_init_segment(&[0x67, 0x64, 0x00, 0x1f], &[0x68, 0xee], 640, 480);
    muxer.add_frame(&[slice(0x65, 9)], 0, 0, 3000, true);
    let segment = muxer.flush().unwrap();
    let moof = segment.windows(4).position(|w| w == b"moof").unwrap() - 4;
    let trun = segment.windows(4).position(|w| w == b"trun").unwrap() - 4;
    let field = &segment[trun + 16..trun + 20];
    let offset = u32::from_be_bytes([field[0], field[1], field[2], field[3]]) as usize;
    assert_eq!(&segment[moof + offset..moof + offset + 4], &9u32.to_be_bytes());
    assert_eq!(segment[moof + offset + 4], 0x65);
}

#[test]
fn truncated_avcc_is_not_read() {
    assert!(parse_avcc_box(&[]).is_none());
}

#[test]
fn muxer_says_when_times_no_longer_fit() {
    let mut muxer = CmafMuxer::new(CmafConfig { fragment_duration_ms: 33, timescale: 90000 });
    assert!(muxer.has_room(i64::MAX, -1, true));
    muxer.create_init_segment(&[0x67, 0x64, 0, 0x1F], &[0x68], 640, 480);
    assert!(!muxer.has_room(i64::MAX, -1, true));
    assert!(muxer.has_room(i64::MAX, i64::MAX, true));
    muxer.add_frame(&[slice(0x65, 4)], 0, 0, 3000, true);
    assert!(muxer.has_room(90000, 90000, true));
    assert!(muxer.has_room(i64::MAX / 1000, i64::MAX / 1000, true));
    assert!(!muxer.has_room(i64::MAX / 1000 + 1, i64::MAX / 1000 + 1, false));
}
