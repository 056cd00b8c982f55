use xoq::av1_decoder::{is_high_bitdepth, p010_y_to_depth_mm};
use xoq::dav1d_decoder::{bits_per_component, extract_y_plane_10bit};
use xoq::nvdec_av1_decoder::{
    assumed_bit_depth, extract_p016_y_plane, p016_y_to_depth_mm, sequence_bit_depth, surface_count,
    surface_size,
};
use xoq::nvenc_av1::{
    buffer_size, grey_to_nv12, load, yuyv_to_nv12, EncoderSettings, PictureClock, Preset,
    RateControl,
};
use xoq::realsense_client::{
    av1_readable, extract_av1_from_cmaf, find_intrinsics_in, find_number, parse_stamped_data,
    AfterFailure, ReadPolicy,
};
use xoq::realsense_server::{depth_to_p010, DEPTH_SHIFT};

#[test]
fn depth_reads_back_from_its_picture() {
    let depth = [100u16, 0, 1023, 5000, 0, 7, 0, 0];
    let mut picture = vec![9; 3];
    depth_to_p010(&depth, &mut picture, 4, 2);
    assert_eq!(picture.len(), 4 * 2 * 2 + 4 * 2);
    let read = p010_y_to_depth_mm(&picture[..16], DEPTH_SHIFT);
    assert_eq!(read, vec![100, 100, 1023, 1023, 7, 7, 7, 7]);
    assert_eq!(&picture[16..], &[0, 0x80, 0, 0x80, 0, 0x80, 0, 0x80]);
}

#[test]
fn rows_without_a_measurement_are_filled_from_their_neighbours() {
    let depth = [0u16, 0, 5, 6, 0, 0];
    let mut picture = Vec::new();
    depth_to_p010(&depth, &mut picture, 2, 3);
    assert_eq!(p010_y_to_depth_mm(&picture[..12], 0), vec![5, 6, 5, 6, 5, 6]);
}

#[test]
fn gaps_are_filled_from_the_nearest_valid_pixel() {
    let mut picture = Vec::new();
    depth_to_p010(&[10, 0, 0, 20], &mut picture, 4, 1);
    assert_eq!(picture, vec![0x80, 0x02, 0x80, 0x02, 0x00, 0x05, 0x00, 0x05]);
    depth_to_p010(&[10, 0, 20], &mut picture, 3, 1);
    assert_eq!(p010_y_to_depth_mm(&picture, 0), vec![10, 10, 20]);
    depth_to_p010(&[0, 0, 7, 0, 0, 0, 0, 9], &mut picture, 8, 1);
    assert_eq!(p010_y_to_depth_mm(&picture, 0), vec![7, 7, 7, 7, 7, 9, 9, 9]);
    depth_to_p010(&[3, 0, 0, 4], &mut picture, 1, 4);
    assert_eq!(p010_y_to_depth_mm(&picture[..8], 0), vec![3, 3, 4, 4]);
    depth_to_p010(&[0, 0, 0, 0], &mut picture, 2, 2);
    assert_eq!(p010_y_to_depth_mm(&picture[..8], 0), vec![0, 0, 0, 0]);
}

#[test]
fn depth_is_shifted() {
    assert_eq!(p010_y_to_depth_mm(&[0x40, 0x00, 0xFF, 0xFF, 9], 2), vec![4, 4092]);
    assert_eq!(p016_y_to_depth_mm(&[0x40, 0x00], 31), vec![0]);
    assert_eq!(xoq::dav1d_decoder::p010_y_to_depth_mm(&[0x80, 0x00], 1), vec![4]);
    assert!(is_high_bitdepth(10) && !is_high_bitdepth(8));
}

#[test]
fn native_samples_are_aligned() {
    let plane = [1, 0, 0xFF, 3, 0, 0, 2, 0, 3, 0];
    assert_eq!(
        extract_y_plane_10bit(&plane, 2, 2, 6),
        vec![0x40, 0, 0xC0, 0xFF, 0x80, 0, 0xC0, 0]
    );
    assert_eq!(extract_y_plane_10bit(&plane[..7], 2, 2, 6), vec![0x40, 0, 0xC0, 0xFF]);
    assert_eq!((bits_per_component(8), bits_per_component(10), bits_per_component(12)), (8, 10, 10));
}

#[test]
fn decoder_surfaces() {
    assert_eq!((assumed_bit_depth(true), assumed_bit_depth(false)), (10, 8));
    assert_eq!((sequence_bit_depth(8, 2), sequence_bit_depth(10, 0)), (10, 10));
    assert_eq!((surface_count(3), surface_count(20)), (8, 20));
    assert_eq!((surface_size(4, 3, 8), surface_size(4, 3, 10)), (16, 32));
    assert_eq!(extract_p016_y_plane(&[1, 2, 3, 4, 5, 6, 7], 1, 2), vec![1, 2, 3, 4]);
    assert_eq!(extract_p016_y_plane(&[1, 2, 3], 1, 2), vec![1, 2]);
}

#[test]
fn encoder_settings() {
    assert_eq!(
        EncoderSettings::new(30, true, RateControl::Bitrate(3000)),
        EncoderSettings {
            preset: Preset::P4UltraLowLatency,
            gop_length: 30,
            rate: RateControl::Bitrate(3000),
            vbv_buffer_size: Some(100),
            bit_depth_minus8: 2,
        }
    );
    let quality = EncoderSettings::new(15, false, RateControl::ConstQP(20));
    assert_eq!((quality.preset, quality.vbv_buffer_size), (Preset::P7HighQuality, None));
    assert_eq!((buffer_size(4, 2, false), buffer_size(4, 2, true)), (12, 24));
}

#[test]
fn one_whole_picture_each_second() {
    let mut clock = PictureClock::new(3);
    let whole: Vec<bool> = (0..5).map(|_| clock.next_is_idr()).collect();
    assert_eq!(whole, vec![true, false, false, true, false]);
    clock.reset();
    assert!(clock.next_is_idr());
}

#[test]
fn frames_for_the_encoder() {
    let mut buffer = vec![1, 2, 3, 4];
    load(&mut buffer, &[9, 8]);
    assert_eq!(buffer, vec![9, 8, 3, 4]);
    let yuyv = [10, 50, 11, 60, 12, 51, 13, 61];
    assert_eq!(yuyv_to_nv12(&yuyv, 2, 2), vec![10, 11, 12, 13, 50, 60]);
    assert_eq!(yuyv_to_nv12(&yuyv[..2], 2, 2), vec![10, 0, 0, 0, 50, 128]);
    assert!(yuyv_to_nv12(&yuyv, 0, 3).is_empty() && yuyv_to_nv12(&yuyv, 5, 0).is_empty());
    assert_eq!(grey_to_nv12(&[1, 2, 3, 4, 5], 2, 2), vec![1, 2, 3, 4, 128, 128]);
}

#[test]
fn stamped_frames() {
    assert_eq!(parse_stamped_data(&[1, 0, 0, 0, 0, 0, 0, 1, 9]), ((1 << 56) + 1, &[9u8][..]));
    assert_eq!(parse_stamped_data(&[1, 2]), (0, &[1u8, 2][..]));
}

#[test]
fn av1_data_is_taken_from_all_mdat_boxes() {
    let mut data = vec![0, 0, 0, 9, 0x66, 0x74, 0x79, 0x70, 7];
    data.extend_from_slice(&[0, 0, 0, 10, 0x6D, 0x64, 0x61, 0x74, 1, 2]);
    data.extend_from_slice(&[0, 0, 0, 9, 0x6D, 0x64, 0x61, 0x74, 3]);
    assert!(av1_readable(&data));
    assert_eq!(extract_av1_from_cmaf(&data), vec![1, 2, 3]);
    assert_eq!(extract_av1_from_cmaf(&data[..27]), vec![1, 2]);
    assert!(!av1_readable(&[0, 0, 0, 4, 0x6D, 0x64, 0x61, 0x74]));
}

#[test]
fn numbers_are_cut_out_of_json() {
    let json = "{\"fx\": 610.5, \"fy\":6}";
    assert_eq!(find_number(json, "fx").as_deref(), Some("610.5"));
    assert_eq!(find_number(json, "fy").as_deref(), Some("6"));
    assert_eq!(find_number(json, "cx"), None);
}

#[test]
fn intrinsics_are_read_from_the_bytes_of_the_metadata() {
    let json = "{\"fx\": 1.5, \"fy\": 2, \"ppx\": 3, \"ppy\": 4, \"width\": 640, \"height\": 480, \"depth_shift\": 1}";
    let found = find_intrinsics_in(json.as_bytes()).unwrap();
    assert_eq!((found.fx.as_str(), found.ppy.as_str()), ("1.5", "4"));
    assert_eq!((found.width.as_str(), found.height.as_str()), ("640", "480"));
    assert_eq!(found.depth_shift.as_deref(), Some("1"));
    let mut broken = json.as_bytes().to_vec();
    broken.push(0xFF);
    assert!(find_intrinsics_in(&broken).is_none());
    assert!(find_intrinsics_in(b"{\"fx\": 1.5}").is_none());
}

#[test]
fn failed_read_is_tried_again_only_at_the_start() {
    let mut policy = ReadPolicy::new();
    assert_eq!(policy.failed(), AfterFailure::Reconnect);
    policy.succeeded();
    assert_eq!(policy.failed(), AfterFailure::Fail);
}
