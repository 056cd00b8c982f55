use xoq::camera::{
    camera_name, device_index, device_path, device_supports_resolution, grey_to_rgb, mjpeg_to_rgb,
    sort_by_index, CameraInfo, CameraOptions, Capture, CaptureFormat, FormatAttempt, FrameSize,
    RawFormat,
};
use xoq::camera_macos::{bgra_to_rgb, extract_packed_bgra, preset_for};
use xoq::camera_server::{
    accept_step, frame_message, frame_time_us, restart_after_ms, wants_frame, AcceptEvent,
    AcceptStep, CmafFeed, EncoderInput, Encoding, RawCapture,
};
use xoq::cmaf::demux::{parse_cmaf_init_segment, parse_cmaf_media_segment};
use xoq::cmaf::{parse_annex_b, ParsedFrame};
use xoq::frame::jpeg_header::{has_decodable_header, LONGEST_SIDE};
use xoq::frame::{Frame, FrameError};
use xoq::opencv::FrameHeader;

#[test]
fn jpeg_keeps_size_and_colour() {
    let frame = Frame::new(16, 8, [200u8, 100, 50].repeat(16 * 8));
    assert_eq!(frame.timestamp_us, 0);
    let file = frame.to_jpeg(90).unwrap();
    assert_eq!(&file[..2], &[0xFF, 0xD8]);
    assert_eq!(&file[file.len() - 2..], &[0xFF, 0xD9]);
    let back = Frame::from_jpeg(&file).unwrap();
    assert_eq!((back.width, back.height, back.data.len()), (16, 8, 384));
    assert!(back.data.iter().zip(&frame.data).all(|(a, b)| a.abs_diff(*b) <= 4));
    assert_eq!(mjpeg_to_rgb(&file).unwrap(), back.data);
}

#[test]
fn quality_changes_the_file() {
    let data: Vec<u8> = (0..32 * 32 * 3).map(|i| (i * 37 % 251) as u8).collect();
    let frame = Frame::new(32, 32, data);
    assert!(frame.to_jpeg(10).unwrap().len() < frame.to_jpeg(95).unwrap().len());
}

#[test]
fn frames_that_cannot_be_converted() {
    assert_eq!(Frame::new(2, 2, vec![0; 11]).to_jpeg(80), Err(FrameError::DataTooShort));
    assert_eq!(Frame::new(0, 2, vec![]).to_jpeg(80), Err(FrameError::NotEncodable));
    assert_eq!(Frame::from_jpeg(&[1, 2, 3]).unwrap_err(), FrameError::NotDecodable);
    assert_eq!(mjpeg_to_rgb(&[]), Err(FrameError::NotDecodable));
}

/// A file of one colour and where the marker of its frame header stands.
fn plain_file() -> (Vec<u8>, usize) {
    let file = Frame::new(16, 8, [200u8, 100, 50].repeat(16 * 8)).to_jpeg(90).unwrap();
    let at = file.windows(2).position(|pair| pair == [0xFF, 0xC0]).unwrap() + 1;
    (file, at)
}

#[test]
fn frame_headers_announce_the_picture() {
    let (file, at) = plain_file();
    assert_eq!(&file[at + 3..at + 8], &[8, 0, 8, 0, 16]);
    assert!(has_decodable_header(&file));
    for side in [at + 4, at + 6] {
        let mut long = file.clone();
        long[side..side + 2].copy_from_slice(&LONGEST_SIDE.to_be_bytes());
        assert!(has_decodable_header(&long));
        long[side..side + 2].copy_from_slice(&(LONGEST_SIDE + 1).to_be_bytes());
        assert!(!has_decodable_header(&long));
        assert_eq!(Frame::from_jpeg(&long).unwrap_err(), FrameError::NotDecodable);
        assert_eq!(mjpeg_to_rgb(&long), Err(FrameError::NotDecodable));
    }
    let mut lossless = file.clone();
    lossless[at] = 0xC3;
    assert!(!has_decodable_header(&lossless));
    assert_eq!(Frame::from_jpeg(&lossless).unwrap_err(), FrameError::NotDecodable);
    for len in [0, 1, 2, at, at + 1, at + 7] {
        assert!(has_decodable_header(&file[..len]));
        assert_eq!(Frame::from_jpeg(&file[..len]).unwrap_err(), FrameError::NotDecodable);
    }
}

#[test]
fn frame_headers_stand_behind_whole_segments() {
    let (file, _) = plain_file();
    let header = [0xFF, 0xC3, 0, 11, 8, 0xFF, 0xFF, 0xFF, 0xFF, 1];
    let mut commented = vec![0xFF, 0xD8, 0xFF, 0xFE, 0, 12];
    commented.extend(header);
    commented.extend(&file[2..]);
    assert!(has_decodable_header(&commented));
    let (plain, inner) = (Frame::from_jpeg(&file).unwrap(), Frame::from_jpeg(&commented).unwrap());
    assert_eq!(inner.data, plain.data);
    let mut bare = vec![0xFF, 0xD8, 1, 0xFF, 0, 0xFF];
    bare.extend(header);
    assert!(!has_decodable_header(&bare));
    assert!(has_decodable_header(&[0xFF, 0xD8, 0xFF, 0xFE, 0, 1, 0xFF, 0xC3, 0, 11, 8, 9, 9, 9, 9, 9]));
}

#[test]
fn resolutions_that_a_camera_supports() {
    let sizes = [
        FrameSize::Discrete { width: 640, height: 480 },
        FrameSize::Stepwise {
            min_width: 100,
            max_width: 200,
            step_width: 50,
            min_height: 10,
            max_height: 20,
            step_height: 0,
        },
    ];
    assert!(device_supports_resolution(Some(&sizes), 640, 480));
    assert!(device_supports_resolution(Some(&sizes), 150, 17));
    assert!(!device_supports_resolution(Some(&sizes), 151, 17));
    assert!(!device_supports_resolution(Some(&sizes), 150, 21));
    assert!(device_supports_resolution(Some(&[]), 1, 1));
    assert!(device_supports_resolution(None, 1, 1));
}

#[test]
fn formats_are_tried_in_order() {
    assert!(!CameraOptions::default().prefer_yuyv);
    let first = FormatAttempt::first(true, true);
    assert_eq!(first, FormatAttempt::PreferredYuyv);
    assert_eq!(first.after(true, true, Some(*b"YUYV")), Ok(CaptureFormat::Yuyv));
    assert_eq!(first.after(true, true, Some(*b"MJPG")), Err(FormatAttempt::Mjpeg));
    assert_eq!(FormatAttempt::first(true, false), FormatAttempt::Mjpeg);
    let mjpeg = FormatAttempt::first(false, true);
    assert_eq!(mjpeg.after(false, true, Some(*b"MJPG")), Ok(CaptureFormat::Mjpeg));
    assert_eq!(mjpeg.after(false, true, None), Err(FormatAttempt::LastYuyv));
    assert_eq!(mjpeg.after(true, true, None), Err(FormatAttempt::Current));
    let last = FormatAttempt::LastYuyv;
    assert_eq!(last.after(false, true, Some(*b"GREY")), Err(FormatAttempt::Current));
    for code in [*b"GREY", *b"Y8  ", *b"Y800"] {
        assert_eq!(
            FormatAttempt::Current.after(false, false, Some(code)),
            Ok(CaptureFormat::Grey)
        );
    }
    assert_eq!(
        FormatAttempt::Current.after(false, false, Some(*b"H264")),
        Ok(CaptureFormat::Mjpeg)
    );
}

#[test]
fn short_yuyv_frames_are_mjpeg() {
    let mut capture = Capture { width: 4, height: 2, format: CaptureFormat::Yuyv };
    assert!(capture.is_yuyv());
    assert_eq!(capture.format_name(), "YUYV");
    assert_eq!(capture.classify(16), RawFormat::Yuyv);
    assert_eq!(capture.classify(15), RawFormat::Mjpeg);
    assert_eq!(capture.format_name(), "MJPEG");
    assert_eq!(capture.classify(16), RawFormat::Mjpeg);
    let mut grey = Capture { width: 4, height: 2, format: CaptureFormat::Grey };
    assert!(grey.is_grey());
    assert_eq!((grey.classify(1), grey.format_name()), (RawFormat::Grey, "GREY"));
}

#[test]
fn pixels_are_converted() {
    assert_eq!(grey_to_rgb(&[1, 2, 9], 2, 1), vec![1, 1, 1, 2, 2, 2]);
    let bgra = [1, 2, 3, 4, 5, 6, 7, 8, 0, 0, 11, 12, 13, 14, 15, 16, 17, 18, 0, 0];
    assert_eq!(bgra_to_rgb(&bgra, 2, 2, 10), vec![3, 2, 1, 7, 6, 5, 13, 12, 11, 17, 16, 15]);
    assert_eq!(
        extract_packed_bgra(&bgra, 2, 2, 10),
        vec![1, 2, 3, 4, 5, 6, 7, 8, 11, 12, 13, 14, 15, 16, 17, 18]
    );
    assert_eq!(preset_for(1920, 1080), ("AVCaptureSessionPreset1920x1080", 1920, 1080));
    assert_eq!(preset_for(1920, 720), ("AVCaptureSessionPreset1280x720", 1280, 720));
    assert_eq!(preset_for(1, 1), ("AVCaptureSessionPreset640x480", 640, 480));
}

#[test]
fn device_files_and_names() {
    assert_eq!(device_index("video12"), Some(12));
    assert_eq!(device_index("video"), None);
    assert_eq!(device_index("video+3"), Some(3));
    assert_eq!(device_index("vide0"), None);
    assert_eq!(device_index("video4294967296"), None);
    assert_eq!(device_path(7), "/dev/video7");
    assert_eq!(camera_name(2, None), "Camera 2");
    assert_eq!(camera_name(2, Some("C920".to_string())), "C920");
}

#[test]
fn cameras_are_sorted_by_index() {
    let camera = |index: u32, name: &str| CameraInfo {
        index,
        name: name.to_string(),
        path: device_path(index),
    };
    let sorted = sort_by_index(vec![camera(2, "a"), camera(0, "b"), camera(2, "c"), camera(1, "d")]);
    let order: Vec<(u32, &str)> = sorted.iter().map(|c| (c.index, c.name.as_str())).collect();
    assert_eq!(order, vec![(0, "b"), (1, "d"), (2, "a"), (2, "c")]);
}

#[test]
fn server_rules() {
    let mut encoding = Encoding::new();
    assert_eq!(encoding.jpeg_quality, 80);
    encoding.set_quality(0);
    assert_eq!(encoding.jpeg_quality, 1);
    encoding.set_quality(101);
    assert_eq!(encoding.jpeg_quality, 100);
    encoding.set_quality(55);
    assert_eq!(encoding.jpeg_quality, 55);
    assert!(wants_frame(Some(1)) && !wants_frame(Some(0)) && !wants_frame(None));
    assert_eq!(frame_time_us(3, 30), 100_000);
    assert_eq!(accept_step(AcceptEvent::Client), AcceptStep::Stream);
    assert_eq!(accept_step(AcceptEvent::Failed), AcceptStep::Wait);
    assert_eq!(accept_step(AcceptEvent::Closed), AcceptStep::Stop);
    assert_eq!(restart_after_ms(true), Some(5000));
    assert_eq!(restart_after_ms(false), None);
    let mut raw = RawCapture::new(true, false);
    assert_eq!(raw.input(RawFormat::Yuyv), EncoderInput::Yuyv);
    assert!(raw.enabled);
    assert_eq!(raw.input(RawFormat::Mjpeg), EncoderInput::Rgb);
    assert!(!raw.enabled);
    assert!(!RawCapture::new(false, false).enabled);
}

#[test]
fn frame_message_is_header_and_data() {
    let message = frame_message(640, 480, 7, &[9, 8]);
    assert_eq!(
        FrameHeader::decode(&message),
        FrameHeader { width: 640, height: 480, timestamp_us: 7, length: 2 }
    );
    assert_eq!(&message[20..], &[9, 8]);
}

fn picture(nals: &[&[u8]]) -> ParsedFrame {
    let mut stream = Vec::new();
    for nal in nals {
        stream.extend_from_slice(&[0, 0, 0, 1]);
        stream.extend_from_slice(nal);
    }
    parse_annex_b(&stream)
}

#[test]
fn feed_sends_the_init_segment_with_keyframes() {
    let mut feed = CmafFeed::new(640, 480, 30);
    assert!(feed.push(&picture(&[&[0x41, 1]])).is_empty());
    let key = picture(&[&[0x67, 0x64, 0, 0x1F], &[0x68, 0xEE], &[0x65, 1]]);
    let first = feed.push(&key);
    assert_eq!(first.len(), 1);
    assert_eq!(
        parse_cmaf_init_segment(&first[0]),
        Ok((vec![0x67, 0x64, 0, 0x1F], vec![0x68, 0xEE], 640, 480))
    );
    let mut sent = Vec::new();
    for _ in 0..4 {
        for message in feed.push(&key) {
            sent.push(message);
        }
    }
    assert!(!sent.is_empty());
    for message in &sent {
        assert!(message.starts_with(&first[0]));
        assert_eq!(parse_cmaf_media_segment(message).unwrap()[0], vec![0x65, 1]);
    }
    assert_eq!(feed.frame_count(), 6);
    assert!(feed.has_room(&key));
}
