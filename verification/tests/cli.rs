use xoq::audio::SampleFormat;
use xoq::audio_server::Transport;
use xoq::cli::camera::{encoder_name, encoding_name, mode, H264Encoder, Mode};
use xoq::cli::fake::Program;
use xoq::cli::{audio, camera, can, fake, realsense, serial};

fn args(words: &[&str]) -> Vec<String> {
    let mut all = vec!["program".to_string()];
    all.extend(words.iter().map(|a| a.to_string()));
    all
}

#[test]
fn audio_options() {
    assert!(matches!(audio::parse_args(&args(&["--list"]), false), Ok(audio::Request::List)));
    assert!(matches!(audio::parse_args(&args(&["-h"]), false), Ok(audio::Request::Help)));
    let words = [
        "--input", "1", "--output", "2", "--sample-rate", "16000", "--channels", "2", "--format",
        "f32", "--no-vpio",
    ];
    match audio::parse_args(&args(&words), true) {
        Ok(audio::Request::Serve(b)) => {
            assert_eq!((b.input_device, b.output_device), (Some(1), Some(2)));
            assert_eq!((b.sample_rate, b.channels), (16000, 2));
            assert_eq!((b.sample_format, b.use_vpio), (SampleFormat::F32, false));
            assert!(matches!(
                &b.transport,
                Transport::Iroh { identity_path: Some(p) } if p == ".xoq_audio_server_key"
            ));
        }
        other => panic!("{:?}", other),
    }
    match audio::parse_args(&args(&["--no-vpio", "--moq", "p"]), false) {
        Ok(audio::Request::Serve(b)) => {
            assert!(b.use_vpio);
            assert!(matches!(&b.transport, Transport::Moq { path, .. } if path == "p"));
        }
        other => panic!("{:?}", other),
    }
}

#[test]
fn audio_options_that_make_no_sense() {
    match audio::parse_args(&args(&["--channels", "65536"]), false) {
        Err(audio::ArgsError::InvalidNumber { option, value }) => {
            assert_eq!((option.as_str(), value.as_str()), ("--channels", "65536"));
        }
        other => panic!("{:?}", other),
    }
    assert!(matches!(
        audio::parse_args(&args(&["--format", "u8"]), false),
        Err(audio::ArgsError::UnknownFormat { format }) if format == "u8"
    ));
}

#[test]
fn camera_options() {
    assert!(matches!(camera::parse_args(&args(&[])), camera::Request::Usage));
    assert!(matches!(camera::parse_args(&args(&["--h264"])), camera::Request::Usage));
    assert!(matches!(camera::parse_args(&args(&["0", "--list"])), camera::Request::List));
    let words = ["0", "--moq", "2", "--width", "x", "--quality", "300", "--fps", "15", "--nvenc"];
    match camera::parse_args(&args(&words)) {
        camera::Request::Serve(a) => {
            assert_eq!(a.indices, vec![0, 2]);
            assert_eq!((a.width, a.height, a.fps, a.quality), (640, 480, 15, 80));
            assert!(a.use_h264 && !a.insecure);
            assert_eq!(a.path_for(2).as_deref(), Some("anon/camera-2"));
        }
        other => panic!("{:?}", other),
    }
    match camera::parse_args(&args(&["1", "--moq", "anon/x", "--insecure"])) {
        camera::Request::Serve(a) => {
            assert_eq!(a.path_for(1).as_deref(), Some("anon/x"));
            assert!(a.insecure);
        }
        other => panic!("{:?}", other),
    }
    match camera::parse_args(&args(&["1"])) {
        camera::Request::Serve(a) => assert_eq!(a.path_for(1), None),
        other => panic!("{:?}", other),
    }
}

#[test]
fn camera_names() {
    assert_eq!(camera::Args::camera_name(3), "Camera 3");
    assert_eq!(camera::make_key_name(3, None), ".xoq_camera_key_idx3");
    assert_eq!(
        camera::make_key_name(3, Some("pci-0000:00:14.0-usb")),
        ".xoq_camera_key_pci-0000-00-14_0-usb"
    );
    assert_eq!(
        camera::find_usb_path("DEVNAME=/dev/video0\nID_PATH=usb:1\r\nID_PATH=b\n").as_deref(),
        Some("usb:1")
    );
    assert_eq!(camera::find_usb_path("X_ID_PATH=1"), None);
    assert_eq!(mode(true, true), Mode::MoqH264);
    assert_eq!(mode(false, false), Mode::Jpeg);
    assert_eq!(encoding_name(mode(true, false), H264Encoder::Absent), "JPEG (MoQ relay)");
    assert_eq!(encoding_name(mode(false, true), H264Encoder::Nvenc), "H.264 (NVENC)");
    assert_eq!(encoder_name(H264Encoder::VideoToolbox), "H.264 (VideoToolbox)");
}

#[test]
fn can_options() {
    let (list, dir) = can::parse_args(&args(&["can0:fd", "--fd", "can1", "--key-dir", "/k"])).unwrap();
    let names: Vec<(&str, bool)> =
        list.iter().map(|c| (c.interface.as_str(), c.enable_fd)).collect();
    assert_eq!(names, vec![("can0", true), ("can1", false)]);
    assert_eq!(dir, "/k");
    assert_eq!(list[0].key_name(), ".xoq_can_server_key_can0");
    assert!(can::parse_args(&args(&[])).is_none());
    assert!(can::parse_args(&args(&["can0", "--key-dir"])).is_none());
}

#[test]
fn fake_server_options() {
    let a = fake::parse_args(Program::Can, &args(&["--arm", "right", "--gravity"])).unwrap();
    assert!(a.right_arm() && a.gravity);
    assert!(a.moq_config(Program::Can).is_none());
    assert_eq!(a.identity_path(Program::Can), "./.xoq_fake_can_server_key_anon_xoq-can-can0");
    let words = ["--moq-relay", "https://r", "--moq-path", "a/b.c!é", "--moq-insecure"];
    let a = fake::parse_args(Program::Can, &args(&words)).unwrap();
    assert_eq!(a.identity_path(Program::Can), "./.xoq_fake_can_server_key_a_bcé");
    let config = a.moq_config(Program::Serial).unwrap();
    assert_eq!(config.state_path(), "a/b.c!é/s2c");
    assert_eq!(config.command_path(), "a/b.c!é/c2s");
    assert!(config.insecure);
    let a = fake::parse_args(Program::Serial, &args(&["--gravity", "--key-dir", "/k"])).unwrap();
    assert!(!a.gravity);
    assert_eq!(a.identity_path(Program::Serial), "/k/.xoq_fake_serial_server_key");
    assert!(fake::parse_args(Program::Can, &args(&["--help"])).is_none());
}

#[test]
fn realsense_options() {
    let a = realsense::parse_args(&args(&[])).unwrap();
    assert_eq!((a.relay.as_str(), a.path.as_str()), ("https://cdn.moq.dev", "anon/realsense"));
    assert_eq!((a.color_bitrate, a.depth_bitrate, a.insecure), (4_000_000, 4_000_000, false));
    let words = ["--relay", "https://r", "--bitrate", "x", "--depth-bitrate", "x", "--serial", "7"];
    let a = realsense::parse_args(&args(&words)).unwrap();
    assert!(a.insecure);
    assert_eq!((a.color_bitrate, a.depth_bitrate), (2_000_000, 1_000_000));
    assert_eq!(a.serial.as_deref(), Some("7"));
    assert!(realsense::parse_args(&args(&["-h"])).is_none());
}

#[test]
fn serial_options() {
    let words = ["/dev/tty0", "x", "9600", "--moq", "p", "--moq-relay", "https://r"];
    let a = serial::parse_args(&args(&words)).unwrap();
    assert_eq!((a.port.as_str(), a.baud_rate), ("/dev/tty0", 9600));
    assert_eq!(a.moq_relay.as_deref(), Some("https://r"));
    assert!(serial::parse_args(&args(&[])).is_none());
    assert!(serial::parse_args(&args(&["/dev/tty0", "--moq-path"])).is_none());
    let a = serial::parse_relay_args(&args(&["/dev/tty0"])).unwrap();
    assert_eq!((a.baud_rate, a.relay_url.as_str()), (1_000_000, "https://172.18.133.111:4443"));
    assert_eq!(a.moq_path, "anon/xoq-serial");
    let a = serial::parse_relay_args(&args(&["/dev/tty0", "9600", "r", "p"])).unwrap();
    assert_eq!((a.baud_rate, a.relay_url.as_str(), a.moq_path.as_str()), (9600, "r", "p"));
    assert!(serial::parse_relay_args(&args(&[])).is_none());
}
