use xoq::audio::{
    bytes_to_samples, samples_to_bytes, AudioConfig, AudioDevice, AudioError, AudioFrame, Playback,
    SampleFormat,
};
use xoq::audio_macos::{
    buffer_size, config_to_asbd, osstatus_description, AfterSetup, OutputFill, Setup, StreamFormat,
};
use xoq::audio_server::{
    keeps_draining, AudioServerBuilder, BackendPlan, DrainEvent, MicEvent, MicLink, MicStep,
    SpeakerEvent, SpeakerLink, SpeakerStep, Transport,
};

fn frame() -> AudioFrame {
    AudioFrame {
        data: vec![1, 2, 3, 4],
        frame_count: 2,
        timestamp_us: 0x1_0000_0005,
        config: AudioConfig { sample_rate: 48000, channels: 1, sample_format: SampleFormat::I16 },
    }
}

#[test]
fn sample_formats() {
    assert_eq!(SampleFormat::I16.bytes_per_sample(), 2);
    assert_eq!(SampleFormat::F32.bytes_per_sample(), 4);
    for format in [SampleFormat::I16, SampleFormat::F32] {
        assert_eq!(SampleFormat::from_wire(format.to_wire()), Ok(format));
    }
    assert_eq!(SampleFormat::from_wire(2), Err(AudioError::UnknownFormat { code: 2 }));
    assert_eq!(AudioConfig::default(), frame().config);
}

#[test]
fn header_reads_back() {
    let header = frame().encode_header();
    assert_eq!(
        header,
        [0x80, 0xBB, 0, 0, 1, 0, 0, 0, 2, 0, 0, 0, 5, 0, 0, 0, 1, 0, 0, 0, 4, 0, 0, 0]
    );
    assert_eq!(
        AudioFrame::decode_header(&header),
        Ok((frame().config, 2, 0x1_0000_0005, 4))
    );
    let mut bad = header;
    bad[6] = 9;
    assert_eq!(AudioFrame::decode_header(&bad), Err(AudioError::UnknownFormat { code: 9 }));
}

#[test]
fn relayed_frame_keeps_the_low_half_of_the_timestamp() {
    let bytes = frame().encode_moq();
    assert_eq!(bytes.len(), 24);
    assert!(AudioFrame::moq_complete(&bytes));
    let back = AudioFrame::decode_moq(&bytes).unwrap();
    assert_eq!((back.data, back.frame_count), (vec![1, 2, 3, 4], 2));
    assert_eq!((back.timestamp_us, back.config), (5, frame().config));
    assert!(!AudioFrame::moq_complete(&bytes[..23]));
    assert_eq!(
        AudioFrame::decode_moq(&bytes[..19]).unwrap_err(),
        AudioError::TooShort { len: 19 }
    );
    let mut bad = bytes.clone();
    bad[7] = 1;
    assert_eq!(
        AudioFrame::decode_moq(&bad).unwrap_err(),
        AudioError::UnknownFormat { code: 256 }
    );
}

#[test]
fn captured_frames_count_per_channel() {
    let config = AudioConfig { sample_rate: 8000, channels: 2, sample_format: SampleFormat::I16 };
    let frame = AudioFrame::captured(vec![0; 20], 10, 7, config);
    assert_eq!((frame.frame_count, frame.timestamp_us, frame.data.len()), (5, 7, 20));
}

#[test]
fn samples_travel_as_bytes() {
    let samples = [0i16, 1, -1, i16::MIN, i16::MAX];
    let bytes = samples_to_bytes(&samples);
    assert_eq!(bytes, vec![0, 0, 1, 0, 0xFF, 0xFF, 0, 0x80, 0xFF, 0x7F]);
    assert_eq!(bytes_to_samples(&bytes), samples.to_vec());
    assert_eq!(bytes_to_samples(&[1, 0, 9]), vec![1]);
}

#[test]
fn playback_is_silent_where_data_is_missing() {
    let mut playback = Playback::new();
    playback.push(&[1, 2, 3]);
    assert!(playback.wants(4));
    playback.push(&[4, 5]);
    assert_eq!(playback.take(4), Some(vec![1, 2, 3, 4]));
    assert_eq!(playback.take(4), None);
    assert!(playback.pending.is_empty());
}

#[test]
fn devices_are_named_and_found() {
    assert_eq!(AudioDevice::input_info(3, None).name, "Input 3");
    assert_eq!(AudioDevice::output_info(12, None).name, "Output 12");
    let info = AudioDevice::output_info(0, Some("USB".to_string()));
    assert_eq!((info.index, info.name.as_str()), (0, "USB"));
    let names = [None, Some("HDMI".to_string()), Some("USB Audio".to_string())];
    assert_eq!(AudioDevice::matching(&names, "Audio"), Some(2));
    assert_eq!(AudioDevice::matching(&names, ""), Some(1));
    assert_eq!(AudioDevice::matching(&names, "usb"), None);
}

#[test]
fn stream_format_of_a_configuration() {
    let config = AudioConfig { sample_rate: 48000, channels: 2, sample_format: SampleFormat::F32 };
    assert_eq!(
        config_to_asbd(&config),
        StreamFormat {
            sample_rate: 48000,
            format_id: 0x6C70_636D,
            format_flags: 9,
            bytes_per_packet: 8,
            frames_per_packet: 1,
            bytes_per_frame: 8,
            channels_per_frame: 2,
            bits_per_channel: 32,
        }
    );
    assert_eq!(config_to_asbd(&AudioConfig::default()).format_flags, 12);
    assert_eq!(buffer_size(100, &config), 800);
    assert_eq!(buffer_size(100, &AudioConfig::default()), 200);
}

#[test]
fn output_is_filled_up_with_silence() {
    let fill = OutputFill::new(5).with(&[1, 2]);
    assert!(fill.wants_more());
    assert_eq!(fill.finish(), vec![1, 2, 0, 0, 0]);
    let fill = OutputFill::new(3).with(&[1, 2]).with(&[3, 4]);
    assert!(!fill.wants_more());
    assert_eq!(fill.finish(), vec![1, 2, 3]);
}

#[test]
fn status_codes_in_words() {
    assert_eq!(osstatus_description(0), "noErr");
    assert_eq!(osstatus_description(-50), "OSStatus -50");
    assert_eq!(osstatus_description(0x666D_743F), "OSStatus 1718449215 ('fmt?')");
}

#[test]
fn setup_goes_through_its_steps() {
    let mut step = Setup::Create;
    let mut taken = 1;
    loop {
        match step.after(0) {
            AfterSetup::Go(next) => step = next,
            AfterSetup::Running => break,
            AfterSetup::Abort { .. } => unreachable!(),
        }
        taken += 1;
    }
    assert_eq!((taken, step), (8, Setup::Start));
    assert_eq!(Setup::MicrophoneFormat.property(), Some((8, 2, 1)));
    assert_eq!(Setup::Start.property(), None);
}

#[test]
fn failed_setup_is_undone() {
    match Setup::Create.after(-1) {
        AfterSetup::Abort { message, uninitialize, drop_state, dispose } => {
            assert_eq!(message, "AudioComponentInstanceNew failed: OSStatus -1");
            assert!(!uninitialize && !drop_state && !dispose);
        }
        other => panic!("{:?}", other),
    }
    match Setup::Start.after(-1) {
        AfterSetup::Abort { message, uninitialize, drop_state, dispose } => {
            assert_eq!(message, "AudioOutputUnitStart failed: OSStatus -1");
            assert!(uninitialize && drop_state && dispose);
        }
        other => panic!("{:?}", other),
    }
}

#[test]
fn server_builder_plans_its_devices() {
    let builder = AudioServerBuilder::new();
    assert_eq!(builder.config(), AudioConfig::default());
    assert_eq!(builder.backend(true), BackendPlan::VoiceProcessing);
    assert_eq!(
        builder.backend(false),
        BackendPlan::Separate { input: None, output: None, output_required: false }
    );
    let builder = builder.use_vpio(false).input_device(1).output_device(2).sample_rate(16000);
    let builder = builder.channels(2).sample_format(SampleFormat::F32).chunk_duration_ms(10);
    assert_eq!(
        builder.backend(true),
        BackendPlan::Separate { input: Some(1), output: Some(2), output_required: true }
    );
    assert_eq!(
        builder.config(),
        AudioConfig { sample_rate: 16000, channels: 2, sample_format: SampleFormat::F32 }
    );
    assert_eq!(builder.chunk_duration_ms, 10);
    let builder = builder.moq_with_relay("p", "https://r");
    assert!(matches!(&builder.transport, Transport::Moq { path, .. } if path == "p"));
}

#[test]
fn sent_frame_is_played() {
    let mut link = SpeakerLink::Header;
    match link.step(SpeakerEvent::Header(frame().encode_header())) {
        SpeakerStep::ReadData(n) => assert_eq!(n, 4),
        other => panic!("{:?}", other),
    }
    match link.step(SpeakerEvent::Data(frame().data)) {
        SpeakerStep::Play(played) => {
            assert_eq!((played.data, played.timestamp_us), (frame().data, 0x1_0000_0005));
        }
        other => panic!("{:?}", other),
    }
    assert_eq!(link, SpeakerLink::Header);
    assert!(matches!(link.step(SpeakerEvent::ReadFailed), SpeakerStep::Finish));
    let mut bad = frame().encode_header();
    bad[6] = 7;
    assert!(matches!(
        link.step(SpeakerEvent::Header(bad)),
        SpeakerStep::BadHeader(AudioError::UnknownFormat { code: 7 })
    ));
    link.step(SpeakerEvent::Header(frame().encode_header()));
    assert!(matches!(link.step(SpeakerEvent::ReadFailed), SpeakerStep::DataMissing));
    assert!(matches!(link.step(SpeakerEvent::Cancelled), SpeakerStep::Finish));
}

#[test]
fn captured_frame_is_sent_as_header_and_data() {
    let (link, step) = MicLink::Idle.step(MicEvent::Captured(frame()));
    assert!(matches!(step, MicStep::Send(bytes) if bytes == frame().encode_header()));
    let (link, step) = link.step(MicEvent::Sent);
    assert!(matches!(step, MicStep::Send(bytes) if bytes == vec![1, 2, 3, 4]));
    let (link, step) = link.step(MicEvent::Sent);
    assert!(matches!(step, MicStep::Wait));
    assert!(matches!(link.step(MicEvent::Closed).1, MicStep::End));
}

#[test]
fn draining_ends_with_the_stream() {
    assert!(keeps_draining(DrainEvent::Read(1)));
    assert!(!keeps_draining(DrainEvent::Read(0)));
    assert!(!keeps_draining(DrainEvent::Ended));
    assert!(!keeps_draining(DrainEvent::Cancelled));
}
