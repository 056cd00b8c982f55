use xoq::cmaf::{CmafConfig, CmafMuxer, NalUnit};
use xoq::recorder::fragments::{SampleEntry, SourceTracks, TimestampedCanBatch, TrackIds};
use xoq::recorder::session::{
    camera_track, can_track, init_step, Channel, InitInfo, InitStep, MediaSegment, Progress,
    RecordEvent, Recording,
};

fn recording(can: u32) -> Recording {
    Recording::new(
        vec![SourceTracks { video: true, depth: true }],
        vec![TrackIds { video: 1, depth: 2 }],
        can,
        1000,
    )
}

fn can_batch(timestamp_ms: u64, data: &[u8]) -> RecordEvent {
    RecordEvent::Can(TimestampedCanBatch { timestamp_ms, data: data.to_vec() })
}

fn media(channel: Channel, data: &[u8]) -> RecordEvent {
    let sample = SampleEntry {
        duration: 3000,
        size: data.len() as u32,
        flags: 0,
        composition_offset: 0,
    };
    let segment =
        MediaSegment { base_decode_time: 90, samples: vec![sample], data: data.to_vec() };
    RecordEvent::Media { source: 0, channel, segment: Some(segment) }
}

#[test]
fn can_frames_are_written_with_the_next_media() {
    let mut session = recording(3);
    assert!(session.step(can_batch(1010, &[1, 2])).is_empty());
    assert!(session.step(can_batch(1030, &[3])).is_empty());
    let written = session.step(media(Channel::Depth, &[9]));
    let ids: Vec<(u32, Vec<u8>)> =
        written.iter().map(|f| (f.track_id, f.data.clone())).collect();
    assert_eq!(ids, vec![(2, vec![9]), (3, vec![1, 2, 3])]);
    assert_eq!((written[0].base_decode_time, written[1].base_decode_time), (90, 10));
    assert_eq!(written[1].samples[1].duration, 20);
    let written = session.step(media(Channel::Video, &[8]));
    assert_eq!(written.len(), 1);
    assert_eq!(written[0].track_id, 1);
}

#[test]
fn all_can_data_reaches_the_file() {
    let mut session = recording(3);
    let mut events: Vec<RecordEvent> = (0..7u8).map(|i| can_batch(1000 + i as u64, &[i])).collect();
    events.insert(5, media(Channel::Video, &[0xAA]));
    events.insert(2, media(Channel::Depth, &[0xBB]));
    events.push(RecordEvent::Stopped);
    let mut data = Vec::new();
    for event in events {
        for fragment in session.step(event) {
            if fragment.track_id == 3 {
                data.extend_from_slice(&fragment.data);
            }
        }
    }
    assert_eq!(data, vec![0, 1, 2, 3, 4, 5, 6]);
}

#[test]
fn segments_that_cannot_be_read_are_passed_over() {
    let mut session = recording(3);
    session.step(can_batch(1010, &[1]));
    let event = RecordEvent::Media { source: 0, channel: Channel::Video, segment: None };
    assert!(session.step(event).is_empty());
    assert_eq!(session.step(RecordEvent::Stopped).len(), 1);
    assert!(session.step(RecordEvent::Stopped).is_empty());
}

#[test]
fn recording_is_over_when_all_tracks_have_ended() {
    let mut session = recording(0);
    assert!(!session.is_over(0));
    session.step(RecordEvent::Ended { source: 0, channel: Channel::Video });
    assert!(!session.is_over(0));
    session.step(RecordEvent::Ended { source: 0, channel: Channel::Depth });
    assert!(session.is_over(0));
    assert!(!session.is_over(1));
}

#[test]
fn init_segments_are_awaited() {
    let mut muxer = CmafMuxer::new(CmafConfig::default());
    let init = muxer.create_init_segment(&[0x67, 1, 2, 3], &[0x68, 1], 64, 48);
    muxer.add_frame(&[NalUnit { data: vec![0x65, 9], nal_type: 5 }], 0, 0, 3000, true);
    let segment = muxer.flush().unwrap();
    let mut frame = vec![0; 8];
    frame.extend_from_slice(&segment);
    assert!(matches!(init_step(Some(&frame)), InitStep::Wait));
    let mut frame = vec![0; 8];
    frame.extend_from_slice(&init);
    frame.extend_from_slice(&segment);
    match init_step(Some(&frame)) {
        InitStep::Got { init: i, media: Some(m) } => assert_eq!((i, m), (init, segment)),
        other => panic!("{:?}", other),
    }
    assert!(matches!(init_step(None), InitStep::Ended));
}

#[test]
fn tracks_are_declared() {
    let info = || InitInfo { timescale: 90000, codec_config: vec![1], width: 64, height: 48 };
    let video = camera_track(1, Channel::Video, info());
    assert_eq!((video.track_id, video.timescale, &video.handler), (1, 90000, b"vide"));
    assert_eq!((video.codec_config, video.high_bitdepth), (vec![1], false));
    assert!(camera_track(2, Channel::Depth, info()).high_bitdepth);
    let can = can_track(3);
    assert_eq!((can.track_id, can.timescale, &can.handler), (3, 1000, b"meta"));
}

#[test]
fn progress_is_reported_every_tenth_fragment() {
    let mut progress = Progress::new(100);
    assert!(!progress.reports());
    for _ in 0..10 {
        progress.wrote(7);
    }
    assert_eq!(progress, Progress { fragments: 10, bytes: 170 });
    assert!(progress.reports());
    progress.wrote(1);
    assert!(!progress.reports());
}
