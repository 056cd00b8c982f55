use xoq::cmaf::{CmafConfig, CmafMuxer, NalUnit};
use xoq::recorder::clock::chrono_timestamp;
use xoq::recorder::config::{parse_config, parse_options, Options};
use xoq::recorder::fragments::{
    all_ended, assign_tracks, can_fragment, init_complete, media_part, skip_init_boxes, split_init,
    strip_timestamp, SampleEntry, SourceTracks, TimestampedCanBatch, TrackIds,
};
use xoq::recorder::json::{
    extract_array_field, extract_bool_field, extract_object_field, extract_string_field,
    find_matching_bracket, iter_objects,
};

fn chars(s: &str) -> Vec<char> {
    s.chars().collect()
}

fn options(args: &[&str]) -> Option<Options> {
    let mut all = vec!["recorder".to_string()];
    all.extend(args.iter().map(|a| a.to_string()));
    parse_options(&all, "NOW")
}

#[test]
fn timestamps_are_dates() {
    assert_eq!(chrono_timestamp(0), "19700101_000000");
    assert_eq!(chrono_timestamp(951_782_399), "20000228_235959");
    assert_eq!(chrono_timestamp(951_782_400), "20000229_000000");
    assert_eq!(chrono_timestamp(1_735_689_599), "20241231_235959");
    assert_eq!(chrono_timestamp(4_107_542_400), "21000301_000000");
}

#[test]
fn fields_are_cut_out_of_json() {
    let s = chars("{\"a\": \"x\", \"on\": true, \"off\" :false, \"n\": 5, \"list\": [1, [2]], \"o\": {\"p\": {}}}");
    assert_eq!(extract_string_field(&s, "a").as_deref(), Some("x"));
    assert_eq!(extract_string_field(&s, "missing"), None);
    assert_eq!(extract_bool_field(&s, "on"), Some(true));
    assert_eq!(extract_bool_field(&s, "off"), Some(false));
    assert_eq!(extract_bool_field(&s, "n"), None);
    assert_eq!(extract_array_field(&s, "list"), Some(chars("[1, [2]]")));
    assert_eq!(extract_object_field(&s, "o"), Some(chars("{\"p\": {}}")));
    assert_eq!(find_matching_bracket(&chars("{{}}x}"), '{', '}'), Some(3));
    assert_eq!(find_matching_bracket(&chars("{{}"), '{', '}'), None);
    assert_eq!(iter_objects(&chars("[{\"a\":{}}, {}]")), vec!["{\"a\":{}}", "{}"]);
}

const CONFIG: &str = "{\"general\": {\"relay\": \"https://r\"},
 \"realsense\": [
   {\"enabled\": true, \"label\": \"head\", \"path\": \"anon/head\"},
   {\"enabled\": false, \"path\": \"anon/off\"},
   {\"enabled\": true, \"path\": \"anon/wrist\"}],
 \"armPairs\": [{\"enabled\": true, \"leftPath\": \"anon/l\", \"rightPath\": \"anon/r\"}]}";

#[test]
fn configuration_names_what_is_enabled() {
    let config = parse_config(CONFIG);
    assert_eq!(config.relay.as_deref(), Some("https://r"));
    let cameras: Vec<(&str, &str)> =
        config.realsense.iter().map(|c| (c.label.as_str(), c.path.as_str())).collect();
    assert_eq!(cameras, vec![("head", "anon/head"), ("anon/wrist", "anon/wrist")]);
    assert_eq!(config.can_paths, vec!["anon/l/state", "anon/r/state"]);
    let empty = parse_config("");
    assert!(empty.relay.is_none() && empty.realsense.is_empty() && empty.can_paths.is_empty());
}

#[test]
fn command_line_wins_over_configuration() {
    let args = options(&["--relay", "https://x", "--can-path", "c"]).unwrap();
    let args = args.resolve(Some(parse_config(CONFIG)));
    assert_eq!(args.relay, "https://x");
    assert_eq!(args.video_labels, vec!["head", "anon/wrist"]);
    assert_eq!(args.can_paths, vec!["c"]);
    let args = options(&["--video-path", "v"]).unwrap().resolve(Some(parse_config(CONFIG)));
    assert_eq!((args.relay.as_str(), args.video_paths), ("https://r", vec!["v".to_string()]));
}

#[test]
fn command_line_defaults() {
    let args = options(&[]).unwrap().resolve(None);
    assert_eq!(args.relay, "https://cdn.1ms.ai");
    assert_eq!(args.video_paths, vec!["anon/realsense"]);
    assert_eq!(args.video_labels, vec!["realsense"]);
    assert!(args.can_paths.is_empty());
    assert!(args.record_video && args.record_depth && !args.insecure);
    assert_eq!(args.duration_secs, None);
    assert_eq!(args.output_path(), "./recording_NOW.mp4");
    let args = options(&[
        "--no-video", "--no-depth", "--insecure", "--duration", "90", "--prefix", "p",
        "--output-dir", "/out", "--unknown",
    ]);
    let args = args.unwrap().resolve(None);
    assert!(!args.record_video && !args.record_depth && args.insecure);
    assert_eq!((args.duration_secs, args.output_path().as_str()), (Some(90), "/out/p.mp4"));
    assert!(options(&["-h"]).is_none());
    assert!(options(&["--no-video", "--help"]).is_none());
    assert_eq!(options(&["--config", "f"]).unwrap().config_path.as_deref(), Some("f"));
}

fn segments() -> (Vec<u8>, Vec<u8>) {
    let mut muxer = CmafMuxer::new(CmafConfig::default());
    let init = muxer.create_init_segment(&[0x67, 1, 2, 3], &[0x68, 1], 64, 48);
    muxer.add_frame(&[NalUnit { data: vec![0x65, 9], nal_type: 5 }], 0, 0, 3000, true);
    (init, muxer.flush().unwrap())
}

#[test]
fn frames_split_after_their_init_segment() {
    let (init, media) = segments();
    let mut both = init.clone();
    both.extend_from_slice(&media);
    assert!(init_complete(&both));
    assert_eq!(split_init(&both), Some((init.clone(), Some(media.clone()))));
    assert_eq!(split_init(&init), Some((init.clone(), None)));
    assert_eq!(split_init(&media), None);
    assert_eq!(media_part(&both), Some(&media[..]));
    assert_eq!(media_part(&media), Some(&media[..]));
    assert_eq!(media_part(&init), None);
    assert_eq!(media_part(&media[..8]), None);
    assert_eq!(skip_init_boxes(&both), Some(&media[..]));
    assert!(!init_complete(&init[..init.len() - 1]));
}

#[test]
fn timestamps_are_stripped() {
    assert_eq!(strip_timestamp(&[0, 1, 2, 3, 4, 5, 6, 7, 8]), &[8]);
    assert_eq!(strip_timestamp(&[0, 1, 2, 3, 4, 5, 6, 7]), &[0, 1, 2, 3, 4, 5, 6, 7]);
}

#[test]
fn can_batches_become_samples() {
    let batch = |timestamp_ms: u64, data: &[u8]| TimestampedCanBatch {
        timestamp_ms,
        data: data.to_vec(),
    };
    let list = [batch(1010, &[1, 2]), batch(1025, &[3]), batch(1025, &[])];
    let fragment = can_fragment(&list, 4, 1000).unwrap();
    assert_eq!((fragment.track_id, fragment.base_decode_time), (4, 10));
    assert_eq!(fragment.data, vec![1, 2, 3]);
    let sample = |duration: u32, size: u32| SampleEntry {
        duration,
        size,
        flags: 0x0200_0000,
        composition_offset: 0,
    };
    assert_eq!(fragment.samples, vec![sample(1, 2), sample(15, 1), sample(1, 0)]);
    assert!(can_fragment(&list, 0, 1000).is_none());
    assert!(can_fragment(&[], 4, 1000).is_none());
    assert_eq!(can_fragment(&list, 4, 5000).unwrap().base_decode_time, 0);
}

#[test]
fn tracks_are_numbered_camera_by_camera() {
    let source = |video: bool, depth: bool| SourceTracks { video, depth };
    let sources = [source(true, true), source(false, true), source(false, false)];
    let plan = assign_tracks(&sources, true).unwrap();
    let ids = |video: u32, depth: u32| TrackIds { video, depth };
    assert_eq!(plan.ids, vec![ids(1, 2), ids(0, 3), ids(0, 0)]);
    assert_eq!(plan.can, 4);
    assert_eq!(assign_tracks(&sources, false).unwrap().can, 0);
    assert!(assign_tracks(&[source(false, false)], false).is_none());
    assert_eq!(assign_tracks(&[], true).unwrap().can, 1);
    assert!(all_ended(&[source(false, false)], 0));
    assert!(!all_ended(&[source(false, true)], 0));
    assert!(!all_ended(&[], 1));
}
