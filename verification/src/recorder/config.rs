//! What to record: the command line and the configuration file.

use crate::recorder::json::{
    bool_field, bracketed, extract_array_field, extract_bool_field, extract_object_field,
    extract_string_field, iter_objects, objects, string_field,
};
use crate::text::{chars_of, joined2, named, opt_text, parse_number, parsed, parsed_number_fits, same, texts};
use vstd::prelude::*;
use vstd::string::StringExecFns;

verus! {

/// A camera of the configuration file.
#[derive(Debug)]
pub struct RealsenseConfig {
    pub label: String,
    pub path: String,
}

impl View for RealsenseConfig {
    type V = (Seq<char>, Seq<char>);

    open spec fn view(&self) -> (Seq<char>, Seq<char>) {
        (self.label@, self.path@)
    }
}

/// The labels and paths of cameras.
pub open spec fn cameras(v: Seq<RealsenseConfig>) -> Seq<(Seq<char>, Seq<char>)> {
    v.map_values(|c: RealsenseConfig| c@)
}

/// What a configuration file names.
#[derive(Debug)]
pub struct ConfigSources {
    pub relay: Option<String>,
    pub realsense: Vec<RealsenseConfig>,
    pub can_paths: Vec<String>,
}

/// What a configuration file names: the relay, the label and path of each camera, and the paths
/// of the CAN buses.
pub struct Sources {
    pub relay: Option<Seq<char>>,
    pub realsense: Seq<(Seq<char>, Seq<char>)>,
    pub can_paths: Seq<Seq<char>>,
}

impl View for ConfigSources {
    type V = Sources;

    open spec fn view(&self) -> Sources {
        Sources {
            relay: opt_text(self.relay),
            realsense: cameras(self.realsense@),
            can_paths: texts(self.can_paths@),
        }
    }
}

/// Whether an object of the configuration says that it is enabled.
pub open spec fn enabled(object: Seq<char>) -> bool {
    bool_field(object, "enabled"@) == Some(true)
}

/// The camera that an object describes: its label is its path where it has none.
pub open spec fn camera_of(object: Seq<char>) -> Option<(Seq<char>, Seq<char>)> {
    if !enabled(object) {
        None
    } else {
        match string_field(object, "path"@) {
            Some(path) => match string_field(object, "label"@) {
                Some(label) => Some((label, path)),
                None => Some((path, path)),
            },
            None => None,
        }
    }
}

/// The cameras that objects describe, in their order.
pub open spec fn cameras_of(list: Seq<Seq<char>>) -> Seq<(Seq<char>, Seq<char>)>
    decreases list.len(),
{
    if list.len() == 0 {
        Seq::empty()
    } else {
        match camera_of(list.last()) {
            Some(camera) => cameras_of(list.drop_last()).push(camera),
            None => cameras_of(list.drop_last()),
        }
    }
}

/// The broadcast of the state of an arm at `field` of an object, if it is there.
pub open spec fn arm_path(object: Seq<char>, field: Seq<char>) -> Seq<Seq<char>> {
    match string_field(object, field) {
        Some(path) => seq![path + "/state"@],
        None => Seq::empty(),
    }
}

/// The broadcasts of the arms that objects describe: the left one of a pair before the right one.
pub open spec fn arm_paths(list: Seq<Seq<char>>) -> Seq<Seq<char>>
    decreases list.len(),
{
    if list.len() == 0 {
        Seq::empty()
    } else if enabled(list.last()) {
        arm_paths(list.drop_last()) + arm_path(list.last(), "leftPath"@) + arm_path(
            list.last(),
            "rightPath"@,
        )
    } else {
        arm_paths(list.drop_last())
    }
}

/// The objects of the array that follows the first `"key"`.
pub open spec fn objects_of(content: Seq<char>, key: Seq<char>) -> Seq<Seq<char>> {
    match bracketed(content, key, '[', ']') {
        Some(list) => objects(list, list.len() as int),
        None => Seq::empty(),
    }
}

/// What the text of a configuration file names.
pub open spec fn sources_of(content: Seq<char>) -> Sources {
    Sources {
        relay: match bracketed(content, "general"@, '{', '}') {
            Some(general) => string_field(general, "relay"@),
            None => None,
        },
        realsense: cameras_of(objects_of(content, "realsense"@)),
        can_paths: arm_paths(objects_of(content, "armPairs"@)),
    }
}

fn objects_at(content: &[char], key: &str) -> (r: Vec<String>)
    ensures
        texts(r@) == objects_of(content@, key@),
{
    match extract_array_field(content, key) {
        Some(list) => iter_objects(&list),
        None => {
            let r: Vec<String> = Vec::new();
            assert(texts(r@) =~= Seq::<Seq<char>>::empty());
            r
        },
    }
}

fn is_enabled(object: &[char]) -> (r: bool)
    ensures
        r == enabled(object@),
{
    match extract_bool_field(object, "enabled") {
        Some(b) => b,
        None => false,
    }
}

fn read_camera(object: &[char]) -> (r: Option<RealsenseConfig>)
    ensures
        match r {
            Some(c) => camera_of(object@) == Some(c@),
            None => camera_of(object@) is None,
        },
{
    if !is_enabled(object) {
        return None;
    }
    let path = match extract_string_field(object, "path") {
        Some(p) => p,
        None => return None,
    };
    let label = match extract_string_field(object, "label") {
        Some(label) => label,
        None => path.as_str().to_owned(),
    };
    Some(RealsenseConfig { label, path })
}

fn put_arm(paths: &mut Vec<String>, object: &[char], field: &str)
    ensures
        texts(final(paths)@) == texts(old(paths)@) + arm_path(object@, field@),
{
    match extract_string_field(object, field) {
        Some(path) => {
            let broadcast = joined2(&path, "/state");
            paths.push(broadcast);
            assert(texts(paths@) =~= texts(old(paths)@) + seq![broadcast@]);
        },
        None => {
            assert(texts(paths@) =~= texts(old(paths)@) + Seq::<Seq<char>>::empty());
        },
    }
}

/// Reads the text of a configuration file.
pub fn parse_config(content: &str) -> (r: ConfigSources)
    ensures
        r@ == sources_of(content@),
{
    let content = chars_of(content);
    let relay = match extract_object_field(&content, "general") {
        Some(general) => extract_string_field(&general, "relay"),
        None => None,
    };

    let entries = objects_at(&content, "realsense");
    let ghost list = texts(entries@);
    let mut realsense: Vec<RealsenseConfig> = Vec::new();
    let mut i: usize = 0;
    assert(cameras(realsense@) =~= cameras_of(list.take(0)));
    while i < entries.len()
        invariant
            i <= entries.len(),
            list == texts(entries@),
            cameras(realsense@) == cameras_of(list.take(i as int)),
        decreases entries.len() - i,
    {
        let object = chars_of(&entries[i]);
        let ghost before = realsense@;
        assert(list.take(i + 1).drop_last() =~= list.take(i as int));
        assert(list.take(i + 1).last() == object@);
        if let Some(camera) = read_camera(&object) {
            realsense.push(camera);
            assert(cameras(realsense@) =~= cameras(before).push(camera@));
        }
        i = i + 1;
    }
    assert(list.take(i as int) =~= list);

    let entries = objects_at(&content, "armPairs");
    let ghost list = texts(entries@);
    let mut can_paths: Vec<String> = Vec::new();
    let mut i: usize = 0;
    assert(texts(can_paths@) =~= arm_paths(list.take(0)));
    while i < entries.len()
        invariant
            i <= entries.len(),
            list == texts(entries@),
            texts(can_paths@) == arm_paths(list.take(i as int)),
        decreases entries.len() - i,
    {
        let object = chars_of(&entries[i]);
        assert(list.take(i + 1).drop_last() =~= list.take(i as int));
        assert(list.take(i + 1).last() == object@);
        if is_enabled(&object) {
            put_arm(&mut can_paths, &object, "leftPath");
            put_arm(&mut can_paths, &object, "rightPath");
        }
        i = i + 1;
    }
    assert(list.take(i as int) =~= list);

    ConfigSources { relay, realsense, can_paths }
}

/// What the command line says.
#[derive(Debug)]
pub struct Options {
    pub config_path: Option<String>,
    pub relay: String,
    pub relay_given: bool,
    pub video_paths: Vec<String>,
    pub video_labels: Vec<String>,
    pub can_paths: Vec<String>,
    pub prefix: String,
    pub output_dir: String,
    pub record_video: bool,
    pub record_depth: bool,
    pub duration_secs: Option<u64>,
    pub insecure: bool,
}

/// What the command line says.
pub struct Choices {
    pub config_path: Option<Seq<char>>,
    pub relay: Seq<char>,
    pub relay_given: bool,
    pub video_paths: Seq<Seq<char>>,
    pub video_labels: Seq<Seq<char>>,
    pub can_paths: Seq<Seq<char>>,
    pub prefix: Seq<char>,
    pub output_dir: Seq<char>,
    pub record_video: bool,
    pub record_depth: bool,
    pub duration_secs: Option<u64>,
    pub insecure: bool,
}

impl View for Options {
    type V = Choices;

    open spec fn view(&self) -> Choices {
        Choices {
            config_path: opt_text(self.config_path),
            relay: self.relay@,
            relay_given: self.relay_given,
            video_paths: texts(self.video_paths@),
            video_labels: texts(self.video_labels@),
            can_paths: texts(self.can_paths@),
            prefix: self.prefix@,
            output_dir: self.output_dir@,
            record_video: self.record_video,
            record_depth: self.record_depth,
            duration_secs: self.duration_secs,
            insecure: self.insecure,
        }
    }
}

/// Whether some argument but the last is `--relay`.
pub open spec fn names_relay(args: Seq<Seq<char>>) -> bool {
    exists|k: int| 0 <= k < args.len() - 1 && #[trigger] args[k] == "--relay"@
}

/// The choices before any argument is read; `now` is the time in the default prefix.
pub open spec fn default_choices(args: Seq<Seq<char>>, now: Seq<char>) -> Choices {
    Choices {
        config_path: None,
        relay: "https://cdn.1ms.ai"@,
        relay_given: names_relay(args),
        video_paths: Seq::empty(),
        video_labels: Seq::empty(),
        can_paths: Seq::empty(),
        prefix: "recording_"@ + now,
        output_dir: "."@,
        record_video: true,
        record_depth: true,
        duration_secs: None,
        insecure: false,
    }
}

/// Whether an option takes a value.
pub open spec fn takes_value(arg: Seq<char>) -> bool {
    arg == "--config"@ || arg == "--relay"@ || arg == "--video-path"@ || arg == "--can-path"@ || arg
        == "--prefix"@ || arg == "--output-dir"@ || arg == "--duration"@
}

/// The number of seconds that `s` writes, if it writes one.
pub open spec fn seconds(s: Seq<char>) -> Option<u64> {
    match parsed(s, u64::MAX as int) {
        Some(n) => Some(n as u64),
        None => None,
    }
}

impl Choices {
    /// The choices after an option with its value.
    pub open spec fn with_value(self, arg: Seq<char>, value: Seq<char>) -> Choices {
        if arg == "--config"@ {
            Choices { config_path: Some(value), ..self }
        } else if arg == "--relay"@ {
            Choices { relay: value, ..self }
        } else if arg == "--video-path"@ {
            Choices {
                video_paths: self.video_paths.push(value),
                video_labels: self.video_labels.push(value),
                ..self
            }
        } else if arg == "--can-path"@ {
            Choices { can_paths: self.can_paths.push(value), ..self }
        } else if arg == "--prefix"@ {
            Choices { prefix: value, ..self }
        } else if arg == "--output-dir"@ {
            Choices { output_dir: value, ..self }
        } else {
            Choices { duration_secs: seconds(value), ..self }
        }
    }

    /// The choices after an argument that stands alone.
    pub open spec fn with_flag(self, arg: Seq<char>) -> Choices {
        if arg == "--no-video"@ {
            Choices { record_video: false, ..self }
        } else if arg == "--no-depth"@ {
            Choices { record_depth: false, ..self }
        } else if arg == "--insecure"@ {
            Choices { insecure: true, ..self }
        } else {
            self
        }
    }

    /// The choices after the arguments from `i` on; `None` where help is asked for.
    pub open spec fn reading(self, args: Seq<Seq<char>>, i: int) -> Option<Choices>
        decreases args.len() - i,
    {
        if i < 0 || i >= args.len() {
            Some(self)
        } else if takes_value(args[i]) && i + 1 < args.len() {
            self.with_value(args[i], args[i + 1]).reading(args, i + 2)
        } else if args[i] == "--help"@ || args[i] == "-h"@ {
            None
        } else {
            self.with_flag(args[i]).reading(args, i + 1)
        }
    }
}

fn has_relay(args: &[String]) -> (r: bool)
    ensures
        r == names_relay(texts(args@)),
{
    let mut k: usize = 0;
    while k < args.len() && k < args.len() - 1
        invariant
            k <= args@.len(),
            forall|j: int| 0 <= j < k ==> texts(args@)[j] != "--relay"@,
        decreases args@.len() - k,
    {
        if same(&args[k], "--relay") {
            assert(texts(args@)[k as int] == "--relay"@);
            return true;
        }
        k = k + 1;
    }
    false
}

fn value_option(arg: &str) -> (r: bool)
    ensures
        r == takes_value(arg@),
{
    same(arg, "--config") || same(arg, "--relay") || same(arg, "--video-path") || same(
        arg,
        "--can-path",
    ) || same(arg, "--prefix") || same(arg, "--output-dir") || same(arg, "--duration")
}

proof fn texts_push(v: Seq<String>, s: String)
    ensures
        texts(v.push(s)) == texts(v).push(s@),
{
    assert(texts(v.push(s)) =~= texts(v).push(s@));
}

impl Options {
    fn set(self, arg: &str, value: &str) -> (r: Self)
        requires
            takes_value(arg@),
        ensures
            r@ == self@.with_value(arg@, value@),
            r.labelled() == self.labelled(),
    {
        let mut r = self;
        if same(arg, "--config") {
            r.config_path = Some(value.to_owned());
        } else if same(arg, "--relay") {
            r.relay = value.to_owned();
        } else if same(arg, "--video-path") {
            let path = value.to_owned();
            let label = value.to_owned();
            proof {
                texts_push(r.video_paths@, path);
                texts_push(r.video_labels@, label);
            }
            r.video_paths.push(path);
            r.video_labels.push(label);
        } else if same(arg, "--can-path") {
            let path = value.to_owned();
            proof {
                texts_push(r.can_paths@, path);
            }
            r.can_paths.push(path);
        } else if same(arg, "--prefix") {
            r.prefix = value.to_owned();
        } else if same(arg, "--output-dir") {
            r.output_dir = value.to_owned();
        } else {
            r.duration_secs = parse_number(value, u64::MAX);
        }
        r
    }

    fn flag(self, arg: &str) -> (r: Self)
        ensures
            r@ == self@.with_flag(arg@),
            r.labelled() == self.labelled(),
    {
        let mut r = self;
        if same(arg, "--no-video") {
            r.record_video = false;
        } else if same(arg, "--no-depth") {
            r.record_depth = false;
        } else if same(arg, "--insecure") {
            r.insecure = true;
        }
        r
    }
}

/// Reads the command line; the first argument is the program's name. `None` asks for help.
pub fn parse_options(args: &[String], now: &str) -> (r: Option<Options>)
    ensures
        match r {
            Some(options) => {
                &&& default_choices(texts(args@), now@).reading(texts(args@), 1) == Some(options@)
                &&& options.labelled()
            },
            None => default_choices(texts(args@), now@).reading(texts(args@), 1) is None,
        },
{
    let mut options = Options {
        config_path: None,
        relay: "https://cdn.1ms.ai".to_owned(),
        relay_given: has_relay(args),
        video_paths: Vec::new(),
        video_labels: Vec::new(),
        can_paths: Vec::new(),
        prefix: joined2("recording_", now),
        output_dir: ".".to_owned(),
        record_video: true,
        record_depth: true,
        duration_secs: None,
        insecure: false,
    };
    assert(texts(options.video_paths@) =~= Seq::<Seq<char>>::empty());
    let ghost all = texts(args@);
    let ghost outcome = default_choices(all, now@).reading(all, 1);
    let count: usize = args.len();
    let mut i: usize = 1;
    while i < count
        invariant
            1 <= i,
            count == args@.len(),
            all == texts(args@),
            outcome == default_choices(all, now@).reading(all, 1),
            options@.reading(all, i as int) == outcome,
            options.labelled(),
        decreases count - i,
    {
        let arg = args[i].as_str();
        assert(arg@ == all[i as int]);
        if i < count - 1 && value_option(arg) {
            assert(args@[i + 1]@ == all[i + 1]);
            options = options.set(arg, &args[i + 1]);
            if i == count - 2 {
                i = count;
            } else {
                i = i + 2;
            }
        } else if same(arg, "--help") || same(arg, "-h") {
            return None;
        } else {
            options = options.flag(arg);
            i = i + 1;
        }
    }
    Some(options)
}

/// What to record.
#[derive(Debug)]
pub struct Args {
    pub relay: String,
    pub video_paths: Vec<String>,
    pub video_labels: Vec<String>,
    pub can_paths: Vec<String>,
    pub prefix: String,
    pub output_dir: String,
    pub record_video: bool,
    pub record_depth: bool,
    pub duration_secs: Option<u64>,
    pub insecure: bool,
}

/// The relay: that of the configuration only where the command line names none.
pub open spec fn chosen_relay(c: Choices, config: Option<Sources>) -> Seq<char> {
    match config {
        Some(config) => match config.relay {
            Some(relay) => if c.relay_given {
                c.relay
            } else {
                relay
            },
            None => c.relay,
        },
        None => c.relay,
    }
}

/// The labels and paths of the cameras: those of the command line, else those of the
/// configuration, else one camera by default.
pub open spec fn chosen_cameras(c: Choices, config: Option<Sources>) -> (
    Seq<Seq<char>>,
    Seq<Seq<char>>,
) {
    if c.video_paths.len() > 0 {
        (c.video_labels, c.video_paths)
    } else if config matches Some(s) && s.realsense.len() > 0 {
        let list = config->0.realsense;
        (
            list.map_values(|x: (Seq<char>, Seq<char>)| x.0),
            list.map_values(|x: (Seq<char>, Seq<char>)| x.1),
        )
    } else {
        (seq!["realsense"@], seq!["anon/realsense"@])
    }
}

/// The paths of the CAN buses: those of the command line, else those of the configuration.
pub open spec fn chosen_can_paths(c: Choices, config: Option<Sources>) -> Seq<Seq<char>> {
    if c.can_paths.len() > 0 {
        c.can_paths
    } else {
        match config {
            Some(config) => config.can_paths,
            None => Seq::empty(),
        }
    }
}

/// The view of a configuration that may be missing.
pub open spec fn opt_sources(config: Option<ConfigSources>) -> Option<Sources> {
    match config {
        Some(config) => Some(config@),
        None => None,
    }
}

impl Options {
    /// Whether there are as many labels as paths.
    pub open spec fn labelled(&self) -> bool {
        self.video_labels@.len() == self.video_paths@.len()
    }

    /// Decides what to record, with what the configuration file names where one was given.
    pub fn resolve(self, config: Option<ConfigSources>) -> (r: Args)
        requires
            self.labelled(),
        ensures
            r.relay@ == chosen_relay(self@, opt_sources(config)),
            (texts(r.video_labels@), texts(r.video_paths@)) == chosen_cameras(
                self@,
                opt_sources(config),
            ),
            r.video_labels@.len() == r.video_paths@.len() > 0,
            texts(r.can_paths@) == chosen_can_paths(self@, opt_sources(config)),
            r.prefix == self.prefix,
            r.output_dir == self.output_dir,
            r.record_video == self.record_video,
            r.record_depth == self.record_depth,
            r.duration_secs == self.duration_secs,
            r.insecure == self.insecure,
    {
        let ghost named = opt_sources(config);
        let mut relay = self.relay;
        let mut video_paths = self.video_paths;
        let mut video_labels = self.video_labels;
        let mut can_paths = self.can_paths;
        if let Some(cfg) = config {
            if let Some(cfg_relay) = cfg.relay {
                if !self.relay_given {
                    relay = cfg_relay;
                }
            }
            if video_paths.len() == 0 {
                let ghost list = cfg@.realsense;
                let mut i: usize = 0;
                assert(texts(video_paths@) =~= list.take(0).map_values(
                    |x: (Seq<char>, Seq<char>)| x.1,
                ));
                assert(texts(video_labels@) =~= list.take(0).map_values(
                    |x: (Seq<char>, Seq<char>)| x.0,
                ));
                while i < cfg.realsense.len()
                    invariant
                        i <= cfg.realsense.len(),
                        list == cameras(cfg.realsense@),
                        video_paths@.len() == i,
                        video_labels@.len() == i,
                        texts(video_labels@) == list.take(i as int).map_values(
                            |x: (Seq<char>, Seq<char>)| x.0,
                        ),
                        texts(video_paths@) == list.take(i as int).map_values(
                            |x: (Seq<char>, Seq<char>)| x.1,
                        ),
                    decreases cfg.realsense.len() - i,
                {
                    let ghost labels = video_labels@;
                    let ghost paths = video_paths@;
                    let path = cfg.realsense[i].path.as_str().to_owned();
                    let label = cfg.realsense[i].label.as_str().to_owned();
                    assert(list[i as int] == (label@, path@));
                    video_paths.push(path);
                    video_labels.push(label);
                    proof {
                        texts_push(paths, path);
                        texts_push(labels, label);
                    }
                    assert(texts(video_labels@) =~= list.take(i + 1).map_values(
                        |x: (Seq<char>, Seq<char>)| x.0,
                    ));
                    assert(texts(video_paths@) =~= list.take(i + 1).map_values(
                        |x: (Seq<char>, Seq<char>)| x.1,
                    ));
                    i = i + 1;
                }
                assert(list.take(i as int) =~= list);
            }
            if can_paths.len() == 0 {
                can_paths = cfg.can_paths;
            }
        }
        if video_paths.len() == 0 {
            video_paths.push("anon/realsense".to_owned());
            video_labels.push("realsense".to_owned());
            assert(texts(video_labels@) =~= seq!["realsense"@]);
            assert(texts(video_paths@) =~= seq!["anon/realsense"@]);
        }
        assert(texts(can_paths@).len() == can_paths@.len());
        if can_paths.len() == 0 {
            assert(texts(can_paths@) =~= Seq::<Seq<char>>::empty());
        }
        Args {
            relay,
            video_paths,
            video_labels,
            can_paths,
            prefix: self.prefix,
            output_dir: self.output_dir,
            record_video: self.record_video,
            record_depth: self.record_depth,
            duration_secs: self.duration_secs,
            insecure: self.insecure,
        }
    }
}

impl Args {
    /// The file to write.
    pub fn output_path(&self) -> (r: String)
        ensures
            r@ == self.output_dir@ + "/"@ + self.prefix@ + ".mp4"@,
    {
        let mut r = self.output_dir.as_str().to_owned();
        r.append("/");
        r.append(&self.prefix);
        r.append(".mp4");
        r
    }
}

/// An option that is not named keeps the value that it had, and a switch that was set stays set. Only
/// a question for help leads to no choices.
pub proof fn unnamed_options_keep_their_values(c: Choices, args: Seq<Seq<char>>, i: int)
    requires
        0 <= i,
    ensures
        !named(args, i, "--help"@) && !named(args, i, "-h"@) ==> c.reading(args, i) is Some,
        c.reading(args, i) matches Some(r) ==> {
            &&& !named(args, i, "--config"@) ==> r.config_path == c.config_path
            &&& !named(args, i, "--relay"@) ==> r.relay == c.relay
            &&& !named(args, i, "--video-path"@) ==> r.video_paths == c.video_paths
            &&& !named(args, i, "--can-path"@) ==> r.can_paths == c.can_paths
            &&& !named(args, i, "--prefix"@) ==> r.prefix == c.prefix
            &&& !named(args, i, "--output-dir"@) ==> r.output_dir == c.output_dir
            &&& !named(args, i, "--duration"@) ==> r.duration_secs == c.duration_secs
            &&& !named(args, i, "--no-video"@) ==> r.record_video == c.record_video
            &&& !named(args, i, "--no-depth"@) ==> r.record_depth == c.record_depth
            &&& !named(args, i, "--insecure"@) ==> r.insecure == c.insecure
            &&& c.record_video == false ==> r.record_video == false
            &&& c.record_depth == false ==> r.record_depth == false
            &&& c.insecure == true ==> r.insecure == true
            &&& !named(args, i, "--video-path"@) ==> r.video_labels == c.video_labels
            &&& r.relay_given == c.relay_given
        },
    decreases args.len() - i,
{
    if i < args.len() {
        if takes_value(args[i]) && i + 1 < args.len() {
            unnamed_options_keep_their_values(c.with_value(args[i], args[i + 1]), args, i + 2);
        } else {
            unnamed_options_keep_their_values(c.with_flag(args[i]), args, i + 1);
        }
    }
}

/// What stands behind an option is its value, where the option is not named again.
pub proof fn last_value_counts(c: Choices, args: Seq<Seq<char>>, i: int)
    requires
        0 <= i,
        i + 1 < args.len(),
        !named(args, i + 2, args[i]),
        c.reading(args, i) is Some,
    ensures
        ({
            let r = c.reading(args, i)->0;
            let value = args[i + 1];
            &&& args[i] == "--config"@ ==> r.config_path == Some(value)
            &&& args[i] == "--relay"@ ==> r.relay == value
            &&& args[i] == "--video-path"@ ==> r.video_paths == c.video_paths.push(value) && r.video_labels
                == c.video_labels.push(value)
            &&& args[i] == "--can-path"@ ==> r.can_paths == c.can_paths.push(value)
            &&& args[i] == "--prefix"@ ==> r.prefix == value
            &&& args[i] == "--output-dir"@ ==> r.output_dir == value
            &&& args[i] == "--duration"@ ==> match parsed(value, u64::MAX as int) {
                Some(n) => r.duration_secs matches Some(secs) && secs == n,
                None => r.duration_secs is None,
            }
        }),
{
    options_differ();
    parsed_number_fits(args[i + 1], u64::MAX as int);
    unnamed_options_keep_their_values(c.with_value(args[i], args[i + 1]), args, i + 2);
}

/// A switch is set once it is named, and whoever asks for help gets no choices.
pub proof fn switches_are_set(c: Choices, args: Seq<Seq<char>>, i: int)
    requires
        0 <= i < args.len(),
    ensures
        args[i] == "--help"@ || args[i] == "-h"@ ==> c.reading(args, i) is None,
        c.reading(args, i) matches Some(r) ==> {
            &&& args[i] == "--no-video"@ ==> r.record_video == false
            &&& args[i] == "--no-depth"@ ==> r.record_depth == false
            &&& args[i] == "--insecure"@ ==> r.insecure == true
        },
{
    options_differ();
    unnamed_options_keep_their_values(c.with_flag(args[i]), args, i + 1);
}

proof fn options_differ()
    ensures
        "--config"@ != "--relay"@,
        "--config"@ != "--video-path"@,
        "--config"@ != "--can-path"@,
        "--config"@ != "--prefix"@,
        "--config"@ != "--output-dir"@,
        "--config"@ != "--duration"@,
        "--config"@ != "--no-video"@,
        "--config"@ != "--no-depth"@,
        "--config"@ != "--insecure"@,
        "--config"@ != "--help"@,
        "--config"@ != "-h"@,
        "--relay"@ != "--video-path"@,
        "--relay"@ != "--can-path"@,
        "--relay"@ != "--prefix"@,
        "--relay"@ != "--output-dir"@,
        "--relay"@ != "--duration"@,
        "--relay"@ != "--no-video"@,
        "--relay"@ != "--no-depth"@,
        "--relay"@ != "--insecure"@,
        "--relay"@ != "--help"@,
        "--relay"@ != "-h"@,
        "--video-path"@ != "--can-path"@,
        "--video-path"@ != "--prefix"@,
        "--video-path"@ != "--output-dir"@,
        "--video-path"@ != "--duration"@,
        "--video-path"@ != "--no-video"@,
        "--video-path"@ != "--no-depth"@,
        "--video-path"@ != "--insecure"@,
        "--video-path"@ != "--help"@,
        "--video-path"@ != "-h"@,
        "--can-path"@ != "--prefix"@,
        "--can-path"@ != "--output-dir"@,
        "--can-path"@ != "--duration"@,
        "--can-path"@ != "--no-video"@,
        "--can-path"@ != "--no-depth"@,
        "--can-path"@ != "--insecure"@,
        "--can-path"@ != "--help"@,
        "--can-path"@ != "-h"@,
        "--prefix"@ != "--output-dir"@,
        "--prefix"@ != "--duration"@,
        "--prefix"@ != "--no-video"@,
        "--prefix"@ != "--no-depth"@,
        "--prefix"@ != "--insecure"@,
        "--prefix"@ != "--help"@,
        "--prefix"@ != "-h"@,
        "--output-dir"@ != "--duration"@,
        "--output-dir"@ != "--no-video"@,
        "--output-dir"@ != "--no-depth"@,
        "--output-dir"@ != "--insecure"@,
        "--output-dir"@ != "--help"@,
        "--output-dir"@ != "-h"@,
        "--duration"@ != "--no-video"@,
        "--duration"@ != "--no-depth"@,
        "--duration"@ != "--insecure"@,
        "--duration"@ != "--help"@,
        "--duration"@ != "-h"@,
        "--no-video"@ != "--no-depth"@,
        "--no-video"@ != "--insecure"@,
        "--no-video"@ != "--help"@,
        "--no-video"@ != "-h"@,
        "--no-depth"@ != "--insecure"@,
        "--no-depth"@ != "--help"@,
        "--no-depth"@ != "-h"@,
        "--insecure"@ != "--help"@,
        "--insecure"@ != "-h"@,
        "--help"@ != "-h"@,
{
    reveal_strlit("--config");
    reveal_strlit("--relay");
    reveal_strlit("--video-path");
    reveal_strlit("--can-path");
    reveal_strlit("--prefix");
    reveal_strlit("--output-dir");
    reveal_strlit("--duration");
    reveal_strlit("--no-video");
    reveal_strlit("--no-depth");
    reveal_strlit("--insecure");
    reveal_strlit("--help");
    reveal_strlit("-h");
    assert("--config"@.len() == 8);
    assert("--relay"@.len() == 7);
    assert("--video-path"@.len() == 12);
    assert("--can-path"@.len() == 10);
    assert("--prefix"@.len() == 8);
    assert("--output-dir"@.len() == 12);
    assert("--duration"@.len() == 10);
    assert("--no-video"@.len() == 10);
    assert("--no-depth"@.len() == 10);
    assert("--insecure"@.len() == 10);
    assert("--help"@.len() == 6);
    assert("-h"@.len() == 2);
    assert("--config"@[2] != "--prefix"@[2]);
    assert("--video-path"@[2] != "--output-dir"@[2]);
    assert("--can-path"@[2] != "--duration"@[2]);
    assert("--can-path"@[2] != "--no-video"@[2]);
    assert("--can-path"@[2] != "--no-depth"@[2]);
    assert("--can-path"@[2] != "--insecure"@[2]);
    assert("--duration"@[2] != "--no-video"@[2]);
    assert("--duration"@[2] != "--no-depth"@[2]);
    assert("--duration"@[2] != "--insecure"@[2]);
    assert("--no-video"@[5] != "--no-depth"@[5]);
    assert("--no-video"@[2] != "--insecure"@[2]);
    assert("--no-depth"@[2] != "--insecure"@[2]);
}

/// The objects of a list are read one after another.
pub proof fn lists_are_read_in_order(a: Seq<Seq<char>>, b: Seq<Seq<char>>)
    ensures
        cameras_of(a + b) == cameras_of(a) + cameras_of(b),
        arm_paths(a + b) == arm_paths(a) + arm_paths(b),
    decreases b.len(),
{
    if b.len() == 0 {
        assert(a + b =~= a);
    } else {
        lists_are_read_in_order(a, b.drop_last());
        assert((a + b).drop_last() =~= a + b.drop_last());
        assert((a + b).last() == b.last());
        assert(arm_paths(a + b) =~= arm_paths(a) + arm_paths(b));
    }
}

/// An object names nothing unless it is enabled. One that is enabled names the camera at its path,
/// labelled with the path where it has no label of its own, and the arms at its left and right
/// paths, the left one first.
pub proof fn object_names_its_devices(o: Seq<char>)
    ensures
        ({
            let on = bool_field(o, "enabled"@) == Some(true);
            let path = string_field(o, "path"@);
            let label = string_field(o, "label"@);
            let left = string_field(o, "leftPath"@);
            let right = string_field(o, "rightPath"@);
            let cameras = cameras_of(seq![o]);
            let arms = arm_paths(seq![o]);
            &&& on && path is Some <==> cameras.len() == 1
            &&& !on || path is None <==> cameras.len() == 0
            &&& on && path is Some ==> cameras[0].1 == path->0
            &&& on && path is Some && label is Some ==> cameras[0].0 == label->0
            &&& on && path is Some && label is None ==> cameras[0].0 == cameras[0].1
            &&& !on ==> arms.len() == 0
            &&& on && left is Some ==> arms.len() > 0 && arms[0] == left->0 + "/state"@
            &&& on && right is Some ==> arms.len() > 0 && arms.last() == right->0 + "/state"@
            &&& on ==> arms.len() == (if left is Some {
                1int
            } else {
                0int
            }) + (if right is Some {
                1int
            } else {
                0int
            })
        }),
{
    let list = seq![o];
    assert(list.drop_last() =~= Seq::empty());
    assert(list.last() == o);
    assert(cameras_of(list.drop_last()) =~= Seq::empty());
    assert(arm_paths(list.drop_last()) =~= Seq::empty());
}

/// What the command line names does not depend on the configuration.
pub proof fn command_line_counts_for_more(c: Choices, config: Option<Sources>)
    ensures
        c.relay_given ==> chosen_relay(c, config) == c.relay,
        c.video_paths.len() > 0 ==> chosen_cameras(c, config) == (c.video_labels, c.video_paths),
        c.can_paths.len() > 0 ==> chosen_can_paths(c, config) == c.can_paths,
{
}

/// What the command line does not name, the configuration names: the relay, each camera with its own
/// label, and the buses.
pub proof fn configuration_fills_the_gaps(c: Choices, config: Sources)
    ensures
        !c.relay_given && config.relay is Some ==> chosen_relay(c, Some(config)) == config.relay->0,
        config.relay is None ==> chosen_relay(c, Some(config)) == c.relay,
        c.can_paths.len() == 0 ==> chosen_can_paths(c, Some(config)) == config.can_paths,
        c.video_paths.len() == 0 && config.realsense.len() > 0 ==> {
            let (labels, paths) = chosen_cameras(c, Some(config));
            &&& labels.len() == config.realsense.len()
            &&& paths.len() == config.realsense.len()
            &&& forall|i: int|
                0 <= i < config.realsense.len() ==> #[trigger] config.realsense[i] == (
                    labels[i],
                    paths[i],
                )
        },
{
}

} // verus!
