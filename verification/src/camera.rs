//! Cameras: the choice of a capture format, and frames in the formats that cameras deliver.

use crate::frame::{picture_in, FrameError};
use crate::pixels::rgb_at;
use crate::rates::rounded_down;
use crate::text::{
    chars_of, decimal, decimal_of, decimal_parses, has_prefix, joined2, parse_number, parsed, starts_with,
    string_of,
};
use vstd::prelude::*;
use vstd::slice::slice_subrange;

pub use crate::frame::Frame;

verus! {

/// A frame size, or a range of them, that a camera advertises.
#[derive(Debug, Clone, Copy, PartialEq, Eq, Structural)]
pub enum FrameSize {
    /// One size.
    Discrete { width: u32, height: u32 },
    /// All sizes from the smallest to the largest, in steps; a step of 0 allows any.
    Stepwise {
        min_width: u32,
        max_width: u32,
        step_width: u32,
        min_height: u32,
        max_height: u32,
        step_height: u32,
    },
}

/// Whether `n` is one of the values from `min` to `max` in steps.
pub open spec fn in_steps(n: u32, min: u32, max: u32, step: u32) -> bool {
    min <= n <= max && (step == 0 || (n - min) % (step as int) == 0)
}

/// The values are the smallest one and those that whole steps lead to from it, up to the largest.
pub proof fn steps_lead_from_the_smallest(min: u32, max: u32, step: u32, k: int)
    requires
        0 <= k,
        min + k * step <= max,
    ensures
        in_steps((min + k * step) as u32, min, max, step),
        forall|n: u32|
            #[trigger] in_steps(n, min, max, step) && step > 0 ==> n == min + (n - min) / (step as int) * step,
{
    assert(k * step >= 0) by (nonlinear_arith)
        requires
            k >= 0,
            step >= 0,
    ;
    if step > 0 {
        assert((k * step) % (step as int) == 0) by (nonlinear_arith)
            requires
                step > 0,
        ;
        assert forall|n: u32| #[trigger] in_steps(n, min, max, step) implies n == min + (n - min) / (
        step as int) * step by {
            rounded_down(n - min, step as int);
        }
    }
}

impl FrameSize {
    /// Whether this covers a size.
    pub open spec fn covers(self, w: u32, h: u32) -> bool {
        match self {
            FrameSize::Discrete { width, height } => width == w && height == h,
            FrameSize::Stepwise {
                min_width,
                max_width,
                step_width,
                min_height,
                max_height,
                step_height,
            } => in_steps(w, min_width, max_width, step_width) && in_steps(
                h,
                min_height,
                max_height,
                step_height,
            ),
        }
    }
}

fn steps_to(n: u32, min: u32, max: u32, step: u32) -> (r: bool)
    ensures
        r == in_steps(n, min, max, step),
{
    min <= n && n <= max && (step == 0 || (n - min) % step == 0)
}

/// Whether a camera supports a resolution. One that advertises no sizes, or fails to say
/// (`None`), is taken to.
pub fn device_supports_resolution(sizes: Option<&[FrameSize]>, width: u32, height: u32) -> (r: bool)
    ensures
        r == (match sizes {
            Some(list) => list@.len() == 0 || exists|i: int|
                0 <= i < list@.len() && (#[trigger] list@[i]).covers(width, height),
            None => true,
        }),
{
    let list = match sizes {
        Some(list) => list,
        None => return true,
    };
    if list.len() == 0 {
        return true;
    }
    let mut i: usize = 0;
    while i < list.len()
        invariant
            sizes == Some(list),
            i <= list@.len(),
            forall|j: int| 0 <= j < i ==> !(#[trigger] list@[j]).covers(width, height),
        decreases list@.len() - i,
    {
        let covered = match list[i] {
            FrameSize::Discrete { width: w, height: h } => w == width && h == height,
            FrameSize::Stepwise {
                min_width,
                max_width,
                step_width,
                min_height,
                max_height,
                step_height,
            } => steps_to(width, min_width, max_width, step_width) && steps_to(
                height,
                min_height,
                max_height,
                step_height,
            ),
        };
        if covered {
            assert(list@[i as int].covers(width, height));
            return true;
        }
        i = i + 1;
    }
    false
}

/// Information about an available camera.
#[derive(Debug, Clone)]
pub struct CameraInfo {
    /// Camera index (used to open the camera).
    pub index: u32,
    /// Human-readable camera name.
    pub name: String,
    /// Device path (e.g., /dev/video0).
    pub path: String,
}

/// Raw captured frame before conversion (for hardware encoding).
#[derive(Debug, Clone)]
pub struct RawFrame {
    /// Frame width in pixels.
    pub width: u32,
    /// Frame height in pixels.
    pub height: u32,
    /// Raw data in capture format.
    pub data: Vec<u8>,
    /// Capture format.
    pub format: RawFormat,
    /// Frame timestamp in microseconds since capture start.
    pub timestamp_us: u64,
}

/// Raw capture format.
#[derive(Debug, Clone, Copy, PartialEq, Eq, Structural)]
pub enum RawFormat {
    /// YUYV (YUV 4:2:2) - good for hardware encoding
    Yuyv,
    /// MJPEG - compressed, needs decode for encoding
    Mjpeg,
    /// BGRA (32-bit) - macOS AVFoundation native format
    Bgra,
    /// Grey (Y8, 1 byte per pixel) - grayscale cameras
    Grey,
}

/// The format that a camera is set to.
#[derive(Debug, Clone, Copy, PartialEq, Eq, Structural)]
pub enum CaptureFormat {
    Mjpeg,
    Yuyv,
    Grey,
}

/// Options for opening a camera.
#[derive(Debug, Clone, Copy, PartialEq, Eq, Structural)]
pub struct CameraOptions {
    /// Prefer YUYV format (better for hardware encoding).
    /// Default: false (prefer MJPEG for CPU efficiency)
    pub prefer_yuyv: bool,
}

impl Default for CameraOptions {
    fn default() -> (r: Self)
        ensures
            !r.prefer_yuyv,
    {
        CameraOptions { prefer_yuyv: false }
    }
}

/// A four-character code.
pub open spec fn code_is(c: [u8; 4], a: char, b: char, d: char, e: char) -> bool {
    c@ == seq![a as u8, b as u8, d as u8, e as u8]
}

fn is_code(c: [u8; 4], a: char, b: char, d: char, e: char) -> (r: bool)
    requires
        a as u32 <= 255,
        b as u32 <= 255,
        d as u32 <= 255,
        e as u32 <= 255,
    ensures
        r == code_is(c, a, b, d, e),
{
    let ghost want = seq![a as u8, b as u8, d as u8, e as u8];
    let r = c[0] == a as u8 && c[1] == b as u8 && c[2] == d as u8 && c[3] == e as u8;
    assert(r ==> c@ =~= want);
    assert(c@ == want ==> c@[0] == want[0] && c@[1] == want[1] && c@[2] == want[2] && c@[3]
        == want[3]);
    r
}

/// The capture format of a camera that was left as it is: whatever is neither YUYV nor grey is
/// taken for MJPEG.
pub open spec fn format_of(code: [u8; 4]) -> CaptureFormat {
    if code_is(code, 'Y', 'U', 'Y', 'V') {
        CaptureFormat::Yuyv
    } else if code_is(code, 'G', 'R', 'E', 'Y') || code_is(code, 'Y', '8', ' ', ' ') || code_is(
        code,
        'Y',
        '8',
        '0',
        '0',
    ) {
        CaptureFormat::Grey
    } else {
        CaptureFormat::Mjpeg
    }
}

/// What is tried next to set the format of a camera.
#[derive(Debug, Clone, Copy, PartialEq, Eq, Structural)]
pub enum FormatAttempt {
    /// Set YUYV, because it is preferred.
    PreferredYuyv,
    /// Set MJPEG.
    Mjpeg,
    /// Set YUYV, because MJPEG was not accepted.
    LastYuyv,
    /// Take the format that is set.
    Current,
}

impl FormatAttempt {
    /// What is tried first; `yuyv_ok` says whether the camera advertises YUYV at the resolution.
    pub fn first(prefer_yuyv: bool, yuyv_ok: bool) -> (r: Self)
        ensures
            r == (if prefer_yuyv && yuyv_ok {
                FormatAttempt::PreferredYuyv
            } else {
                FormatAttempt::Mjpeg
            }),
    {
        if prefer_yuyv && yuyv_ok {
            FormatAttempt::PreferredYuyv
        } else {
            FormatAttempt::Mjpeg
        }
    }

    /// What follows: a format to use, or another attempt.
    pub open spec fn next(self, prefer_yuyv: bool, yuyv_ok: bool, got: Option<[u8; 4]>) -> Result<
        CaptureFormat,
        FormatAttempt,
    > {
        match self {
            FormatAttempt::PreferredYuyv => if got matches Some(c) && code_is(c, 'Y', 'U', 'Y', 'V') {
                Ok(CaptureFormat::Yuyv)
            } else {
                Err(FormatAttempt::Mjpeg)
            },
            FormatAttempt::Mjpeg => if got matches Some(c) && code_is(c, 'M', 'J', 'P', 'G') {
                Ok(CaptureFormat::Mjpeg)
            } else if !prefer_yuyv && yuyv_ok {
                Err(FormatAttempt::LastYuyv)
            } else {
                Err(FormatAttempt::Current)
            },
            FormatAttempt::LastYuyv => if got matches Some(c) && code_is(c, 'Y', 'U', 'Y', 'V') {
                Ok(CaptureFormat::Yuyv)
            } else {
                Err(FormatAttempt::Current)
            },
            FormatAttempt::Current => match got {
                Some(c) => Ok(format_of(c)),
                None => Err(FormatAttempt::Current),
            },
        }
    }

    /// Decides what follows an attempt, from the format that the camera then had; `None` where
    /// the attempt failed.
    pub fn after(self, prefer_yuyv: bool, yuyv_ok: bool, got: Option<[u8; 4]>) -> (r: Result<
        CaptureFormat,
        FormatAttempt,
    >)
        ensures
            r == self.next(prefer_yuyv, yuyv_ok, got),
    {
        let yuyv = match got {
            Some(c) => is_code(c, 'Y', 'U', 'Y', 'V'),
            None => false,
        };
        match self {
            FormatAttempt::PreferredYuyv => if yuyv {
                Ok(CaptureFormat::Yuyv)
            } else {
                Err(FormatAttempt::Mjpeg)
            },
            FormatAttempt::Mjpeg => {
                let mjpg = match got {
                    Some(c) => is_code(c, 'M', 'J', 'P', 'G'),
                    None => false,
                };
                if mjpg {
                    Ok(CaptureFormat::Mjpeg)
                } else if !prefer_yuyv && yuyv_ok {
                    Err(FormatAttempt::LastYuyv)
                } else {
                    Err(FormatAttempt::Current)
                }
            },
            FormatAttempt::LastYuyv => if yuyv {
                Ok(CaptureFormat::Yuyv)
            } else {
                Err(FormatAttempt::Current)
            },
            FormatAttempt::Current => match got {
                Some(c) => {
                    if yuyv {
                        Ok(CaptureFormat::Yuyv)
                    } else if is_code(c, 'G', 'R', 'E', 'Y') || is_code(c, 'Y', '8', ' ', ' ') || is_code(
                        c,
                        'Y',
                        '8',
                        '0',
                        '0',
                    ) {
                        Ok(CaptureFormat::Grey)
                    } else {
                        Ok(CaptureFormat::Mjpeg)
                    }
                },
                None => Err(FormatAttempt::Current),
            },
        }
    }
}

/// However attempts go, the third one at the latest takes the format that is set.
pub proof fn search_ends(
    prefer_yuyv: bool,
    yuyv_ok: bool,
    start: FormatAttempt,
    a: Option<[u8; 4]>,
    b: Option<[u8; 4]>,
)
    requires
        start == (if prefer_yuyv && yuyv_ok {
            FormatAttempt::PreferredYuyv
        } else {
            FormatAttempt::Mjpeg
        }),
    ensures
        match start.next(prefer_yuyv, yuyv_ok, a) {
            Ok(_) => true,
            Err(second) => match second.next(prefer_yuyv, yuyv_ok, b) {
                Ok(_) => true,
                Err(third) => third == FormatAttempt::Current,
            },
        },
{
}

/// How a camera captures.
#[derive(Debug, Clone, Copy, PartialEq, Eq, Structural)]
pub struct Capture {
    pub width: u32,
    pub height: u32,
    pub format: CaptureFormat,
}

impl Capture {
    /// The format of captured data of `len` bytes. Too little data for YUYV is MJPEG.
    pub open spec fn raw_format(self, len: int) -> RawFormat {
        match self.format {
            CaptureFormat::Yuyv => if len >= self.width * self.height * 2 {
                RawFormat::Yuyv
            } else {
                RawFormat::Mjpeg
            },
            CaptureFormat::Grey => RawFormat::Grey,
            CaptureFormat::Mjpeg => RawFormat::Mjpeg,
        }
    }

    /// Says what format captured data has. Once too little data for YUYV has come, the camera is
    /// taken to deliver MJPEG.
    pub fn classify(&mut self, len: usize) -> (r: RawFormat)
        ensures
            r == old(self).raw_format(len as int),
            *final(self) == (Capture {
                format: if old(self).format == CaptureFormat::Yuyv && r == RawFormat::Mjpeg {
                    CaptureFormat::Mjpeg
                } else {
                    old(self).format
                },
                ..*old(self)
            }),
    {
        assert(0 <= self.width * self.height <= 0xFFFF_FFFF * 0xFFFF_FFFF) by (nonlinear_arith)
            requires
                0 <= self.width <= 0xFFFF_FFFF,
                0 <= self.height <= 0xFFFF_FFFF,
        ;
        let expected_yuyv: u128 = self.width as u128 * self.height as u128 * 2;
        match self.format {
            CaptureFormat::Yuyv => {
                if len as u128 >= expected_yuyv {
                    RawFormat::Yuyv
                } else {
                    self.format = CaptureFormat::Mjpeg;
                    RawFormat::Mjpeg
                }
            },
            CaptureFormat::Grey => RawFormat::Grey,
            CaptureFormat::Mjpeg => RawFormat::Mjpeg,
        }
    }

    /// Get the capture format.
    pub fn format_name(&self) -> (r: &'static str)
        ensures
            r@ == (match self.format {
                CaptureFormat::Mjpeg => "MJPEG"@,
                CaptureFormat::Yuyv => "YUYV"@,
                CaptureFormat::Grey => "GREY"@,
            }),
    {
        match self.format {
            CaptureFormat::Mjpeg => "MJPEG",
            CaptureFormat::Yuyv => "YUYV",
            CaptureFormat::Grey => "GREY",
        }
    }

    /// Check if the camera is capturing in YUYV format (good for hardware encoding).
    pub fn is_yuyv(&self) -> (r: bool)
        ensures
            r == (self.format == CaptureFormat::Yuyv),
    {
        self.format == CaptureFormat::Yuyv
    }

    /// Check if the camera is capturing in greyscale (Y8) format.
    pub fn is_grey(&self) -> (r: bool)
        ensures
            r == (self.format == CaptureFormat::Grey),
    {
        self.format == CaptureFormat::Grey
    }
}

/// The RGB pixels of an MJPEG frame. Whatever size the camera was set to, they are those of the
/// image in the frame.
pub fn mjpeg_to_rgb(data: &[u8]) -> (r: Result<Vec<u8>, FrameError>)
    ensures
        match r {
            Ok(rgb) => picture_in(data@) matches Some((_, _, pixels)) && rgb@ == pixels,
            Err(e) => picture_in(data@) is None && e == FrameError::NotDecodable,
        },
{
    match Frame::from_jpeg(data) {
        Ok(frame) => Ok(frame.data),
        Err(e) => Err(e),
    }
}

/// Each of the first `n` grey values three times.
pub open spec fn tripled(grey: Seq<u8>, n: int) -> Seq<u8>
    decreases n,
{
    if n <= 0 {
        Seq::empty()
    } else {
        tripled(grey, n - 1) + seq![grey[n - 1], grey[n - 1], grey[n - 1]]
    }
}

/// Each pixel of a grey frame has its value as red, green and blue.
pub proof fn grey_pixels_keep_their_value(grey: Seq<u8>, n: int, i: int)
    requires
        0 <= i < n <= grey.len(),
    ensures
        tripled(grey, n).len() == 3 * n,
        rgb_at(tripled(grey, n), i) == (grey[i], grey[i], grey[i]),
    decreases n,
{
    tripled_len(grey, n - 1);
    if i < n - 1 {
        grey_pixels_keep_their_value(grey, n - 1, i);
        let (s, t) = (tripled(grey, n), tripled(grey, n - 1));
        assert(s[3 * i] == t[3 * i] && s[3 * i + 1] == t[3 * i + 1] && s[3 * i + 2] == t[3 * i + 2]);
    }
}

proof fn tripled_len(grey: Seq<u8>, n: int)
    requires
        0 <= n,
    ensures
        tripled(grey, n).len() == 3 * n,
    decreases n,
{
    if n > 0 {
        tripled_len(grey, n - 1);
    }
}

/// The RGB pixels of a grey frame.
pub fn grey_to_rgb(data: &[u8], width: u32, height: u32) -> (r: Vec<u8>)
    requires
        width * height <= data@.len(),
    ensures
        r@ == tripled(data@, width * height),
{
    assert(width * height >= 0) by (nonlinear_arith)
        requires
            width >= 0,
            height >= 0,
    ;
    let total: usize = data.len();
    assert(width * height <= u64::MAX) by (nonlinear_arith)
        requires
            width * height <= total,
            total <= usize::MAX,
    ;
    let pixels: u64 = width as u64 * height as u64;
    let mut rgb: Vec<u8> = Vec::new();
    let mut i: usize = 0;
    while (i as u64) < pixels
        invariant
            i <= pixels == width * height <= data@.len(),
            pixels <= usize::MAX,
            rgb@ == tripled(data@, i as int),
        decreases pixels - i,
    {
        let y: u8 = data[i];
        let ghost before = rgb@;
        rgb.push(y);
        rgb.push(y);
        rgb.push(y);
        assert(rgb@ =~= before + seq![y, y, y]);
        i = i + 1;
    }
    rgb
}

/// The index of the camera with a device file of this name: the number behind `video`.
pub open spec fn index_of_name(name: Seq<char>) -> Option<int> {
    if starts_with(name, "video"@) {
        parsed(name.skip(5), u32::MAX as int)
    } else {
        None
    }
}

/// The name of a camera's device file gives its index back.
pub proof fn device_name_gives_the_index(index: u32)
    ensures
        index_of_name("video"@ + decimal(index as nat)) == Some(index as int),
        "/dev/video"@ + decimal(index as nat) == "/dev/"@ + ("video"@ + decimal(index as nat)),
{
    reveal_strlit("video");
    reveal_strlit("/dev/");
    reveal_strlit("/dev/video");
    let d = decimal(index as nat);
    let name = "video"@ + d;
    assert(name.take("video"@.len() as int) =~= "video"@);
    assert(name.skip(5) =~= d);
    assert("/dev/video"@ + d =~= "/dev/"@ + name);
    decimal_parses(index as nat, u32::MAX as int);
}

/// Reads the index of a camera from the name of its device file.
pub fn device_index(name: &str) -> (r: Option<u32>)
    ensures
        match r {
            Some(n) => index_of_name(name@) == Some(n as int),
            None => index_of_name(name@) is None,
        },
{
    proof {
        reveal_strlit("video");
    }
    let chars = chars_of(name);
    if !has_prefix(&chars, "video") {
        return None;
    }
    let rest = slice_subrange(chars.as_slice(), 5, chars.len());
    assert(rest@ =~= name@.skip(5));
    match parse_number(&string_of(rest), u32::MAX as u64) {
        Some(n) => Some(n as u32),
        None => None,
    }
}

/// The device file of a camera.
pub fn device_path(index: u32) -> (r: String)
    ensures
        r@ == "/dev/video"@ + decimal(index as nat),
{
    joined2("/dev/video", &decimal_of(index as u64))
}

/// The name of a camera: what the device says, else one that goes by the index.
pub fn camera_name(index: u32, card: Option<String>) -> (r: String)
    ensures
        r@ == (match card {
            Some(name) => name@,
            None => "Camera "@ + decimal(index as nat),
        }),
{
    match card {
        Some(name) => name,
        None => joined2("Camera ", &decimal_of(index as u64)),
    }
}

/// Whether cameras are in the order of their indices.
pub open spec fn in_order(list: Seq<CameraInfo>) -> bool {
    forall|i: int, j: int| 0 <= i <= j < list.len() ==> list[i].index <= list[j].index
}

/// The cameras with a given index, in their order.
pub open spec fn with_index(list: Seq<CameraInfo>, index: u32) -> Seq<CameraInfo>
    decreases list.len(),
{
    if list.len() == 0 {
        Seq::empty()
    } else if list[0].index == index {
        seq![list[0]] + with_index(list.skip(1), index)
    } else {
        with_index(list.skip(1), index)
    }
}

proof fn with_index_of_sum(a: Seq<CameraInfo>, b: Seq<CameraInfo>, index: u32)
    ensures
        with_index(a + b, index) == with_index(a, index) + with_index(b, index),
    decreases a.len(),
{
    if a.len() == 0 {
        assert(a + b =~= b);
        assert(with_index(a, index) + with_index(b, index) =~= with_index(b, index));
    } else {
        with_index_of_sum(a.skip(1), b, index);
        assert((a + b).skip(1) =~= a.skip(1) + b);
        assert((a + b)[0] == a[0]);
        assert(seq![a[0]] + (with_index(a.skip(1), index) + with_index(b, index)) =~= seq![a[0]]
            + with_index(a.skip(1), index) + with_index(b, index));
    }
}

proof fn with_index_of_one(c: CameraInfo, index: u32)
    ensures
        with_index(seq![c], index) == (if c.index == index {
            seq![c]
        } else {
            Seq::empty()
        }),
{
    assert(seq![c].skip(1) =~= Seq::<CameraInfo>::empty());
    assert(with_index(Seq::<CameraInfo>::empty(), index) =~= Seq::<CameraInfo>::empty());
    assert(seq![c] + Seq::<CameraInfo>::empty() =~= seq![c]);
}

proof fn with_index_of_others(list: Seq<CameraInfo>, index: u32)
    requires
        forall|i: int| 0 <= i < list.len() ==> (#[trigger] list[i]).index != index,
    ensures
        with_index(list, index) == Seq::<CameraInfo>::empty(),
    decreases list.len(),
{
    if list.len() > 0 {
        assert(forall|i: int| 0 <= i < list.skip(1).len() ==> list.skip(1)[i] == list[i + 1]);
        with_index_of_others(list.skip(1), index);
    }
}

proof fn insertion_keeps(a: Seq<CameraInfo>, c: CameraInfo, b: Seq<CameraInfo>, index: u32)
    requires
        forall|i: int| 0 <= i < a.len() ==> (#[trigger] a[i]).index < c.index,
    ensures
        with_index(a + seq![c] + b, index) == with_index(seq![c] + (a + b), index),
{
    with_index_of_sum(a + seq![c], b, index);
    with_index_of_sum(a, seq![c], index);
    with_index_of_sum(seq![c], a + b, index);
    with_index_of_sum(a, b, index);
    with_index_of_one(c, index);
    let fa = with_index(a, index);
    let fb = with_index(b, index);
    let fc = with_index(seq![c], index);
    if c.index == index {
        with_index_of_others(a, index);
    }
    assert(fa + fc + fb =~= fc + (fa + fb));
}

/// Puts cameras in the order of their indices; those with the same index keep their order.
pub fn sort_by_index(cameras: Vec<CameraInfo>) -> (r: Vec<CameraInfo>)
    ensures
        in_order(r@),
        r@.len() == cameras@.len(),
        forall|index: u32| #[trigger] with_index(r@, index) == with_index(cameras@, index),
{
    let ghost all = cameras@;
    let mut left = cameras;
    let mut sorted: Vec<CameraInfo> = Vec::new();
    assert(left@ + sorted@ =~= all);
    while left.len() > 0
        invariant
            in_order(sorted@),
            left@.len() + sorted@.len() == all.len(),
            forall|index: u32| #[trigger]
                with_index(left@ + sorted@, index) == with_index(all, index),
        decreases left.len(),
    {
        let ghost front = left@;
        let ghost done = sorted@;
        let camera = match left.pop() {
            Some(c) => c,
            None => return sorted,
        };
        let mut at: usize = 0;
        while at < sorted.len() && sorted[at].index < camera.index
            invariant
                at <= sorted@.len(),
                forall|i: int| 0 <= i < at ==> (#[trigger] sorted@[i]).index < camera.index,
            decreases sorted@.len() - at,
        {
            at = at + 1;
        }
        sorted.insert(at, camera);
        proof {
            let a = done.take(at as int);
            let b = done.skip(at as int);
            assert(sorted@ =~= a + seq![camera] + b);
            assert(a + b =~= done);
            assert(front =~= left@ + seq![camera]);
            assert forall|index: u32| #[trigger] with_index(left@ + sorted@, index) == with_index(
                all,
                index,
            ) by {
                insertion_keeps(a, camera, b, index);
                with_index_of_sum(left@, sorted@, index);
                with_index_of_sum(left@, seq![camera] + done, index);
                assert(front + done =~= left@ + (seq![camera] + done));
                assert(with_index(front + done, index) == with_index(all, index));
            }
        }
    }
    assert(left@ + sorted@ =~= sorted@);
    sorted
}

/// Data is taken for YUYV if and only if the camera is set to it and the data holds the luma and the
/// chroma of every pixel.
pub proof fn yuyv_covers_every_pixel(c: Capture, len: int)
    requires
        len >= 0,
    ensures
        c.raw_format(len) == RawFormat::Yuyv <==> c.format == CaptureFormat::Yuyv && forall|x: int, y: int|
            0 <= x < c.width && 0 <= y < c.height ==> #[trigger] (2 * (y * c.width + x)) + 1 < len,
        c.format == CaptureFormat::Grey <==> c.raw_format(len) == RawFormat::Grey,
        c.raw_format(len) != RawFormat::Bgra,
{
    let (w, h) = (c.width as int, c.height as int);
    assert(w * h >= 0) by (nonlinear_arith)
        requires
            w >= 0,
            h >= 0,
    ;
    assert(c.width * c.height * 2 == 2 * (w * h)) by (nonlinear_arith)
        requires
            w == c.width,
            h == c.height,
    ;
    if len >= 2 * (w * h) {
        assert forall|x: int, y: int| 0 <= x < w && 0 <= y < h implies #[trigger] (2 * (y * w + x)) + 1
            < len by {
            assert(y * w + w <= w * h) by (nonlinear_arith)
                requires
                    y + 1 <= h,
                    w >= 0,
            ;
        }
    } else {
        assert(w > 0 && h > 0) by (nonlinear_arith)
            requires
                0 <= len < 2 * (w * h),
                w >= 0,
                h >= 0,
        ;
        assert((h - 1) * w + (w - 1) == w * h - 1) by (nonlinear_arith);
        let last = 2 * ((h - 1) * w + (w - 1));
        assert(last + 1 >= len);
    }
}

/// A range that holds one width and one height covers what that size covers: itself alone.
pub proof fn single_size_is_a_range(width: u32, height: u32, w: u32, h: u32, step_w: u32, step_h: u32)
    ensures
        ({
            let size = FrameSize::Discrete { width, height };
            let range = FrameSize::Stepwise {
                min_width: width,
                max_width: width,
                step_width: step_w,
                min_height: height,
                max_height: height,
                step_height: step_h,
            };
            &&& size.covers(w, h) == range.covers(w, h)
            &&& size.covers(width, height)
            &&& size.covers(w, h) ==> (w, h) == (width, height)
        }),
{
    assert(step_w > 0 ==> 0int % (step_w as int) == 0) by (nonlinear_arith);
    assert(step_h > 0 ==> 0int % (step_h as int) == 0) by (nonlinear_arith);
}

/// A wider range covers what a narrower one with the same steps covers, in width and in height alike.
pub proof fn wider_range_covers_more(narrow: FrameSize, max_w: u32, max_h: u32, w: u32, h: u32)
    requires
        narrow is Stepwise,
        narrow->max_width <= max_w,
        narrow->max_height <= max_h,
        narrow.covers(w, h),
    ensures
        (FrameSize::Stepwise {
            min_width: narrow->min_width,
            max_width: max_w,
            step_width: narrow->step_width,
            min_height: narrow->min_height,
            max_height: max_h,
            step_height: narrow->step_height,
        }).covers(w, h),
        narrow->min_width <= w <= narrow->max_width,
        narrow->min_height <= h <= narrow->max_height,
{
}

/// A camera that takes a format which it advertises is set to it: YUYV where that is preferred, MJPEG
/// else, and YUYV once MJPEG was refused. Only what a camera has taken is the format.
pub proof fn formats_are_tried_before_giving_up(
    prefer_yuyv: bool,
    yuyv_ok: bool,
    got: Option<[u8; 4]>,
    yuyv: [u8; 4],
    mjpg: [u8; 4],
)
    requires
        yuyv@ == seq!['Y' as u8, 'U' as u8, 'Y' as u8, 'V' as u8],
        mjpg@ == seq!['M' as u8, 'J' as u8, 'P' as u8, 'G' as u8],
    ensures
        FormatAttempt::PreferredYuyv.next(prefer_yuyv, yuyv_ok, Some(yuyv)) == Ok::<_, FormatAttempt>(
            CaptureFormat::Yuyv,
        ),
        FormatAttempt::PreferredYuyv.next(prefer_yuyv, yuyv_ok, None) matches Err(second)
            && second.next(prefer_yuyv, yuyv_ok, Some(mjpg)) == Ok::<_, FormatAttempt>(
            CaptureFormat::Mjpeg,
        ),
        FormatAttempt::Mjpeg.next(prefer_yuyv, yuyv_ok, None) matches Err(last) && (if yuyv_ok
            && !prefer_yuyv {
            last != FormatAttempt::Current && last.next(prefer_yuyv, yuyv_ok, Some(yuyv)) == Ok::<
                _,
                FormatAttempt,
            >(CaptureFormat::Yuyv) && last.next(prefer_yuyv, yuyv_ok, None) == Err::<CaptureFormat, _>(
                FormatAttempt::Current,
            )
        } else {
            last == FormatAttempt::Current
        }),
        FormatAttempt::Current.next(prefer_yuyv, yuyv_ok, Some(yuyv)) == Ok::<_, FormatAttempt>(
            CaptureFormat::Yuyv,
        ),
        forall|attempt: FormatAttempt|
            #[trigger] attempt.next(prefer_yuyv, yuyv_ok, got) is Ok ==> got is Some,
        forall|attempt: FormatAttempt|
            (#[trigger] attempt.next(prefer_yuyv, yuyv_ok, got) == Ok::<_, FormatAttempt>(
                CaptureFormat::Yuyv,
            ) ==> got->0@ == yuyv@),
{
}

} // verus!
