//! Intel RealSense cameras: which streams are opened, and how a calibration is applied.

use crate::text::joined2;
use vstd::prelude::*;

verus! {

/// A stream of the camera.
#[derive(Debug, Clone, Copy, PartialEq, Eq, Structural)]
pub enum StreamKind {
    /// RGB, 8 bits.
    Color,
    /// Depth, 16 bits.
    Depth,
    /// The accelerometer.
    Accel,
}

/// A stream to enable. Of an accelerometer any size and rate is taken.
#[derive(Debug, Clone, Copy, PartialEq, Eq, Structural)]
pub struct StreamRequest {
    pub kind: StreamKind,
    pub width: u32,
    pub height: u32,
    pub fps: u32,
    /// Whether the camera is of no use without it.
    pub required: bool,
}

/// The streams to enable: color and depth, and the accelerometer where it is tried.
pub open spec fn requested(width: u32, height: u32, fps: u32, accel: bool) -> Seq<StreamRequest> {
    let color = StreamRequest { kind: StreamKind::Color, width, height, fps, required: true };
    let depth = StreamRequest { kind: StreamKind::Depth, ..color };
    if accel {
        seq![
            color,
            depth,
            StreamRequest {
                kind: StreamKind::Accel,
                width: 0,
                height: 0,
                fps: 0,
                required: false,
            },
        ]
    } else {
        seq![color, depth]
    }
}

/// The streams to enable.
pub fn streams(width: u32, height: u32, fps: u32, accel: bool) -> (r: Vec<StreamRequest>)
    ensures
        r@ == requested(width, height, fps, accel),
{
    let mut list: Vec<StreamRequest> = Vec::new();
    list.push(StreamRequest { kind: StreamKind::Color, width, height, fps, required: true });
    list.push(StreamRequest { kind: StreamKind::Depth, width, height, fps, required: true });
    if accel {
        list.push(
            StreamRequest {
                kind: StreamKind::Accel,
                width: 0,
                height: 0,
                fps: 0,
                required: false,
            },
        );
    }
    assert(list@ =~= requested(width, height, fps, accel));
    list
}

/// What follows an attempt to start the streams.
#[derive(Debug, Clone, Copy, PartialEq, Eq, Structural)]
pub enum OpenStep {
    /// The camera is open, with or without its accelerometer.
    Opened { accel: bool },
    /// Start without the accelerometer.
    RetryWithoutAccel,
    /// Report the error.
    Fail,
}

/// Decides what follows an attempt to start the streams: one with the accelerometer comes first,
/// because a camera without one refuses only then.
pub fn after_start(accel: bool, started: bool) -> (r: OpenStep)
    ensures
        r == (if started {
            OpenStep::Opened { accel }
        } else if accel {
            OpenStep::RetryWithoutAccel
        } else {
            OpenStep::Fail
        }),
{
    if started {
        OpenStep::Opened { accel }
    } else if accel {
        OpenStep::RetryWithoutAccel
    } else {
        OpenStep::Fail
    }
}

/// The name or serial number of a device, "Unknown" where it has none.
pub fn device_info(info: Option<String>) -> (r: String)
    ensures
        r@ == (match info {
            Some(text) => text@,
            None => "Unknown"@,
        }),
{
    match info {
        Some(text) => text,
        None => "Unknown".to_owned(),
    }
}

/// Width of the depth stream that a calibration runs on.
pub const CALIBRATION_WIDTH: u32 = 256;

/// Height of the depth stream that a calibration runs on.
pub const CALIBRATION_HEIGHT: u32 = 144;

/// Rate of the depth stream that a calibration runs on.
pub const CALIBRATION_FPS: u32 = 90;

/// Frames to wait for before a calibration runs.
pub const WARMUP_FRAMES: u32 = 30;

/// A step in applying a calibration, in this order.
#[derive(Debug, Clone, Copy, PartialEq, Eq, Structural)]
pub enum CalibrationStep {
    /// Ask for the size of the calibration data.
    Size,
    /// Ask for the data.
    Data,
    /// Set the calibration table.
    SetTable,
    /// Write it to the EEPROM.
    Write,
}

/// What follows a step.
#[derive(Debug)]
pub enum AfterCalibration {
    /// Take the next step.
    Go(CalibrationStep),
    /// The calibration has been applied.
    Done,
    /// Give up with this message.
    Fail(String),
}

impl CalibrationStep {
    /// The step after this one.
    pub open spec fn next(self) -> Option<CalibrationStep> {
        match self {
            CalibrationStep::Size => Some(CalibrationStep::Data),
            CalibrationStep::Data => Some(CalibrationStep::SetTable),
            CalibrationStep::SetTable => Some(CalibrationStep::Write),
            CalibrationStep::Write => None,
        }
    }

    /// What is said when the step fails, before the reason.
    pub open spec fn complaint(self) -> Seq<char> {
        match self {
            CalibrationStep::Size => "Failed to get calibration data size: "@,
            CalibrationStep::Data => "Failed to get calibration data: "@,
            CalibrationStep::SetTable => "Failed to set calibration table: "@,
            CalibrationStep::Write => "Failed to write calibration to EEPROM: "@,
        }
    }

    /// What is said when the step succeeds but brings nothing, if it is to bring something.
    pub open spec fn absence(self) -> Option<Seq<char>> {
        match self {
            CalibrationStep::Size => Some("Calibration buffer is empty"@),
            CalibrationStep::Data => Some("Calibration data pointer is null"@),
            _ => None,
        }
    }

    /// Decides what follows the step, from the error that it brought, if any, and whether it
    /// brought a size or data.
    pub fn after(self, error: Option<&str>, present: bool) -> (r: AfterCalibration)
        ensures
            match error {
                Some(reason) => r matches AfterCalibration::Fail(m) && m@ == self.complaint() + reason@,
                None => if self.absence() is Some && !present {
                    r matches AfterCalibration::Fail(m) && Some(m@) == self.absence()
                } else {
                    match self.next() {
                        Some(step) => r == AfterCalibration::Go(step),
                        None => r is Done,
                    }
                },
            },
    {
        if let Some(reason) = error {
            let complaint = match self {
                CalibrationStep::Size => "Failed to get calibration data size: ",
                CalibrationStep::Data => "Failed to get calibration data: ",
                CalibrationStep::SetTable => "Failed to set calibration table: ",
                CalibrationStep::Write => "Failed to write calibration to EEPROM: ",
            };
            return AfterCalibration::Fail(joined2(complaint, reason));
        }
        match self {
            CalibrationStep::Size => if present {
                AfterCalibration::Go(CalibrationStep::Data)
            } else {
                AfterCalibration::Fail("Calibration buffer is empty".to_owned())
            },
            CalibrationStep::Data => if present {
                AfterCalibration::Go(CalibrationStep::SetTable)
            } else {
                AfterCalibration::Fail("Calibration data pointer is null".to_owned())
            },
            CalibrationStep::SetTable => AfterCalibration::Go(CalibrationStep::Write),
            CalibrationStep::Write => AfterCalibration::Done,
        }
    }
}

/// The reason that an error gives, "unknown error" where it gives none.
pub fn error_message(text: Option<String>) -> (r: String)
    ensures
        r@ == (match text {
            Some(t) => t@,
            None => "unknown error"@,
        }),
{
    match text {
        Some(t) => t,
        None => "unknown error".to_owned(),
    }
}

/// Which calibration was run.
#[derive(Debug, Clone, Copy, PartialEq, Eq, Structural)]
pub enum Calibration {
    /// On-chip calibration; `poor` says whether its health metric asks for it.
    OnChip { poor: bool },
    /// Tare calibration against a known distance.
    Tare,
}

/// Whether the table that a calibration brought is to be applied.
pub fn applies_table(run: Calibration, has_table: bool) -> (r: bool)
    ensures
        r == (has_table && (match run {
            Calibration::OnChip { poor } => poor,
            Calibration::Tare => true,
        })),
{
    has_table && match run {
        Calibration::OnChip { poor } => poor,
        Calibration::Tare => true,
    }
}

/// Whether a calibration counts as applied: whether its table was written to the camera's memory,
/// which `applied` says, whichever calibration was run.
pub fn counts_as_applied(_run: Calibration, applied: bool) -> (r: bool)
    ensures
        r == applied,
{
    applied
}

/// The picture streams are asked for with the same size and rate, whether or not the accelerometer is
/// tried; only the pictures are required.
pub proof fn pictures_are_requested_alike(width: u32, height: u32, fps: u32)
    ensures
        ({
            let with = requested(width, height, fps, true);
            let without = requested(width, height, fps, false);
            &&& with.len() == 3 && without.len() == 2
            &&& with.take(2) == without
            &&& forall|i: int|
                0 <= i < 3 ==> {
                    let s = #[trigger] with[i];
                    &&& s.required <==> s.kind != StreamKind::Accel
                    &&& s.required ==> s.width == width && s.height == height && s.fps == fps
                }
            &&& with[0].kind == StreamKind::Color && with[1].kind == StreamKind::Depth && with[2].kind
                == StreamKind::Accel
        }),
{
    assert(requested(width, height, fps, true).take(2) =~= requested(width, height, fps, false));
}

/// A calibration is written to the camera's memory last, and each step is taken once: the steps that
/// follow one another from the first are all there are.
pub proof fn every_step_is_taken(step: CalibrationStep)
    ensures
        step.next() is None <==> step == CalibrationStep::Write,
        step != CalibrationStep::Size ==> (step == CalibrationStep::Size.next()->0 || step
            == CalibrationStep::Size.next()->0.next()->0 || step
            == CalibrationStep::Size.next()->0.next()->0.next()->0),
        step.next() is Some ==> step.next()->0 != CalibrationStep::Size,
        step.next() == Some(CalibrationStep::Write) <==> step == CalibrationStep::SetTable,
        step.absence() is Some <==> step == CalibrationStep::Size || step.next() == Some(
            CalibrationStep::SetTable,
        ),
{
}

} // verus!
