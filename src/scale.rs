//! Physical units of the raw fields.
//!
//! An axis is shown as `raw / 32768 * full_scale` for the frame types that
//! have a defined range; magnetic and unknown frames stay in raw counts.

use vstd::prelude::*;
use crate::frame::FrameType;

verus! {

/// The raw value that stands for the full-scale reading.
pub const RAW_FULL_SCALE: u32 = 32768;

/// Full scale of acceleration, in g.
pub const ACCEL_FULL_SCALE: u32 = 16;

/// Full scale of angular rate, in degrees per second.
pub const GYRO_FULL_SCALE: u32 = 2000;

/// Full scale of attitude angle, in degrees.
pub const ANGLE_FULL_SCALE: u32 = 180;

/// How the axes of a frame type are converted for display.
#[derive(Debug, Clone, Copy, PartialEq, Eq, Structural)]
pub enum Scaling {
    /// `raw / 32768 * full_scale`, for the given full scale.
    FullScale(u32),
    /// Raw counts: the unit depends on the device.
    RawCounts,
    /// Not a known type: shown as it came.
    Unscaled,
}

pub open spec fn scaling_spec(t: FrameType) -> Scaling {
    match t {
        FrameType::Acceleration => Scaling::FullScale(ACCEL_FULL_SCALE),
        FrameType::Gyroscope => Scaling::FullScale(GYRO_FULL_SCALE),
        FrameType::Angle => Scaling::FullScale(ANGLE_FULL_SCALE),
        FrameType::Magnetic => Scaling::RawCounts,
        FrameType::Unknown(_) => Scaling::Unscaled,
    }
}

/// The conversion that applies to the axes of frames of type `t`.
pub fn scaling(t: FrameType) -> (r: Scaling)
    ensures
        r == scaling_spec(t),
{
    match t {
        FrameType::Acceleration => Scaling::FullScale(ACCEL_FULL_SCALE),
        FrameType::Gyroscope => Scaling::FullScale(GYRO_FULL_SCALE),
        FrameType::Angle => Scaling::FullScale(ANGLE_FULL_SCALE),
        FrameType::Magnetic => Scaling::RawCounts,
        FrameType::Unknown(_) => Scaling::Unscaled,
    }
}

} // verus!
