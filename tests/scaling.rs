use witmotion_rs::scale::{scaling, Scaling, RAW_FULL_SCALE};
use witmotion_rs::FrameType;

fn scaled(t: FrameType, raw: i16) -> f64 {
    match scaling(t) {
        Scaling::FullScale(fs) => raw as f64 / RAW_FULL_SCALE as f64 * fs as f64,
        Scaling::RawCounts | Scaling::Unscaled => raw as f64,
    }
}

#[test]
fn full_scale_of_each_type() {
    assert_eq!(scaling(FrameType::Acceleration), Scaling::FullScale(16));
    assert_eq!(scaling(FrameType::Gyroscope), Scaling::FullScale(2000));
    assert_eq!(scaling(FrameType::Angle), Scaling::FullScale(180));
    assert_eq!(scaling(FrameType::Magnetic), Scaling::RawCounts);
    assert_eq!(scaling(FrameType::Unknown(0x60)), Scaling::Unscaled);
}

#[test]
fn max_acceleration_is_sixteen_g() {
    assert!((scaled(FrameType::Acceleration, 32767) - 16.0).abs() < 1e-3);
    assert!((scaled(FrameType::Gyroscope, -32768) + 2000.0).abs() < 1e-9);
    assert!((scaled(FrameType::Angle, 16384) - 90.0).abs() < 1e-9);
}

#[test]
fn zero_scales_to_zero() {
    for t in [
        FrameType::Acceleration,
        FrameType::Gyroscope,
        FrameType::Angle,
        FrameType::Magnetic,
        FrameType::Unknown(0),
    ] {
        assert_eq!(scaled(t, 0), 0.0);
    }
}
