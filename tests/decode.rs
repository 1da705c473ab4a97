use witmotion_rs::frame::WIT_MAG;
use witmotion_rs::{checksum_valid, parse_frame, FrameType, WitmotionFrame, WIT_ACC, WIT_ANGLE, WIT_GYRO};

fn frame_bytes(id: u8, x: i16, y: i16, z: i16, t: i16) -> Vec<u8> {
    let mut b = vec![0x55, id];
    for v in [x, y, z, t] {
        b.extend_from_slice(&v.to_le_bytes());
    }
    let sum: u32 = b.iter().map(|&v| v as u32).sum();
    b.push((sum & 0xFF) as u8);
    b
}

#[test]
fn decodes_acceleration_frame() {
    let b = frame_bytes(WIT_ACC, 100, -200, 16384, 3600);
    assert_eq!(
        parse_frame(&b),
        Some(WitmotionFrame {
            frame_type: FrameType::Acceleration,
            x: 100,
            y: -200,
            z: 16384,
            temperature: 3600,
        })
    );
}

#[test]
fn decodes_hand_written_frame() {
    // x = 0x1234, y = -1 (FF FF), z = -32768 (00 80), t = 32767 (FF 7F)
    let mut b = vec![0x55, 0x52, 0x34, 0x12, 0xFF, 0xFF, 0x00, 0x80, 0xFF, 0x7F];
    let sum: u32 = b.iter().map(|&v| v as u32).sum();
    assert_eq!(sum & 0xFF, 0xE9);
    b.push(0xE9);
    let f = parse_frame(&b).unwrap();
    assert_eq!(f.frame_type, FrameType::Gyroscope);
    assert_eq!(f.x, 0x1234);
    assert_eq!(f.y, -1);
    assert_eq!(f.z, -32768);
    assert_eq!(f.temperature, 32767);
}

#[test]
fn classifies_every_type_id() {
    assert_eq!(parse_frame(&frame_bytes(WIT_GYRO, 0, 0, 0, 0)).unwrap().frame_type, FrameType::Gyroscope);
    assert_eq!(parse_frame(&frame_bytes(WIT_ANGLE, 0, 0, 0, 0)).unwrap().frame_type, FrameType::Angle);
    assert_eq!(parse_frame(&frame_bytes(WIT_MAG, 0, 0, 0, 0)).unwrap().frame_type, FrameType::Magnetic);
    assert_eq!(parse_frame(&frame_bytes(0x59, 0, 0, 0, 0)).unwrap().frame_type, FrameType::Unknown(0x59));
}

#[test]
fn rejects_wrong_length() {
    let b = frame_bytes(WIT_ACC, 1, 2, 3, 4);
    assert_eq!(parse_frame(&b[..10]), None);
    let mut longer = b.clone();
    longer.push(0);
    assert_eq!(parse_frame(&longer), None);
    assert_eq!(parse_frame(&[]), None);
}

#[test]
fn rejects_missing_sync() {
    let mut b = frame_bytes(WIT_ACC, 1, 2, 3, 4);
    b[0] = 0x54;
    // keep the checksum right for the altered first byte
    b[10] = b[10].wrapping_sub(1);
    assert!(checksum_valid(&b));
    assert_eq!(parse_frame(&b), None);
}

#[test]
fn rejects_bad_checksum() {
    let mut b = frame_bytes(WIT_ACC, 1, 2, 3, 4);
    b[10] = b[10].wrapping_add(1);
    assert!(!checksum_valid(&b));
    assert_eq!(parse_frame(&b), None);
}

#[test]
fn checksum_rejects_short_input() {
    let b = frame_bytes(WIT_ACC, 1, 2, 3, 4);
    assert!(checksum_valid(&b));
    assert!(!checksum_valid(&b[..10]));
}

#[test]
fn checksum_is_low_byte_of_sum() {
    // ten bytes of 0xFF sum to 2550 = 0x9F6
    let mut b = vec![0xFFu8; 10];
    b.push(0xF6);
    assert!(checksum_valid(&b));
    b[10] = 0xF7;
    assert!(!checksum_valid(&b));
}

#[test]
fn checksum_catches_every_single_bit_flip() {
    let b = frame_bytes(WIT_ANGLE, -5, 1234, -32000, 2500);
    for i in 0..11 {
        for bit in 0..8 {
            let mut c = b.clone();
            c[i] ^= 1 << bit;
            assert!(!checksum_valid(&c), "byte {} bit {}", i, bit);
            assert_eq!(parse_frame(&c), None);
        }
    }
}
