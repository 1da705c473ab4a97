use witmotion_rs::stream::FrameStream;
use witmotion_rs::{extract_frames, FrameType, WitmotionFrame};

fn frame_bytes(id: u8, x: i16, y: i16, z: i16, t: i16) -> Vec<u8> {
    let mut b = vec![0x55, id];
    for v in [x, y, z, t] {
        b.extend_from_slice(&v.to_le_bytes());
    }
    let sum: u32 = b.iter().map(|&v| v as u32).sum();
    b.push((sum & 0xFF) as u8);
    b
}

fn frame(t: FrameType, x: i16, y: i16, z: i16, temperature: i16) -> WitmotionFrame {
    WitmotionFrame { frame_type: t, x, y, z, temperature }
}

#[test]
fn resynchronizes_past_garbage() {
    let mut buf = vec![0x00, 0x13, 0xAA, 0x54];
    buf.extend(frame_bytes(0x51, 7, -7, 70, 30));
    buf.extend([0x01, 0x02, 0x03]);
    let frames = extract_frames(&buf);
    assert_eq!(frames, vec![frame(FrameType::Acceleration, 7, -7, 70, 30)]);

    let mut s = FrameStream::new();
    let out = s.push(&buf);
    assert_eq!(out, frames);
    assert_eq!(s.pending(), &[0x01, 0x02, 0x03]);
}

#[test]
fn extracts_two_frames_in_order() {
    let mut buf = frame_bytes(0x51, 1, 2, 3, 4);
    buf.extend(frame_bytes(0x53, -1, -2, -3, -4));
    let frames = extract_frames(&buf);
    assert_eq!(
        frames,
        vec![
            frame(FrameType::Acceleration, 1, 2, 3, 4),
            frame(FrameType::Angle, -1, -2, -3, -4)
        ]
    );
    let mut s = FrameStream::new();
    assert_eq!(s.push(&buf), frames);
    assert!(s.pending().is_empty());
}

#[test]
fn sync_byte_with_bad_checksum_is_skipped() {
    let mut bad = frame_bytes(0x52, 9, 9, 9, 9);
    bad[10] ^= 0xFF;
    let mut buf = bad.clone();
    buf.extend(frame_bytes(0x52, 10, 20, 30, 40));
    assert_eq!(extract_frames(&buf), vec![frame(FrameType::Gyroscope, 10, 20, 30, 40)]);
}

#[test]
fn short_or_empty_buffer_gives_nothing() {
    assert!(extract_frames(&[]).is_empty());
    let b = frame_bytes(0x51, 1, 1, 1, 1);
    assert!(extract_frames(&b[..10]).is_empty());
    let mut s = FrameStream::new();
    assert!(s.push(&b[..10]).is_empty());
    assert_eq!(s.pending(), &b[..10]);
}

#[test]
fn frame_split_across_reads_is_reassembled() {
    let mut buf = vec![0x00, 0x01];
    buf.extend(frame_bytes(0x54, 100, 200, 300, 400));
    buf.extend(frame_bytes(0x51, -100, -200, -300, -400));
    let mut s = FrameStream::new();
    let mut got = Vec::new();
    for chunk in buf.chunks(5) {
        got.extend(s.push(chunk));
        assert!(s.pending().len() < 11);
    }
    assert_eq!(
        got,
        vec![
            frame(FrameType::Magnetic, 100, 200, 300, 400),
            frame(FrameType::Acceleration, -100, -200, -300, -400)
        ]
    );
    assert!(s.pending().is_empty());
}

#[test]
fn long_garbage_is_not_held() {
    let mut s = FrameStream::new();
    let noise = vec![0x11u8; 1000];
    assert!(s.push(&noise).is_empty());
    assert_eq!(s.pending().len(), 10);
}
