//! The wire format of one frame and its decoder.

use vstd::prelude::*;

verus! {

/// Type id of an acceleration frame.
pub const WIT_ACC: u8 = 0x51;

/// Type id of an angular-rate frame.
pub const WIT_GYRO: u8 = 0x52;

/// Type id of an attitude-angle frame.
pub const WIT_ANGLE: u8 = 0x53;

/// Type id of a magnetic-field frame.
pub const WIT_MAG: u8 = 0x54;

/// First byte of every frame.
pub const SYNC: u8 = 0x55;

/// Length of a frame on the wire, checksum included.
pub const FRAME_LEN: usize = 11;

/// What a frame carries, taken from its type id. Unrecognised ids are kept.
#[derive(Debug, Clone, Copy, PartialEq, Eq, Structural)]
pub enum FrameType {
    Acceleration,
    Gyroscope,
    Angle,
    Magnetic,
    Unknown(u8),
}

/// One decoded frame: three axes and the temperature, in raw device counts.
#[derive(Debug, Clone, Copy, PartialEq, Eq, Structural)]
pub struct WitmotionFrame {
    pub frame_type: FrameType,
    pub x: i16,
    pub y: i16,
    pub z: i16,
    pub temperature: i16,
}

/// The classification of a type id.
pub open spec fn frame_type_of(id: u8) -> FrameType {
    if id == 0x51 {
        FrameType::Acceleration
    } else if id == 0x52 {
        FrameType::Gyroscope
    } else if id == 0x53 {
        FrameType::Angle
    } else if id == 0x54 {
        FrameType::Magnetic
    } else {
        FrameType::Unknown(id)
    }
}

/// The little-endian two's-complement value of the byte pair `lo`, `hi`.
pub open spec fn le_i16(lo: u8, hi: u8) -> int {
    if hi < 128 {
        hi * 256 + lo
    } else {
        hi * 256 + lo - 65536
    }
}

/// Sum of the bytes of `s`, as an unbounded integer.
pub open spec fn byte_sum(s: Seq<u8>) -> int
    decreases s.len(),
{
    if s.len() == 0 {
        0
    } else {
        byte_sum(s.drop_last()) + s.last()
    }
}

/// The checksum of the frame whose first ten bytes are those of `s`.
pub open spec fn checksum_of(s: Seq<u8>) -> int {
    byte_sum(s.take(10)) % 256
}

/// `s` holds at least eleven bytes and its eleventh is the checksum of the ten before.
pub open spec fn spec_checksum_valid(s: Seq<u8>) -> bool {
    s.len() >= 11 && s[10] == checksum_of(s)
}

/// `s` is exactly one frame: sync byte first, matching checksum last.
pub open spec fn is_frame(s: Seq<u8>) -> bool {
    s.len() == 11 && s[0] == SYNC && spec_checksum_valid(s)
}

/// The fields that the bytes of a frame carry.
pub open spec fn frame_fields(s: Seq<u8>) -> WitmotionFrame {
    WitmotionFrame {
        frame_type: frame_type_of(s[1]),
        x: le_i16(s[2], s[3]) as i16,
        y: le_i16(s[4], s[5]) as i16,
        z: le_i16(s[6], s[7]) as i16,
        temperature: le_i16(s[8], s[9]) as i16,
    }
}

/// The decoding of a candidate frame: its fields when it is one, else nothing.
pub open spec fn decode(s: Seq<u8>) -> Option<WitmotionFrame> {
    if is_frame(s) {
        Some(frame_fields(s))
    } else {
        None
    }
}

proof fn lemma_byte_sum_bound(s: Seq<u8>)
    ensures
        0 <= byte_sum(s) <= 255 * s.len(),
    decreases s.len(),
{
    if s.len() > 0 {
        lemma_byte_sum_bound(s.drop_last());
    }
}

/// Input that is not eleven bytes, does not start with the sync byte or
/// carries a wrong checksum decodes to nothing.
pub proof fn lemma_decode_rejects(b: Seq<u8>)
    requires
        b.len() != 11 || b[0] != SYNC || !spec_checksum_valid(b),
    ensures
        decode(b) is None,
{
}

/// A ten-byte payload that starts with the sync byte, followed by its
/// checksum, decodes to the frame whose axes and temperature are the
/// little-endian signed values of the payload's byte pairs.
pub proof fn lemma_decode_payload(p: Seq<u8>)
    requires
        p.len() == 10,
        p[0] == SYNC,
    ensures
        decode(p.push(checksum_of(p) as u8)) == Some(
            WitmotionFrame {
                frame_type: frame_type_of(p[1]),
                x: le_i16(p[2], p[3]) as i16,
                y: le_i16(p[4], p[5]) as i16,
                z: le_i16(p[6], p[7]) as i16,
                temperature: le_i16(p[8], p[9]) as i16,
            },
        ),
{
    let b = p.push(checksum_of(p) as u8);
    assert(b.take(10) =~= p);
    assert(p.take(10) =~= p);
    lemma_byte_sum_bound(p);
}

proof fn lemma_byte_sum_update(s: Seq<u8>, i: int, v: u8)
    requires
        0 <= i < s.len(),
    ensures
        byte_sum(s.update(i, v)) == byte_sum(s) - s[i] + v,
    decreases s.len(),
{
    if i == s.len() - 1 {
        assert(s.update(i, v).drop_last() =~= s.drop_last());
    } else {
        assert(s.update(i, v).drop_last() =~= s.drop_last().update(i, v));
        lemma_byte_sum_update(s.drop_last(), i, v);
    }
}

/// The checksum catches every change of a single byte of a valid frame,
/// the checksum byte included; a single flipped bit is such a change.
pub proof fn lemma_checksum_detects_byte_change(b: Seq<u8>, i: int, v: u8)
    requires
        b.len() == 11,
        spec_checksum_valid(b),
        0 <= i < 11,
        v != b[i],
    ensures
        !spec_checksum_valid(b.update(i, v)),
{
    let c = b.update(i, v);
    if i == 10 {
        assert(c.take(10) =~= b.take(10));
    } else {
        assert(c.take(10) =~= b.take(10).update(i, v));
        lemma_byte_sum_update(b.take(10), i, v);
        lemma_byte_sum_bound(b.take(10));
        let s = byte_sum(b.take(10));
        let d = v - b[i];
        assert(-256 < d < 256 && d != 0);
        assert((s + d) % 256 != s % 256) by (nonlinear_arith)
            requires
                -256 < d < 256,
                d != 0,
                s >= 0,
        {
        }
    }
}

/// Whether the eleventh byte of `data` is the checksum of its first ten.
/// Shorter input is rejected.
pub fn checksum_valid(data: &[u8]) -> (r: bool)
    ensures
        r == spec_checksum_valid(data@),
{
    if data.len() < 11 {
        return false;
    }
    let mut sum: u16 = 0;
    let mut i: usize = 0;
    while i < 10
        invariant
            data@.len() >= 11,
            i <= 10,
            sum == byte_sum(data@.take(i as int)),
        decreases 10 - i,
    {
        proof {
            assert(data@.take(i + 1).drop_last() =~= data@.take(i as int));
            lemma_byte_sum_bound(data@.take(i as int));
        }
        sum = sum + data[i] as u16;
        i = i + 1;
    }
    data[10] as u16 == sum % 256
}

/// The value of the little-endian signed 16-bit integer in `lo`, `hi`.
fn i16_from_le(lo: u8, hi: u8) -> (r: i16)
    ensures
        r == le_i16(lo, hi),
{
    if hi < 128 {
        (hi as i16) * 256 + lo as i16
    } else {
        ((hi as i32) * 256 + lo as i32 - 65536) as i16
    }
}

/// Decodes `data` as one frame. It must be eleven bytes, start with the sync
/// byte and carry a matching checksum; otherwise there is no frame.
pub fn parse_frame(data: &[u8]) -> (r: Option<WitmotionFrame>)
    ensures
        r == decode(data@),
{
    if data.len() != 11 || data[0] != SYNC || !checksum_valid(data) {
        return None;
    }
    let id = data[1];
    let frame_type = if id == WIT_ACC {
        FrameType::Acceleration
    } else if id == WIT_GYRO {
        FrameType::Gyroscope
    } else if id == WIT_ANGLE {
        FrameType::Angle
    } else if id == WIT_MAG {
        FrameType::Magnetic
    } else {
        FrameType::Unknown(id)
    };
    Some(WitmotionFrame {
        frame_type,
        x: i16_from_le(data[2], data[3]),
        y: i16_from_le(data[4], data[5]),
        z: i16_from_le(data[6], data[7]),
        temperature: i16_from_le(data[8], data[9]),
    })
}

} // verus!
