//! The frame codec: an obfuscated 8-byte frame and the session key give the
//! decoded frame, whose tag byte and big-endian value make one sample.
use vstd::prelude::*;

verus! {

/// Tag of a frame that carries a CO2 concentration in ppm.
pub const METER_CO2: u8 = 0x50;

/// Tag of a frame that carries a raw temperature code.
pub const METER_TEMP: u8 = 0x42;

/// The fixed state subtracted from every rotated frame.
pub open spec fn unbias_state() -> Seq<u8> {
    seq![0x84u8, 0x47u8, 0x56u8, 0xd6u8, 0x07u8, 0x93u8, 0x93u8, 0x56u8]
}

/// Byte `i` of the raw frame goes to position `[2, 4, 0, 7, 1, 6, 5, 3][i]`.
/// That mapping is its own inverse, so position `j` receives byte
/// `[2, 4, 0, 7, 1, 6, 5, 3][j]`.
pub open spec fn permuted(raw: Seq<u8>) -> Seq<u8> {
    seq![raw[2], raw[4], raw[0], raw[7], raw[1], raw[6], raw[5], raw[3]]
}

/// Each byte XORed with the key byte at the same position.
pub open spec fn masked(data: Seq<u8>, key: Seq<u8>) -> Seq<u8> {
    Seq::new(8, |i: int| data[i] ^ key[i])
}

/// Each byte shifted right by three, its top bits taken from the low bits of
/// the byte before it (the byte before position 0 is position 7).
pub open spec fn rotated(data: Seq<u8>) -> Seq<u8> {
    Seq::new(8, |i: int| ((data[i] >> 3u8) | (data[(i + 7) % 8] << 5u8)) as u8)
}

/// Each byte minus the state byte at its position, modulo 256.
pub open spec fn unbiased(data: Seq<u8>) -> Seq<u8> {
    Seq::new(8, |i: int| ((256 + data[i] - unbias_state()[i]) % 256) as u8)
}

/// The decoded frame: permute, mask, rotate, unbias.
pub open spec fn decoded(raw: Seq<u8>, key: Seq<u8>) -> Seq<u8> {
    unbiased(rotated(masked(permuted(raw), key)))
}

/// The big-endian 16-bit value at bytes 1 and 2 of a decoded frame.
pub open spec fn frame_value(frame: Seq<u8>) -> int {
    frame[1] * 256 + frame[2]
}

/// A raw temperature code in Celsius tenths: `value / 16 - 273.15` in exact
/// arithmetic, times ten, rounded half away from zero.
pub open spec fn celsius_tenths(value: int) -> int {
    let n = 5 * value - 21852;
    if n >= 0 {
        (n + 4) / 8
    } else {
        -((4 - n) / 8)
    }
}

/// One reading of a decoded frame.
#[derive(Debug, Clone, Copy, PartialEq, Eq, Structural)]
pub enum Sample {
    /// CO2 concentration in ppm.
    Co2(u32),
    /// Temperature in tenths of a degree Celsius.
    Temperature(i64),
}

/// The sample a decoded frame carries, if its tag is a known one.
pub open spec fn sample_of(frame: Seq<u8>) -> Option<Sample> {
    if frame[0] == METER_CO2 {
        Some(Sample::Co2(frame_value(frame) as u32))
    } else if frame[0] == METER_TEMP {
        Some(Sample::Temperature(celsius_tenths(frame_value(frame)) as i64))
    } else {
        None
    }
}

/// First stage: the fixed byte shuffle.
pub fn permute(raw: &[u8; 8]) -> (r: [u8; 8])
    ensures
        r@ == permuted(raw@),
{
    let r: [u8; 8] = [raw[2], raw[4], raw[0], raw[7], raw[1], raw[6], raw[5], raw[3]];
    assert(r@ =~= permuted(raw@));
    r
}

/// Second stage: XOR with the session key.
pub fn mask(data: &[u8; 8], key: &[u8; 8]) -> (r: [u8; 8])
    ensures
        r@ == masked(data@, key@),
{
    let r: [u8; 8] = [
        data[0] ^ key[0],
        data[1] ^ key[1],
        data[2] ^ key[2],
        data[3] ^ key[3],
        data[4] ^ key[4],
        data[5] ^ key[5],
        data[6] ^ key[6],
        data[7] ^ key[7],
    ];
    assert(r@ =~= masked(data@, key@));
    r
}

fn rotate_byte(cur: u8, prev: u8) -> (r: u8)
    ensures
        r == ((cur >> 3u8) | (prev << 5u8)) as u8,
{
    (cur >> 3u8) | (prev << 5u8)
}

/// Third stage: the circular rotation by three bits across the frame.
pub fn rotate(data: &[u8; 8]) -> (r: [u8; 8])
    ensures
        r@ == rotated(data@),
{
    let r: [u8; 8] = [
        rotate_byte(data[0], data[7]),
        rotate_byte(data[1], data[0]),
        rotate_byte(data[2], data[1]),
        rotate_byte(data[3], data[2]),
        rotate_byte(data[4], data[3]),
        rotate_byte(data[5], data[4]),
        rotate_byte(data[6], data[5]),
        rotate_byte(data[7], data[6]),
    ];
    assert(r@ =~= rotated(data@));
    r
}

fn unbias_byte(b: u8, c: u8) -> (r: u8)
    ensures
        r == ((256 + b - c) % 256) as u8,
{
    if b >= c {
        b - c
    } else {
        (256u16 + b as u16 - c as u16) as u8
    }
}

/// Last stage: subtract the fixed state, modulo 256.
pub fn unbias(data: &[u8; 8]) -> (r: [u8; 8])
    ensures
        r@ == unbiased(data@),
{
    let r: [u8; 8] = [
        unbias_byte(data[0], 0x84),
        unbias_byte(data[1], 0x47),
        unbias_byte(data[2], 0x56),
        unbias_byte(data[3], 0xd6),
        unbias_byte(data[4], 0x07),
        unbias_byte(data[5], 0x93),
        unbias_byte(data[6], 0x93),
        unbias_byte(data[7], 0x56),
    ];
    assert(r@ =~= unbiased(data@));
    r
}

/// Decodes a raw device frame with the session key.
pub fn decode(raw: &[u8; 8], key: &[u8; 8]) -> (r: [u8; 8])
    ensures
        r@ == decoded(raw@, key@),
{
    let p = permute(raw);
    let m = mask(&p, key);
    let t = rotate(&m);
    unbias(&t)
}

/// The sample that a decoded frame carries: `None` for an unknown tag.
pub fn classify(frame: &[u8; 8]) -> (r: Option<Sample>)
    ensures
        r == sample_of(frame@),
{
    let value: u32 = (frame[1] as u32) * 256 + (frame[2] as u32);
    if frame[0] == METER_CO2 {
        Some(Sample::Co2(value))
    } else if frame[0] == METER_TEMP {
        let n: i64 = 5 * (value as i64) - 21852;
        let tenths: i64 = if n >= 0 {
            (n + 4) / 8
        } else {
            -((4 - n) / 8)
        };
        Some(Sample::Temperature(tenths))
    } else {
        None
    }
}

/// Decoding is a function of the frame and the key alone: any two decodings
/// of the same frame with the same key give the same bytes.
pub proof fn lemma_decode_deterministic(raw: [u8; 8], key: [u8; 8], a: [u8; 8], b: [u8; 8])
    requires
        a@ == decoded(raw@, key@),
        b@ == decoded(raw@, key@),
    ensures
        a@ == b@,
{
}

} // verus!
