use co2mon::{classify, decode, mask, permute, rotate, unbias, Sample, Sensor};

const KEY: [u8; 8] = [0x11, 0x22, 0x33, 0x44, 0x55, 0x66, 0x77, 0x88];

#[test]
fn zero_frame_with_zero_key_gives_negated_state() {
    let raw = [0u8; 8];
    let key = [0u8; 8];
    assert_eq!(permute(&raw), [0u8; 8]);
    assert_eq!(mask(&raw, &key), [0u8; 8]);
    assert_eq!(rotate(&raw), [0u8; 8]);
    assert_eq!(unbias(&raw), [0x7c, 0xb9, 0xaa, 0x2a, 0xf9, 0x6d, 0x6d, 0xaa]);
    assert_eq!(decode(&raw, &key), [0x7c, 0xb9, 0xaa, 0x2a, 0xf9, 0x6d, 0x6d, 0xaa]);
}

#[test]
fn stage_vectors_for_a_nonzero_frame_and_key() {
    let raw = [1u8, 2, 3, 4, 5, 6, 7, 8];
    let p = permute(&raw);
    assert_eq!(p, [0x03, 0x05, 0x01, 0x08, 0x02, 0x07, 0x06, 0x04]);
    let m = mask(&p, &KEY);
    assert_eq!(m, [0x12, 0x27, 0x32, 0x4c, 0x57, 0x61, 0x71, 0x8c]);
    let r = rotate(&m);
    assert_eq!(r, [0x82, 0x44, 0xe6, 0x49, 0x8a, 0xec, 0x2e, 0x31]);
    let u = unbias(&r);
    assert_eq!(u, [0xfe, 0xfd, 0x90, 0x73, 0x83, 0x59, 0x9b, 0xdb]);
    assert_eq!(decode(&raw, &KEY), u);
}

#[test]
fn decode_is_deterministic() {
    let raw = [9u8, 200, 13, 0, 255, 42, 7, 128];
    let first = decode(&raw, &KEY);
    for _ in 0..10 {
        assert_eq!(decode(&raw, &KEY), first);
    }
}

#[test]
fn sensor_decrypt_uses_its_key() {
    let s = Sensor::with_key(b"/dev/hidraw0", KEY);
    let raw = [1u8, 2, 3, 4, 5, 6, 7, 8];
    assert_eq!(s.decrypt(&raw), decode(&raw, &KEY));
}

#[test]
fn co2_tag_gives_ppm() {
    assert_eq!(classify(&[0x50, 0x01, 0xc2, 0, 0, 0, 0, 0]), Some(Sample::Co2(450)));
}

#[test]
fn temperature_code_4684_is_19_6() {
    let v: u16 = 4684;
    let frame = [0x42, (v >> 8) as u8, (v & 0xff) as u8, 0, 0, 0, 0, 0];
    assert_eq!(classify(&frame), Some(Sample::Temperature(196)));
}

#[test]
fn temperature_code_4683_rounds_to_19_5() {
    // 4683 / 16 - 273.15 = 19.5375, which rounds to 19.5
    let v: u16 = 4683;
    let frame = [0x42, (v >> 8) as u8, (v & 0xff) as u8, 0, 0, 0, 0, 0];
    assert_eq!(classify(&frame), Some(Sample::Temperature(195)));
}

#[test]
fn temperature_code_zero_rounds_away_from_zero() {
    // 0 / 16 - 273.15 = -273.15: the tie -2731.5 tenths rounds to -2732
    assert_eq!(classify(&[0x42, 0, 0, 0, 0, 0, 0, 0]), Some(Sample::Temperature(-2732)));
}

#[test]
fn unknown_tag_is_no_sample() {
    assert_eq!(classify(&[0x6d, 0x01, 0xc2, 0, 0, 0, 0, 0]), None);
    assert_eq!(classify(&[0x00; 8]), None);
}

#[test]
fn obfuscated_frames_decode_to_samples() {
    let co2 = [245u8, 105, 179, 62, 98, 237, 250, 244];
    let temp = [37u8, 105, 35, 62, 239, 237, 250, 244];
    assert_eq!(classify(&decode(&co2, &KEY)), Some(Sample::Co2(450)));
    assert_eq!(classify(&decode(&temp, &KEY)), Some(Sample::Temperature(196)));
}
