use co2mon::{decode, sha256, DeviceEntry, ReadCycle, ReadOutcome, ReadStep, Sensor};

const KEY: [u8; 8] = [0x11, 0x22, 0x33, 0x44, 0x55, 0x66, 0x77, 0x88];
const CO2_450: [u8; 8] = [245, 105, 179, 62, 98, 237, 250, 244];
const TEMP_196: [u8; 8] = [37, 105, 35, 62, 239, 237, 250, 244];
const UNKNOWN: [u8; 8] = [133, 105, 155, 63, 24, 237, 250, 244];

fn entry(vendor_id: u16, product_id: u16, path: &[u8]) -> DeviceEntry {
    DeviceEntry { vendor_id, product_id, path: path.to_vec() }
}

#[test]
fn sha256_is_lowercase_hex() {
    assert_eq!(
        sha256(b"abc"),
        "ba7816bf8f01cfea414140de5dae2223b00361a396177a9cb410ff61f20015ad"
    );
}

#[test]
fn unlisted_bus_gives_no_sessions() {
    assert!(Sensor::sensors(None).is_none());
}

#[test]
fn only_monitors_become_sessions() {
    let listing = vec![
        entry(0x4d9, 0xa052, b"/dev/a"),
        entry(0x4d9, 0x0001, b"/dev/b"),
        entry(0x1234, 0xa052, b"/dev/c"),
        entry(0x4d9, 0xa052, b"/dev/d"),
    ];
    let found = Sensor::sensors(Some(listing)).unwrap();
    assert_eq!(found.len(), 2);
    assert_eq!(found[0].path, b"/dev/a".to_vec());
    assert_eq!(found[1].path, b"/dev/d".to_vec());
    assert_eq!(found[0].name(), sha256(b"/dev/a"));
    assert_eq!(found[1].name(), sha256(b"/dev/d"));
}

#[test]
fn key_report_prefixes_a_zero_byte() {
    let s = Sensor::with_key(b"/dev/a", KEY);
    assert_eq!(s.key_report(), [0, 0x11, 0x22, 0x33, 0x44, 0x55, 0x66, 0x77, 0x88]);
}

fn run(s: &Sensor, frames: &[Option<&[u8]>]) -> (ReadOutcome, usize) {
    let mut cycle = ReadCycle::start();
    for (n, f) in frames.iter().enumerate() {
        match s.step(cycle, *f) {
            ReadStep::Pending(next) => cycle = next,
            ReadStep::Finished(outcome) => return (outcome, n + 1),
        }
    }
    panic!("the frames ran out before the cycle ended");
}

#[test]
fn short_read_fails_at_once() {
    let s = Sensor::with_key(b"/dev/a", KEY);
    let short: &[u8] = &CO2_450[..7];
    let (outcome, reads) = run(&s, &[Some(short), Some(&CO2_450[..])]);
    assert!(matches!(outcome, ReadOutcome::Failed));
    assert_eq!(reads, 1);
}

#[test]
fn failed_read_fails_at_once() {
    let s = Sensor::with_key(b"/dev/a", KEY);
    let (outcome, reads) = run(&s, &[None, Some(&CO2_450[..])]);
    assert!(matches!(outcome, ReadOutcome::Failed));
    assert_eq!(reads, 1);
}

#[test]
fn co2_and_temperature_make_a_measurement() {
    let s = Sensor::with_key(b"/dev/a", KEY);
    let (outcome, reads) = run(&s, &[Some(&UNKNOWN[..]), Some(&CO2_450[..]), Some(&TEMP_196[..])]);
    assert_eq!(reads, 3);
    match outcome {
        ReadOutcome::Measured(m) => {
            let line = m.render_with_clock("T");
            assert_eq!(
                line,
                format!("room_climate T sensor={} co2=450,temperature=19.6000", s.name())
            );
        }
        other => panic!("expected a measurement, got {:?}", other),
    }
}

#[test]
fn co2_only_cycle_is_a_miss_after_five_reads() {
    let s = Sensor::with_key(b"/dev/a", KEY);
    let frames: Vec<Option<&[u8]>> = vec![Some(&CO2_450[..]); 8];
    let (outcome, reads) = run(&s, &frames);
    assert!(matches!(outcome, ReadOutcome::Missed));
    assert_eq!(reads, 5);
}

#[test]
fn unknown_frames_count_against_the_budget() {
    let s = Sensor::with_key(b"/dev/a", KEY);
    let frames: Vec<Option<&[u8]>> = vec![
        Some(&UNKNOWN[..]),
        Some(&UNKNOWN[..]),
        Some(&UNKNOWN[..]),
        Some(&UNKNOWN[..]),
        Some(&CO2_450[..]),
        Some(&TEMP_196[..]),
    ];
    let (outcome, reads) = run(&s, &frames);
    assert!(matches!(outcome, ReadOutcome::Missed));
    assert_eq!(reads, 5);
}

#[test]
fn latest_sample_of_each_kind_wins() {
    let s = Sensor::with_key(b"/dev/a", [0; 8]);
    // frames that decode, under the zero key, to CO2 400 and then CO2 500
    let c400 = encode_zero_key([0x50, 0x01, 0x90, 0, 0, 0, 0, 0]);
    let c500 = encode_zero_key([0x50, 0x01, 0xf4, 0, 0, 0, 0, 0]);
    let t = encode_zero_key([0x42, 0x12, 0x4c, 0, 0, 0, 0, 0]);
    assert_eq!(decode(&c400, &[0; 8])[2], 0x90);
    let (outcome, _) = run(&s, &[Some(&c400[..]), Some(&c500[..]), Some(&t[..])]);
    match outcome {
        ReadOutcome::Measured(m) => {
            assert!(m.render_with_clock("T").ends_with("co2=500,temperature=19.6000"));
        }
        other => panic!("expected a measurement, got {:?}", other),
    }
}

/// Inverse of the decoding under the zero key.
fn encode_zero_key(d: [u8; 8]) -> [u8; 8] {
    let state = [0x84u8, 0x47, 0x56, 0xd6, 0x07, 0x93, 0x93, 0x56];
    let shuffle = [2usize, 4, 0, 7, 1, 6, 5, 3];
    let mut r = [0u8; 8];
    for i in 0..8 {
        r[i] = d[i].wrapping_add(state[i]);
    }
    let mut m = [0u8; 8];
    for i in 0..8 {
        m[i] = (r[i] << 3) | (r[(i + 1) % 8] >> 5);
    }
    let mut raw = [0u8; 8];
    for i in 0..8 {
        raw[i] = m[shuffle[i]];
    }
    raw
}
