use co2mon::{
    deliver, prune, from_config, Measurement, NextStep, PrintConfig, ReadOutcome, Receipt, Sensor,
    Sink, SinkConfig, Submission, Value,
};

fn session(path: &[u8]) -> Sensor {
    Sensor::with_key(path, [0; 8])
}

fn sample(co2: i64) -> Measurement {
    Measurement::at("room_climate", 0).field("co2", Value::Integer(co2))
}

#[test]
fn failed_session_is_dropped_and_never_polled_again() {
    let sessions = vec![session(b"/dev/a"), session(b"/dev/b"), session(b"/dev/c")];
    let outcomes = vec![ReadOutcome::Missed, ReadOutcome::Failed, ReadOutcome::Measured(sample(450))];
    let (live, made) = prune(sessions, outcomes);
    assert_eq!(live.len(), 2);
    assert_eq!(live[0].path, b"/dev/a".to_vec());
    assert_eq!(live[1].path, b"/dev/c".to_vec());
    assert_eq!(made.len(), 1);
    // the next cycle only polls the survivors
    let (live, _) = prune(live, vec![ReadOutcome::Missed, ReadOutcome::Missed]);
    assert_eq!(live.len(), 2);
}

#[test]
fn missing_session_stays_live_cycle_after_cycle() {
    let mut live = vec![session(b"/dev/a")];
    for _ in 0..100 {
        let (next, made) = prune(live, vec![ReadOutcome::Missed]);
        assert!(made.is_empty());
        live = next;
        assert_eq!(live.len(), 1);
    }
}

#[test]
fn last_failure_empties_the_active_set() {
    let (live, made) = prune(vec![session(b"/dev/a")], vec![ReadOutcome::Failed]);
    assert!(live.is_empty());
    assert!(made.is_empty());
}

#[test]
fn received_measurement_reaches_every_sink() {
    let mut sinks = from_config(&vec![SinkConfig::Print(PrintConfig {}), SinkConfig::Print(PrintConfig {})]);
    assert_eq!(deliver(&mut sinks, Receipt::Item(sample(450))), NextStep::Continue);
    assert_eq!(deliver(&mut sinks, Receipt::Empty), NextStep::Continue);
    for s in &sinks {
        match s {
            Sink::Print(p) => assert_eq!(p.points.len(), 1),
            Sink::Influx(_) => panic!("wrong kind"),
        }
    }
}

#[test]
fn closed_channel_leads_to_a_final_submit_of_everything_buffered() {
    let mut sinks = from_config(&vec![SinkConfig::Print(PrintConfig {})]);
    for v in [400, 410, 420] {
        assert_eq!(deliver(&mut sinks, Receipt::Item(sample(v))), NextStep::Continue);
    }
    assert_eq!(deliver(&mut sinks, Receipt::Closed), NextStep::Finish);
    match sinks[0].submit(0) {
        Submission::Lines(lines) => assert_eq!(lines.len(), 3),
        _ => panic!("a console sink hands out lines"),
    }
}
