use co2mon::{
    from_config, InfluxConfig, InfluxSink, Measurement, PrintConfig, PrintSink, Sink, SinkConfig,
    Submission, Value,
};

const SEC: i64 = 1_000_000_000;
const T0: i64 = 1_672_531_200 * SEC;

fn influx_config(bulk_time: i64) -> InfluxConfig {
    InfluxConfig {
        host: String::from("http://localhost:8086"),
        database: String::from("climate"),
        user: String::from("user"),
        pass: String::from("SECRET-REDACTED"),
        bulk_time,
    }
}

fn sample(ts: i64, co2: i64) -> Measurement {
    Measurement::at("room_climate", ts).field("co2", Value::Integer(co2))
}

#[test]
fn flush_waits_for_the_window() {
    let mut sink = InfluxSink::from_config(&influx_config(10));
    sink.add_measurement(&sample(T0, 450));
    assert!(!sink.is_due(T0 + 9 * SEC));
    assert!(sink.is_due(T0 + 10 * SEC));
    assert!(sink.is_due(T0 + 11 * SEC));
}

#[test]
fn submit_asks_for_a_write_only_when_due() {
    let mut sink = Sink::Influx(InfluxSink::from_config(&influx_config(10)));
    sink.add_measurement(&sample(T0, 450));
    assert!(matches!(sink.submit(T0 + 9 * SEC), Submission::Idle));
    assert!(matches!(sink.submit(T0 + 11 * SEC), Submission::Write));
}

#[test]
fn empty_buffer_is_never_due() {
    let sink = InfluxSink::from_config(&influx_config(0));
    assert!(!sink.is_due(i64::MAX));
}

#[test]
fn failed_write_keeps_the_batch_for_the_next_attempt() {
    let mut sink = Sink::Influx(InfluxSink::from_config(&influx_config(1)));
    sink.add_measurement(&sample(T0, 400));
    sink.add_measurement(&sample(T0 + 1, 410));
    assert!(matches!(sink.submit(T0 + 5 * SEC), Submission::Write));
    assert_eq!(sink.write_done(false), 0);
    sink.add_measurement(&sample(T0 + 2, 420));
    match &sink {
        Sink::Influx(k) => {
            let lines: Vec<String> = k.points.iter().map(|m| m.render_with_clock("T")).collect();
            assert_eq!(lines, vec!["room_climate T co2=400", "room_climate T co2=410", "room_climate T co2=420"]);
        }
        Sink::Print(_) => panic!("wrong kind"),
    }
    assert!(matches!(sink.submit(T0 + 5 * SEC), Submission::Write));
    assert_eq!(sink.write_done(true), 3);
    assert!(matches!(sink.submit(T0 + 50 * SEC), Submission::Idle));
}

#[test]
fn console_sink_prints_everything_every_time() {
    let mut sink = PrintSink::from_config(&PrintConfig {});
    sink.add_measurement(&sample(T0, 450));
    sink.add_measurement(&sample(T0 + SEC, 451));
    let lines = sink.submit();
    assert_eq!(
        lines,
        vec![
            "room_climate 2023-01-01 00:00:00.000000 co2=450",
            "room_climate 2023-01-01 00:00:01.000000 co2=451"
        ]
    );
    assert!(sink.points.is_empty());
    assert!(sink.submit().is_empty());
}

#[test]
fn sinks_follow_the_configuration() {
    let configs = vec![SinkConfig::Print(PrintConfig {}), SinkConfig::Influx(influx_config(7))];
    let sinks = from_config(&configs);
    assert_eq!(sinks.len(), 2);
    assert!(matches!(&sinks[0], Sink::Print(p) if p.points.is_empty()));
    assert!(matches!(&sinks[1], Sink::Influx(k) if k.bulk_time == 7 && k.points.is_empty()));
}
