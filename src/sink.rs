//! Sinks: buffers of measurements with their flush policies.
use vstd::prelude::*;
use crate::clock::timestamp_text;
use crate::measurement::{line_text, Measurement, MeasurementView};

verus! {

/// Settings of a time-series sink.
pub struct InfluxConfig {
    pub host: String,
    pub database: String,
    pub user: String,
    pub pass: String,
    /// The flush window in seconds.
    pub bulk_time: i64,
}

/// Settings of a console sink: there are none.
pub struct PrintConfig {}

/// The configured kinds of sink.
pub enum SinkConfig {
    Influx(InfluxConfig),
    Print(PrintConfig),
}

/// What a list of measurements holds.
pub open spec fn points_view(s: Seq<Measurement>) -> Seq<MeasurementView> {
    Seq::new(s.len(), |i: int| s[i]@)
}

/// A time-series sink: it writes its buffer once the oldest buffered
/// measurement is at least `bulk_time` seconds old.
pub struct InfluxSink {
    pub bulk_time: i64,
    pub points: Vec<Measurement>,
}

/// A console sink: it prints and drops its whole buffer on every submit.
pub struct PrintSink {
    pub points: Vec<Measurement>,
}

/// A sink of either kind.
pub enum Sink {
    Influx(InfluxSink),
    Print(PrintSink),
}

/// The work that a submit hands to the program.
pub enum Submission {
    /// Nothing to do.
    Idle,
    /// Write the whole buffer of the time-series sink, then report the
    /// result with `Sink::write_done`.
    Write,
    /// Print these lines.
    Lines(Vec<String>),
}

/// Nanoseconds per second.
pub const NANOS_PER_SEC: i128 = 1_000_000_000;

/// The buffer is due: it is not empty and its oldest measurement is at
/// least `bulk_time` seconds older than `now`.
pub open spec fn flush_due(points: Seq<MeasurementView>, bulk_time: i64, now: i64) -> bool {
    points.len() > 0 && now - points[0].timestamp >= bulk_time * 1_000_000_000
}

/// The console lines of a buffer, in order.
pub open spec fn lines_of(points: Seq<MeasurementView>) -> Seq<Seq<char>> {
    Seq::new(points.len(), |i: int| line_text(points[i], timestamp_text(points[i].timestamp as int)))
}

/// Appends a copy of `m` to a buffer.
fn push_copy(points: &mut Vec<Measurement>, m: &Measurement)
    ensures
        points_view(final(points)@) == points_view(old(points)@).push(m@),
{
    let c = m.duplicate();
    points.push(c);
    assert(points_view(points@) =~= points_view(old(points)@).push(m@));
}

impl InfluxSink {
    /// An empty time-series sink with the configured window.
    pub fn from_config(config: &InfluxConfig) -> (r: InfluxSink)
        ensures
            r.bulk_time == config.bulk_time,
            r.points@.len() == 0,
    {
        InfluxSink { bulk_time: config.bulk_time, points: Vec::new() }
    }

    /// Buffers a copy of `m`; nothing is written yet.
    pub fn add_measurement(&mut self, m: &Measurement)
        ensures
            points_view(final(self).points@) == points_view(old(self).points@).push(m@),
            final(self).bulk_time == old(self).bulk_time,
    {
        push_copy(&mut self.points, m);
    }

    /// Whether the buffer is due for a write at time `now` (nanoseconds
    /// since the Unix epoch).
    pub fn is_due(&self, now: i64) -> (r: bool)
        ensures
            r == flush_due(points_view(self.points@), self.bulk_time, now),
    {
        if self.points.len() == 0 {
            return false;
        }
        let oldest = self.points[0].timestamp;
        let age: i128 = now as i128 - oldest as i128;
        age >= self.bulk_time as i128 * NANOS_PER_SEC
    }

    /// Records the result of a write of the whole buffer: on success the
    /// buffer is cleared and the number of points written is returned; on
    /// failure the buffer stays exactly as it was, for the next attempt.
    pub fn write_done(&mut self, ok: bool) -> (r: usize)
        ensures
            final(self).bulk_time == old(self).bulk_time,
            ok ==> r == old(self).points@.len() && final(self).points@.len() == 0,
            !ok ==> r == 0 && *final(self) == *old(self),
    {
        if ok {
            let n = self.points.len();
            self.points.clear();
            n
        } else {
            0
        }
    }
}

impl PrintSink {
    /// An empty console sink.
    pub fn from_config(config: &PrintConfig) -> (r: PrintSink)
        ensures
            r.points@.len() == 0,
    {
        PrintSink { points: Vec::new() }
    }

    /// Buffers a copy of `m`.
    pub fn add_measurement(&mut self, m: &Measurement)
        ensures
            points_view(final(self).points@) == points_view(old(self).points@).push(m@),
    {
        push_copy(&mut self.points, m);
    }

    /// The console lines of every buffered measurement, in order; the
    /// buffer is left empty.
    pub fn submit(&mut self) -> (r: Vec<String>)
        ensures
            r@.len() == old(self).points@.len(),
            forall|i: int| 0 <= i < r@.len() ==> #[trigger] r@[i]@ == lines_of(points_view(old(self).points@))[i],
            final(self).points@.len() == 0,
    {
        let mut lines: Vec<String> = Vec::new();
        let n = self.points.len();
        let mut i: usize = 0;
        while i < n
            invariant
                n == self.points@.len(),
                self.points@ == old(self).points@,
                i <= n,
                lines@.len() == i,
                forall|j: int| 0 <= j < i ==> #[trigger] lines@[j]@ == lines_of(points_view(self.points@))[j],
            decreases n - i,
        {
            let line = self.points[i].render();
            lines.push(line);
            i = i + 1;
        }
        self.points.clear();
        lines
    }
}

/// The buffer of a sink.
pub open spec fn buffer(s: Sink) -> Seq<MeasurementView> {
    match s {
        Sink::Influx(k) => points_view(k.points@),
        Sink::Print(p) => points_view(p.points@),
    }
}

/// Two sinks are of the same kind, with the same window.
pub open spec fn same_policy(a: Sink, b: Sink) -> bool {
    match (a, b) {
        (Sink::Influx(x), Sink::Influx(y)) => x.bulk_time == y.bulk_time,
        (Sink::Print(_), Sink::Print(_)) => true,
        _ => false,
    }
}

/// A sink of the configured kind, empty.
pub open spec fn built_from(s: Sink, c: SinkConfig) -> bool {
    &&& buffer(s).len() == 0
    &&& match (s, c) {
        (Sink::Influx(x), SinkConfig::Influx(y)) => x.bulk_time == y.bulk_time,
        (Sink::Print(_), SinkConfig::Print(_)) => true,
        _ => false,
    }
}

/// One empty sink for each configuration, in order.
pub fn from_config(sink_configs: &Vec<SinkConfig>) -> (r: Vec<Sink>)
    ensures
        r@.len() == sink_configs@.len(),
        forall|i: int| 0 <= i < r@.len() ==> built_from(#[trigger] r@[i], sink_configs@[i]),
{
    let mut sinks: Vec<Sink> = Vec::new();
    let n = sink_configs.len();
    let mut i: usize = 0;
    while i < n
        invariant
            n == sink_configs@.len(),
            i <= n,
            sinks@.len() == i,
            forall|j: int| 0 <= j < i ==> built_from(#[trigger] sinks@[j], sink_configs@[j]),
        decreases n - i,
    {
        let s = match &sink_configs[i] {
            SinkConfig::Influx(c) => Sink::Influx(InfluxSink::from_config(c)),
            SinkConfig::Print(c) => Sink::Print(PrintSink::from_config(c)),
        };
        sinks.push(s);
        i = i + 1;
    }
    sinks
}

/// `after` is `before` with `m` appended to its buffer.
pub open spec fn appended(before: Sink, after: Sink, m: MeasurementView) -> bool {
    &&& buffer(after) == buffer(before).push(m)
    &&& same_policy(before, after)
}

/// `after` is `before` once a write of its whole buffer succeeded (`ok`) or
/// failed, `written` being the number of points reported written.
pub open spec fn write_recorded(before: Sink, after: Sink, ok: bool, written: usize) -> bool {
    &&& same_policy(before, after)
    &&& match before {
        Sink::Influx(k) => {
            &&& ok ==> written == k.points@.len() && buffer(after).len() == 0
            &&& !ok ==> written == 0 && after == before
        },
        Sink::Print(_) => written == 0 && after == before,
    }
}

/// A failed write leaves the buffer as it was, so the next successful write
/// emits every point buffered before the failure, in order, followed by
/// those added since.
pub proof fn lemma_failed_write_keeps_batch(
    s0: Sink,
    s1: Sink,
    s2: Sink,
    s3: Sink,
    m: MeasurementView,
    failed: usize,
    written: usize,
)
    requires
        s0 is Influx,
        write_recorded(s0, s1, false, failed),
        appended(s1, s2, m),
        write_recorded(s2, s3, true, written),
    ensures
        s1 == s0,
        buffer(s2) == buffer(s0).push(m),
        written == buffer(s0).len() + 1,
        buffer(s3).len() == 0,
{
    if let Sink::Influx(k) = s2 {
        assert(buffer(s2).len() == k.points@.len());
    }
}

impl Sink {
    /// Buffers a copy of `m`; no output happens here.
    pub fn add_measurement(&mut self, m: &Measurement)
        ensures
            appended(*old(self), *final(self), m@),
    {
        match self {
            Sink::Influx(k) => k.add_measurement(m),
            Sink::Print(p) => p.add_measurement(m),
        }
    }

    /// Applies the flush policy at time `now`. A time-series sink asks for a
    /// write of its whole buffer once it is due, and keeps the buffer until
    /// `write_done`; a console sink hands out the lines of its whole buffer
    /// and empties it.
    pub fn submit(&mut self, now: i64) -> (r: Submission)
        ensures
            same_policy(*old(self), *final(self)),
            match *old(self) {
                Sink::Influx(k) => {
                    &&& *final(self) == *old(self)
                    &&& (r is Write) == flush_due(points_view(k.points@), k.bulk_time, now)
                    &&& (r is Idle) == !flush_due(points_view(k.points@), k.bulk_time, now)
                },
                Sink::Print(p) => {
                    &&& buffer(*final(self)).len() == 0
                    &&& r is Lines
                    &&& r->Lines_0@.len() == p.points@.len()
                    &&& forall|i: int|
                        0 <= i < p.points@.len() ==> #[trigger] r->Lines_0@[i]@ == lines_of(
                            points_view(p.points@),
                        )[i]
                },
            },
    {
        match self {
            Sink::Influx(k) => if k.is_due(now) {
                Submission::Write
            } else {
                Submission::Idle
            },
            Sink::Print(p) => Submission::Lines(p.submit()),
        }
    }

    /// Records the result of the write that `submit` asked for: a success
    /// empties the buffer, a failure leaves it exactly as it was. A console
    /// sink has no writes and is left as it is.
    pub fn write_done(&mut self, ok: bool) -> (r: usize)
        ensures
            write_recorded(*old(self), *final(self), ok, r),
    {
        match self {
            Sink::Influx(k) => k.write_done(ok),
            Sink::Print(_) => 0,
        }
    }
}

} // verus!
