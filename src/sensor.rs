//! Device sessions: the key handshake, the identity label and the read cycle
//! that assembles one measurement from decoded frames.
use vstd::prelude::*;
use crate::codec::{classify, decode, decoded, sample_of, Sample};
use crate::clock::current_timestamp;
use crate::keys::key_cmp;
use crate::measurement::{EntryView, Measurement, Value, ValueView};
use crypto::digest::Digest;
use rand::Rng;

verus! {

/// USB vendor id of the supported CO2 monitor.
pub const CO2_SENSOR_VENDOR: u16 = 0x4d9;

/// USB product id of the supported CO2 monitor.
pub const CO2_SENSOR_PRODUCT: u16 = 0xa052;

/// How many frames one read cycle may take.
pub const READ_BUDGET: u32 = 5;

/// The lowercase hexadecimal SHA-256 digest of a byte string.
pub uninterp spec fn sha256_hex(input: Seq<u8>) -> Seq<char>;

/// Relies on rust-crypto's `Sha256` with `Digest::input` and
/// `Digest::result_str`: the lowercase hex of the 32-byte digest of `input`.
#[verifier::external_body]
fn digest_hex(input: &[u8]) -> (r: String)
    ensures
        r@ == sha256_hex(input@),
        r@.len() == 64,
{
    let mut hasher = crypto::sha2::Sha256::new();
    hasher.input(input);
    hasher.result_str()
}

/// Relies on rand's `thread_rng` and `Rng::fill`: eight random bytes.
#[verifier::external_body]
fn random_key() -> (r: [u8; 8]) {
    let mut key: [u8; 8] = [0; 8];
    rand::thread_rng().fill(&mut key[..]);
    key
}

/// The SHA-256 digest of `input` in lowercase hex, used as a readable label.
pub fn sha256(input: &[u8]) -> (r: String)
    ensures
        r@ == sha256_hex(input@),
        r@.len() == 64,
{
    digest_hex(input)
}

/// A device as the bus enumeration lists it.
pub struct DeviceEntry {
    pub vendor_id: u16,
    pub product_id: u16,
    pub path: Vec<u8>,
}

/// The device is a supported CO2 monitor.
pub open spec fn is_monitor(d: DeviceEntry) -> bool {
    d.vendor_id == CO2_SENSOR_VENDOR && d.product_id == CO2_SENSOR_PRODUCT
}

/// The supported monitors of a listing, in listing order.
pub open spec fn monitors(s: Seq<DeviceEntry>) -> Seq<DeviceEntry>
    decreases s.len(),
{
    if s.len() == 0 {
        seq![]
    } else if is_monitor(s.last()) {
        monitors(s.drop_last()).push(s.last())
    } else {
        monitors(s.drop_last())
    }
}

/// One device session: its label, its device path and its session key.
pub struct Sensor {
    pub name: String,
    pub path: Vec<u8>,
    pub key: [u8; 8],
}

/// Progress of one read cycle: the latest sample of each kind and how many
/// frames were read.
#[derive(Debug, Clone, Copy, PartialEq, Eq, Structural)]
pub struct ReadCycle {
    pub co2: Option<u32>,
    pub temperature: Option<i64>,
    pub reads: u32,
}

/// How a read cycle ended.
#[derive(Debug)]
pub enum ReadOutcome {
    /// Both kinds of sample were seen: the measurement they make.
    Measured(Measurement),
    /// The budget ran out first; the session stays live.
    Missed,
    /// A read failed or came back short; the session is gone for good.
    Failed,
}

/// What to do after one frame.
#[derive(Debug)]
pub enum ReadStep {
    /// Read another frame and continue with this progress.
    Pending(ReadCycle),
    /// The cycle is over.
    Finished(ReadOutcome),
}

/// The outcome of one frame, as the contracts see it.
pub enum StepView {
    Pending(ReadCycle),
    Complete(u32, i64),
    Missed,
    Failed,
}

/// Bound on a temperature in tenths, wide enough for every 16-bit code.
pub open spec fn temperature_in_range(t: i64) -> bool {
    -100000 <= t <= 100000
}

impl ReadCycle {
    /// A cycle that may still read a frame.
    pub open spec fn wf(&self) -> bool {
        &&& self.reads < READ_BUDGET
        &&& (self.temperature matches Some(t) ==> temperature_in_range(t))
    }

    /// A fresh cycle: nothing seen, nothing read.
    pub fn start() -> (r: ReadCycle)
        ensures
            r == (ReadCycle { co2: None, temperature: None, reads: 0 }),
            r.wf(),
    {
        ReadCycle { co2: None, temperature: None, reads: 0 }
    }
}

/// The progress after a sample (or an unknown frame) has been read.
pub open spec fn record(c: ReadCycle, s: Option<Sample>) -> ReadCycle {
    ReadCycle {
        co2: match s {
            Some(Sample::Co2(v)) => Some(v),
            _ => c.co2,
        },
        temperature: match s {
            Some(Sample::Temperature(t)) => Some(t),
            _ => c.temperature,
        },
        reads: (c.reads + 1) as u32,
    }
}

/// One frame of a read cycle: `None` stands for a failed read, a slice for
/// the bytes that came back.
pub open spec fn step_spec(key: Seq<u8>, c: ReadCycle, frame: Option<Seq<u8>>) -> StepView {
    match frame {
        None => StepView::Failed,
        Some(bytes) => if bytes.len() != 8 {
            StepView::Failed
        } else {
            let n = record(c, sample_of(decoded(bytes, key)));
            if n.co2 is Some && n.temperature is Some {
                StepView::Complete(n.co2->0, n.temperature->0)
            } else if n.reads >= READ_BUDGET {
                StepView::Missed
            } else {
                StepView::Pending(n)
            }
        },
    }
}

/// A whole read cycle over the frames that the device hands out, in order;
/// `None` when the frames run out before the cycle ends.
pub open spec fn run_read(key: Seq<u8>, c: ReadCycle, frames: Seq<Option<Seq<u8>>>) -> Option<
    StepView,
>
    decreases frames.len(),
{
    if frames.len() == 0 {
        None
    } else {
        match step_spec(key, c, frames[0]) {
            StepView::Pending(n) => run_read(key, n, frames.drop_first()),
            other => Some(other),
        }
    }
}

/// The measurement a session makes of a CO2 reading and a temperature in
/// tenths: named `room_climate`, tagged with the session's label.
pub open spec fn climate_fields(co2: u32, tenths: i64) -> Seq<EntryView> {
    seq![
        ("co2"@, ValueView::Integer(co2 as i64)),
        ("temperature"@, ValueView::Decimal((tenths * 1000) as i64)),
    ]
}

/// The tags of a session's measurement.
pub open spec fn climate_tags(name: Seq<char>) -> Seq<EntryView> {
    seq![("sensor"@, ValueView::Text(name))]
}

/// The bytes of a read, if it succeeded.
pub open spec fn frame_view(frame: Option<&[u8]>) -> Option<Seq<u8>> {
    match frame {
        Some(f) => Some(f@),
        None => None,
    }
}

/// An executed step agrees with `step_spec`, the measurement of a completed
/// cycle being the session's climate measurement.
pub open spec fn step_agrees(r: ReadStep, s: StepView, name: Seq<char>) -> bool {
    match s {
        StepView::Pending(n) => r == ReadStep::Pending(n),
        StepView::Complete(co2, t) => match r {
            ReadStep::Finished(ReadOutcome::Measured(m)) => {
                &&& m@.name == "room_climate"@
                &&& m@.tags == climate_tags(name)
                &&& m@.fields == climate_fields(co2, t)
                &&& m.wf()
            },
            _ => false,
        },
        StepView::Missed => r is Finished && r->Finished_0 is Missed,
        StepView::Failed => r is Finished && r->Finished_0 is Failed,
    }
}

impl Sensor {
    /// A session for the device at `path` with the given key, labelled by
    /// the digest of the path.
    pub fn with_key(path: &[u8], key: [u8; 8]) -> (r: Sensor)
        ensures
            r.name@ == sha256_hex(path@),
            r.path@ == path@,
            r.key == key,
    {
        let name = sha256(path);
        Sensor { name, path: vstd::slice::slice_to_vec(path), key }
    }

    /// The sessions for the supported monitors of a bus listing, each with a
    /// fresh random key, in listing order; `None` when the bus could not be
    /// listed.
    pub fn sensors(listing: Option<Vec<DeviceEntry>>) -> (r: Option<Vec<Sensor>>)
        ensures
            listing is None <==> r is None,
            listing is Some ==> {
                let found = monitors(listing->0@);
                let got = r->0@;
                &&& got.len() == found.len()
                &&& forall|i: int|
                    0 <= i < got.len() ==> {
                        &&& #[trigger] got[i].path@ == found[i].path@
                        &&& got[i].name@ == sha256_hex(found[i].path@)
                    }
            },
    {
        match listing {
            None => None,
            Some(devices) => {
                let mut out: Vec<Sensor> = Vec::new();
                let n = devices.len();
                let mut i: usize = 0;
                while i < n
                    invariant
                        n == devices@.len(),
                        i <= n,
                        out@.len() == monitors(devices@.subrange(0, i as int)).len(),
                        forall|j: int|
                            0 <= j < out@.len() ==> {
                                &&& #[trigger] out@[j].path@ == monitors(
                                    devices@.subrange(0, i as int),
                                )[j].path@
                                &&& out@[j].name@ == sha256_hex(
                                    monitors(devices@.subrange(0, i as int))[j].path@,
                                )
                            },
                    decreases n - i,
                {
                    let ghost before = devices@.subrange(0, i as int);
                    let ghost after = devices@.subrange(0, i + 1);
                    assert(after.drop_last() =~= before);
                    assert(after.last() == devices@[i as int]);
                    let d = &devices[i];
                    if d.vendor_id == CO2_SENSOR_VENDOR && d.product_id == CO2_SENSOR_PRODUCT {
                        let s = Sensor::with_key(d.path.as_slice(), random_key());
                        out.push(s);
                    }
                    i = i + 1;
                }
                assert(devices@.subrange(0, n as int) =~= devices@);
                assert(listing->0@ == devices@);
                let ghost found = monitors(devices@);
                assert forall|j: int| 0 <= j < out@.len() implies #[trigger] out@[j].path@
                    == found[j].path@ && out@[j].name@ == sha256_hex(found[j].path@) by {}
                Some(out)
            },
        }
    }

    /// The label of the session.
    pub fn name(&self) -> (r: &str)
        ensures
            r@ == self.name@,
    {
        self.name.as_str()
    }

    /// The feature report that hands the key to the device: a zero report
    /// number followed by the eight key bytes.
    pub fn key_report(&self) -> (r: [u8; 9])
        ensures
            r@ == seq![0u8] + self.key@,
    {
        let k = self.key;
        let r: [u8; 9] = [0, k[0], k[1], k[2], k[3], k[4], k[5], k[6], k[7]];
        assert(r@ =~= seq![0u8] + self.key@);
        r
    }

    /// The measurement of a CO2 reading and a temperature in tenths taken at
    /// `timestamp`.
    pub fn climate(&self, co2: u32, tenths: i64, timestamp: i64) -> (r: Measurement)
        requires
            temperature_in_range(tenths),
        ensures
            r@.name == "room_climate"@,
            r@.tags == climate_tags(self.name@),
            r@.fields == climate_fields(co2, tenths),
            r@.timestamp == timestamp,
            r.wf(),
    {
        proof {
            reveal_strlit("co2");
            reveal_strlit("temperature");
        }
        let mut tags: Vec<(String, Value)> = Vec::new();
        tags.push((String::from_str("sensor"), Value::Text(self.name.clone())));
        let mut fields: Vec<(String, Value)> = Vec::new();
        fields.push((String::from_str("co2"), Value::Integer(co2 as i64)));
        fields.push((String::from_str("temperature"), Value::Decimal(tenths * 1000)));
        let m = Measurement {
            measurement: String::from_str("room_climate"),
            fields,
            tags,
            timestamp,
        };
        assert(m@.tags =~= climate_tags(self.name@));
        assert(m@.fields =~= climate_fields(co2, tenths));
        assert(key_cmp("co2"@, "temperature"@) == -1);
        m
    }

    /// Takes one frame of a read cycle: records its sample and says whether
    /// the cycle goes on, produced a measurement, ran out of budget, or hit a
    /// failed or short read.
    pub fn step(&self, cycle: ReadCycle, frame: Option<&[u8]>) -> (r: ReadStep)
        requires
            cycle.wf(),
        ensures
            step_agrees(r, step_spec(self.key@, cycle, frame_view(frame)), self.name@),
            r matches ReadStep::Pending(n) ==> n.wf(),
    {
        let bytes = match frame {
            None => {
                return ReadStep::Finished(ReadOutcome::Failed);
            },
            Some(b) => b,
        };
        if bytes.len() != 8 {
            return ReadStep::Finished(ReadOutcome::Failed);
        }
        let buf: [u8; 8] = [
            bytes[0],
            bytes[1],
            bytes[2],
            bytes[3],
            bytes[4],
            bytes[5],
            bytes[6],
            bytes[7],
        ];
        assert(buf@ =~= bytes@);
        let d = self.decrypt(&buf);
        let s = classify(&d);
        let co2 = match s {
            Some(Sample::Co2(v)) => Some(v),
            _ => cycle.co2,
        };
        let temperature = match s {
            Some(Sample::Temperature(t)) => Some(t),
            _ => cycle.temperature,
        };
        let reads = cycle.reads + 1;
        let next = ReadCycle { co2, temperature, reads };
        assert(next == record(cycle, sample_of(decoded(bytes@, self.key@))));
        match (co2, temperature) {
            (Some(c), Some(t)) => {
                let m = self.climate(c, t, current_timestamp());
                ReadStep::Finished(ReadOutcome::Measured(m))
            },
            _ => {
                if reads >= READ_BUDGET {
                    ReadStep::Finished(ReadOutcome::Missed)
                } else {
                    ReadStep::Pending(next)
                }
            },
        }
    }

    /// Decodes a raw frame with the session key.
    pub fn decrypt(&self, buf: &[u8; 8]) -> (r: [u8; 8])
        ensures
            r@ == decoded(buf@, self.key@),
    {
        decode(buf, &self.key)
    }
}

} // verus!
