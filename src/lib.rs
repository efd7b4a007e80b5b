//! Polling of CO2 monitors and delivery of their measurements to sinks.
//!
//! The library holds the protocol logic: the frame decoding, the session
//! read cycle, the registry of live sessions, the measurement model with its
//! console rendering, and the buffering and flush policy of the sinks. The
//! device link, the channel, the timers and the backend writes are driven by
//! the program around it.

pub mod clock;
pub mod codec;
pub mod keys;
pub mod measurement;
pub mod pipeline;
pub mod sensor;
pub mod sink;
pub mod text;

pub use codec::{classify, decode, mask, permute, rotate, unbias, Sample};
pub use measurement::{Measurement, Value};
pub use pipeline::{deliver, prune, NextStep, Receipt};
pub use sensor::{sha256, DeviceEntry, ReadCycle, ReadOutcome, ReadStep, Sensor};
pub use sink::{from_config, InfluxConfig, InfluxSink, PrintConfig, PrintSink, Sink, SinkConfig, Submission};
