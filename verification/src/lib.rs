//! Building blocks of a live captioning pipeline: buffer sizing, downmixing,
//! sample-rate conversion, decode scheduling over a rolling window, caption
//! stabilization and caption composition.
//!
//! Audio samples are handled as opaque values of a caller-chosen type; every
//! rule that the pipeline applies to them (framing, queueing, windowing,
//! padding) is stated and proved here for every such type. What works on
//! the values themselves is handed in: the averaging of a frame, the engine
//! that converts the sample rate, and the engine that decodes speech.

pub mod bridge;
pub mod capture;
pub mod composer;
pub mod device;
pub mod fifo;
pub mod formatting;
pub mod math;
pub mod mixer;
pub mod resampler;
pub mod session;
pub mod speech;
pub mod stabilizer;
pub mod text;
pub mod whisper;
pub mod worker;
