//! Telemetry export for distributed traces.
//!
//! Finished spans and emitted events are sampled per trace, flattened into a
//! record of named scalar fields, and handed to a [`Sink`]. A trace is either
//! exported whole or not at all: the sampling decision is a function of the
//! trace identifier and the configured rate alone.

pub mod deterministic_sampler;
pub mod hex;
pub mod honeycomb;
pub mod json;
pub mod record;
pub mod sink;
pub mod span_id;
pub mod text;
pub mod trace_id;
pub mod visitor;

pub use deterministic_sampler::Sampler;
pub use hex::IntErrorKind;
pub use honeycomb::HoneycombTelemetry;
pub use record::{Field, FieldValue, Record};
pub use sink::{Blackhole, MemorySink, Sink, Stdout};
pub use span_id::{ParseSpanIdError, SpanId};
pub use trace_id::TraceId;
pub use visitor::{Event, HoneycombVisitor, Span};
