//! Distributed tracing core.
//!
//! This library attaches distributed trace identity to an in-process tree of
//! spans: it keeps a registry mapping span handles to trace contexts, resolves
//! the context of any span by walking its ancestor chain (caching the result),
//! and turns finished spans and events into records for a pluggable reporter.

pub mod clock;
pub mod deterministic_sampler;
pub mod digits;
pub mod entropy;
pub mod span_id;
pub mod telemetry;
pub mod telemetry_layer;
pub mod trace;
pub mod trace_id;
pub mod visitor;

pub use clock::{format_rfc3339_millis, now_millis};
pub use deterministic_sampler::{sample, sample_decision, should_report};
pub use span_id::{ParseSpanIdError, SpanId};
pub use telemetry::{BlackholeTelemetry, BlackholeVisitor, Telemetry, TestTelemetry};
pub use telemetry_layer::{new_blackhole_telemetry_layer, Attrs, TelemetryLayer, TraceCtxRegistry};
pub use trace::{
    current_dist_trace_ctx, register_dist_tracing_root, Event, Level, Span, SpanMeta, TraceCtx,
    TraceCtxError,
};
pub use trace_id::TraceId;
pub use visitor::{
    event_to_values, level_str, mk_field_name, span_to_values, FieldMap, HoneycombVisitor,
    OpenTelemetryVisitor, Value, Visit,
};
