//! Trace contexts, reporter-bound records, and the errors of the
//! out-of-band helpers.

use crate::span_id::SpanId;
use crate::telemetry::Telemetry;
use crate::telemetry_layer::{spec_promote, resolve, TelemetryLayer};
use crate::trace_id::TraceId;
use crate::visitor::{FieldVal, Visit};
use vstd::prelude::*;

verus! {

/// A distributed trace context installed on a local root span.
///
/// `parent_span` is set only when the local root continues a trace whose
/// parent span lives in another process.
#[derive(Clone, Copy, PartialEq, Eq, Hash, Debug)]
pub struct TraceCtx {
    /// The trace this span belongs to.
    pub trace_id: TraceId,
    /// The remote parent span, for local roots whose parent lives elsewhere.
    pub parent_span: Option<SpanId>,
}

/// Errors that can occur while registering the current span as a distributed
/// trace root or while reading the current trace context.
#[derive(Clone, Copy, PartialEq, Eq, Hash, Debug, Structural)]
pub enum TraceCtxError {
    /// No telemetry layer is reachable from the ambient dispatcher.
    TelemetryLayerNotRegistered,
    /// The dispatcher does not expose the span store needed for resolution.
    RegistrySubscriberNotRegistered,
    /// No span is active on the calling task or thread.
    NoEnabledSpan,
    /// Neither the current span nor any ancestor carries a trace context.
    NoParentNodeHasTraceCtx,
}

/// Severity level of a span or event, as the host framework reports it.
#[derive(Clone, Copy, PartialEq, Eq, Hash, Debug, Structural)]
pub enum Level {
    /// Finest-grained information.
    Trace,
    /// Debugging information.
    Debug,
    /// General information.
    Info,
    /// Warnings.
    Warn,
    /// Errors.
    Error,
}

/// The host framework's metadata for a span or event, as plain values.
#[derive(Debug, PartialEq, Eq)]
pub struct SpanMeta {
    /// Name of the span or event.
    pub name: String,
    /// Module or target that produced it.
    pub target: String,
    /// Severity level.
    pub level: Level,
}

/// Mathematical view of `SpanMeta`.
pub struct MetaRec {
    /// Name of the span or event.
    pub name: Seq<char>,
    /// Module or target that produced it.
    pub target: Seq<char>,
    /// Severity level.
    pub level: Level,
}

impl View for SpanMeta {
    type V = MetaRec;

    open spec fn view(&self) -> MetaRec {
        MetaRec { name: self.name@, target: self.target@, level: self.level }
    }
}

impl SpanMeta {
    /// An equal copy of this metadata.
    pub fn duplicate(&self) -> (r: SpanMeta)
        ensures
            r@ == self@,
    {
        SpanMeta { name: self.name.clone(), target: self.target.clone(), level: self.level }
    }
}

/// A finished span, ready to hand to the reporter.
#[derive(Debug)]
pub struct Span<V> {
    /// Id identifying this span.
    pub id: SpanId,
    /// The trace this span belongs to.
    pub trace_id: TraceId,
    /// Optional parent span id.
    pub parent_id: Option<SpanId>,
    /// Milliseconds since the epoch at which this span was opened.
    pub initialized_at: i64,
    /// Milliseconds elapsed between opening and closing this span.
    pub elapsed_ms: i64,
    /// The host framework's metadata for this span.
    pub meta: SpanMeta,
    /// Name of the service on which this span occurred.
    pub service_name: String,
    /// Values accumulated while visiting this span's fields.
    pub values: V,
}

/// Mathematical view of a finished span.
pub struct SpanRec {
    /// Id identifying this span.
    pub id: SpanId,
    /// The trace this span belongs to.
    pub trace_id: TraceId,
    /// Optional parent span id.
    pub parent_id: Option<SpanId>,
    /// Milliseconds since the epoch at which this span was opened.
    pub initialized_at: int,
    /// Milliseconds elapsed between opening and closing this span.
    pub elapsed_ms: int,
    /// Metadata of this span.
    pub meta: MetaRec,
    /// Name of the service on which this span occurred.
    pub service_name: Seq<char>,
    /// The fields this span's own visitor observed, in order.
    pub values: Seq<(Seq<char>, FieldVal)>,
}

impl<V: Visit> Span<V> {
    /// The view of this record: its plain fields, and the observations its
    /// visitor accumulated.
    pub open spec fn model(&self) -> SpanRec {
        SpanRec {
            id: self.id,
            trace_id: self.trace_id,
            parent_id: self.parent_id,
            initialized_at: self.initialized_at as int,
            elapsed_ms: self.elapsed_ms as int,
            meta: self.meta@,
            service_name: self.service_name@,
            values: self.values.observed(),
        }
    }
}

/// A finished event, ready to hand to the reporter.
#[derive(Debug)]
pub struct Event<V> {
    /// The trace this event belongs to.
    pub trace_id: TraceId,
    /// Optional parent span id.
    pub parent_id: Option<SpanId>,
    /// Milliseconds since the epoch at which this event fired.
    pub initialized_at: i64,
    /// The host framework's metadata for this event.
    pub meta: SpanMeta,
    /// Name of the service on which this event occurred.
    pub service_name: String,
    /// Values accumulated while visiting this event's fields.
    pub values: V,
}

/// Mathematical view of a finished event.
pub struct EventRec {
    /// The trace this event belongs to.
    pub trace_id: TraceId,
    /// Optional parent span id.
    pub parent_id: Option<SpanId>,
    /// Milliseconds since the epoch at which this event fired.
    pub initialized_at: int,
    /// Metadata of this event.
    pub meta: MetaRec,
    /// Name of the service on which this event occurred.
    pub service_name: Seq<char>,
    /// The fields this event's own visitor observed, in order.
    pub values: Seq<(Seq<char>, FieldVal)>,
}

impl<V: Visit> Event<V> {
    /// The view of this record: its plain fields, and the observations its
    /// visitor accumulated.
    pub open spec fn model(&self) -> EventRec {
        EventRec {
            trace_id: self.trace_id,
            parent_id: self.parent_id,
            initialized_at: self.initialized_at as int,
            meta: self.meta@,
            service_name: self.service_name@,
            values: self.values.observed(),
        }
    }
}

/// Register the current span as the local root of a distributed trace.
///
/// The first registration on a span wins; with no current span the registry
/// is untouched and `NoEnabledSpan` is returned.
pub fn register_dist_tracing_root<T: Telemetry>(
    layer: &mut TelemetryLayer<T>,
    trace_id: TraceId,
    remote_parent_span: Option<SpanId>,
) -> (r: Result<(), TraceCtxError>)
    requires
        old(layer).wf(),
    ensures
        final(layer).wf(),
        final(layer).same_store(old(layer)),
        final(layer).span_stack() == old(layer).span_stack(),
        final(layer).same_config(old(layer)),
        final(layer).same_reports(old(layer)),
        final(layer).reporter() == old(layer).reporter(),
        old(layer).span_stack().len() == 0 ==> r == Err::<(), TraceCtxError>(
            TraceCtxError::NoEnabledSpan,
        ) && final(layer).registry_ctxs() == old(layer).registry_ctxs(),
        old(layer).span_stack().len() > 0 ==> {
            let cur = old(layer).span_stack().last();
            &&& r == Ok::<(), TraceCtxError>(())
            &&& !old(layer).registry_ctxs().contains_key(cur) ==> final(layer).registry_ctxs()
                == old(layer).registry_ctxs().insert(
                cur,
                TraceCtx { trace_id, parent_span: remote_parent_span },
            )
            &&& old(layer).registry_ctxs().contains_key(cur) ==> final(layer).registry_ctxs()
                == old(layer).registry_ctxs()
        },
{
    layer.register_dist_tracing_root(trace_id, remote_parent_span)
}

/// Retrieve the distributed trace context associated with the current span:
/// the trace id it resolves to, and its own promoted span id.
pub fn current_dist_trace_ctx<T: Telemetry>(layer: &mut TelemetryLayer<T>) -> (r: Result<
    (TraceId, SpanId),
    TraceCtxError,
>)
    requires
        old(layer).wf(),
    ensures
        final(layer).wf(),
        final(layer).visitor_map() == old(layer).visitor_map(),
        final(layer).meta_map() == old(layer).meta_map(),
        final(layer).span_stack() == old(layer).span_stack(),
        final(layer).registry_ctxs() == old(layer).registry_ctxs(),
        final(layer).same_config(old(layer)),
        final(layer).same_reports(old(layer)),
        final(layer).reporter() == old(layer).reporter(),
        forall|k: u64|
            #[trigger] resolve(final(layer).node_map(), final(layer).registry_ctxs(), k)
                == resolve(old(layer).node_map(), old(layer).registry_ctxs(), k),
        old(layer).span_stack().len() == 0 ==> r == Err::<(TraceId, SpanId), TraceCtxError>(
            TraceCtxError::NoEnabledSpan,
        ),
        old(layer).span_stack().len() > 0 ==> {
            let cur = old(layer).span_stack().last();
            match resolve(old(layer).node_map(), old(layer).registry_ctxs(), cur) {
                Some(ctx) => r == Ok::<(TraceId, SpanId), TraceCtxError>(
                    (ctx.trace_id, spec_promote(old(layer).nonce(), cur)),
                ),
                None => r == Err::<(TraceId, SpanId), TraceCtxError>(
                    TraceCtxError::NoParentNodeHasTraceCtx,
                ),
            }
        },
{
    layer.current_dist_trace_ctx()
}

impl TraceCtx {
    /// Register the current span as the local root of a distributed trace
    /// carrying this context.
    pub fn register_dist_tracing_root<T: Telemetry>(self, layer: &mut TelemetryLayer<T>) -> (r:
        Result<(), TraceCtxError>)
        requires
            old(layer).wf(),
        ensures
            final(layer).wf(),
            final(layer).same_store(old(layer)),
            final(layer).span_stack() == old(layer).span_stack(),
            final(layer).same_config(old(layer)),
            final(layer).same_reports(old(layer)),
            final(layer).reporter() == old(layer).reporter(),
            old(layer).span_stack().len() == 0 ==> r == Err::<(), TraceCtxError>(
                TraceCtxError::NoEnabledSpan,
            ) && final(layer).registry_ctxs() == old(layer).registry_ctxs(),
            old(layer).span_stack().len() > 0 ==> {
                let cur = old(layer).span_stack().last();
                &&& r == Ok::<(), TraceCtxError>(())
                &&& !old(layer).registry_ctxs().contains_key(cur) ==> final(layer).registry_ctxs()
                    == old(layer).registry_ctxs().insert(cur, self)
                &&& old(layer).registry_ctxs().contains_key(cur) ==> final(layer).registry_ctxs()
                    == old(layer).registry_ctxs()
            },
    {
        layer.register_dist_tracing_root(self.trace_id, self.parent_span)
    }
}

impl TraceId {
    /// Register the current span as the local root of a trace with this id
    /// and no remote parent.
    pub fn record_on_current_span<T: Telemetry>(self, layer: &mut TelemetryLayer<T>) -> (r: Result<
        (),
        TraceCtxError,
    >)
        requires
            old(layer).wf(),
        ensures
            final(layer).wf(),
            final(layer).same_store(old(layer)),
            final(layer).span_stack() == old(layer).span_stack(),
            final(layer).same_config(old(layer)),
            final(layer).same_reports(old(layer)),
            final(layer).reporter() == old(layer).reporter(),
            old(layer).span_stack().len() == 0 ==> r == Err::<(), TraceCtxError>(
                TraceCtxError::NoEnabledSpan,
            ) && final(layer).registry_ctxs() == old(layer).registry_ctxs(),
            old(layer).span_stack().len() > 0 ==> {
                let cur = old(layer).span_stack().last();
                &&& r == Ok::<(), TraceCtxError>(())
                &&& !old(layer).registry_ctxs().contains_key(cur) ==> final(layer).registry_ctxs()
                    == old(layer).registry_ctxs().insert(
                    cur,
                    TraceCtx { trace_id: self, parent_span: None },
                )
                &&& old(layer).registry_ctxs().contains_key(cur) ==> final(layer).registry_ctxs()
                    == old(layer).registry_ctxs()
            },
    {
        layer.register_dist_tracing_root(self, None)
    }
}

} // verus!
