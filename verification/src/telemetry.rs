//! The reporter contract, a blackhole reporter, and an in-memory test sink.

use crate::trace::{Event, EventRec, Span, SpanRec};
use crate::visitor::{FieldVal, Value, Visit};
use vstd::prelude::*;

verus! {

/// The ability to publish finished spans and events to some backend.
///
/// A reporter's history is modelled by the two sequences of records it has
/// received; reporting appends exactly one record to the matching sequence.
pub trait Telemetry: Sized {
    /// Type used to record tracing fields.
    type Visitor: Visit;

    /// The spans this reporter has received, in order.
    spec fn spans_reported(&self) -> Seq<SpanRec>;

    /// The events this reporter has received, in order.
    spec fn events_reported(&self) -> Seq<EventRec>;

    /// A fresh visitor for one span or event.
    fn mk_visitor(&self) -> (r: Self::Visitor)
        ensures
            r.observed() == Seq::<(Seq<char>, FieldVal)>::empty(),
    ;

    /// Report a finished span to this reporter's backend.
    fn report_span(&mut self, span: Span<Self::Visitor>)
        ensures
            final(self).spans_reported() == old(self).spans_reported().push(span.model()),
            final(self).events_reported() == old(self).events_reported(),
    ;

    /// Report a finished event to this reporter's backend.
    fn report_event(&mut self, event: Event<Self::Visitor>)
        ensures
            final(self).events_reported() == old(self).events_reported().push(event.model()),
            final(self).spans_reported() == old(self).spans_reported(),
    ;
}

/// Visitor that records no information at run time when visiting fields;
/// the observations fed to it are tracked only in ghost state.
pub struct BlackholeVisitor {
    seen: Ghost<Seq<(Seq<char>, FieldVal)>>,
}

impl Visit for BlackholeVisitor {
    closed spec fn observed(&self) -> Seq<(Seq<char>, FieldVal)> {
        self.seen@
    }

    fn empty() -> (r: Self) {
        BlackholeVisitor { seen: Ghost(Seq::empty()) }
    }

    fn record_field(&mut self, name: &str, value: &Value) {
        self.seen = Ghost(self.seen@.push((name@, value@)));
    }
}

/// Telemetry implementation that publishes nothing to any backend.
///
/// The records it would have published are tracked only in ghost state.
pub struct BlackholeTelemetry {
    spans: Ghost<Seq<SpanRec>>,
    events: Ghost<Seq<EventRec>>,
}

impl BlackholeTelemetry {
    /// A blackhole reporter that has received nothing.
    pub fn new() -> (r: BlackholeTelemetry)
        ensures
            r.spans_reported() == Seq::<SpanRec>::empty(),
            r.events_reported() == Seq::<EventRec>::empty(),
    {
        BlackholeTelemetry { spans: Ghost(Seq::empty()), events: Ghost(Seq::empty()) }
    }
}

impl Default for BlackholeTelemetry {
    fn default() -> (r: BlackholeTelemetry)
        ensures
            r.spans_reported() == Seq::<SpanRec>::empty(),
            r.events_reported() == Seq::<EventRec>::empty(),
    {
        BlackholeTelemetry::new()
    }
}

impl Telemetry for BlackholeTelemetry {
    type Visitor = BlackholeVisitor;

    closed spec fn spans_reported(&self) -> Seq<SpanRec> {
        self.spans@
    }

    closed spec fn events_reported(&self) -> Seq<EventRec> {
        self.events@
    }

    fn mk_visitor(&self) -> (r: BlackholeVisitor) {
        BlackholeVisitor { seen: Ghost(Seq::empty()) }
    }

    fn report_span(&mut self, span: Span<BlackholeVisitor>) {
        self.spans = Ghost(self.spans@.push(span.model()));
    }

    fn report_event(&mut self, event: Event<BlackholeVisitor>) {
        self.events = Ghost(self.events@.push(event.model()));
    }
}

/// Telemetry implementation that stores every record it receives, for tests.
pub struct TestTelemetry<V> {
    /// The spans this sink has received, in order.
    pub spans: Vec<Span<V>>,
    /// The events this sink has received, in order.
    pub events: Vec<Event<V>>,
}

impl<V> TestTelemetry<V> {
    /// A test sink that has received nothing.
    pub fn new() -> (r: TestTelemetry<V>)
        ensures
            r.spans@ == Seq::<Span<V>>::empty(),
            r.events@ == Seq::<Event<V>>::empty(),
    {
        TestTelemetry { spans: Vec::new(), events: Vec::new() }
    }
}

impl<V: Visit> Telemetry for TestTelemetry<V> {
    type Visitor = V;

    open spec fn spans_reported(&self) -> Seq<SpanRec> {
        self.spans@.map_values(|s: Span<V>| s.model())
    }

    open spec fn events_reported(&self) -> Seq<EventRec> {
        self.events@.map_values(|e: Event<V>| e.model())
    }

    fn mk_visitor(&self) -> (r: V) {
        V::empty()
    }

    fn report_span(&mut self, span: Span<V>) {
        let ghost before = self.spans@;
        let ghost rec = span.model();
        self.spans.push(span);
        proof {
            assert(self.spans@.map_values(|s: Span<V>| s.model()) =~= before.map_values(
                |s: Span<V>| s.model(),
            ).push(rec));
        }
    }

    fn report_event(&mut self, event: Event<V>) {
        let ghost before = self.events@;
        let ghost rec = event.model();
        self.events.push(event);
        proof {
            assert(self.events@.map_values(|e: Event<V>| e.model()) =~= before.map_values(
                |e: Event<V>| e.model(),
            ).push(rec));
        }
    }
}

} // verus!
