//! The trace-context registry and its lazy tree-walk resolution.
//!
//! The registry maps host-framework span handles to the trace contexts that
//! application code registered on local roots. Resolution walks a span's
//! ancestor chain, returns the context of the nearest ancestor that carries
//! one (cached or registered), and caches the outcome on every span it
//! visited so that later resolutions on the same tree are answered at once.

use crate::span_id::SpanId;
use crate::telemetry::{BlackholeTelemetry, Telemetry};
use crate::trace::{Event, EventRec, MetaRec, Span, SpanMeta, SpanRec, TraceCtx, TraceCtxError};
use crate::trace_id::TraceId;
use crate::visitor::{fields_observed, FieldVal, Value, Visit};
use std::collections::HashMap;
use vstd::std_specs::iter::IteratorSpec;
use vstd::prelude::*;

verus! {

broadcast use vstd::std_specs::hash::group_hash_axioms;

/// Per-span state mirrored from the host framework: the parent link and the
/// extension slots this layer owns.
#[derive(Clone, Copy, Debug)]
pub struct SpanNode {
    /// In-process parent handle, if any.
    pub parent: Option<u64>,
    /// Distance from the root of its span tree; parents lie strictly closer.
    pub depth: u64,
    /// Milliseconds since the epoch when the span opened.
    pub init_ms: i64,
    /// The lazily cached trace context, if resolution has visited this span.
    pub cached: Option<TraceCtx>,
}

/// Well-formedness of a span store: handles are nonzero, init timestamps
/// nonnegative, and every parent exists and lies strictly closer to the root.
pub open spec fn nodes_wf(m: Map<u64, SpanNode>) -> bool {
    forall|h: u64| #[trigger] m.contains_key(h) ==> h != 0 && m[h].init_ms >= 0 && match m[h].parent {
        Some(p) => m.contains_key(p) && m[p].depth < m[h].depth,
        None => true,
    }
}

/// Depth of a span, for termination of walks toward the root.
pub open spec fn node_depth(m: Map<u64, SpanNode>, h: u64) -> nat {
    if m.contains_key(h) {
        m[h].depth as nat
    } else {
        0
    }
}

/// The trace context a span resolves to: its own cached context if present,
/// else its own registered context, else its nearest ancestor's, with the
/// remote-parent marker cleared on the way down.
pub open spec fn resolve(m: Map<u64, SpanNode>, reg: Map<u64, TraceCtx>, h: u64) -> Option<
    TraceCtx,
>
    decreases node_depth(m, h),
{
    if !m.contains_key(h) {
        None
    } else if m[h].cached is Some {
        m[h].cached
    } else if reg.contains_key(h) {
        Some(reg[h])
    } else {
        match m[h].parent {
            Some(p) => {
                if m.contains_key(p) && m[p].depth < m[h].depth {
                    match resolve(m, reg, p) {
                        Some(c) => Some(TraceCtx { trace_id: c.trace_id, parent_span: None }),
                        None => None,
                    }
                } else {
                    None
                }
            },
            None => None,
        }
    }
}

/// Promotion of a host-framework handle: pair it with the instance nonce.
pub open spec fn spec_promote(nonce: u64, id: u64) -> SpanId {
    SpanId { tracing_id: id, instance_id: nonce }
}

/// The span at which a resolution walk from `h` finds a context: the
/// nearest span on the chain with a cached or registered context.
pub open spec fn resolve_site(m: Map<u64, SpanNode>, reg: Map<u64, TraceCtx>, h: u64) -> Option<
    u64,
>
    decreases node_depth(m, h),
{
    if !m.contains_key(h) {
        None
    } else if m[h].cached is Some || reg.contains_key(h) {
        Some(h)
    } else {
        match m[h].parent {
            Some(p) => {
                if m.contains_key(p) && m[p].depth < m[h].depth {
                    resolve_site(m, reg, p)
                } else {
                    None
                }
            },
            None => None,
        }
    }
}

/// `k` lies on the stretch that a successful resolution walk from `h`
/// visits: the chain from `h` up to and including the site. When the walk
/// finds nothing, no span counts as walked.
pub open spec fn walked(m: Map<u64, SpanNode>, reg: Map<u64, TraceCtx>, h: u64, k: u64) -> bool
    decreases node_depth(m, h),
{
    if !m.contains_key(h) {
        false
    } else if m[h].cached is Some || reg.contains_key(h) {
        k == h
    } else {
        match m[h].parent {
            Some(p) => {
                if m.contains_key(p) && m[p].depth < m[h].depth {
                    (k == h && resolve(m, reg, p) is Some) || walked(m, reg, p, k)
                } else {
                    false
                }
            },
            None => false,
        }
    }
}

/// A walked span lies on a chain whose resolution succeeds.
proof fn lemma_walked_resolves(m: Map<u64, SpanNode>, reg: Map<u64, TraceCtx>, h: u64, k: u64)
    requires
        walked(m, reg, h, k),
    ensures
        resolve(m, reg, h) is Some,
    decreases node_depth(m, h),
{
    if m.contains_key(h) && m[h].cached is None && !reg.contains_key(h) {
        match m[h].parent {
            Some(p) => {
                if m.contains_key(p) && m[p].depth < m[h].depth {
                    if walked(m, reg, p, k) {
                        lemma_walked_resolves(m, reg, p, k);
                    }
                }
            },
            None => {},
        }
    }
}

/// The site a walk finds lies no deeper than the span the walk serves.
proof fn lemma_site_shallower(m: Map<u64, SpanNode>, reg: Map<u64, TraceCtx>, h: u64)
    requires
        nodes_wf(m),
    ensures
        match resolve_site(m, reg, h) {
            Some(site) => m.contains_key(site) && m[site].depth <= node_depth(m, h),
            None => true,
        },
    decreases node_depth(m, h),
{
    if m.contains_key(h) && m[h].cached is None && !reg.contains_key(h) {
        match m[h].parent {
            Some(p) => {
                if m.contains_key(p) && m[p].depth < m[h].depth {
                    lemma_site_shallower(m, reg, p);
                }
            },
            None => {},
        }
    }
}

/// The cache slot of span `k` after a resolution walk from `h` over the
/// store `m`: spans the walk did not visit keep their slot; the span where
/// the context was found holds it whole (its remote-parent marker only
/// there); every other visited span holds the trace id with the marker
/// cleared.
pub open spec fn cached_after(
    m: Map<u64, SpanNode>,
    reg: Map<u64, TraceCtx>,
    h: u64,
    k: u64,
) -> Option<TraceCtx> {
    if !walked(m, reg, h, k) {
        m[k].cached
    } else if resolve_site(m, reg, h) == Some(k) {
        if m[k].cached is Some {
            m[k].cached
        } else {
            Some(reg[k])
        }
    } else {
        match resolve(m, reg, h) {
            Some(c) => Some(TraceCtx { trace_id: c.trace_id, parent_span: None }),
            None => m[k].cached,
        }
    }
}

/// Caching a span's own resolution result on it changes no span's
/// resolution.
proof fn lemma_cache_preserves_resolve_at(
    m1: Map<u64, SpanNode>,
    m2: Map<u64, SpanNode>,
    reg: Map<u64, TraceCtx>,
    h: u64,
    c: TraceCtx,
    k: u64,
)
    requires
        nodes_wf(m1),
        m1.contains_key(h),
        resolve(m1, reg, h) == Some(c),
        m2 == m1.insert(
            h,
            SpanNode {
                parent: m1[h].parent,
                depth: m1[h].depth,
                init_ms: m1[h].init_ms,
                cached: Some(c),
            },
        ),
    ensures
        resolve(m2, reg, k) == resolve(m1, reg, k),
    decreases node_depth(m1, k),
{
    assert(m2.dom() =~= m1.dom());
    if !m1.contains_key(k) {
    } else if k == h {
    } else {
        assert(m2[k] == m1[k]);
        if m1[k].cached is None && !reg.contains_key(k) {
            match m1[k].parent {
                Some(p) => {
                    lemma_cache_preserves_resolve_at(m1, m2, reg, h, c, p);
                },
                None => {},
            }
        }
    }
}

/// The concurrent map from host-framework span handles to the trace contexts
/// of registered local roots, together with the process-instance nonce used
/// to promote handles to span ids.
pub struct TraceCtxRegistry {
    registry: HashMap<u64, TraceCtx>,
    instance_id: u64,
}

impl TraceCtxRegistry {
    /// The registered contexts, by span handle.
    pub closed spec fn ctxs(&self) -> Map<u64, TraceCtx> {
        self.registry@
    }

    /// The process-instance nonce.
    pub closed spec fn nonce(&self) -> u64 {
        self.instance_id
    }

    /// An empty registry that promotes handles with the given nonce.
    pub fn new(instance_id: u64) -> (r: TraceCtxRegistry)
        ensures
            r.ctxs() == Map::<u64, TraceCtx>::empty(),
            r.nonce() == instance_id,
    {
        TraceCtxRegistry { registry: HashMap::new(), instance_id }
    }

    /// Promote a host-framework handle to an externalisable span id.
    pub fn promote_span_id(&self, id: u64) -> (r: SpanId)
        ensures
            r == spec_promote(self.nonce(), id),
    {
        SpanId { tracing_id: id, instance_id: self.instance_id }
    }

    /// Whether a context is registered for a span handle.
    pub fn has_ctx(&self, id: u64) -> (r: bool)
        ensures
            r == self.ctxs().contains_key(id),
    {
        self.registry.contains_key(&id)
    }

    /// Drop the context registered for a span handle, if any.
    pub fn remove_ctx(&mut self, id: u64)
        ensures
            final(self).ctxs() == old(self).ctxs().remove(id),
            final(self).nonce() == old(self).nonce(),
    {
        self.registry.remove(&id);
        proof {
            assert(self.ctxs() =~= old(self).ctxs().remove(id));
        }
    }

    /// Register a trace context for a span handle.
    ///
    /// The first registration on a handle wins: a later one changes nothing
    /// and returns false, so the caller can warn the operator.
    pub fn record_trace_ctx(
        &mut self,
        trace_id: TraceId,
        remote_parent_span: Option<SpanId>,
        id: u64,
    ) -> (fresh: bool)
        ensures
            fresh == !old(self).ctxs().contains_key(id),
            fresh ==> final(self).ctxs() == old(self).ctxs().insert(
                id,
                TraceCtx { trace_id, parent_span: remote_parent_span },
            ),
            !fresh ==> final(self).ctxs() == old(self).ctxs(),
            final(self).nonce() == old(self).nonce(),
    {
        if self.registry.contains_key(&id) {
            false
        } else {
            self.registry.insert(id, TraceCtx { trace_id, parent_span: remote_parent_span });
            true
        }
    }

    /// Resolve the trace context of the span `h` by walking its ancestor
    /// chain, caching what was learned on every span visited.
    ///
    /// The result is exactly `resolve` of the store as it was; resolution of
    /// every span is left unchanged, as are all fields but the cache slots,
    /// which afterwards hold exactly `cached_after`: the span where the
    /// context was found holds it whole, every nearer span the walk visited
    /// holds the trace id with the remote-parent marker cleared, and no
    /// other span is touched. A failed resolution or a cache hit at `h`
    /// leaves the store untouched.
    pub fn eval_ctx(&self, nodes: &mut HashMap<u64, SpanNode>, h: u64) -> (r: Option<TraceCtx>)
        requires
            nodes_wf(old(nodes)@),
            old(nodes)@.contains_key(h),
        ensures
            r == resolve(old(nodes)@, self.ctxs(), h),
            nodes_wf(final(nodes)@),
            final(nodes)@.dom() == old(nodes)@.dom(),
            forall|k: u64|
                old(nodes)@.contains_key(k) ==> {
                    &&& (#[trigger] final(nodes)@[k]).parent == old(nodes)@[k].parent
                    &&& final(nodes)@[k].depth == old(nodes)@[k].depth
                    &&& final(nodes)@[k].init_ms == old(nodes)@[k].init_ms
                },
            forall|k: u64|
                #[trigger] resolve(final(nodes)@, self.ctxs(), k) == resolve(
                    old(nodes)@,
                    self.ctxs(),
                    k,
                ),
            r is None ==> final(nodes)@ == old(nodes)@,
            old(nodes)@[h].cached is Some ==> final(nodes)@ == old(nodes)@,
            r is Some ==> final(nodes)@[h].cached == r,
            forall|k: u64|
                #[trigger] old(nodes)@.contains_key(k) ==> final(nodes)@[k].cached == cached_after(
                    old(nodes)@,
                    self.ctxs(),
                    h,
                    k,
                ),
        decreases old(nodes)@[h].depth,
    {
        let node = match nodes.get(&h) {
            Some(n) => *n,
            None => {
                proof {
                    assert(false);
                }
                return None;
            },
        };
        match node.cached {
            Some(c) => {
                proof {
                    assert forall|k: u64| #[trigger] old(nodes)@.contains_key(k) implies nodes@[k].cached
                        == cached_after(old(nodes)@, self.ctxs(), h, k) by {
                        assert(walked(old(nodes)@, self.ctxs(), h, k) == (k == h));
                        assert(resolve_site(old(nodes)@, self.ctxs(), h) == Some(h));
                    }
                }
                Some(c)
            },
            None => {
                match self.registry.get(&h) {
                    Some(x) => {
                        let ctx = *x;
                        let ghost before = nodes@;
                        nodes.insert(
                            h,
                            SpanNode {
                                parent: node.parent,
                                depth: node.depth,
                                init_ms: node.init_ms,
                                cached: Some(ctx),
                            },
                        );
                        proof {
                            assert(nodes@.dom() =~= before.dom());
                            assert forall|k: u64|
                                #[trigger] resolve(nodes@, self.ctxs(), k) == resolve(
                                    before,
                                    self.ctxs(),
                                    k,
                                ) by {
                                lemma_cache_preserves_resolve_at(
                                    before,
                                    nodes@,
                                    self.ctxs(),
                                    h,
                                    ctx,
                                    k,
                                );
                            }
                            assert forall|k: u64| #[trigger] before.contains_key(k) implies nodes@[k].cached
                                == cached_after(before, self.ctxs(), h, k) by {
                                assert(walked(before, self.ctxs(), h, k) == (k == h));
                                assert(resolve_site(before, self.ctxs(), h) == Some(h));
                            }
                        }
                        Some(ctx)
                    },
                    None => {
                        match node.parent {
                            None => {
                                proof {
                                    assert forall|k: u64| #[trigger] old(nodes)@.contains_key(k) implies nodes@[k].cached
                                        == cached_after(old(nodes)@, self.ctxs(), h, k) by {
                                        assert(!walked(old(nodes)@, self.ctxs(), h, k));
                                    }
                                }
                                None
                            },
                            Some(p) => {
                                match self.eval_ctx(nodes, p) {
                                    None => {
                                        proof {
                                            assert forall|k: u64| #[trigger] old(nodes)@.contains_key(k) implies nodes@[k].cached
                                                == cached_after(old(nodes)@, self.ctxs(), h, k) by {
                                                if walked(old(nodes)@, self.ctxs(), p, k) {
                                                    lemma_walked_resolves(
                                                        old(nodes)@,
                                                        self.ctxs(),
                                                        p,
                                                        k,
                                                    );
                                                }
                                                assert(!walked(old(nodes)@, self.ctxs(), h, k));
                                            }
                                        }
                                        None
                                    },
                                    Some(c) => {
                                        let cc = TraceCtx {
                                            trace_id: c.trace_id,
                                            parent_span: None,
                                        };
                                        let ghost mid = nodes@;
                                        nodes.insert(
                                            h,
                                            SpanNode {
                                                parent: node.parent,
                                                depth: node.depth,
                                                init_ms: node.init_ms,
                                                cached: Some(cc),
                                            },
                                        );
                                        proof {
                                            assert(resolve(mid, self.ctxs(), h) == resolve(
                                                old(nodes)@,
                                                self.ctxs(),
                                                h,
                                            ));
                                            assert(resolve(old(nodes)@, self.ctxs(), h) == Some(
                                                cc,
                                            ));
                                            assert(nodes@.dom() =~= mid.dom());
                                            assert forall|k: u64|
                                                #[trigger] resolve(nodes@, self.ctxs(), k)
                                                    == resolve(mid, self.ctxs(), k) by {
                                                lemma_cache_preserves_resolve_at(
                                                    mid,
                                                    nodes@,
                                                    self.ctxs(),
                                                    h,
                                                    cc,
                                                    k,
                                                );
                                            }
                                            assert forall|k: u64| #[trigger] old(nodes)@.contains_key(
                                                k,
                                            ) implies nodes@[k].cached == cached_after(
                                                old(nodes)@,
                                                self.ctxs(),
                                                h,
                                                k,
                                            ) by {
                                                if k == h {
                                                    lemma_site_shallower(
                                                        old(nodes)@,
                                                        self.ctxs(),
                                                        p,
                                                    );
                                                    assert(resolve_site(
                                                        old(nodes)@,
                                                        self.ctxs(),
                                                        h,
                                                    ) == resolve_site(
                                                        old(nodes)@,
                                                        self.ctxs(),
                                                        p,
                                                    ));
                                                    assert(resolve_site(
                                                        old(nodes)@,
                                                        self.ctxs(),
                                                        h,
                                                    ) != Some(h));
                                                } else {
                                                    assert(nodes@[k].cached == mid[k].cached);
                                                    assert(mid[k].cached == cached_after(
                                                        old(nodes)@,
                                                        self.ctxs(),
                                                        p,
                                                        k,
                                                    ));
                                                    assert(walked(old(nodes)@, self.ctxs(), h, k)
                                                        == walked(old(nodes)@, self.ctxs(), p, k));
                                                    if walked(old(nodes)@, self.ctxs(), p, k) {
                                                        lemma_walked_resolves(
                                                            old(nodes)@,
                                                            self.ctxs(),
                                                            p,
                                                            k,
                                                        );
                                                    }
                                                }
                                            }
                                        }
                                        Some(cc)
                                    },
                                }
                            },
                        }
                    },
                }
            },
        }
    }
}

/// Removing a childless span, and its registry entry, changes no other
/// span's resolution.
proof fn lemma_remove_leaf_preserves_resolve(
    m: Map<u64, SpanNode>,
    reg: Map<u64, TraceCtx>,
    id: u64,
    k: u64,
)
    requires
        nodes_wf(m),
        forall|h: u64| #[trigger] m.contains_key(h) ==> m[h].parent != Some(id),
        k != id,
    ensures
        resolve(m.remove(id), reg.remove(id), k) == resolve(m, reg, k),
    decreases node_depth(m, k),
{
    if m.contains_key(k) {
        if m[k].cached is None && !reg.contains_key(k) {
            match m[k].parent {
                Some(p) => {
                    assert(p != id);
                    lemma_remove_leaf_preserves_resolve(m, reg, id, p);
                },
                None => {},
            }
        }
    }
}

/// What the host framework hands the layer for a new span or an event:
/// metadata, parenting directives, and the initial fields.
#[derive(Debug)]
pub struct Attrs {
    /// The span's or event's metadata.
    pub meta: SpanMeta,
    /// An explicitly set parent span handle.
    pub parent: Option<u64>,
    /// Whether the span or event is explicitly marked a root.
    pub is_root: bool,
    /// The initial fields, in the order the framework reports them.
    pub fields: Vec<(String, Value)>,
}

/// The parent a span or event gets: its explicit parent if set, none if it
/// is marked root, else the currently entered span if there is one.
pub open spec fn spec_parent_of(explicit: Option<u64>, is_root: bool, stack: Seq<u64>) -> Option<
    u64,
> {
    match explicit {
        Some(p) => Some(p),
        None => {
            if is_root {
                None
            } else if stack.len() > 0 {
                Some(stack.last())
            } else {
                None
            }
        },
    }
}

/// The parent id a closing span reports: its remote parent if it is the
/// local root of a cross-process trace, else its promoted in-process parent.
pub open spec fn spec_close_parent(ctx: TraceCtx, parent: Option<u64>, nonce: u64) -> Option<
    SpanId,
> {
    match ctx.parent_span {
        Some(p) => Some(p),
        None => {
            match parent {
                Some(ph) => Some(spec_promote(nonce, ph)),
                None => None,
            }
        },
    }
}

/// The record a span closing at `now` produces: its promoted id, the
/// resolved trace context, its timestamps, and the fields its own visitor
/// accumulated.
pub open spec fn spec_close_record(
    nonce: u64,
    service: Seq<char>,
    id: u64,
    ctx: TraceCtx,
    node: SpanNode,
    meta: MetaRec,
    values: Seq<(Seq<char>, FieldVal)>,
    now: int,
) -> SpanRec {
    SpanRec {
        id: spec_promote(nonce, id),
        trace_id: ctx.trace_id,
        parent_id: spec_close_parent(ctx, node.parent, nonce),
        initialized_at: node.init_ms as int,
        elapsed_ms: now - node.init_ms,
        meta,
        service_name: service,
        values,
    }
}

/// The record an event firing at `now` under parent span `parent`
/// produces: the resolved trace id, the promoted parent, and the event's
/// own fields as observed by a fresh visitor.
pub open spec fn spec_event_record(
    nonce: u64,
    service: Seq<char>,
    parent: u64,
    ctx: TraceCtx,
    meta: MetaRec,
    values: Seq<(Seq<char>, FieldVal)>,
    now: int,
) -> EventRec {
    EventRec {
        trace_id: ctx.trace_id,
        parent_id: Some(spec_promote(nonce, parent)),
        initialized_at: now,
        meta,
        service_name: service,
        values,
    }
}

/// Feed a sequence of named field values into a visitor, which then has
/// observed exactly those fields, in order, after what it already held.
fn record_fields<V: Visit>(visitor: &mut V, fields: &Vec<(String, Value)>)
    ensures
        final(visitor).observed() == old(visitor).observed() + fields_observed(fields@),
{
    let mut i: usize = 0;
    proof {
        assert(visitor.observed() =~= old(visitor).observed() + fields_observed(
            fields@.take(0),
        ));
    }
    while i < fields.len()
        invariant
            0 <= i <= fields@.len(),
            visitor.observed() == old(visitor).observed() + fields_observed(
                fields@.take(i as int),
            ),
        decreases fields@.len() - i,
    {
        let pair = &fields[i];
        visitor.record_field(pair.0.as_str(), &pair.1);
        proof {
            assert(fields@.take(i + 1).drop_last() =~= fields@.take(i as int));
            assert(fields_observed(fields@.take(i + 1)) =~= fields_observed(
                fields@.take(i as int),
            ).push((fields@[i as int].0@, fields@[i as int].1@)));
            assert(visitor.observed() =~= old(visitor).observed() + fields_observed(
                fields@.take(i + 1),
            ));
        }
        i += 1;
    }
    proof {
        assert(fields@.take(fields@.len() as int) =~= fields@);
    }
}

/// The adapter plugged into the host framework's span lifecycle.
///
/// It mirrors the framework's per-span storage (parent links, init
/// timestamps, field visitors, cached contexts, the entered-span stack),
/// carries the trace-context registry, and publishes finished spans and
/// events to the `Telemetry` reporter.
pub struct TelemetryLayer<T: Telemetry> {
    /// The reporter that receives finished spans and events.
    pub telemetry: T,
    service_name: String,
    trace_ctx_registry: TraceCtxRegistry,
    nodes: HashMap<u64, SpanNode>,
    visitors: HashMap<u64, T::Visitor>,
    metas: HashMap<u64, SpanMeta>,
    stack: Vec<u64>,
}

impl<T: Telemetry> TelemetryLayer<T> {
    /// The reporter, as spec code sees it.
    pub closed spec fn reporter(&self) -> T {
        self.telemetry
    }

    /// The span store: parent links, depths, timestamps and cached contexts.
    pub closed spec fn node_map(&self) -> Map<u64, SpanNode> {
        self.nodes@
    }

    /// The per-span field visitors.
    pub closed spec fn visitor_map(&self) -> Map<u64, T::Visitor> {
        self.visitors@
    }

    /// The per-span metadata.
    pub closed spec fn meta_map(&self) -> Map<u64, SpanMeta> {
        self.metas@
    }

    /// The stack of entered spans; the last entry is the current span.
    pub closed spec fn span_stack(&self) -> Seq<u64> {
        self.stack@
    }

    /// The registered trace contexts.
    pub closed spec fn registry_ctxs(&self) -> Map<u64, TraceCtx> {
        self.trace_ctx_registry.ctxs()
    }

    /// The process-instance nonce.
    pub closed spec fn nonce(&self) -> u64 {
        self.trace_ctx_registry.nonce()
    }

    /// The service name every record carries.
    pub closed spec fn service(&self) -> Seq<char> {
        self.service_name@
    }

    /// Well-formedness: the store is well-formed and every span has exactly
    /// one visitor and one metadata entry, and entered spans exist.
    pub open spec fn wf(&self) -> bool {
        &&& nodes_wf(self.node_map())
        &&& self.visitor_map().dom() == self.node_map().dom()
        &&& self.meta_map().dom() == self.node_map().dom()
        &&& forall|i: int|
            0 <= i < self.span_stack().len() ==> self.node_map().contains_key(
                #[trigger] self.span_stack()[i],
            )
    }

    /// The nonce and service name of `self` are those of `other`.
    pub open spec fn same_config(&self, other: &Self) -> bool {
        self.nonce() == other.nonce() && self.service() == other.service()
    }

    /// The reporter of `self` has received exactly what `other`'s has.
    pub open spec fn same_reports(&self, other: &Self) -> bool {
        self.reporter().spans_reported() == other.reporter().spans_reported()
            && self.reporter().events_reported() == other.reporter().events_reported()
    }

    /// The span store, visitors and metadata of `self` are those of `other`.
    pub open spec fn same_store(&self, other: &Self) -> bool {
        self.node_map() == other.node_map() && self.visitor_map() == other.visitor_map()
            && self.meta_map() == other.meta_map()
    }

    /// A fresh layer: the given reporter, no spans, an empty registry.
    pub fn new(service_name: String, telemetry: T, instance_id: u64) -> (r: TelemetryLayer<T>)
        ensures
            r.wf(),
            r.reporter() == telemetry,
            r.service() == service_name@,
            r.nonce() == instance_id,
            r.node_map() == Map::<u64, SpanNode>::empty(),
            r.visitor_map() == Map::<u64, T::Visitor>::empty(),
            r.meta_map() == Map::<u64, SpanMeta>::empty(),
            r.registry_ctxs() == Map::<u64, TraceCtx>::empty(),
            r.span_stack() == Seq::<u64>::empty(),
    {
        TelemetryLayer {
            telemetry,
            service_name,
            trace_ctx_registry: TraceCtxRegistry::new(instance_id),
            nodes: HashMap::new(),
            visitors: HashMap::new(),
            metas: HashMap::new(),
            stack: Vec::new(),
        }
    }

    /// Promote a host-framework handle to an externalisable span id.
    pub fn promote_span_id(&self, id: u64) -> (r: SpanId)
        ensures
            r == spec_promote(self.nonce(), id),
    {
        self.trace_ctx_registry.promote_span_id(id)
    }

    /// Whether a trace context is registered for span handle `id`.
    pub fn has_registered_ctx(&self, id: u64) -> (r: bool)
        ensures
            r == self.registry_ctxs().contains_key(id),
    {
        self.trace_ctx_registry.has_ctx(id)
    }

    /// Whether the store currently holds span `id`.
    pub fn has_span(&self, id: u64) -> (r: bool)
        ensures
            r == self.node_map().contains_key(id),
    {
        self.nodes.contains_key(&id)
    }

    /// The stored depth of span `id`, if it is open.
    pub fn depth_of(&self, id: u64) -> (r: Option<u64>)
        ensures
            r == (if self.node_map().contains_key(id) {
                Some(self.node_map()[id].depth)
            } else {
                Option::<u64>::None
            }),
    {
        match self.nodes.get(&id) {
            Some(n) => Some(n.depth),
            None => None,
        }
    }

    /// Whether span `id` is currently on the entered-span stack.
    pub fn stack_contains(&self, id: u64) -> (r: bool)
        ensures
            r == self.span_stack().contains(id),
    {
        let n: usize = self.stack.len();
        let mut i: usize = 0;
        while i < n
            invariant
                0 <= i <= n,
                n == self.span_stack().len(),
                forall|j: int| 0 <= j < i ==> self.span_stack()[j] != id,
            decreases n - i,
        {
            if self.stack[i] == id {
                return true;
            }
            i += 1;
        }
        false
    }

    /// Whether any open span has `id` as its in-process parent.
    pub fn has_open_child(&self, id: u64) -> (r: bool)
        ensures
            r == (exists|h: u64|
                #[trigger] self.node_map().contains_key(h) && self.node_map()[h].parent == Some(
                    id,
                )),
    {
        for pair in it: self.nodes.iter()
            invariant
                forall|j: int| 0 <= j < it.index() ==> (#[trigger] it.seq()[j]).1.parent != Some(id),
        {
            if let Some(p) = pair.1.parent {
                if p == id {
                    proof {
                        let v = vstd::std_specs::hash::spec_hash_map_iter(&self.nodes).remaining();
                        assert(it.seq() == v);
                        let pr = v[it.index() as int];
                        assert(pair == pr);
                        assert(self.node_map().contains_key(*pr.0) && self.node_map()[*pr.0]
                            == *pr.1);
                    }
                    return true;
                }
            }
        }
        false
    }

    /// The currently entered span, if any.
    pub fn current_span(&self) -> (r: Option<u64>)
        ensures
            r == (if self.span_stack().len() > 0 {
                Some(self.span_stack().last())
            } else {
                Option::<u64>::None
            }),
    {
        if self.stack.len() > 0 {
            Some(self.stack[self.stack.len() - 1])
        } else {
            None
        }
    }

    /// Note that the framework entered span `id`.
    pub fn enter(&mut self, id: u64)
        requires
            old(self).wf(),
            old(self).node_map().contains_key(id),
        ensures
            final(self).wf(),
            final(self).span_stack() == old(self).span_stack().push(id),
            final(self).same_store(old(self)),
            final(self).registry_ctxs() == old(self).registry_ctxs(),
            final(self).same_config(old(self)),
            final(self).same_reports(old(self)),
            final(self).reporter() == old(self).reporter(),
    {
        self.stack.push(id);
        proof {
            assert forall|i: int| 0 <= i < self.span_stack().len() implies self.node_map().contains_key(
                #[trigger] self.span_stack()[i],
            ) by {
                if i < old(self).span_stack().len() {
                    assert(self.span_stack()[i] == old(self).span_stack()[i]);
                } else {
                    assert(self.span_stack()[i] == id);
                }
            }
        }
    }

    /// Note that the framework exited the current span.
    pub fn exit(&mut self)
        requires
            old(self).wf(),
        ensures
            final(self).wf(),
            old(self).span_stack().len() > 0 ==> final(self).span_stack() == old(self).span_stack().drop_last(),
            old(self).span_stack().len() == 0 ==> final(self).span_stack() == old(self).span_stack(),
            final(self).same_store(old(self)),
            final(self).registry_ctxs() == old(self).registry_ctxs(),
            final(self).same_config(old(self)),
            final(self).same_reports(old(self)),
            final(self).reporter() == old(self).reporter(),
    {
        if self.stack.len() > 0 {
            self.stack.pop();
        }
    }

    /// Open a new span: determine its parent, attach a fresh visitor fed
    /// with the initial fields, and record its init timestamp and metadata.
    pub fn new_span(&mut self, attrs: &Attrs, id: u64, now_ms: i64)
        requires
            old(self).wf(),
            id != 0,
            !old(self).node_map().contains_key(id),
            match attrs.parent {
                Some(p) => old(self).node_map().contains_key(p),
                None => true,
            },
            match spec_parent_of(attrs.parent, attrs.is_root, old(self).span_stack()) {
                Some(p) => old(self).node_map()[p].depth < u64::MAX,
                None => true,
            },
            now_ms >= 0,
        ensures
            final(self).wf(),
            final(self).node_map() == old(self).node_map().insert(
                id,
                SpanNode {
                    parent: spec_parent_of(attrs.parent, attrs.is_root, old(self).span_stack()),
                    depth: match spec_parent_of(
                        attrs.parent,
                        attrs.is_root,
                        old(self).span_stack(),
                    ) {
                        Some(p) => (old(self).node_map()[p].depth + 1) as u64,
                        None => 0,
                    },
                    init_ms: now_ms,
                    cached: None,
                },
            ),
            final(self).visitor_map().dom() == old(self).visitor_map().dom().insert(id),
            final(self).visitor_map()[id].observed() == fields_observed(attrs.fields@),
            forall|k: u64|
                k != id && old(self).visitor_map().contains_key(k) ==> final(self).visitor_map()[k] == (#[trigger] old(self).visitor_map()[k]),
            final(self).meta_map().dom() == old(self).meta_map().dom().insert(id),
            final(self).meta_map()[id]@ == attrs.meta@,
            forall|k: u64|
                k != id && old(self).meta_map().contains_key(k) ==> final(self).meta_map()[k]
                    == (#[trigger] old(self).meta_map()[k]),
            final(self).span_stack() == old(self).span_stack(),
            final(self).registry_ctxs() == old(self).registry_ctxs(),
            final(self).same_config(old(self)),
            final(self).same_reports(old(self)),
            final(self).reporter() == old(self).reporter(),
    {
        let parent: Option<u64> = match attrs.parent {
            Some(p) => Some(p),
            None => {
                if attrs.is_root {
                    None
                } else {
                    self.current_span()
                }
            },
        };
        let depth: u64 = match parent {
            Some(p) => {
                match self.nodes.get(&p) {
                    Some(n) => n.depth + 1,
                    None => {
                        proof {
                            assert(false);
                        }
                        0
                    },
                }
            },
            None => 0,
        };
        self.nodes.insert(id, SpanNode { parent, depth, init_ms: now_ms, cached: None });
        let mut visitor = self.telemetry.mk_visitor();
        record_fields(&mut visitor, &attrs.fields);
        self.visitors.insert(id, visitor);
        self.metas.insert(id, attrs.meta.duplicate());
        proof {
            assert(self.visitor_map().dom() =~= old(self).visitor_map().dom().insert(id));
            assert(self.meta_map().dom() =~= old(self).meta_map().dom().insert(id));
        }
    }

    /// Record further fields on an open span's own visitor.
    ///
    /// No other span's visitor is touched.
    pub fn on_record(&mut self, id: u64, values: &Vec<(String, Value)>)
        requires
            old(self).wf(),
            old(self).node_map().contains_key(id),
        ensures
            final(self).wf(),
            final(self).node_map() == old(self).node_map(),
            final(self).visitor_map().dom() == old(self).visitor_map().dom(),
            final(self).visitor_map()[id].observed() == old(self).visitor_map()[id].observed()
                + fields_observed(values@),
            forall|k: u64|
                k != id && old(self).visitor_map().contains_key(k) ==> final(self).visitor_map()[k] == (#[trigger] old(self).visitor_map()[k]),
            final(self).meta_map() == old(self).meta_map(),
            final(self).span_stack() == old(self).span_stack(),
            final(self).registry_ctxs() == old(self).registry_ctxs(),
            final(self).same_config(old(self)),
            final(self).same_reports(old(self)),
            final(self).reporter() == old(self).reporter(),
    {
        let mut visitor = match self.visitors.remove(&id) {
            Some(v) => v,
            None => {
                proof {
                    assert(false);
                }
                return ;
            },
        };
        record_fields(&mut visitor, values);
        self.visitors.insert(id, visitor);
        proof {
            assert(self.visitor_map().dom() =~= old(self).visitor_map().dom());
            assert forall|i: int| 0 <= i < self.span_stack().len() implies self.node_map().contains_key(
                #[trigger] self.span_stack()[i],
            ) by {
                assert(self.span_stack()[i] == old(self).span_stack()[i]);
            }
        }
    }

    /// Handle an event: find its parent span, resolve that span's trace
    /// context, and if one exists, report exactly one event record carrying
    /// the trace id and the promoted parent span id.
    ///
    /// Events outside any trace are dropped without a report.
    pub fn on_event(&mut self, event: &Attrs, now_ms: i64)
        requires
            old(self).wf(),
            match event.parent {
                Some(p) => old(self).node_map().contains_key(p),
                None => true,
            },
            now_ms >= 0,
        ensures
            final(self).wf(),
            final(self).node_map().dom() == old(self).node_map().dom(),
            forall|k: u64|
                old(self).node_map().contains_key(k) ==> {
                    &&& (#[trigger] final(self).node_map()[k]).parent
                        == old(self).node_map()[k].parent
                    &&& final(self).node_map()[k].depth == old(self).node_map()[k].depth
                    &&& final(self).node_map()[k].init_ms == old(self).node_map()[k].init_ms
                },
            forall|k: u64|
                #[trigger] resolve(final(self).node_map(), final(self).registry_ctxs(), k)
                    == resolve(old(self).node_map(), old(self).registry_ctxs(), k),
            final(self).visitor_map() == old(self).visitor_map(),
            final(self).meta_map() == old(self).meta_map(),
            final(self).span_stack() == old(self).span_stack(),
            final(self).registry_ctxs() == old(self).registry_ctxs(),
            final(self).same_config(old(self)),
            final(self).reporter().spans_reported() == old(self).reporter().spans_reported(),
            match spec_parent_of(event.parent, event.is_root, old(self).span_stack()) {
                Some(p) => match resolve(old(self).node_map(), old(self).registry_ctxs(), p) {
                    Some(ctx) => final(self).reporter().events_reported() == old(
                        self,
                    ).reporter().events_reported().push(
                        spec_event_record(
                            old(self).nonce(),
                            old(self).service(),
                            p,
                            ctx,
                            event.meta@,
                            fields_observed(event.fields@),
                            now_ms as int,
                        ),
                    ),
                    None => final(self).reporter().events_reported() == old(
                        self,
                    ).reporter().events_reported(),
                },
                None => final(self).reporter().events_reported() == old(
                    self,
                ).reporter().events_reported(),
            },
    {
        let parent_id: Option<u64> = match event.parent {
            Some(p) => Some(p),
            None => {
                if event.is_root {
                    None
                } else {
                    self.current_span()
                }
            },
        };
        match parent_id {
            None => {},
            Some(p) => {
                match self.trace_ctx_registry.eval_ctx(&mut self.nodes, p) {
                    None => {},
                    Some(ctx) => {
                        let mut visitor = self.telemetry.mk_visitor();
                        record_fields(&mut visitor, &event.fields);
                        let record = Event {
                            trace_id: ctx.trace_id,
                            parent_id: Some(self.trace_ctx_registry.promote_span_id(p)),
                            initialized_at: now_ms,
                            meta: event.meta.duplicate(),
                            service_name: self.service_name.clone(),
                            values: visitor,
                        };
                        self.telemetry.report_event(record);
                    },
                }
            },
        }
        proof {
            assert forall|i: int| 0 <= i < self.span_stack().len() implies self.node_map().contains_key(
                #[trigger] self.span_stack()[i],
            ) by {
                assert(self.span_stack()[i] == old(self).span_stack()[i]);
            }
        }
    }

    /// Close a span: resolve its trace context, and if one exists, report
    /// exactly one span record; drop its store entries either way, along
    /// with any context registered on it.
    ///
    /// The parent id reported is the context's remote parent when this span
    /// is the local root, else the promoted in-process parent, else none.
    pub fn on_close(&mut self, id: u64, now_ms: i64)
        requires
            old(self).wf(),
            old(self).node_map().contains_key(id),
            forall|k: u64|
                old(self).node_map().contains_key(k) ==> (#[trigger] old(self).node_map()[k]).parent
                    != Some(id),
            !old(self).span_stack().contains(id),
            now_ms >= 0,
        ensures
            final(self).wf(),
            final(self).node_map().dom() == old(self).node_map().dom().remove(id),
            forall|k: u64|
                k != id && old(self).node_map().contains_key(k) ==> {
                    &&& (#[trigger] final(self).node_map()[k]).parent
                        == old(self).node_map()[k].parent
                    &&& final(self).node_map()[k].depth == old(self).node_map()[k].depth
                    &&& final(self).node_map()[k].init_ms == old(self).node_map()[k].init_ms
                },
            forall|k: u64|
                k != id ==> #[trigger] resolve(final(self).node_map(), final(self).registry_ctxs(), k)
                    == resolve(old(self).node_map(), old(self).registry_ctxs(), k),
            final(self).visitor_map().dom() == old(self).visitor_map().dom().remove(id),
            forall|k: u64|
                k != id && old(self).visitor_map().contains_key(k) ==> final(self).visitor_map()[k]
                    == (#[trigger] old(self).visitor_map()[k]),
            final(self).meta_map().dom() == old(self).meta_map().dom().remove(id),
            forall|k: u64|
                k != id && old(self).meta_map().contains_key(k) ==> final(self).meta_map()[k]
                    == (#[trigger] old(self).meta_map()[k]),
            final(self).registry_ctxs() == old(self).registry_ctxs().remove(id),
            final(self).span_stack() == old(self).span_stack(),
            final(self).same_config(old(self)),
            final(self).reporter().events_reported() == old(self).reporter().events_reported(),
            match resolve(old(self).node_map(), old(self).registry_ctxs(), id) {
                Some(ctx) => final(self).reporter().spans_reported() == old(
                    self,
                ).reporter().spans_reported().push(
                    spec_close_record(
                        old(self).nonce(),
                        old(self).service(),
                        id,
                        ctx,
                        old(self).node_map()[id],
                        old(self).meta_map()[id]@,
                        old(self).visitor_map()[id].observed(),
                        now_ms as int,
                    ),
                ),
                None => final(self).reporter().spans_reported() == old(
                    self,
                ).reporter().spans_reported(),
            },
    {
        let ghost m0 = old(self).node_map();
        let ghost reg0 = old(self).registry_ctxs();
        let r = self.trace_ctx_registry.eval_ctx(&mut self.nodes, id);
        let ghost m1 = self.nodes@;
        let node = match self.nodes.get(&id) {
            Some(n) => *n,
            None => {
                proof {
                    assert(false);
                }
                return ;
            },
        };
        let visitor = match self.visitors.remove(&id) {
            Some(v) => v,
            None => {
                proof {
                    assert(false);
                }
                return ;
            },
        };
        let meta = match self.metas.remove(&id) {
            Some(m) => m,
            None => {
                proof {
                    assert(false);
                }
                return ;
            },
        };
        self.nodes.remove(&id);
        self.trace_ctx_registry.remove_ctx(id);
        proof {
            assert(self.node_map() =~= m1.remove(id));
            assert(self.node_map().dom() =~= m0.dom().remove(id));
            assert(self.visitor_map().dom() =~= old(self).visitor_map().dom().remove(id));
            assert(self.meta_map().dom() =~= old(self).meta_map().dom().remove(id));
            assert(self.registry_ctxs() =~= reg0.remove(id));
            assert forall|h: u64| #[trigger] m1.contains_key(h) implies m1[h].parent != Some(id) by {
                assert(m0.contains_key(h));
                assert(m1[h].parent == m0[h].parent);
            }
            assert forall|k: u64|
                k != id implies #[trigger] resolve(self.node_map(), self.registry_ctxs(), k)
                == resolve(m0, reg0, k) by {
                lemma_remove_leaf_preserves_resolve(m1, reg0, id, k);
            }
            assert forall|i: int| 0 <= i < self.span_stack().len() implies self.node_map().contains_key(
                #[trigger] self.span_stack()[i],
            ) by {
                assert(self.span_stack()[i] == old(self).span_stack()[i]);
                if self.span_stack()[i] == id {
                    assert(old(self).span_stack().contains(id));
                }
            }
        }
        match r {
            None => {},
            Some(ctx) => {
                let elapsed: i64 = now_ms - node.init_ms;
                let parent_id = match ctx.parent_span {
                    Some(p) => Some(p),
                    None => {
                        match node.parent {
                            Some(ph) => Some(self.trace_ctx_registry.promote_span_id(ph)),
                            None => None,
                        }
                    },
                };
                let record = Span {
                    id: self.trace_ctx_registry.promote_span_id(id),
                    trace_id: ctx.trace_id,
                    parent_id,
                    initialized_at: node.init_ms,
                    elapsed_ms: elapsed,
                    meta,
                    service_name: self.service_name.clone(),
                    values: visitor,
                };
                self.telemetry.report_span(record);
            },
        }
    }

    /// Register the current span as the local root of a distributed trace.
    ///
    /// The first registration on a span wins; with no current span the
    /// registry is untouched and an error is returned.
    pub fn register_dist_tracing_root(
        &mut self,
        trace_id: TraceId,
        remote_parent_span: Option<SpanId>,
    ) -> (r: Result<(), TraceCtxError>)
        requires
            old(self).wf(),
        ensures
            final(self).wf(),
            final(self).same_store(old(self)),
            final(self).span_stack() == old(self).span_stack(),
            final(self).same_config(old(self)),
            final(self).same_reports(old(self)),
            final(self).reporter() == old(self).reporter(),
            old(self).span_stack().len() == 0 ==> r == Err::<(), TraceCtxError>(
                TraceCtxError::NoEnabledSpan,
            ) && final(self).registry_ctxs() == old(self).registry_ctxs(),
            old(self).span_stack().len() > 0 ==> {
                let cur = old(self).span_stack().last();
                &&& r == Ok::<(), TraceCtxError>(())
                &&& !old(self).registry_ctxs().contains_key(cur) ==> final(self).registry_ctxs()
                    == old(self).registry_ctxs().insert(
                    cur,
                    TraceCtx { trace_id, parent_span: remote_parent_span },
                )
                &&& old(self).registry_ctxs().contains_key(cur) ==> final(self).registry_ctxs()
                    == old(self).registry_ctxs()
            },
    {
        match self.current_span() {
            None => Err(TraceCtxError::NoEnabledSpan),
            Some(cur) => {
                let _ = self.trace_ctx_registry.record_trace_ctx(
                    trace_id,
                    remote_parent_span,
                    cur,
                );
                Ok(())
            },
        }
    }

    /// The distributed trace context of the current span: the trace id it
    /// resolves to, paired with its own promoted span id.
    pub fn current_dist_trace_ctx(&mut self) -> (r: Result<(TraceId, SpanId), TraceCtxError>)
        requires
            old(self).wf(),
        ensures
            final(self).wf(),
            final(self).node_map().dom() == old(self).node_map().dom(),
            forall|k: u64|
                old(self).node_map().contains_key(k) ==> {
                    &&& (#[trigger] final(self).node_map()[k]).parent
                        == old(self).node_map()[k].parent
                    &&& final(self).node_map()[k].depth == old(self).node_map()[k].depth
                    &&& final(self).node_map()[k].init_ms == old(self).node_map()[k].init_ms
                },
            forall|k: u64|
                #[trigger] resolve(final(self).node_map(), final(self).registry_ctxs(), k)
                    == resolve(old(self).node_map(), old(self).registry_ctxs(), k),
            final(self).visitor_map() == old(self).visitor_map(),
            final(self).meta_map() == old(self).meta_map(),
            final(self).span_stack() == old(self).span_stack(),
            final(self).registry_ctxs() == old(self).registry_ctxs(),
            final(self).same_config(old(self)),
            final(self).same_reports(old(self)),
            final(self).reporter() == old(self).reporter(),
            old(self).span_stack().len() == 0 ==> r == Err::<(TraceId, SpanId), TraceCtxError>(
                TraceCtxError::NoEnabledSpan,
            ),
            old(self).span_stack().len() > 0 ==> {
                let cur = old(self).span_stack().last();
                match resolve(old(self).node_map(), old(self).registry_ctxs(), cur) {
                    Some(ctx) => r == Ok::<(TraceId, SpanId), TraceCtxError>(
                        (ctx.trace_id, spec_promote(old(self).nonce(), cur)),
                    ),
                    None => r == Err::<(TraceId, SpanId), TraceCtxError>(
                        TraceCtxError::NoParentNodeHasTraceCtx,
                    ),
                }
            },
    {
        match self.current_span() {
            None => Err(TraceCtxError::NoEnabledSpan),
            Some(cur) => {
                let res = self.trace_ctx_registry.eval_ctx(&mut self.nodes, cur);
                proof {
                    assert forall|i: int| 0 <= i < self.span_stack().len() implies self.node_map().contains_key(
                        #[trigger] self.span_stack()[i],
                    ) by {
                        assert(self.span_stack()[i] == old(self).span_stack()[i]);
                    }
                }
                match res {
                    Some(ctx) => Ok((ctx.trace_id, self.trace_ctx_registry.promote_span_id(cur))),
                    None => Err(TraceCtxError::NoParentNodeHasTraceCtx),
                }
            },
        }
    }
}

/// `c` is the ancestor chain from `d` up to `a`: it starts at `d`, ends at
/// `a`, and each entry's parent is the next entry.
pub open spec fn is_chain_to(m: Map<u64, SpanNode>, c: Seq<u64>, d: u64, a: u64) -> bool {
    &&& c.len() >= 1
    &&& c[0] == d
    &&& c.last() == a
    &&& forall|i: int| 0 <= i < c.len() ==> m.contains_key(#[trigger] c[i])
    &&& forall|i: int| 0 <= i < c.len() - 1 ==> m[#[trigger] c[i]].parent == Some(c[i + 1])
}

/// When an ancestor `a` of `d` has been registered with a context, and no
/// span between `d` and `a` carries a cached or registered context, then
/// `a` resolves to exactly the registered context, and every strict
/// descendant resolves to its trace id with the remote-parent marker
/// cleared.
pub proof fn lemma_resolve_registered_ancestor(
    m: Map<u64, SpanNode>,
    reg: Map<u64, TraceCtx>,
    c: Seq<u64>,
    d: u64,
    a: u64,
)
    requires
        nodes_wf(m),
        is_chain_to(m, c, d, a),
        reg.contains_key(a),
        m[a].cached is None,
        forall|i: int|
            0 <= i < c.len() - 1 ==> (m[#[trigger] c[i]].cached is None && !reg.contains_key(
                c[i],
            )),
    ensures
        resolve(m, reg, a) == Some(reg[a]),
        d != a ==> resolve(m, reg, d) == Some(
            TraceCtx { trace_id: reg[a].trace_id, parent_span: None },
        ),
    decreases c.len(),
{
    if c.len() > 1 {
        let c2 = c.subrange(1, c.len() as int);
        let p = c[1];
        assert(is_chain_to(m, c2, p, a)) by {
            assert(c2[0] == c[1]);
            assert(c2.last() == c.last());
            assert forall|i: int| 0 <= i < c2.len() implies m.contains_key(#[trigger] c2[i]) by {
                assert(c2[i] == c[i + 1]);
            }
            assert forall|i: int| 0 <= i < c2.len() - 1 implies m[#[trigger] c2[i]].parent == Some(
                c2[i + 1],
            ) by {
                assert(c2[i] == c[i + 1]);
                assert(c2[i + 1] == c[i + 2]);
            }
        }
        assert forall|i: int|
            0 <= i < c2.len() - 1 implies (m[#[trigger] c2[i]].cached is None
            && !reg.contains_key(c2[i])) by {
            assert(c2[i] == c[i + 1]);
        }
        lemma_resolve_registered_ancestor(m, reg, c2, p, a);
        assert(m[d].parent == Some(p));
        assert(m[d].cached is None && !reg.contains_key(d)) by {
            assert(m[c[0]].cached is None && !reg.contains_key(c[0]));
        }
    }
}

/// When neither a span nor any of its ancestors carries a cached or
/// registered context, it resolves to nothing.
pub proof fn lemma_resolve_unregistered(
    m: Map<u64, SpanNode>,
    reg: Map<u64, TraceCtx>,
    c: Seq<u64>,
    d: u64,
    root: u64,
)
    requires
        nodes_wf(m),
        is_chain_to(m, c, d, root),
        m[root].parent is None,
        forall|i: int|
            0 <= i < c.len() ==> (m[#[trigger] c[i]].cached is None && !reg.contains_key(c[i])),
    ensures
        resolve(m, reg, d) == None::<TraceCtx>,
    decreases c.len(),
{
    assert(m[c[0]].cached is None && !reg.contains_key(c[0]));
    if c.len() > 1 {
        let c2 = c.subrange(1, c.len() as int);
        let p = c[1];
        assert(is_chain_to(m, c2, p, root)) by {
            assert(c2[0] == c[1]);
            assert(c2.last() == c.last());
            assert forall|i: int| 0 <= i < c2.len() implies m.contains_key(#[trigger] c2[i]) by {
                assert(c2[i] == c[i + 1]);
            }
            assert forall|i: int| 0 <= i < c2.len() - 1 implies m[#[trigger] c2[i]].parent == Some(
                c2[i + 1],
            ) by {
                assert(c2[i] == c[i + 1]);
                assert(c2[i + 1] == c[i + 2]);
            }
        }
        assert forall|i: int|
            0 <= i < c2.len() implies (m[#[trigger] c2[i]].cached is None && !reg.contains_key(
            c2[i],
        )) by {
            assert(c2[i] == c[i + 1]);
        }
        lemma_resolve_unregistered(m, reg, c2, p, root);
        assert(m[d].parent == Some(p));
    }
}

/// A registered local root without a remote parent and without an
/// in-process parent closes with no parent id.
pub proof fn lemma_root_without_remote_parent_closes_unparented(
    m: Map<u64, SpanNode>,
    reg: Map<u64, TraceCtx>,
    id: u64,
    nonce: u64,
    service: Seq<char>,
    meta: MetaRec,
    values: Seq<(Seq<char>, FieldVal)>,
    now: int,
)
    requires
        nodes_wf(m),
        m.contains_key(id),
        m[id].cached is None,
        reg.contains_key(id),
        reg[id].parent_span is None,
        m[id].parent is None,
    ensures
        resolve(m, reg, id) == Some(reg[id]),
        spec_close_record(nonce, service, id, reg[id], m[id], meta, values, now).parent_id is None,
        spec_close_record(nonce, service, id, reg[id], m[id], meta, values, now).trace_id
            == reg[id].trace_id,
{
}

/// A registered local root with a remote parent closes with exactly that
/// parent id, irrespective of any in-process parent.
pub proof fn lemma_root_with_remote_parent_closes_to_it(
    m: Map<u64, SpanNode>,
    reg: Map<u64, TraceCtx>,
    id: u64,
    p: SpanId,
    nonce: u64,
    service: Seq<char>,
    meta: MetaRec,
    values: Seq<(Seq<char>, FieldVal)>,
    now: int,
)
    requires
        nodes_wf(m),
        m.contains_key(id),
        m[id].cached is None,
        reg.contains_key(id),
        reg[id].parent_span == Some(p),
    ensures
        resolve(m, reg, id) == Some(reg[id]),
        spec_close_record(nonce, service, id, reg[id], m[id], meta, values, now).parent_id == Some(p),
{
}

/// A descendant of a registered root closes with the promotion of its
/// immediate in-process parent as its parent id, and the root's trace id.
pub proof fn lemma_descendant_closes_to_promoted_parent(
    m: Map<u64, SpanNode>,
    reg: Map<u64, TraceCtx>,
    c: Seq<u64>,
    d: u64,
    a: u64,
    nonce: u64,
    service: Seq<char>,
    meta: MetaRec,
    values: Seq<(Seq<char>, FieldVal)>,
    now: int,
)
    requires
        nodes_wf(m),
        is_chain_to(m, c, d, a),
        d != a,
        reg.contains_key(a),
        m[a].cached is None,
        forall|i: int|
            0 <= i < c.len() - 1 ==> (m[#[trigger] c[i]].cached is None && !reg.contains_key(
                c[i],
            )),
    ensures
        resolve(m, reg, d) == Some(TraceCtx { trace_id: reg[a].trace_id, parent_span: None }),
        ({
            let ctx = resolve(m, reg, d).unwrap();
            let rec = spec_close_record(nonce, service, d, ctx, m[d], meta, values, now);
            &&& rec.parent_id == Some(spec_promote(nonce, c[1]))
            &&& rec.trace_id == reg[a].trace_id
        }),
{
    lemma_resolve_registered_ancestor(m, reg, c, d, a);
    assert(c.len() > 1) by {
        if c.len() == 1 {
            assert(c[0] == c.last());
        }
    }
    assert(m[d].parent == Some(c[1])) by {
        assert(m[c[0]].parent == Some(c[1]));
    }
}

/// A layer that reports to no backend, promoting handles with a zero nonce.
pub fn new_blackhole_telemetry_layer() -> (r: TelemetryLayer<BlackholeTelemetry>)
    ensures
        r.wf(),
        r.node_map() == Map::<u64, SpanNode>::empty(),
        r.registry_ctxs() == Map::<u64, TraceCtx>::empty(),
        r.span_stack() == Seq::<u64>::empty(),
        r.nonce() == 0,
        r.reporter().spans_reported() == Seq::<SpanRec>::empty(),
        r.reporter().events_reported() == Seq::<EventRec>::empty(),
{
    TelemetryLayer::new(
        "honeycomb_blackhole_tracing_layer".to_owned(),
        BlackholeTelemetry::new(),
        0,
    )
}

} // verus!
