//! Field accumulation: typed field values, an ordered field map, and the
//! reporter-specific visitors that collect fields for publication.

use crate::clock::{format_rfc3339_millis, rfc3339_of, MAX_TIMESTAMP_MS};
use crate::span_id::{spec_span_id_str, SpanId};
use crate::trace::{Event, EventRec, Level, Span, SpanRec};
use crate::trace_id::spec_trace_id_str;
use vstd::prelude::*;
use vstd::string::StrSliceExecFns;
use vstd::string::StringExecFns;

verus! {

/// A typed field value, as a reporter serialises it.
#[derive(Debug, Clone, PartialEq, Eq)]
pub enum Value {
    /// An absent value.
    Null,
    /// A signed integer.
    I64(i64),
    /// An unsigned integer.
    U64(u64),
    /// A boolean.
    Bool(bool),
    /// A string, or an opaque value collapsed to its printable form.
    Str(String),
}

/// Mathematical view of a field value.
pub enum FieldVal {
    /// An absent value.
    Null,
    /// A signed integer.
    I64(i64),
    /// An unsigned integer.
    U64(u64),
    /// A boolean.
    Bool(bool),
    /// A string.
    Str(Seq<char>),
}

impl View for Value {
    type V = FieldVal;

    open spec fn view(&self) -> FieldVal {
        match self {
            Value::Null => FieldVal::Null,
            Value::I64(i) => FieldVal::I64(*i),
            Value::U64(u) => FieldVal::U64(*u),
            Value::Bool(b) => FieldVal::Bool(*b),
            Value::Str(s) => FieldVal::Str(s@),
        }
    }
}

/// The map that a sequence of named entries denotes: later entries win.
pub open spec fn map_of(entries: Seq<(String, Value)>) -> Map<Seq<char>, FieldVal>
    decreases entries.len(),
{
    if entries.len() == 0 {
        Map::empty()
    } else {
        map_of(entries.drop_last()).insert(entries.last().0@, entries.last().1@)
    }
}

/// A bag of named field values, viewed as a map from names to values.
#[derive(Debug)]
pub struct FieldMap {
    entries: Vec<(String, Value)>,
}

impl View for FieldMap {
    type V = Map<Seq<char>, FieldVal>;

    closed spec fn view(&self) -> Map<Seq<char>, FieldVal> {
        map_of(self.entries@)
    }
}

/// A name missing from every entry is missing from the denoted map.
proof fn lemma_map_of_miss(entries: Seq<(String, Value)>, k: Seq<char>)
    requires
        forall|j: int| 0 <= j < entries.len() ==> (#[trigger] entries[j]).0@ != k,
    ensures
        !map_of(entries).contains_key(k),
    decreases entries.len(),
{
    if entries.len() > 0 {
        assert forall|j: int| 0 <= j < entries.drop_last().len() implies (#[trigger] entries.drop_last()[j]).0@
            != k by {
            assert(entries.drop_last()[j] == entries[j]);
        }
        lemma_map_of_miss(entries.drop_last(), k);
    }
}

/// The denoted map holds, for a name, the value of its last entry.
proof fn lemma_map_of_hit(entries: Seq<(String, Value)>, i: int, k: Seq<char>)
    requires
        0 <= i < entries.len(),
        entries[i].0@ == k,
        forall|j: int| i < j < entries.len() ==> (#[trigger] entries[j]).0@ != k,
    ensures
        map_of(entries).contains_key(k),
        map_of(entries)[k] == entries[i].1@,
    decreases entries.len(),
{
    if i == entries.len() - 1 {
    } else {
        assert forall|j: int| i < j < entries.drop_last().len() implies (#[trigger] entries.drop_last()[j]).0@
            != k by {
            assert(entries.drop_last()[j] == entries[j]);
        }
        assert(entries.drop_last()[i] == entries[i]);
        lemma_map_of_hit(entries.drop_last(), i, k);
        assert(entries.last().0@ != k);
    }
}

impl FieldMap {
    /// An empty field map.
    pub fn new() -> (r: FieldMap)
        ensures
            r@ == Map::<Seq<char>, FieldVal>::empty(),
    {
        FieldMap { entries: Vec::new() }
    }

    /// Record `v` under the name `k`, replacing any earlier value.
    pub fn insert(&mut self, k: String, v: Value)
        ensures
            final(self)@ == old(self)@.insert(k@, v@),
    {
        let ghost before = self.entries@;
        self.entries.push((k, v));
        proof {
            assert(self.entries@.drop_last() =~= before);
        }
    }

    /// The entries in insertion order; a later entry shadows an earlier one
    /// of the same name.
    pub fn entries(&self) -> (r: &Vec<(String, Value)>)
        ensures
            map_of(r@) == self@,
    {
        &self.entries
    }

    /// Look up the value recorded under the name `k`.
    pub fn get(&self, k: &str) -> (r: Option<&Value>)
        ensures
            match r {
                Some(v) => self@.contains_key(k@) && v@ == self@[k@],
                None => !self@.contains_key(k@),
            },
    {
        let n: usize = self.entries.len();
        let mut i: usize = n;
        while i > 0
            invariant
                0 <= i <= n,
                n == self.entries@.len(),
                forall|j: int| i <= j < n ==> (#[trigger] self.entries@[j]).0@ != k@,
            decreases i,
        {
            i -= 1;
            let pair = &self.entries[i];
            if str_eq(pair.0.as_str(), k) {
                proof {
                    lemma_map_of_hit(self.entries@, i as int, k@);
                }
                return Some(&pair.1);
            }
        }
        proof {
            lemma_map_of_miss(self.entries@, k@);
        }
        None
    }
}

/// Compare two string slices character by character.
pub fn str_eq(a: &str, b: &str) -> (r: bool)
    ensures
        r == (a@ == b@),
{
    let na: usize = a.unicode_len();
    let nb: usize = b.unicode_len();
    if na != nb {
        return false;
    }
    let mut i: usize = 0;
    while i < na
        invariant
            0 <= i <= na,
            na == a@.len(),
            na == b@.len(),
            forall|j: int| 0 <= j < i ==> a@[j] == b@[j],
        decreases na - i,
    {
        if a.get_char(i) != b.get_char(i) {
            return false;
        }
        i += 1;
    }
    proof {
        assert(a@ =~= b@);
    }
    true
}

/// A visitor accepts the typed fields that the host framework reports for
/// one span or event.
///
/// What a visitor does with a field is its own affair, but every visitor
/// carries a mathematical record of the observations fed to it, so that
/// contracts can say which fields reached which visitor.
pub trait Visit: Sized {
    /// The fields this visitor has observed, in order.
    spec fn observed(&self) -> Seq<(Seq<char>, FieldVal)>;

    /// A fresh visitor with nothing observed.
    fn empty() -> (r: Self)
        ensures
            r.observed() == Seq::<(Seq<char>, FieldVal)>::empty(),
    ;

    /// Record one field observed by the host framework.
    fn record_field(&mut self, name: &str, value: &Value)
        ensures
            final(self).observed() == old(self).observed().push((name@, value@)),
    ;
}

/// The observations that feeding a list of named values produces.
pub open spec fn fields_observed(fields: Seq<(String, Value)>) -> Seq<(Seq<char>, FieldVal)> {
    fields.map_values(|p: (String, Value)| (p.0@, p.1@))
}

/// Field names that the reporter reserves for its own record fields.
pub open spec fn is_reserved(s: Seq<char>) -> bool {
    ||| s == "trace.span_id"@
    ||| s == "trace.trace_id"@
    ||| s == "trace.parent_id"@
    ||| s == "service_name"@
    ||| s == "level"@
    ||| s == "Timestamp"@
    ||| s == "name"@
    ||| s == "target"@
    ||| s == "duration_ms"@
}

/// A user field name, renamed when it collides with a reserved name.
pub open spec fn spec_field_name(s: Seq<char>) -> Seq<char> {
    if is_reserved(s) {
        "tracing."@ + s
    } else {
        s
    }
}

/// Whether `s` is one of the reporter-reserved field names.
pub fn is_reserved_name(s: &str) -> (r: bool)
    ensures
        r == is_reserved(s@),
{
    str_eq(s, "trace.span_id") || str_eq(s, "trace.trace_id") || str_eq(s, "trace.parent_id")
        || str_eq(s, "service_name") || str_eq(s, "level") || str_eq(s, "Timestamp") || str_eq(
        s,
        "name",
    ) || str_eq(s, "target") || str_eq(s, "duration_ms")
}

/// Rename a user field that collides with a reserved name by prefixing it.
pub fn mk_field_name(s: String) -> (r: String)
    ensures
        r@ == spec_field_name(s@),
{
    if is_reserved_name(s.as_str()) {
        let pre = "tracing.".to_owned();
        pre.concat(s.as_str())
    } else {
        s
    }
}

/// Visitor that builds reporter-ready values from the host framework's
/// fields, renaming user fields that collide with reserved names.
pub struct HoneycombVisitor(pub FieldMap, pub Ghost<Seq<(Seq<char>, FieldVal)>>);

impl HoneycombVisitor {
    /// Record a signed integer field.
    pub fn record_i64(&mut self, field: &str, value: i64)
        ensures
            final(self).0@ == old(self).0@.insert(spec_field_name(field@), FieldVal::I64(value)),
            final(self).observed() == old(self).observed().push((field@, FieldVal::I64(value))),
    {
        self.0.insert(mk_field_name(field.to_owned()), Value::I64(value));
        self.1 = Ghost(self.1@.push((field@, FieldVal::I64(value))));
    }

    /// Record an unsigned integer field.
    pub fn record_u64(&mut self, field: &str, value: u64)
        ensures
            final(self).0@ == old(self).0@.insert(spec_field_name(field@), FieldVal::U64(value)),
            final(self).observed() == old(self).observed().push((field@, FieldVal::U64(value))),
    {
        self.0.insert(mk_field_name(field.to_owned()), Value::U64(value));
        self.1 = Ghost(self.1@.push((field@, FieldVal::U64(value))));
    }

    /// Record a boolean field.
    pub fn record_bool(&mut self, field: &str, value: bool)
        ensures
            final(self).0@ == old(self).0@.insert(spec_field_name(field@), FieldVal::Bool(value)),
            final(self).observed() == old(self).observed().push((field@, FieldVal::Bool(value))),
    {
        self.0.insert(mk_field_name(field.to_owned()), Value::Bool(value));
        self.1 = Ghost(self.1@.push((field@, FieldVal::Bool(value))));
    }

    /// Record a string field.
    pub fn record_str(&mut self, field: &str, value: &str)
        ensures
            final(self).0@ == old(self).0@.insert(spec_field_name(field@), FieldVal::Str(value@)),
            final(self).observed() == old(self).observed().push((field@, FieldVal::Str(value@))),
    {
        self.0.insert(mk_field_name(field.to_owned()), Value::Str(value.to_owned()));
        self.1 = Ghost(self.1@.push((field@, FieldVal::Str(value@))));
    }

    /// Record an opaque value already collapsed to its printable form.
    pub fn record_debug(&mut self, field: &str, printed: &str)
        ensures
            final(self).0@ == old(self).0@.insert(
                spec_field_name(field@),
                FieldVal::Str(printed@),
            ),
            final(self).observed() == old(self).observed().push((field@, FieldVal::Str(printed@))),
    {
        self.0.insert(mk_field_name(field.to_owned()), Value::Str(printed.to_owned()));
        self.1 = Ghost(self.1@.push((field@, FieldVal::Str(printed@))));
    }
}

impl Visit for HoneycombVisitor {
    closed spec fn observed(&self) -> Seq<(Seq<char>, FieldVal)> {
        self.1@
    }

    fn empty() -> (r: Self) {
        HoneycombVisitor(FieldMap::new(), Ghost(Seq::empty()))
    }

    fn record_field(&mut self, name: &str, value: &Value) {
        match value {
            Value::Null => {
                self.0.insert(mk_field_name(name.to_owned()), Value::Null);
                self.1 = Ghost(self.1@.push((name@, FieldVal::Null)));
            },
            Value::I64(i) => self.record_i64(name, *i),
            Value::U64(u) => self.record_u64(name, *u),
            Value::Bool(b) => self.record_bool(name, *b),
            Value::Str(s) => self.record_str(name, s.as_str()),
        }
    }
}

/// Visitor that accumulates fields for an OpenTelemetry-style reporter.
///
/// Unlike `HoneycombVisitor`, it stores fields under their given names:
/// that reporter family reserves none.
pub struct OpenTelemetryVisitor(pub FieldMap, pub Ghost<Seq<(Seq<char>, FieldVal)>>);

impl OpenTelemetryVisitor {
    /// Record a signed integer field.
    pub fn record_i64(&mut self, field: &str, value: i64)
        ensures
            final(self).0@ == old(self).0@.insert(field@, FieldVal::I64(value)),
            final(self).observed() == old(self).observed().push((field@, FieldVal::I64(value))),
    {
        self.0.insert(field.to_owned(), Value::I64(value));
        self.1 = Ghost(self.1@.push((field@, FieldVal::I64(value))));
    }

    /// Record an unsigned integer field.
    pub fn record_u64(&mut self, field: &str, value: u64)
        ensures
            final(self).0@ == old(self).0@.insert(field@, FieldVal::U64(value)),
            final(self).observed() == old(self).observed().push((field@, FieldVal::U64(value))),
    {
        self.0.insert(field.to_owned(), Value::U64(value));
        self.1 = Ghost(self.1@.push((field@, FieldVal::U64(value))));
    }

    /// Record a boolean field.
    pub fn record_bool(&mut self, field: &str, value: bool)
        ensures
            final(self).0@ == old(self).0@.insert(field@, FieldVal::Bool(value)),
            final(self).observed() == old(self).observed().push((field@, FieldVal::Bool(value))),
    {
        self.0.insert(field.to_owned(), Value::Bool(value));
        self.1 = Ghost(self.1@.push((field@, FieldVal::Bool(value))));
    }

    /// Record a string field.
    pub fn record_str(&mut self, field: &str, value: &str)
        ensures
            final(self).0@ == old(self).0@.insert(field@, FieldVal::Str(value@)),
            final(self).observed() == old(self).observed().push((field@, FieldVal::Str(value@))),
    {
        self.0.insert(field.to_owned(), Value::Str(value.to_owned()));
        self.1 = Ghost(self.1@.push((field@, FieldVal::Str(value@))));
    }

    /// Record an opaque value already collapsed to its printable form.
    pub fn record_debug(&mut self, field: &str, printed: &str)
        ensures
            final(self).0@ == old(self).0@.insert(field@, FieldVal::Str(printed@)),
            final(self).observed() == old(self).observed().push((field@, FieldVal::Str(printed@))),
    {
        self.0.insert(field.to_owned(), Value::Str(printed.to_owned()));
        self.1 = Ghost(self.1@.push((field@, FieldVal::Str(printed@))));
    }
}

impl Visit for OpenTelemetryVisitor {
    closed spec fn observed(&self) -> Seq<(Seq<char>, FieldVal)> {
        self.1@
    }

    fn empty() -> (r: Self) {
        OpenTelemetryVisitor(FieldMap::new(), Ghost(Seq::empty()))
    }

    fn record_field(&mut self, name: &str, value: &Value) {
        match value {
            Value::Null => {
                self.0.insert(name.to_owned(), Value::Null);
                self.1 = Ghost(self.1@.push((name@, FieldVal::Null)));
            },
            Value::I64(i) => self.record_i64(name, *i),
            Value::U64(u) => self.record_u64(name, *u),
            Value::Bool(b) => self.record_bool(name, *b),
            Value::Str(s) => self.record_str(name, s.as_str()),
        }
    }
}

/// The printable form of a level, as the host framework renders it.
pub open spec fn spec_level_str(l: Level) -> Seq<char> {
    match l {
        Level::Trace => "TRACE"@,
        Level::Debug => "DEBUG"@,
        Level::Info => "INFO"@,
        Level::Warn => "WARN"@,
        Level::Error => "ERROR"@,
    }
}

/// Render a level as its printable form.
pub fn level_str(l: Level) -> (r: &'static str)
    ensures
        r@ == spec_level_str(l),
{
    match l {
        Level::Trace => "TRACE",
        Level::Debug => "DEBUG",
        Level::Info => "INFO",
        Level::Warn => "WARN",
        Level::Error => "ERROR",
    }
}

/// A span id rendered for the reporter, with its distinguishing prefix.
pub open spec fn spec_span_ref(id: SpanId) -> Seq<char> {
    "span-"@ + spec_span_id_str(id)
}

/// Render a span id for the reporter.
fn span_ref(id: SpanId) -> (r: String)
    ensures
        r@ == spec_span_ref(id),
{
    let p = "span-".to_owned();
    p.concat(id.into_string().as_str())
}

/// The reporter-bound field map of a finished span: the span's own fields,
/// overlaid with every reserved field.
pub open spec fn spec_span_values(rec: SpanRec, values: Map<Seq<char>, FieldVal>) -> Map<
    Seq<char>,
    FieldVal,
> {
    values.insert("trace.span_id"@, FieldVal::Str(spec_span_ref(rec.id))).insert(
        "trace.trace_id"@,
        FieldVal::Str(spec_trace_id_str(rec.trace_id)),
    ).insert(
        "trace.parent_id"@,
        match rec.parent_id {
            Some(p) => FieldVal::Str(spec_span_ref(p)),
            None => FieldVal::Null,
        },
    ).insert("service_name"@, FieldVal::Str(rec.service_name)).insert(
        "level"@,
        FieldVal::Str(spec_level_str(rec.meta.level)),
    ).insert("Timestamp"@, FieldVal::Str(rfc3339_of(rec.initialized_at as i64))).insert(
        "name"@,
        FieldVal::Str(rec.meta.name),
    ).insert("target"@, FieldVal::Str(rec.meta.target)).insert(
        "duration_ms"@,
        FieldVal::I64(rec.elapsed_ms as i64),
    )
}

/// Serialise a finished span into the field map its reporter publishes.
pub fn span_to_values(span: Span<HoneycombVisitor>) -> (r: FieldMap)
    requires
        0 <= span.initialized_at <= MAX_TIMESTAMP_MS,
    ensures
        r@ == spec_span_values(span.model(), span.values.0@),
{
    let Span { id, trace_id, parent_id, initialized_at, elapsed_ms, meta, service_name, values } =
        span;
    let mut m = values.0;
    m.insert("trace.span_id".to_owned(), Value::Str(span_ref(id)));
    m.insert("trace.trace_id".to_owned(), Value::Str(trace_id.into_string()));
    m.insert(
        "trace.parent_id".to_owned(),
        match parent_id {
            Some(p) => Value::Str(span_ref(p)),
            None => Value::Null,
        },
    );
    m.insert("service_name".to_owned(), Value::Str(service_name));
    m.insert("level".to_owned(), Value::Str(level_str(meta.level).to_owned()));
    m.insert("Timestamp".to_owned(), Value::Str(format_rfc3339_millis(initialized_at)));
    m.insert("name".to_owned(), Value::Str(meta.name));
    m.insert("target".to_owned(), Value::Str(meta.target));
    m.insert("duration_ms".to_owned(), Value::I64(elapsed_ms));
    m
}

/// The reporter-bound field map of a finished event: the event's own
/// fields, overlaid with every reserved field an event carries.
pub open spec fn spec_event_values(rec: EventRec, values: Map<Seq<char>, FieldVal>) -> Map<
    Seq<char>,
    FieldVal,
> {
    values.insert("trace.trace_id"@, FieldVal::Str(spec_trace_id_str(rec.trace_id))).insert(
        "trace.parent_id"@,
        match rec.parent_id {
            Some(p) => FieldVal::Str(spec_span_ref(p)),
            None => FieldVal::Null,
        },
    ).insert("service_name"@, FieldVal::Str(rec.service_name)).insert(
        "level"@,
        FieldVal::Str(spec_level_str(rec.meta.level)),
    ).insert("Timestamp"@, FieldVal::Str(rfc3339_of(rec.initialized_at as i64))).insert(
        "name"@,
        FieldVal::Str(rec.meta.name),
    ).insert("target"@, FieldVal::Str(rec.meta.target))
}

/// Serialise a finished event into the field map its reporter publishes.
pub fn event_to_values(event: Event<HoneycombVisitor>) -> (r: FieldMap)
    requires
        0 <= event.initialized_at <= MAX_TIMESTAMP_MS,
    ensures
        r@ == spec_event_values(event.model(), event.values.0@),
{
    let Event { trace_id, parent_id, initialized_at, meta, service_name, values } = event;
    let mut m = values.0;
    m.insert("trace.trace_id".to_owned(), Value::Str(trace_id.into_string()));
    m.insert(
        "trace.parent_id".to_owned(),
        match parent_id {
            Some(p) => Value::Str(span_ref(p)),
            None => Value::Null,
        },
    );
    m.insert("service_name".to_owned(), Value::Str(service_name));
    m.insert("level".to_owned(), Value::Str(level_str(meta.level).to_owned()));
    m.insert("Timestamp".to_owned(), Value::Str(format_rfc3339_millis(initialized_at)));
    m.insert("name".to_owned(), Value::Str(meta.name));
    m.insert("target".to_owned(), Value::Str(meta.target));
    m
}

} // verus!
