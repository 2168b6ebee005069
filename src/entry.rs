//! The record schemas, and how a parsed line is classified into one of them.
use crate::json::{
    find, keys_sorted, lemma_lookup_member, lookup, sorted_deep, text_lt, Json, Member, Numeral,
};
use crate::level::{Level, TracingLevel};
use crate::text::same_text;
use crate::time::{parse_utc, utc_time, Timestamp};
use vstd::prelude::*;

verus! {

/// A record of the flat structured-log schema.
#[derive(Debug)]
pub struct BunyanEntry {
    pub v: i64,
    pub level: Level,
    pub name: String,
    pub hostname: String,
    pub pid: u64,
    pub time: Timestamp,
    pub msg: String,
    pub component: Option<String>,
    /// Every member not named above, in the object's order.
    pub extra: Vec<Member>,
}

/// A record of the span-tracing schema.
#[derive(Debug)]
pub struct TracingEntry {
    pub timestamp: Timestamp,
    pub level: TracingLevel,
    pub target: String,
    pub fields: Fields,
    pub span: Option<Span>,
    pub spans: Option<Vec<Span>>,
}

/// The event fields of a tracing record.
#[derive(Debug)]
pub struct Fields {
    pub message: String,
    /// Every member but `message`.
    pub values: Vec<Member>,
}

/// A named span with its own fields.
#[derive(Debug)]
pub struct Span {
    pub name: String,
    /// Every member but `name`.
    pub values: Vec<Member>,
}

/// A record of one of the known schemas.
#[derive(Debug)]
pub enum Entry {
    Bunyan(BunyanEntry),
    Tracing(TracingEntry),
}

/// What a parsed line turned out to be. A line that is not JSON at all never gets this far:
/// `parse_document` gives no document for it.
#[derive(Debug)]
pub enum Decision {
    Accepted(Entry),
    UnsupportedVersion,
    SchemaMismatch,
}

/// The only structured-log major version that is rendered.
pub const SUPPORTED_VERSION: i64 = 0;

pub open spec fn str_of(v: Option<Json>) -> Option<String> {
    match v {
        Some(Json::Str(s)) => Some(s),
        _ => None,
    }
}

/// Absent, null or a string.
pub open spec fn opt_str_ok(v: Option<Json>) -> bool {
    match v {
        None => true,
        Some(Json::Null) => true,
        Some(Json::Str(_)) => true,
        _ => false,
    }
}

/// An integer that fits in `i64`.
pub open spec fn i64_of(v: Option<Json>) -> Option<i64> {
    match v {
        Some(Json::Num(Numeral::PosInt(u))) => if u <= i64::MAX {
            Some(u as i64)
        } else {
            None
        },
        Some(Json::Num(Numeral::NegInt(i))) => Some(i),
        _ => None,
    }
}

/// A non-negative integer that fits in `u64`.
pub open spec fn u64_of(v: Option<Json>) -> Option<u64> {
    match v {
        Some(Json::Num(Numeral::PosInt(u))) => Some(u),
        _ => None,
    }
}

/// A numeric level code.
pub open spec fn level_of(v: Option<Json>) -> Option<Level> {
    match v {
        Some(Json::Num(Numeral::PosInt(u))) => Level::with_code(u as nat),
        _ => None,
    }
}

/// A tracing level name.
pub open spec fn tracing_level_of(v: Option<Json>) -> Option<TracingLevel> {
    match v {
        Some(Json::Str(s)) => TracingLevel::spelled(s@),
        _ => None,
    }
}

/// The time that the string member `k` denotes.
pub open spec fn time_of(ms: Seq<Member>, k: Seq<char>) -> Option<Timestamp> {
    match lookup(ms, k) {
        Some(Json::Str(s)) => utc_time(s@),
        _ => None,
    }
}

pub open spec fn structured_key(k: Seq<char>) -> bool {
    ||| k == "v"@
    ||| k == "level"@
    ||| k == "name"@
    ||| k == "hostname"@
    ||| k == "pid"@
    ||| k == "time"@
    ||| k == "msg"@
    ||| k == "component"@
}

/// The members that a structured record keeps as extra fields.
pub open spec fn is_extra() -> spec_fn(Member) -> bool {
    |m: Member| !structured_key(m.key@)
}

/// The members other than `k`.
pub open spec fn other_than(k: Seq<char>) -> spec_fn(Member) -> bool {
    |m: Member| m.key@ != k
}

/// Whether the members form a structured record, given what its `time` text parsed to.
pub open spec fn structured_fits(ms: Seq<Member>, time: Option<Timestamp>) -> bool {
    &&& i64_of(lookup(ms, "v"@)) is Some
    &&& level_of(lookup(ms, "level"@)) is Some
    &&& str_of(lookup(ms, "name"@)) is Some
    &&& str_of(lookup(ms, "hostname"@)) is Some
    &&& u64_of(lookup(ms, "pid"@)) is Some
    &&& str_of(lookup(ms, "time"@)) is Some
    &&& time is Some
    &&& str_of(lookup(ms, "msg"@)) is Some
    &&& opt_str_ok(lookup(ms, "component"@))
}

/// `e` holds what the members hold.
pub open spec fn structured_built(e: BunyanEntry, ms: Seq<Member>, time: Timestamp) -> bool {
    &&& Some(e.v) == i64_of(lookup(ms, "v"@))
    &&& Some(e.level) == level_of(lookup(ms, "level"@))
    &&& Some(e.name) == str_of(lookup(ms, "name"@))
    &&& Some(e.hostname) == str_of(lookup(ms, "hostname"@))
    &&& Some(e.pid) == u64_of(lookup(ms, "pid"@))
    &&& e.time == time
    &&& Some(e.msg) == str_of(lookup(ms, "msg"@))
    &&& e.component == str_of(lookup(ms, "component"@))
    &&& e.extra@ == ms.filter(is_extra())
}

/// An object with a string `name`.
pub open spec fn span_fits(v: Json) -> bool {
    v matches Json::Object(ms) && str_of(lookup(ms@, "name"@)) is Some
}

pub open spec fn span_built(s: Span, v: Json) -> bool {
    &&& v matches Json::Object(ms)
    &&& Some(s.name) == str_of(lookup(v->Object_0@, "name"@))
    &&& s.values@ == v->Object_0@.filter(other_than("name"@))
}

/// An object with a string `message`.
pub open spec fn fields_fits(v: Option<Json>) -> bool {
    v matches Some(Json::Object(ms)) && str_of(lookup(ms@, "message"@)) is Some
}

pub open spec fn fields_built(f: Fields, v: Json) -> bool {
    &&& v matches Json::Object(ms)
    &&& Some(f.message) == str_of(lookup(v->Object_0@, "message"@))
    &&& f.values@ == v->Object_0@.filter(other_than("message"@))
}

/// Absent, null or a span.
pub open spec fn opt_span_fits(v: Option<Json>) -> bool {
    match v {
        None => true,
        Some(Json::Null) => true,
        Some(x) => span_fits(x),
    }
}

pub open spec fn opt_span_built(s: Option<Span>, v: Option<Json>) -> bool {
    match v {
        None => s is None,
        Some(Json::Null) => s is None,
        Some(x) => s matches Some(sp) && span_built(sp, x),
    }
}

pub open spec fn all_spans_fit(a: Seq<Json>) -> bool {
    forall|i: int| 0 <= i < a.len() ==> span_fits(#[trigger] a[i])
}

pub open spec fn spans_built(ss: Seq<Span>, a: Seq<Json>) -> bool {
    &&& ss.len() == a.len()
    &&& forall|i: int| 0 <= i < a.len() ==> span_built(#[trigger] ss[i], a[i])
}

/// Absent, null or an array of spans.
pub open spec fn opt_spans_fit(v: Option<Json>) -> bool {
    match v {
        None => true,
        Some(Json::Null) => true,
        Some(Json::Array(a)) => all_spans_fit(a@),
        _ => false,
    }
}

pub open spec fn opt_spans_built(s: Option<Vec<Span>>, v: Option<Json>) -> bool {
    match v {
        Some(Json::Array(a)) => s matches Some(ss) && spans_built(ss@, a@),
        _ => s is None,
    }
}

/// Whether the members form a tracing record, given what its `timestamp` text parsed to.
pub open spec fn tracing_fits(ms: Seq<Member>, time: Option<Timestamp>) -> bool {
    &&& str_of(lookup(ms, "timestamp"@)) is Some
    &&& time is Some
    &&& tracing_level_of(lookup(ms, "level"@)) is Some
    &&& str_of(lookup(ms, "target"@)) is Some
    &&& fields_fits(lookup(ms, "fields"@))
    &&& opt_span_fits(lookup(ms, "span"@))
    &&& opt_spans_fit(lookup(ms, "spans"@))
}

pub open spec fn tracing_built(e: TracingEntry, ms: Seq<Member>, time: Timestamp) -> bool {
    &&& e.timestamp == time
    &&& Some(e.level) == tracing_level_of(lookup(ms, "level"@))
    &&& Some(e.target) == str_of(lookup(ms, "target"@))
    &&& fields_built(e.fields, lookup(ms, "fields"@)->0)
    &&& opt_span_built(e.span, lookup(ms, "span"@))
    &&& opt_spans_built(e.spans, lookup(ms, "spans"@))
}

/// How a parsed value is classified: the structured schema is tried first, and only a fully
/// matching structured record is checked for its version; then the tracing schema.
pub open spec fn classified(r: Decision, tree: Json) -> bool {
    match tree {
        Json::Object(ms) => {
            let t1 = time_of(ms@, "time"@);
            let t2 = time_of(ms@, "timestamp"@);
            if structured_fits(ms@, t1) {
                if i64_of(lookup(ms@, "v"@))->0 != SUPPORTED_VERSION {
                    r is UnsupportedVersion
                } else {
                    r matches Decision::Accepted(Entry::Bunyan(e)) && structured_built(e, ms@, t1->0)
                }
            } else if tracing_fits(ms@, t2) {
                r matches Decision::Accepted(Entry::Tracing(e)) && tracing_built(e, ms@, t2->0)
            } else {
                r is SchemaMismatch
            }
        },
        _ => r is SchemaMismatch,
    }
}

pub open spec fn owned(v: Option<&Json>) -> Option<Json> {
    match v {
        Some(x) => Some(*x),
        None => None,
    }
}

fn is_structured_key(k: &str) -> (r: bool)
    ensures
        r == structured_key(k@),
{
    same_text(k, "v") || same_text(k, "level") || same_text(k, "name") || same_text(k, "hostname")
        || same_text(k, "pid") || same_text(k, "time") || same_text(k, "msg") || same_text(
        k,
        "component",
    )
}

fn int_i64(v: Option<&Json>) -> (r: Option<i64>)
    ensures
        r == i64_of(owned(v)),
{
    match v {
        Some(Json::Num(Numeral::PosInt(u))) => if *u <= i64::MAX as u64 {
            Some(*u as i64)
        } else {
            None
        },
        Some(Json::Num(Numeral::NegInt(i))) => Some(*i),
        _ => None,
    }
}

fn int_u64(v: Option<&Json>) -> (r: Option<u64>)
    ensures
        r == u64_of(owned(v)),
{
    match v {
        Some(Json::Num(Numeral::PosInt(u))) => Some(*u),
        _ => None,
    }
}

fn is_str(v: Option<&Json>) -> (r: bool)
    ensures
        r == (str_of(owned(v)) is Some),
{
    matches!(v, Some(Json::Str(_)))
}

/// The time that the string member `k` denotes.
pub fn member_time(ms: &Vec<Member>, k: &str) -> (r: Option<Timestamp>)
    ensures
        r == time_of(ms@, k@),
        r matches Some(t) ==> t.wf(),
{
    match find(ms, k) {
        Some(Json::Str(s)) => parse_utc(s.as_str()),
        _ => None,
    }
}

/// The members other than `k`, and the first member named `k`.
pub fn split_named(ms: Vec<Member>, k: &str) -> (r: (Option<Json>, Vec<Member>))
    ensures
        r.0 == lookup(ms@, k@),
        r.1@ == ms@.filter(other_than(k@)),
{
    let ghost orig = ms@;
    let mut rest = ms;
    let mut found: Option<Json> = None;
    let mut kept: Vec<Member> = Vec::new();
    let ghost mut n: int = 0;
    while rest.len() > 0
        invariant
            0 <= n <= orig.len(),
            rest@ == orig.subrange(n, orig.len() as int),
            found == lookup(orig.subrange(0, n), k@),
            kept@ == orig.subrange(0, n).filter(other_than(k@)),
        decreases rest.len(),
    {
        let m = rest.remove(0);
        proof {
            assert(m == orig[n]);
            let done = orig.subrange(0, n + 1);
            assert(done.drop_last() =~= orig.subrange(0, n));
            assert(done =~= orig.subrange(0, n).push(m));
            orig.subrange(0, n).lemma_filter_push(m, other_than(k@));
        }
        let Member { key, value } = m;
        if same_text(key.as_str(), k) {
            if found.is_none() {
                found = Some(value);
            }
        } else {
            kept.push(Member { key, value });
        }
        proof {
            n = n + 1;
            assert(rest@ =~= orig.subrange(n, orig.len() as int));
        }
    }
    assert(orig.subrange(0, n) =~= orig);
    (found, kept)
}

impl Span {
    /// The span that a value holds: an object with a string `name`.
    pub fn from_value(v: Json) -> (r: Option<Span>)
        ensures
            r is Some <==> span_fits(v),
            r matches Some(s) ==> span_built(s, v),
    {
        match v {
            Json::Object(ms) => {
                let (name, values) = split_named(ms, "name");
                match name {
                    Some(Json::Str(s)) => Some(Span { name: s, values }),
                    _ => None,
                }
            },
            _ => None,
        }
    }
}

impl Fields {
    /// The event fields that a value holds: an object with a string `message`.
    pub fn from_value(v: Json) -> (r: Option<Fields>)
        ensures
            r is Some <==> fields_fits(Some(v)),
            r matches Some(f) ==> fields_built(f, v),
    {
        match v {
            Json::Object(ms) => {
                let (message, values) = split_named(ms, "message");
                match message {
                    Some(Json::Str(s)) => Some(Fields { message: s, values }),
                    _ => None,
                }
            },
            _ => None,
        }
    }
}

/// The spans of an array, if every element is one.
pub fn spans_from(a: Vec<Json>) -> (r: Option<Vec<Span>>)
    ensures
        r is Some <==> all_spans_fit(a@),
        r matches Some(ss) ==> spans_built(ss@, a@),
{
    let ghost orig = a@;
    let mut rest = a;
    let mut out: Vec<Span> = Vec::new();
    while rest.len() > 0
        invariant
            orig == a@,
            out@.len() <= orig.len(),
            rest@ == orig.subrange(out@.len() as int, orig.len() as int),
            all_spans_fit(orig.subrange(0, out@.len() as int)),
            spans_built(out@, orig.subrange(0, out@.len() as int)),
        decreases rest.len(),
    {
        let ghost n = out@.len() as int;
        let x = rest.remove(0);
        assert(x == orig[n]);
        match Span::from_value(x) {
            Some(s) => {
                out.push(s);
                assert(orig.subrange(0, n + 1) =~= orig.subrange(0, n).push(x));
                assert(rest@ =~= orig.subrange(n + 1, orig.len() as int));
            },
            None => {
                assert(!all_spans_fit(orig)) by {
                    assert(!span_fits(orig[n]));
                }
                assert(orig == a@);
                return None;
            },
        }
    }
    assert(orig.subrange(0, out@.len() as int) =~= orig);
    Some(out)
}

/// The structured record that the members form, given what their `time` text parsed to;
/// otherwise the members, untouched.
pub fn structured_from(ms: Vec<Member>, time: Option<Timestamp>) -> (r: Result<BunyanEntry, Vec<Member>>)
    ensures
        r is Ok <==> structured_fits(ms@, time),
        r matches Ok(e) ==> structured_built(e, ms@, time->0),
        r matches Err(back) ==> back == ms,
{
    let v = int_i64(find(&ms, "v"));
    let level = match find(&ms, "level") {
        Some(Json::Num(Numeral::PosInt(u))) => Level::from_code(*u),
        _ => None,
    };
    let pid = int_u64(find(&ms, "pid"));
    let fits_strings = is_str(find(&ms, "name")) && is_str(find(&ms, "hostname")) && is_str(
        find(&ms, "time"),
    ) && is_str(find(&ms, "msg"));
    let component_ok = match find(&ms, "component") {
        None => true,
        Some(Json::Null) => true,
        Some(Json::Str(_)) => true,
        _ => false,
    };
    if v.is_none() || level.is_none() || pid.is_none() || time.is_none() || !fits_strings
        || !component_ok {
        return Err(ms);
    }
    let ghost orig = ms@;
    let mut rest = ms;
    let mut name: Option<Json> = None;
    let mut hostname: Option<Json> = None;
    let mut msg: Option<Json> = None;
    let mut component: Option<Json> = None;
    let mut extra: Vec<Member> = Vec::new();
    let ghost mut n: int = 0;
    while rest.len() > 0
        invariant
            0 <= n <= orig.len(),
            rest@ == orig.subrange(n, orig.len() as int),
            name == lookup(orig.subrange(0, n), "name"@),
            hostname == lookup(orig.subrange(0, n), "hostname"@),
            msg == lookup(orig.subrange(0, n), "msg"@),
            component == lookup(orig.subrange(0, n), "component"@),
            extra@ == orig.subrange(0, n).filter(is_extra()),
        decreases rest.len(),
    {
        let m = rest.remove(0);
        proof {
            assert(m == orig[n]);
            let done = orig.subrange(0, n + 1);
            assert(done.drop_last() =~= orig.subrange(0, n));
            assert(done =~= orig.subrange(0, n).push(m));
            orig.subrange(0, n).lemma_filter_push(m, is_extra());
            reveal_strlit("name");
            reveal_strlit("hostname");
            reveal_strlit("msg");
            reveal_strlit("component");
            assert("name"@.len() == 4 && "hostname"@.len() == 8);
            assert("msg"@.len() == 3 && "component"@.len() == 9);
        }
        let Member { key, value } = m;
        if same_text(key.as_str(), "name") {
            if name.is_none() {
                name = Some(value);
            }
        } else if same_text(key.as_str(), "hostname") {
            if hostname.is_none() {
                hostname = Some(value);
            }
        } else if same_text(key.as_str(), "msg") {
            if msg.is_none() {
                msg = Some(value);
            }
        } else if same_text(key.as_str(), "component") {
            if component.is_none() {
                component = Some(value);
            }
        } else if !is_structured_key(key.as_str()) {
            extra.push(Member { key, value });
        }
        proof {
            n = n + 1;
            assert(rest@ =~= orig.subrange(n, orig.len() as int));
        }
    }
    assert(orig.subrange(0, n) =~= orig);
    let name = match name {
        Some(Json::Str(s)) => s,
        _ => String::new(),
    };
    let hostname = match hostname {
        Some(Json::Str(s)) => s,
        _ => String::new(),
    };
    let msg = match msg {
        Some(Json::Str(s)) => s,
        _ => String::new(),
    };
    let component = match component {
        Some(Json::Str(s)) => Some(s),
        _ => None,
    };
    Ok(
        BunyanEntry {
            v: v.unwrap(),
            level: level.unwrap(),
            name,
            hostname,
            pid: pid.unwrap(),
            time: time.unwrap(),
            msg,
            component,
            extra,
        },
    )
}

/// The tracing record that the members form, given what their `timestamp` text parsed to.
pub fn tracing_from(ms: Vec<Member>, time: Option<Timestamp>) -> (r: Option<TracingEntry>)
    ensures
        r is Some <==> tracing_fits(ms@, time),
        r matches Some(e) ==> tracing_built(e, ms@, time->0),
{
    let level = match find(&ms, "level") {
        Some(Json::Str(s)) => TracingLevel::from_spelling(s.as_str()),
        _ => None,
    };
    if level.is_none() || time.is_none() || !is_str(find(&ms, "timestamp")) {
        return None;
    }
    let ghost orig = ms@;
    let mut rest = ms;
    let mut target: Option<Json> = None;
    let mut fields: Option<Json> = None;
    let mut span: Option<Json> = None;
    let mut spans: Option<Json> = None;
    let ghost mut n: int = 0;
    while rest.len() > 0
        invariant
            0 <= n <= orig.len(),
            rest@ == orig.subrange(n, orig.len() as int),
            target == lookup(orig.subrange(0, n), "target"@),
            fields == lookup(orig.subrange(0, n), "fields"@),
            span == lookup(orig.subrange(0, n), "span"@),
            spans == lookup(orig.subrange(0, n), "spans"@),
        decreases rest.len(),
    {
        let m = rest.remove(0);
        proof {
            assert(m == orig[n]);
            let done = orig.subrange(0, n + 1);
            assert(done.drop_last() =~= orig.subrange(0, n));
            reveal_strlit("target");
            reveal_strlit("fields");
            reveal_strlit("span");
            reveal_strlit("spans");
            assert("target"@[0] != "fields"@[0]);
            assert("target"@.len() == 6 && "fields"@.len() == 6);
            assert("span"@.len() == 4 && "spans"@.len() == 5);
        }
        let Member { key, value } = m;
        if same_text(key.as_str(), "target") {
            if target.is_none() {
                target = Some(value);
            }
        } else if same_text(key.as_str(), "fields") {
            if fields.is_none() {
                fields = Some(value);
            }
        } else if same_text(key.as_str(), "span") {
            if span.is_none() {
                span = Some(value);
            }
        } else if same_text(key.as_str(), "spans") {
            if spans.is_none() {
                spans = Some(value);
            }
        }
        proof {
            n = n + 1;
            assert(rest@ =~= orig.subrange(n, orig.len() as int));
        }
    }
    assert(orig.subrange(0, n) =~= orig);
    let target = match target {
        Some(Json::Str(s)) => s,
        _ => return None,
    };
    let fields = match fields {
        Some(f) => match Fields::from_value(f) {
            Some(f) => f,
            None => return None,
        },
        None => return None,
    };
    let span = match span {
        None => None,
        Some(Json::Null) => None,
        Some(x) => match Span::from_value(x) {
            Some(s) => Some(s),
            None => return None,
        },
    };
    let spans = match spans {
        None => None,
        Some(Json::Null) => None,
        Some(Json::Array(a)) => match spans_from(a) {
            Some(ss) => Some(ss),
            None => return None,
        },
        Some(_) => return None,
    };
    Some(
        TracingEntry {
            timestamp: time.unwrap(),
            level: level.unwrap(),
            target,
            fields,
            span,
            spans,
        },
    )
}

/// Classifies a parsed value: a structured record of the supported version, one of another
/// version, a tracing record, or neither.
pub fn classify(tree: Json) -> (r: Decision)
    ensures
        classified(r, tree),
        sorted_deep(tree) ==> (r matches Decision::Accepted(e) ==> e.wf()),
{
    let ghost whole = tree;
    match tree {
        Json::Object(ms) => {
            let t1 = member_time(&ms, "time");
            let t2 = member_time(&ms, "timestamp");
            match structured_from(ms, t1) {
                Ok(e) => {
                    proof {
                        if sorted_deep(whole) {
                            lemma_field_order(whole->Object_0@, e, t1->0);
                        }
                    }
                    if e.v != SUPPORTED_VERSION {
                        Decision::UnsupportedVersion
                    } else {
                        Decision::Accepted(Entry::Bunyan(e))
                    }
                },
                Err(ms) => {
                    let ghost back = ms;
                    match tracing_from(ms, t2) {
                    Some(e) => {
                        proof {
                            if sorted_deep(whole) {
                                lemma_tracing_field_order(back, e, t2->0);
                            }
                        }
                        Decision::Accepted(Entry::Tracing(e))
                    },
                    None => Decision::SchemaMismatch,
                    }
                },
            }
        },
        _ => Decision::SchemaMismatch,
    }
}

impl BunyanEntry {
    /// A valid time, and extra fields in ascending key order, one per key.
    pub open spec fn wf(self) -> bool {
        self.time.wf() && keys_sorted(self.extra@)
    }
}

impl Fields {
    /// Fields in ascending key order, one per key.
    pub open spec fn wf(self) -> bool {
        keys_sorted(self.values@)
    }
}

impl Span {
    /// Fields in ascending key order, one per key.
    pub open spec fn wf(self) -> bool {
        keys_sorted(self.values@)
    }
}

impl TracingEntry {
    /// A valid time, and the event fields and each span's fields in ascending key order.
    pub open spec fn wf(self) -> bool {
        &&& self.timestamp.wf()
        &&& self.fields.wf()
        &&& self.spans matches Some(ss) ==> forall|i: int| 0 <= i < ss@.len() ==> (#[trigger] ss@[i]).wf()
    }
}

impl Entry {
    pub open spec fn wf(self) -> bool {
        match self {
            Entry::Bunyan(b) => b.wf(),
            Entry::Tracing(t) => t.wf(),
        }
    }

    pub open spec fn level_spec(self) -> Level {
        match self {
            Entry::Bunyan(e) => e.level,
            Entry::Tracing(e) => e.level.as_level(),
        }
    }

    /// The record's severity.
    pub fn level(&self) -> (r: Level)
        ensures
            r == self.level_spec(),
    {
        match self {
            Entry::Bunyan(e) => e.level,
            Entry::Tracing(e) => Level::from(e.level),
        }
    }
}

/// Keeping some members of a key-ordered sequence keeps it key-ordered.
pub proof fn lemma_filter_sorted(ms: Seq<Member>, p: spec_fn(Member) -> bool)
    requires
        keys_sorted(ms),
    ensures
        keys_sorted(ms.filter(p)),
    decreases ms.len(),
{
    reveal(Seq::filter);
    if ms.len() > 0 {
        let init = ms.drop_last();
        assert(keys_sorted(init)) by {
            assert forall|i: int, j: int| 0 <= i < j < init.len() implies text_lt(
                #[trigger] init[i].key@,
                #[trigger] init[j].key@,
            ) by {
                assert(init[i] == ms[i] && init[j] == ms[j]);
            }
        }
        lemma_filter_sorted(init, p);
        let f = init.filter(p);
        if p(ms.last()) {
            assert forall|i: int| 0 <= i < f.len() implies text_lt(
                (#[trigger] f[i]).key@,
                ms.last().key@,
            ) by {
                assert(f.contains(f[i]));
                init.lemma_filter_contains_rev(p, f[i]);
                let k = choose|k: int| 0 <= k < init.len() && init[k] == f[i];
                assert(ms[k] == init[k]);
            }
            assert(ms.filter(p) == f.push(ms.last()));
            let g = f.push(ms.last());
            assert forall|i: int, j: int| 0 <= i < j < g.len() implies text_lt(
                #[trigger] g[i].key@,
                #[trigger] g[j].key@,
            ) by {
                if j == g.len() - 1 {
                    assert(g[i] == f[i]);
                } else {
                    assert(g[i] == f[i] && g[j] == f[j]);
                }
            }
        }
    }
}

/// A structured record's extra fields, which the field dump lists in order, come in ascending
/// key order when the object's keys did, as the parser gives them.
pub proof fn lemma_field_order(ms: Seq<Member>, e: BunyanEntry, t: Timestamp)
    requires
        keys_sorted(ms),
        structured_built(e, ms, t),
    ensures
        keys_sorted(e.extra@),
{
    lemma_filter_sorted(ms, crate::entry::is_extra());
}

/// A tracing record's event fields, and each span's fields, come in ascending key order when
/// every object of the parsed value had its keys so, as the parser gives them.
pub proof fn lemma_tracing_field_order(ms: Vec<Member>, e: TracingEntry, t: Timestamp)
    requires
        sorted_deep(Json::Object(ms)),
        tracing_fits(ms@, Some(t)),
        tracing_built(e, ms@, t),
    ensures
        keys_sorted(e.fields.values@),
        e.spans matches Some(ss) ==> forall|i: int|
            0 <= i < ss@.len() ==> keys_sorted(#[trigger] ss@[i].values@),
{
    let fv = lookup(ms@, "fields"@)->0;
    lemma_lookup_member(ms@, "fields"@);
    let i = choose|i: int| 0 <= i < ms@.len() && #[trigger] ms@[i].value == fv;
    assert(sorted_deep(ms[i].value));
    lemma_filter_sorted(fv->Object_0@, other_than("message"@));
    if let Some(Json::Array(a)) = lookup(ms@, "spans"@) {
        lemma_lookup_member(ms@, "spans"@);
        let j = choose|j: int| 0 <= j < ms@.len() && #[trigger] ms@[j].value == Json::Array(a);
        assert(sorted_deep(ms[j].value));
        let ss = e.spans->0;
        assert forall|k: int| 0 <= k < ss@.len() implies keys_sorted(#[trigger] ss@[k].values@) by {
            assert(span_built(ss@[k], a@[k]));
            assert(sorted_deep(a[k]));
            lemma_filter_sorted(a@[k]->Object_0@, other_than("name"@));
        }
    }
}

} // verus!
