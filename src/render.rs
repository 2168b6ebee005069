//! Rendering an accepted record as text, in the short, long and bare layouts.
use crate::entry::{BunyanEntry, Entry, Span, TracingEntry};
use crate::json::{find, joined, lookup, show, shown, Member};
use crate::level::Level;
use crate::style::{bold, bolded, decimal, level, level_label, Colour, Format};
use crate::text::{append, nat_text, push_char, same_text};
use crate::time::{clock_text, date_time_text};
use vstd::prelude::*;

verus! {

/// A line without the carriage return that ended it.
pub open spec fn strip_cr(l: Seq<char>) -> Seq<char> {
    if l.len() > 0 && l.last() == '\r' {
        l.drop_last()
    } else {
        l
    }
}

/// The lines of `s` from position `i` on, `cur` being the part of the current line already
/// read: split at `\n`, a `\r` before it dropped, and no empty line after a final `\n`.
pub open spec fn split_from(s: Seq<char>, i: int, cur: Seq<char>) -> Seq<Seq<char>>
    decreases s.len() - i,
{
    if i >= s.len() {
        if cur.len() == 0 {
            seq![]
        } else {
            seq![cur]
        }
    } else if s[i] == '\n' {
        seq![strip_cr(cur)] + split_from(s, i + 1, seq![])
    } else {
        split_from(s, i + 1, cur.push(s[i]))
    }
}

pub open spec fn lines_of(s: Seq<char>) -> Seq<Seq<char>> {
    split_from(s, 0, seq![])
}

pub open spec fn indent() -> Seq<char> {
    seq![' ', ' ', ' ', ' ']
}

/// A message with every line after the first indented by four spaces.
pub open spec fn message_text(msg: Seq<char>) -> Seq<char> {
    joined(message_parts(lines_of(msg)), seq!['\n'])
}

/// The first line as it is, the others indented.
pub open spec fn message_parts(ls: Seq<Seq<char>>) -> Seq<Seq<char>> {
    Seq::new(ls.len(), |i: int| if i == 0 { ls[i] } else { indent() + ls[i] })
}

/// Whether the lookup list lets the field `k` be shown: an empty list shows every field.
pub open spec fn shows_key(ls: Seq<String>, k: Seq<char>) -> bool {
    ls.len() == 0 || exists|i: int| 0 <= i < ls.len() && (#[trigger] ls[i])@ == k
}

/// One line per shown member, in order: `head`, the bold key, ` = ` and the value.
pub open spec fn dump(ms: Seq<Member>, head: Seq<char>, c: Colour, ls: Seq<String>) -> Seq<char>
    decreases ms.len(),
{
    if ms.len() == 0 {
        seq![]
    } else {
        dump(ms.drop_last(), head, c, ls) + if shows_key(ls, ms.last().key@) {
            head + bolded(ms.last().key@, c) + seq![' ', '=', ' '] + shown(ms.last().value, false)
                + seq!['\n']
        } else {
            seq![]
        }
    }
}

/// `span[i]`.
pub open spec fn span_label(i: nat) -> Seq<char> {
    seq!['s', 'p', 'a', 'n', '['] + nat_text(i) + seq![']']
}

pub open spec fn span_head(i: nat, c: Colour) -> Seq<char> {
    indent() + bolded(span_label(i), c) + seq![':', ':']
}

/// The fields of each span, prefixed by the span's position.
pub open spec fn spans_dump(ss: Seq<Span>, c: Colour, ls: Seq<String>) -> Seq<char>
    decreases ss.len(),
{
    if ss.len() == 0 {
        seq![]
    } else {
        spans_dump(ss.drop_last(), c, ls) + dump(
            ss.last().values@,
            span_head((ss.len() - 1) as nat, c),
            c,
            ls,
        )
    }
}

pub open spec fn bunyan_ident(e: BunyanEntry, c: Colour, f: Format) -> Seq<char> {
    bolded(e.name@, c) + (if f == Format::Long {
        seq!['/'] + nat_text(e.pid as nat)
    } else {
        seq![]
    }) + match e.component {
        Some(cp) => if cp@ != e.name@ {
            seq![' ', '('] + cp@ + seq![')']
        } else {
            seq![]
        },
        None => seq![],
    }
}

/// `time level ident: message`, the long layout with ` on host` after the name.
pub open spec fn bunyan_header(e: BunyanEntry, c: Colour, f: Format) -> Seq<char> {
    let label = level_label(e.level, c);
    let ident = bunyan_ident(e, c, f);
    let msg = message_text(e.msg@);
    if f == Format::Long {
        date_time_text(e.time) + seq![' '] + label + seq![' '] + ident + seq![' ', 'o', 'n', ' ']
            + e.hostname@ + seq![':', ' '] + msg
    } else {
        clock_text(e.time) + seq![' '] + label + seq![' '] + ident + seq![':', ' '] + msg
    }
}

pub open spec fn bunyan_text(e: BunyanEntry, c: Colour, f: Format, ls: Seq<String>) -> Seq<char> {
    bunyan_header(e, c, f) + seq!['\n'] + dump(e.extra@, indent(), c, ls)
}

/// `time level target: message`.
pub open spec fn tracing_header(e: TracingEntry, c: Colour, f: Format) -> Seq<char> {
    let label = level_label(e.level.as_level(), c);
    let ident = bolded(e.target@, c);
    let msg = message_text(e.fields.message@);
    if f == Format::Long {
        date_time_text(e.timestamp) + seq![' '] + label + seq![' '] + ident + seq![':', ' '] + msg
    } else {
        clock_text(e.timestamp) + seq![' '] + label + seq![' '] + ident + seq![':', ' '] + msg
    }
}

pub open spec fn tracing_text(e: TracingEntry, c: Colour, f: Format, ls: Seq<String>) -> Seq<char> {
    tracing_header(e, c, f) + seq!['\n'] + dump(e.fields.values@, indent(), c, ls) + match e.spans {
        Some(ss) => spans_dump(ss@, c, ls),
        None => seq![],
    }
}

/// The rendered text of a record: a header line, then one line per shown field.
pub open spec fn record_text(e: Entry, c: Colour, f: Format, ls: Seq<String>) -> Seq<char> {
    match e {
        Entry::Bunyan(b) => bunyan_text(b, c, f, ls),
        Entry::Tracing(t) => tracing_text(t, c, f, ls),
    }
}

/// The bare line: each looked-up member shown, `-` where absent, separated by spaces.
pub open spec fn bare_text(ms: Seq<Member>, ls: Seq<String>) -> Seq<char> {
    joined(bare_parts(ms, ls), seq![' ']) + seq!['\n']
}

/// Each looked-up member shown, `-` where absent.
pub open spec fn bare_parts(ms: Seq<Member>, ls: Seq<String>) -> Seq<Seq<char>> {
    Seq::new(
        ls.len(),
        |i: int|
            match lookup(ms, ls[i]@) {
                Some(v) => shown(v, false),
                None => seq!['-'],
            },
    )
}

/// Relies on `str::lines`: split at `\n`, a `\r` just before it dropped, no empty last line.
#[verifier::external_body]
fn split_lines(s: &str) -> (r: Vec<String>)
    ensures
        r@.len() == lines_of(s@).len(),
        forall|i: int| 0 <= i < r@.len() ==> (#[trigger] r@[i])@ == lines_of(s@)[i],
{
    s.lines().map(|l| l.to_string()).collect()
}

/// A message with every line after the first indented by four spaces.
pub fn indent_message(msg: &str) -> (r: String)
    ensures
        r@ == message_text(msg@),
{
    let lines = split_lines(msg);
    let ghost ls = lines_of(msg@);
    let ghost parts = message_parts(ls);
    let mut out = String::new();
    let mut i: usize = 0;
    while i < lines.len()
        invariant
            i <= lines.len(),
            lines@.len() == ls.len(),
            parts == message_parts(ls),
            forall|k: int| 0 <= k < lines@.len() ==> (#[trigger] lines@[k])@ == ls[k],
            out@ == joined(parts.subrange(0, i as int), seq!['\n']),
        decreases lines.len() - i,
    {
        if i > 0 {
            push_char(&mut out, '\n');
            append(&mut out, "    ");
            proof { reveal_strlit("    "); }
            assert("    "@ =~= indent());
        }
        append(&mut out, lines[i].as_str());
        assert(parts.subrange(0, i + 1).drop_last() =~= parts.subrange(0, i as int));
        assert(parts.subrange(0, i + 1).last() == parts[i as int]);
        assert(parts[i as int] == if i == 0 { ls[i as int] } else { indent() + ls[i as int] });
        assert(out@ =~= joined(parts.subrange(0, i + 1), seq!['\n']));
        i = i + 1;
    }
    assert(parts.subrange(0, lines.len() as int) =~= parts);
    out
}

/// Whether the lookup list lets the field `k` be shown.
pub fn lookup_allows(ls: &Vec<String>, k: &str) -> (r: bool)
    ensures
        r == shows_key(ls@, k@),
{
    if ls.len() == 0 {
        return true;
    }
    let mut i: usize = 0;
    while i < ls.len()
        invariant
            i <= ls.len(),
            forall|j: int| 0 <= j < i ==> (#[trigger] ls@[j])@ != k@,
        decreases ls.len() - i,
    {
        if same_text(ls[i].as_str(), k) {
            return true;
        }
        i = i + 1;
    }
    false
}

fn push_dump(out: &mut String, ms: &Vec<Member>, head: &str, colour: Colour, ls: &Vec<String>)
    ensures
        final(out)@ == old(out)@ + dump(ms@, head@, colour, ls@),
{
    let ghost start = out@;
    let mut i: usize = 0;
    while i < ms.len()
        invariant
            i <= ms.len(),
            out@ == start + dump(ms@.subrange(0, i as int), head@, colour, ls@),
        decreases ms.len() - i,
    {
        let ghost before = out@;
        if lookup_allows(ls, ms[i].key.as_str()) {
            append(out, head);
            let k = bold(ms[i].key.as_str(), colour);
            append(out, k.as_str());
            append(out, " = ");
            let v = show(&ms[i].value, false);
            append(out, v.as_str());
            push_char(out, '\n');
            proof { reveal_strlit(" = "); }
            assert(out@ =~= before + (head@ + bolded(ms@[i as int].key@, colour) + seq![' ', '=', ' ']
                + shown(ms@[i as int].value, false) + seq!['\n']));
        }
        assert(ms@.subrange(0, i + 1).drop_last() =~= ms@.subrange(0, i as int));
        i = i + 1;
    }
    assert(ms@.subrange(0, ms.len() as int) =~= ms@);
}

impl Span {
    /// The span's field lines, each key prefixed by the bold `prefix` and `::`.
    pub fn emit_span(&self, prefix: &str, colour: Colour, lookups: &Vec<String>) -> (r: String)
        ensures
            r@ == dump(self.values@, indent() + bolded(prefix@, colour) + seq![':', ':'], colour, lookups@),
    {
        let mut head = String::new();
        append(&mut head, "    ");
        let b = bold(prefix, colour);
        append(&mut head, b.as_str());
        append(&mut head, "::");
        proof {
            reveal_strlit("    ");
            reveal_strlit("::");
        }
        assert(head@ =~= indent() + bolded(prefix@, colour) + seq![':', ':']);
        let mut out = String::new();
        push_dump(&mut out, &self.values, head.as_str(), colour, lookups);
        assert(out@ =~= dump(self.values@, head@, colour, lookups@));
        out
    }
}

fn push_spans(out: &mut String, ss: &Vec<Span>, colour: Colour, ls: &Vec<String>)
    ensures
        final(out)@ == old(out)@ + spans_dump(ss@, colour, ls@),
{
    let ghost start = out@;
    let mut i: usize = 0;
    while i < ss.len()
        invariant
            i <= ss.len(),
            out@ == start + spans_dump(ss@.subrange(0, i as int), colour, ls@),
        decreases ss.len() - i,
    {
        let mut label = String::new();
        append(&mut label, "span[");
        let d = decimal(i as u64);
        append(&mut label, d.as_str());
        push_char(&mut label, ']');
        proof { reveal_strlit("span["); }
        assert(label@ =~= span_label(i as nat));
        let lines = ss[i].emit_span(label.as_str(), colour, ls);
        append(out, lines.as_str());
        assert(ss@.subrange(0, i + 1).drop_last() =~= ss@.subrange(0, i as int));
        assert(out@ =~= start + spans_dump(ss@.subrange(0, i + 1), colour, ls@));
        i = i + 1;
    }
    assert(ss@.subrange(0, ss.len() as int) =~= ss@);
}

impl Entry {
    /// Renders the record in the short or long layout: a header line with time, level, name
    /// and message, then one line per field that the lookup list lets through.
    pub fn emit_record(&self, colour: Colour, fmt: Format, lookups: &Vec<String>) -> (r: String)
        requires
            self.wf(),
            fmt != Format::Bare,
        ensures
            r@ == record_text(*self, colour, fmt, lookups@),
    {
        match self {
            Entry::Bunyan(e) => e.emit_record(colour, fmt, lookups),
            Entry::Tracing(e) => e.emit_record(colour, fmt, lookups),
        }
    }
}

fn bunyan_ident_text(e: &BunyanEntry, colour: Colour, fmt: Format) -> (r: String)
    ensures
        r@ == bunyan_ident(*e, colour, fmt),
{
    let mut n = bold(e.name.as_str(), colour);
    if matches!(fmt, Format::Long) {
        push_char(&mut n, '/');
        let p = decimal(e.pid);
        append(&mut n, p.as_str());
    }
    match &e.component {
        Some(c) => {
            if !same_text(c.as_str(), e.name.as_str()) {
                push_char(&mut n, ' ');
                push_char(&mut n, '(');
                append(&mut n, c.as_str());
                push_char(&mut n, ')');
            }
        },
        None => {},
    }
    assert(n@ =~= bunyan_ident(*e, colour, fmt));
    n
}

fn bunyan_header_text(e: &BunyanEntry, colour: Colour, fmt: Format) -> (r: String)
    requires
        e.time.wf(),
    ensures
        r@ == bunyan_header(*e, colour, fmt),
{
    let l = level(e.level, colour);
    let n = bunyan_ident_text(e, colour, fmt);
    let msg = indent_message(e.msg.as_str());
    let mut s = if matches!(fmt, Format::Long) {
        e.time.date_time()
    } else {
        e.time.clock()
    };
    push_char(&mut s, ' ');
    append(&mut s, l.as_str());
    push_char(&mut s, ' ');
    append(&mut s, n.as_str());
    if matches!(fmt, Format::Long) {
        append(&mut s, " on ");
        append(&mut s, e.hostname.as_str());
        proof { reveal_strlit(" on "); }
    }
    push_char(&mut s, ':');
    push_char(&mut s, ' ');
    append(&mut s, msg.as_str());
    assert(s@ =~= bunyan_header(*e, colour, fmt));
    s
}

impl BunyanEntry {
    /// The record's severity.
    pub fn level(&self) -> (r: Level)
        ensures
            r == self.level,
    {
        self.level
    }

    /// Renders the record: a header line, then its extra fields that the lookup list lets
    /// through.
    pub fn emit_record(&self, colour: Colour, fmt: Format, lookups: &Vec<String>) -> (r: String)
        requires
            self.wf(),
            fmt != Format::Bare,
        ensures
            r@ == bunyan_text(*self, colour, fmt, lookups@),
    {
        let mut s = bunyan_header_text(self, colour, fmt);
        push_char(&mut s, '\n');
        push_dump(&mut s, &self.extra, "    ", colour, lookups);
        proof { reveal_strlit("    "); }
        assert("    "@ =~= indent());
        assert(s@ =~= bunyan_text(*self, colour, fmt, lookups@));
        s
    }
}

fn tracing_header_text(e: &TracingEntry, colour: Colour, fmt: Format) -> (r: String)
    requires
        e.timestamp.wf(),
    ensures
        r@ == tracing_header(*e, colour, fmt),
{
    let l = level(Level::from(e.level), colour);
    let n = bold(e.target.as_str(), colour);
    let msg = indent_message(e.fields.message.as_str());
    let mut s = if matches!(fmt, Format::Long) {
        e.timestamp.date_time()
    } else {
        e.timestamp.clock()
    };
    push_char(&mut s, ' ');
    append(&mut s, l.as_str());
    push_char(&mut s, ' ');
    append(&mut s, n.as_str());
    push_char(&mut s, ':');
    push_char(&mut s, ' ');
    append(&mut s, msg.as_str());
    assert(s@ =~= tracing_header(*e, colour, fmt));
    s
}

impl TracingEntry {
    /// The record's severity.
    pub fn level(&self) -> (r: Level)
        ensures
            r == self.level.as_level(),
    {
        Level::from(self.level)
    }

    /// Renders the record: a header line, its event fields, then each span's fields, all as
    /// far as the lookup list lets them through.
    pub fn emit_record(&self, colour: Colour, fmt: Format, lookups: &Vec<String>) -> (r: String)
        requires
            self.wf(),
            fmt != Format::Bare,
        ensures
            r@ == tracing_text(*self, colour, fmt, lookups@),
    {
        let mut s = tracing_header_text(self, colour, fmt);
        push_char(&mut s, '\n');
        push_dump(&mut s, &self.fields.values, "    ", colour, lookups);
        proof { reveal_strlit("    "); }
        assert("    "@ =~= indent());
        match &self.spans {
            Some(ss) => push_spans(&mut s, ss, colour, lookups),
            None => {},
        }
        assert(s@ =~= tracing_text(*self, colour, fmt, lookups@));
        s
    }
}

/// The bare line of a record's members: each looked-up field shown, `-` where absent.
pub fn emit_bare(ms: &Vec<Member>, lookups: &Vec<String>) -> (r: String)
    ensures
        r@ == bare_text(ms@, lookups@),
{
    let ghost parts = bare_parts(ms@, lookups@);
    let mut out = String::new();
    let mut i: usize = 0;
    while i < lookups.len()
        invariant
            i <= lookups.len(),
            parts == bare_parts(ms@, lookups@),
            out@ == joined(parts.subrange(0, i as int), seq![' ']),
        decreases lookups.len() - i,
    {
        let part = match find(ms, lookups[i].as_str()) {
            Some(v) => show(v, false),
            None => {
                let mut d = String::new();
                push_char(&mut d, '-');
                assert(d@ =~= seq!['-']);
                d
            },
        };
        assert(part@ == parts[i as int]);
        if i > 0 {
            push_char(&mut out, ' ');
        }
        append(&mut out, part.as_str());
        assert(parts.subrange(0, i + 1).drop_last() =~= parts.subrange(0, i as int));
        i = i + 1;
    }
    assert(parts.subrange(0, lookups.len() as int) =~= parts);
    push_char(&mut out, '\n');
    out
}

} // verus!
