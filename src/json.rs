//! A plain model of JSON values, how they are parsed, looked up and shown.
use crate::style::decimal;
use crate::text::{append, digit, nat_text, push_char};
use vstd::prelude::*;
use vstd::string::StrSliceExecFns;

verus! {

/// A JSON number as the parser classified it.
#[derive(Debug)]
pub enum Numeral {
    /// A non-negative integer.
    PosInt(u64),
    /// A negative integer.
    NegInt(i64),
    /// Any other number, held as the parser's own decimal text.
    Float(String),
}

/// A JSON value. Object members keep the parser's order.
#[derive(Debug)]
pub enum Json {
    Null,
    Bool(bool),
    Num(Numeral),
    Str(String),
    Array(Vec<Json>),
    Object(Vec<Member>),
}

/// One member of a JSON object.
#[derive(Debug)]
pub struct Member {
    pub key: String,
    pub value: Json,
}

#[verifier::external_type_specification]
#[verifier::external_body]
pub struct ExValue(serde_json::Value);

#[verifier::external_type_specification]
#[verifier::external_body]
pub struct ExNumber(serde_json::Number);

/// A parsed line: the parser's value, handed to the predicate engine, and its plain model.
#[derive(Debug)]
pub struct Document {
    pub raw: serde_json::Value,
    pub tree: Json,
}

/// The value that the JSON parser makes of a text, if the text is JSON.
pub uninterp spec fn parsed_json(text: Seq<char>) -> Option<Json>;

/// Strict lexicographic order on texts, by code point.
pub open spec fn text_lt(a: Seq<char>, b: Seq<char>) -> bool
    decreases a.len(),
{
    if a.len() == 0 {
        b.len() > 0
    } else if b.len() == 0 {
        false
    } else if a[0] != b[0] {
        (a[0] as u32) < (b[0] as u32)
    } else {
        text_lt(a.drop_first(), b.drop_first())
    }
}

/// Object keys strictly ascending.
pub open spec fn keys_sorted(ms: Seq<Member>) -> bool {
    forall|i: int, j: int| 0 <= i < j < ms.len() ==> text_lt(#[trigger] ms[i].key@, #[trigger] ms[j].key@)
}

/// Every object inside `v`, `v` included, has its keys in ascending order.
pub open spec fn sorted_deep(v: Json) -> bool
    decreases v,
{
    match v {
        Json::Array(a) => elements_sorted(a),
        Json::Object(ms) => keys_sorted(ms@) && members_sorted(ms),
        _ => true,
    }
}

pub open spec fn elements_sorted(a: Vec<Json>) -> bool
    decreases a,
{
    forall|i: int| 0 <= i < a.len() ==> sorted_deep(#[trigger] a[i])
}

pub open spec fn members_sorted(ms: Vec<Member>) -> bool
    decreases ms,
{
    forall|i: int| 0 <= i < ms.len() ==> sorted_deep(#[trigger] ms[i].value)
}

/// The first member named `k`, searching from the front.
pub open spec fn lookup(ms: Seq<Member>, k: Seq<char>) -> Option<Json>
    decreases ms.len(),
{
    if ms.len() == 0 {
        None
    } else {
        let before = lookup(ms.drop_last(), k);
        if before is Some {
            before
        } else if ms.last().key@ == k {
            Some(ms.last().value)
        } else {
            None
        }
    }
}

/// Relies on `serde_json::from_str` into `serde_json::Value`: whether a text is JSON, and which
/// value it is, depends on the text alone. Objects come out with their keys in ascending
/// order, because `serde_json::Map` is a `BTreeMap` without the `preserve_order` feature.
#[verifier::external_body]
pub fn parse_document(line: &str) -> (r: Option<Document>)
    ensures
        r is Some <==> parsed_json(line@) is Some,
        r matches Some(d) ==> parsed_json(line@) == Some(d.tree),
        r matches Some(d) ==> sorted_deep(d.tree),
{
    let raw = serde_json::from_str::<serde_json::Value>(line).ok()?;
    Some(Document { tree: tree_of(&raw), raw })
}

/// Relies on `serde_json::Value`'s variants and on `serde_json::Map` iterating in ascending key
/// order.
#[verifier::external_body]
fn tree_of(v: &serde_json::Value) -> (r: Json)
    ensures
        sorted_deep(r),
        r matches Json::Num(Numeral::NegInt(i)) ==> i < 0,
{
    match v {
        serde_json::Value::Null => Json::Null,
        serde_json::Value::Bool(b) => Json::Bool(*b),
        serde_json::Value::Number(n) => Json::Num(number_of(n)),
        serde_json::Value::String(s) => Json::Str(s.clone()),
        serde_json::Value::Array(a) => Json::Array(a.iter().map(tree_of).collect()),
        serde_json::Value::Object(o) => Json::Object(
            o.iter().map(|(k, x)| Member { key: k.clone(), value: tree_of(x) }).collect(),
        ),
    }
}

/// Relies on `serde_json::Number::as_u64` and `as_i64`, which give a non-negative integer or else a
/// negative one, and on its `Display` for the rest.
#[verifier::external_body]
fn number_of(n: &serde_json::Number) -> (r: Numeral)
    ensures
        r matches Numeral::NegInt(i) ==> i < 0,
{
    match (n.as_u64(), n.as_i64()) {
        (Some(u), _) => Numeral::PosInt(u),
        (None, Some(i)) => Numeral::NegInt(i),
        (None, None) => Numeral::Float(n.to_string()),
    }
}

/// Lower-case hexadecimal text of `n`, without leading zeros.
pub open spec fn hex_text(n: nat) -> Seq<char>
    decreases n,
{
    if n < 16 {
        seq![hex_digit(n)]
    } else {
        hex_text(n / 16).push(hex_digit(n % 16))
    }
}

pub open spec fn hex_digit(d: nat) -> char {
    if d < 10 {
        digit(d)
    } else if d == 10 { 'a' } else if d == 11 { 'b' } else if d == 12 { 'c' }
    else if d == 13 { 'd' } else if d == 14 { 'e' } else { 'f' }
}

/// What `char::escape_default` documents.
pub open spec fn default_escape(c: char) -> Seq<char> {
    if c == '\t' {
        seq!['\\', 't']
    } else if c == '\r' {
        seq!['\\', 'r']
    } else if c == '\n' {
        seq!['\\', 'n']
    } else if c == '\'' {
        seq!['\\', '\'']
    } else if c == '"' {
        seq!['\\', '"']
    } else if c == '\\' {
        seq!['\\', '\\']
    } else if ' ' <= c && c <= '~' {
        seq![c]
    } else {
        seq!['\\', 'u', '{'] + hex_text(c as nat) + seq!['}']
    }
}

/// One character of a shown string: quotes pass through, everything else is escaped.
pub open spec fn shown_char(c: char) -> Seq<char> {
    if c == '"' || c == '\'' {
        seq![c]
    } else {
        default_escape(c)
    }
}

pub open spec fn shown_str(s: Seq<char>) -> Seq<char>
    decreases s.len(),
{
    if s.len() == 0 {
        seq![]
    } else {
        shown_str(s.drop_last()) + shown_char(s.last())
    }
}

pub open spec fn number_text(n: Numeral) -> Seq<char> {
    match n {
        Numeral::PosInt(u) => nat_text(u as nat),
        Numeral::NegInt(i) => if i < 0 {
            seq!['-'] + nat_text((-i) as nat)
        } else {
            nat_text(i as nat)
        },
        Numeral::Float(t) => t@,
    }
}

/// `parts` with `sep` between each two.
pub open spec fn joined(parts: Seq<Seq<char>>, sep: Seq<char>) -> Seq<char>
    decreases parts.len(),
{
    if parts.len() == 0 {
        seq![]
    } else if parts.len() == 1 {
        parts[0]
    } else {
        joined(parts.drop_last(), sep) + sep + parts.last()
    }
}

pub open spec fn quoted(s: Seq<char>) -> Seq<char> {
    seq!['"'] + shown_str(s) + seq!['"']
}

/// How a value is shown: scalars plainly (strings unquoted at the top, quoted inside a
/// composite), arrays and objects as bracketed lists of their shown elements.
pub open spec fn shown(v: Json, nested: bool) -> Seq<char>
    decreases v,
{
    match v {
        Json::Null => seq!['n', 'u', 'l', 'l'],
        Json::Bool(b) => if b {
            seq!['t', 'r', 'u', 'e']
        } else {
            seq!['f', 'a', 'l', 's', 'e']
        },
        Json::Num(n) => number_text(n),
        Json::Str(s) => if nested {
            quoted(s@)
        } else {
            shown_str(s@)
        },
        Json::Array(a) => seq!['['] + joined(element_texts(a), seq![',', ' ']) + seq![']'],
        Json::Object(ms) => seq!['{'] + joined(member_texts(ms), seq![',', ' ']) + seq!['}'],
    }
}

/// The shown elements of an array.
pub open spec fn element_texts(a: Vec<Json>) -> Seq<Seq<char>>
    decreases a,
{
    Seq::new(a.len() as nat, |i: int| if 0 <= i < a.len() { shown(a[i], true) } else { seq![] })
}

/// The shown members of an object, each as `"key": value`.
pub open spec fn member_texts(ms: Vec<Member>) -> Seq<Seq<char>>
    decreases ms,
{
    Seq::new(
        ms.len() as nat,
        |i: int|
            if 0 <= i < ms.len() {
                quoted(ms[i].key@) + seq![':', ' '] + shown(ms[i].value, true)
            } else {
                seq![]
            },
    )
}

/// Relies on `char::escape_default`, whose documented rules `default_escape` states.
#[verifier::external_body]
fn escape_char(c: char) -> (r: String)
    ensures
        r@ == default_escape(c),
{
    c.escape_default().to_string()
}

/// Shows a string: every character escaped the default way, but quotes kept as they are.
pub fn show_str(s: &str) -> (r: String)
    ensures
        r@ == shown_str(s@),
{
    let n = s.unicode_len();
    let mut out = String::new();
    let mut i: usize = 0;
    while i < n
        invariant
            n == s@.len(),
            i <= n,
            out@ == shown_str(s@.subrange(0, i as int)),
        decreases n - i,
    {
        let c = s.get_char(i);
        if c != '"' && c != '\'' {
            let e = escape_char(c);
            append(&mut out, e.as_str());
        } else {
            push_char(&mut out, c);
        }
        assert(s@.subrange(0, i + 1).drop_last() =~= s@.subrange(0, i as int));
        i = i + 1;
    }
    assert(s@.subrange(0, n as int) =~= s@);
    out
}

fn show_number(n: &Numeral) -> (r: String)
    ensures
        r@ == number_text(*n),
{
    match n {
        Numeral::PosInt(u) => decimal(*u),
        Numeral::NegInt(i) => {
            if *i < 0 {
                let mut s = String::new();
                push_char(&mut s, '-');
                let m: u64 = if *i == i64::MIN {
                    9223372036854775808u64
                } else {
                    (-*i) as u64
                };
                let d = decimal(m);
                append(&mut s, d.as_str());
                s
            } else {
                decimal(*i as u64)
            }
        },
        Numeral::Float(t) => t.clone(),
    }
}

fn push_quoted(out: &mut String, s: &str)
    ensures
        final(out)@ == old(out)@ + quoted(s@),
{
    push_char(out, '"');
    let e = show_str(s);
    append(out, e.as_str());
    push_char(out, '"');
    assert(final(out)@ =~= old(out)@ + quoted(s@));
}

/// Shows a value; `nested` tells whether it stands inside an array or object.
pub fn show(v: &Json, nested: bool) -> (r: String)
    ensures
        r@ == shown(*v, nested),
    decreases v,
{
    match v {
        Json::Null => {
            let mut s = String::new();
            append(&mut s, "null");
            proof { reveal_strlit("null"); }
            assert(s@ =~= shown(*v, nested));
            s
        },
        Json::Bool(b) => {
            let mut s = String::new();
            if *b {
                append(&mut s, "true");
                proof { reveal_strlit("true"); }
            } else {
                append(&mut s, "false");
                proof { reveal_strlit("false"); }
            }
            assert(s@ =~= shown(*v, nested));
            s
        },
        Json::Num(n) => show_number(n),
        Json::Str(t) => {
            if nested {
                let mut s = String::new();
                push_quoted(&mut s, t.as_str());
                assert(s@ =~= shown(*v, nested));
                s
            } else {
                show_str(t.as_str())
            }
        },
        Json::Array(a) => {
            let ghost parts = element_texts(*a);
            let mut body = String::new();
            let mut i: usize = 0;
            while i < a.len()
                invariant
                    *v == Json::Array(*a),
                    i <= a.len(),
                    parts.len() == a.len(),
                    forall|k: int| 0 <= k < a.len() ==> parts[k] == shown(#[trigger] a[k], true),
                    body@ == joined(parts.subrange(0, i as int), seq![',', ' ']),
                decreases a.len() - i,
            {
                proof { vstd::std_specs::vec::axiom_vec_index_decreases(*a, i as int); }
                assert(decreases_to!(*v => v->Array_0));
                assert(decreases_to!(*a => a[i as int]));
                let part = show(&a[i], true);
                if i > 0 {
                    push_char(&mut body, ',');
                    push_char(&mut body, ' ');
                }
                append(&mut body, part.as_str());
                assert(parts.subrange(0, i + 1).drop_last() =~= parts.subrange(0, i as int));
                i = i + 1;
            }
            assert(parts.subrange(0, a.len() as int) =~= parts);
            let mut s = String::new();
            push_char(&mut s, '[');
            append(&mut s, body.as_str());
            push_char(&mut s, ']');
            assert(s@ =~= shown(*v, nested));
            s
        },
        Json::Object(ms) => {
            let ghost parts = member_texts(*ms);
            let mut body = String::new();
            let mut i: usize = 0;
            while i < ms.len()
                invariant
                    *v == Json::Object(*ms),
                    i <= ms.len(),
                    parts.len() == ms.len(),
                    forall|k: int|
                        0 <= k < ms.len() ==> parts[k] == quoted((#[trigger] ms[k]).key@) + seq![':', ' ']
                            + shown(ms[k].value, true),
                    body@ == joined(parts.subrange(0, i as int), seq![',', ' ']),
                decreases ms.len() - i,
            {
                proof { vstd::std_specs::vec::axiom_vec_index_decreases(*ms, i as int); }
                assert(decreases_to!(*v => v->Object_0));
                assert(decreases_to!(*ms => ms[i as int]));
                assert(decreases_to!(ms[i as int] => ms[i as int].value));
                let mut part = String::new();
                push_quoted(&mut part, ms[i].key.as_str());
                push_char(&mut part, ':');
                push_char(&mut part, ' ');
                let inner = show(&ms[i].value, true);
                append(&mut part, inner.as_str());
                assert(part@ =~= parts[i as int]);
                if i > 0 {
                    push_char(&mut body, ',');
                    push_char(&mut body, ' ');
                }
                append(&mut body, part.as_str());
                assert(parts.subrange(0, i + 1).drop_last() =~= parts.subrange(0, i as int));
                i = i + 1;
            }
            assert(parts.subrange(0, ms.len() as int) =~= parts);
            let mut s = String::new();
            push_char(&mut s, '{');
            append(&mut s, body.as_str());
            push_char(&mut s, '}');
            assert(s@ =~= shown(*v, nested));
            s
        },
    }
}

/// The first member of `ms` named `k`.
pub fn find<'a>(ms: &'a Vec<Member>, k: &str) -> (r: Option<&'a Json>)
    ensures
        r matches Some(v) ==> lookup(ms@, k@) == Some(*v),
        r is None ==> lookup(ms@, k@) is None,
{
    let mut i: usize = 0;
    while i < ms.len()
        invariant
            i <= ms.len(),
            lookup(ms@.subrange(0, i as int), k@) is None,
        decreases ms.len() - i,
    {
        assert(ms@.subrange(0, i + 1).drop_last() =~= ms@.subrange(0, i as int));
        if crate::text::same_text(ms[i].key.as_str(), k) {
            proof { lemma_lookup_prefix(ms@, k@, i as int); }
            return Some(&ms[i].value);
        }
        i = i + 1;
    }
    assert(ms@.subrange(0, ms.len() as int) =~= ms@);
    None
}

/// A member that is looked up is one of the members.
pub proof fn lemma_lookup_member(ms: Seq<Member>, k: Seq<char>)
    requires
        lookup(ms, k) is Some,
    ensures
        exists|i: int| 0 <= i < ms.len() && #[trigger] ms[i].value == lookup(ms, k)->0,
    decreases ms.len(),
{
    if lookup(ms.drop_last(), k) is Some {
        lemma_lookup_member(ms.drop_last(), k);
        let i = choose|i: int| 0 <= i < ms.drop_last().len() && #[trigger] ms.drop_last()[i].value
            == lookup(ms.drop_last(), k)->0;
        assert(ms[i] == ms.drop_last()[i]);
    } else {
        assert(ms[ms.len() - 1].value == lookup(ms, k)->0);
    }
}

/// Once a prefix holds the key, the whole sequence looks it up there.
pub proof fn lemma_lookup_prefix(ms: Seq<Member>, k: Seq<char>, i: int)
    requires
        0 <= i < ms.len(),
        lookup(ms.subrange(0, i), k) is None,
        ms[i].key@ == k,
    ensures
        lookup(ms, k) == Some(ms[i].value),
    decreases ms.len() - i,
{
    if i + 1 == ms.len() {
        assert(ms.drop_last() =~= ms.subrange(0, i));
    } else {
        assert(ms.subrange(0, i + 1).drop_last() =~= ms.subrange(0, i));
        lemma_lookup_extend(ms, k, i + 1);
    }
}

/// A key found in a prefix is found there in every longer prefix.
pub proof fn lemma_lookup_extend(ms: Seq<Member>, k: Seq<char>, j: int)
    requires
        0 < j <= ms.len(),
        lookup(ms.subrange(0, j), k) is Some,
    ensures
        lookup(ms, k) == lookup(ms.subrange(0, j), k),
    decreases ms.len() - j,
{
    if j < ms.len() {
        assert(ms.subrange(0, j + 1).drop_last() =~= ms.subrange(0, j));
        lemma_lookup_extend(ms, k, j + 1);
    } else {
        assert(ms.subrange(0, j) =~= ms);
    }
}

} // verus!
