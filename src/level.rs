//! Severity levels: codes, mnemonics, parsing and ordering.
use crate::text::{lower_text, nat_text, same_text, to_ascii_lower, trim_text, trimmed};
use vstd::prelude::*;

verus! {

/// A severity, ordered by its numeric code.
#[derive(Clone, Copy, Debug, PartialEq, Eq, Structural)]
pub enum Level {
    Fatal,
    Error,
    Warn,
    Info,
    Debug,
    Trace,
}

/// The severity names of the span-tracing schema.
#[derive(Clone, Copy, Debug, PartialEq, Eq, Structural)]
pub enum TracingLevel {
    Debug,
    Error,
    Info,
    Warn,
    Trace,
}

/// A level text that is neither a code, a name nor a mnemonic.
#[derive(Clone, Debug)]
pub struct UnknownLevel {
    /// The text after trimming and lowering.
    pub text: String,
}

impl Level {
    pub open spec fn code_of(self) -> nat {
        match self {
            Level::Fatal => 60,
            Level::Error => 50,
            Level::Warn => 40,
            Level::Info => 30,
            Level::Debug => 20,
            Level::Trace => 10,
        }
    }

    /// The four-column mnemonic.
    pub open spec fn mnemonic(self) -> Seq<char> {
        match self {
            Level::Fatal => "FATA"@,
            Level::Error => "ERRO"@,
            Level::Warn => "WARN"@,
            Level::Info => "INFO"@,
            Level::Debug => "DEBG"@,
            Level::Trace => "TRAC"@,
        }
    }

    /// The level that a trimmed, lower-cased text names, if any.
    pub open spec fn named(t: Seq<char>) -> Option<Level> {
        if t == "60"@ || t == "fatal"@ || t == "fata"@ {
            Some(Level::Fatal)
        } else if t == "50"@ || t == "error"@ || t == "erro"@ {
            Some(Level::Error)
        } else if t == "40"@ || t == "warn"@ {
            Some(Level::Warn)
        } else if t == "30"@ || t == "info"@ {
            Some(Level::Info)
        } else if t == "20"@ || t == "debug"@ || t == "debg"@ {
            Some(Level::Debug)
        } else if t == "10"@ || t == "trace"@ || t == "trac"@ {
            Some(Level::Trace)
        } else {
            None
        }
    }

    /// What `parse` makes of a text: ignoring surrounding whitespace and ASCII case.
    pub open spec fn parsed(s: Seq<char>) -> Option<Level> {
        Level::named(lower_text(trimmed(s)))
    }

    pub open spec fn below(self, other: Level) -> bool {
        self.code_of() < other.code_of()
    }

    /// The numeric code.
    pub fn code(&self) -> (r: u8)
        ensures
            r as nat == self.code_of(),
    {
        match self {
            Level::Fatal => 60,
            Level::Error => 50,
            Level::Warn => 40,
            Level::Info => 30,
            Level::Debug => 20,
            Level::Trace => 10,
        }
    }

    /// The level whose code is `n`, if any.
    pub open spec fn with_code(n: nat) -> Option<Level> {
        if n == 60 {
            Some(Level::Fatal)
        } else if n == 50 {
            Some(Level::Error)
        } else if n == 40 {
            Some(Level::Warn)
        } else if n == 30 {
            Some(Level::Info)
        } else if n == 20 {
            Some(Level::Debug)
        } else if n == 10 {
            Some(Level::Trace)
        } else {
            None
        }
    }

    /// The level whose code is `n`, if any.
    pub fn from_code(n: u64) -> (r: Option<Level>)
        ensures
            r == Level::with_code(n as nat),
            r matches Some(l) ==> l.code_of() == n,
    {
        if n == 60 {
            Some(Level::Fatal)
        } else if n == 50 {
            Some(Level::Error)
        } else if n == 40 {
            Some(Level::Warn)
        } else if n == 30 {
            Some(Level::Info)
        } else if n == 20 {
            Some(Level::Debug)
        } else if n == 10 {
            Some(Level::Trace)
        } else {
            None
        }
    }

    /// Whether this level ranks strictly below `other`.
    pub fn is_below(&self, other: &Level) -> (r: bool)
        ensures
            r == self.below(*other),
    {
        self.code() < other.code()
    }

    /// The four-column mnemonic, as shown in rendered records.
    pub fn render(&self) -> (r: &'static str)
        ensures
            r@ == self.mnemonic(),
    {
        match self {
            Level::Fatal => "FATA",
            Level::Error => "ERRO",
            Level::Warn => "WARN",
            Level::Info => "INFO",
            Level::Debug => "DEBG",
            Level::Trace => "TRAC",
        }
    }

    /// The level named by a trimmed, lower-cased text.
    pub fn from_name(t: &str) -> (r: Option<Level>)
        ensures
            r == Level::named(t@),
    {
        if same_text(t, "60") || same_text(t, "fatal") || same_text(t, "fata") {
            Some(Level::Fatal)
        } else if same_text(t, "50") || same_text(t, "error") || same_text(t, "erro") {
            Some(Level::Error)
        } else if same_text(t, "40") || same_text(t, "warn") {
            Some(Level::Warn)
        } else if same_text(t, "30") || same_text(t, "info") {
            Some(Level::Info)
        } else if same_text(t, "20") || same_text(t, "debug") || same_text(t, "debg") {
            Some(Level::Debug)
        } else if same_text(t, "10") || same_text(t, "trace") || same_text(t, "trac") {
            Some(Level::Trace)
        } else {
            None
        }
    }

    /// Parses a numeric code, a full name or a four-column mnemonic, ignoring ASCII case and
    /// surrounding whitespace.
    pub fn parse(s: &str) -> (r: Result<Level, UnknownLevel>)
        ensures
            r matches Ok(l) ==> Level::parsed(s@) == Some(l),
            r matches Err(e) ==> Level::parsed(s@) is None && e.text@ == lower_text(trimmed(s@)),
    {
        let t = trim_text(s);
        let lower = to_ascii_lower(t.as_str());
        match Level::from_name(lower.as_str()) {
            Some(l) => Ok(l),
            None => Err(UnknownLevel { text: lower }),
        }
    }
}

impl TracingLevel {
    /// The tracing level spelled exactly by `t`.
    pub open spec fn spelled(t: Seq<char>) -> Option<TracingLevel> {
        if t == "DEBUG"@ {
            Some(TracingLevel::Debug)
        } else if t == "ERROR"@ {
            Some(TracingLevel::Error)
        } else if t == "INFO"@ {
            Some(TracingLevel::Info)
        } else if t == "WARN"@ {
            Some(TracingLevel::Warn)
        } else if t == "TRACE"@ {
            Some(TracingLevel::Trace)
        } else {
            None
        }
    }

    pub open spec fn as_level(self) -> Level {
        match self {
            TracingLevel::Debug => Level::Debug,
            TracingLevel::Error => Level::Error,
            TracingLevel::Info => Level::Info,
            TracingLevel::Warn => Level::Warn,
            TracingLevel::Trace => Level::Trace,
        }
    }

    /// The tracing level spelled exactly (upper case) by `t`.
    pub fn from_spelling(t: &str) -> (r: Option<TracingLevel>)
        ensures
            r == TracingLevel::spelled(t@),
    {
        if same_text(t, "DEBUG") {
            Some(TracingLevel::Debug)
        } else if same_text(t, "ERROR") {
            Some(TracingLevel::Error)
        } else if same_text(t, "INFO") {
            Some(TracingLevel::Info)
        } else if same_text(t, "WARN") {
            Some(TracingLevel::Warn)
        } else if same_text(t, "TRACE") {
            Some(TracingLevel::Trace)
        } else {
            None
        }
    }
}

impl From<TracingLevel> for Level {
    fn from(value: TracingLevel) -> (r: Level)
        ensures
            r == value.as_level(),
    {
        match value {
            TracingLevel::Debug => Level::Debug,
            TracingLevel::Error => Level::Error,
            TracingLevel::Info => Level::Info,
            TracingLevel::Warn => Level::Warn,
            TracingLevel::Trace => Level::Trace,
        }
    }
}

impl vstd::std_specs::convert::FromSpecImpl<TracingLevel> for Level {
    open spec fn obeys_from_spec() -> bool {
        true
    }

    open spec fn from_spec(v: TracingLevel) -> Level {
        v.as_level()
    }
}

impl core::str::FromStr for Level {
    type Err = UnknownLevel;

    fn from_str(s: &str) -> (r: Result<Level, UnknownLevel>)
        ensures
            r matches Ok(l) ==> Level::parsed(s@) == Some(l),
            r matches Err(e) ==> Level::parsed(s@) is None && e.text@ == lower_text(trimmed(s@)),
    {
        Level::parse(s)
    }
}

/// Rendering a level's mnemonic and parsing it back gives the level; so does its code.
pub proof fn lemma_level_text_round_trip(l: Level)
    ensures
        Level::parsed(l.mnemonic()) == Some(l),
        Level::parsed(nat_text(l.code_of())) == Some(l),
{
    reveal_strlit("FATA");
    reveal_strlit("ERRO");
    reveal_strlit("WARN");
    reveal_strlit("INFO");
    reveal_strlit("DEBG");
    reveal_strlit("TRAC");
    reveal_strlit("fata");
    reveal_strlit("erro");
    reveal_strlit("warn");
    reveal_strlit("info");
    reveal_strlit("debg");
    reveal_strlit("trac");
    reveal_strlit("60");
    reveal_strlit("50");
    reveal_strlit("40");
    reveal_strlit("30");
    reveal_strlit("20");
    reveal_strlit("10");
    reveal_strlit("fatal");
    reveal_strlit("error");
    reveal_strlit("debug");
    reveal_strlit("trace");
    let m = l.mnemonic();
    let c = nat_text(l.code_of());
    let tens = nat_text(l.code_of() / 10);
    assert(tens == seq![crate::text::digit(l.code_of() / 10)]);
    assert(c == tens.push('0'));
    assert(c =~= match l {
        Level::Fatal => "60"@,
        Level::Error => "50"@,
        Level::Warn => "40"@,
        Level::Info => "30"@,
        Level::Debug => "20"@,
        Level::Trace => "10"@,
    });
    crate::text::lemma_trim_solid(m);
    crate::text::lemma_trim_solid(c);
    assert(lower_text(m) =~= match l {
        Level::Fatal => "fata"@,
        Level::Error => "erro"@,
        Level::Warn => "warn"@,
        Level::Info => "info"@,
        Level::Debug => "debg"@,
        Level::Trace => "trac"@,
    });
    assert(lower_text(c) =~= c);
    assert("fata"@[0] == 'f' && "erro"@[0] == 'e' && "warn"@[0] == 'w' && "info"@[0] == 'i');
    assert("debg"@[0] == 'd' && "trac"@[0] == 't');
    assert("60"@[0] == '6' && "50"@[0] == '5' && "40"@[0] == '4' && "30"@[0] == '3');
    assert("20"@[0] == '2' && "10"@[0] == '1');
    assert(lower_text(m)[0] == match l {
        Level::Fatal => 'f',
        Level::Error => 'e',
        Level::Warn => 'w',
        Level::Info => 'i',
        Level::Debug => 'd',
        Level::Trace => 't',
    });
}

/// Levels are totally ordered by code: Trace, Debug, Info, Warn, Error, Fatal, and
/// `is_below` agrees with that order.
pub proof fn lemma_level_order(a: Level, b: Level)
    ensures
        Level::Trace.below(Level::Debug),
        Level::Debug.below(Level::Info),
        Level::Info.below(Level::Warn),
        Level::Warn.below(Level::Error),
        Level::Error.below(Level::Fatal),
        a.below(b) || b.below(a) || a == b,
        !(a.below(b) && b.below(a)),
        !a.below(a),
{
}

} // verus!
