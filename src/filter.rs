//! The two filter stages: a minimum level, and a predicate script over the record.
use crate::level::Level;
use vstd::prelude::*;

verus! {

#[verifier::external_type_specification]
#[verifier::external_body]
pub struct ExEngine(rhai::Engine);

#[verifier::external_type_specification]
#[verifier::external_body]
pub struct ExAst(rhai::AST);

#[verifier::external_type_specification]
#[verifier::external_body]
pub struct ExScope<'a>(rhai::Scope<'a>);

#[verifier::external_type_specification]
#[verifier::external_body]
pub struct ExDynamic(rhai::Dynamic);

/// A compiled predicate script, with the scope that holds the record under the name `r`.
pub struct Filter {
    engine: rhai::Engine,
    ast: rhai::AST,
    scope: rhai::Scope<'static>,
}

/// What `as_int` in a predicate script reads of its argument.
#[derive(Debug)]
pub enum ScriptValue {
    Unit,
    Int(i64),
    Text(String),
    Other,
}

/// What a predicate script returned for one record.
#[derive(Debug)]
pub enum ScriptOutcome {
    Bool(bool),
    /// No value, as an optional chain over a missing field gives.
    Unit,
    /// A value of another type, as text.
    Other(String),
    /// The script failed while running, with the engine's message.
    Failed(String),
}

/// Why a run stops while filtering.
#[derive(Debug)]
pub enum FilterError {
    /// The script returned neither a boolean nor no value.
    WrongType(String),
    /// The script failed.
    Script(String),
}

/// Decimal digits only, at least one.
pub open spec fn all_digits(s: Seq<char>) -> bool {
    s.len() > 0 && forall|i: int| 0 <= i < s.len() ==> '0' <= #[trigger] s[i] && s[i] <= '9'
}

pub open spec fn digits_value(s: Seq<char>) -> int
    decreases s.len(),
{
    if s.len() == 0 {
        0
    } else {
        digits_value(s.drop_last()) * 10 + ((s.last() as u32) - ('0' as u32))
    }
}

/// What `i64::from_str` documents: an optional `+` or `-`, then digits, in range.
pub open spec fn i64_text(s: Seq<char>) -> Option<i64> {
    let neg = s.len() > 0 && s[0] == '-';
    let signed = s.len() > 0 && (s[0] == '-' || s[0] == '+');
    let body = if signed {
        s.drop_first()
    } else {
        s
    };
    let v = if neg {
        -digits_value(body)
    } else {
        digits_value(body)
    };
    if all_digits(body) && i64::MIN <= v <= i64::MAX {
        Some(v as i64)
    } else {
        None
    }
}

/// What `as_int` gives: integers as they are, decimal texts as integers, otherwise no value.
pub open spec fn as_int_of(v: ScriptValue) -> Option<i64> {
    match v {
        ScriptValue::Int(i) => Some(i),
        ScriptValue::Text(s) => i64_text(s@),
        _ => None,
    }
}

/// Relies on `i64`'s `FromStr`, documented as an optional sign followed by digits.
#[verifier::external_body]
fn parse_i64(s: &str) -> (r: Option<i64>)
    ensures
        r == i64_text(s@),
{
    s.parse::<i64>().ok()
}

/// The predicate helper `as_int`: passes integers through, parses decimal texts, and gives
/// no value for anything else.
pub fn as_int(v: ScriptValue) -> (r: Option<i64>)
    ensures
        r == as_int_of(v),
{
    match v {
        ScriptValue::Int(i) => Some(i),
        ScriptValue::Text(s) => parse_i64(s.as_str()),
        _ => None,
    }
}

/// Relies on `Dynamic::is_unit`, `Dynamic::as_int` and `Dynamic::into_string` to tell a
/// script value's type apart.
#[verifier::external_body]
fn script_value(d: rhai::Dynamic) -> ScriptValue {
    if d.is_unit() {
        ScriptValue::Unit
    } else if let Ok(i) = d.as_int() {
        ScriptValue::Int(i)
    } else if let Ok(s) = d.into_string() {
        ScriptValue::Text(s)
    } else {
        ScriptValue::Other
    }
}

/// Relies on `Dynamic::from` and `Dynamic::UNIT` to hand `as_int`'s result back to a script.
#[verifier::external_body]
fn as_int_hook(d: rhai::Dynamic) -> rhai::Dynamic {
    match as_int(script_value(d)) {
        Some(n) => rhai::Dynamic::from(n),
        None => rhai::Dynamic::UNIT,
    }
}

/// Relies on `Engine::new`, `Engine::register_fn`, `Scope::new` and
/// `Engine::compile_into_self_contained`: compiles a script with the `as_int` helper, or gives
/// the compiler's message. Whether it compiles is not a function of the text: modules that
/// the script imports are read from files while compiling.
#[verifier::external_body]
fn compile_script(source: String) -> (r: Result<Filter, String>) {
    let mut engine = rhai::Engine::new();
    engine.register_fn("as_int", as_int_hook);
    let scope = rhai::Scope::new();
    let ast = engine.compile_into_self_contained(&scope, source).map_err(|e| e.to_string())?;
    Ok(Filter { engine, ast, scope })
}

/// Relies on `serde_json::from_value` into `Dynamic`, `Scope::set_or_push`, which replaces `r`,
/// and `Engine::eval_ast_with_scope`; the result's type is told apart by `Dynamic::is_unit`
/// and `Dynamic::as_bool`.
#[verifier::external_body]
fn run_script(filter: &mut Filter, record: &serde_json::Value) -> ScriptOutcome {
    let r: rhai::Dynamic = match serde_json::from_value(record.clone()) {
        Ok(r) => r,
        Err(e) => return ScriptOutcome::Failed(e.to_string()),
    };
    filter.scope.set_or_push("r", r);
    match filter.engine.eval_ast_with_scope::<rhai::Dynamic>(&mut filter.scope, &filter.ast) {
        Err(e) => ScriptOutcome::Failed(e.to_string()),
        Ok(v) => outcome_of(v),
    }
}

/// Relies on `Dynamic::is_unit` and `Dynamic::as_bool` to tell a result's type apart, and on
/// `Dynamic`'s `Display` for any other value.
#[verifier::external_body]
fn outcome_of(v: rhai::Dynamic) -> ScriptOutcome {
    if v.is_unit() {
        ScriptOutcome::Unit
    } else {
        match v.as_bool() {
            Ok(b) => ScriptOutcome::Bool(b),
            Err(_) => ScriptOutcome::Other(v.to_string()),
        }
    }
}

impl Filter {
    /// Compiles a predicate script once for the whole run; the error is the compiler's message.
    /// Success is decided by the script engine, which may also read imported modules from disk.
    pub fn compile(source: String) -> (r: Result<Filter, String>) {
        compile_script(source)
    }

    /// Runs the predicate with `r` bound to the record, replacing the previous record.
    pub fn evaluate(&mut self, record: &serde_json::Value) -> (r: ScriptOutcome) {
        run_script(self, record)
    }
}

/// How a predicate's result decides inclusion: a boolean as it is, no value as exclusion,
/// anything else, or a failure, as an error that stops the run.
pub open spec fn verdict_of(o: ScriptOutcome) -> Result<bool, FilterError> {
    match o {
        ScriptOutcome::Bool(b) => Ok(b),
        ScriptOutcome::Unit => Ok(false),
        ScriptOutcome::Other(t) => Err(FilterError::WrongType(t)),
        ScriptOutcome::Failed(m) => Err(FilterError::Script(m)),
    }
}

/// Interprets what a predicate returned.
pub fn predicate_verdict(o: ScriptOutcome) -> (r: Result<bool, FilterError>)
    ensures
        r == verdict_of(o),
{
    match o {
        ScriptOutcome::Bool(b) => Ok(b),
        ScriptOutcome::Unit => Ok(false),
        ScriptOutcome::Other(t) => Err(FilterError::WrongType(t)),
        ScriptOutcome::Failed(m) => Err(FilterError::Script(m)),
    }
}

pub open spec fn passes_level(l: Level, minimum: Option<Level>) -> bool {
    match minimum {
        Some(m) => !l.below(m),
        None => true,
    }
}

/// Whether a level meets the configured minimum, if any.
pub fn meets_minimum(l: Level, minimum: Option<Level>) -> (r: bool)
    ensures
        r == passes_level(l, minimum),
{
    match minimum {
        Some(m) => !l.is_below(&m),
        None => true,
    }
}

} // verus!
