//! One input line in, at most one block of output text out; and the run's configuration.
use crate::entry::{
    classified, classify, i64_of, structured_fits, time_of, Decision, Entry, SUPPORTED_VERSION,
};
use crate::filter::{
    meets_minimum, passes_level, predicate_verdict, verdict_of, Filter, FilterError, ScriptOutcome,
};
use crate::json::{lookup, parse_document, parsed_json, Document, Json};
use crate::level::Level;
use crate::render::{bare_text, emit_bare, record_text};
use crate::style::{Colour, Format};
use crate::text::{append, push_char};
use vstd::prelude::*;

verus! {

/// The run's settings, fixed at startup.
#[derive(Debug)]
pub struct Config {
    /// Records below this level are left out.
    pub minimum: Option<Level>,
    pub format: Format,
    pub colour: Colour,
    /// The fields to show; empty shows all of them (but in the bare layout).
    pub lookups: Vec<String>,
}

pub open spec fn view_opt(o: Option<String>) -> Option<Seq<char>> {
    match o {
        Some(s) => Some(s@),
        None => None,
    }
}

/// A line that is not a record: printed as it came, unless the bare layout or a predicate is
/// in use.
pub open spec fn soft_output(line: Seq<char>, cfg: Config, filtering: bool) -> Option<Seq<char>> {
    if cfg.format == Format::Bare || filtering {
        None
    } else {
        Some(line + seq!['\n'])
    }
}

/// What a record that passed both filters prints.
pub open spec fn accepted_output(e: Entry, tree: Json, cfg: Config) -> Seq<char> {
    if cfg.format == Format::Bare {
        bare_text(tree->Object_0@, cfg.lookups@)
    } else {
        record_text(e, cfg.colour, cfg.format, cfg.lookups@)
    }
}

/// The result for a line that parsed to `tree` and was classified as `d`; `untouched` tells
/// that the predicate was left as it was, never run. The predicate runs only for a record that
/// meets the minimum level, and its verdict is open: the run may stop, or the record may be
/// left out, or printed.
pub open spec fn decided_output(
    r: Result<Option<String>, FilterError>,
    d: Decision,
    tree: Json,
    line: Seq<char>,
    cfg: Config,
    filtering: bool,
    untouched: bool,
) -> bool {
    match d {
        Decision::Accepted(e) => if !passes_level(e.level_spec(), cfg.minimum) {
            r matches Ok(None) && untouched
        } else if !filtering {
            r matches Ok(Some(t)) && t@ == accepted_output(e, tree, cfg)
        } else {
            r is Err || r matches Ok(None) || (r matches Ok(Some(t)) && t@ == accepted_output(
                e,
                tree,
                cfg,
            ))
        },
        _ => r matches Ok(o) && view_opt(o) == soft_output(line, cfg, filtering) && untouched,
    }
}

/// What processing one line yields; `untouched` tells that the predicate was never run.
pub open spec fn line_outcome(
    r: Result<Option<String>, FilterError>,
    line: Seq<char>,
    cfg: Config,
    filtering: bool,
    untouched: bool,
) -> bool {
    match parsed_json(line) {
        None => r matches Ok(o) && view_opt(o) == soft_output(line, cfg, filtering) && untouched,
        Some(tree) => exists|d: Decision|
            #[trigger] classified(d, tree) && decided_output(
                r,
                d,
                tree,
                line,
                cfg,
                filtering,
                untouched,
            ),
    }
}

/// What an accepted record prints once the predicate, if any, let it through: the bare line
/// handed over, or the rendered record.
pub open spec fn shown_record(e: Entry, bare: Option<String>, cfg: Config) -> Option<Seq<char>> {
    if cfg.format == Format::Bare {
        view_opt(bare)
    } else {
        Some(record_text(e, cfg.colour, cfg.format, cfg.lookups@))
    }
}

/// The result for an accepted record that met the minimum level, for each predicate outcome.
pub open spec fn emitted(
    r: Result<Option<String>, FilterError>,
    e: Entry,
    bare: Option<String>,
    cfg: Config,
    outcome: Option<ScriptOutcome>,
) -> bool {
    let shown = r matches Ok(o) && view_opt(o) == shown_record(e, bare, cfg);
    match outcome {
        None => shown,
        Some(o) => match verdict_of(o) {
            Ok(true) => shown,
            Ok(false) => r matches Ok(None),
            Err(x) => r == Err::<Option<String>, FilterError>(x),
        },
    }
}

/// Prints an accepted record, given what the predicate returned for it (`None` without one).
pub fn emit_accepted(
    e: &Entry,
    bare: Option<String>,
    config: &Config,
    outcome: Option<ScriptOutcome>,
) -> (r: Result<Option<String>, FilterError>)
    requires
        e.wf(),
    ensures
        emitted(r, *e, bare, *config, outcome),
{
    match outcome {
        Some(o) => match predicate_verdict(o) {
            Err(x) => return Err(x),
            Ok(false) => return Ok(None),
            Ok(true) => {},
        },
        None => {},
    }
    if matches!(config.format, Format::Bare) {
        Ok(bare)
    } else {
        Ok(Some(e.emit_record(config.colour, config.format, &config.lookups)))
    }
}

fn soft(line: &str, config: &Config, filtering: bool) -> (r: Option<String>)
    ensures
        view_opt(r) == soft_output(line@, *config, filtering),
{
    if matches!(config.format, Format::Bare) || filtering {
        None
    } else {
        let mut s = String::new();
        append(&mut s, line);
        push_char(&mut s, '\n');
        assert(s@ =~= line@ + seq!['\n']);
        Some(s)
    }
}

/// Classifies, filters and renders one line. `Ok(None)` means that nothing is printed for it;
/// an error stops the run.
pub fn process_line(line: &str, config: &Config, filter: &mut Option<Filter>) -> (r: Result<
    Option<String>,
    FilterError,
>)
    requires
        config.format == Format::Bare ==> config.lookups@.len() > 0,
    ensures
        line_outcome(r, line@, *config, (*old(filter)) is Some, *final(filter) == *old(filter)),
{
    let filtering = filter.is_some();
    let doc = match parse_document(line) {
        None => return Ok(soft(line, config, filtering)),
        Some(d) => d,
    };
    let Document { raw, tree } = doc;
    let ghost t = tree;
    let bare = if matches!(config.format, Format::Bare) {
        match &tree {
            Json::Object(ms) => Some(emit_bare(ms, &config.lookups)),
            _ => None,
        }
    } else {
        None
    };
    let d = classify(tree);
    let ghost dd = d;
    assert(classified(dd, t));
    match d {
        Decision::Accepted(e) => {
            if !meets_minimum(e.level(), config.minimum) {
                return Ok(None);
            }
            let outcome = match filter {
                Some(f) => Some(f.evaluate(&raw)),
                None => None,
            };
            emit_accepted(&e, bare, config, outcome)
        },
        _ => Ok(soft(line, config, filtering)),
    }
}

/// A structured record of another major version than the supported one, without the bare
/// layout or a predicate, is printed exactly as the line it came on.
pub proof fn lemma_other_version_passes_through(
    line: Seq<char>,
    cfg: Config,
    r: Result<Option<String>, FilterError>,
    untouched: bool,
)
    requires
        line_outcome(r, line, cfg, false, untouched),
        cfg.format != Format::Bare,
        parsed_json(line) matches Some(Json::Object(ms)) && structured_fits(
            ms@,
            time_of(ms@, "time"@),
        ) && i64_of(lookup(ms@, "v"@))->0 != SUPPORTED_VERSION,
    ensures
        r matches Ok(Some(t)) && t@ == line + seq!['\n'],
{
    let tree = parsed_json(line)->0;
    let d = choose|d: Decision| #[trigger]
        classified(d, tree) && decided_output(r, d, tree, line, cfg, false, untouched);
    assert(d is UnsupportedVersion);
}

/// A line that is not JSON is printed as it came by default, and left out under the bare
/// layout or with a predicate; the predicate is never run for it.
pub proof fn lemma_unparsable_line(
    line: Seq<char>,
    cfg: Config,
    filtering: bool,
    r: Result<Option<String>, FilterError>,
    untouched: bool,
)
    requires
        parsed_json(line) is None,
        line_outcome(r, line, cfg, filtering, untouched),
    ensures
        cfg.format != Format::Bare && !filtering ==> (r matches Ok(Some(t)) && t@ == line + seq![
            '\n',
        ]),
        cfg.format == Format::Bare || filtering ==> r matches Ok(None),
        untouched,
{
}

/// Classification fixes whether a parsed line is an accepted record, and if so its level: the
/// outcome that `line_outcome` states holds for whichever classification is taken.
pub proof fn lemma_classification_fixes_level(d1: Decision, d2: Decision, tree: Json)
    requires
        classified(d1, tree),
        classified(d2, tree),
    ensures
        d1 is Accepted <==> d2 is Accepted,
        d1 matches Decision::Accepted(e1) ==> d2 matches Decision::Accepted(e2)
            && e1.level_spec() == e2.level_spec(),
{
}

/// Under a minimum level, a record below it prints nothing and the predicate is not run for
/// it; one at or above it is rendered when no predicate is in use.
pub proof fn lemma_minimum_level(
    r: Result<Option<String>, FilterError>,
    e: Entry,
    tree: Json,
    line: Seq<char>,
    cfg: Config,
    filtering: bool,
    untouched: bool,
)
    requires
        decided_output(r, Decision::Accepted(e), tree, line, cfg, filtering, untouched),
        cfg.minimum is Some,
    ensures
        e.level_spec().below(cfg.minimum->0) ==> (r matches Ok(None) && untouched),
        !e.level_spec().below(cfg.minimum->0) && !filtering ==> (r matches Ok(Some(t)) && t@
            == accepted_output(e, tree, cfg)),
{
}

} // verus!
