use looker::filter::{as_int, ScriptValue};
use looker::render::indent_message;
use looker::{classify, emit_accepted, parse_document, predicate_verdict, process_line};
use looker::{Colour, Config, Decision, Entry, Filter, FilterError, Format, Json, Level};
use looker::{ScriptOutcome, Timestamp};

const RECORD: &str = r#"{"v":0,"level":30,"name":"app","hostname":"h1","pid":42,"time":"2023-01-02T03:04:05.678Z","msg":"hello","b":2,"a":"x"}"#;

fn config(format: Format, colour: Colour, minimum: Option<Level>, lookups: &[&str]) -> Config {
    Config {
        minimum,
        format,
        colour,
        lookups: lookups.iter().map(|s| s.to_string()).collect(),
    }
}

fn run(line: &str, cfg: &Config, filter: &mut Option<Filter>) -> Option<String> {
    match process_line(line, cfg, filter) {
        Ok(o) => o,
        Err(e) => panic!("filter error {:?}", e),
    }
}

fn plain(format: Format) -> Config {
    config(format, Colour::Plain, None, &[])
}

#[test]
fn short_layout() {
    let out = run(RECORD, &plain(Format::Short), &mut None);
    assert_eq!(
        out.as_deref(),
        Some("03:04:05.678Z INFO app: hello\n    a = x\n    b = 2\n")
    );
}

#[test]
fn long_layout() {
    let out = run(RECORD, &plain(Format::Long), &mut None);
    assert_eq!(
        out.as_deref(),
        Some("2023-01-02 03:04:05.678Z INFO app/42 on h1: hello\n    a = x\n    b = 2\n")
    );
}

#[test]
fn coloured_short_layout() {
    let out = run(RECORD, &config(Format::Short, Colour::C16, None, &[]), &mut None);
    assert_eq!(
        out.as_deref(),
        Some(
            "03:04:05.678Z \x1b[1m\x1b[96mINFO\x1b[0m \x1b[1mapp\x1b[0m: hello\n    \x1b[1ma\x1b[0m = x\n    \x1b[1mb\x1b[0m = 2\n"
        )
    );
}

#[test]
fn lookups_restrict_the_field_dump() {
    let out = run(RECORD, &config(Format::Short, Colour::Plain, None, &["b", "zz"]), &mut None);
    assert_eq!(out.as_deref(), Some("03:04:05.678Z INFO app: hello\n    b = 2\n"));
}

#[test]
fn component_is_appended_when_it_differs() {
    let line = r#"{"v":0,"level":50,"name":"app","hostname":"h","pid":1,"time":"2023-01-02T03:04:05Z","msg":"m","component":"db"}"#;
    let out = run(line, &plain(Format::Short), &mut None);
    assert_eq!(out.as_deref(), Some("03:04:05.000Z ERRO app (db): m\n"));
    let same = r#"{"v":0,"level":50,"name":"app","hostname":"h","pid":1,"time":"2023-01-02T03:04:05Z","msg":"m","component":"app"}"#;
    let out = run(same, &plain(Format::Short), &mut None);
    assert_eq!(out.as_deref(), Some("03:04:05.000Z ERRO app: m\n"));
}

#[test]
fn time_is_converted_to_utc() {
    let line = r#"{"v":0,"level":20,"name":"n","hostname":"h","pid":7,"time":"2023-01-02T03:04:05.678901+01:30","msg":"m"}"#;
    let out = run(line, &plain(Format::Long), &mut None);
    assert_eq!(out.as_deref(), Some("2023-01-02 01:34:05.678Z DEBG n/7 on h: m\n"));
}

#[test]
fn other_version_passes_through_unchanged() {
    let line = r#"{"v":1,"level":30,"name":"app","hostname":"h1","pid":42,"time":"2023-01-02T03:04:05.678Z","msg":"hello"}"#;
    let out = run(line, &plain(Format::Short), &mut None);
    assert_eq!(out, Some(format!("{}\n", line)));
    assert!(matches!(
        classify(parse_document(line).unwrap().tree),
        Decision::UnsupportedVersion
    ));
}

#[test]
fn unparsable_line_passes_through_or_is_dropped() {
    let line = "plain text, not JSON {";
    assert_eq!(
        run(line, &plain(Format::Short), &mut None),
        Some(format!("{}\n", line))
    );
    let bare = config(Format::Bare, Colour::Plain, None, &["a"]);
    assert_eq!(run(line, &bare, &mut None), None);
    let mut filter = Some(Filter::compile("true".to_string()).unwrap());
    assert_eq!(run(line, &plain(Format::Short), &mut filter), None);
}

#[test]
fn schema_mismatch_passes_through() {
    let line = r#"{"v":0,"level":30,"name":"app"}"#;
    assert_eq!(
        run(line, &plain(Format::Long), &mut None),
        Some(format!("{}\n", line))
    );
    let bad_level = r#"{"v":0,"level":35,"name":"app","hostname":"h","pid":1,"time":"2023-01-02T03:04:05Z","msg":"m"}"#;
    assert!(matches!(
        classify(parse_document(bad_level).unwrap().tree),
        Decision::SchemaMismatch
    ));
    let bad_time = r#"{"v":1,"level":30,"name":"app","hostname":"h","pid":1,"time":"yesterday","msg":"m"}"#;
    assert!(matches!(
        classify(parse_document(bad_time).unwrap().tree),
        Decision::SchemaMismatch
    ));
    assert!(matches!(
        classify(parse_document("[1,2]").unwrap().tree),
        Decision::SchemaMismatch
    ));
}

#[test]
fn multi_line_message_is_indented() {
    let line = r#"{"v":0,"level":30,"name":"app","hostname":"h1","pid":42,"time":"2023-01-02T03:04:05.678Z","msg":"first\nsecond"}"#;
    assert_eq!(
        run(line, &plain(Format::Short), &mut None).as_deref(),
        Some("03:04:05.678Z INFO app: first\n    second\n")
    );
    assert_eq!(
        run(line, &plain(Format::Long), &mut None).as_deref(),
        Some("2023-01-02 03:04:05.678Z INFO app/42 on h1: first\n    second\n")
    );
    assert_eq!(indent_message("a\r\nb\n\nc\n"), "a\n    b\n    \n    c");
    assert_eq!(indent_message(""), "");
}

#[test]
fn minimum_level_filters_records() {
    let warn = config(Format::Short, Colour::Plain, Some(Level::Warn), &[]);
    let info = r#"{"v":0,"level":30,"name":"app","hostname":"h","pid":1,"time":"2023-01-02T03:04:05Z","msg":"m"}"#;
    let error = r#"{"v":0,"level":50,"name":"app","hostname":"h","pid":1,"time":"2023-01-02T03:04:05Z","msg":"m"}"#;
    assert_eq!(run(info, &warn, &mut None), None);
    assert_eq!(
        run(error, &warn, &mut None).as_deref(),
        Some("03:04:05.000Z ERRO app: m\n")
    );
}

#[test]
fn bare_layout_prints_looked_up_fields() {
    let line = r#"{"v":0,"level":30,"name":"app","hostname":"h","pid":1,"time":"2023-01-02T03:04:05Z","msg":"m","a":1,"b":2}"#;
    let cfg = config(Format::Bare, Colour::C256, None, &["a", "c"]);
    assert_eq!(run(line, &cfg, &mut None).as_deref(), Some("1 -\n"));
    let cfg = config(Format::Bare, Colour::Plain, None, &["msg", "pid", "name"]);
    assert_eq!(run(line, &cfg, &mut None).as_deref(), Some("m 1 app\n"));
}

#[test]
fn predicate_on_missing_field_excludes() {
    let mut filter = Some(Filter::compile(r#"r.component?.contains("x")"#.to_string()).unwrap());
    let without = r#"{"v":0,"level":30,"name":"app","hostname":"h","pid":1,"time":"2023-01-02T03:04:05Z","msg":"m"}"#;
    assert!(matches!(process_line(without, &plain(Format::Short), &mut filter), Ok(None)));
    let with = r#"{"v":0,"level":30,"name":"app","hostname":"h","pid":1,"time":"2023-01-02T03:04:05Z","msg":"m","component":"xyz"}"#;
    assert_eq!(
        run(with, &plain(Format::Short), &mut filter).as_deref(),
        Some("03:04:05.000Z INFO app (xyz): m\n")
    );
    assert!(matches!(process_line(without, &plain(Format::Short), &mut filter), Ok(None)));
}

#[test]
fn predicate_of_wrong_type_stops_the_run() {
    let mut filter = Some(Filter::compile("42".to_string()).unwrap());
    match process_line(RECORD, &plain(Format::Short), &mut filter) {
        Err(FilterError::WrongType(t)) => assert_eq!(t, "42"),
        other => panic!("unexpected {:?}", other),
    }
    assert!(Filter::compile("r.(".to_string()).is_err());
    let mut failing = Some(Filter::compile(r#"throw "boom""#.to_string()).unwrap());
    assert!(matches!(
        process_line(RECORD, &plain(Format::Short), &mut failing),
        Err(FilterError::Script(_))
    ));
}

#[test]
fn predicate_sees_numbers_through_as_int() {
    let mut filter = Some(Filter::compile("as_int(r.n) > 3".to_string()).unwrap());
    let base = r#""v":0,"level":30,"name":"app","hostname":"h","pid":1,"time":"2023-01-02T03:04:05Z","msg":"m""#;
    let text = format!("{{{},\"n\":\"5\"}}", base);
    let small = format!("{{{},\"n\":2}}", base);
    assert!(run(&text, &plain(Format::Short), &mut filter).is_some());
    assert_eq!(run(&small, &plain(Format::Short), &mut filter), None);
}

#[test]
fn verdicts() {
    assert!(matches!(predicate_verdict(ScriptOutcome::Bool(true)), Ok(true)));
    assert!(matches!(predicate_verdict(ScriptOutcome::Bool(false)), Ok(false)));
    assert!(matches!(predicate_verdict(ScriptOutcome::Unit), Ok(false)));
    assert!(matches!(
        predicate_verdict(ScriptOutcome::Other("1".to_string())),
        Err(FilterError::WrongType(_))
    ));
    assert!(matches!(
        predicate_verdict(ScriptOutcome::Failed("boom".to_string())),
        Err(FilterError::Script(_))
    ));
}

#[test]
fn as_int_coercion() {
    assert_eq!(as_int(ScriptValue::Int(7)), Some(7));
    assert_eq!(as_int(ScriptValue::Text("-12".to_string())), Some(-12));
    assert_eq!(as_int(ScriptValue::Text("+3".to_string())), Some(3));
    assert_eq!(as_int(ScriptValue::Text("1x".to_string())), None);
    assert_eq!(as_int(ScriptValue::Text("99999999999999999999".to_string())), None);
    assert_eq!(as_int(ScriptValue::Unit), None);
    assert_eq!(as_int(ScriptValue::Other), None);
}

#[test]
fn field_order_is_by_key_and_stable() {
    let line = r#"{"zeta":1,"v":0,"alpha":2,"level":30,"name":"n","hostname":"h","pid":1,"time":"2023-01-02T03:04:05Z","msg":"m","mid":3}"#;
    let first = run(line, &plain(Format::Short), &mut None);
    let second = run(line, &plain(Format::Short), &mut None);
    assert_eq!(
        first.as_deref(),
        Some("03:04:05.000Z INFO n: m\n    alpha = 2\n    mid = 3\n    zeta = 1\n")
    );
    assert_eq!(first, second);
}

#[test]
fn scalars_and_composites_are_shown() {
    let line = r#"{"v":0,"level":30,"name":"n","hostname":"h","pid":1,"time":"2023-01-02T03:04:05Z","msg":"m","a":null,"b":true,"c":-3,"d":1.5,"e":"t\tq\"s'\\é","f":[1,"s",null],"g":{"k":"v"}}"#;
    let out = run(line, &plain(Format::Short), &mut None);
    assert_eq!(
        out.as_deref(),
        Some(
            "03:04:05.000Z INFO n: m\n    a = null\n    b = true\n    c = -3\n    d = 1.5\n    e = t\\tq\"s'\\\\\\u{e9}\n    f = [1, \"s\", null]\n    g = {\"k\": \"v\"}\n"
        )
    );
}

#[test]
fn tracing_record_with_spans() {
    let line = r#"{"timestamp":"2023-01-02T03:04:05.678Z","level":"WARN","target":"svc::db","fields":{"message":"m1\nm2","k":true},"spans":[{"name":"req","id":7},{"name":"inner","x":"y"}]}"#;
    assert_eq!(
        run(line, &plain(Format::Short), &mut None).as_deref(),
        Some("03:04:05.678Z WARN svc::db: m1\n    m2\n    k = true\n    span[0]::id = 7\n    span[1]::x = y\n")
    );
    assert_eq!(
        run(line, &plain(Format::Long), &mut None).as_deref(),
        Some("2023-01-02 03:04:05.678Z WARN svc::db: m1\n    m2\n    k = true\n    span[0]::id = 7\n    span[1]::x = y\n")
    );
    let coloured = run(line, &config(Format::Short, Colour::C16, None, &["x"]), &mut None);
    assert_eq!(
        coloured.as_deref(),
        Some("03:04:05.678Z \x1b[1m\x1b[95mWARN\x1b[0m \x1b[1msvc::db\x1b[0m: m1\n    m2\n    \x1b[1mspan[1]\x1b[0m::\x1b[1mx\x1b[0m = y\n")
    );
}

#[test]
fn tracing_shapes_are_checked() {
    let ok = r#"{"timestamp":"2023-01-02T03:04:05Z","level":"INFO","target":"t","fields":{"message":"m"},"span":{"name":"s"},"spans":null}"#;
    match classify(parse_document(ok).unwrap().tree) {
        Decision::Accepted(Entry::Tracing(e)) => {
            assert_eq!(e.target, "t");
            assert_eq!(e.span.unwrap().name, "s");
            assert!(e.spans.is_none());
            assert_eq!(
                e.timestamp,
                Timestamp { year: 2023, month: 1, day: 2, hour: 3, minute: 4, second: 5, nanosecond: 0 }
            );
        }
        other => panic!("unexpected {:?}", other),
    }
    let lower = r#"{"timestamp":"2023-01-02T03:04:05Z","level":"info","target":"t","fields":{"message":"m"}}"#;
    assert!(matches!(classify(parse_document(lower).unwrap().tree), Decision::SchemaMismatch));
    let bad_span = r#"{"timestamp":"2023-01-02T03:04:05Z","level":"INFO","target":"t","fields":{"message":"m"},"spans":[{"id":1}]}"#;
    assert!(matches!(classify(parse_document(bad_span).unwrap().tree), Decision::SchemaMismatch));
    let with_v = r#"{"v":3,"timestamp":"2023-01-02T03:04:05Z","level":"INFO","target":"t","fields":{"message":"m"}}"#;
    assert!(matches!(
        classify(parse_document(with_v).unwrap().tree),
        Decision::Accepted(Entry::Tracing(_))
    ));
}

#[test]
fn parsed_numbers_keep_their_kind() {
    let d = parse_document(r#"{"a":18446744073709551615,"b":-9223372036854775808,"c":2.5e3}"#).unwrap();
    match d.tree {
        Json::Object(ms) => {
            let keys: Vec<&str> = ms.iter().map(|m| m.key.as_str()).collect();
            assert_eq!(keys, vec!["a", "b", "c"]);
            assert_eq!(looker::json::show(&ms[0].value, false), "18446744073709551615");
            assert_eq!(looker::json::show(&ms[1].value, false), "-9223372036854775808");
            assert_eq!(looker::json::show(&ms[2].value, false), "2500.0");
        }
        other => panic!("unexpected {:?}", other),
    }
    assert!(parse_document("{").is_none());
}

#[test]
fn timestamps_format_with_year_signs() {
    let t = Timestamp { year: 12345, month: 6, day: 7, hour: 8, minute: 9, second: 10, nanosecond: 11_000_000 };
    assert_eq!(t.date_time(), "+12345-06-07 08:09:10.011Z");
    let t = Timestamp { year: 7, month: 12, day: 31, hour: 23, minute: 59, second: 59, nanosecond: 1_999_000_000 };
    assert_eq!(t.date_time(), "0007-12-31 23:59:60.999Z");
    assert_eq!(t.clock(), "23:59:60.999Z");
    let t = Timestamp { year: -44, month: 3, day: 15, hour: 0, minute: 0, second: 0, nanosecond: 0 };
    assert_eq!(t.date_time(), "-0044-03-15 00:00:00.000Z");
}

#[test]
fn accepted_record_for_each_predicate_outcome() {
    let cfg = plain(Format::Short);
    let e = match classify(parse_document(RECORD).unwrap().tree) {
        Decision::Accepted(e) => e,
        other => panic!("unexpected {:?}", other),
    };
    let text = "03:04:05.678Z INFO app: hello\n    a = x\n    b = 2\n";
    let shown = |o: Option<ScriptOutcome>| match emit_accepted(&e, None, &cfg, o) {
        Ok(v) => v,
        Err(x) => panic!("unexpected {:?}", x),
    };
    assert_eq!(shown(None).as_deref(), Some(text));
    assert_eq!(shown(Some(ScriptOutcome::Bool(true))).as_deref(), Some(text));
    assert_eq!(shown(Some(ScriptOutcome::Bool(false))), None);
    assert_eq!(shown(Some(ScriptOutcome::Unit)), None);
    assert!(matches!(
        emit_accepted(&e, None, &cfg, Some(ScriptOutcome::Other("3".to_string()))),
        Err(FilterError::WrongType(_))
    ));
    assert!(matches!(
        emit_accepted(&e, None, &cfg, Some(ScriptOutcome::Failed("x".to_string()))),
        Err(FilterError::Script(_))
    ));
    let bare = config(Format::Bare, Colour::Plain, None, &["a"]);
    match emit_accepted(&e, Some("x\n".to_string()), &bare, None) {
        Ok(v) => assert_eq!(v.as_deref(), Some("x\n")),
        Err(x) => panic!("unexpected {:?}", x),
    }
}

#[test]
fn tracing_fields_are_listed_by_key() {
    let line = r#"{"timestamp":"2023-01-02T03:04:05Z","level":"TRACE","target":"t","fields":{"zz":1,"message":"m","aa":2},"spans":[{"y":1,"name":"s","b":2}]}"#;
    assert_eq!(
        run(line, &plain(Format::Short), &mut None).as_deref(),
        Some("03:04:05.000Z TRAC t: m\n    aa = 2\n    zz = 1\n    span[0]::b = 2\n    span[0]::y = 1\n")
    );
}

#[test]
fn predicate_is_not_run_below_the_minimum_or_for_non_records() {
    let mut failing = Some(Filter::compile(r#"throw "boom""#.to_string()).unwrap());
    let warn = config(Format::Short, Colour::Plain, Some(Level::Warn), &[]);
    let info = r#"{"v":0,"level":30,"name":"app","hostname":"h","pid":1,"time":"2023-01-02T03:04:05Z","msg":"m"}"#;
    assert!(matches!(process_line(info, &warn, &mut failing), Ok(None)));
    assert!(matches!(process_line("not json", &warn, &mut failing), Ok(None)));
    assert!(matches!(process_line(r#"{"x":1}"#, &warn, &mut failing), Ok(None)));
    let error = r#"{"v":0,"level":50,"name":"app","hostname":"h","pid":1,"time":"2023-01-02T03:04:05Z","msg":"m"}"#;
    assert!(matches!(process_line(error, &warn, &mut failing), Err(FilterError::Script(_))));
}
