use looker::config::contains_text;
use looker::{bold, guess_colour_depth, level, parse_format, pick_colour};
use looker::{Colour, Format, FormatError, Level, TracingLevel};

const ALL: [Level; 6] = [
    Level::Fatal,
    Level::Error,
    Level::Warn,
    Level::Info,
    Level::Debug,
    Level::Trace,
];

#[test]
fn mnemonic_and_code_round_trip() {
    for l in ALL {
        assert_eq!(Level::parse(l.render()).ok(), Some(l));
        assert_eq!(Level::parse(&format!("{}", l.code())).ok(), Some(l));
    }
}

#[test]
fn names_parse_ignoring_case_and_space() {
    assert_eq!(Level::parse(" Info ").ok(), Some(Level::Info));
    assert_eq!(Level::parse("FATAL").ok(), Some(Level::Fatal));
    assert_eq!(Level::parse("debg").ok(), Some(Level::Debug));
    assert_eq!(Level::parse("Trac").ok(), Some(Level::Trace));
    assert_eq!(Level::parse("erro").ok(), Some(Level::Error));
    assert_eq!(Level::parse("\twarn\n").ok(), Some(Level::Warn));
    assert_eq!("50".parse::<Level>().ok(), Some(Level::Error));
}

#[test]
fn unknown_level_is_an_error() {
    let e = Level::parse(" Verbose ").err().unwrap();
    assert_eq!(e.text, "verbose");
    assert!(Level::parse("").is_err());
    assert!(Level::parse("15").is_err());
    assert!(Level::parse("warning").is_err());
}

#[test]
fn levels_are_ordered_by_code() {
    let order = [
        Level::Trace,
        Level::Debug,
        Level::Info,
        Level::Warn,
        Level::Error,
        Level::Fatal,
    ];
    for i in 0..order.len() {
        for j in 0..order.len() {
            assert_eq!(order[i].is_below(&order[j]), i < j);
        }
    }
    let codes: Vec<u8> = order.iter().map(|l| l.code()).collect();
    assert_eq!(codes, vec![10, 20, 30, 40, 50, 60]);
}

#[test]
fn tracing_levels_map_onto_levels() {
    assert_eq!(Level::from(TracingLevel::Debug), Level::Debug);
    assert_eq!(Level::from(TracingLevel::Error), Level::Error);
    assert_eq!(Level::from(TracingLevel::Info), Level::Info);
    assert_eq!(Level::from(TracingLevel::Warn), Level::Warn);
    assert_eq!(Level::from(TracingLevel::Trace), Level::Trace);
    assert_eq!(TracingLevel::from_spelling("WARN"), Some(TracingLevel::Warn));
    assert_eq!(TracingLevel::from_spelling("warn"), None);
}

#[test]
fn colour_codes_follow_the_palettes() {
    assert_eq!(Level::Fatal.ansi_colour(Colour::C16), "\x1b[93m");
    assert_eq!(Level::Error.ansi_colour(Colour::C16), "\x1b[91m");
    assert_eq!(Level::Warn.ansi_colour(Colour::C16), "\x1b[95m");
    assert_eq!(Level::Info.ansi_colour(Colour::C16), "\x1b[96m");
    assert_eq!(Level::Debug.ansi_colour(Colour::C16), "\x1b[94m");
    assert_eq!(Level::Trace.ansi_colour(Colour::C16), "\x1b[92m");
    assert_eq!(Level::Fatal.ansi_colour(Colour::C256), "\x1b[38;5;190m");
    assert_eq!(Level::Error.ansi_colour(Colour::C256), "\x1b[38;5;160m");
    assert_eq!(Level::Warn.ansi_colour(Colour::C256), "\x1b[38;5;130m");
    assert_eq!(Level::Info.ansi_colour(Colour::C256), "\x1b[38;5;28m");
    assert_eq!(Level::Debug.ansi_colour(Colour::C256), "\x1b[38;5;44m");
    assert_eq!(Level::Trace.ansi_colour(Colour::C256), "\x1b[38;5;69m");
    assert_eq!(Level::Info.ansi_colour(Colour::Plain), "");
}

#[test]
fn bold_wraps_only_with_colour() {
    assert_eq!(bold("name", Colour::Plain), "name");
    assert_eq!(bold("name", Colour::C16), "\x1b[1mname\x1b[0m");
    assert_eq!(bold("", Colour::C256), "\x1b[1m\x1b[0m");
}

#[test]
fn level_label_is_coloured_then_bolded() {
    assert_eq!(level(Level::Warn, Colour::Plain), "WARN");
    assert_eq!(level(Level::Warn, Colour::C256), "\x1b[1m\x1b[38;5;130mWARN\x1b[0m");
    assert_eq!(level(Level::Debug, Colour::C16), "\x1b[1m\x1b[94mDEBG\x1b[0m");
}

#[test]
fn colour_depth_from_term() {
    assert_eq!(guess_colour_depth(Some("xterm-256color"), false), Colour::C256);
    assert_eq!(guess_colour_depth(Some("xterm"), false), Colour::C16);
    assert_eq!(guess_colour_depth(Some("dumb"), false), Colour::Plain);
    assert_eq!(guess_colour_depth(Some("dumb"), true), Colour::C16);
    assert_eq!(guess_colour_depth(None, false), Colour::Plain);
    assert_eq!(guess_colour_depth(None, true), Colour::C16);
}

#[test]
fn colour_choice_from_flags() {
    assert_eq!(pick_colour(true, true, true, Some("xterm-256color")), Colour::Plain);
    assert_eq!(pick_colour(false, false, false, Some("xterm-256color")), Colour::Plain);
    assert_eq!(pick_colour(false, false, true, Some("xterm-256color")), Colour::C256);
    assert_eq!(pick_colour(false, true, false, None), Colour::C16);
}

#[test]
fn substring_search() {
    assert!(contains_text("screen-256", "256"));
    assert!(contains_text("256", "256"));
    assert!(!contains_text("25", "256"));
    assert!(!contains_text("2 5 6", "256"));
    assert!(contains_text("abc", ""));
}

#[test]
fn layout_names() {
    let none: Vec<String> = Vec::new();
    let some = vec!["a".to_string()];
    assert_eq!(parse_format(None, &none).ok(), Some(Format::Short));
    assert_eq!(parse_format(Some("short"), &none).ok(), Some(Format::Short));
    assert_eq!(parse_format(Some("long"), &none).ok(), Some(Format::Long));
    assert_eq!(parse_format(Some("bare"), &some).ok(), Some(Format::Bare));
    assert!(matches!(
        parse_format(Some("bare"), &none),
        Err(FormatError::BareWithoutFields)
    ));
    match parse_format(Some("wide"), &some) {
        Err(FormatError::Unknown(t)) => assert_eq!(t, "wide"),
        other => panic!("unexpected {:?}", other),
    }
}
