use phone_buddy::ffi::{
    check_arguments, engine_pool, forward_host_diag, generate_err_envelope, generate_ok_envelope,
    has_diagnostic_sink, host_failure, host_log_event, is_c_text, level_filter, log_enabled,
    outcome_json, record_field, strip_nul, Argument, LogField, LogLevel, PANIC_CODE,
};
use phone_buddy::json::parse_json;
use phone_buddy::text::{
    contains, decimal, eq_ignore_ascii_case, find, first_word, parse_u64, tail_from, trim,
};

fn argument(name: &str, is_valid: bool, complaint: &str) -> Argument {
    Argument { name: name.into(), is_valid, complaint: complaint.into() }
}

#[test]
fn the_first_bad_argument_decides() {
    let check = |engine: bool, request: bool, chunk: bool| {
        check_arguments(&vec![
            argument("engine", engine, "null"),
            argument("request_id", request, "null or invalid"),
            argument("chunk_json", chunk, "null or invalid"),
        ])
    };
    assert!(check(true, true, true).is_none());
    let fault = check(false, false, true).unwrap();
    assert_eq!((fault.code, fault.message.as_str()), (-1, "engine is null"));
    let fault = check(true, false, false).unwrap();
    assert_eq!((fault.code, fault.message.as_str()), (-2, "request_id is null or invalid"));
    let fault = check(true, true, false).unwrap();
    assert_eq!((fault.code, fault.message.as_str()), (-3, "chunk_json is null or invalid"));
    assert_eq!(PANIC_CODE, -100);
}

#[test]
fn defaults_stand_in_for_what_is_missing() {
    assert_eq!(engine_pool(&None), "main");
    assert_eq!(engine_pool(&Some(String::new())), "main");
    assert_eq!(engine_pool(&Some("sub".into())), "sub");
    assert_eq!(host_failure(None), "host LLM failed");
    assert_eq!(host_failure(Some("x".into())), "x");
}

#[test]
fn envelopes_are_versioned() {
    let result = parse_json(r#"{"text":"hi"}"#).unwrap();
    assert_eq!(
        generate_ok_envelope("op_1", result),
        r#"{"ok":true,"operation_id":"op_1","result":{"text":"hi"},"version":1}"#
    );
    let extra = parse_json(r#"{"pool_id":"session_title"}"#).unwrap();
    assert_eq!(
        generate_err_envelope("op_2", "RouteNotConfigured", "no such pool", &extra),
        r#"{"error":{"kind":"RouteNotConfigured","message":"no such pool","pool_id":"session_title"},"ok":false,"operation_id":"op_2","version":1}"#
    );
    let own = parse_json(r#"{"kind":"Mine"}"#).unwrap();
    assert!(generate_err_envelope("op", "Llm", "m", &own).contains(r#""kind":"Mine""#));
    let none = parse_json("3").unwrap();
    assert!(generate_err_envelope("op", "Llm", "m", &none).contains(r#""kind":"Llm""#));
}

#[test]
fn outcomes_have_a_plan() {
    let usage = || parse_json(r#"{"total_tokens":3}"#).unwrap();
    assert_eq!(
        outcome_json("done", 2, usage(), r#"[{"step":1}]"#),
        r#"{"final_text":"done","plan":[{"step":1}],"turns_used":2,"usage":{"total_tokens":3}}"#
    );
    assert!(outcome_json("", 0, usage(), "oops").contains(r#""plan":[]"#));
}

#[test]
fn c_strings_hold_no_nul() {
    assert!(is_c_text("ab") && !is_c_text("a\0b"));
    assert_eq!(strip_nul("\0a\0\0b\0"), "ab");
    assert_eq!(strip_nul("ab"), "ab");
}

#[test]
fn levels_have_numbers() {
    assert_eq!(LogLevel::Error.number(), 1);
    assert_eq!(LogLevel::Warn.number(), 2);
    assert_eq!(LogLevel::Info.number(), 3);
    assert_eq!(LogLevel::Debug.number(), 4);
    assert_eq!(LogLevel::Trace.number(), 5);
    assert_eq!(level_filter(0), None);
    assert_eq!(level_filter(-3), None);
    assert_eq!(level_filter(1), Some(LogLevel::Error));
    assert_eq!(level_filter(4), Some(LogLevel::Debug));
    assert_eq!(level_filter(99), Some(LogLevel::Trace));
    assert!(has_diagnostic_sink(true, 1));
    assert!(!has_diagnostic_sink(true, 0) && !has_diagnostic_sink(false, 1));
}

#[test]
fn chatty_parsers_are_not_logged() {
    assert!(log_enabled("phone_buddy::client"));
    assert!(!log_enabled("html5ever::tokenizer") && !log_enabled("selectors"));
}

fn field(name: &str, value: &str) -> LogField {
    LogField { name: name.into(), value: value.into() }
}

#[test]
fn log_events_become_lines() {
    let mut line = String::new();
    record_field(&mut line, "k", "v");
    record_field(&mut line, "message", "!");
    record_field(&mut line, "n", "1");
    assert_eq!(line, "k=v! n=1");

    let log =
        host_log_event(LogLevel::Warn, "t", &vec![field("message", "hot"), field("c", "90")]).unwrap();
    assert_eq!((log.level, log.target.as_str(), log.message.as_str()), (2, "t", "hot c=90"));
    assert!(host_log_event(LogLevel::Warn, "selectors::x", &vec![]).is_none());
    assert!(host_log_event(LogLevel::Warn, "a\0", &vec![]).is_none());
    assert!(host_log_event(LogLevel::Warn, "a", &vec![field("message", "\0")]).is_none());

    let diag = forward_host_diag(3, "t", "a\0b").unwrap();
    assert_eq!((diag.level, diag.message.as_str()), (3, "ab"));
    assert!(forward_host_diag(3, "t\0", "a").is_none());
}

#[test]
fn text_is_taken_apart() {
    assert_eq!(trim("\u{2003} a b\n"), "a b");
    assert_eq!(trim(" \t"), "");
    assert_eq!(first_word(" one two").as_deref(), Some("one"));
    assert_eq!(first_word("  "), None);
    assert_eq!(find("aab", "ab"), Some(1));
    assert!(contains("aab", "") && !contains("aab", "ba"));
    assert_eq!(tail_from("a{b{c", "{").as_deref(), Some("{b{c"));
    assert_eq!(tail_from("abc", "{"), None);
    assert!(eq_ignore_ascii_case("NoNe", "none") && !eq_ignore_ascii_case("\u{c4}", "\u{e4}"));
}

#[test]
fn numbers_are_read_and_written() {
    assert_eq!(parse_u64("18446744073709551615"), Some(u64::MAX));
    assert_eq!(parse_u64("18446744073709551616"), None);
    assert_eq!(parse_u64("+7"), Some(7));
    assert_eq!(parse_u64("-7"), None);
    assert_eq!(parse_u64("+"), None);
    assert_eq!(parse_u64(""), None);
    assert_eq!(decimal(0), "0");
    assert_eq!(decimal(u128::MAX), u128::MAX.to_string());
}

#[test]
fn white_space_is_what_unicode_calls_so() {
    for c in '\0'..=char::MAX {
        assert_eq!(trim(&c.to_string()).is_empty(), c.is_whitespace(), "{c:?}");
    }
}
