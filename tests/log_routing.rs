use lazymc_docker_proxy::backend::BackendAction;
use lazymc_docker_proxy::log_line::{parse_level, parse_line, same_text, Level, LogEvent};
use lazymc_docker_proxy::router::{
    handle_log, namespaced_target, wrap_log, LineOutcome, STOP_FAILED_MESSAGE,
};

fn emitted(level: Level, target: &str, message: &str, action: Option<BackendAction>) -> LineOutcome {
    LineOutcome::Emitted {
        event: LogEvent { level, target: target.to_string(), message: message.to_string() },
        action,
    }
}

#[test]
fn round_trip_starting_server() {
    let r = wrap_log(
        &"survival".to_string(),
        Some("INFO lazymc::server > Starting server...".to_string()),
    );
    assert_eq!(r, emitted(Level::Info, "survival::lazymc::server", "Starting server...", None));
}

#[test]
fn parse_extracts_level_target_message() {
    let e = parse_line("DEBUG lazymc-proxy_1::x > a > b  c ").unwrap();
    assert_eq!(e.level, Level::Debug);
    assert_eq!(e.target, "lazymc-proxy_1::x");
    assert_eq!(e.message, "a > b  c ");
}

#[test]
fn parse_accepts_leading_and_repeated_spaces() {
    let e = parse_line("  ERROR\t lazymc   >   Server crashed").unwrap();
    assert_eq!(e.level, Level::Error);
    assert_eq!(e.target, "lazymc");
    assert_eq!(e.message, "Server crashed");
}

#[test]
fn parse_each_level() {
    assert_eq!(parse_line("ERROR t > m").unwrap().level, Level::Error);
    assert_eq!(parse_line("WARN t > m").unwrap().level, Level::Warn);
    assert_eq!(parse_line("INFO t > m").unwrap().level, Level::Info);
    assert_eq!(parse_line("DEBUG t > m").unwrap().level, Level::Debug);
    assert_eq!(parse_line("TRACE t > m").unwrap().level, Level::Trace);
}

#[test]
fn parse_message_with_level_word() {
    let e = parse_line("WARN lazymc > ERROR x > y").unwrap();
    assert_eq!(e.level, Level::Warn);
    assert_eq!(e.target, "lazymc");
    assert_eq!(e.message, "ERROR x > y");
}

#[test]
fn parse_rejects_other_lines() {
    assert_eq!(parse_line(""), None);
    assert_eq!(parse_line("info lazymc > Starting"), None);
    assert_eq!(parse_line("FATAL lazymc > Starting"), None);
    assert_eq!(parse_line("INFO lazymc Starting"), None);
    assert_eq!(parse_line("INFO lazymc >"), None);
    assert_eq!(parse_line("INFO lazymc>x"), None);
    assert_eq!(parse_line("INFO la.zy > x"), None);
    assert_eq!(parse_line("Welcome to lazymc!"), None);
    assert_eq!(parse_line("XINFO lazymc > Starting"), None);
    assert_eq!(parse_line("INFO lazymc >  \n"), None);
}

#[test]
fn line_break_in_message_is_not_parsed() {
    assert_eq!(parse_line("INFO t > a\nb"), None);
    assert_eq!(parse_line("INFO t > ab\n"), None);
    let line = "INFO t > a\nb".to_string();
    assert_eq!(wrap_log(&"g".to_string(), Some(line.clone())), LineOutcome::Passthrough(line));
}

#[test]
fn line_break_before_message_is_space() {
    let e = parse_line("INFO\nt >\n a").unwrap();
    assert_eq!(e.target, "t");
    assert_eq!(e.message, "a");
}

#[test]
fn parse_finds_format_after_prefix() {
    let e = parse_line("2024-01-01T00:00:00Z INFO lazymc::server > Starting server...").unwrap();
    assert_eq!(e.level, Level::Info);
    assert_eq!(e.target, "lazymc::server");
    assert_eq!(e.message, "Starting server...");
    let e = parse_line("[x] WARN a > b").unwrap();
    assert_eq!(e.level, Level::Warn);
}

#[test]
fn message_of_spaces_keeps_last() {
    let e = parse_line("INFO lazymc >   ").unwrap();
    assert_eq!(e.message, " ");
    assert_eq!(parse_line("INFO lazymc > "), None);
}

#[test]
fn unicode_space_separates() {
    let e = parse_line("INFO\u{a0}lazymc\u{3000}>\u{2003}hello").unwrap();
    assert_eq!(e.level, Level::Info);
    assert_eq!(e.target, "lazymc");
    assert_eq!(e.message, "hello");
}

#[test]
fn unstructured_lines_pass_through() {
    let g = "survival".to_string();
    for line in ["", "info lazymc::server > Starting server...", "  _ lazymc banner _", "FOO a > b"] {
        assert_eq!(wrap_log(&g, Some(line.to_string())), LineOutcome::Passthrough(line.to_string()));
    }
}

#[test]
fn unreadable_line_is_dropped() {
    assert_eq!(wrap_log(&"survival".to_string(), None), LineOutcome::Dropped);
}

#[test]
fn stop_failure_forces_stop() {
    let g = "creative".to_string();
    let line = format!("WARN lazymc::monitor > {}", STOP_FAILED_MESSAGE);
    let expected = emitted(
        Level::Warn,
        "creative::lazymc::monitor",
        STOP_FAILED_MESSAGE,
        Some(BackendAction::Stop("creative".to_string())),
    );
    assert_eq!(wrap_log(&g, Some(line.clone())), expected);
    assert_eq!(wrap_log(&g, Some(line)), expected);
}

#[test]
fn trigger_needs_warn_and_exact_message() {
    let g = "creative".to_string();
    let msg = STOP_FAILED_MESSAGE.to_string();
    assert_eq!(handle_log(&g, &Level::Warn, &msg), Some(BackendAction::Stop("creative".to_string())));
    assert_eq!(handle_log(&g, &Level::Error, &msg), None);
    assert_eq!(handle_log(&g, &Level::Info, &msg), None);
    assert_eq!(handle_log(&g, &Level::Warn, &format!("{} ", msg)), None);
    assert_eq!(handle_log(&g, &Level::Warn, &"Failed to stop server".to_string()), None);
}

#[test]
fn namespaced_target_joins_with_separator() {
    assert_eq!(namespaced_target("survival", "lazymc::server"), "survival::lazymc::server");
    assert_eq!(namespaced_target("", "t"), "::t");
}

#[test]
fn level_names() {
    assert_eq!(parse_level("ERROR"), Some(Level::Error));
    assert_eq!(parse_level("WARN"), Some(Level::Warn));
    assert_eq!(parse_level("INFO"), Some(Level::Info));
    assert_eq!(parse_level("DEBUG"), Some(Level::Debug));
    assert_eq!(parse_level("TRACE"), Some(Level::Trace));
    assert_eq!(parse_level("OFF"), None);
    assert_eq!(parse_level("info"), None);
    assert_eq!(parse_level(""), None);
}

#[test]
fn same_text_compares_characters() {
    assert!(same_text("abc", "abc"));
    assert!(!same_text("abc", "abd"));
    assert!(!same_text("abc", "ab"));
}
