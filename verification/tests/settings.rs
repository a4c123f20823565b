use highlights::reporting::{Level, LevelFilter};
use highlights::settings::{exports, parse_level_filter, parse_log_format, use_filters, LogFormat};

#[test]
fn level_filters_in_either_case() {
    assert_eq!(parse_level_filter("off"), Some(LevelFilter::Off));
    assert_eq!(parse_level_filter("TRACE"), Some(LevelFilter::Trace));
    assert_eq!(parse_level_filter("debug"), Some(LevelFilter::Debug));
    assert_eq!(parse_level_filter("INFO"), Some(LevelFilter::Info));
    assert_eq!(parse_level_filter("warn"), Some(LevelFilter::Warn));
    assert_eq!(parse_level_filter("ERROR"), Some(LevelFilter::Error));
    assert_eq!(parse_level_filter("Warn"), None);
    assert_eq!(parse_level_filter("verbose"), None);
}

#[test]
fn log_formats_in_either_case() {
    assert_eq!(parse_log_format("compact"), Some(LogFormat::Compact));
    assert_eq!(parse_log_format("PRETTY"), Some(LogFormat::Pretty));
    assert_eq!(parse_log_format("json"), Some(LogFormat::Json));
    assert_eq!(parse_log_format("Json"), None);
}

fn filters() -> Vec<(String, LevelFilter)> {
    vec![
        ("highlights".to_owned(), LevelFilter::Info),
        ("highlights::bot".to_owned(), LevelFilter::Debug),
        ("noisy".to_owned(), LevelFilter::Off),
    ]
}

#[test]
fn longest_configured_module_decides() {
    let filters = filters();
    assert!(use_filters(LevelFilter::Warn, &filters, Some("highlights::bot::commands"), Level::Debug));
    assert!(!use_filters(LevelFilter::Warn, &filters, Some("highlights::db"), Level::Debug));
    assert!(use_filters(LevelFilter::Warn, &filters, Some("highlights::db"), Level::Info));
    assert!(!use_filters(LevelFilter::Trace, &filters, Some("noisy::inner"), Level::Error));
}

#[test]
fn global_level_decides_for_other_modules() {
    let filters = filters();
    assert!(use_filters(LevelFilter::Warn, &filters, Some("serenity::http"), Level::Warn));
    assert!(!use_filters(LevelFilter::Warn, &filters, Some("serenity::http"), Level::Info));
    assert!(use_filters(LevelFilter::Warn, &filters, None, Level::Error));
    assert!(!use_filters(LevelFilter::Off, &filters, None, Level::Error));
}

#[test]
fn exporter_skips_http2_spans() {
    assert!(!exports(false, Some("h2::proto")));
    assert!(exports(true, Some("h2::proto")));
    assert!(exports(false, Some("h2")));
    assert!(exports(false, Some("highlights")));
    assert!(exports(false, None));
}
