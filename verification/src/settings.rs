//! Reading the hoster's logging settings, and filtering log events by them.

use vstd::prelude::*;
use vstd::string::*;
use crate::commands::chars_eq;
use crate::reporting::{Level, LevelFilter};

verus! {

/// How verbose a severity is: errors are the least verbose.
pub open spec fn level_rank(level: Level) -> int {
    match level {
        Level::Error => 1,
        Level::Warn => 2,
        Level::Info => 3,
        Level::Debug => 4,
        Level::Trace => 5,
    }
}

/// The most verbose severity a filter lets through; nothing for `Off`.
pub open spec fn filter_rank(filter: LevelFilter) -> int {
    match filter {
        LevelFilter::Off => 0,
        LevelFilter::Error => 1,
        LevelFilter::Warn => 2,
        LevelFilter::Info => 3,
        LevelFilter::Debug => 4,
        LevelFilter::Trace => 5,
    }
}

/// The filter lets events of `level` through.
pub open spec fn lets_through(filter: LevelFilter, level: Level) -> bool {
    filter_rank(filter) >= level_rank(level)
}

fn rank_of_level(level: Level) -> (r: u8)
    ensures
        r == level_rank(level),
{
    match level {
        Level::Error => 1,
        Level::Warn => 2,
        Level::Info => 3,
        Level::Debug => 4,
        Level::Trace => 5,
    }
}

fn rank_of_filter(filter: LevelFilter) -> (r: u8)
    ensures
        r == filter_rank(filter),
{
    match filter {
        LevelFilter::Off => 0,
        LevelFilter::Error => 1,
        LevelFilter::Warn => 2,
        LevelFilter::Info => 3,
        LevelFilter::Debug => 4,
        LevelFilter::Trace => 5,
    }
}

/// The filter a setting names: one of `off`, `trace`, `debug`, `info`,
/// `warn`, `error`, all in lower or all in upper case.
pub open spec fn spec_level_filter(v: Seq<char>) -> Option<LevelFilter> {
    if v == "off"@ || v == "OFF"@ {
        Some(LevelFilter::Off)
    } else if v == "trace"@ || v == "TRACE"@ {
        Some(LevelFilter::Trace)
    } else if v == "debug"@ || v == "DEBUG"@ {
        Some(LevelFilter::Debug)
    } else if v == "info"@ || v == "INFO"@ {
        Some(LevelFilter::Info)
    } else if v == "warn"@ || v == "WARN"@ {
        Some(LevelFilter::Warn)
    } else if v == "error"@ || v == "ERROR"@ {
        Some(LevelFilter::Error)
    } else {
        None
    }
}

/// Reads a logging level setting; `None` for any other text.
pub fn parse_level_filter(v: &str) -> (r: Option<LevelFilter>)
    ensures
        r == spec_level_filter(v@),
{
    if chars_eq(v, "off", false) || chars_eq(v, "OFF", false) {
        Some(LevelFilter::Off)
    } else if chars_eq(v, "trace", false) || chars_eq(v, "TRACE", false) {
        Some(LevelFilter::Trace)
    } else if chars_eq(v, "debug", false) || chars_eq(v, "DEBUG", false) {
        Some(LevelFilter::Debug)
    } else if chars_eq(v, "info", false) || chars_eq(v, "INFO", false) {
        Some(LevelFilter::Info)
    } else if chars_eq(v, "warn", false) || chars_eq(v, "WARN", false) {
        Some(LevelFilter::Warn)
    } else if chars_eq(v, "error", false) || chars_eq(v, "ERROR", false) {
        Some(LevelFilter::Error)
    } else {
        None
    }
}

/// How log lines are written to standard output.
#[derive(Clone, Copy, Debug, PartialEq, Eq, Structural)]
pub enum LogFormat {
    Compact,
    Pretty,
    Json,
}

/// The format a setting names: `compact`, `pretty` or `json`, all in lower
/// or all in upper case.
pub open spec fn spec_log_format(v: Seq<char>) -> Option<LogFormat> {
    if v == "compact"@ || v == "COMPACT"@ {
        Some(LogFormat::Compact)
    } else if v == "pretty"@ || v == "PRETTY"@ {
        Some(LogFormat::Pretty)
    } else if v == "json"@ || v == "JSON"@ {
        Some(LogFormat::Json)
    } else {
        None
    }
}

/// Reads a log format setting; `None` for any other text.
pub fn parse_log_format(v: &str) -> (r: Option<LogFormat>)
    ensures
        r == spec_log_format(v@),
{
    if chars_eq(v, "compact", false) || chars_eq(v, "COMPACT", false) {
        Some(LogFormat::Compact)
    } else if chars_eq(v, "pretty", false) || chars_eq(v, "PRETTY", false) {
        Some(LogFormat::Pretty)
    } else if chars_eq(v, "json", false) || chars_eq(v, "JSON", false) {
        Some(LogFormat::Json)
    } else {
        None
    }
}

/// A `::` starts at character `i` of `p`.
pub open spec fn separator_at(p: Seq<char>, i: int) -> bool {
    0 <= i && i + 1 < p.len() && p[i] == ':' && p[i + 1] == ':'
}

/// The last `::` that starts at or before character `i`.
pub open spec fn last_separator_from(p: Seq<char>, i: int) -> Option<int>
    decreases i + 1,
{
    if i < 0 {
        None
    } else if separator_at(p, i) {
        Some(i)
    } else {
        last_separator_from(p, i - 1)
    }
}

/// Where the last `::` of a module path starts, as `rsplit_once("::")`
/// finds it.
pub open spec fn last_separator(p: Seq<char>) -> Option<int> {
    last_separator_from(p, p.len() - 2)
}

proof fn lemma_last_separator_from_bounds(p: Seq<char>, i: int)
    ensures
        last_separator_from(p, i) matches Some(k) ==> 0 <= k <= i && separator_at(p, k),
    decreases i + 1,
{
    if i >= 0 && !separator_at(p, i) {
        lemma_last_separator_from_bounds(p, i - 1);
    }
}

/// The filter configured for the module `path`: the first entry with that
/// name.
pub open spec fn configured_filter(filters: Seq<(String, LevelFilter)>, path: Seq<char>) -> Option<LevelFilter>
    decreases filters.len(),
{
    if filters.len() == 0 {
        None
    } else if filters[0].0@ == path {
        Some(filters[0].1)
    } else {
        configured_filter(filters.drop_first(), path)
    }
}

/// Whether an event of `event` in module `path` is logged: the filter of
/// the longest enclosing module that has one decides (the module itself,
/// then the part of its path before the last `::`, and so on), and the
/// global `level` decides when none has one.
pub open spec fn module_lets_through(
    level: LevelFilter,
    filters: Seq<(String, LevelFilter)>,
    path: Seq<char>,
    event: Level,
) -> bool
    decreases path.len(),
{
    match configured_filter(filters, path) {
        Some(filter) => lets_through(filter, event),
        None => match last_separator(path) {
            Some(i) => if 0 <= i < path.len() {
                module_lets_through(level, filters, path.take(i), event)
            } else {
                lets_through(level, event)
            },
            None => lets_through(level, event),
        },
    }
}

/// The text of an optional string.
pub open spec fn optional_text(s: Option<&str>) -> Option<Seq<char>> {
    match s {
        Some(t) => Some(t@),
        None => None,
    }
}

/// Whether an event is logged, for an event with or without a module path.
pub open spec fn spec_use_filters(
    level: LevelFilter,
    filters: Seq<(String, LevelFilter)>,
    target_module: Option<Seq<char>>,
    event: Level,
) -> bool {
    match target_module {
        Some(path) => module_lets_through(level, filters, path, event),
        None => lets_through(level, event),
    }
}

fn find_last_separator(p: &str) -> (r: Option<usize>)
    ensures
        r matches Some(i) ==> last_separator(p@) == Some(i as int),
        r is None ==> last_separator(p@) is None,
{
    let n = p.unicode_len();
    if n < 2 {
        return None;
    }
    let mut j: usize = n - 2;
    loop
        invariant
            n == p@.len(),
            n >= 2,
            j <= n - 2,
            last_separator(p@) == last_separator_from(p@, j as int),
        decreases j,
    {
        if p.get_char(j) == ':' && p.get_char(j + 1) == ':' {
            return Some(j);
        }
        if j == 0 {
            return None;
        }
        j = j - 1;
    }
}

fn find_filter(filters: &[(String, LevelFilter)], path: &str) -> (r: Option<LevelFilter>)
    ensures
        r == configured_filter(filters@, path@),
{
    let mut k: usize = 0;
    assert(filters@.skip(0) =~= filters@);
    while k < filters.len()
        invariant
            k <= filters@.len(),
            configured_filter(filters@, path@) == configured_filter(filters@.skip(k as int), path@),
        decreases filters.len() - k,
    {
        assert(filters@.skip(k as int)[0] == filters@[k as int]);
        assert(filters@.skip(k as int).drop_first() =~= filters@.skip(k + 1));
        if chars_eq(filters[k].0.as_str(), path, false) {
            return Some(filters[k].1);
        }
        k = k + 1;
    }
    assert(filters@.skip(k as int).len() == 0);
    None
}

/// Decides whether a log event passes the configured filters: the filter
/// of the longest enclosing module that has one decides, and the global
/// `level` decides for the rest.
pub fn use_filters(
    level: LevelFilter,
    filters: &[(String, LevelFilter)],
    target_module: Option<&str>,
    event: Level,
) -> (r: bool)
    ensures
        r == spec_use_filters(level, filters@, optional_text(target_module), event),
{
    let path = match target_module {
        Some(p) => p,
        None => return rank_of_filter(level) >= rank_of_level(event),
    };
    let mut current: &str = path;
    loop
        invariant
            optional_text(target_module) == Some(path@),
            module_lets_through(level, filters@, current@, event) == module_lets_through(
                level,
                filters@,
                path@,
                event,
            ),
        decreases current@.len(),
    {
        match find_filter(filters, current) {
            Some(filter) => return rank_of_filter(filter) >= rank_of_level(event),
            None => {},
        }
        match find_last_separator(current) {
            Some(i) => {
                proof {
                    lemma_last_separator_from_bounds(current@, current@.len() - 2);
                }
                current = current.substring_char(0, i);
            },
            None => return rank_of_filter(level) >= rank_of_level(event),
        }
    }
}

/// Whether the tracing exporter sends a span or event: every event, and
/// spans of every module outside the `h2` HTTP library.
pub open spec fn spec_exports(is_event: bool, target_module: Option<Seq<char>>) -> bool {
    is_event || match target_module {
        Some(p) => !(p.len() >= 4 && p.take(4) == "h2::"@),
        None => true,
    }
}

/// Filters what is sent to the tracing exporter: events always, and spans
/// unless they come from the `h2` HTTP library.
pub fn exports(is_event: bool, target_module: Option<&str>) -> (r: bool)
    ensures
        r == spec_exports(is_event, optional_text(target_module)),
{
    if is_event {
        return true;
    }
    match target_module {
        Some(p) => {
            if p.unicode_len() >= 4 {
                !chars_eq(p.substring_char(0, 4), "h2::", false)
            } else {
                true
            }
        },
        None => true,
    }
}

} // verus!
