//! Reporting errors and panics to a Discord webhook: which log records are
//! reported, and the text sent for them.

use vstd::prelude::*;
use vstd::string::*;
use crate::strings::{decimal, decimal_string};

verus! {

/// The severity of a log record.
#[derive(Clone, Copy, Debug, PartialEq, Eq, Structural)]
pub enum Level {
    Error,
    Warn,
    Info,
    Debug,
    Trace,
}

/// The most verbose severity a logger lets through, or none.
#[derive(Clone, Copy, Debug, PartialEq, Eq, Structural)]
pub enum LevelFilter {
    Off,
    Error,
    Warn,
    Info,
    Debug,
    Trace,
}

/// Logs error records to the configured webhook.
#[derive(Clone, Copy, Debug, PartialEq, Eq, Structural)]
pub struct WebhookLogger;

impl WebhookLogger {
    /// Only error records are reported.
    pub fn enabled(&self, level: Level) -> (r: bool)
        ensures
            r == (level == Level::Error),
    {
        match level {
            Level::Error => true,
            _ => false,
        }
    }

    /// The logger lets error records through.
    pub fn level(&self) -> (r: LevelFilter)
        ensures
            r == LevelFilter::Error,
    {
        LevelFilter::Error
    }

    /// The text reported for a record: `[ERROR] ` and the record's message,
    /// for error records; nothing for others.
    pub fn report_content(&self, level: Level, message: &str) -> (r: Option<String>)
        ensures
            level == Level::Error ==> (r matches Some(s) && s@ == "[ERROR] "@ + message@),
            level != Level::Error ==> r is None,
    {
        if self.enabled(level) {
            Some("[ERROR] ".to_owned().concat(message))
        } else {
            None
        }
    }
}

/// The text reported for a panic: `[PANIC] ` and the panic's description.
pub fn panic_report_content(description: &str) -> (r: String)
    ensures
        r@ == "[PANIC] "@ + description@,
{
    "[PANIC] ".to_owned().concat(description)
}

/// The text reported for a panic by the tracing-based reporter:
/// `**[PANIC]** ` and the panic's description.
pub fn traced_panic_report_content(description: &str) -> (r: String)
    ensures
        r@ == "**[PANIC]** "@ + description@,
{
    "**[PANIC]** ".to_owned().concat(description)
}

/// Whether the tracing-based reporter sends an event of this severity:
/// only errors are sent.
pub fn reports_event(level: Level) -> (r: bool)
    ensures
        r == (level == Level::Error),
{
    match level {
        Level::Error => true,
        _ => false,
    }
}

/// A span around a reported event: its name, and its formatted fields if
/// they were recorded.
pub struct SpanFields {
    pub name: String,
    pub fields: Option<String>,
}

/// The text for one span: `__name__`, `{*fields*}` when it has any, and
/// `: `; nothing for a span whose fields were not recorded.
pub open spec fn span_text(name: Seq<char>, fields: Option<Seq<char>>) -> Seq<char> {
    match fields {
        Some(f) => "__"@ + name + "__"@ + (if f.len() > 0 {
            "{*"@ + f + "*}"@
        } else {
            Seq::empty()
        }) + ": "@,
        None => Seq::empty(),
    }
}

pub open spec fn spans_text(spans: Seq<SpanFields>) -> Seq<char>
    decreases spans.len(),
{
    if spans.len() == 0 {
        Seq::empty()
    } else {
        spans_text(spans.drop_last()) + span_text(
            spans.last().name@,
            match spans.last().fields {
                Some(f) => Some(f@),
                None => None,
            },
        )
    }
}

/// The text for where an event happened: `*file:line:* `, or `*file* `
/// without a line, or nothing without a file.
pub open spec fn location_text(file: Option<Seq<char>>, line: Option<u32>) -> Seq<char> {
    match file {
        Some(f) => "*"@ + f + ":"@ + match line {
            Some(l) => decimal(l as nat) + ":* "@,
            None => "* "@,
        },
        None => Seq::empty(),
    }
}

/// The message sent for an error event: `**[ERROR]** `, the spans from the
/// root inwards, the location, `__target__: `, and the event's fields.
pub open spec fn event_text(
    spans: Seq<SpanFields>,
    file: Option<Seq<char>>,
    line: Option<u32>,
    target: Seq<char>,
    fields: Seq<char>,
) -> Seq<char> {
    "**[ERROR]** "@ + spans_text(spans) + location_text(file, line) + "__"@ + target + "__: "@ + fields
}

/// Formats the message sent for an error event.
pub fn format_event(
    spans: &Vec<SpanFields>,
    file: Option<&str>,
    line: Option<u32>,
    target: &str,
    fields: &str,
) -> (r: String)
    ensures
        r@ == event_text(
            spans@,
            match file {
                Some(f) => Some(f@),
                None => None,
            },
            line,
            target@,
            fields@,
        ),
{
    let mut contents = "**[ERROR]** ".to_owned();
    let mut k: usize = 0;
    while k < spans.len()
        invariant
            k <= spans.len(),
            contents@ == "**[ERROR]** "@ + spans_text(spans@.take(k as int)),
        decreases spans.len() - k,
    {
        let span = &spans[k];
        let ghost before = contents@;
        match &span.fields {
            Some(f) => {
                contents.append("__");
                contents.append(span.name.as_str());
                contents.append("__");
                if !f.as_str().is_empty() {
                    contents.append("{*");
                    contents.append(f.as_str());
                    contents.append("*}");
                }
                contents.append(": ");
            },
            None => {},
        }
        assert(spans@.take(k + 1).drop_last() =~= spans@.take(k as int));
        assert(contents@ =~= "**[ERROR]** "@ + spans_text(spans@.take(k + 1)));
        k = k + 1;
    }
    assert(spans@.take(spans.len() as int) =~= spans@);
    match file {
        Some(f) => {
            contents.append("*");
            contents.append(f);
            contents.append(":");
            match line {
                Some(l) => {
                    let digits = decimal_string(l as u64);
                    contents.append(digits.as_str());
                    contents.append(":* ");
                },
                None => {
                    contents.append("* ");
                },
            }
        },
        None => {},
    }
    contents.append("__");
    contents.append(target);
    contents.append("__: ");
    contents.append(fields);
    contents
}

} // verus!
