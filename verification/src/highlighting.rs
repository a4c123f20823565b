//! Highlighting by position: where a keyword appears in a message, and
//! the message shown with that appearance emphasized.

use vstd::prelude::*;
use vstd::utf8::*;
use crate::db::ignore::Ignore;
use crate::db::keyword::Keyword;
use crate::db::notification::Notification;
use crate::keyword_match::{find_applicable_match, range_patterns_compile, spec_find_applicable_match};
use crate::pattern::{regex_compiles, regex_replaced, Pattern};
use crate::text::{get_range, substring};

verus! {

/// Discord's markdown symbols: `_*()[]~` and the backtick. Parentheses and
/// brackets count because embeds read them as parts of links.
pub open spec fn markdown_symbol_pattern() -> Seq<char> {
    "[_*()\\[\\]~`]"@
}

/// The replacement that puts a backslash before each match.
pub open spec fn escape_replacement() -> Seq<char> {
    "\\$0"@
}

/// `text` with a backslash before each markdown symbol.
pub open spec fn escaped(text: Seq<char>) -> Seq<char> {
    regex_replaced(markdown_symbol_pattern(), text, escape_replacement())
}

/// Escapes markdown symbols.
pub struct MarkdownEscaper {
    symbols: Pattern,
}

impl MarkdownEscaper {
    #[verifier::type_invariant]
    spec fn matches_symbols(self) -> bool {
        self.symbols.source() == markdown_symbol_pattern()
    }

    /// Compiles the pattern of markdown symbols; `None` when the regex crate
    /// rejects it.
    pub fn new() -> (r: Option<MarkdownEscaper>)
        ensures
            r is Some <==> regex_compiles(markdown_symbol_pattern()),
    {
        match Pattern::compile("[_*()\\[\\]~`]") {
            Some(symbols) => Some(MarkdownEscaper { symbols }),
            None => None,
        }
    }

    /// `text` with a backslash put before each markdown symbol.
    pub fn escape(&self, text: &str) -> (r: String)
        ensures
            r@ == escaped(text@),
    {
        proof {
            use_type_invariant(self);
        }
        self.symbols.replace_all(text, "\\$0")
    }
}

/// The byte length of a text.
pub open spec fn byte_len(s: Seq<char>) -> int {
    encode_utf8(s).len() as int
}

/// The bytes `start..end` fall on character boundaries of `content`, in
/// order.
pub open spec fn splits_at(content: Seq<char>, start: int, end: int) -> bool {
    &&& get_range(content, 0, start) is Some
    &&& get_range(content, start, end) is Some
    &&& get_range(content, end, byte_len(content)) is Some
}

/// The message text with the bytes `start..end` underlined and in bold,
/// and markdown symbols escaped.
pub open spec fn emphasized_text(content: Seq<char>, start: int, end: int) -> Seq<char> {
    escaped(get_range(content, 0, start)->0) + "__**"@ + escaped(get_range(content, start, end)->0)
        + "**__"@ + escaped(get_range(content, end, byte_len(content))->0)
}

/// Shows a message with the bytes `start..end` underlined and in bold,
/// escaping markdown symbols in all of it.
pub fn emphasized_content(escaper: &MarkdownEscaper, content: &str, start: usize, end: usize) -> (r: String)
    requires
        splits_at(content@, start as int, end as int),
    ensures
        r@ == emphasized_text(content@, start as int, end as int),
{
    let len = content.as_bytes().len();
    let before = match substring(content, 0, start) {
        Some(t) => t,
        None => "",
    };
    let inside = match substring(content, start, end) {
        Some(t) => t,
        None => "",
    };
    let after = match substring(content, end, len) {
        Some(t) => t,
        None => "",
    };
    assert(before@ == get_range(content@, 0, start as int)->0);
    assert(inside@ == get_range(content@, start as int, end as int)->0);
    assert(after@ == get_range(content@, end as int, byte_len(content@))->0);
    let mut r = escaper.escape(before);
    r.append("__**");
    r.append(escaper.escape(inside).as_str());
    r.append("**__");
    r.append(escaper.escape(after).as_str());
    r
}

/// One of the ignored phrases is found in `content`.
pub open spec fn ignore_found(ignores: Seq<Ignore>, content: Seq<char>) -> bool {
    exists|i: int|
        0 <= i < ignores.len() && (#[trigger] spec_find_applicable_match(ignores[i].phrase@, content)) is Some
}

/// Checks the text of a message for a keyword, and gives the byte range
/// where it appears: `None` when one of the owner's ignored phrases is
/// found in the message, or the keyword is not.
///
/// Whether the owner may read the channel is checked afterwards.
pub fn should_notify_keyword(keyword: &Keyword, ignores: &[Ignore], content: &str) -> (r: Option<core::ops::Range<usize>>)
    ensures
        range_patterns_compile() ==> (match r {
            Some(range) => !ignore_found(ignores@, content@) && spec_find_applicable_match(
                keyword.keyword@,
                content@,
            ) == Some((range.start as int, range.end as int)),
            None => ignore_found(ignores@, content@) || spec_find_applicable_match(
                keyword.keyword@,
                content@,
            ) is None,
        }),
        !range_patterns_compile() ==> r is None,
{
    let mut k: usize = 0;
    while k < ignores.len()
        invariant
            k <= ignores@.len(),
            range_patterns_compile() ==> forall|j: int|
                0 <= j < k ==> (#[trigger] spec_find_applicable_match(ignores@[j].phrase@, content@)) is None,
        decreases ignores.len() - k,
    {
        if find_applicable_match(ignores[k].phrase.as_str(), content).is_some() {
            assert(range_patterns_compile() ==> spec_find_applicable_match(ignores@[k as int].phrase@, content@) is Some);
            return None;
        }
        k = k + 1;
    }
    find_applicable_match(keyword.keyword.as_str(), content)
}

/// What becomes of a notification when its message is edited.
pub enum HighlightUpdate {
    /// The keyword still appears, at `range`: show the new text.
    Edit { notification: Notification, range: core::ops::Range<usize> },
    /// The keyword no longer appears: mark the notification as deleted and
    /// forget it.
    Delete(Notification),
}

/// Plans the update of each notification of an edited message, in order:
/// a notification whose keyword is still found is edited to show where,
/// and one whose keyword is gone is deleted.
pub fn plan_highlight_updates(notifications: Vec<Notification>, content: &str) -> (r: Vec<HighlightUpdate>)
    ensures
        r@.len() == notifications@.len(),
        range_patterns_compile() ==> forall|j: int|
            0 <= j < r@.len() ==> match spec_find_applicable_match(
                (#[trigger] notifications@[j]).keyword@,
                content@,
            ) {
                Some((start, end)) => r@[j] matches HighlightUpdate::Edit { notification, range }
                    && notification == notifications@[j] && range.start == start && range.end == end,
                None => r@[j] == HighlightUpdate::Delete(notifications@[j]),
            },
        !range_patterns_compile() ==> forall|j: int|
            0 <= j < r@.len() ==> r@[j] == HighlightUpdate::Delete(#[trigger] notifications@[j]),
{
    let ghost all = notifications@;
    let mut rest = notifications;
    let mut updates: Vec<HighlightUpdate> = Vec::new();
    while rest.len() > 0
        invariant
            updates@.len() + rest@.len() == all.len(),
            rest@ == all.skip(updates@.len() as int),
            range_patterns_compile() ==> forall|j: int|
                0 <= j < updates@.len() ==> match spec_find_applicable_match(
                    (#[trigger] all[j]).keyword@,
                    content@,
                ) {
                    Some((start, end)) => updates@[j] matches HighlightUpdate::Edit { notification, range }
                        && notification == all[j] && range.start == start && range.end == end,
                    None => updates@[j] == HighlightUpdate::Delete(all[j]),
                },
            !range_patterns_compile() ==> forall|j: int|
                0 <= j < updates@.len() ==> updates@[j] == HighlightUpdate::Delete(#[trigger] all[j]),
        decreases rest.len(),
    {
        let notification = rest.remove(0);
        assert(notification == all[updates@.len() as int]);
        match find_applicable_match(notification.keyword.as_str(), content) {
            Some(range) => updates.push(HighlightUpdate::Edit { notification, range }),
            None => updates.push(HighlightUpdate::Delete(notification)),
        }
        assert(rest@ =~= all.skip(updates@.len() as int));
    }
    updates
}

} // verus!
