//! Deciding whether a keyword appears in a message.
//!
//! A keyword containing whitespace is a phrase: it counts only where it is
//! bounded by word boundaries or by the ends of the text. A keyword containing other non-word
//! characters counts wherever it occurs. Any other keyword counts only as a
//! whole word, delimited by non-word characters. An occurrence that touches
//! a Discord mention (`<@id>`, `<#id>`, `<:emoji:id>`, ...) never counts.

use vstd::prelude::*;
use vstd::utf8::*;
use crate::pattern::{ordered_ranges, regex_compiles, regex_matches, Pattern};
use crate::text::{
    bytes_occur_at, clear_of, get_range, int_spans, occurs_at, ranges_clear_of, split_spans,
    substring,
};

verus! {

/// Whitespace (`\s`), lazily repeated for ASCII keywords.
pub open spec fn whitespace_pattern(ascii: bool) -> Seq<char> {
    if ascii {
        "(?U)\\s"@
    } else {
        "\\s"@
    }
}

/// Runs of non-word characters (`\W+`), lazily repeated for ASCII keywords.
pub open spec fn non_word_pattern(ascii: bool) -> Seq<char> {
    if ascii {
        "(?U)\\W+"@
    } else {
        "\\W+"@
    }
}

/// A text whose first and last characters stand at word boundaries: the
/// window around a phrase with a character on each side.
pub open spec fn bounded_pattern(ascii: bool) -> Seq<char> {
    if ascii {
        "(?sU)^.\\b.*\\b.$"@
    } else {
        "(?s)^.\\b.*\\b.$"@
    }
}

/// A text whose first character stands at a word boundary: the window
/// around a phrase that ends the text.
pub open spec fn bounded_before_pattern(ascii: bool) -> Seq<char> {
    if ascii {
        "(?sU)^.\\b.*$"@
    } else {
        "(?s)^.\\b.*$"@
    }
}

/// A text whose last character stands at a word boundary: the window
/// around a phrase that starts the text.
pub open spec fn bounded_after_pattern(ascii: bool) -> Seq<char> {
    if ascii {
        "(?sU)^.*\\b.$"@
    } else {
        "(?s)^.*\\b.$"@
    }
}

/// The three window patterns of a phrase keyword.
pub open spec fn keyword_bounds(ascii: bool) -> (Seq<char>, Seq<char>, Seq<char>) {
    (bounded_pattern(ascii), bounded_before_pattern(ascii), bounded_after_pattern(ascii))
}

/// A Discord mention: of a user (`<@id>`, `<@!id>`), a role (`<&id>`), a
/// channel (`<#id>`) or a custom emoji (`<:name:id>`, `<a:name:id>`).
pub open spec fn mention_pattern() -> Seq<char> {
    "<(@!?|&|#|a?:[a-zA-Z0-9_]*:)[0-9]+>"@
}

/// The byte ranges of the mentions in `content`.
pub open spec fn content_mentions(content: Seq<char>) -> Seq<(int, int)> {
    int_spans(regex_matches(mention_pattern(), content))
}

/// All the patterns that keyword matching uses are accepted by the regex
/// crate.
pub open spec fn keyword_patterns_compile() -> bool {
    &&& regex_compiles(mention_pattern())
    &&& regex_compiles(whitespace_pattern(true))
    &&& regex_compiles(whitespace_pattern(false))
    &&& regex_compiles(non_word_pattern(true))
    &&& regex_compiles(non_word_pattern(false))
    &&& regex_compiles(bounded_pattern(true))
    &&& regex_compiles(bounded_pattern(false))
    &&& regex_compiles(bounded_before_pattern(true))
    &&& regex_compiles(bounded_before_pattern(false))
    &&& regex_compiles(bounded_after_pattern(true))
    &&& regex_compiles(bounded_after_pattern(false))
}

/// The byte at which a window around a hit at `i` of length `len` starts:
/// one byte before the hit, or the start of the text.
pub open spec fn window_start(i: int) -> int {
    if i >= 1 {
        i - 1
    } else {
        0
    }
}

/// The byte at which a window around a hit ends: one byte after the hit,
/// or the end of the text.
pub open spec fn window_end(i: int, len: int, text_len: int) -> int {
    if i + len < text_len {
        i + len + 1
    } else {
        text_len
    }
}

/// The pattern that the window around a hit at byte `i` (of `len` bytes)
/// must match, among `bounds`: the first when the hit has a character on
/// each side, the second when it ends the text, the third when it starts
/// the text.
pub open spec fn window_pattern(
    bounds: (Seq<char>, Seq<char>, Seq<char>),
    i: int,
    len: int,
    text_len: int,
) -> Seq<char> {
    if i >= 1 && i + len < text_len {
        bounds.0
    } else if i >= 1 {
        bounds.1
    } else {
        bounds.2
    }
}

/// A phrase hit at byte `i` (of `len` bytes) is bounded when it spans the
/// whole text, when the window one byte wider on each side that has a
/// character cannot be cut out on character boundaries, or when that
/// window matches the pattern for the sides the hit has.
pub open spec fn phrase_bounded(
    content: Seq<char>,
    i: int,
    len: int,
    bounds: (Seq<char>, Seq<char>, Seq<char>),
) -> bool {
    let text_len = encode_utf8(content).len() as int;
    if i != 0 || i + len < text_len {
        match get_range(content, window_start(i), window_end(i, len, text_len)) {
            Some(window) => regex_matches(window_pattern(bounds, i, len, text_len), window).len() > 0,
            None => true,
        }
    } else {
        true
    }
}

/// Some occurrence of `kb` (found left to right, without overlap, from byte
/// `i`) is bounded as `bounds` demands and clear of every mention.
pub open spec fn phrase_hit_from(
    content: Seq<char>,
    kb: Seq<u8>,
    bounds: (Seq<char>, Seq<char>, Seq<char>),
    mentions: Seq<(int, int)>,
    i: int,
) -> bool
    decreases encode_utf8(content).len() - i,
{
    let cb = encode_utf8(content);
    if kb.len() == 0 || i < 0 || i + kb.len() > cb.len() {
        false
    } else if occurs_at(cb, kb, i) {
        (phrase_bounded(content, i, kb.len() as int, bounds) && clear_of(mentions, i, i + kb.len()))
            || phrase_hit_from(content, kb, bounds, mentions, i + kb.len())
    } else {
        phrase_hit_from(content, kb, bounds, mentions, i + 1)
    }
}

/// Some occurrence of `kb` (found left to right, without overlap, from byte
/// `i`) is clear of every mention in `cb`.
pub open spec fn substring_hit_from(cb: Seq<u8>, kb: Seq<u8>, mentions: Seq<(int, int)>, i: int) -> bool
    decreases cb.len() - i,
{
    if kb.len() == 0 || i < 0 || i + kb.len() > cb.len() {
        false
    } else if occurs_at(cb, kb, i) {
        clear_of(mentions, i, i + kb.len()) || substring_hit_from(cb, kb, mentions, i + kb.len())
    } else {
        substring_hit_from(cb, kb, mentions, i + 1)
    }
}

/// The bytes `s..e` of `cb` are exactly `kb`.
pub open spec fn fragment_is(cb: Seq<u8>, kb: Seq<u8>, s: int, e: int) -> bool {
    e - s == kb.len() && occurs_at(cb, kb, s)
}

/// Some fragment of `cb` (between the given separator ranges) equals `kb`
/// and is clear of every mention.
pub open spec fn fragment_hit(
    cb: Seq<u8>,
    kb: Seq<u8>,
    separators: Seq<(int, int)>,
    mentions: Seq<(int, int)>,
) -> bool {
    let spans = split_spans(separators, cb.len() as int);
    exists|k: int|
        0 <= k < spans.len() && fragment_is(cb, kb, #[trigger] spans[k].0, spans[k].1) && clear_of(
            mentions,
            spans[k].0,
            spans[k].0 + kb.len(),
        )
}

/// Whether `keyword` should be highlighted in `content`.
pub open spec fn spec_keyword_matches(keyword: Seq<char>, content: Seq<char>) -> bool {
    let ascii = is_ascii_chars(keyword);
    let kb = encode_utf8(keyword);
    let cb = encode_utf8(content);
    let mentions = content_mentions(content);
    if regex_matches(whitespace_pattern(ascii), keyword).len() > 0 {
        phrase_hit_from(content, kb, keyword_bounds(ascii), mentions, 0)
    } else if regex_matches(non_word_pattern(ascii), keyword).len() > 0 {
        substring_hit_from(cb, kb, mentions, 0)
    } else {
        fragment_hit(cb, kb, int_spans(regex_matches(non_word_pattern(ascii), content)), mentions)
    }
}

/// The compiled window patterns of phrase matching: for a hit with a
/// character on each side, for a hit that ends the text, and for a hit
/// that starts it.
pub struct PhraseBounds {
    both: Pattern,
    before: Pattern,
    after: Pattern,
}

impl PhraseBounds {
    /// The sources of the three patterns, in that order.
    pub closed spec fn sources(&self) -> (Seq<char>, Seq<char>, Seq<char>) {
        (self.both.source(), self.before.source(), self.after.source())
    }

    /// Compiles the three patterns; `None` when the regex crate rejects one.
    pub fn compile(both: &str, before: &str, after: &str) -> (r: Option<PhraseBounds>)
        ensures
            r is Some <==> (regex_compiles(both@) && regex_compiles(before@) && regex_compiles(after@)),
            r matches Some(b) ==> b.sources() == (both@, before@, after@),
    {
        match (Pattern::compile(both), Pattern::compile(before), Pattern::compile(after)) {
            (Some(both), Some(before), Some(after)) => Some(PhraseBounds { both, before, after }),
            _ => None,
        }
    }

    /// The pattern for a hit at byte `i` of `len` bytes in a text of
    /// `text_len` bytes.
    fn pick(&self, i: usize, len: usize, text_len: usize) -> (r: &Pattern)
        requires
            i + len <= text_len,
        ensures
            r.source() == window_pattern(self.sources(), i as int, len as int, text_len as int),
    {
        if i >= 1 && i + len < text_len {
            &self.both
        } else if i >= 1 {
            &self.before
        } else {
            &self.after
        }
    }
}

/// The compiled patterns that keyword matching needs.
pub struct KeywordMatcher {
    whitespace: Pattern,
    whitespace_ascii: Pattern,
    non_word: Pattern,
    non_word_ascii: Pattern,
    bounded: PhraseBounds,
    bounded_ascii: PhraseBounds,
    mention: Pattern,
}

impl KeywordMatcher {
    #[verifier::type_invariant]
    spec fn compiled_from_keyword_patterns(self) -> bool {
        &&& self.whitespace.source() == whitespace_pattern(false)
        &&& self.whitespace_ascii.source() == whitespace_pattern(true)
        &&& self.non_word.source() == non_word_pattern(false)
        &&& self.non_word_ascii.source() == non_word_pattern(true)
        &&& self.bounded.sources() == keyword_bounds(false)
        &&& self.bounded_ascii.sources() == keyword_bounds(true)
        &&& self.mention.source() == mention_pattern()
    }

    /// Compiles the patterns; `None` when the regex crate rejects one.
    pub fn new() -> (r: Option<KeywordMatcher>)
        ensures
            r is Some <==> keyword_patterns_compile(),
    {
        let whitespace = Pattern::compile("\\s");
        let whitespace_ascii = Pattern::compile("(?U)\\s");
        let non_word = Pattern::compile("\\W+");
        let non_word_ascii = Pattern::compile("(?U)\\W+");
        let bounded = PhraseBounds::compile("(?s)^.\\b.*\\b.$", "(?s)^.\\b.*$", "(?s)^.*\\b.$");
        let bounded_ascii = PhraseBounds::compile("(?sU)^.\\b.*\\b.$", "(?sU)^.\\b.*$", "(?sU)^.*\\b.$");
        let mention = Pattern::compile("<(@!?|&|#|a?:[a-zA-Z0-9_]*:)[0-9]+>");
        match (whitespace, whitespace_ascii, non_word, non_word_ascii, bounded, bounded_ascii, mention) {
            (Some(w), Some(wa), Some(n), Some(na), Some(b), Some(ba), Some(m)) => Some(
                KeywordMatcher {
                    whitespace: w,
                    whitespace_ascii: wa,
                    non_word: n,
                    non_word_ascii: na,
                    bounded: b,
                    bounded_ascii: ba,
                    mention: m,
                },
            ),
            _ => None,
        }
    }

    /// Whether `keyword` should be highlighted in `content`.
    pub fn matches(&self, keyword: &str, content: &str) -> (b: bool)
        ensures
            b == spec_keyword_matches(keyword@, content@),
    {
        proof {
            use_type_invariant(self);
        }
        let ascii = keyword.is_ascii();
        let whitespace = if ascii {
            &self.whitespace_ascii
        } else {
            &self.whitespace
        };
        let non_word = if ascii {
            &self.non_word_ascii
        } else {
            &self.non_word
        };
        let bounded = if ascii {
            &self.bounded_ascii
        } else {
            &self.bounded
        };
        let kb = keyword.as_bytes();
        let cb = content.as_bytes();
        let mentions = self.mention.find_ranges(content);
        if whitespace.is_match(keyword) {
            phrase_hit(bounded, keyword, content, &mentions)
        } else if non_word.is_match(keyword) {
            substring_hit(kb, cb, &mentions)
        } else {
            let separators = non_word.find_ranges(content);
            fragment_hit_exec(kb, cb, &separators, &mentions)
        }
    }
}

/// Whether the phrase hit at byte `i` of `len` bytes is bounded, given
/// the compiled window patterns.
pub fn window_bounded(bounded: &PhraseBounds, content: &str, i: usize, len: usize) -> (b: bool)
    requires
        i + len <= encode_utf8(content@).len(),
    ensures
        b == phrase_bounded(content@, i as int, len as int, bounded.sources()),
{
    let text_len = content.as_bytes().len();
    if i != 0 || i + len < text_len {
        let start = if i >= 1 {
            i - 1
        } else {
            0
        };
        let end = if i + len < text_len {
            i + len + 1
        } else {
            text_len
        };
        match substring(content, start, end) {
            Some(window) => bounded.pick(i, len, text_len).is_match(window),
            None => true,
        }
    } else {
        true
    }
}

/// Whether some occurrence of the phrase `keyword` in `content` is bounded
/// and clear of the mention ranges `mentions` (as the mention pattern found
/// them).
pub fn phrase_hit(
    bounded: &PhraseBounds,
    keyword: &str,
    content: &str,
    mentions: &Vec<(usize, usize)>,
) -> (b: bool)
    ensures
        b == phrase_hit_from(content@, encode_utf8(keyword@), bounded.sources(), int_spans(mentions@), 0),
{
    let kb = keyword.as_bytes();
    let cb = content.as_bytes();
    if kb.len() == 0 || kb.len() > cb.len() {
        return false;
    }
    let mut i: usize = 0;
    while i <= cb.len() - kb.len()
        invariant
            0 < kb.len() <= cb.len(),
            kb@ == encode_utf8(keyword@),
            cb@ == encode_utf8(content@),
            phrase_hit_from(content@, kb@, bounded.sources(), int_spans(mentions@), 0) == phrase_hit_from(
                content@,
                kb@,
                bounded.sources(),
                int_spans(mentions@),
                i as int,
            ),
        decreases cb.len() - i,
    {
        if bytes_occur_at(cb, kb, i) {
            if window_bounded(bounded, content, i, kb.len()) && ranges_clear_of(
                mentions,
                i,
                i + kb.len(),
            ) {
                return true;
            }
            i = i + kb.len();
        } else {
            i = i + 1;
        }
    }
    false
}

/// Whether some occurrence of the bytes `kb` in `cb` is clear of the
/// mention ranges `mentions` (as the mention pattern found them).
pub fn substring_hit(kb: &[u8], cb: &[u8], mentions: &Vec<(usize, usize)>) -> (b: bool)
    ensures
        b == substring_hit_from(cb@, kb@, int_spans(mentions@), 0),
{
    if kb.len() == 0 || kb.len() > cb.len() {
        return false;
    }
    let mut i: usize = 0;
    while i <= cb.len() - kb.len()
        invariant
            0 < kb.len() <= cb.len(),
            substring_hit_from(cb@, kb@, int_spans(mentions@), 0) == substring_hit_from(
                cb@,
                kb@,
                int_spans(mentions@),
                i as int,
            ),
        decreases cb.len() - i,
    {
        if bytes_occur_at(cb, kb, i) {
            if ranges_clear_of(mentions, i, i + kb.len()) {
                return true;
            }
            i = i + kb.len();
        } else {
            i = i + 1;
        }
    }
    false
}

/// Checks one fragment `s..e` of `cb` against the keyword.
fn fragment_ok(kb: &[u8], cb: &[u8], s: usize, e: usize, mentions: &Vec<(usize, usize)>) -> (b:
    bool)
    requires
        s <= e <= cb.len(),
    ensures
        b == (fragment_is(cb@, kb@, s as int, e as int) && clear_of(
            int_spans(mentions@),
            s as int,
            s + kb@.len(),
        )),
{
    if e - s == kb.len() && bytes_occur_at(cb, kb, s) {
        assert(fragment_is(cb@, kb@, s as int, e as int));
        ranges_clear_of(mentions, s, s + kb.len())
    } else {
        false
    }
}

/// Whether some fragment of `cb` between the non-word runs `separators`
/// (as the non-word pattern found them) is the keyword `kb` and clear of
/// the mention ranges `mentions`.
pub fn fragment_hit_exec(
    kb: &[u8],
    cb: &[u8],
    separators: &Vec<(usize, usize)>,
    mentions: &Vec<(usize, usize)>,
) -> (b: bool)
    requires
        ordered_ranges(separators@, cb@.len() as int),
    ensures
        b == fragment_hit(cb@, kb@, int_spans(separators@), int_spans(mentions@)),
{
    let ghost spans = split_spans(int_spans(separators@), cb@.len() as int);
    let mut k: usize = 0;
    let mut prev_end: usize = 0;
    while k < separators.len()
        invariant
            k <= separators.len(),
            ordered_ranges(separators@, cb@.len() as int),
            spans == split_spans(int_spans(separators@), cb@.len() as int),
            prev_end as int == spans[k as int].0,
            prev_end <= cb.len(),
            k < separators.len() ==> prev_end <= separators@[k as int].0,
            forall|l: int|
                0 <= l < k ==> !(fragment_is(cb@, kb@, #[trigger] spans[l].0, spans[l].1)
                    && clear_of(int_spans(mentions@), spans[l].0, spans[l].0 + kb@.len())),
        decreases separators.len() - k,
    {
        let (start, end) = separators[k];
        assert(spans[k as int] == (prev_end as int, start as int));
        if fragment_ok(kb, cb, prev_end, start, mentions) {
            assert(fragment_is(cb@, kb@, spans[k as int].0, spans[k as int].1));
            return true;
        }
        prev_end = end;
        k = k + 1;
        assert(k < separators.len() ==> separators@[k - 1].1 <= separators@[k as int].0);
    }
    assert(spans[k as int] == (prev_end as int, cb@.len() as int));
    if fragment_ok(kb, cb, prev_end, cb.len(), mentions) {
        assert(fragment_is(cb@, kb@, spans[k as int].0, spans[k as int].1));
        return true;
    }
    assert forall|l: int|
        0 <= l < spans.len() implies !(fragment_is(cb@, kb@, #[trigger] spans[l].0, spans[l].1)
        && clear_of(int_spans(mentions@), spans[l].0, spans[l].0 + kb@.len())) by {
        if l == k {
        }
    }
    false
}


/// The keyword occurs in the content at byte `i`, touching no mention.
pub open spec fn clear_occurrence(keyword: Seq<char>, content: Seq<char>, i: int) -> bool {
    &&& occurs_at(encode_utf8(content), encode_utf8(keyword), i)
    &&& clear_of(content_mentions(content), i, i + encode_utf8(keyword).len())
}

proof fn lemma_phrase_hit_occurs(
    content: Seq<char>,
    kb: Seq<u8>,
    bounds: (Seq<char>, Seq<char>, Seq<char>),
    mentions: Seq<(int, int)>,
    i: int,
)
    requires
        phrase_hit_from(content, kb, bounds, mentions, i),
    ensures
        exists|j: int| j >= i && occurs_at(encode_utf8(content), kb, j) && clear_of(mentions, j, j + kb.len()),
    decreases encode_utf8(content).len() - i,
{
    let cb = encode_utf8(content);
    if occurs_at(cb, kb, i) {
        if phrase_bounded(content, i, kb.len() as int, bounds) && clear_of(mentions, i, i + kb.len()) {
            assert(occurs_at(cb, kb, i) && clear_of(mentions, i, i + kb.len()));
        } else {
            lemma_phrase_hit_occurs(content, kb, bounds, mentions, i + kb.len());
        }
    } else {
        lemma_phrase_hit_occurs(content, kb, bounds, mentions, i + 1);
    }
}

proof fn lemma_substring_hit_occurs(cb: Seq<u8>, kb: Seq<u8>, mentions: Seq<(int, int)>, i: int)
    requires
        substring_hit_from(cb, kb, mentions, i),
    ensures
        exists|j: int| j >= i && occurs_at(cb, kb, j) && clear_of(mentions, j, j + kb.len()),
    decreases cb.len() - i,
{
    if occurs_at(cb, kb, i) {
        if clear_of(mentions, i, i + kb.len()) {
            assert(occurs_at(cb, kb, i) && clear_of(mentions, i, i + kb.len()));
        } else {
            lemma_substring_hit_occurs(cb, kb, mentions, i + kb.len());
        }
    } else {
        lemma_substring_hit_occurs(cb, kb, mentions, i + 1);
    }
}

/// The left-to-right scan for a phrase from byte `i` finds every
/// occurrence that no earlier occurrence overlaps: if the phrase occurs at
/// byte `j >= i`, bounded and clear of every mention, and no occurrence
/// starts from `i` on within the phrase's length before `j`, then the scan
/// from `i` reports a hit. So a phrase counts when any of its occurrences
/// does, not only the first.
pub proof fn lemma_bounded_occurrence_is_hit(
    content: Seq<char>,
    kb: Seq<u8>,
    bounds: (Seq<char>, Seq<char>, Seq<char>),
    mentions: Seq<(int, int)>,
    i: int,
    j: int,
)
    requires
        0 <= i <= j,
        kb.len() > 0,
        occurs_at(encode_utf8(content), kb, j),
        phrase_bounded(content, j, kb.len() as int, bounds),
        clear_of(mentions, j, j + kb.len()),
        forall|p: int| i <= p < j && j < p + kb.len() ==> !occurs_at(encode_utf8(content), kb, p),
    ensures
        phrase_hit_from(content, kb, bounds, mentions, i),
    decreases j - i,
{
    let cb = encode_utf8(content);
    if i < j {
        if occurs_at(cb, kb, i) {
            assert(i + kb.len() <= j);
            if !(phrase_bounded(content, i, kb.len() as int, bounds) && clear_of(mentions, i, i + kb.len())) {
                lemma_bounded_occurrence_is_hit(content, kb, bounds, mentions, i + kb.len(), j);
            }
        } else {
            lemma_bounded_occurrence_is_hit(content, kb, bounds, mentions, i + 1, j);
        }
    }
}

/// The scan for a keyword with symbols from byte `i` finds every
/// occurrence that no earlier occurrence overlaps: an occurrence at byte
/// `j >= i` clear of every mention, with no occurrence starting from `i`
/// on within the keyword's length before `j`, makes the scan report a hit.
pub proof fn lemma_clear_occurrence_is_hit(cb: Seq<u8>, kb: Seq<u8>, mentions: Seq<(int, int)>, i: int, j: int)
    requires
        0 <= i <= j,
        kb.len() > 0,
        occurs_at(cb, kb, j),
        clear_of(mentions, j, j + kb.len()),
        forall|p: int| i <= p < j && j < p + kb.len() ==> !occurs_at(cb, kb, p),
    ensures
        substring_hit_from(cb, kb, mentions, i),
    decreases j - i,
{
    if i < j {
        if occurs_at(cb, kb, i) {
            assert(i + kb.len() <= j);
            if !clear_of(mentions, i, i + kb.len()) {
                lemma_clear_occurrence_is_hit(cb, kb, mentions, i + kb.len(), j);
            }
        } else {
            lemma_clear_occurrence_is_hit(cb, kb, mentions, i + 1, j);
        }
    }
}

/// A keyword is highlighted only where it really appears: every match is
/// an occurrence of the keyword's bytes in the content that touches no
/// mention.
pub proof fn lemma_match_is_clear_occurrence(keyword: Seq<char>, content: Seq<char>)
    requires
        spec_keyword_matches(keyword, content),
    ensures
        exists|i: int| clear_occurrence(keyword, content, i),
{
    let ascii = is_ascii_chars(keyword);
    let kb = encode_utf8(keyword);
    let cb = encode_utf8(content);
    let mentions = content_mentions(content);
    if regex_matches(whitespace_pattern(ascii), keyword).len() > 0 {
        lemma_phrase_hit_occurs(content, kb, keyword_bounds(ascii), mentions, 0);
        let j = choose|j: int| j >= 0 && occurs_at(cb, kb, j) && clear_of(mentions, j, j + kb.len());
        assert(clear_occurrence(keyword, content, j));
    } else if regex_matches(non_word_pattern(ascii), keyword).len() > 0 {
        lemma_substring_hit_occurs(cb, kb, mentions, 0);
        let j = choose|j: int| j >= 0 && occurs_at(cb, kb, j) && clear_of(mentions, j, j + kb.len());
        assert(clear_occurrence(keyword, content, j));
    } else {
        let spans = split_spans(int_spans(regex_matches(non_word_pattern(ascii), content)), cb.len() as int);
        let k = choose|k: int|
            0 <= k < spans.len() && fragment_is(cb, kb, #[trigger] spans[k].0, spans[k].1) && clear_of(
                mentions,
                spans[k].0,
                spans[k].0 + kb.len(),
            );
        assert(clear_occurrence(keyword, content, spans[k].0));
    }
}

/// Whether `keyword` should be highlighted in `content`.
///
/// Compiles its patterns on each call; when the regex crate rejects one of
/// them, nothing is highlighted.
pub fn keyword_matches(keyword: &str, content: &str) -> (b: bool)
    ensures
        keyword_patterns_compile() ==> b == spec_keyword_matches(keyword@, content@),
        !keyword_patterns_compile() ==> !b,
{
    match KeywordMatcher::new() {
        Some(matcher) => matcher.matches(keyword, content),
        None => false,
    }
}


/// ASCII upper-case letters mapped to lower case.
pub open spec fn ascii_lower(b: u8) -> u8 {
    if 65 <= b <= 90 {
        (b + 32) as u8
    } else {
        b
    }
}

/// Byte strings equal up to ASCII case.
pub open spec fn eq_ignore_ascii_case(a: Seq<u8>, b: Seq<u8>) -> bool {
    a.len() == b.len() && forall|k: int| 0 <= k < a.len() ==> ascii_lower(#[trigger] a[k]) == ascii_lower(b[k])
}

/// Whitespace (`\s`), as the ranged matcher writes it.
pub open spec fn range_whitespace_pattern() -> Seq<char> {
    "\\s"@
}

/// A window that starts and ends with whitespace: the window around a
/// phrase with a character on each side.
pub open spec fn range_bounded_pattern() -> Seq<char> {
    "(?s)^\\s.*\\s$"@
}

/// A window that starts with whitespace: the window around a phrase that
/// ends the text.
pub open spec fn range_bounded_before_pattern() -> Seq<char> {
    "(?s)^\\s.*$"@
}

/// A window that ends with whitespace: the window around a phrase that
/// starts the text.
pub open spec fn range_bounded_after_pattern() -> Seq<char> {
    "(?s)^.*\\s$"@
}

/// The three window patterns of a phrase for the ranged matcher: it must be
/// bounded by whitespace or by the ends of the text.
pub open spec fn range_bounds() -> (Seq<char>, Seq<char>, Seq<char>) {
    (range_bounded_pattern(), range_bounded_before_pattern(), range_bounded_after_pattern())
}

/// A character that is not an ASCII letter or digit.
pub open spec fn range_symbol_pattern() -> Seq<char> {
    "[^a-zA-Z0-9]"@
}

/// A run of characters that are not ASCII letters or digits.
pub open spec fn range_separator_pattern() -> Seq<char> {
    "[^a-zA-Z0-9]+"@
}

/// All the patterns that the ranged matcher uses are accepted by the regex
/// crate.
pub open spec fn range_patterns_compile() -> bool {
    &&& regex_compiles(range_whitespace_pattern())
    &&& regex_compiles(range_bounded_pattern())
    &&& regex_compiles(range_bounded_before_pattern())
    &&& regex_compiles(range_bounded_after_pattern())
    &&& regex_compiles(range_symbol_pattern())
    &&& regex_compiles(range_separator_pattern())
}

/// The first occurrence of `kb` (found left to right, without overlap, from
/// byte `i`) that is bounded as `bounds` demands.
pub open spec fn first_bounded_from(
    content: Seq<char>,
    kb: Seq<u8>,
    bounds: (Seq<char>, Seq<char>, Seq<char>),
    i: int,
) -> Option<int>
    decreases encode_utf8(content).len() - i,
{
    let cb = encode_utf8(content);
    if kb.len() == 0 || i < 0 || i + kb.len() > cb.len() {
        None
    } else if occurs_at(cb, kb, i) {
        if phrase_bounded(content, i, kb.len() as int, bounds) {
            Some(i)
        } else {
            first_bounded_from(content, kb, bounds, i + kb.len())
        }
    } else {
        first_bounded_from(content, kb, bounds, i + 1)
    }
}

/// The first occurrence of a non-empty `kb` at or after byte `i`.
pub open spec fn first_occurrence_from(cb: Seq<u8>, kb: Seq<u8>, i: int) -> Option<int>
    decreases cb.len() - i,
{
    if kb.len() == 0 || i < 0 || i + kb.len() > cb.len() {
        None
    } else if occurs_at(cb, kb, i) {
        Some(i)
    } else {
        first_occurrence_from(cb, kb, i + 1)
    }
}

/// The start of the first span, from index `k` on, whose text equals `kb`
/// up to ASCII case.
pub open spec fn first_fragment_from(cb: Seq<u8>, kb: Seq<u8>, spans: Seq<(int, int)>, k: int) -> Option<int>
    decreases spans.len() - k,
{
    if k < 0 || k >= spans.len() {
        None
    } else if eq_ignore_ascii_case(cb.subrange(spans[k].0, spans[k].1), kb) {
        Some(spans[k].0)
    } else {
        first_fragment_from(cb, kb, spans, k + 1)
    }
}

/// Where the ranged matcher finds `keyword` in `content`, as a byte range.
pub open spec fn spec_find_applicable_match(keyword: Seq<char>, content: Seq<char>) -> Option<(int, int)> {
    let kb = encode_utf8(keyword);
    let cb = encode_utf8(content);
    let start = if regex_matches(range_whitespace_pattern(), keyword).len() > 0 {
        first_bounded_from(content, kb, range_bounds(), 0)
    } else if regex_matches(range_symbol_pattern(), keyword).len() > 0 {
        first_occurrence_from(cb, kb, 0)
    } else {
        first_fragment_from(
            cb,
            kb,
            split_spans(int_spans(regex_matches(range_separator_pattern(), content)), cb.len() as int),
            0,
        )
    };
    match start {
        Some(s) => Some((s, s + kb.len())),
        None => None,
    }
}

fn bytes_eq_ignore_ascii_case(a: &[u8], s: usize, e: usize, kb: &[u8]) -> (r: bool)
    requires
        s <= e <= a.len(),
    ensures
        r == eq_ignore_ascii_case(a@.subrange(s as int, e as int), kb@),
{
    if e - s != kb.len() {
        return false;
    }
    let mut j: usize = 0;
    while j < kb.len()
        invariant
            e - s == kb.len(),
            e <= a.len(),
            j <= kb.len(),
            forall|k: int| 0 <= k < j ==> ascii_lower(a@[s + k]) == ascii_lower(kb@[k]),
        decreases kb.len() - j,
    {
        let x = a[s + j];
        let y = kb[j];
        let lx = if 65 <= x && x <= 90 { x + 32 } else { x };
        let ly = if 65 <= y && y <= 90 { y + 32 } else { y };
        if lx != ly {
            assert(a@.subrange(s as int, e as int)[j as int] == x);
            return false;
        }
        j = j + 1;
    }
    assert forall|k: int| 0 <= k < kb@.len() implies ascii_lower(
        #[trigger] a@.subrange(s as int, e as int)[k],
    ) == ascii_lower(kb@[k]) by {
        assert(a@.subrange(s as int, e as int)[k] == a@[s + k]);
    }
    true
}

/// The first bounded occurrence of the phrase `keyword` in `content`,
/// given the compiled window patterns.
pub fn first_bounded(bounded: &PhraseBounds, keyword: &str, content: &str) -> (r: Option<usize>)
    ensures
        r matches Some(i) ==> first_bounded_from(content@, encode_utf8(keyword@), bounded.sources(), 0)
            == Some(i as int) && i + encode_utf8(keyword@).len() <= encode_utf8(content@).len(),
        r is None ==> first_bounded_from(content@, encode_utf8(keyword@), bounded.sources(), 0) is None,
{
    let kb = keyword.as_bytes();
    let cb = content.as_bytes();
    if kb.len() == 0 || kb.len() > cb.len() {
        return None;
    }
    let mut i: usize = 0;
    while i <= cb.len() - kb.len()
        invariant
            0 < kb.len() <= cb.len(),
            kb@ == encode_utf8(keyword@),
            cb@ == encode_utf8(content@),
            first_bounded_from(content@, kb@, bounded.sources(), 0) == first_bounded_from(
                content@,
                kb@,
                bounded.sources(),
                i as int,
            ),
        decreases cb.len() - i,
    {
        if bytes_occur_at(cb, kb, i) {
            if window_bounded(bounded, content, i, kb.len()) {
                return Some(i);
            }
            i = i + kb.len();
        } else {
            i = i + 1;
        }
    }
    None
}

/// The first occurrence of the bytes `kb` in `cb`.
pub fn first_occurrence(cb: &[u8], kb: &[u8]) -> (r: Option<usize>)
    ensures
        r matches Some(i) ==> first_occurrence_from(cb@, kb@, 0) == Some(i as int) && i + kb@.len()
            <= cb@.len(),
        r is None ==> first_occurrence_from(cb@, kb@, 0) is None,
{
    if kb.len() == 0 || kb.len() > cb.len() {
        return None;
    }
    let mut i: usize = 0;
    while i <= cb.len() - kb.len()
        invariant
            0 < kb.len() <= cb.len(),
            first_occurrence_from(cb@, kb@, 0) == first_occurrence_from(cb@, kb@, i as int),
        decreases cb.len() - i,
    {
        if bytes_occur_at(cb, kb, i) {
            return Some(i);
        }
        i = i + 1;
    }
    None
}

/// The start of the first fragment of `cb` between the runs `separators`
/// (as the separator pattern found them) that equals `kb` up to ASCII
/// case.
pub fn first_fragment(cb: &[u8], kb: &[u8], separators: &Vec<(usize, usize)>) -> (r: Option<usize>)
    requires
        ordered_ranges(separators@, cb@.len() as int),
    ensures
        r matches Some(s) ==> first_fragment_from(
            cb@,
            kb@,
            split_spans(int_spans(separators@), cb@.len() as int),
            0,
        ) == Some(s as int) && s + kb@.len() <= cb@.len(),
        r is None ==> first_fragment_from(
            cb@,
            kb@,
            split_spans(int_spans(separators@), cb@.len() as int),
            0,
        ) is None,
{
    let ghost spans = split_spans(int_spans(separators@), cb@.len() as int);
    let mut k: usize = 0;
    let mut prev_end: usize = 0;
    while k < separators.len()
        invariant
            k <= separators.len(),
            ordered_ranges(separators@, cb@.len() as int),
            spans == split_spans(int_spans(separators@), cb@.len() as int),
            prev_end as int == spans[k as int].0,
            prev_end <= cb.len(),
            k < separators.len() ==> prev_end <= separators@[k as int].0,
            first_fragment_from(cb@, kb@, spans, 0) == first_fragment_from(cb@, kb@, spans, k as int),
        decreases separators.len() - k,
    {
        let (start, end) = separators[k];
        assert(spans[k as int] == (prev_end as int, start as int));
        if bytes_eq_ignore_ascii_case(cb, prev_end, start, kb) {
            return Some(prev_end);
        }
        prev_end = end;
        k = k + 1;
        assert(k < separators.len() ==> separators@[k - 1].1 <= separators@[k as int].0);
    }
    assert(spans[k as int] == (prev_end as int, cb@.len() as int));
    if bytes_eq_ignore_ascii_case(cb, prev_end, cb.len(), kb) {
        return Some(prev_end);
    }
    assert(first_fragment_from(cb@, kb@, spans, k + 1) is None);
    None
}

/// Finds where `keyword` appears in `content`, as the ranged matcher does,
/// and returns the byte range of that appearance.
///
/// A keyword with whitespace must appear as a phrase bounded by whitespace
/// or the ends of the text; one with other characters that are not ASCII
/// letters or digits may appear anywhere; any other keyword must appear as
/// a whole word between such characters, compared without regard to ASCII
/// case.
pub fn find_applicable_match(keyword: &str, content: &str) -> (r: Option<core::ops::Range<usize>>)
    ensures
        range_patterns_compile() ==> (match r {
            Some(range) => spec_find_applicable_match(keyword@, content@) == Some(
                (range.start as int, range.end as int),
            ),
            None => spec_find_applicable_match(keyword@, content@) is None,
        }),
        !range_patterns_compile() ==> r is None,
{
    let whitespace = match Pattern::compile("\\s") {
        Some(p) => p,
        None => return None,
    };
    let bounded = match PhraseBounds::compile("(?s)^\\s.*\\s$", "(?s)^\\s.*$", "(?s)^.*\\s$") {
        Some(p) => p,
        None => return None,
    };
    let symbol = match Pattern::compile("[^a-zA-Z0-9]") {
        Some(p) => p,
        None => return None,
    };
    let separators = match Pattern::compile("[^a-zA-Z0-9]+") {
        Some(p) => p,
        None => return None,
    };
    let kb = keyword.as_bytes();
    let cb = content.as_bytes();
    let start = if whitespace.is_match(keyword) {
        let found = first_bounded(&bounded, keyword, content);
        assert(found matches Some(s) ==> s + kb.len() <= cb.len());
        found
    } else if symbol.is_match(keyword) {
        let found = first_occurrence(cb, kb);
        assert(found matches Some(s) ==> s + kb.len() <= cb.len());
        found
    } else {
        let runs = separators.find_ranges(content);
        let found = first_fragment(cb, kb, &runs);
        assert(found matches Some(s) ==> s + kb.len() <= cb.len());
        found
    };
    match start {
        Some(s) => Some(s..s + kb.len()),
        None => None,
    }
}

} // verus!
