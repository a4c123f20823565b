use highlights::keyword_match::{
    find_applicable_match, first_fragment, first_occurrence, fragment_hit_exec, keyword_matches,
    substring_hit, KeywordMatcher,
};

#[test]
fn keyword_match_basic() {
    assert!(keyword_matches("bar", "foo bar baz"));
}

#[test]
fn keyword_match_phrase() {
    assert!(keyword_matches("foo bar", "baz foo bar."));
}

#[test]
fn keyword_match_complex() {
    assert!(keyword_matches("$bar", "foo$bar%baz"));
}

#[test]
fn keyword_match_unicode() {
    assert!(keyword_matches("ဥပမာ", "စမ်းသပ်မှု—ဥပမာ—ကျေးဇူးပြု၍ လျစ်လျူရှုပါ"));

    assert!(!keyword_matches("ဥပမာ", "စမ်းသပ်မှုဥပမာ"));
}

#[test]
fn keyword_inside_a_word_is_not_a_match() {
    assert!(!keyword_matches("bar", "foobar baz"));
    assert!(!keyword_matches("bar", "barbell"));
}

#[test]
fn keyword_inside_a_mention_is_not_a_match() {
    assert!(!keyword_matches("123", "hi <@123>"));
    assert!(!keyword_matches("123", "<@!123>"));
    assert!(!keyword_matches("emoji", "<:emoji:456>"));
    assert!(!keyword_matches("emoji", "<a:emoji:456>"));
    assert!(keyword_matches("123", "123 <@456>"));
}

#[test]
fn keyword_touching_a_mention_is_not_a_match() {
    assert!(!keyword_matches("$bar", "$bar<#99>"));
    assert!(keyword_matches("$bar", "$bar <#99>"));
}

#[test]
fn phrase_must_stand_between_word_boundaries() {
    assert!(!keyword_matches("foo bar", "xfoo bar"));
    assert!(!keyword_matches("foo bar", "foo barx"));
    assert!(keyword_matches("foo bar", "foo bar"));
    assert!(keyword_matches("foo bar", "(foo bar)"));
}

#[test]
fn phrase_at_the_edges_of_a_message_matches() {
    assert!(keyword_matches("hello world", "say hello world"));
    assert!(keyword_matches("hello world", "hello world, say it"));
    assert!(!keyword_matches("hello world", "hello worlds"));
    assert!(!keyword_matches("hello world", "ahello world"));
    assert!(keyword_matches("foo bar", "x\nfoo bar\ny"));
}

#[test]
fn matcher_agrees_with_keyword_matches() {
    let matcher = KeywordMatcher::new().unwrap();
    assert!(matcher.matches("bar", "foo bar baz"));
    assert!(!matcher.matches("bar", "foobar"));
}

#[test]
fn range_match_finds_whole_words_ignoring_case() {
    assert_eq!(find_applicable_match("bar", "foo BAR baz"), Some(4..7));
    assert_eq!(find_applicable_match("bar", "foobar"), None);
}

#[test]
fn range_match_finds_symbols_anywhere() {
    assert_eq!(find_applicable_match("$bar", "foo$bar%baz"), Some(3..7));
}

#[test]
fn range_match_finds_phrases() {
    assert_eq!(find_applicable_match("foo bar", "baz foo bar qux"), Some(4..11));
    assert_eq!(find_applicable_match("foo bar", "xfoo bar"), None);
    assert_eq!(find_applicable_match("foo bar", "xfoo bary"), None);
    assert_eq!(find_applicable_match("foo bar", "foo bar baz"), Some(0..7));
    assert_eq!(find_applicable_match("foo bar", "baz foo bar"), Some(4..11));
    assert_eq!(find_applicable_match("foo bar", "foo bar"), Some(0..7));
}

#[test]
fn matching_steps_on_given_ranges() {
    let content = b"foo bar <@1> bar";
    // "bar" at 4 is clear; the mention spans 8..12.
    assert!(substring_hit(b"bar", content, &vec![(8, 12)]));
    assert!(!substring_hit(b"<@1", content, &vec![(8, 12)]));
    // Non-word runs: 3..4, 7..10, 11..13.
    let separators = vec![(3, 4), (7, 10), (11, 13)];
    assert!(fragment_hit_exec(b"foo", content, &separators, &vec![]));
    assert!(!fragment_hit_exec(b"fo", content, &separators, &vec![]));
    assert_eq!(first_fragment(content, b"BAR", &separators), Some(4));
    assert_eq!(first_occurrence(content, b"bar"), Some(4));
    assert_eq!(first_occurrence(content, b"baz"), None);
}
