use highlights::args::{
    get_channel_from_arg, get_channels_from_args, get_ids_from_args, sort_readable,
    split_whitespace, ChannelKeywordSyntax, ChannelsFromArgs, KeywordArgs,
};
use highlights::commands::parse_u64;
use highlights::ids::ChannelId;
use highlights::notifications::channel_mention;
use highlights::strings::decimal_string;

fn channels() -> Vec<(ChannelId, String)> {
    vec![
        (ChannelId(10), "general".to_owned()),
        (ChannelId(20), "Random".to_owned()),
        (ChannelId(30), "dupe".to_owned()),
        (ChannelId(40), "DUPE".to_owned()),
    ]
}

#[test]
fn words_split_at_whitespace() {
    assert_eq!(split_whitespace("  a bc\t d \n"), vec!["a", "bc", "d"]);
    assert!(split_whitespace("   ").is_empty());
}

#[test]
fn ids_from_args() {
    let ids = get_ids_from_args("12 abc 34");
    assert_eq!(ids, vec![Ok((ChannelId(12), "12")), Err("abc"), Ok((ChannelId(34), "34"))]);
}

#[test]
fn channel_by_id_mention_or_name() {
    let channels = channels();
    assert_eq!(get_channel_from_arg(&channels, "10"), Ok((ChannelId(10), "10")));
    assert_eq!(get_channel_from_arg(&channels, "<#20>"), Ok((ChannelId(20), "<#20>")));
    assert_eq!(get_channel_from_arg(&channels, "random"), Ok((ChannelId(20), "random")));
    assert_eq!(get_channel_from_arg(&channels, "99"), Err("99"));
    assert_eq!(get_channel_from_arg(&channels, "<#99>"), Err("<#99>"));
    assert_eq!(get_channel_from_arg(&channels, "dupe"), Err("dupe"));
    assert_eq!(get_channel_from_arg(&channels, "missing"), Err("missing"));
}

#[test]
fn channels_from_args_are_sorted() {
    let channels = channels();
    let found = get_channels_from_args(&channels, "general nope <#20>");
    assert_eq!(found.found, vec![(ChannelId(10), "general"), (ChannelId(20), "<#20>")]);
    assert_eq!(found.not_found, vec!["nope"]);
}

#[test]
fn readable_channels_are_sorted_by_permission() {
    let channels = ChannelsFromArgs {
        not_found: vec!["x"],
        found: vec![(ChannelId(1), "a"), (ChannelId(2), "b"), (ChannelId(3), "c")],
    };
    let sorted = sort_readable(channels, &[(true, true), (false, true), (true, false)]);
    assert_eq!(sorted.not_found, vec!["x"]);
    assert_eq!(sorted.found, vec![ChannelId(1)]);
    assert_eq!(sorted.user_cant_read, vec![(ChannelId(2), "b")]);
    assert_eq!(sorted.self_cant_read, vec![ChannelId(3)]);
}

#[test]
fn channel_keyword_arguments() {
    let syntax = ChannelKeywordSyntax::new().unwrap();
    match syntax.parse("\"foo bar\" in general random") {
        KeywordArgs::InChannels { keyword, channels } => {
            assert_eq!(keyword, "foo bar");
            assert_eq!(channels, "general random");
        }
        _ => panic!("a channel keyword was given"),
    }
    match syntax.parse("\"a\\\"b\" from <#1>") {
        KeywordArgs::InChannels { keyword, channels } => {
            assert_eq!(keyword, "a\\\"b");
            assert_eq!(channels, "<#1>");
        }
        _ => panic!("a channel keyword was given"),
    }
    assert!(matches!(syntax.parse("just a keyword"), KeywordArgs::ServerWide));
    assert!(matches!(syntax.parse("\"foo\" at general"), KeywordArgs::ServerWide));
}

#[test]
fn written_mentions_and_numbers_read_back() {
    let channels = channels();
    let mention = channel_mention(ChannelId(20));
    assert_eq!(get_channel_from_arg(&channels, &mention), Ok((ChannelId(20), mention.as_str())));
    for n in [0u64, 7, 10, 12345, u64::MAX] {
        assert_eq!(parse_u64(&decimal_string(n)), Some(n));
    }
}
