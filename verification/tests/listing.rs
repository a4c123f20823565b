use highlights::ids::{ChannelId, GuildId, UserId};
use highlights::listing::{
    bulleted, follows_reply, group_by_key, group_known, ignores_reply, join_blocks, keywords_block,
    keywords_by_server, keywords_reply, mutes_reply, unknown_server_name, user_mention, with_missing,
    Bullet, Group,
};

#[test]
fn pairs_group_by_first_appearance() {
    let groups = group_by_key(vec![(2, "a"), (1, "b"), (2, "c")]);
    assert_eq!(groups.len(), 2);
    assert_eq!(groups[0].key, 2);
    assert_eq!(groups[0].values, vec!["a", "c"]);
    assert_eq!(groups[1].key, 1);
    assert_eq!(groups[1].values, vec!["b"]);
}

#[test]
fn unknown_keys_are_dropped() {
    let groups = group_known(vec![(5, "x"), (6, "y"), (5, "z")], &[5]);
    assert_eq!(groups.len(), 1);
    assert_eq!(groups[0].values, vec!["x", "z"]);
}

#[test]
fn bulleted_lists() {
    let items = vec!["<#1>".to_owned(), "<#2>".to_owned()];
    assert_eq!(
        bulleted("Your muted channels in S:", &items, Bullet::Hyphen),
        "Your muted channels in S:\n  - <#1>\n  - <#2>"
    );
    assert_eq!(bulleted("H:", &items, Bullet::Dash), "H:\n  – <#1>\n  – <#2>");
}

#[test]
fn blocks_and_missing_items() {
    let blocks = vec!["A".to_owned(), "B".to_owned()];
    assert_eq!(join_blocks(&blocks), "A\n\nB");
    let missing = vec!["<#9> (9)".to_owned()];
    assert_eq!(
        with_missing("A".to_owned(), "Couldn't find (deleted?) muted channels:", &missing),
        "A\n\nCouldn't find (deleted?) muted channels:\n  – <#9> (9)"
    );
    assert_eq!(with_missing("A".to_owned(), "X:", &vec![]), "A");
}

#[test]
fn keyword_blocks() {
    let channels = vec![Group { key: 7, values: vec!["k1".to_owned(), "k2".to_owned()] }];
    assert_eq!(
        keywords_block("Your keywords in S:", &vec!["g".to_owned()], &channels, false),
        "Your keywords in S:\n  – g\n  In <#7>:\n    - k1\n    - k2"
    );
    assert_eq!(
        keywords_block("Your keywords in S:", &vec![], &channels, true),
        "Your keywords in S:\n  In <#7> (7):\n    - k1\n    - k2"
    );
}

#[test]
fn keywords_grouped_by_server_then_channel() {
    let servers = keywords_by_server(vec![
        (1, (None, "a".to_owned())),
        (2, (Some(20), "b".to_owned())),
        (1, (Some(10), "c".to_owned())),
        (1, (Some(10), "d".to_owned())),
        (1, (None, "e".to_owned())),
    ]);
    assert_eq!(servers.len(), 2);
    assert_eq!(servers[0].guild, 1);
    assert_eq!(servers[0].guild_keywords, vec!["a".to_owned(), "e".to_owned()]);
    assert_eq!(servers[0].channels.len(), 1);
    assert_eq!(servers[0].channels[0].key, 10);
    assert_eq!(servers[0].channels[0].values, vec!["c".to_owned(), "d".to_owned()]);
    assert_eq!(servers[1].guild, 2);
    assert!(servers[1].guild_keywords.is_empty());
    assert_eq!(servers[1].channels[0].key, 20);
}

#[test]
fn names_and_mentions() {
    assert_eq!(unknown_server_name(GuildId(12)), "<Unknown server> (12)");
    assert_eq!(user_mention(UserId(3)), "<@3>");
    let _ = ChannelId(1);
}

#[test]
fn keywords_reply_in_a_server() {
    let none: Vec<String> = vec![];
    assert_eq!(
        keywords_reply(Some("Rust"), &none, &vec![]),
        Some("❌ You haven't added any keywords yet!".to_owned())
    );
    assert_eq!(keywords_reply(None, &none, &vec![]), Some("❌ You haven't added any keywords yet!".to_owned()));
    let wide = vec!["foo".to_owned(), "bar".to_owned()];
    assert_eq!(keywords_reply(Some("Rust"), &wide, &vec![]), Some("Your keywords in Rust:\n  – foo\n  – bar".to_owned()));
    assert_eq!(keywords_reply(None, &wide, &vec![]), None);
    let channels = group_known(vec![(5u64, "baz".to_owned()), (6u64, "qux".to_owned())], &[5]);
    assert_eq!(keywords_reply(Some("Rust"), &none, &channels), Some("Your keywords in Rust:\n  In <#5>:\n    - baz".to_owned()));
}

#[test]
fn ignores_reply_in_a_server() {
    assert_eq!(ignores_reply("ann", Some("Rust"), &vec![]), Some("❌ You haven't ignored any phrases!".to_owned()));
    let phrases = vec!["meme".to_owned(), "spam".to_owned()];
    assert_eq!(
        ignores_reply("ann", Some("Rust"), &phrases),
        Some("ann's ignored phrases in Rust:\n  - meme\n  - spam".to_owned())
    );
    assert_eq!(ignores_reply("ann", None, &phrases), None);
}

#[test]
fn mutes_reply_lists_only_this_server() {
    let muted = vec![ChannelId(1), ChannelId(2), ChannelId(3)];
    assert_eq!(
        mutes_reply(Some("Rust"), &muted, &[3, 1]),
        Some("Your muted channels in Rust:\n  - <#1>\n  - <#3>".to_owned())
    );
    assert_eq!(mutes_reply(Some("Rust"), &muted, &[9]), Some("❌ You haven't muted any channels!".to_owned()));
    assert_eq!(mutes_reply(None, &muted, &[1]), None);
}

#[test]
fn follows_reply_lists_only_this_server() {
    let followed = vec![ChannelId(4), ChannelId(8)];
    assert_eq!(follows_reply("ann", "Rust", &followed, &[8]), "ann's follows in Rust:\n  - <#8>");
    assert_eq!(follows_reply("ann", "Rust", &followed, &[]), "You haven't followed any channels yet!");
}
