use highlights::args::{ChannelsFromArgs, ReadableChannelsFromArgs};
use highlights::highlighting::MarkdownEscaper;
use highlights::ids::ChannelId;
use highlights::reports::{
    add_channel_keyword, build_report, follow_report, mention_channels, mention_with_id, pick,
    remove_channel_keyword, unfollow_report, ReportSection,
};

fn readable<'a>(
    not_found: Vec<&'a str>,
    found: Vec<ChannelId>,
    user_cant_read: Vec<(ChannelId, &'a str)>,
    self_cant_read: Vec<ChannelId>,
) -> ReadableChannelsFromArgs<'a> {
    ReadableChannelsFromArgs { not_found, found, user_cant_read, self_cant_read }
}

#[test]
fn report_lists_non_empty_sections() {
    let report = build_report(vec![
        ReportSection { heading: "A: ".to_owned(), items: vec![], reaction: Some('1') },
        ReportSection {
            heading: "B: ".to_owned(),
            items: vec!["x".to_owned(), "y".to_owned()],
            reaction: Some('2'),
        },
        ReportSection { heading: "C: ".to_owned(), items: vec!["z".to_owned()], reaction: None },
    ]);
    assert_eq!(report.text, "B: x, y\nC: z");
    assert_eq!(report.reactions, vec!['2']);
}

#[test]
fn mentions_of_channels() {
    assert_eq!(mention_channels(&vec![ChannelId(1), ChannelId(22)]), vec!["<#1>", "<#22>"]);
    assert_eq!(mention_with_id(ChannelId(5)), "<#5> (5)");
}

#[test]
fn picking_by_flag() {
    assert_eq!(pick(&vec![1u8, 2, 3], &[true, false, true], true), vec![1, 3]);
    assert_eq!(pick(&vec![1u8, 2, 3], &[true, false, true], false), vec![2]);
}

#[test]
fn follow_reply() {
    let report = follow_report(&vec![ChannelId(1)], &vec![], &vec!["nope"], &vec!["secret"]);
    assert_eq!(
        report.text,
        "Followed channels: <#1>\nCouldn't find channels: nope\nUnable to follow channels: secret"
    );
    assert_eq!(report.reactions, vec!['✅', '❓', '❌']);
    let report = follow_report(&vec![], &vec![ChannelId(2)], &vec![], &vec!["secret"]);
    assert_eq!(report.text, "Channels already followed: <#2>\nUnable to follow channels: secret");
    assert_eq!(report.reactions, vec!['❌']);
}

#[test]
fn unfollow_reply() {
    let report = unfollow_report(vec!["<#3> (3)".to_owned()], &vec![ChannelId(4)], &vec![]);
    assert_eq!(report.text, "Unfollowed channels: <#3> (3)\nYou weren't following channels: <#4>");
    assert_eq!(report.reactions, vec!['✅', '❌']);
}

#[test]
fn adding_a_channel_keyword() {
    let escaper = MarkdownEscaper::new().unwrap();
    let channels = readable(
        vec!["nope"],
        vec![ChannelId(1), ChannelId(2)],
        vec![(ChannelId(3), "hidden")],
        vec![ChannelId(4)],
    );
    let change = add_channel_keyword(&escaper, "Foo_Bar", channels, &[false, true]).ok().unwrap();
    assert_eq!(change.keyword, "foo_bar");
    assert_eq!(change.channels, vec![ChannelId(1)]);
    assert_eq!(
        change.report.text,
        "Added Foo\\_Bar in channels: <#1>\n\
         Already added Foo\\_Bar in channels: <#2>\n\
         Couldn't find channels: nope, hidden\n\
         Unable to add keywords in channels: <#4>"
    );
    assert_eq!(change.report.reactions, vec!['✅', '❌', '❓']);
}

#[test]
fn removing_a_channel_keyword() {
    let escaper = MarkdownEscaper::new().unwrap();
    let channels = readable(
        vec![],
        vec![ChannelId(1), ChannelId(2)],
        vec![(ChannelId(3), "hidden"), (ChannelId(5), "gone")],
        vec![ChannelId(4)],
    );
    let change =
        remove_channel_keyword(&escaper, "FOO", channels, &[true, false], &[true, false], &[false]);
    assert_eq!(change.keyword, "foo");
    assert_eq!(change.channels, vec![ChannelId(1), ChannelId(3)]);
    assert_eq!(
        change.report.text,
        "Removed foo from channels: <#1>, <#3> (3)\n\
         foo wasn't added to channels: <#2>, <#4>\n\
         Couldn't find channels: gone"
    );
    assert_eq!(change.report.reactions, vec!['✅', '❌', '❓']);
}

#[test]
fn readable_channels_can_be_built_from_found_ones() {
    let channels = ChannelsFromArgs { not_found: vec![], found: vec![] };
    assert!(channels.found.is_empty());
}

#[test]
fn short_channel_keywords_are_refused() {
    let escaper = MarkdownEscaper::new().unwrap();
    let channels = readable(vec![], vec![ChannelId(1)], vec![], vec![]);
    match add_channel_keyword(&escaper, "ab", channels, &[false]) {
        Err(refusal) => {
            assert_eq!(refusal.text, "You can't highlight keywords shorter than 3 characters!");
            assert_eq!(refusal.reactions, vec!['❌']);
        }
        Ok(_) => panic!("a two-byte keyword was accepted"),
    }
}
