//! The replies of commands that act on several channels at once: one line
//! for each kind of outcome, and a reaction for each.

use vstd::prelude::*;
use vstd::string::*;
use vstd::utf8::*;
use crate::args::{texts, ReadableChannelsFromArgs};
use crate::highlighting::{escaped, MarkdownEscaper};
use crate::strings::{lowercased, to_lowercase};
use crate::ids::ChannelId;
use crate::strings::{decimal, decimal_string, join, joined, views};

verus! {

/// One kind of outcome: the line's heading, the items it lists, and the
/// reaction it adds to the command's message, if any.
pub struct ReportSection {
    pub heading: String,
    pub items: Vec<String>,
    pub reaction: Option<char>,
}

/// A section as text: its heading, its items and its reaction.
pub type SectionText = (Seq<char>, Seq<Seq<char>>, Option<char>);

/// The text of a section.
pub open spec fn section_text(s: ReportSection) -> SectionText {
    (s.heading@, views(s.items@), s.reaction)
}

/// The line of a section: its heading, then its items separated by `, `.
pub open spec fn section_line(s: SectionText) -> Seq<char> {
    s.0 + joined(s.1, ", "@)
}

/// The text of a reply: the lines of the sections that list something,
/// each after a newline unless nothing came before it.
pub open spec fn report_text(sections: Seq<SectionText>) -> Seq<char>
    decreases sections.len(),
{
    if sections.len() == 0 {
        Seq::empty()
    } else {
        let before = report_text(sections.drop_last());
        let last = sections.last();
        if last.1.len() == 0 {
            before
        } else if before.len() == 0 {
            section_line(last)
        } else {
            before + "\n"@ + section_line(last)
        }
    }
}

/// The reactions of the sections that list something, in order.
pub open spec fn report_reactions(sections: Seq<SectionText>) -> Seq<char>
    decreases sections.len(),
{
    if sections.len() == 0 {
        Seq::empty()
    } else {
        let before = report_reactions(sections.drop_last());
        let last = sections.last();
        if last.1.len() > 0 && last.2 is Some {
            before.push(last.2->0)
        } else {
            before
        }
    }
}

/// The text of each section.
pub open spec fn sections_text(sections: Seq<ReportSection>) -> Seq<SectionText> {
    sections.map_values(|s: ReportSection| section_text(s))
}

/// A reply: its text and the reactions to add, in order.
pub struct Report {
    pub text: String,
    pub reactions: Vec<char>,
}

/// Builds the reply from its sections.
pub fn build_report(sections: Vec<ReportSection>) -> (r: Report)
    ensures
        r.text@ == report_text(sections_text(sections@)),
        r.reactions@ == report_reactions(sections_text(sections@)),
{
    let ghost all = sections@;
    let mut text = String::new();
    let mut reactions: Vec<char> = Vec::new();
    let mut i: usize = 0;
    while i < sections.len()
        invariant
            i <= sections@.len(),
            sections@ == all,
            text@ == report_text(sections_text(all.take(i as int))),
            reactions@ == report_reactions(sections_text(all.take(i as int))),
        decreases sections.len() - i,
    {
        let section = &sections[i];
        assert(sections_text(all.take(i + 1)).drop_last() =~= sections_text(all.take(i as int)));
        assert(sections_text(all.take(i + 1)).last() == section_text(all[i as int]));
        if section.items.len() > 0 {
            if text.unicode_len() > 0 {
                text.append("\n");
            }
            text.append(section.heading.as_str());
            let list = join(&section.items, ", ");
            text.append(list.as_str());
            match section.reaction {
                Some(c) => reactions.push(c),
                None => {},
            }
        }
        i = i + 1;
    }
    assert(all.take(i as int) =~= all);
    Report { text, reactions }
}

/// A channel mention, `<#id>`.
pub open spec fn mention_text(channel: ChannelId) -> Seq<char> {
    "<#"@ + decimal(channel.0 as nat) + ">"@
}

/// A channel mention followed by the ID, `<#id> (id)`, for channels that
/// may be gone.
pub open spec fn mention_with_id_text(channel: ChannelId) -> Seq<char> {
    "<#"@ + decimal(channel.0 as nat) + "> ("@ + decimal(channel.0 as nat) + ")"@
}

/// The mention of each channel, in order.
pub open spec fn mentions_text(channels: Seq<ChannelId>) -> Seq<Seq<char>> {
    channels.map_values(|c: ChannelId| mention_text(c))
}

/// Mentions of the channels, `<#id>` each.
pub fn mention_channels(channels: &Vec<ChannelId>) -> (r: Vec<String>)
    ensures
        views(r@) == mentions_text(channels@),
{
    let mut r: Vec<String> = Vec::new();
    let mut i: usize = 0;
    while i < channels.len()
        invariant
            i <= channels@.len(),
            views(r@) == mentions_text(channels@.take(i as int)),
        decreases channels.len() - i,
    {
        let mut m = "<#".to_owned();
        m.append(decimal_string(channels[i].0).as_str());
        m.append(">");
        let ghost before = r@;
        r.push(m);
        assert(views(r@) =~= views(before).push(m@));
        assert(mentions_text(channels@.take(i + 1)) =~= mentions_text(channels@.take(i as int)).push(
            mention_text(channels@[i as int]),
        ));
        i = i + 1;
    }
    assert(channels@.take(i as int) =~= channels@);
    r
}

/// A channel mention followed by the ID: `<#id> (id)`.
pub fn mention_with_id(channel: ChannelId) -> (r: String)
    ensures
        r@ == mention_with_id_text(channel),
{
    let id = decimal_string(channel.0);
    let mut m = "<#".to_owned();
    m.append(id.as_str());
    m.append("> (");
    m.append(id.as_str());
    m.append(")");
    m
}

/// The text of each word, owned.
pub fn owned_words(words: &Vec<&str>) -> (r: Vec<String>)
    ensures
        views(r@) == texts(words@),
{
    let mut r: Vec<String> = Vec::new();
    let mut i: usize = 0;
    while i < words.len()
        invariant
            i <= words@.len(),
            views(r@) == texts(words@.take(i as int)),
        decreases words.len() - i,
    {
        let ghost before = r@;
        r.push(words[i].to_owned());
        assert(views(r@) =~= views(before).push(words@[i as int]@));
        assert(texts(words@.take(i + 1)) =~= texts(words@.take(i as int)).push(words@[i as int]@));
        i = i + 1;
    }
    assert(words@.take(i as int) =~= words@);
    r
}

fn section(heading: String, items: Vec<String>, reaction: Option<char>) -> (r: ReportSection)
    ensures
        section_text(r) == (heading@, views(items@), reaction),
{
    ReportSection { heading, items, reaction }
}

fn report_of(a: ReportSection, b: ReportSection, c: ReportSection) -> (r: Report)
    ensures
        r.text@ == report_text(seq![section_text(a), section_text(b), section_text(c)]),
        r.reactions@ == report_reactions(seq![section_text(a), section_text(b), section_text(c)]),
{
    let ghost (ta, tb, tc) = (section_text(a), section_text(b), section_text(c));
    let mut sections: Vec<ReportSection> = Vec::new();
    sections.push(a);
    sections.push(b);
    sections.push(c);
    assert(sections_text(sections@) =~= seq![ta, tb, tc]);
    build_report(sections)
}

fn report_of_four(a: ReportSection, b: ReportSection, c: ReportSection, d: ReportSection) -> (r: Report)
    ensures
        r.text@ == report_text(seq![section_text(a), section_text(b), section_text(c), section_text(d)]),
        r.reactions@ == report_reactions(
            seq![section_text(a), section_text(b), section_text(c), section_text(d)],
        ),
{
    let ghost (ta, tb, tc, td) = (section_text(a), section_text(b), section_text(c), section_text(d));
    let mut sections: Vec<ReportSection> = Vec::new();
    sections.push(a);
    sections.push(b);
    sections.push(c);
    sections.push(d);
    assert(sections_text(sections@) =~= seq![ta, tb, tc, td]);
    build_report(sections)
}

/// The sections of the reply to following channels.
pub open spec fn follow_sections(
    followed: Seq<ChannelId>,
    already: Seq<ChannelId>,
    not_found: Seq<Seq<char>>,
    forbidden: Seq<Seq<char>>,
) -> Seq<SectionText> {
    seq![
        ("Followed channels: "@, mentions_text(followed), Some('✅')),
        ("Channels already followed: "@, mentions_text(already), Some('❌')),
        ("Couldn't find channels: "@, not_found, Some('❓')),
        ("Unable to follow channels: "@, forbidden, if already.len() == 0 { Some('❌') } else { None }),
    ]
}

/// The reply to following channels: which were followed, which were
/// already, which arguments named no channel, and which named a channel
/// that the user or the bot cannot read.
pub fn follow_report(
    followed: &Vec<ChannelId>,
    already: &Vec<ChannelId>,
    not_found: &Vec<&str>,
    forbidden: &Vec<&str>,
) -> (r: Report)
    ensures
        r.text@ == report_text(follow_sections(followed@, already@, texts(not_found@), texts(forbidden@))),
        r.reactions@ == report_reactions(
            follow_sections(followed@, already@, texts(not_found@), texts(forbidden@)),
        ),
{
    let last = if already.len() == 0 {
        Some('❌')
    } else {
        None
    };
    report_of_four(
        section("Followed channels: ".to_owned(), mention_channels(followed), Some('✅')),
        section("Channels already followed: ".to_owned(), mention_channels(already), Some('❌')),
        section("Couldn't find channels: ".to_owned(), owned_words(not_found), Some('❓')),
        section("Unable to follow channels: ".to_owned(), owned_words(forbidden), last),
    )
}

/// The sections of the reply to unfollowing channels.
pub open spec fn unfollow_sections(
    unfollowed: Seq<Seq<char>>,
    not_followed: Seq<ChannelId>,
    not_found: Seq<Seq<char>>,
) -> Seq<SectionText> {
    seq![
        ("Unfollowed channels: "@, unfollowed, Some('✅')),
        ("You weren't following channels: "@, mentions_text(not_followed), Some('❌')),
        ("Couldn't find channels: "@, not_found, Some('❓')),
    ]
}

/// The reply to unfollowing channels: the channels unfollowed (as the
/// caller wrote them), those that were not followed, and the arguments
/// that named nothing followed.
pub fn unfollow_report(unfollowed: Vec<String>, not_followed: &Vec<ChannelId>, not_found: &Vec<&str>) -> (r: Report)
    ensures
        r.text@ == report_text(unfollow_sections(views(unfollowed@), not_followed@, texts(not_found@))),
        r.reactions@ == report_reactions(
            unfollow_sections(views(unfollowed@), not_followed@, texts(not_found@)),
        ),
{
    report_of(
        section("Unfollowed channels: ".to_owned(), unfollowed, Some('✅')),
        section("You weren't following channels: ".to_owned(), mention_channels(not_followed), Some('❌')),
        section("Couldn't find channels: ".to_owned(), owned_words(not_found), Some('❓')),
    )
}

/// The items whose flag is `want`, in order.
pub open spec fn flagged<T>(items: Seq<T>, flags: Seq<bool>, want: bool) -> Seq<T>
    decreases items.len(),
{
    if items.len() == 0 || flags.len() != items.len() {
        Seq::empty()
    } else {
        let before = flagged(items.drop_last(), flags.drop_last(), want);
        if flags.last() == want {
            before.push(items.last())
        } else {
            before
        }
    }
}

/// Picks the items whose flag is `want`.
pub fn pick<T: Copy>(items: &Vec<T>, flags: &[bool], want: bool) -> (r: Vec<T>)
    requires
        flags@.len() == items@.len(),
    ensures
        r@ == flagged(items@, flags@, want),
{
    let mut r: Vec<T> = Vec::new();
    let mut i: usize = 0;
    while i < items.len()
        invariant
            i <= items@.len(),
            flags@.len() == items@.len(),
            r@ == flagged(items@.take(i as int), flags@.take(i as int), want),
        decreases items.len() - i,
    {
        assert(items@.take(i + 1).drop_last() =~= items@.take(i as int));
        assert(flags@.take(i + 1).drop_last() =~= flags@.take(i as int));
        assert(items@.take(i + 1).last() == items@[i as int]);
        assert(flags@.take(i + 1).last() == flags@[i as int]);
        if flags[i] == want {
            r.push(items[i]);
        }
        i = i + 1;
    }
    assert(items@.take(i as int) =~= items@);
    assert(flags@.take(i as int) =~= flags@);
    r
}

/// The channel of each pair, in order.
pub open spec fn pair_ids(pairs: Seq<(ChannelId, &str)>) -> Seq<ChannelId> {
    pairs.map_values(|p: (ChannelId, &str)| p.0)
}

/// The word of each pair, in order.
pub open spec fn pair_words(pairs: Seq<(ChannelId, &str)>) -> Seq<Seq<char>> {
    pairs.map_values(|p: (ChannelId, &str)| p.1@)
}

fn ids_of_pairs(pairs: &Vec<(ChannelId, &str)>) -> (r: Vec<ChannelId>)
    ensures
        r@ == pair_ids(pairs@),
{
    let mut r: Vec<ChannelId> = Vec::new();
    let mut i: usize = 0;
    while i < pairs.len()
        invariant
            i <= pairs@.len(),
            r@ == pair_ids(pairs@.take(i as int)),
        decreases pairs.len() - i,
    {
        r.push(pairs[i].0);
        assert(pair_ids(pairs@.take(i + 1)) =~= pair_ids(pairs@.take(i as int)).push(pairs@[i as int].0));
        i = i + 1;
    }
    assert(pairs@.take(i as int) =~= pairs@);
    r
}

fn words_of_pairs(pairs: &Vec<(ChannelId, &str)>) -> (r: Vec<String>)
    ensures
        views(r@) == pair_words(pairs@),
{
    let mut r: Vec<String> = Vec::new();
    let mut i: usize = 0;
    while i < pairs.len()
        invariant
            i <= pairs@.len(),
            views(r@) == pair_words(pairs@.take(i as int)),
        decreases pairs.len() - i,
    {
        let ghost before = r@;
        r.push(pairs[i].1.to_owned());
        assert(views(r@) =~= views(before).push(pairs@[i as int].1@));
        assert(pair_words(pairs@.take(i + 1)) =~= pair_words(pairs@.take(i as int)).push(pairs@[i as int].1@));
        i = i + 1;
    }
    assert(pairs@.take(i as int) =~= pairs@);
    r
}

/// What a command that adds or removes a channel keyword does: the reply,
/// the keyword as stored, and the channels whose keyword it adds or
/// deletes.
pub struct ChannelKeywordChange {
    pub report: Report,
    pub keyword: String,
    pub channels: Vec<ChannelId>,
}

/// The sections of the reply to adding a keyword to channels; `keyword` is
/// shown escaped.
pub open spec fn added_sections(
    keyword: Seq<char>,
    added: Seq<ChannelId>,
    already: Seq<ChannelId>,
    not_found: Seq<Seq<char>>,
    cant_add: Seq<ChannelId>,
) -> Seq<SectionText> {
    seq![
        ("Added "@ + escaped(keyword) + " in channels: "@, mentions_text(added), Some('✅')),
        ("Already added "@ + escaped(keyword) + " in channels: "@, mentions_text(already), Some('❌')),
        ("Couldn't find channels: "@, not_found, Some('❓')),
        ("Unable to add keywords in channels: "@, mentions_text(cant_add), if already.len() == 0 {
            Some('❌')
        } else {
            None
        }),
    ]
}

/// The reply that refuses a keyword shorter than three bytes.
pub open spec fn short_keyword_text() -> Seq<char> {
    "You can't highlight keywords shorter than 3 characters!"@
}

/// Adds a keyword to the channels that arguments named, given whether it
/// already exists in each channel that both the user and the bot can
/// read. A keyword shorter than three bytes is refused, with a ❌, and
/// nothing is added. Otherwise it is added (in lower case) where it does
/// not exist yet; channels the user cannot read count as not found, and
/// channels the bot cannot read are refused.
pub fn add_channel_keyword(
    escaper: &MarkdownEscaper,
    keyword: &str,
    channels: ReadableChannelsFromArgs,
    exists: &[bool],
) -> (r: Result<ChannelKeywordChange, Report>)
    requires
        exists@.len() == channels.found@.len(),
    ensures
        encode_utf8(keyword@).len() < 3 ==> (r matches Err(refusal) && refusal.text@ == short_keyword_text()
            && refusal.reactions@ == seq!['❌']),
        encode_utf8(keyword@).len() >= 3 ==> (r matches Ok(change) && {
            &&& change.keyword@ == lowercased(keyword@)
            &&& change.channels@ == flagged(channels.found@, exists@, false)
            &&& {
                let sections = added_sections(
                    keyword@,
                    flagged(channels.found@, exists@, false),
                    flagged(channels.found@, exists@, true),
                    texts(channels.not_found@) + pair_words(channels.user_cant_read@),
                    channels.self_cant_read@,
                );
                change.report.text@ == report_text(sections) && change.report.reactions@ == report_reactions(
                    sections,
                )
            }
        }),
{
    if keyword.as_bytes().len() < 3 {
        let mut reactions: Vec<char> = Vec::new();
        reactions.push('❌');
        proof {
            reveal_strlit("You can't highlight keywords shorter than 3 characters!");
        }
        return Err(Report {
            text: "You can't highlight keywords shorter than 3 characters!".to_owned(),
            reactions,
        });
    }
    let added = pick(&channels.found, exists, false);
    let already = pick(&channels.found, exists, true);
    let mut not_found = owned_words(&channels.not_found);
    let mut unreadable = words_of_pairs(&channels.user_cant_read);
    let ghost nf = not_found@;
    not_found.append(&mut unreadable);
    assert(views(not_found@) =~= views(nf) + pair_words(channels.user_cant_read@));
    let shown = escaper.escape(keyword);
    let mut added_heading = "Added ".to_owned();
    added_heading.append(shown.as_str());
    added_heading.append(" in channels: ");
    let mut already_heading = "Already added ".to_owned();
    already_heading.append(shown.as_str());
    already_heading.append(" in channels: ");
    let last = if already.len() == 0 {
        Some('❌')
    } else {
        None
    };
    let report = report_of_four(
        section(added_heading, mention_channels(&added), Some('✅')),
        section(already_heading, mention_channels(&already), Some('❌')),
        section("Couldn't find channels: ".to_owned(), not_found, Some('❓')),
        section("Unable to add keywords in channels: ".to_owned(), mention_channels(&channels.self_cant_read), last),
    );
    Ok(ChannelKeywordChange { report, keyword: to_lowercase(keyword), channels: added })
}

/// The sections of the reply to removing a keyword from channels;
/// `keyword` is shown escaped.
pub open spec fn removed_sections(
    keyword: Seq<char>,
    removed: Seq<Seq<char>>,
    not_added: Seq<ChannelId>,
    not_found: Seq<Seq<char>>,
) -> Seq<SectionText> {
    seq![
        ("Removed "@ + escaped(keyword) + " from channels: "@, removed, Some('✅')),
        (escaped(keyword) + " wasn't added to channels: "@, mentions_text(not_added), Some('❌')),
        ("Couldn't find channels: "@, not_found, Some('❓')),
    ]
}

/// The mention with ID of each channel, in order.
pub open spec fn mentions_with_ids_text(channels: Seq<ChannelId>) -> Seq<Seq<char>> {
    channels.map_values(|c: ChannelId| mention_with_id_text(c))
}

fn mention_channels_with_ids(channels: &Vec<ChannelId>) -> (r: Vec<String>)
    ensures
        views(r@) == mentions_with_ids_text(channels@),
{
    let mut r: Vec<String> = Vec::new();
    let mut i: usize = 0;
    while i < channels.len()
        invariant
            i <= channels@.len(),
            views(r@) == mentions_with_ids_text(channels@.take(i as int)),
        decreases channels.len() - i,
    {
        let m = mention_with_id(channels[i]);
        let ghost before = r@;
        r.push(m);
        assert(views(r@) =~= views(before).push(m@));
        assert(mentions_with_ids_text(channels@.take(i + 1)) =~= mentions_with_ids_text(
            channels@.take(i as int),
        ).push(mention_with_id_text(channels@[i as int])));
        i = i + 1;
    }
    assert(channels@.take(i as int) =~= channels@);
    r
}

/// Removes a keyword from the channels that arguments named, given whether
/// it exists in each found channel, each channel the user cannot read, and
/// each channel the bot cannot read. It is removed wherever it exists; a
/// channel the user cannot read where it does not exist counts as not
/// found. The keyword is compared in lower case.
pub fn remove_channel_keyword(
    escaper: &MarkdownEscaper,
    keyword: &str,
    channels: ReadableChannelsFromArgs,
    exists_found: &[bool],
    exists_user_cant_read: &[bool],
    exists_self_cant_read: &[bool],
) -> (r: ChannelKeywordChange)
    requires
        exists_found@.len() == channels.found@.len(),
        exists_user_cant_read@.len() == channels.user_cant_read@.len(),
        exists_self_cant_read@.len() == channels.self_cant_read@.len(),
    ensures
        r.keyword@ == lowercased(keyword@),
        r.channels@ == flagged(channels.found@, exists_found@, true) + pair_ids(
            flagged(channels.user_cant_read@, exists_user_cant_read@, true),
        ) + flagged(channels.self_cant_read@, exists_self_cant_read@, true),
        ({
            let sections = removed_sections(
                lowercased(keyword@),
                mentions_text(flagged(channels.found@, exists_found@, true)) + mentions_with_ids_text(
                    pair_ids(flagged(channels.user_cant_read@, exists_user_cant_read@, true)),
                ) + mentions_text(flagged(channels.self_cant_read@, exists_self_cant_read@, true)),
                flagged(channels.found@, exists_found@, false) + flagged(
                    channels.self_cant_read@,
                    exists_self_cant_read@,
                    false,
                ),
                texts(channels.not_found@) + pair_words(
                    flagged(channels.user_cant_read@, exists_user_cant_read@, false),
                ),
            );
            r.report.text@ == report_text(sections) && r.report.reactions@ == report_reactions(sections)
        }),
{
    let lower = to_lowercase(keyword);
    let removed_found = pick(&channels.found, exists_found, true);
    let removed_unreadable = pick(&channels.user_cant_read, exists_user_cant_read, true);
    let removed_unreadable_ids = ids_of_pairs(&removed_unreadable);
    let removed_hidden = pick(&channels.self_cant_read, exists_self_cant_read, true);
    let mut removed = mention_channels(&removed_found);
    let mut removed_more = mention_channels_with_ids(&removed_unreadable_ids);
    let mut removed_last = mention_channels(&removed_hidden);
    let ghost (r1, r2, r3) = (removed@, removed_more@, removed_last@);
    removed.append(&mut removed_more);
    removed.append(&mut removed_last);
    assert(views(removed@) =~= views(r1) + views(r2) + views(r3));
    let mut not_added = pick(&channels.found, exists_found, false);
    let mut not_added_hidden = pick(&channels.self_cant_read, exists_self_cant_read, false);
    let ghost (n1, n2) = (not_added@, not_added_hidden@);
    not_added.append(&mut not_added_hidden);
    assert(not_added@ =~= n1 + n2);
    let mut not_found = owned_words(&channels.not_found);
    let missing = pick(&channels.user_cant_read, exists_user_cant_read, false);
    let mut missing_words = words_of_pairs(&missing);
    let ghost nf = not_found@;
    not_found.append(&mut missing_words);
    assert(views(not_found@) =~= views(nf) + pair_words(missing@));
    let shown = escaper.escape(lower.as_str());
    let mut removed_heading = "Removed ".to_owned();
    removed_heading.append(shown.as_str());
    removed_heading.append(" from channels: ");
    let mut not_added_heading = shown.clone();
    not_added_heading.append(" wasn't added to channels: ");
    let report = report_of(
        section(removed_heading, removed, Some('✅')),
        section(not_added_heading, mention_channels(&not_added), Some('❌')),
        section("Couldn't find channels: ".to_owned(), not_found, Some('❓')),
    );
    let mut deleted = removed_found;
    let mut deleted_unreadable = removed_unreadable_ids;
    let mut deleted_hidden = removed_hidden;
    let ghost (d1, d2, d3) = (deleted@, deleted_unreadable@, deleted_hidden@);
    deleted.append(&mut deleted_unreadable);
    deleted.append(&mut deleted_hidden);
    assert(deleted@ =~= d1 + d2 + d3);
    ChannelKeywordChange { report, keyword: lower, channels: deleted }
}

} // verus!
