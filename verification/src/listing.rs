//! The texts that list a user's keywords, ignored phrases and muted
//! channels, grouped by server and by channel.

use vstd::prelude::*;
use crate::ids::{ChannelId, GuildId, UserId};
use crate::notifications::{first_appearances, lemma_first_appearances_contains, lemma_first_appearances_distinct};
use crate::reports::{mention_channels, mention_text, mentions_text};
use crate::settings::optional_text;
use crate::strings::{decimal, decimal_string, join, joined, views};

verus! {

/// The keys of the pairs, in order.
pub open spec fn keys_of<V>(items: Seq<(u64, V)>) -> Seq<u64> {
    items.map_values(|p: (u64, V)| p.0)
}

/// A pair has key `key`.
pub open spec fn with_key<V>(key: u64) -> spec_fn((u64, V)) -> bool {
    |p: (u64, V)| p.0 == key
}

/// The values of the pairs, in order.
pub open spec fn values_of<V>(items: Seq<(u64, V)>) -> Seq<V> {
    items.map_values(|p: (u64, V)| p.1)
}

/// The values of the pairs with key `key`, in order.
pub open spec fn values_for<V>(items: Seq<(u64, V)>, key: u64) -> Seq<V> {
    values_of(items.filter(with_key(key)))
}

/// The values that share a key.
pub struct Group<V> {
    pub key: u64,
    pub values: Vec<V>,
}

/// The pairs grouped by key: one group for each key, in the order in which
/// keys first appear, holding that key's values in order.
pub open spec fn grouped<V>(items: Seq<(u64, V)>, groups: Seq<Group<V>>) -> bool {
    &&& groups.len() == first_appearances(keys_of(items)).len()
    &&& forall|j: int|
        0 <= j < groups.len() ==> {
            &&& (#[trigger] groups[j]).key == first_appearances(keys_of(items))[j]
            &&& groups[j].values@ == values_for(items, groups[j].key)
        }
}

/// Filtering keeps nothing when nothing passes.
proof fn lemma_filter_none<A>(s: Seq<A>, pred: spec_fn(A) -> bool)
    requires
        forall|l: int| 0 <= l < s.len() ==> !pred(#[trigger] s[l]),
    ensures
        s.filter(pred) == Seq::<A>::empty(),
    decreases s.len(),
{
    reveal(Seq::filter);
    if s.len() > 0 {
        lemma_filter_none(s.drop_last(), pred);
        assert(!pred(s[s.len() - 1]));
    }
}

/// Groups pairs by key, keeping the order in which keys first appear and
/// the order of each key's values.
pub fn group_by_key<V>(items: Vec<(u64, V)>) -> (r: Vec<Group<V>>)
    ensures
        grouped(items@, r@),
{
    let ghost all = items@;
    let total = items.len();
    let mut rest = items;
    let mut groups: Vec<Group<V>> = Vec::new();
    let mut done: usize = 0;
    while rest.len() > 0
        invariant
            done + rest@.len() == all.len(),
            all.len() == total,
            rest@ == all.skip(done as int),
            grouped(all.take(done as int), groups@),
        decreases rest.len(),
    {
        let item = rest.remove(0);
        let ghost prefix = all.take(done as int);
        let ghost next = all.take(done + 1);
        assert(item == all[done as int]);
        assert(next.drop_last() =~= prefix);
        assert(keys_of(next).drop_last() =~= keys_of(prefix));
        assert(keys_of(next).last() == item.0);
        let (key, value) = item;
        let mut j: usize = 0;
        while j < groups.len() && groups[j].key != key
            invariant
                j <= groups@.len(),
                forall|l: int| 0 <= l < j ==> (#[trigger] groups@[l]).key != key,
            decreases groups.len() - j,
        {
            j = j + 1;
        }
        proof {
            reveal(Seq::filter);
            lemma_first_appearances_distinct(keys_of(prefix));
        }
        if j < groups.len() {
            assert(first_appearances(keys_of(prefix))[j as int] == key);
            assert(first_appearances(keys_of(prefix)).contains(key));
            let ghost before = groups@;
            groups[j].values.push(value);
            assert forall|l: int| 0 <= l < groups@.len() implies (#[trigger] groups@[l]).values@ == values_for(
                next,
                groups@[l].key,
            ) by {
                let k = groups@[l].key;
                let p = with_key::<V>(k);
                assert(k == before[l].key);
                assert(next.len() > 0);
                assert(next.last() == item);
                if l == j {
                    assert(next.filter(p) == prefix.filter(p).push(item));
                    assert(values_of(next.filter(p)) =~= values_of(prefix.filter(p)).push(value));
                } else {
                    assert(next.filter(p) == prefix.filter(p));
                }
            }
            assert(first_appearances(keys_of(next)) == first_appearances(keys_of(prefix)));
            assert forall|l: int| 0 <= l < groups@.len() implies (#[trigger] groups@[l]).key == first_appearances(
                keys_of(next),
            )[l] by {
                assert(groups@[l].key == before[l].key);
            }
            assert(grouped(next, groups@));
        } else {
            assert forall|l: int| 0 <= l < first_appearances(keys_of(prefix)).len() implies #[trigger] first_appearances(
                keys_of(prefix),
            )[l] != key by {
                assert(groups@[l].key == first_appearances(keys_of(prefix))[l]);
            }
            assert(!first_appearances(keys_of(prefix)).contains(key));
            proof {
                assert forall|l: int| 0 <= l < groups@.len() implies values_for(next, (#[trigger] groups@[l]).key)
                    == values_for(prefix, groups@[l].key) by {
                    let k = groups@[l].key;
                    assert(k != key);
                    assert(next.filter(with_key::<V>(k)) == prefix.filter(with_key::<V>(k)));
                }
                assert(prefix.filter(with_key::<V>(key)) =~= Seq::empty()) by {
                    assert forall|l: int| 0 <= l < prefix.len() implies (#[trigger] prefix[l]).0 != key by {
                        assert(keys_of(prefix)[l] == prefix[l].0);
                        lemma_first_appearances_contains(keys_of(prefix), l);
                    }
                    lemma_filter_none(prefix, with_key::<V>(key));
                }
                assert(next.filter(with_key::<V>(key)) == seq![item]);
                assert(values_of(seq![item]) =~= seq![value]);
                assert(values_for(next, key) == seq![value]);
            }
            let ghost before = groups@;
            let mut own: Vec<V> = Vec::new();
            own.push(value);
            groups.push(Group { key, values: own });
            assert(first_appearances(keys_of(next)) == first_appearances(keys_of(prefix)).push(key));
            assert forall|l: int| 0 <= l < groups@.len() implies {
                &&& (#[trigger] groups@[l]).key == first_appearances(keys_of(next))[l]
                &&& groups@[l].values@ == values_for(next, groups@[l].key)
            } by {
                if l < before.len() {
                    assert(groups@[l] == before[l]);
                    assert(before[l].values@ == values_for(prefix, before[l].key));
                    assert(values_for(next, before[l].key) == values_for(prefix, before[l].key));
                } else {
                    assert(groups@[l].values@ == seq![value]);
                }
            }
            assert(grouped(next, groups@));
        }
        done = done + 1;
        assert(rest@ =~= all.skip(done as int));
    }
    assert(all.take(done as int) =~= all);
    groups
}

/// The line breaks and marks before listed items: a hyphen where one
/// server is listed, an en dash where several are.
#[derive(Clone, Copy, Debug, PartialEq, Eq, Structural)]
pub enum Bullet {
    Hyphen,
    Dash,
}

/// The text before each listed item.
pub open spec fn bullet_text(bullet: Bullet) -> Seq<char> {
    match bullet {
        Bullet::Hyphen => "\n  - "@,
        Bullet::Dash => "\n  – "@,
    }
}

fn bullet_str(bullet: Bullet) -> (r: &'static str)
    ensures
        r@ == bullet_text(bullet),
{
    match bullet {
        Bullet::Hyphen => "\n  - ",
        Bullet::Dash => "\n  – ",
    }
}

/// A heading followed by its items, one per line.
pub open spec fn bulleted_text(heading: Seq<char>, items: Seq<Seq<char>>, bullet: Bullet) -> Seq<char> {
    heading + bullet_text(bullet) + joined(items, bullet_text(bullet))
}

/// Lists `items` under `heading`, one per line after `bullet`.
pub fn bulleted(heading: &str, items: &Vec<String>, bullet: Bullet) -> (r: String)
    ensures
        r@ == bulleted_text(heading@, views(items@), bullet),
{
    let mark = bullet_str(bullet);
    let mut r = heading.to_owned();
    r.append(mark);
    r.append(join(items, mark).as_str());
    r
}

/// Lists of several servers, separated by an empty line.
pub fn join_blocks(blocks: &Vec<String>) -> (r: String)
    ensures
        r@ == joined(views(blocks@), "\n\n"@),
{
    join(blocks, "\n\n")
}

/// A list followed, when anything is missing, by an empty line and the
/// list of what is missing.
pub open spec fn with_missing_text(listing: Seq<char>, heading: Seq<char>, missing: Seq<Seq<char>>) -> Seq<char> {
    if missing.len() == 0 {
        listing
    } else {
        listing + "\n\n"@ + bulleted_text(heading, missing, Bullet::Dash)
    }
}

/// Adds the list of missing items (channels that may have been deleted)
/// after an empty line, when there are any.
pub fn with_missing(listing: String, heading: &str, missing: &Vec<String>) -> (r: String)
    ensures
        r@ == with_missing_text(listing@, heading@, views(missing@)),
{
    if missing.len() == 0 {
        listing
    } else {
        let mut r = listing;
        r.append("\n\n");
        r.append(bulleted(heading, missing, Bullet::Dash).as_str());
        r
    }
}

/// The keywords of one channel, as listed under a server: `  In <#id>:`
/// (with ` (id)` after the mention when `show_id`), then one keyword per
/// line.
pub open spec fn channel_keywords_text(channel: ChannelId, keywords: Seq<Seq<char>>, show_id: bool) -> Seq<char> {
    "  In "@ + mention_text(channel) + (if show_id {
        " ("@ + decimal(channel.0 as nat) + ")"@
    } else {
        Seq::empty()
    }) + ":\n    - "@ + joined(keywords, "\n    - "@)
}

/// The channel groups' lines, each after a line break.
pub open spec fn channels_text(channels: Seq<Group<String>>, show_id: bool) -> Seq<char>
    decreases channels.len(),
{
    if channels.len() == 0 {
        Seq::empty()
    } else {
        channels_text(channels.drop_last(), show_id) + "\n"@ + channel_keywords_text(
            ChannelId(channels.last().key),
            views(channels.last().values@),
            show_id,
        )
    }
}

/// A server's keywords: the heading, the server-wide keywords one per line
/// (after an en dash), and then the keywords of each channel.
pub open spec fn keywords_block_text(
    heading: Seq<char>,
    guild_keywords: Seq<Seq<char>>,
    channels: Seq<Group<String>>,
    show_ids: bool,
) -> Seq<char> {
    (if guild_keywords.len() == 0 {
        heading
    } else {
        bulleted_text(heading, guild_keywords, Bullet::Dash)
    }) + channels_text(channels, show_ids)
}

/// Lists a server's keywords: server-wide ones under the heading, then
/// those of each channel, grouped by channel.
pub fn keywords_block(
    heading: &str,
    guild_keywords: &Vec<String>,
    channels: &Vec<Group<String>>,
    show_ids: bool,
) -> (r: String)
    ensures
        r@ == keywords_block_text(heading@, views(guild_keywords@), channels@, show_ids),
{
    let mut r = if guild_keywords.len() == 0 {
        heading.to_owned()
    } else {
        bulleted(heading, guild_keywords, Bullet::Dash)
    };
    let ghost start = r@;
    let mut i: usize = 0;
    while i < channels.len()
        invariant
            i <= channels@.len(),
            r@ == start + channels_text(channels@.take(i as int), show_ids),
        decreases channels.len() - i,
    {
        let group = &channels[i];
        let id = decimal_string(group.key);
        let mut line = "\n".to_owned();
        line.append("  In ");
        line.append("<#");
        line.append(id.as_str());
        line.append(">");
        let ghost head = line@;
        if show_ids {
            line.append(" (");
            line.append(id.as_str());
            line.append(")");
        }
        let ghost middle = line@;
        line.append(":\n    - ");
        let list = join(&group.values, "\n    - ");
        line.append(list.as_str());
        assert(line@ =~= "\n"@ + channel_keywords_text(ChannelId(group.key), views(group.values@), show_ids));
        let ghost before = r@;
        r.append(line.as_str());
        assert(r@ =~= before + line@);
        assert(channels@.take(i + 1).drop_last() =~= channels@.take(i as int));
        assert(channels@.take(i + 1).last() == channels@[i as int]);
        i = i + 1;
    }
    assert(channels@.take(i as int) =~= channels@);
    r
}

/// The name shown for a server that is not known: `<Unknown server> (id)`.
pub fn unknown_server_name(guild: GuildId) -> (r: String)
    ensures
        r@ == "<Unknown server> ("@ + decimal(guild.0 as nat) + ")"@,
{
    let mut r = "<Unknown server> (".to_owned();
    r.append(decimal_string(guild.0).as_str());
    r.append(")");
    r
}

/// A user mention: `<@id>`.
pub fn user_mention(user: UserId) -> (r: String)
    ensures
        r@ == "<@"@ + decimal(user.0 as nat) + ">"@,
{
    let mut r = "<@".to_owned();
    r.append(decimal_string(user.0).as_str());
    r.append(">");
    r
}

/// The pairs whose key is among `known`, in order.
pub open spec fn known_only<V>(items: Seq<(u64, V)>, known: Seq<u64>) -> Seq<(u64, V)> {
    items.filter(|p: (u64, V)| known.contains(p.0))
}

/// Groups pairs by key, keeping only the keys among `known` (such as the
/// text channels of a server).
pub fn group_known<V>(items: Vec<(u64, V)>, known: &[u64]) -> (r: Vec<Group<V>>)
    ensures
        grouped(known_only(items@, known@), r@),
{
    let ghost all = items@;
    let total = items.len();
    let mut rest = items;
    let mut kept: Vec<(u64, V)> = Vec::new();
    let mut done: usize = 0;
    while rest.len() > 0
        invariant
            done + rest@.len() == all.len(),
            all.len() == total,
            rest@ == all.skip(done as int),
            kept@ == known_only(all.take(done as int), known@),
        decreases rest.len(),
    {
        let item = rest.remove(0);
        assert(item == all[done as int]);
        assert(all.take(done + 1).drop_last() =~= all.take(done as int));
        proof {
            reveal(Seq::filter);
        }
        let mut k: usize = 0;
        while k < known.len() && known[k] != item.0
            invariant
                k <= known@.len(),
                forall|l: int| 0 <= l < k ==> known@[l] != item.0,
            decreases known.len() - k,
        {
            k = k + 1;
        }
        if k < known.len() {
            assert(known@[k as int] == item.0);
            kept.push(item);
        } else {
            assert(!known@.contains(item.0));
        }
        done = done + 1;
        assert(rest@ =~= all.skip(done as int));
    }
    assert(all.take(done as int) =~= all);
    group_by_key(kept)
}

/// The server-wide keywords among placed keywords, in order.
pub open spec fn server_wide(placed: Seq<(Option<u64>, String)>) -> Seq<String>
    decreases placed.len(),
{
    if placed.len() == 0 {
        Seq::empty()
    } else {
        let before = server_wide(placed.drop_last());
        match placed.last().0 {
            None => before.push(placed.last().1),
            Some(_) => before,
        }
    }
}

/// The channel keywords among placed keywords, with their channels, in
/// order.
pub open spec fn in_channels(placed: Seq<(Option<u64>, String)>) -> Seq<(u64, String)>
    decreases placed.len(),
{
    if placed.len() == 0 {
        Seq::empty()
    } else {
        let before = in_channels(placed.drop_last());
        match placed.last().0 {
            Some(c) => before.push((c, placed.last().1)),
            None => before,
        }
    }
}

/// A server's keywords: those for the whole server, and those of each
/// channel.
pub struct ServerKeywords {
    pub guild: u64,
    pub guild_keywords: Vec<String>,
    pub channels: Vec<Group<String>>,
}

/// Splits placed keywords (each with its channel, or `None` for the whole
/// server) into server-wide keywords and channel groups.
fn split_placed(placed: Vec<(Option<u64>, String)>) -> (r: (Vec<String>, Vec<Group<String>>))
    ensures
        r.0@ == server_wide(placed@),
        grouped(in_channels(placed@), r.1@),
{
    let ghost all = placed@;
    let total = placed.len();
    let mut rest = placed;
    let mut wide: Vec<String> = Vec::new();
    let mut pairs: Vec<(u64, String)> = Vec::new();
    let mut done: usize = 0;
    while rest.len() > 0
        invariant
            done + rest@.len() == all.len(),
            all.len() == total,
            rest@ == all.skip(done as int),
            wide@ == server_wide(all.take(done as int)),
            pairs@ == in_channels(all.take(done as int)),
        decreases rest.len(),
    {
        let (channel, keyword) = rest.remove(0);
        assert((channel, keyword) == all[done as int]);
        assert(all.take(done + 1).drop_last() =~= all.take(done as int));
        match channel {
            Some(c) => pairs.push((c, keyword)),
            None => wide.push(keyword),
        }
        done = done + 1;
        assert(rest@ =~= all.skip(done as int));
    }
    assert(all.take(done as int) =~= all);
    (wide, group_by_key(pairs))
}

/// Groups keywords by server, each with its channel (or `None` for a
/// server-wide keyword): one group per server in the order servers first
/// appear, each with its server-wide keywords in order and its channel
/// keywords grouped by channel.
pub fn keywords_by_server(placed: Vec<(u64, (Option<u64>, String))>) -> (r: Vec<ServerKeywords>)
    ensures
        r@.len() == first_appearances(keys_of(placed@)).len(),
        forall|j: int|
            0 <= j < r@.len() ==> {
                &&& (#[trigger] r@[j]).guild == first_appearances(keys_of(placed@))[j]
                &&& r@[j].guild_keywords@ == server_wide(values_for(placed@, r@[j].guild))
                &&& grouped(in_channels(values_for(placed@, r@[j].guild)), r@[j].channels@)
            },
{
    let groups = group_by_key(placed);
    let ghost gs = groups@;
    let mut rest = groups;
    let mut r: Vec<ServerKeywords> = Vec::new();
    while rest.len() > 0
        invariant
            r@.len() + rest@.len() == gs.len(),
            rest@ == gs.skip(r@.len() as int),
            grouped(placed@, gs),
            forall|j: int|
                0 <= j < r@.len() ==> {
                    &&& (#[trigger] r@[j]).guild == gs[j].key
                    &&& r@[j].guild_keywords@ == server_wide(gs[j].values@)
                    &&& grouped(in_channels(gs[j].values@), r@[j].channels@)
                },
        decreases rest.len(),
    {
        let group = rest.remove(0);
        assert(group == gs[r@.len() as int]);
        let (wide, channels) = split_placed(group.values);
        r.push(ServerKeywords { guild: group.key, guild_keywords: wide, channels });
        assert(rest@ =~= gs.skip(r@.len() as int));
    }
    r
}

/// The channels among `channels` whose IDs are among `known`, in order.
pub open spec fn channels_among(channels: Seq<ChannelId>, known: Seq<u64>) -> Seq<ChannelId> {
    channels.filter(|c: ChannelId| known.contains(c.0))
}

/// Keeps the channels whose IDs are among `known` (such as the channels of
/// a server), in order.
pub fn keep_channels_among(channels: &Vec<ChannelId>, known: &[u64]) -> (r: Vec<ChannelId>)
    ensures
        r@ == channels_among(channels@, known@),
{
    let mut r: Vec<ChannelId> = Vec::new();
    let mut i: usize = 0;
    while i < channels.len()
        invariant
            i <= channels@.len(),
            r@ == channels_among(channels@.take(i as int), known@),
        decreases channels.len() - i,
    {
        let c = channels[i];
        assert(channels@.take(i + 1).drop_last() =~= channels@.take(i as int));
        assert(channels@.take(i + 1).last() == c);
        proof {
            reveal(Seq::filter);
        }
        let mut k: usize = 0;
        while k < known.len() && known[k] != c.0
            invariant
                k <= known@.len(),
                forall|l: int| 0 <= l < k ==> known@[l] != c.0,
            decreases known.len() - k,
        {
            k = k + 1;
        }
        if k < known.len() {
            assert(known@[k as int] == c.0);
            r.push(c);
        } else {
            assert(!known@.contains(c.0));
        }
        i = i + 1;
    }
    assert(channels@.take(i as int) =~= channels@);
    r
}

/// The reply to `/keywords` when the user has no keyword to list.
pub open spec fn no_keywords_text() -> Seq<char> {
    "❌ You haven't added any keywords yet!"@
}

/// The reply to `/keywords` in a server: the no-keywords reply when the
/// user has neither server-wide keywords nor keywords in the server's
/// channels; otherwise the listing under `Your keywords in <server>:`, or
/// `None` when the server's name is unknown.
pub open spec fn keywords_reply_text(
    guild_name: Option<Seq<char>>,
    guild_keywords: Seq<Seq<char>>,
    channels: Seq<Group<String>>,
) -> Option<Seq<char>> {
    if guild_keywords.len() == 0 && channels.len() == 0 {
        Some(no_keywords_text())
    } else {
        match guild_name {
            Some(name) => Some(
                keywords_block_text("Your keywords in "@ + name + ":"@, guild_keywords, channels, false),
            ),
            None => None,
        }
    }
}

/// The text of an optional string.
pub open spec fn optional_string(s: Option<String>) -> Option<Seq<char>> {
    match s {
        Some(t) => Some(t@),
        None => None,
    }
}

/// Replies to `/keywords` in a server, given the server's name when it is
/// known, the server-wide keywords, and the keywords of the server's
/// channels grouped by channel.
pub fn keywords_reply(guild_name: Option<&str>, guild_keywords: &Vec<String>, channels: &Vec<Group<String>>) -> (r:
    Option<String>)
    ensures
        optional_string(r) == keywords_reply_text(optional_text(guild_name), views(guild_keywords@), channels@),
{
    if guild_keywords.len() == 0 && channels.len() == 0 {
        proof {
            reveal_strlit("❌ You haven't added any keywords yet!");
        }
        return Some("❌ You haven't added any keywords yet!".to_owned());
    }
    match guild_name {
        Some(name) => {
            let mut heading = "Your keywords in ".to_owned();
            heading.append(name);
            heading.append(":");
            Some(keywords_block(heading.as_str(), guild_keywords, channels, false))
        },
        None => None,
    }
}

/// The reply to `/ignores` when the user ignores no phrase here.
pub open spec fn no_ignores_text() -> Seq<char> {
    "❌ You haven't ignored any phrases!"@
}

/// The reply to `/ignores` in a server: the no-ignores reply when the user
/// ignores no phrase there; otherwise the phrases under
/// `<user>'s ignored phrases in <server>:`, or `None` when the server's
/// name is unknown.
pub open spec fn ignores_reply_text(
    author: Seq<char>,
    guild_name: Option<Seq<char>>,
    phrases: Seq<Seq<char>>,
) -> Option<Seq<char>> {
    if phrases.len() == 0 {
        Some(no_ignores_text())
    } else {
        match guild_name {
            Some(name) => Some(
                bulleted_text(author + "'s ignored phrases in "@ + name + ":"@, phrases, Bullet::Hyphen),
            ),
            None => None,
        }
    }
}

/// Replies to `/ignores` in a server, given the user's name, the server's
/// name when it is known, and the phrases the user ignores there.
pub fn ignores_reply(author: &str, guild_name: Option<&str>, phrases: &Vec<String>) -> (r: Option<String>)
    ensures
        optional_string(r) == ignores_reply_text(author@, optional_text(guild_name), views(phrases@)),
{
    if phrases.len() == 0 {
        proof {
            reveal_strlit("❌ You haven't ignored any phrases!");
        }
        return Some("❌ You haven't ignored any phrases!".to_owned());
    }
    match guild_name {
        Some(name) => {
            let mut heading = author.to_owned();
            heading.append("'s ignored phrases in ");
            heading.append(name);
            heading.append(":");
            Some(bulleted(heading.as_str(), phrases, Bullet::Hyphen))
        },
        None => None,
    }
}

/// The reply to `/mutes` when the user muted no channel here.
pub open spec fn no_mutes_text() -> Seq<char> {
    "❌ You haven't muted any channels!"@
}

/// The reply to `/mutes` in a server: only the muted channels that belong
/// to the server (`known`) are listed; the no-mutes reply when there are
/// none; otherwise their mentions under `Your muted channels in <server>:`,
/// or `None` when the server's name is unknown.
pub open spec fn mutes_reply_text(
    guild_name: Option<Seq<char>>,
    muted: Seq<ChannelId>,
    known: Seq<u64>,
) -> Option<Seq<char>> {
    let shown = channels_among(muted, known);
    if shown.len() == 0 {
        Some(no_mutes_text())
    } else {
        match guild_name {
            Some(name) => Some(
                bulleted_text("Your muted channels in "@ + name + ":"@, mentions_text(shown), Bullet::Hyphen),
            ),
            None => None,
        }
    }
}

/// Replies to `/mutes` in a server, given the server's name when it is
/// known, the user's muted channels (in every server), and the IDs of the
/// server's channels.
pub fn mutes_reply(guild_name: Option<&str>, muted: &Vec<ChannelId>, known: &[u64]) -> (r: Option<String>)
    ensures
        optional_string(r) == mutes_reply_text(optional_text(guild_name), muted@, known@),
{
    let shown = keep_channels_among(muted, known);
    if shown.len() == 0 {
        proof {
            reveal_strlit("❌ You haven't muted any channels!");
        }
        return Some("❌ You haven't muted any channels!".to_owned());
    }
    match guild_name {
        Some(name) => {
            let mut heading = "Your muted channels in ".to_owned();
            heading.append(name);
            heading.append(":");
            Some(bulleted(heading.as_str(), &mention_channels(&shown), Bullet::Hyphen))
        },
        None => None,
    }
}

/// The reply to the follows listing in a server: only the followed
/// channels that belong to the server (`known`) are listed;
/// `You haven't followed any channels yet!` when there are none; otherwise
/// their mentions under `<user>'s follows in <server>:`.
pub open spec fn follows_text(
    author: Seq<char>,
    guild: Seq<char>,
    followed: Seq<ChannelId>,
    known: Seq<u64>,
) -> Seq<char> {
    let shown = channels_among(followed, known);
    if shown.len() == 0 {
        "You haven't followed any channels yet!"@
    } else {
        bulleted_text(author + "'s follows in "@ + guild + ":"@, mentions_text(shown), Bullet::Hyphen)
    }
}

/// Replies to the follows listing in a server, given the user's and the
/// server's names, the user's followed channels (in every server), and the
/// IDs of the server's channels.
pub fn follows_reply(author: &str, guild: &str, followed: &Vec<ChannelId>, known: &[u64]) -> (r: String)
    ensures
        r@ == follows_text(author@, guild@, followed@, known@),
{
    let shown = keep_channels_among(followed, known);
    if shown.len() == 0 {
        proof {
            reveal_strlit("You haven't followed any channels yet!");
        }
        return "You haven't followed any channels yet!".to_owned();
    }
    let mut heading = author.to_owned();
    heading.append("'s follows in ");
    heading.append(guild);
    heading.append(":");
    bulleted(heading.as_str(), &mention_channels(&shown), Bullet::Hyphen)
}

} // verus!
