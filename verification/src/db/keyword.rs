//! Keywords: server-wide or specific to a channel.

use vstd::prelude::*;
use crate::db::{channel_keyword, guild_keyword};
use crate::ids::{fits_db, ChannelId, GuildId, UserId};

verus! {

/// Where a keyword applies.
#[derive(Clone, Copy, Debug, PartialEq, Eq, Structural)]
pub enum KeywordKind {
    /// Only in one channel.
    Channel(ChannelId),
    /// Anywhere in one server.
    Guild(GuildId),
}

impl KeywordKind {
    /// The default kind: a channel keyword for channel 0.
    pub fn default_kind() -> (r: KeywordKind)
        ensures
            r == KeywordKind::Channel(ChannelId(0)),
    {
        KeywordKind::Channel(ChannelId(0))
    }
}

/// A keyword added by a user.
#[derive(Clone, Debug)]
pub struct Keyword {
    pub keyword: String,
    pub user_id: UserId,
    pub kind: KeywordKind,
}

/// The row that stores a keyword, in the table for its kind.
#[derive(Clone, Debug)]
pub enum EitherModel {
    Channel(channel_keyword::Model),
    Guild(guild_keyword::Model),
}

pub open spec fn keyword_fits_db(k: Keyword) -> bool {
    &&& fits_db(k.user_id.0)
    &&& match k.kind {
        KeywordKind::Channel(c) => fits_db(c.0),
        KeywordKind::Guild(g) => fits_db(g.0),
    }
}

impl Keyword {
    /// The row that stores this keyword: a channel keyword goes to the
    /// channel table and a server keyword to the server table.
    pub fn into_model(self) -> (r: EitherModel)
        requires
            keyword_fits_db(self),
        ensures
            match self.kind {
                KeywordKind::Guild(g) => r matches EitherModel::Guild(m) && m.keyword@ == self.keyword@
                    && m.user_id == self.user_id.0 && m.guild_id == g.0,
                KeywordKind::Channel(c) => r matches EitherModel::Channel(m) && m.keyword@
                    == self.keyword@ && m.user_id == self.user_id.0 && m.channel_id == c.0,
            },
    {
        match self.kind {
            KeywordKind::Guild(guild_id) => EitherModel::Guild(
                guild_keyword::Model {
                    keyword: self.keyword,
                    user_id: self.user_id.into_db(),
                    guild_id: guild_id.into_db(),
                },
            ),
            KeywordKind::Channel(channel_id) => EitherModel::Channel(
                channel_keyword::Model {
                    keyword: self.keyword,
                    user_id: self.user_id.into_db(),
                    channel_id: channel_id.into_db(),
                },
            ),
        }
    }

    /// Reads a server-wide keyword from its row.
    pub fn from_guild_model(model: guild_keyword::Model) -> (r: Keyword)
        requires
            model.user_id >= 0,
            model.guild_id >= 0,
        ensures
            r.keyword@ == model.keyword@,
            r.user_id.0 == model.user_id,
            r.kind == KeywordKind::Guild(GuildId(model.guild_id as u64)),
    {
        Keyword {
            keyword: model.keyword,
            user_id: UserId::from_db(model.user_id),
            kind: KeywordKind::Guild(GuildId::from_db(model.guild_id)),
        }
    }

    /// Reads a channel-specific keyword from its row.
    pub fn from_channel_model(model: channel_keyword::Model) -> (r: Keyword)
        requires
            model.user_id >= 0,
            model.channel_id >= 0,
        ensures
            r.keyword@ == model.keyword@,
            r.user_id.0 == model.user_id,
            r.kind == KeywordKind::Channel(ChannelId(model.channel_id as u64)),
    {
        Keyword {
            keyword: model.keyword,
            user_id: UserId::from_db(model.user_id),
            kind: KeywordKind::Channel(ChannelId::from_db(model.channel_id)),
        }
    }

    /// The number of keywords a user has, from the counts in the two tables.
    pub fn total_keyword_count(guild_keywords: i64, channel_keywords: i64) -> (r: u64)
        requires
            guild_keywords >= 0,
            channel_keywords >= 0,
        ensures
            r == guild_keywords + channel_keywords,
    {
        guild_keywords as u64 + channel_keywords as u64
    }
}

/// Whether a keyword concerns a message by `author` in `channel` of
/// `guild`: the keyword's owner is not the author, neither of them opted
/// out, the owner did not block the author, and the keyword is either a
/// keyword of that server whose owner did not mute the channel, or a
/// keyword of that channel.
pub open spec fn relevant(
    keyword: Keyword,
    guild: GuildId,
    channel: ChannelId,
    author: UserId,
    opted_out: Seq<UserId>,
    mutes: Seq<(UserId, ChannelId)>,
    blocked_author: Seq<UserId>,
) -> bool {
    &&& keyword.user_id != author
    &&& !opted_out.contains(keyword.user_id)
    &&& !opted_out.contains(author)
    &&& !blocked_author.contains(keyword.user_id)
    &&& match keyword.kind {
        KeywordKind::Guild(g) => g == guild && !mutes.contains((keyword.user_id, channel)),
        KeywordKind::Channel(c) => c == channel,
    }
}

fn contains_user(users: &[UserId], user: UserId) -> (r: bool)
    ensures
        r == users@.contains(user),
{
    let mut k: usize = 0;
    while k < users.len()
        invariant
            k <= users@.len(),
            forall|j: int| 0 <= j < k ==> users@[j] != user,
        decreases users.len() - k,
    {
        if users[k].0 == user.0 {
            assert(users@[k as int] == user);
            return true;
        }
        k = k + 1;
    }
    false
}

fn contains_mute(mutes: &[(UserId, ChannelId)], user: UserId, channel: ChannelId) -> (r: bool)
    ensures
        r == mutes@.contains((user, channel)),
{
    let mut k: usize = 0;
    while k < mutes.len()
        invariant
            k <= mutes@.len(),
            forall|j: int| 0 <= j < k ==> mutes@[j] != (user, channel),
        decreases mutes.len() - k,
    {
        if mutes[k].0.0 == user.0 && mutes[k].1.0 == channel.0 {
            assert(mutes@[k as int] == (user, channel));
            return true;
        }
        k = k + 1;
    }
    false
}

/// Keeps the keywords that concern a message by `author` in `channel` of
/// `guild`, in order. `opted_out` lists the users who opted out, `mutes`
/// the channels each user muted, and `blocked_author` the users who
/// blocked the author.
pub fn relevant_keywords(
    candidates: Vec<Keyword>,
    guild: GuildId,
    channel: ChannelId,
    author: UserId,
    opted_out: &[UserId],
    mutes: &[(UserId, ChannelId)],
    blocked_author: &[UserId],
) -> (r: Vec<Keyword>)
    ensures
        r@ == candidates@.filter(
            |k: Keyword| relevant(k, guild, channel, author, opted_out@, mutes@, blocked_author@),
        ),
{
    let ghost all = candidates@;
    let total = candidates.len();
    let ghost pred = |k: Keyword| relevant(k, guild, channel, author, opted_out@, mutes@, blocked_author@);
    let author_out = contains_user(opted_out, author);
    let mut rest = candidates;
    let mut kept: Vec<Keyword> = Vec::new();
    let mut done: usize = 0;
    while rest.len() > 0
        invariant
            done + rest@.len() == all.len(),
            all.len() == total,
            rest@ == all.skip(done as int),
            author_out == opted_out@.contains(author),
            pred == (|k: Keyword| relevant(k, guild, channel, author, opted_out@, mutes@, blocked_author@)),
            kept@ == all.take(done as int).filter(pred),
        decreases rest.len(),
    {
        let keyword = rest.remove(0);
        assert(keyword == all[done as int]);
        assert(all.take(done + 1).drop_last() =~= all.take(done as int));
        proof {
            reveal(Seq::filter);
        }
        let owner = keyword.user_id;
        let keep = if owner.0 == author.0 || author_out || contains_user(opted_out, owner) || contains_user(
            blocked_author,
            owner,
        ) {
            false
        } else {
            match keyword.kind {
                KeywordKind::Guild(g) => g.0 == guild.0 && !contains_mute(mutes, owner, channel),
                KeywordKind::Channel(c) => c.0 == channel.0,
            }
        };
        assert(keep == pred(keyword));
        if keep {
            kept.push(keyword);
        }
        done = done + 1;
        assert(rest@ =~= all.skip(done as int));
    }
    assert(all.take(done as int) =~= all);
    kept
}

/// What the kept keywords are, stated keyword by keyword: every kept
/// keyword is one of the candidates; its owner is not the author, neither
/// of them opted out, and the owner did not block the author, whether the
/// keyword is for the server or for the channel; a server keyword is of
/// this server and its owner did not mute the channel; a channel keyword is
/// of this channel. Every candidate with all these properties is kept.
pub proof fn lemma_relevant_keywords_members(
    candidates: Seq<Keyword>,
    guild: GuildId,
    channel: ChannelId,
    author: UserId,
    opted_out: Seq<UserId>,
    mutes: Seq<(UserId, ChannelId)>,
    blocked_author: Seq<UserId>,
)
    ensures
        ({
            let kept = candidates.filter(
                |k: Keyword| relevant(k, guild, channel, author, opted_out, mutes, blocked_author),
            );
            &&& forall|i: int|
                0 <= i < kept.len() ==> {
                    let k = #[trigger] kept[i];
                    &&& candidates.contains(k)
                    &&& k.user_id != author
                    &&& !opted_out.contains(k.user_id)
                    &&& !opted_out.contains(author)
                    &&& !blocked_author.contains(k.user_id)
                    &&& (k.kind matches KeywordKind::Guild(g) ==> g == guild && !mutes.contains(
                        (k.user_id, channel),
                    ))
                    &&& (k.kind matches KeywordKind::Channel(c) ==> c == channel)
                }
            &&& forall|i: int|
                0 <= i < candidates.len() && {
                    let k = #[trigger] candidates[i];
                    &&& k.user_id != author
                    &&& !opted_out.contains(k.user_id)
                    &&& !opted_out.contains(author)
                    &&& !blocked_author.contains(k.user_id)
                    &&& (k.kind matches KeywordKind::Guild(g) ==> g == guild && !mutes.contains(
                        (k.user_id, channel),
                    ))
                    &&& (k.kind matches KeywordKind::Channel(c) ==> c == channel)
                } ==> kept.contains(candidates[i])
        }),
{
    broadcast use vstd::seq_lib::group_filter_ensures;

    let pred = |k: Keyword| relevant(k, guild, channel, author, opted_out, mutes, blocked_author);
    let kept = candidates.filter(pred);
    assert forall|i: int| 0 <= i < kept.len() implies candidates.contains(#[trigger] kept[i]) && pred(
        kept[i],
    ) by {
        assert(pred(kept[i]));
        assert(kept.contains(kept[i]));
        candidates.lemma_filter_contains_rev(pred, kept[i]);
    }
}

} // verus!
