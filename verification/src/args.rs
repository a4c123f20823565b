//! Reading channels from the words of a command's arguments.

use vstd::prelude::*;
use vstd::string::*;
use vstd::utf8::*;
use crate::commands::{chars_eq, eq_ignore_ascii_case_chars, parse_u64, spec_parse_u64};
use crate::ids::ChannelId;
use crate::commands::{all_digits, digits_value, is_digit_byte, unsigned_digits};
use crate::reports::mention_text;
use crate::strings::{decimal, digit_char, is_whitespace, unicode_whitespace};
use crate::pattern::{regex_captures, regex_compiles, Pattern};
use crate::text::{get_range, substring};

verus! {

/// Where the word that starts at character `i` ends: at the next
/// whitespace character, or at the end of the text.
pub open spec fn word_end(s: Seq<char>, i: int) -> int
    decreases s.len() - i,
{
    if i >= s.len() || i < 0 || unicode_whitespace(s[i]) {
        i
    } else {
        word_end(s, i + 1)
    }
}

/// The words of `s` from character `i` on: the maximal runs of characters
/// that are not whitespace, in order.
pub open spec fn words_from(s: Seq<char>, i: int) -> Seq<Seq<char>>
    decreases s.len() - i, 1int,
{
    if i >= s.len() || i < 0 {
        Seq::empty()
    } else if unicode_whitespace(s[i]) {
        words_from(s, i + 1)
    } else {
        let e = word_end(s, i);
        if e <= i || e > s.len() {
            Seq::empty()
        } else {
            seq![s.subrange(i, e)] + words_from(s, e)
        }
    }
}

/// The words that `str::split_whitespace` gives.
pub open spec fn words(s: Seq<char>) -> Seq<Seq<char>> {
    words_from(s, 0)
}

proof fn lemma_word_end_bounds(s: Seq<char>, i: int)
    requires
        0 <= i <= s.len(),
    ensures
        i <= word_end(s, i) <= s.len(),
        forall|k: int| i <= k < word_end(s, i) ==> !unicode_whitespace(#[trigger] s[k]),
        word_end(s, i) < s.len() ==> unicode_whitespace(s[word_end(s, i)]),
    decreases s.len() - i,
{
    if i < s.len() && !unicode_whitespace(s[i]) {
        lemma_word_end_bounds(s, i + 1);
    }
}

/// The text of each word.
pub open spec fn texts(words: Seq<&str>) -> Seq<Seq<char>> {
    words.map_values(|w: &str| w@)
}

/// Splits `s` into words at whitespace, as `str::split_whitespace` does.
pub fn split_whitespace<'a>(s: &'a str) -> (r: Vec<&'a str>)
    ensures
        texts(r@) == words(s@),
{
    let n = s.unicode_len();
    let mut r: Vec<&'a str> = Vec::new();
    let mut i: usize = 0;
    while i < n
        invariant
            n == s@.len(),
            i <= n,
            texts(r@) + words_from(s@, i as int) == words(s@),
        decreases n - i,
    {
        if is_whitespace(s.get_char(i)) {
            i = i + 1;
        } else {
            let mut e: usize = i + 1;
            proof {
                lemma_word_end_bounds(s@, i as int);
            }
            while e < n && !is_whitespace(s.get_char(e))
                invariant
                    n == s@.len(),
                    i < e <= n,
                    word_end(s@, i as int) == word_end(s@, e as int),
                decreases n - e,
            {
                e = e + 1;
            }
            let word = s.substring_char(i, e);
            let ghost before = r@;
            r.push(word);
            assert(texts(r@) =~= texts(before).push(word@));
            assert(texts(before) + words_from(s@, i as int) == texts(before) + (seq![word@] + words_from(s@, e as int)));
            assert(texts(before).push(word@) + words_from(s@, e as int) =~= texts(before) + (seq![word@] + words_from(s@, e as int)));
            i = e;
        }
    }
    assert(words_from(s@, i as int) =~= Seq::<Seq<char>>::empty());
    assert(texts(r@) + Seq::<Seq<char>>::empty() =~= texts(r@));
    r
}

/// The channel ID an argument gives as a number.
pub open spec fn arg_id(arg: Seq<char>) -> Option<u64> {
    spec_parse_u64(encode_utf8(arg))
}

/// The channel ID an argument gives as a channel mention, `<#id>`.
pub open spec fn mention_id(arg: Seq<char>) -> Option<u64> {
    if arg.len() >= 3 && arg[0] == '<' && arg[1] == '#' && arg.last() == '>' {
        spec_parse_u64(encode_utf8(arg.subrange(2, arg.len() - 1)))
    } else {
        None
    }
}

/// Reads a channel ID from a command argument, as `str::parse::<u64>`
/// does; `Err` with the argument when it is not a number.
pub fn parse_channel_id<'a>(arg: &'a str) -> (r: Result<(ChannelId, &'a str), &'a str>)
    ensures
        match arg_id(arg@) {
            Some(id) => r == Ok::<(ChannelId, &'a str), &'a str>((ChannelId(id), arg)),
            None => r == Err::<(ChannelId, &'a str), &'a str>(arg),
        },
{
    match parse_u64(arg) {
        Some(id) => Ok((ChannelId(id), arg)),
        None => Err(arg),
    }
}

/// Reads channel IDs from each word of the arguments, in order: a word
/// that is not a number stays as an `Err`.
pub fn get_ids_from_args<'a>(args: &'a str) -> (r: Vec<Result<(ChannelId, &'a str), &'a str>>)
    ensures
        r@.len() == words(args@).len(),
        forall|i: int|
            0 <= i < r@.len() ==> match arg_id(words(args@)[i]) {
                Some(id) => (#[trigger] r@[i]) matches Ok((c, w)) && c == ChannelId(id) && w@ == words(args@)[i],
                None => r@[i] matches Err(w) && w@ == words(args@)[i],
            },
{
    let ws = split_whitespace(args);
    let mut r: Vec<Result<(ChannelId, &'a str), &'a str>> = Vec::new();
    let mut i: usize = 0;
    while i < ws.len()
        invariant
            i <= ws@.len(),
            r@.len() == i,
            texts(ws@) == words(args@),
            forall|k: int|
                0 <= k < i ==> match arg_id(words(args@)[k]) {
                    Some(id) => (#[trigger] r@[k]) matches Ok((c, w)) && c == ChannelId(id) && w@ == words(
                        args@,
                    )[k],
                    None => r@[k] matches Err(w) && w@ == words(args@)[k],
                },
        decreases ws.len() - i,
    {
        assert(texts(ws@)[i as int] == ws@[i as int]@);
        r.push(parse_channel_id(ws[i]));
        i = i + 1;
    }
    r
}

/// A channel of a server: its ID and its name.
pub open spec fn channel_ids(channels: Seq<(ChannelId, String)>) -> Seq<u64> {
    channels.map_values(|c: (ChannelId, String)| c.0.0)
}

/// The IDs of the channels named `name`, up to ASCII case, in order.
pub open spec fn named(channels: Seq<(ChannelId, String)>, name: Seq<char>) -> Seq<ChannelId>
    decreases channels.len(),
{
    if channels.len() == 0 {
        Seq::empty()
    } else {
        let before = named(channels.drop_last(), name);
        if eq_ignore_ascii_case_chars(channels.last().1@, name) {
            before.push(channels.last().0)
        } else {
            before
        }
    }
}

/// The channel a command argument names, among `channels`: by ID, by
/// channel mention, or by a name (up to ASCII case) that exactly one
/// channel has.
pub open spec fn spec_channel_from_arg(channels: Seq<(ChannelId, String)>, arg: Seq<char>) -> Option<ChannelId> {
    match arg_id(arg) {
        Some(id) => if channel_ids(channels).contains(id) {
            Some(ChannelId(id))
        } else {
            None
        },
        None => match mention_id(arg) {
            Some(id) => if channel_ids(channels).contains(id) {
                Some(ChannelId(id))
            } else {
                None
            },
            None => if named(channels, arg).len() == 1 {
                Some(named(channels, arg)[0])
            } else {
                None
            },
        },
    }
}

fn has_channel(channels: &[(ChannelId, String)], id: u64) -> (r: bool)
    ensures
        r == channel_ids(channels@).contains(id),
{
    let mut k: usize = 0;
    while k < channels.len()
        invariant
            k <= channels@.len(),
            forall|j: int| 0 <= j < k ==> (#[trigger] channels@[j]).0.0 != id,
        decreases channels.len() - k,
    {
        if channels[k].0.0 == id {
            assert(channel_ids(channels@)[k as int] == id);
            return true;
        }
        k = k + 1;
    }
    assert forall|j: int| 0 <= j < channel_ids(channels@).len() implies #[trigger] channel_ids(channels@)[j] != id by {
        assert(channels@[j].0.0 != id);
    }
    false
}

fn channels_named(channels: &[(ChannelId, String)], name: &str) -> (r: Vec<ChannelId>)
    ensures
        r@ == named(channels@, name@),
{
    let mut r: Vec<ChannelId> = Vec::new();
    let mut k: usize = 0;
    while k < channels.len()
        invariant
            k <= channels@.len(),
            r@ == named(channels@.take(k as int), name@),
        decreases channels.len() - k,
    {
        assert(channels@.take(k + 1).drop_last() =~= channels@.take(k as int));
        assert(channels@.take(k + 1).last() == channels@[k as int]);
        if chars_eq(channels[k].1.as_str(), name, true) {
            r.push(channels[k].0);
        }
        k = k + 1;
    }
    assert(channels@.take(k as int) =~= channels@);
    r
}

fn mentioned_id(arg: &str) -> (r: Option<u64>)
    ensures
        r == mention_id(arg@),
{
    let n = arg.unicode_len();
    if n >= 3 && arg.get_char(0) == '<' && arg.get_char(1) == '#' && arg.get_char(n - 1) == '>' {
        parse_u64(arg.substring_char(2, n - 1))
    } else {
        None
    }
}

/// Finds the channel a command argument names: a channel ID, a channel
/// mention `<#id>`, or the name of exactly one channel, up to ASCII case.
/// Gives the argument back with the channel, or alone when no channel
/// fits.
pub fn get_channel_from_arg<'a>(channels: &[(ChannelId, String)], arg: &'a str) -> (r: Result<(ChannelId, &'a str), &'a str>)
    ensures
        match spec_channel_from_arg(channels@, arg@) {
            Some(c) => r == Ok::<(ChannelId, &'a str), &'a str>((c, arg)),
            None => r == Err::<(ChannelId, &'a str), &'a str>(arg),
        },
{
    let id = match parse_u64(arg) {
        Some(id) => Some(id),
        None => mentioned_id(arg),
    };
    match id {
        Some(id) => if has_channel(channels, id) {
            Ok((ChannelId(id), arg))
        } else {
            Err(arg)
        },
        None => {
            let found = channels_named(channels, arg);
            if found.len() == 1 {
                Ok((found[0], arg))
            } else {
                Err(arg)
            }
        },
    }
}

/// The channels that arguments name, and the arguments that name none.
pub struct ChannelsFromArgs<'a> {
    pub not_found: Vec<&'a str>,
    pub found: Vec<(ChannelId, &'a str)>,
}

/// The words that name no channel, in order.
pub open spec fn unfound_words(channels: Seq<(ChannelId, String)>, ws: Seq<Seq<char>>) -> Seq<Seq<char>>
    decreases ws.len(),
{
    if ws.len() == 0 {
        Seq::empty()
    } else {
        let before = unfound_words(channels, ws.drop_last());
        if spec_channel_from_arg(channels, ws.last()) is None {
            before.push(ws.last())
        } else {
            before
        }
    }
}

/// The channels that words name, each with its word, in order.
pub open spec fn found_channels(channels: Seq<(ChannelId, String)>, ws: Seq<Seq<char>>) -> Seq<(ChannelId, Seq<char>)>
    decreases ws.len(),
{
    if ws.len() == 0 {
        Seq::empty()
    } else {
        let before = found_channels(channels, ws.drop_last());
        match spec_channel_from_arg(channels, ws.last()) {
            Some(c) => before.push((c, ws.last())),
            None => before,
        }
    }
}

/// Found channels with the text of their words.
pub open spec fn found_texts(found: Seq<(ChannelId, &str)>) -> Seq<(ChannelId, Seq<char>)> {
    found.map_values(|f: (ChannelId, &str)| (f.0, f.1@))
}

/// Finds the channel that each word of the arguments names, and sorts the
/// words into those that name a channel and those that do not, each in
/// order.
pub fn get_channels_from_args<'a>(channels: &[(ChannelId, String)], args: &'a str) -> (r: ChannelsFromArgs<'a>)
    ensures
        texts(r.not_found@) == unfound_words(channels@, words(args@)),
        found_texts(r.found@) == found_channels(channels@, words(args@)),
{
    let ws = split_whitespace(args);
    let mut result = ChannelsFromArgs { not_found: Vec::new(), found: Vec::new() };
    let mut i: usize = 0;
    while i < ws.len()
        invariant
            i <= ws@.len(),
            texts(ws@) == words(args@),
            texts(result.not_found@) == unfound_words(channels@, texts(ws@).take(i as int)),
            found_texts(result.found@) == found_channels(channels@, texts(ws@).take(i as int)),
        decreases ws.len() - i,
    {
        let ghost prefix = texts(ws@).take(i + 1);
        assert(prefix.drop_last() =~= texts(ws@).take(i as int));
        assert(prefix.last() == ws@[i as int]@);
        let ghost nf = result.not_found@;
        let ghost fd = result.found@;
        match get_channel_from_arg(channels, ws[i]) {
            Ok(found) => {
                result.found.push(found);
                assert(found_texts(result.found@) =~= found_texts(fd).push((found.0, found.1@)));
            },
            Err(word) => {
                result.not_found.push(word);
                assert(texts(result.not_found@) =~= texts(nf).push(word@));
            },
        }
        i = i + 1;
    }
    assert(texts(ws@).take(i as int) =~= texts(ws@));
    result
}

/// Channels named by arguments, sorted by who can read them.
pub struct ReadableChannelsFromArgs<'a> {
    /// Arguments that name no channel.
    pub not_found: Vec<&'a str>,
    /// Channels both the user and the bot can read.
    pub found: Vec<ChannelId>,
    /// Channels the user cannot read, with the arguments that named them.
    pub user_cant_read: Vec<(ChannelId, &'a str)>,
    /// Channels the user can read and the bot cannot.
    pub self_cant_read: Vec<ChannelId>,
}

/// The found channels with the given reading permissions (of the user,
/// then of the bot): the user cannot read them when `user` is false, and
/// otherwise the bot can read them exactly when `bot` is.
pub open spec fn with_permissions(
    found: Seq<(ChannelId, &str)>,
    permissions: Seq<(bool, bool)>,
    user: bool,
    bot: bool,
) -> Seq<(ChannelId, &str)>
    decreases found.len(),
{
    if found.len() == 0 || permissions.len() != found.len() {
        Seq::empty()
    } else {
        let before = with_permissions(found.drop_last(), permissions.drop_last(), user, bot);
        let (u, b) = permissions.last();
        if (!user && !u) || (user && u && b == bot) {
            before.push(found.last())
        } else {
            before
        }
    }
}

/// The channel IDs, in order.
pub open spec fn ids_of(found: Seq<(ChannelId, &str)>) -> Seq<ChannelId> {
    found.map_values(|f: (ChannelId, &str)| f.0)
}

/// Sorts the channels that arguments named by who can read them, given for
/// each found channel whether the user and whether the bot can read it.
/// A channel the user cannot read goes with its argument to
/// `user_cant_read`; one the bot cannot read to `self_cant_read`; the rest
/// to `found`. Each keeps its order.
pub fn sort_readable<'a>(channels: ChannelsFromArgs<'a>, permissions: &[(bool, bool)]) -> (r: ReadableChannelsFromArgs<'a>)
    requires
        permissions@.len() == channels.found@.len(),
    ensures
        r.not_found@ == channels.not_found@,
        r.user_cant_read@ == with_permissions(channels.found@, permissions@, false, false),
        r.self_cant_read@ == ids_of(with_permissions(channels.found@, permissions@, true, false)),
        r.found@ == ids_of(with_permissions(channels.found@, permissions@, true, true)),
{
    let ghost all = channels.found@;
    let mut r = ReadableChannelsFromArgs {
        not_found: channels.not_found,
        found: Vec::new(),
        user_cant_read: Vec::new(),
        self_cant_read: Vec::new(),
    };
    let found = channels.found;
    let mut i: usize = 0;
    while i < found.len()
        invariant
            i <= found@.len(),
            found@ == all,
            permissions@.len() == all.len(),
            r.not_found@ == channels.not_found@,
            r.user_cant_read@ == with_permissions(all.take(i as int), permissions@.take(i as int), false, false),
            r.self_cant_read@ == ids_of(
                with_permissions(all.take(i as int), permissions@.take(i as int), true, false),
            ),
            r.found@ == ids_of(with_permissions(all.take(i as int), permissions@.take(i as int), true, true)),
        decreases found.len() - i,
    {
        assert(all.take(i + 1).drop_last() =~= all.take(i as int));
        assert(permissions@.take(i + 1).drop_last() =~= permissions@.take(i as int));
        assert(all.take(i + 1).last() == all[i as int]);
        assert(permissions@.take(i + 1).last() == permissions@[i as int]);
        let ghost uc = r.user_cant_read@;
        let ghost sc = with_permissions(all.take(i as int), permissions@.take(i as int), true, false);
        let ghost fc = with_permissions(all.take(i as int), permissions@.take(i as int), true, true);
        let (user, bot) = permissions[i];
        if !user {
            r.user_cant_read.push(found[i]);
        } else if !bot {
            r.self_cant_read.push(found[i].0);
            assert(ids_of(sc.push(found@[i as int])) =~= ids_of(sc).push(found@[i as int].0));
        } else {
            r.found.push(found[i].0);
            assert(ids_of(fc.push(found@[i as int])) =~= ids_of(fc).push(found@[i as int].0));
        }
        i = i + 1;
    }
    assert(all.take(i as int) =~= all);
    assert(permissions@.take(i as int) =~= permissions@);
    r
}

/// Whether permissions meet the condition of `with_permissions`.
spec fn kept_by(p: (bool, bool), user: bool, bot: bool) -> bool {
    (!user && !p.0) || (user && p.0 && p.1 == bot)
}

/// Every found channel whose permissions meet the condition is kept by
/// `with_permissions`.
proof fn lemma_with_permissions_keeps(
    found: Seq<(ChannelId, &str)>,
    permissions: Seq<(bool, bool)>,
    user: bool,
    bot: bool,
)
    requires
        permissions.len() == found.len(),
    ensures
        forall|i: int|
            0 <= i < found.len() && kept_by(permissions[i], user, bot) ==> #[trigger] with_permissions(
                found,
                permissions,
                user,
                bot,
            ).contains(found[i]),
    decreases found.len(),
{
    if found.len() > 0 {
        let f = found.drop_last();
        let p = permissions.drop_last();
        lemma_with_permissions_keeps(f, p, user, bot);
        let before = with_permissions(f, p, user, bot);
        let w = with_permissions(found, permissions, user, bot);
        let n = found.len() - 1;
        assert(permissions.last() == permissions[n]);
        if kept_by(permissions[n], user, bot) {
            assert(w == before.push(found[n]));
        } else {
            assert(w == before);
        }
        assert forall|i: int| 0 <= i < found.len() && kept_by(permissions[i], user, bot) implies #[trigger] w.contains(
            found[i],
        ) by {
            if i < n {
                assert(f[i] == found[i] && p[i] == permissions[i]);
                assert(before.contains(f[i]));
                let k = choose|k: int| 0 <= k < before.len() && before[k] == f[i];
                assert(w[k] == before[k]);
            } else {
                assert(w[w.len() - 1] == found[i]);
            }
        }
    }
}

/// Every channel that `with_permissions` keeps is a found channel whose
/// permissions meet the condition.
proof fn lemma_with_permissions_sources(
    found: Seq<(ChannelId, &str)>,
    permissions: Seq<(bool, bool)>,
    user: bool,
    bot: bool,
    j: int,
) -> (i: int)
    requires
        permissions.len() == found.len(),
        0 <= j < with_permissions(found, permissions, user, bot).len(),
    ensures
        0 <= i < found.len(),
        found[i] == with_permissions(found, permissions, user, bot)[j],
        kept_by(permissions[i], user, bot),
    decreases found.len(),
{
    let f = found.drop_last();
    let p = permissions.drop_last();
    let before = with_permissions(f, p, user, bot);
    let w = with_permissions(found, permissions, user, bot);
    let n = found.len() - 1;
    assert(permissions.last() == permissions[n]);
    if kept_by(permissions[n], user, bot) {
        assert(w == before.push(found[n]));
    } else {
        assert(w == before);
    }
    if j < before.len() {
        assert(w[j] == before[j]);
        let i = lemma_with_permissions_sources(f, p, user, bot, j);
        assert(found[i] == f[i] && permissions[i] == p[i]);
        i
    } else {
        n
    }
}

/// Sorting channels by who can read them, stated channel by channel: a
/// channel the user cannot read goes, with its argument, to
/// `user_cant_read`, whatever the bot can read; one the user can read and
/// the bot cannot goes to `self_cant_read`; one both can read goes to
/// `found`. Nothing else lands in any of the three.
pub proof fn lemma_sorted_by_readers<'a>(found: Seq<(ChannelId, &'a str)>, permissions: Seq<(bool, bool)>)
    requires
        permissions.len() == found.len(),
    ensures
        forall|i: int|
            0 <= i < found.len() && !permissions[i].0 ==> #[trigger] with_permissions(
                found,
                permissions,
                false,
                false,
            ).contains(found[i]),
        forall|i: int|
            0 <= i < found.len() && permissions[i].0 && !permissions[i].1 ==> #[trigger] ids_of(
                with_permissions(found, permissions, true, false),
            ).contains(found[i].0),
        forall|i: int|
            0 <= i < found.len() && permissions[i].0 && permissions[i].1 ==> #[trigger] ids_of(
                with_permissions(found, permissions, true, true),
            ).contains(found[i].0),
        forall|x: (ChannelId, &'a str)|
            #[trigger] with_permissions(found, permissions, false, false).contains(x) ==> exists|i: int|
                0 <= i < found.len() && found[i] == x && !permissions[i].0,
        forall|c: ChannelId|
            #[trigger] ids_of(with_permissions(found, permissions, true, false)).contains(c) ==> exists|i: int|
                0 <= i < found.len() && found[i].0 == c && permissions[i].0 && !permissions[i].1,
        forall|c: ChannelId|
            #[trigger] ids_of(with_permissions(found, permissions, true, true)).contains(c) ==> exists|i: int|
                0 <= i < found.len() && found[i].0 == c && permissions[i].0 && permissions[i].1,
{
    lemma_with_permissions_keeps(found, permissions, false, false);
    lemma_with_permissions_keeps(found, permissions, true, false);
    lemma_with_permissions_keeps(found, permissions, true, true);
    let uc = with_permissions(found, permissions, false, false);
    let sc = with_permissions(found, permissions, true, false);
    let fc = with_permissions(found, permissions, true, true);
    assert forall|i: int| 0 <= i < found.len() && !permissions[i].0 implies #[trigger] uc.contains(found[i]) by {
        assert(kept_by(permissions[i], false, false));
    }
    assert forall|i: int| 0 <= i < found.len() && permissions[i].0 && !permissions[i].1 implies #[trigger] ids_of(
        sc,
    ).contains(found[i].0) by {
        assert(kept_by(permissions[i], true, false));
        assert(sc.contains(found[i]));
        let k = choose|k: int| 0 <= k < sc.len() && sc[k] == found[i];
        assert(ids_of(sc)[k] == found[i].0);
    }
    assert forall|i: int| 0 <= i < found.len() && permissions[i].0 && permissions[i].1 implies #[trigger] ids_of(
        fc,
    ).contains(found[i].0) by {
        assert(kept_by(permissions[i], true, true));
        assert(fc.contains(found[i]));
        let k = choose|k: int| 0 <= k < fc.len() && fc[k] == found[i];
        assert(ids_of(fc)[k] == found[i].0);
    }
    assert forall|x: (ChannelId, &'a str)| #[trigger] uc.contains(x) implies exists|i: int|
        0 <= i < found.len() && found[i] == x && !permissions[i].0 by {
        let j = choose|j: int| 0 <= j < uc.len() && uc[j] == x;
        let i = lemma_with_permissions_sources(found, permissions, false, false, j);
        assert(found[i] == x && !permissions[i].0);
    }
    assert forall|c: ChannelId| #[trigger] ids_of(sc).contains(c) implies exists|i: int|
        0 <= i < found.len() && found[i].0 == c && permissions[i].0 && !permissions[i].1 by {
        let j = choose|j: int| 0 <= j < ids_of(sc).len() && ids_of(sc)[j] == c;
        let i = lemma_with_permissions_sources(found, permissions, true, false, j);
        assert(sc[j].0 == c);
        assert(found[i].0 == c && permissions[i].0 && !permissions[i].1);
    }
    assert forall|c: ChannelId| #[trigger] ids_of(fc).contains(c) implies exists|i: int|
        0 <= i < found.len() && found[i].0 == c && permissions[i].0 && permissions[i].1 by {
        let j = choose|j: int| 0 <= j < ids_of(fc).len() && ids_of(fc)[j] == c;
        let i = lemma_with_permissions_sources(found, permissions, true, true, j);
        assert(fc[j].0 == c);
        assert(found[i].0 == c && permissions[i].0 && permissions[i].1);
    }
}

/// The form of a keyword for some channels: `"foo" in bar baz` or
/// `"foo" from bar baz`, with `\"` standing for a quote in the keyword.
pub open spec fn channel_keyword_pattern() -> Seq<char> {
    "^\"((?:\\\\\"|[^\"])*)\" (?:in|from) ((?:\\S+(?:$| ))+)"@
}

/// Recognizes arguments that give a keyword for some channels.
pub struct ChannelKeywordSyntax {
    pattern: Pattern,
}

/// What the arguments of `add` or `remove` ask for.
pub enum KeywordArgs<'a> {
    /// The whole arguments are a keyword for the server.
    ServerWide,
    /// A keyword for the channels that the second part names.
    InChannels { keyword: &'a str, channels: &'a str },
    /// The form matched without giving both parts.
    Malformed,
}

/// What the arguments ask for, given the groups of the form's match.
pub open spec fn spec_keyword_args(args: Seq<char>) -> Option<Option<(Seq<char>, Seq<char>)>> {
    match regex_captures(channel_keyword_pattern(), args) {
        None => None,
        Some(groups) => if groups.len() > 2 && groups[1] is Some && groups[2] is Some {
            let (ks, ke) = groups[1]->0;
            let (cs, ce) = groups[2]->0;
            Some(Some((get_range(args, ks as int, ke as int)->0, get_range(args, cs as int, ce as int)->0)))
        } else {
            Some(None)
        },
    }
}

impl ChannelKeywordSyntax {
    #[verifier::type_invariant]
    spec fn is_channel_keyword_pattern(self) -> bool {
        self.pattern.source() == channel_keyword_pattern()
    }

    /// Compiles the form; `None` when the regex crate rejects it.
    pub fn new() -> (r: Option<ChannelKeywordSyntax>)
        ensures
            r is Some <==> regex_compiles(channel_keyword_pattern()),
    {
        match Pattern::compile("^\"((?:\\\\\"|[^\"])*)\" (?:in|from) ((?:\\S+(?:$| ))+)") {
            Some(pattern) => Some(ChannelKeywordSyntax { pattern }),
            None => None,
        }
    }

    /// Reads the arguments of `add` or `remove`: a quoted keyword followed
    /// by `in` or `from` and channels, or else a keyword for the server.
    pub fn parse<'a>(&self, args: &'a str) -> (r: KeywordArgs<'a>)
        ensures
            match spec_keyword_args(args@) {
                None => r is ServerWide,
                Some(None) => r is Malformed,
                Some(Some((keyword, channels))) => r matches KeywordArgs::InChannels { keyword: k, channels: c }
                    && k@ == keyword && c@ == channels,
            },
    {
        proof {
            use_type_invariant(self);
        }
        let groups = match self.pattern.captures(args) {
            Some(groups) => groups,
            None => return KeywordArgs::ServerWide,
        };
        if groups.len() <= 2 {
            return KeywordArgs::Malformed;
        }
        match (groups[1], groups[2]) {
            (Some(k), Some(c)) => {
                assert(groups@[1] matches Some(g) ==> get_range(args@, g.0 as int, g.1 as int) is Some);
                assert(groups@[2] matches Some(g) ==> get_range(args@, g.0 as int, g.1 as int) is Some);
                let keyword = substring(args, k.0, k.1);
                let channels = substring(args, c.0, c.1);
                match (keyword, channels) {
                    (Some(keyword), Some(channels)) => KeywordArgs::InChannels { keyword, channels },
                    _ => KeywordArgs::Malformed,
                }
            },
            _ => KeywordArgs::Malformed,
        }
    }
}

/// The characters of a decimal writing are ASCII digits.
proof fn lemma_decimal_digits(n: nat)
    ensures
        decimal(n).len() > 0,
        forall|i: int| 0 <= i < decimal(n).len() ==> '0' <= #[trigger] decimal(n)[i] <= '9',
    decreases n,
{
    if n >= 10 {
        lemma_decimal_digits(n / 10);
        let d = (n % 10) as int;
        assert('0' <= digit_char(d) <= '9');
        assert forall|i: int| 0 <= i < decimal(n).len() implies '0' <= #[trigger] decimal(n)[i] <= '9' by {
            if i < decimal(n / 10).len() {
                assert(decimal(n)[i] == decimal(n / 10)[i]);
            }
        }
    } else {
        assert('0' <= digit_char(n as int) <= '9');
    }
}

/// The bytes of an ASCII text, character by character.
spec fn ascii_bytes(s: Seq<char>) -> Seq<u8> {
    Seq::new(s.len(), |i: int| s[i] as u8)
}

/// The value of the digits of a decimal writing is the number written.
proof fn lemma_decimal_value(n: nat)
    ensures
        digits_value(ascii_bytes(decimal(n))) == n,
        all_digits(ascii_bytes(decimal(n))),
    decreases n,
{
    lemma_decimal_digits(n);
    let b = ascii_bytes(decimal(n));
    let d = (n % 10) as int;
    assert(digit_char(d) as u8 == 48 + d);
    if n >= 10 {
        lemma_decimal_value(n / 10);
        assert(b.drop_last() =~= ascii_bytes(decimal(n / 10)));
        assert(b.last() == digit_char(d) as u8);
        assert(n == (n / 10) * 10 + n % 10);
        assert(b.len() > 0);
        assert(digits_value(b.drop_last()) == n / 10);
        assert(digits_value(b) == digits_value(b.drop_last()) * 10 + (b.last() - 48) as nat);
        assert forall|k: int| 0 <= k < b.len() implies is_digit_byte(#[trigger] b[k]) by {
            assert('0' <= decimal(n)[k] <= '9');
        }
    } else {
        assert(b.drop_last() =~= Seq::<u8>::empty());
        assert(b.last() == digit_char(n as int) as u8);
        assert(digits_value(b.drop_last()) == 0);
        assert(b.len() == 1);
        assert(is_digit_byte(b[0]));
    }
}

/// A number written in decimal reads back as itself.
pub proof fn lemma_decimal_reads_back(n: u64)
    ensures
        arg_id(decimal(n as nat)) == Some(n),
{
    let text = decimal(n as nat);
    lemma_decimal_digits(n as nat);
    lemma_decimal_value(n as nat);
    assert(is_ascii_chars(text));
    is_ascii_chars_encode_utf8(text);
    let b = encode_utf8(text);
    assert(b =~= ascii_bytes(text));
    assert(b[0] != 43) by {
        assert('0' <= text[0] <= '9');
    }
    assert(unsigned_digits(b) == b);
}

/// A channel mention that the bot writes, `<#id>`, is read back as the
/// same channel.
pub proof fn lemma_channel_mention_reads_back(channel: ChannelId)
    ensures
        mention_id(mention_text(channel)) == Some(channel.0),
{
    reveal_strlit("<#");
    reveal_strlit(">");
    let text = mention_text(channel);
    let digits = decimal(channel.0 as nat);
    lemma_decimal_digits(channel.0 as nat);
    assert(text.subrange(2, text.len() - 1) =~= digits);
    lemma_decimal_reads_back(channel.0);
}

} // verus!
