use highlights::db::block::{Block, Model as BlockModel};
use highlights::db::keyword::{relevant_keywords, EitherModel, Keyword, KeywordKind};
use highlights::db::mute::{Model as MuteModel, Mute};
use highlights::db::opt_out::{Model as OptOutModel, OptOut};
use highlights::db::user_state::{Model as UserStateModel, UserState, UserStateError, UserStateKind};
use highlights::ids::{id_from_db, id_into_db, ChannelId, GuildId, MessageId, UserId};

fn guild_keyword(text: &str, user: u64, guild: u64) -> Keyword {
    Keyword { keyword: text.to_owned(), user_id: UserId(user), kind: KeywordKind::Guild(GuildId(guild)) }
}

fn channel_keyword(text: &str, user: u64, channel: u64) -> Keyword {
    Keyword {
        keyword: text.to_owned(),
        user_id: UserId(user),
        kind: KeywordKind::Channel(ChannelId(channel)),
    }
}

fn texts(keywords: &[Keyword]) -> Vec<&str> {
    keywords.iter().map(|k| k.keyword.as_str()).collect()
}

#[test]
fn ids_round_trip_through_the_database() {
    assert_eq!(id_into_db(42), 42);
    assert_eq!(id_from_db(id_into_db(7)), 7);
    assert_eq!(UserId::from_db(UserId(9).into_db()), UserId(9));
    assert_eq!(MessageId::from_db(5), MessageId(5));
}

#[test]
fn keywords_go_to_the_table_of_their_kind() {
    match guild_keyword("foo", 1, 2).into_model() {
        EitherModel::Guild(m) => {
            assert_eq!(m.keyword, "foo");
            assert_eq!(m.user_id, 1);
            assert_eq!(m.guild_id, 2);
        }
        EitherModel::Channel(_) => panic!("a server keyword"),
    }
    match channel_keyword("bar", 3, 4).into_model() {
        EitherModel::Channel(m) => assert_eq!(m.channel_id, 4),
        EitherModel::Guild(_) => panic!("a channel keyword"),
    }
    assert_eq!(KeywordKind::default_kind(), KeywordKind::Channel(ChannelId(0)));
    assert_eq!(Keyword::total_keyword_count(3, 4), 7);
}

#[test]
fn relevant_keywords_respect_mutes_blocks_and_opt_outs() {
    let candidates = vec![
        guild_keyword("own", 1, 100),
        guild_keyword("a", 2, 100),
        guild_keyword("other server", 3, 200),
        guild_keyword("muted", 4, 100),
        guild_keyword("blocker", 5, 100),
        guild_keyword("opted", 6, 100),
        channel_keyword("here", 7, 10),
        channel_keyword("there", 8, 11),
        channel_keyword("muted channel keyword", 4, 10),
    ];
    let kept = relevant_keywords(
        candidates,
        GuildId(100),
        ChannelId(10),
        UserId(1),
        &[UserId(6)],
        &[(UserId(4), ChannelId(10))],
        &[UserId(5)],
    );
    assert_eq!(texts(&kept), vec!["a", "here", "muted channel keyword"]);
}

#[test]
fn opted_out_author_is_never_highlighted() {
    let kept = relevant_keywords(
        vec![guild_keyword("a", 2, 100)],
        GuildId(100),
        ChannelId(10),
        UserId(1),
        &[UserId(1)],
        &[],
        &[],
    );
    assert!(kept.is_empty());
}

#[test]
fn record_rows_round_trip() {
    let block = Block { user_id: UserId(1), blocked_id: UserId(2) };
    assert_eq!(Block::from_model(BlockModel::from_block(block)), block);
    let mute = Mute { user_id: UserId(3), channel_id: ChannelId(4) };
    assert_eq!(Mute::from_model(MuteModel::from_mute(mute)), mute);
    let opt_out = OptOut { user_id: UserId(5) };
    assert_eq!(OptOut::from_model(OptOutModel::from_opt_out(opt_out)).user_id, UserId(5));
}

#[test]
fn user_states_are_stored_as_codes() {
    let state = UserState { user_id: UserId(8), state: UserStateKind::CannotDm };
    let model = UserStateModel::from_user_state(state);
    assert_eq!(model.state, 0);
    assert_eq!(model.user_id, 8);
    let read = UserState::try_from_model(model).unwrap();
    assert_eq!(read.user_id, UserId(8));
    assert!(matches!(
        UserState::try_from_model(UserStateModel { user_id: 8, state: 3 }),
        Err(UserStateError::UnknownState(3))
    ));
}
