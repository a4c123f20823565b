use highlights::commands::{
    check_add_keyword, check_ignore_phrase, classify_opt_out_press, find_help_topic,
    format_uptime, is_valid_keyword, may_block, normalize_keyword, normalize_phrase,
    opt_out_button_ids, parse_command_name, parse_server_id, parse_u64, removed_anything,
    too_many_keywords_message, AddCheck, CommandName, IgnoreCheck, OptOutChoice,
};
use highlights::ids::{GuildId, UserId};

#[test]
fn command_names_are_exact() {
    assert_eq!(parse_command_name("add"), Some(CommandName::Add));
    assert_eq!(parse_command_name("remove-server"), Some(CommandName::RemoveServer));
    assert_eq!(parse_command_name("opt-in"), Some(CommandName::OptIn));
    assert_eq!(parse_command_name("Add"), None);
    assert_eq!(parse_command_name("follow"), None);
}

#[test]
fn help_topics_ignore_case() {
    assert_eq!(find_help_topic("MUTES"), Some(CommandName::Mutes));
    assert_eq!(find_help_topic("Opt-Out"), Some(CommandName::OptOut));
    assert_eq!(find_help_topic("nothing"), None);
}

#[test]
fn keywords_are_trimmed_and_lowered() {
    assert_eq!(normalize_keyword("  Hello World \n"), "hello world");
    assert_eq!(normalize_phrase("MiXeD"), "mixed");
}

#[test]
fn mention_markup_is_not_a_keyword() {
    assert!(!is_valid_keyword("<@123"));
    assert!(!is_valid_keyword("hi <#chan"));
    assert!(!is_valid_keyword("<&role"));
    assert!(!is_valid_keyword("<:emoji:"));
    assert!(!is_valid_keyword("<a:emoji:"));
    assert!(is_valid_keyword("a < b"));
    assert!(is_valid_keyword("<b>"));
}

#[test]
fn adding_checks_limit_length_and_markup() {
    assert!(matches!(check_add_keyword(100, 100, "hello"), AddCheck::TooManyKeywords));
    assert!(matches!(check_add_keyword(3, 100, " ab "), AddCheck::TooShort));
    assert!(matches!(check_add_keyword(3, 100, "<@123>"), AddCheck::Invalid));
    match check_add_keyword(0, 100, " Hello ") {
        AddCheck::Add { keyword, first } => {
            assert_eq!(keyword, "hello");
            assert!(first);
        }
        _ => panic!("the keyword should be added"),
    }
    match check_add_keyword(4, 100, "world") {
        AddCheck::Add { first, .. } => assert!(!first),
        _ => panic!("the keyword should be added"),
    }
}

#[test]
fn keyword_limit_message() {
    assert_eq!(too_many_keywords_message(100), "You can't create more than 100 keywords!");
}

#[test]
fn ignoring_checks_length() {
    assert!(matches!(check_ignore_phrase("ab"), IgnoreCheck::TooShort));
    match check_ignore_phrase("Some Phrase") {
        IgnoreCheck::Ignore(p) => assert_eq!(p, "some phrase"),
        IgnoreCheck::TooShort => panic!("the phrase is long enough"),
    }
}

#[test]
fn users_cannot_block_themselves() {
    assert!(!may_block(UserId(4), UserId(4)));
    assert!(may_block(UserId(4), UserId(5)));
}

#[test]
fn numbers_parse_as_from_str_does() {
    assert_eq!(parse_u64("0"), Some(0));
    assert_eq!(parse_u64("+42"), Some(42));
    assert_eq!(parse_u64("18446744073709551615"), Some(u64::MAX));
    assert_eq!(parse_u64("18446744073709551616"), None);
    assert_eq!(parse_u64(""), None);
    assert_eq!(parse_u64("+"), None);
    assert_eq!(parse_u64("-1"), None);
    assert_eq!(parse_u64("12a"), None);
    assert_eq!(parse_u64(" 12"), None);
}

#[test]
fn server_ids_are_numbers() {
    assert_eq!(parse_server_id("1234"), Some(GuildId(1234)));
    assert_eq!(parse_server_id("my server"), None);
}

#[test]
fn removing_nothing_is_reported() {
    assert!(!removed_anything(0, 0));
    assert!(removed_anything(0, 2));
    assert!(removed_anything(u64::MAX, u64::MAX));
}

#[test]
fn uptime_wording() {
    assert_eq!(format_uptime(5), "5 seconds");
    assert_eq!(format_uptime(65), "1 minutes, 5 seconds");
    assert_eq!(format_uptime(3 * 3600 + 120), "3 hours, 2 minutes");
    assert_eq!(format_uptime(2 * 86400 + 3600), "2 days, 1 hours");
    assert_eq!(format_uptime(25 * 86400 + 3600), "25 days");
}

#[test]
fn opt_out_buttons() {
    let (confirm, cancel) = opt_out_button_ids("xyz");
    assert_eq!(confirm, "confirmxyz");
    assert_eq!(cancel, "cancelxyz");
    assert_eq!(classify_opt_out_press("confirmxyz", &confirm, &cancel), OptOutChoice::Confirm);
    assert_eq!(classify_opt_out_press("cancelxyz", &confirm, &cancel), OptOutChoice::Cancel);
    assert_eq!(classify_opt_out_press("other", &confirm, &cancel), OptOutChoice::Unknown);
}
