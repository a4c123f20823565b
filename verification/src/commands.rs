//! The decisions behind the bot's slash commands: which command was
//! invoked, whether its input is acceptable, and how results are worded.

use vstd::prelude::*;
use vstd::string::*;
use vstd::utf8::encode_utf8;
use crate::ids::UserId;
use crate::pattern::{regex_compiles, regex_matches, Pattern};
use crate::strings::{decimal, decimal_string, lowercased, to_lowercase, trim, trimmed};

verus! {

/// The bot's slash commands.
#[derive(Clone, Copy, Debug, PartialEq, Eq, Structural)]
pub enum CommandName {
    Add,
    Remove,
    Mute,
    Unmute,
    Block,
    Unblock,
    Ignore,
    Unignore,
    Keywords,
    Mutes,
    Blocks,
    Ignores,
    RemoveServer,
    OptOut,
    OptIn,
    Help,
    Ping,
    About,
}

/// The name a command is invoked by.
pub open spec fn command_text(c: CommandName) -> Seq<char> {
    match c {
        CommandName::Add => "add"@,
        CommandName::Remove => "remove"@,
        CommandName::Mute => "mute"@,
        CommandName::Unmute => "unmute"@,
        CommandName::Block => "block"@,
        CommandName::Unblock => "unblock"@,
        CommandName::Ignore => "ignore"@,
        CommandName::Unignore => "unignore"@,
        CommandName::Keywords => "keywords"@,
        CommandName::Mutes => "mutes"@,
        CommandName::Blocks => "blocks"@,
        CommandName::Ignores => "ignores"@,
        CommandName::RemoveServer => "remove-server"@,
        CommandName::OptOut => "opt-out"@,
        CommandName::OptIn => "opt-in"@,
        CommandName::Help => "help"@,
        CommandName::Ping => "ping"@,
        CommandName::About => "about"@,
    }
}

/// All commands, in the order the help command lists them.
pub open spec fn all_commands() -> Seq<CommandName> {
    seq![
        CommandName::Add,
        CommandName::Remove,
        CommandName::Mute,
        CommandName::Unmute,
        CommandName::Block,
        CommandName::Unblock,
        CommandName::Ignore,
        CommandName::Unignore,
        CommandName::Keywords,
        CommandName::Mutes,
        CommandName::Blocks,
        CommandName::Ignores,
        CommandName::RemoveServer,
        CommandName::OptOut,
        CommandName::OptIn,
        CommandName::Help,
        CommandName::Ping,
        CommandName::About,
    ]
}

fn command_str(c: CommandName) -> (r: &'static str)
    ensures
        r@ == command_text(c),
{
    match c {
        CommandName::Add => "add",
        CommandName::Remove => "remove",
        CommandName::Mute => "mute",
        CommandName::Unmute => "unmute",
        CommandName::Block => "block",
        CommandName::Unblock => "unblock",
        CommandName::Ignore => "ignore",
        CommandName::Unignore => "unignore",
        CommandName::Keywords => "keywords",
        CommandName::Mutes => "mutes",
        CommandName::Blocks => "blocks",
        CommandName::Ignores => "ignores",
        CommandName::RemoveServer => "remove-server",
        CommandName::OptOut => "opt-out",
        CommandName::OptIn => "opt-in",
        CommandName::Help => "help",
        CommandName::Ping => "ping",
        CommandName::About => "about",
    }
}

fn command_at(k: usize) -> (r: CommandName)
    requires
        k < 18,
    ensures
        r == all_commands()[k as int],
{
    if k == 0 { CommandName::Add }
    else if k == 1 { CommandName::Remove }
    else if k == 2 { CommandName::Mute }
    else if k == 3 { CommandName::Unmute }
    else if k == 4 { CommandName::Block }
    else if k == 5 { CommandName::Unblock }
    else if k == 6 { CommandName::Ignore }
    else if k == 7 { CommandName::Unignore }
    else if k == 8 { CommandName::Keywords }
    else if k == 9 { CommandName::Mutes }
    else if k == 10 { CommandName::Blocks }
    else if k == 11 { CommandName::Ignores }
    else if k == 12 { CommandName::RemoveServer }
    else if k == 13 { CommandName::OptOut }
    else if k == 14 { CommandName::OptIn }
    else if k == 15 { CommandName::Help }
    else if k == 16 { CommandName::Ping }
    else { CommandName::About }
}

/// ASCII upper-case letters mapped to lower case.
pub open spec fn lower_ascii_char(c: char) -> char {
    if 'A' <= c <= 'Z' {
        ((c as u32) + 32) as char
    } else {
        c
    }
}

/// Texts equal up to ASCII case.
pub open spec fn eq_ignore_ascii_case_chars(a: Seq<char>, b: Seq<char>) -> bool {
    a.len() == b.len() && forall|k: int| 0 <= k < a.len() ==> lower_ascii_char(#[trigger] a[k]) == lower_ascii_char(b[k])
}

fn lower_char(c: char) -> (r: char)
    ensures
        r == lower_ascii_char(c),
{
    if 'A' <= c && c <= 'Z' {
        ((c as u8) + 32) as char
    } else {
        c
    }
}

pub(crate) fn chars_eq(a: &str, b: &str, ignore_case: bool) -> (r: bool)
    ensures
        ignore_case ==> r == eq_ignore_ascii_case_chars(a@, b@),
        !ignore_case ==> r == (a@ == b@),
{
    let n = a.unicode_len();
    if n != b.unicode_len() {
        return false;
    }
    let mut i: usize = 0;
    while i < n
        invariant
            n == a@.len() == b@.len(),
            i <= n,
            ignore_case ==> forall|k: int| 0 <= k < i ==> lower_ascii_char(#[trigger] a@[k]) == lower_ascii_char(b@[k]),
            !ignore_case ==> forall|k: int| 0 <= k < i ==> #[trigger] a@[k] == b@[k],
        decreases n - i,
    {
        let x = a.get_char(i);
        let y = b.get_char(i);
        let same = if ignore_case {
            lower_char(x) == lower_char(y)
        } else {
            x == y
        };
        if !same {
            return false;
        }
        i = i + 1;
    }
    if !ignore_case {
        assert(a@ =~= b@);
    }
    true
}

/// The command a slash-command interaction names: an exact match of its
/// name, or `None` for an unknown command.
pub fn parse_command_name(name: &str) -> (r: Option<CommandName>)
    ensures
        r matches Some(c) ==> command_text(c) == name@,
        r is None ==> forall|c: CommandName| command_text(c) != name@,
{
    let mut k: usize = 0;
    while k < 18
        invariant
            k <= 18,
            forall|j: int| 0 <= j < k ==> command_text(#[trigger] all_commands()[j]) != name@,
        decreases 18 - k,
    {
        let c = command_at(k);
        if chars_eq(command_str(c), name, false) {
            return Some(c);
        }
        k = k + 1;
    }
    assert forall|c: CommandName| command_text(c) != name@ by {
        let j: int = match c {
            CommandName::Add => 0,
            CommandName::Remove => 1,
            CommandName::Mute => 2,
            CommandName::Unmute => 3,
            CommandName::Block => 4,
            CommandName::Unblock => 5,
            CommandName::Ignore => 6,
            CommandName::Unignore => 7,
            CommandName::Keywords => 8,
            CommandName::Mutes => 9,
            CommandName::Blocks => 10,
            CommandName::Ignores => 11,
            CommandName::RemoveServer => 12,
            CommandName::OptOut => 13,
            CommandName::OptIn => 14,
            CommandName::Help => 15,
            CommandName::Ping => 16,
            CommandName::About => 17,
        };
        assert(all_commands()[j] == c);
    }
    None
}

/// The command that `/help <name>` describes: the first command, in help
/// order, whose name equals `name` up to ASCII case.
pub fn find_help_topic(name: &str) -> (r: Option<CommandName>)
    ensures
        r matches Some(c) ==> eq_ignore_ascii_case_chars(command_text(c), name@),
        r is None ==> forall|c: CommandName| !eq_ignore_ascii_case_chars(command_text(c), name@),
{
    let mut k: usize = 0;
    while k < 18
        invariant
            k <= 18,
            forall|j: int| 0 <= j < k ==> !eq_ignore_ascii_case_chars(command_text(#[trigger] all_commands()[j]), name@),
        decreases 18 - k,
    {
        let c = command_at(k);
        if chars_eq(command_str(c), name, true) {
            return Some(c);
        }
        k = k + 1;
    }
    assert forall|c: CommandName| !eq_ignore_ascii_case_chars(command_text(c), name@) by {
        let j: int = match c {
            CommandName::Add => 0,
            CommandName::Remove => 1,
            CommandName::Mute => 2,
            CommandName::Unmute => 3,
            CommandName::Block => 4,
            CommandName::Unblock => 5,
            CommandName::Ignore => 6,
            CommandName::Unignore => 7,
            CommandName::Keywords => 8,
            CommandName::Mutes => 9,
            CommandName::Blocks => 10,
            CommandName::Ignores => 11,
            CommandName::RemoveServer => 12,
            CommandName::OptOut => 13,
            CommandName::OptIn => 14,
            CommandName::Help => 15,
            CommandName::Ping => 16,
            CommandName::About => 17,
        };
        assert(all_commands()[j] == c);
    }
    None
}

/// Keywords are stored trimmed and in lower case.
pub open spec fn normalized_keyword(raw: Seq<char>) -> Seq<char> {
    lowercased(trimmed(raw))
}

/// Trims and lower-cases a keyword as given to `/add` or `/remove`.
pub fn normalize_keyword(raw: &str) -> (r: String)
    ensures
        r@ == normalized_keyword(raw@),
{
    to_lowercase(trim(raw))
}

/// Discord markup that starts a mention or an emoji: `<@`, `<#`, `<&`,
/// `<:` or `<a:`.
pub open spec fn mention_markup_pattern() -> Seq<char> {
    "<([@#&]|a?:)"@
}

/// The keyword holds mention or emoji markup.
pub open spec fn has_mention_markup(keyword: Seq<char>) -> bool {
    regex_matches(mention_markup_pattern(), keyword).len() > 0
}

/// Whether a keyword may be added: it must not hold mention markup. When
/// the regex crate rejects the markup pattern, no keyword is accepted.
pub fn is_valid_keyword(keyword: &str) -> (r: bool)
    ensures
        regex_compiles(mention_markup_pattern()) ==> r == !has_mention_markup(keyword@),
        !regex_compiles(mention_markup_pattern()) ==> !r,
{
    match Pattern::compile("<([@#&]|a?:)") {
        Some(markup) => !markup.is_match(keyword),
        None => false,
    }
}

/// What `/add` does with its input.
#[derive(Debug)]
pub enum AddCheck {
    /// The user already has the most keywords allowed.
    TooManyKeywords,
    /// The keyword is shorter than three bytes.
    TooShort,
    /// The keyword holds mention markup.
    Invalid,
    /// Add this (normalized) keyword; `first` when it is the user's first,
    /// so that a test message is sent to check that DMs reach them.
    Add { keyword: String, first: bool },
}

/// Decides what `/add` does, given how many keywords the user has, the
/// configured maximum, and the keyword as typed.
pub fn check_add_keyword(keyword_count: u64, max_keywords: u32, raw: &str) -> (r: AddCheck)
    ensures
        keyword_count >= max_keywords ==> r matches AddCheck::TooManyKeywords,
        keyword_count < max_keywords ==> ({
            let k = normalized_keyword(raw@);
            if encode_utf8(k).len() < 3 {
                r matches AddCheck::TooShort
            } else if !regex_compiles(mention_markup_pattern()) || has_mention_markup(k) {
                r matches AddCheck::Invalid
            } else {
                r matches AddCheck::Add { keyword, first } && keyword@ == k && first == (keyword_count == 0)
            }
        }),
{
    if keyword_count >= max_keywords as u64 {
        return AddCheck::TooManyKeywords;
    }
    let keyword = normalize_keyword(raw);
    if keyword.as_str().as_bytes().len() < 3 {
        return AddCheck::TooShort;
    }
    if !is_valid_keyword(keyword.as_str()) {
        return AddCheck::Invalid;
    }
    AddCheck::Add { keyword, first: keyword_count == 0 }
}

/// The reply when a user has reached the keyword limit.
pub fn too_many_keywords_message(max_keywords: u32) -> (r: String)
    ensures
        r@ == "You can't create more than "@ + decimal(max_keywords as nat) + " keywords!"@,
{
    let count = decimal_string(max_keywords as u64);
    "You can't create more than ".to_owned().concat(count.as_str()).concat(" keywords!")
}

/// What `/ignore` does with a phrase.
#[derive(Debug)]
pub enum IgnoreCheck {
    /// The phrase is shorter than three bytes.
    TooShort,
    /// Ignore this (lower-cased) phrase.
    Ignore(String),
}

/// Decides what `/ignore` does with the phrase as typed.
pub fn check_ignore_phrase(phrase: &str) -> (r: IgnoreCheck)
    ensures
        encode_utf8(phrase@).len() < 3 ==> r matches IgnoreCheck::TooShort,
        encode_utf8(phrase@).len() >= 3 ==> (r matches IgnoreCheck::Ignore(p) && p@ == lowercased(
            phrase@,
        )),
{
    if phrase.as_bytes().len() < 3 {
        IgnoreCheck::TooShort
    } else {
        IgnoreCheck::Ignore(to_lowercase(phrase))
    }
}

/// Lower-cases a phrase as given to `/unignore`.
pub fn normalize_phrase(phrase: &str) -> (r: String)
    ensures
        r@ == lowercased(phrase@),
{
    to_lowercase(phrase)
}

/// Users cannot block or unblock themselves.
pub fn may_block(author: UserId, target: UserId) -> (r: bool)
    ensures
        r == (author != target),
{
    author.0 != target.0
}

/// The ASCII digits of a decimal number.
pub open spec fn is_digit_byte(b: u8) -> bool {
    48 <= b <= 57
}

/// The value of a string of decimal digits.
pub open spec fn digits_value(b: Seq<u8>) -> nat
    decreases b.len(),
{
    if b.len() == 0 {
        0
    } else {
        digits_value(b.drop_last()) * 10 + (b.last() - 48) as nat
    }
}

/// The digits of a number written for `u64::from_str`: a leading `+` is
/// skipped when more follows it.
pub open spec fn unsigned_digits(b: Seq<u8>) -> Seq<u8> {
    if b.len() > 1 && b[0] == 43 {
        b.skip(1)
    } else {
        b
    }
}

/// Every byte is an ASCII digit.
pub open spec fn all_digits(s: Seq<u8>) -> bool {
    forall|k: int| 0 <= k < s.len() ==> is_digit_byte(#[trigger] s[k])
}

/// What `u64::from_str` reads: an optional `+` (when more follows), then
/// one or more ASCII digits whose value fits in a `u64`.
pub open spec fn spec_parse_u64(b: Seq<u8>) -> Option<u64> {
    let digits = unsigned_digits(b);
    if digits.len() > 0 && all_digits(digits) && digits_value(digits) <= u64::MAX {
        Some(digits_value(digits) as u64)
    } else {
        None
    }
}

/// Parses an unsigned decimal number as `u64::from_str` does.
pub fn parse_u64(text: &str) -> (r: Option<u64>)
    ensures
        r == spec_parse_u64(encode_utf8(text@)),
{
    let b = text.as_bytes();
    let start: usize = if b.len() > 1 && b[0] == 43 {
        1
    } else {
        0
    };
    if start >= b.len() {
        return None;
    }
    let ghost digits = unsigned_digits(b@);
    assert(digits =~= b@.skip(start as int));
    let mut value: u64 = 0;
    let mut i: usize = start;
    while i < b.len()
        invariant
            start <= i <= b.len(),
            b@ == encode_utf8(text@),
            digits == b@.skip(start as int),
            digits == unsigned_digits(b@),
            digits.len() > 0,
            forall|k: int| 0 <= k < i - start ==> is_digit_byte(#[trigger] digits[k]),
            value == digits_value(digits.take(i - start)),
        decreases b.len() - i,
    {
        let c = b[i];
        assert(digits[i - start] == b@[i as int]);
        if c < 48 || c > 57 {
            assert(!is_digit_byte(digits[i - start]));
            return None;
        }
        assert(digits.take(i - start + 1).drop_last() =~= digits.take(i - start));
        assert(digits.take(i - start + 1).last() == c);
        assert(digits_value(digits.take(i - start + 1)) == value * 10 + (c - 48));
        match value.checked_mul(10) {
            Some(v) => match v.checked_add((c - 48) as u64) {
                Some(w) => {
                    value = w;
                },
                None => {
                    proof {
                        if all_digits(digits) {
                            lemma_digits_value_prefix_le(digits, i - start + 1);
                        }
                    }
                    return None;
                },
            },
            None => {
                proof {
                    if all_digits(digits) {
                        lemma_digits_value_prefix_le(digits, i - start + 1);
                    }
                }
                return None;
            },
        }
        i = i + 1;
    }
    assert(digits.take(i - start) =~= digits);
    Some(value)
}

/// The value of digits never shrinks as digits are added.
proof fn lemma_digits_value_prefix_le(digits: Seq<u8>, n: int)
    requires
        0 <= n <= digits.len(),
        forall|k: int| 0 <= k < digits.len() ==> is_digit_byte(#[trigger] digits[k]),
    ensures
        digits_value(digits.take(n)) <= digits_value(digits),
    decreases digits.len() - n,
{
    if n < digits.len() {
        lemma_digits_value_prefix_le(digits, n + 1);
        assert(digits.take(n + 1).drop_last() =~= digits.take(n));
    } else {
        assert(digits.take(n) =~= digits);
    }
}

/// The server ID given to `/remove-server`, when it is a number.
pub fn parse_server_id(arg: &str) -> (r: Option<crate::ids::GuildId>)
    ensures
        r matches Some(g) ==> spec_parse_u64(encode_utf8(arg@)) == Some(g.0),
        r is None ==> spec_parse_u64(encode_utf8(arg@)) is None,
{
    match parse_u64(arg) {
        Some(id) => Some(crate::ids::GuildId(id)),
        None => None,
    }
}

/// `/remove-server` reports failure when it removed nothing at all: no
/// server-wide keyword and no ignored phrase. Channel keywords are kept, as
/// its help says.
pub fn removed_anything(guild_keywords: u64, ignores: u64) -> (r: bool)
    ensures
        r == (guild_keywords + ignores != 0),
{
    guild_keywords != 0 || ignores != 0
}

/// How long the bot has been running, as `/about` words it: days alone
/// from twenty days on, otherwise the two largest non-zero units.
pub open spec fn uptime_text(seconds: nat) -> Seq<char> {
    let days = seconds / 86400;
    let hours = seconds / 3600 % 24;
    let minutes = seconds / 60 % 60;
    let secs = seconds % 60;
    if days >= 20 {
        decimal(days) + " days"@
    } else if days > 0 {
        decimal(days) + " days, "@ + decimal(hours) + " hours"@
    } else if hours > 0 {
        decimal(hours) + " hours, "@ + decimal(minutes) + " minutes"@
    } else if minutes > 0 {
        decimal(minutes) + " minutes, "@ + decimal(secs) + " seconds"@
    } else {
        decimal(secs) + " seconds"@
    }
}

/// Words the bot's uptime for `/about`.
pub fn format_uptime(seconds: u64) -> (r: String)
    ensures
        r@ == uptime_text(seconds as nat),
{
    let days = seconds / 86400;
    let hours = seconds / 3600 % 24;
    let minutes = seconds / 60 % 60;
    let secs = seconds % 60;
    if days >= 20 {
        decimal_string(days).concat(" days")
    } else if days > 0 {
        decimal_string(days).concat(" days, ").concat(decimal_string(hours).as_str()).concat(" hours")
    } else if hours > 0 {
        decimal_string(hours).concat(" hours, ").concat(decimal_string(minutes).as_str()).concat(
            " minutes",
        )
    } else if minutes > 0 {
        decimal_string(minutes).concat(" minutes, ").concat(decimal_string(secs).as_str()).concat(
            " seconds",
        )
    } else {
        decimal_string(secs).concat(" seconds")
    }
}

/// The button a user pressed on the opt-out confirmation.
#[derive(Clone, Copy, Debug, PartialEq, Eq, Structural)]
pub enum OptOutChoice {
    Confirm,
    Cancel,
    /// A button this confirmation did not offer.
    Unknown,
}

/// The IDs of the confirmation and cancel buttons, from a random nonce.
pub fn opt_out_button_ids(nonce: &str) -> (r: (String, String))
    ensures
        r.0@ == "confirm"@ + nonce@,
        r.1@ == "cancel"@ + nonce@,
{
    ("confirm".to_owned().concat(nonce), "cancel".to_owned().concat(nonce))
}

/// Which button was pressed, by the pressed button's ID.
pub fn classify_opt_out_press(pressed: &str, confirm_id: &str, cancel_id: &str) -> (r: OptOutChoice)
    ensures
        pressed@ == confirm_id@ ==> r == OptOutChoice::Confirm,
        pressed@ != confirm_id@ && pressed@ == cancel_id@ ==> r == OptOutChoice::Cancel,
        pressed@ != confirm_id@ && pressed@ != cancel_id@ ==> r == OptOutChoice::Unknown,
{
    if chars_eq(pressed, confirm_id, false) {
        OptOutChoice::Confirm
    } else if chars_eq(pressed, cancel_id, false) {
        OptOutChoice::Cancel
    } else {
        OptOutChoice::Unknown
    }
}

} // verus!
