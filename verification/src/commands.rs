//! What the bot makes of a message: who may say what, and what is answered.
use vstd::prelude::*;
use vstd::slice::slice_subrange;

use crate::accounts::{
    authorized, given, has_user_id, role_given_to_a_username_is_taken_up, table_ok, target_of,
    Target, UserRow,
};
use crate::json::{some_string, some_text};
use crate::text::{
    all_digits, are_digits, ascii_alphanumeric, chars_of, has_prefix, is_ascii_alnum, is_white,
    lowercase, lowercase_chars, push_chars, same_ignoring_case, starts_with, strip_prefix, text_of,
    trim, trim_chars, trim_end, trim_start, trim_start_chars, white,
};
use crate::users::{role_named, stored_role_is_found, UserRole};

verus! {

// ---------------------------------------------------------------------------
// Commands
// ---------------------------------------------------------------------------

/// A command that was understood.
pub enum Command {
    Start,
    Help,
    Id,
    Download(String),
    Authorize(String),
}

/// What the bot does about a message.
#[derive(Debug, PartialEq, Eq)]
pub enum Reply {
    /// Nothing.
    Ignore,
    /// It says how to authorize.
    AuthorizePrompt,
    /// It says how to download.
    DownloadPrompt,
    /// It introduces itself.
    Introduce,
    /// It lists the commands.
    ListCommands,
    /// It tells the user their id.
    ShowId,
    /// It downloads what the text names.
    Download(String),
    /// It authorizes whom the text names.
    Authorize(String),
    /// It says that it does not know the command.
    UnknownCommand,
}

/// What the bot does about a message.
pub enum ReplyView {
    Ignore,
    AuthorizePrompt,
    DownloadPrompt,
    Introduce,
    ListCommands,
    ShowId,
    Download(Seq<char>),
    Authorize(Seq<char>),
    UnknownCommand,
}

impl View for Reply {
    type V = ReplyView;

    open spec fn view(&self) -> ReplyView {
        match self {
            Reply::Ignore => ReplyView::Ignore,
            Reply::AuthorizePrompt => ReplyView::AuthorizePrompt,
            Reply::DownloadPrompt => ReplyView::DownloadPrompt,
            Reply::Introduce => ReplyView::Introduce,
            Reply::ListCommands => ReplyView::ListCommands,
            Reply::ShowId => ReplyView::ShowId,
            Reply::Download(t) => ReplyView::Download(t@),
            Reply::Authorize(t) => ReplyView::Authorize(t@),
            Reply::UnknownCommand => ReplyView::UnknownCommand,
        }
    }
}

/// The first whitespace from position `i` on, or the length of `s`.
pub open spec fn next_white(s: Seq<char>, i: int) -> int
    decreases s.len() - i,
{
    if i < 0 || i >= s.len() {
        s.len() as int
    } else if white(s[i]) {
        i
    } else {
        next_white(s, i + 1)
    }
}

/// Whether a text is a command with nothing behind it, with or without the name of the bot.
pub open spec fn bare_command(text: Seq<char>, command: Seq<char>, bot: Seq<char>) -> bool {
    let t = trim(text);
    if !has_prefix(t, "/"@) {
        false
    } else {
        let rest = t.skip(1);
        let end = next_white(rest, 0);
        let token = lowercase(rest.take(end));
        let tail = if end < rest.len() {
            trim(rest.skip(end + 1))
        } else {
            Seq::empty()
        };
        tail.len() == 0 && (token == lowercase(command) || token == lowercase(
            command + "@"@ + bot,
        ))
    }
}

/// The first whitespace, or the length.
fn white_position(s: &[char]) -> (r: usize)
    ensures
        r == next_white(s@, 0),
        r <= s.len(),
{
    let mut i: usize = 0;
    while i < s.len() && !is_white(s[i])
        invariant
            i <= s.len(),
            next_white(s@, 0) == next_white(s@, i as int),
        decreases s.len() - i,
    {
        i += 1;
    }
    i
}

/// Whether a text is a command with nothing behind it, with or without the name of the bot.
pub fn is_bare_command_invocation(text: &str, command_name: &str, bot_name: &str) -> (r: bool)
    ensures
        r == bare_command(text@, command_name@, bot_name@),
{
    let cs = chars_of(text);
    let t = trim_chars(cs.as_slice());
    match strip_prefix(t, "/") {
        Some(rest) => {
            proof {
                reveal_strlit("/");
            }
            assert(rest@ == t@.skip(1));
            let end: usize = white_position(rest);
            if end < rest.len() {
                let behind = slice_subrange(rest, end + 1, rest.len());
                assert(behind@ == rest@.skip(end + 1));
                if trim_chars(behind).len() > 0 {
                    return false;
                }
            }
            let token = slice_subrange(rest, 0, end);
            assert(token@ == rest@.take(end as int));
            let plain = chars_of(command_name);
            let mut addressed = chars_of(command_name);
            addressed.push('@');
            let bot = chars_of(bot_name);
            push_chars(&mut addressed, bot.as_slice());
            proof {
                reveal_strlit("@");
                assert(addressed@ == command_name@ + "@"@ + bot_name@);
            }
            same_ignoring_case(token, plain.as_slice()) || same_ignoring_case(
                token,
                addressed.as_slice(),
            )
        },
        None => false,
    }
}

/// What the bot does about a command that was understood.
pub open spec fn command_reply(command: Command, admin: bool) -> ReplyView {
    match command {
        Command::Start => ReplyView::Introduce,
        Command::Help => ReplyView::ListCommands,
        Command::Id => ReplyView::ShowId,
        Command::Download(t) => ReplyView::Download(t@),
        Command::Authorize(t) => if admin {
            ReplyView::Authorize(t@)
        } else {
            ReplyView::UnknownCommand
        },
    }
}

/// What the bot does about a message that is no bare command.
pub open spec fn other_reply(text: Seq<char>, parsed: Option<Command>, admin: bool) -> ReplyView {
    match parsed {
        Some(c) => command_reply(c, admin),
        None => if has_prefix(trim_start(text), "/"@) {
            ReplyView::UnknownCommand
        } else {
            ReplyView::Download(text)
        },
    }
}

/// What the bot does about a message, by the role of who sent it. `parsed` is the command that the
/// text was understood as, among those of the role.
pub open spec fn reply(
    role: Option<UserRole>,
    text: Seq<char>,
    bot: Seq<char>,
    parsed: Option<Command>,
) -> ReplyView {
    match role {
        Some(UserRole::Admin) => if bare_command(text, "authorize"@, bot) {
            ReplyView::AuthorizePrompt
        } else if bare_command(text, "download"@, bot) {
            ReplyView::DownloadPrompt
        } else {
            other_reply(text, parsed, true)
        },
        Some(UserRole::User) => if bare_command(text, "download"@, bot) {
            ReplyView::DownloadPrompt
        } else {
            other_reply(text, parsed, false)
        },
        _ => ReplyView::Ignore,
    }
}

/// What the bot does about a command that was understood.
pub fn reply_to_command(command: Command, admin: bool) -> (r: Reply)
    ensures
        r@ == command_reply(command, admin),
{
    match command {
        Command::Start => Reply::Introduce,
        Command::Help => Reply::ListCommands,
        Command::Id => Reply::ShowId,
        Command::Download(t) => Reply::Download(t),
        Command::Authorize(t) => if admin {
            Reply::Authorize(t)
        } else {
            Reply::UnknownCommand
        },
    }
}

/// What the bot does about a message that is no bare command.
pub(crate) fn reply_to_other(text: &str, parsed: Option<Command>, admin: bool) -> (r: Reply)
    ensures
        r@ == other_reply(text@, parsed, admin),
{
    match parsed {
        Some(c) => reply_to_command(c, admin),
        None => {
            let cs = chars_of(text);
            if starts_with(trim_start_chars(cs.as_slice()), "/") {
                Reply::UnknownCommand
            } else {
                Reply::Download(text.to_owned())
            }
        },
    }
}

/// Decides what the bot does about a message.
pub fn reply_to(
    role: Option<UserRole>,
    text: &str,
    bot_name: &str,
    parsed: Option<Command>,
) -> (r: Reply)
    ensures
        r@ == reply(role, text@, bot_name@, parsed),
{
    match role {
        Some(UserRole::Admin) => {
            if is_bare_command_invocation(text, "authorize", bot_name) {
                Reply::AuthorizePrompt
            } else if is_bare_command_invocation(text, "download", bot_name) {
                Reply::DownloadPrompt
            } else {
                reply_to_other(text, parsed, true)
            }
        },
        Some(UserRole::User) => {
            if is_bare_command_invocation(text, "download", bot_name) {
                Reply::DownloadPrompt
            } else {
                reply_to_other(text, parsed, false)
            }
        },
        _ => Reply::Ignore,
    }
}

/// Someone without a role, or with the role of nobody, is not answered at all.
pub proof fn strangers_are_ignored(
    role: Option<UserRole>,
    text: Seq<char>,
    bot: Seq<char>,
    parsed: Option<Command>,
)
    requires
        role is None || role == Some(UserRole::Nobody),
    ensures
        reply(role, text, bot, parsed) is Ignore,
{
}

/// Only an admin can authorize others, or is told how.
pub proof fn only_admins_authorize(
    role: Option<UserRole>,
    text: Seq<char>,
    bot: Seq<char>,
    parsed: Option<Command>,
)
    requires
        reply(role, text, bot, parsed) is Authorize || reply(
            role,
            text,
            bot,
            parsed,
        ) is AuthorizePrompt,
    ensures
        role == Some(UserRole::Admin),
{
}

/// What an admin or a user sends that is no command and does not begin with a slash is taken as
/// the address of a post.
pub proof fn plain_messages_are_downloads(
    role: UserRole,
    text: Seq<char>,
    bot: Seq<char>,
)
    requires
        role == UserRole::Admin || role == UserRole::User,
        !has_prefix(trim_start(text), "/"@),
    ensures
        reply(Some(role), text, bot, None) == ReplyView::Download(text),
{
    reveal_strlit("/");
    if has_prefix(trim(text), "/"@) {
        lemma_trim_end_keeps_front(trim_start(text));
        let t = trim(text);
        assert(t.subrange(0, 1)[0] == '/');
        assert(t[0] == '/');
        assert(trim_start(text)[0] == '/');
        assert(trim_start(text).subrange(0, 1) == "/"@);
    }
}

proof fn lemma_trim_end_keeps_front(s: Seq<char>)
    ensures
        trim_end(s).len() <= s.len(),
        trim_end(s) == s.take(trim_end(s).len() as int),
    decreases s.len(),
{
    if s.len() > 0 && white(s.last()) {
        lemma_trim_end_keeps_front(s.drop_last());
        assert(s.drop_last().take(trim_end(s).len() as int) == s.take(trim_end(s).len() as int));
    }
}

// ---------------------------------------------------------------------------
// Authorizing
// ---------------------------------------------------------------------------

/// Whom an admin authorizes.
#[derive(Debug, PartialEq, Eq)]
pub enum AuthorizationTarget {
    UserId(String),
    Username(String),
}

/// Whom an admin authorizes, as a row of the table of users.
pub open spec fn target_view(t: AuthorizationTarget) -> Target {
    match t {
        AuthorizationTarget::UserId(id) => Target::UserId(id@),
        AuthorizationTarget::Username(name) => Target::Username(name@),
    }
}

/// Whether a character may stand in a username.
pub open spec fn name_char(c: char) -> bool {
    ascii_alphanumeric(c) || c == '_'
}

/// Whether every character may stand in a username.
pub open spec fn all_name_chars(s: Seq<char>) -> bool {
    forall|i: int| 0 <= i < s.len() ==> name_char(#[trigger] s[i])
}

/// The text of a username without the at sign and the space around it.
pub open spec fn bare_name(input: Seq<char>) -> Seq<char> {
    let t = trim(input);
    if has_prefix(t, "@"@) {
        trim(t.skip(1))
    } else {
        trim(t)
    }
}

/// A username as it is stored: in lower case, if it is one.
pub open spec fn stored_name(input: Option<Seq<char>>) -> Option<Seq<char>> {
    match input {
        Some(raw) => {
            let name = bare_name(raw);
            if name.len() > 0 && all_name_chars(name) {
                Some(lowercase(name))
            } else {
                None
            }
        },
        None => None,
    }
}

/// Whether every character may stand in a username.
fn are_name_chars(s: &[char]) -> (r: bool)
    ensures
        r == all_name_chars(s@),
{
    let mut i: usize = 0;
    while i < s.len()
        invariant
            i <= s.len(),
            forall|j: int| 0 <= j < i ==> name_char(#[trigger] s@[j]),
        decreases s.len() - i,
    {
        if !(is_ascii_alnum(s[i]) || s[i] == '_') {
            assert(!name_char(s@[i as int]));
            return false;
        }
        i += 1;
    }
    true
}

/// A username as it is stored.
pub fn normalize_telegram_username(input: Option<&str>) -> (r: Option<String>)
    ensures
        some_string(r) == stored_name(some_text(input)),
{
    match input {
        Some(raw) => {
            proof {
                reveal_strlit("@");
            }
            let cs = chars_of(raw);
            let t = trim_chars(cs.as_slice());
            let name = match strip_prefix(t, "@") {
                Some(rest) => trim_chars(rest),
                None => trim_chars(t),
            };
            if name.len() == 0 || !are_name_chars(name) {
                return None;
            }
            let lower = lowercase_chars(name);
            Some(text_of(lower.as_slice()))
        },
        None => None,
    }
}

/// Whom a text names: a numeric id, or a username.
pub open spec fn target_named(input: Seq<char>) -> Result<Target, Seq<char>> {
    let t = trim(input);
    if t.len() == 0 {
        Err("missing authorization target"@)
    } else if all_digits(t) {
        Ok(Target::UserId(t))
    } else {
        match stored_name(Some(t)) {
            Some(name) => Ok(Target::Username(name)),
            None => Err("target must be a Telegram numeric user id or username"@),
        }
    }
}

/// Reads whom a text names.
pub fn parse_authorization_target(input: &str) -> (r: Result<AuthorizationTarget, String>)
    ensures
        match r {
            Ok(t) => target_named(input@) == Ok::<Target, Seq<char>>(target_view(t)),
            Err(m) => target_named(input@) == Err::<Target, Seq<char>>(m@),
        },
{
    let cs = chars_of(input);
    let t = trim_chars(cs.as_slice());
    if t.len() == 0 {
        return Err("missing authorization target".to_owned());
    }
    let text = text_of(t);
    if are_digits(t) {
        return Ok(AuthorizationTarget::UserId(text));
    }
    match normalize_telegram_username(Some(text.as_str())) {
        Some(name) => Ok(AuthorizationTarget::Username(name)),
        None => Err("target must be a Telegram numeric user id or username".to_owned()),
    }
}

/// What the table of users is asked to hold for a target: the id or the username.
pub fn grant_of(target: &AuthorizationTarget) -> (r: (Option<String>, Option<String>))
    ensures
        target_of(some_string(r.0), some_string(r.1)) == Some(target_view(*target)),
        some_string(r.0) is Some ==> r.1 is None,
{
    match target {
        AuthorizationTarget::UserId(id) => (Some(id.clone()), None),
        AuthorizationTarget::Username(name) => (None, Some(name.clone())),
    }
}

/// What is said when someone was authorized.
pub open spec fn authorized_text(target: Target) -> Seq<char> {
    match target {
        Target::UserId(id) => "Authorized Telegram user id "@ + id + " as user."@,
        Target::Username(name) => "Authorized Telegram username @"@ + name + " as user."@,
    }
}

/// Says that someone was authorized.
pub fn authorization_summary(target: &AuthorizationTarget) -> (r: String)
    ensures
        r@ == authorized_text(target_view(*target)),
{
    match target {
        AuthorizationTarget::UserId(id) => {
            let mut out = "Authorized Telegram user id ".to_owned();
            out.append(id.as_str());
            out.append(" as user.");
            out
        },
        AuthorizationTarget::Username(name) => {
            let mut out = "Authorized Telegram username @".to_owned();
            out.append(name.as_str());
            out.append(" as user.");
            out
        },
    }
}

proof fn lemma_name_is_trimmed(s: Seq<char>)
    requires
        s.len() > 0,
        all_name_chars(s),
    ensures
        trim(s) == s,
        !has_prefix(s, "@"@),
{
    assert(name_char(s[0]));
    assert(name_char(s.last()));
    assert(trim_start(s) == s);
    assert(trim_end(s) == s);
    reveal_strlit("@");
    if has_prefix(s, "@"@) {
        assert(s.subrange(0, 1)[0] == s[0]);
    }
}

proof fn lemma_lowercase_name(s: Seq<char>)
    requires
        all_name_chars(s),
    ensures
        all_name_chars(lowercase(s)),
        lowercase(lowercase(s)) == lowercase(s),
{
    assert forall|i: int| 0 <= i < s.len() implies name_char(#[trigger] lowercase(s)[i]) by {
        assert(name_char(s[i]));
    }
    assert forall|i: int| 0 <= i < s.len() implies #[trigger] lowercase(lowercase(s))[i]
        == lowercase(s)[i] by {
        assert(name_char(s[i]));
    }
    assert(lowercase(lowercase(s)) =~= lowercase(s));
}

/// A username that is stored is stored as itself, so that whoever is authorized by a name is found
/// under it.
pub proof fn stored_names_are_stable(input: Seq<char>)
    requires
        stored_name(Some(input)) is Some,
    ensures
        stored_name(stored_name(Some(input))) == stored_name(Some(input)),
{
    let name = bare_name(input);
    let lower = lowercase(name);
    lemma_lowercase_name(name);
    lemma_name_is_trimmed(lower);
}

/// An at sign before a username and the case of its letters do not matter.
pub proof fn spelling_of_names_does_not_matter(name: Seq<char>)
    requires
        name.len() > 0,
        all_name_chars(name),
    ensures
        stored_name(Some(name)) == Some(lowercase(name)),
        stored_name(Some("@"@ + name)) == Some(lowercase(name)),
        stored_name(Some(lowercase(name))) == Some(lowercase(name)),
{
    lemma_name_is_trimmed(name);
    lemma_lowercase_name(name);
    lemma_name_is_trimmed(lowercase(name));
    reveal_strlit("@");
    let with_at = "@"@ + name;
    assert(with_at[0] == '@');
    assert(with_at.last() == name.last());
    assert(name_char(name.last()));
    assert(trim_start(with_at) == with_at);
    assert(trim_end(with_at) == with_at);
    assert(with_at.subrange(0, 1) == "@"@);
    assert(with_at.skip(1) == name);
}

/// Someone who is authorized by a username, however it is spelled, is served from their first
/// message on: the role they then have is that of a user.
pub proof fn authorized_names_are_served(
    table: Seq<UserRow>,
    id: i64,
    platform: Seq<char>,
    named: Seq<char>,
    now: Seq<char>,
    user_id: Seq<char>,
    seen_as: Seq<char>,
    later: Seq<char>,
    text: Seq<char>,
    bot: Seq<char>,
    parsed: Option<Command>,
)
    requires
        table_ok(table),
        forall|i: int| 0 <= i < table.len() ==> (#[trigger] table[i]).id != id,
        forall|i: int|
            0 <= i < table.len() ==> !has_user_id(#[trigger] table[i], platform, user_id),
        target_named(named) is Ok,
        target_named(named)->Ok_0 is Username,
        stored_name(Some(seen_as)) == Some(target_named(named)->Ok_0->Username_0),
    ensures
        ({
            let after = given(
                table,
                id,
                platform,
                target_named(named)->Ok_0,
                None,
                UserRole::User,
                now,
            );
            let role = authorized(after, platform, user_id, stored_name(Some(seen_as)), later).1;
            role matches Some(name) && role_named(name) == Some(UserRole::User) && !(reply(
                role_named(name),
                text,
                bot,
                parsed,
            ) is Ignore)
        }),
{
    let name = target_named(named)->Ok_0->Username_0;
    role_given_to_a_username_is_taken_up(
        table,
        id,
        platform,
        name,
        UserRole::User,
        now,
        user_id,
        later,
        None,
        later,
    );
    stored_role_is_found(UserRole::User);
}

// ---------------------------------------------------------------------------
// Menus
// ---------------------------------------------------------------------------

/// Which commands are offered.
#[derive(Clone, Copy, PartialEq, Eq, Structural, Debug)]
pub enum CommandMenu {
    Admin,
    User,
    Empty,
}

/// Which commands are offered to a role.
pub fn command_set_for_role(role: Option<UserRole>) -> (r: CommandMenu)
    ensures
        r == match role {
            Some(UserRole::Admin) => CommandMenu::Admin,
            Some(UserRole::User) => CommandMenu::User,
            _ => CommandMenu::Empty,
        },
{
    match role {
        Some(UserRole::Admin) => CommandMenu::Admin,
        Some(UserRole::User) => CommandMenu::User,
        _ => CommandMenu::Empty,
    }
}

/// Where the commands are offered.
#[derive(Clone, Copy, PartialEq, Eq, Structural, Debug)]
pub enum CommandScope {
    /// In the chat.
    Chat,
    /// To one member of the chat.
    Member(u64),
}

/// Where the commands are offered: in a private chat to the chat, elsewhere to who wrote, if that
/// is known.
pub fn command_scope_for_message(private: bool, from: Option<u64>) -> (r: Option<CommandScope>)
    ensures
        r == if private {
            Some(CommandScope::Chat)
        } else {
            match from {
                Some(id) => Some(CommandScope::Member(id)),
                None => None,
            }
        },
{
    if private {
        return Some(CommandScope::Chat);
    }
    match from {
        Some(id) => Some(CommandScope::Member(id)),
        None => None,
    }
}

// ---------------------------------------------------------------------------
// Answers
// ---------------------------------------------------------------------------

/// How the bot introduces itself.
pub fn introduction() -> (r: &'static str)
    ensures
        r@
            == "Send me a post URL and I will fetch the media for you.\nYou can also use /download <url> explicitly.\nUse /help to see the available commands."@,
{
    "Send me a post URL and I will fetch the media for you.\nYou can also use /download <url> explicitly.\nUse /help to see the available commands."
}

/// How to authorize.
pub fn authorize_prompt() -> (r: &'static str)
    ensures
        r@
            == "Authorize a Telegram user as role=user.\nUse /authorize 123456789 to authorize by numeric Telegram user id.\nUse /authorize @username to authorize by username before they message the bot."@,
{
    "Authorize a Telegram user as role=user.\nUse /authorize 123456789 to authorize by numeric Telegram user id.\nUse /authorize @username to authorize by username before they message the bot."
}

/// How to download.
pub fn download_prompt() -> (r: &'static str)
    ensures
        r@ == "Send /download <url> or paste a post URL directly."@,
{
    "Send /download <url> or paste a post URL directly."
}

/// That a command is not known.
pub fn unknown_command() -> (r: &'static str)
    ensures
        r@ == "Unknown command. Use /help to see supported commands."@,
{
    "Unknown command. Use /help to see supported commands."
}

/// The id of the user.
pub fn id_text(user_id: &str) -> (r: String)
    ensures
        r@ == "Your Telegram user id is "@ + user_id@ + "."@,
{
    let mut out = "Your Telegram user id is ".to_owned();
    out.append(user_id);
    out.append(".");
    out
}

/// That nobody could be authorized by what was given.
pub fn invalid_target_text(reason: &str) -> (r: String)
    ensures
        r@ == "Invalid /authorize target: "@ + reason@,
{
    let mut out = "Invalid /authorize target: ".to_owned();
    out.append(reason);
    out
}

/// That authorizing failed.
pub fn authorize_failed_text(reason: &str) -> (r: String)
    ensures
        r@ == "Authorize failed: "@ + reason@,
{
    let mut out = "Authorize failed: ".to_owned();
    out.append(reason);
    out
}

/// That the role of a user could not be looked up.
pub fn check_failed_text(reason: &str) -> (r: String)
    ensures
        r@ == "Authorization check failed: "@ + reason@,
{
    let mut out = "Authorization check failed: ".to_owned();
    out.append(reason);
    out
}

} // verus!
