//! How messages are answered, and who is given which role.
use vstd::prelude::*;

use crate::accounts::{
    authorized, awaits, given, has_user_id, lemma_row_awaiting, lemma_row_of_user,
    lemma_the_row_awaiting, lemma_the_row_of_user, table_ok, Target, UserRow,
};
use crate::commands::{
    authorized_text, bare_command, next_white, reply, stored_name, target_named, Command, ReplyView,
};
use crate::laws::texts::{
    all_white, blank_texts_are_white, tight, tight_texts_stay, trimming_takes_the_ends_off,
    white_space_around_is_dropped,
};
use crate::mine_bot::{answer, seen, AnswerView};
use crate::text::{all_digits, ascii_digit, has_prefix, lowercase, trim, trim_start, white};
use crate::users::{role_name, role_named, UserRole};

verus! {

// ---------------------------------------------------------------------------
// Messages
// ---------------------------------------------------------------------------

/// Whether a text holds no white space.
pub open spec fn unbroken(s: Seq<char>) -> bool {
    forall|i: int| 0 <= i < s.len() ==> !white(#[trigger] s[i])
}

proof fn lemma_next_white(s: Seq<char>, i: int, end: int)
    requires
        0 <= i <= end <= s.len(),
        forall|k: int| i <= k < end ==> !white(#[trigger] s[k]),
        end < s.len() ==> white(s[end]),
    ensures
        next_white(s, i) == end,
    decreases end - i,
{
    if i < end {
        lemma_next_white(s, i + 1, end);
    }
}

/// Whether a word is a command, in any spelling, alone or with the name of the bot.
pub open spec fn calls(word: Seq<char>, command: Seq<char>, bot: Seq<char>) -> bool {
    lowercase(word) == lowercase(command) || lowercase(word) == lowercase(
        command + seq!['@'] + bot,
    )
}

/// A slash with an unbroken word behind it and white space around is a bare command exactly if the
/// word calls it; with something more behind the word it is not bare.
pub proof fn bare_commands_are_recognized(
    before: Seq<char>,
    word: Seq<char>,
    after: Seq<char>,
    more: Seq<char>,
    command: Seq<char>,
    bot: Seq<char>,
)
    requires
        all_white(before),
        all_white(after),
        unbroken(word),
        tight(more),
        more.len() > 0,
    ensures
        bare_command(before + (seq!['/'] + word) + after, command, bot) <==> calls(
            word,
            command,
            bot,
        ),
        !bare_command(
            before + (seq!['/'] + word + seq![' '] + more) + after,
            command,
            bot,
        ),
{
    reveal_strlit("/");
    reveal_strlit("@");
    let t = seq!['/'] + word;
    assert(tight(t)) by {
        if word.len() > 0 {
            assert(!white(word[word.len() - 1]));
        }
    }
    white_space_around_is_dropped(before, t, after);
    assert(t.subrange(0, 1) == "/"@);
    assert(t.skip(1) == word);
    lemma_next_white(word, 0, word.len() as int);
    assert(word.take(word.len() as int) == word);
    assert("@"@ == seq!['@']);

    let long = seq!['/'] + word + seq![' '] + more;
    assert(tight(long));
    white_space_around_is_dropped(before, long, after);
    assert(long.subrange(0, 1) == "/"@);
    let rest = word + seq![' '] + more;
    assert(long.skip(1) == rest);
    assert forall|k: int| 0 <= k < word.len() implies !white(#[trigger] rest[k]) by {
        assert(rest[k] == word[k]);
    }
    assert(rest[word.len() as int] == ' ');
    lemma_next_white(rest, 0, word.len() as int);
    assert(rest.skip((word.len() + 1) as int) == more);
    tight_texts_stay(more);
}

/// A message that does not begin with a slash is no bare command.
pub proof fn other_messages_are_no_bare_commands(text: Seq<char>, command: Seq<char>, bot: Seq<char>)
    requires
        trim(text).len() == 0 || trim(text)[0] != '/',
    ensures
        !bare_command(text, command, bot),
{
    reveal_strlit("/");
    if has_prefix(trim(text), "/"@) {
        assert(trim(text).subrange(0, 1)[0] == trim(text)[0]);
    }
}

/// A download without an address is answered with how to download, for users and admins; an
/// authorization without a name is answered with how to authorize, for admins.
pub proof fn bare_commands_are_explained(
    before: Seq<char>,
    word: Seq<char>,
    after: Seq<char>,
    bot: Seq<char>,
    parsed: Option<Command>,
)
    requires
        all_white(before),
        all_white(after),
        unbroken(word),
    ensures
        ({
            let text = before + (seq!['/'] + word) + after;
            &&& calls(word, "download"@, bot) ==> reply(Some(UserRole::User), text, bot, parsed)
                is DownloadPrompt
            &&& calls(word, "download"@, bot) ==> reply(Some(UserRole::Admin), text, bot, parsed)
                is DownloadPrompt
            &&& calls(word, "authorize"@, bot) ==> reply(Some(UserRole::Admin), text, bot, parsed)
                is AuthorizePrompt
        }),
{
    let text = before + (seq!['/'] + word) + after;
    bare_commands_are_recognized(before, word, after, seq!['x'], "download"@, bot);
    bare_commands_are_recognized(before, word, after, seq!['x'], "authorize"@, bot);
    reveal_strlit("download");
    reveal_strlit("authorize");
    let l = lowercase(word);
    if calls(word, "download"@, bot) {
        assert(lowercase("download"@)[0] == 'd');
        assert(lowercase("download"@ + seq!['@'] + bot)[0] == 'd');
        assert(l[0] == 'd');
    }
    assert(lowercase("authorize"@)[0] == 'a');
    assert(lowercase("authorize"@ + seq!['@'] + bot)[0] == 'a');
}

/// A command that was understood is carried out for users and admins alike; authorizing is for
/// admins, and others are told that it is no command.
pub proof fn commands_are_carried_out(
    text: Seq<char>,
    bot: Seq<char>,
    admin: bool,
    argument: String,
)
    requires
        !bare_command(text, "download"@, bot),
        !bare_command(text, "authorize"@, bot),
    ensures
        ({
            let role = if admin {
                Some(UserRole::Admin)
            } else {
                Some(UserRole::User)
            };
            &&& reply(role, text, bot, Some(Command::Start)) is Introduce
            &&& reply(role, text, bot, Some(Command::Help)) is ListCommands
            &&& reply(role, text, bot, Some(Command::Id)) is ShowId
            &&& reply(role, text, bot, Some(Command::Download(argument))) == ReplyView::Download(
                argument@,
            )
            &&& admin ==> reply(role, text, bot, Some(Command::Authorize(argument)))
                == ReplyView::Authorize(argument@)
            &&& !admin ==> reply(role, text, bot, Some(Command::Authorize(argument)))
                is UnknownCommand
        }),
{
}

/// What begins with a slash, behind white space if there is any, and is not understood is no
/// command; anything else that is not understood is downloaded as it is.
pub proof fn other_messages_are_downloads(
    before: Seq<char>,
    rest: Seq<char>,
    bot: Seq<char>,
    role: UserRole,
)
    requires
        all_white(before),
        rest.len() > 0,
        !white(rest[0]),
        role == UserRole::Admin || role == UserRole::User,
        !bare_command(before + rest, "download"@, bot),
        !bare_command(before + rest, "authorize"@, bot),
    ensures
        rest[0] == '/' ==> reply(Some(role), before + rest, bot, None) is UnknownCommand,
        rest[0] != '/' ==> reply(Some(role), before + rest, bot, None) == ReplyView::Download(
            before + rest,
        ),
        rest[0] == '/' ==> answer(role, bot, before + rest, None) == AnswerView::Serve(
            ReplyView::UnknownCommand,
        ),
        rest[0] != '/' ==> answer(role, bot, before + rest, None) == AnswerView::Serve(
            ReplyView::Download(before + rest),
        ),
{
    reveal_strlit("/");
    lemma_trim_start_of(before, rest);
    let t = trim_start(before + rest);
    assert(t == rest);
    assert(rest.subrange(0, 1)[0] == rest[0]);
    if rest[0] == '/' {
        assert(rest.subrange(0, 1) == "/"@);
    }
}

proof fn lemma_trim_start_of(before: Seq<char>, rest: Seq<char>)
    requires
        all_white(before),
        rest.len() > 0,
        !white(rest[0]),
    ensures
        trim_start(before + rest) == rest,
    decreases before.len(),
{
    let all = before + rest;
    if before.len() > 0 {
        assert(all[0] == before[0]);
        assert(white(before[0]));
        assert(all.drop_first() == before.drop_first() + rest);
        assert forall|i: int| 0 <= i < before.drop_first().len() implies white(
            #[trigger] before.drop_first()[i],
        ) by {
            assert(before.drop_first()[i] == before[i + 1]);
        }
        lemma_trim_start_of(before.drop_first(), rest);
    } else {
        assert(all == rest);
    }
}

/// The smaller bot carries out the commands it knows for whoever has a role, and tells the others
/// their id.
pub proof fn smaller_bot_serves_its_users(
    role: UserRole,
    user_id: Seq<char>,
    text: Seq<char>,
    argument: String,
    parsed: Option<Command>,
)
    ensures
        answer(UserRole::Nobody, user_id, text, parsed) == AnswerView::Refuse(
            "You are not authorized to use this bot. Your Telegram user id is "@ + user_id + "."@,
        ),
        role != UserRole::Nobody ==> answer(
            role,
            user_id,
            text,
            Some(Command::Download(argument)),
        ) == AnswerView::Serve(ReplyView::Download(argument@)),
        role != UserRole::Nobody ==> answer(role, user_id, text, Some(Command::Start))
            == AnswerView::Serve(ReplyView::Introduce),
        role != UserRole::Nobody ==> answer(role, user_id, text, Some(Command::Help))
            == AnswerView::Serve(ReplyView::ListCommands),
        role != UserRole::Nobody ==> answer(role, user_id, text, Some(Command::Id))
            == AnswerView::Serve(ReplyView::ShowId),
{
}

// ---------------------------------------------------------------------------
// Who is authorized
// ---------------------------------------------------------------------------

/// Digits name a user by their id, as they are; white space around them does not matter. A blank
/// text names nobody.
pub proof fn numbers_name_ids(before: Seq<char>, digits: Seq<char>, after: Seq<char>)
    requires
        all_white(before),
        all_white(after),
        digits.len() > 0,
        all_digits(digits),
    ensures
        target_named(before + digits + after) == Ok::<Target, Seq<char>>(Target::UserId(digits)),
        target_named(before) == Err::<Target, Seq<char>>("missing authorization target"@),
{
    assert(ascii_digit(digits[0]));
    assert(ascii_digit(digits[digits.len() - 1]));
    white_space_around_is_dropped(before, digits, after);
    blank_texts_are_white(before);
}

/// Letters, digits and underscores that are not all digits name a user by their username, in lower
/// case; an at sign before it does not matter.
pub proof fn names_name_usernames(name: Seq<char>)
    requires
        name.len() > 0,
        forall|i: int|
            0 <= i < name.len() ==> ('a' <= #[trigger] name[i] <= 'z' || 'A' <= name[i] <= 'Z' || '0'
                <= name[i] <= '9' || name[i] == '_'),
    ensures
        !all_digits(name) ==> target_named(name) == Ok::<Target, Seq<char>>(
            Target::Username(lowercase(name)),
        ),
        target_named(seq!['@'] + name) == Ok::<Target, Seq<char>>(
            Target::Username(lowercase(name)),
        ),
{
    reveal_strlit("@");
    assert forall|i: int| 0 <= i < name.len() implies crate::commands::name_char(
        #[trigger] name[i],
    ) by {}
    crate::commands::spelling_of_names_does_not_matter(name);
    assert(!white(name[0]) && !white(name[name.len() - 1]));
    tight_texts_stay(name);
    let at = seq!['@'] + name;
    assert("@"@ + name == at);
    assert(at.last() == name[name.len() - 1]);
    tight_texts_stay(at);
    assert(!ascii_digit(at[0]));
}

/// Any other text names nobody.
pub proof fn other_texts_name_nobody(text: Seq<char>, i: int)
    requires
        tight(text),
        0 < i < text.len(),
        !('a' <= text[i] <= 'z' || 'A' <= text[i] <= 'Z' || '0' <= text[i] <= '9' || text[i] == '_'),
        !white(text[i]),
    ensures
        target_named(text) == Err::<Target, Seq<char>>(
            "target must be a Telegram numeric user id or username"@,
        ),
        stored_name(Some(text)) is None,
{
    reveal_strlit("@");
    tight_texts_stay(text);
    assert(!ascii_digit(text[i]));
    if has_prefix(text, "@"@) {
        let rest = text.skip(1);
        let (a, b) = trimming_takes_the_ends_off(rest);
        let name = trim(rest);
        assert(rest[i - 1] == text[i]);
        if i - 1 < a {
            assert(rest.take(a)[i - 1] == rest[i - 1]);
        } else if i - 1 >= b {
            assert(rest.skip(b)[i - 1 - b] == rest[i - 1]);
        } else {
            assert(name[i - 1 - a] == text[i]);
            assert(!crate::commands::name_char(name[i - 1 - a]));
        }
    } else {
        assert(!crate::commands::name_char(text[i]));
    }
}

/// Who is authorized is told by id or by username.
pub proof fn authorizations_are_told(id: Seq<char>)
    ensures
        authorized_text(Target::UserId(id)) == "Authorized Telegram user id "@ + id + " as user."@,
        authorized_text(Target::Username(id)) == "Authorized Telegram username @"@ + id
            + " as user."@,
{
}

// ---------------------------------------------------------------------------
// The table of users
// ---------------------------------------------------------------------------

/// A message from a user with a row gives the role of that row, puts the name that the user goes by
/// and the time into it, and leaves every other row alone.
pub proof fn messages_update_the_row_of_their_user(
    table: Seq<UserRow>,
    platform: Seq<char>,
    user_id: Seq<char>,
    username: Option<Seq<char>>,
    now: Seq<char>,
    k: int,
)
    requires
        table_ok(table),
        0 <= k < table.len(),
        table[k].platform == platform,
        table[k].platform_user_id == Some(user_id),
    ensures
        authorized(table, platform, user_id, username, now) == (
            table.update(k, UserRow { username, updated_at: now, ..table[k] }),
            Some(table[k].role),
        ),
{
    lemma_the_row_of_user(table, platform, user_id, k);
    let (after, role) = authorized(table, platform, user_id, username, now);
    assert(after =~= table.update(k, UserRow { username, updated_at: now, ..table[k] }));
}

/// The first message from a user whose username has a row that waits gives the role of that row,
/// binds it to the user, and leaves every other row alone.
pub proof fn first_messages_take_up_the_waiting_row(
    table: Seq<UserRow>,
    platform: Seq<char>,
    user_id: Seq<char>,
    name: Seq<char>,
    now: Seq<char>,
    k: int,
)
    requires
        table_ok(table),
        0 <= k < table.len(),
        table[k].platform == platform,
        table[k].platform_user_id is None,
        table[k].username == Some(name),
        forall|i: int|
            0 <= i < table.len() ==> (#[trigger] table[i]).platform != platform
                || table[i].platform_user_id != Some(user_id),
    ensures
        authorized(table, platform, user_id, Some(name), now) == (
            table.update(
                k,
                UserRow { platform_user_id: Some(user_id), updated_at: now, ..table[k] },
            ),
            Some(table[k].role),
        ),
        authorized(table, platform, user_id, None, now) == (table, None::<Seq<char>>),
{
    lemma_row_of_user(table, platform, user_id, 0);
    lemma_the_row_awaiting(table, platform, name, k);
    let (after, role) = authorized(table, platform, user_id, Some(name), now);
    assert(after =~= table.update(
        k,
        UserRow { platform_user_id: Some(user_id), updated_at: now, ..table[k] },
    ));
}

/// Giving a role to a user with a row changes the role, the name and the time of that row alone;
/// without one a row is added that holds the user, the role and the time.
pub proof fn roles_are_given_to_ids(
    table: Seq<UserRow>,
    id: i64,
    platform: Seq<char>,
    user_id: Seq<char>,
    username: Option<Seq<char>>,
    role: UserRole,
    now: Seq<char>,
    k: int,
)
    requires
        table_ok(table),
    ensures
        0 <= k < table.len() && table[k].platform == platform && table[k].platform_user_id == Some(
            user_id,
        ) ==> given(table, id, platform, Target::UserId(user_id), username, role, now)
            == table.update(
            k,
            UserRow { username, role: role_name(role), updated_at: now, ..table[k] },
        ),
        (forall|i: int|
            0 <= i < table.len() ==> (#[trigger] table[i]).platform != platform
                || table[i].platform_user_id != Some(user_id)) ==> given(
            table,
            id,
            platform,
            Target::UserId(user_id),
            username,
            role,
            now,
        ) == table.push(
            UserRow {
                id,
                platform,
                platform_user_id: Some(user_id),
                username,
                role: role_name(role),
                created_at: now,
                updated_at: now,
            },
        ),
{
    lemma_row_of_user(table, platform, user_id, 0);
    let after = given(table, id, platform, Target::UserId(user_id), username, role, now);
    if 0 <= k < table.len() && has_user_id(table[k], platform, user_id) {
        lemma_the_row_of_user(table, platform, user_id, k);
        assert(after =~= table.update(
            k,
            UserRow { username, role: role_name(role), updated_at: now, ..table[k] },
        ));
    }
}

/// Giving a role to a username changes the role and the time of the row that waits for it alone;
/// without one a row is added that waits for it.
pub proof fn roles_are_given_to_usernames(
    table: Seq<UserRow>,
    id: i64,
    platform: Seq<char>,
    name: Seq<char>,
    role: UserRole,
    now: Seq<char>,
    k: int,
)
    requires
        table_ok(table),
    ensures
        0 <= k < table.len() && awaits(table[k], platform, name) ==> given(
            table,
            id,
            platform,
            Target::Username(name),
            None,
            role,
            now,
        ) == table.update(k, UserRow { role: role_name(role), updated_at: now, ..table[k] }),
        (forall|i: int| 0 <= i < table.len() ==> !awaits(#[trigger] table[i], platform, name))
            ==> given(table, id, platform, Target::Username(name), None, role, now) == table.push(
            UserRow {
                id,
                platform,
                platform_user_id: None,
                username: Some(name),
                role: role_name(role),
                created_at: now,
                updated_at: now,
            },
        ),
{
    lemma_row_awaiting(table, platform, name, 0);
    let after = given(table, id, platform, Target::Username(name), None, role, now);
    if 0 <= k < table.len() && awaits(table[k], platform, name) {
        lemma_the_row_awaiting(table, platform, name, k);
        assert(after =~= table.update(
            k,
            UserRow { role: role_name(role), updated_at: now, ..table[k] },
        ));
    }
}

/// A row waits for a username exactly if it has the name and no id.
pub proof fn rows_wait_without_an_id(row: UserRow, platform: Seq<char>, name: Seq<char>)
    ensures
        awaits(row, platform, name) <==> (row.platform == platform && row.username == Some(name)
            && row.platform_user_id is None),
{
}

/// Roles are stored by three names.
pub proof fn roles_are_stored_by_name(name: Seq<char>)
    ensures
        role_named(name) is Some <==> (name == "admin"@ || name == "user"@ || name == "none"@),
        role_named("admin"@) == Some(UserRole::Admin),
        role_named("user"@) == Some(UserRole::User),
        role_named("none"@) == Some(UserRole::Nobody),
        role_named(name) matches Some(role) ==> role_name(role) == name,
{
    reveal_strlit("admin");
    reveal_strlit("user");
    reveal_strlit("none");
    assert("admin"@[0] == 'a' && "user"@[0] == 'u' && "none"@[0] == 'n');
}

/// A message to the smaller bot from a user with a row changes when that row was last updated and
/// nothing else; one from somebody else adds one row, without a role.
pub proof fn smaller_bot_notes_its_users(
    table: Seq<UserRow>,
    id: i64,
    platform: Seq<char>,
    user_id: Seq<char>,
    now: Seq<char>,
    k: int,
)
    requires
        0 <= k < table.len(),
    ensures
        ({
            let after = seen(table, id, platform, user_id, now);
            &&& (forall|j: int|
                0 <= j < table.len() ==> !(has_user_id(#[trigger] table[j], platform, user_id)))
                ==> after.len() == table.len() + 1 && after[k] == table[k] && after.last().id == id
                && has_user_id(after.last(), platform, user_id) && after.last().username is None
                && after.last().role == "none"@ && after.last().created_at == now
                && after.last().updated_at == now
            &&& has_user_id(table[k], platform, user_id) ==> after.len() == table.len() && after[k]
                == (UserRow { updated_at: now, ..table[k] })
            &&& !(has_user_id(table[k], platform, user_id)) ==> after[k] == table[k]
        }),
{
    lemma_row_of_user(table, platform, user_id, 0);
}

} // verus!
