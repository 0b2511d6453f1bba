use notnotsavebot::accounts::{
    after_direct_lookup, after_pending_lookup, needs_insert, settled_role, upsert_target,
    AuthorizeStep, PendingUser, RoleTarget, StoredUser, UserChange,
};
use notnotsavebot::commands::{
    authorization_summary, authorize_prompt, command_scope_for_message, command_set_for_role,
    download_prompt, grant_of, id_text, introduction, is_bare_command_invocation,
    normalize_telegram_username, parse_authorization_target, reply_to, unknown_command,
    AuthorizationTarget, Command, CommandMenu, CommandScope, Reply,
};
use notnotsavebot::schema::{
    column_is_nullable, ensure_media_table, ensure_users_table, table_has_column, username_source,
    users_column_names, users_copy_sources, Column, MediaTableStep, UsersTableStep,
};
use notnotsavebot::users::UserRole;

fn column(name: &str, not_null: bool) -> Column {
    Column { name: name.to_string(), not_null }
}

fn reply(role: Option<UserRole>, text: &str, parsed: Option<Command>) -> Reply {
    reply_to(role, text, "thebot", parsed)
}

#[test]
fn roles_have_names() {
    for role in [UserRole::Admin, UserRole::User, UserRole::Nobody] {
        assert_eq!(UserRole::from_str(role.as_str()), Ok(role));
    }
    assert_eq!(UserRole::Nobody.as_str(), "none");
    assert_eq!(
        UserRole::from_str("owner").unwrap_err(),
        "invalid stored user role: owner"
    );
    assert!(UserRole::User.is_allowed());
    assert!(!UserRole::Nobody.is_allowed());
}

#[test]
fn known_users_keep_their_role_and_get_their_name() {
    let stored = || StoredUser {
        id: 4,
        role: "admin".to_string(),
        username: Some("me".to_string()),
    };
    let step = after_direct_lookup(Some(stored()), Some("me"));
    assert_eq!(settled_role(&step), Ok(Some(UserRole::Admin)));
    assert_eq!(
        step,
        AuthorizeStep::Known {
            change: UserChange::Touch { id: 4 },
            role: "admin".to_string()
        }
    );
    assert_eq!(
        after_direct_lookup(Some(stored()), None),
        AuthorizeStep::Known {
            change: UserChange::Rename { id: 4, name: None },
            role: "admin".to_string()
        }
    );
}

#[test]
fn unknown_users_have_no_role() {
    let step = after_direct_lookup(None, None);
    assert_eq!(step, AuthorizeStep::Unknown);
    assert_eq!(settled_role(&step), Ok(None));
    assert_eq!(after_direct_lookup(None, Some("me")), AuthorizeStep::LookForUsername);
    assert_eq!(after_pending_lookup(None, "1", "me"), AuthorizeStep::Unknown);
}

#[test]
fn pending_users_are_bound_to_their_id() {
    let pending = PendingUser { id: 9, role: "user".to_string() };
    let step = after_pending_lookup(Some(pending), "123", "me");
    assert_eq!(settled_role(&step), Ok(Some(UserRole::User)));
    assert_eq!(
        step,
        AuthorizeStep::Known {
            change: UserChange::Bind {
                id: 9,
                platform_user_id: "123".to_string(),
                username: "me".to_string()
            },
            role: "user".to_string()
        }
    );
}

#[test]
fn stored_roles_that_are_none_are_reported() {
    let pending = PendingUser { id: 9, role: "king".to_string() };
    assert_eq!(
        settled_role(&after_pending_lookup(Some(pending), "123", "me")),
        Err("invalid stored user role: king".to_string())
    );
}

#[test]
fn roles_are_given_to_ids_before_names() {
    assert_eq!(
        upsert_target(Some("1"), Some("me")),
        Ok(RoleTarget::UserId("1".to_string()))
    );
    assert_eq!(
        upsert_target(None, Some("me")),
        Ok(RoleTarget::Username("me".to_string()))
    );
    assert_eq!(
        upsert_target(None, None),
        Err("upsert_user requires a platform_user_id or username".to_string())
    );
    assert!(needs_insert(0));
    assert!(!needs_insert(1));
}

#[test]
fn bare_commands_stand_alone() {
    assert!(is_bare_command_invocation(" /Download ", "download", "TheBot"));
    assert!(is_bare_command_invocation("/download@thebot", "download", "TheBot"));
    assert!(!is_bare_command_invocation("/download x", "download", "TheBot"));
    assert!(!is_bare_command_invocation("/download@other", "download", "TheBot"));
    assert!(!is_bare_command_invocation("download", "download", "TheBot"));
    assert!(!is_bare_command_invocation("/", "download", "TheBot"));
}

#[test]
fn strangers_are_not_answered() {
    for role in [None, Some(UserRole::Nobody)] {
        assert_eq!(reply(role, "/help", Some(Command::Help)), Reply::Ignore);
        assert_eq!(reply(role, "https://x.com/a", None), Reply::Ignore);
    }
}

#[test]
fn admins_are_answered() {
    let admin = Some(UserRole::Admin);
    assert_eq!(reply(admin, "/authorize", None), Reply::AuthorizePrompt);
    assert_eq!(reply(admin, "/download@TheBot", None), Reply::DownloadPrompt);
    assert_eq!(
        reply(admin, "/authorize @me", Some(Command::Authorize("@me".to_string()))),
        Reply::Authorize("@me".to_string())
    );
    assert_eq!(reply(admin, "/start", Some(Command::Start)), Reply::Introduce);
    assert_eq!(reply(admin, "/help", Some(Command::Help)), Reply::ListCommands);
    assert_eq!(reply(admin, "/id", Some(Command::Id)), Reply::ShowId);
    assert_eq!(reply(admin, "  /nonsense", None), Reply::UnknownCommand);
    assert_eq!(reply(admin, "x.com/a", None), Reply::Download("x.com/a".to_string()));
}

#[test]
fn users_cannot_authorize() {
    let user = Some(UserRole::User);
    assert_eq!(reply(user, "/authorize", None), Reply::UnknownCommand);
    assert_eq!(
        reply(user, "/authorize 1", Some(Command::Authorize("1".to_string()))),
        Reply::UnknownCommand
    );
    assert_eq!(reply(user, "/download", None), Reply::DownloadPrompt);
    assert_eq!(
        reply(user, "/download u", Some(Command::Download("u".to_string()))),
        Reply::Download("u".to_string())
    );
}

#[test]
fn targets_are_ids_or_names() {
    assert_eq!(
        parse_authorization_target(" 123 "),
        Ok(AuthorizationTarget::UserId("123".to_string()))
    );
    assert_eq!(
        parse_authorization_target("@Some_One"),
        Ok(AuthorizationTarget::Username("some_one".to_string()))
    );
    assert_eq!(
        parse_authorization_target("  "),
        Err("missing authorization target".to_string())
    );
    assert_eq!(
        parse_authorization_target("some one"),
        Err("target must be a Telegram numeric user id or username".to_string())
    );
    let target = AuthorizationTarget::Username("me".to_string());
    assert_eq!(grant_of(&target), (None, Some("me".to_string())));
    assert_eq!(
        authorization_summary(&target),
        "Authorized Telegram username @me as user."
    );
    let target = AuthorizationTarget::UserId("5".to_string());
    assert_eq!(grant_of(&target), (Some("5".to_string()), None));
    assert_eq!(
        authorization_summary(&target),
        "Authorized Telegram user id 5 as user."
    );
}

#[test]
fn the_spelling_of_a_name_does_not_matter() {
    for spelling in ["Me_1", "@me_1", " @ ME_1 "] {
        assert_eq!(normalize_telegram_username(Some(spelling)).as_deref(), Some("me_1"));
    }
    assert_eq!(normalize_telegram_username(Some("mé")), None);
    assert_eq!(normalize_telegram_username(Some("@")), None);
    assert_eq!(normalize_telegram_username(None), None);
}

#[test]
fn menus_follow_the_role() {
    assert_eq!(command_set_for_role(Some(UserRole::Admin)), CommandMenu::Admin);
    assert_eq!(command_set_for_role(Some(UserRole::User)), CommandMenu::User);
    assert_eq!(command_set_for_role(Some(UserRole::Nobody)), CommandMenu::Empty);
    assert_eq!(command_set_for_role(None), CommandMenu::Empty);
    assert_eq!(command_scope_for_message(true, None), Some(CommandScope::Chat));
    assert_eq!(command_scope_for_message(false, Some(3)), Some(CommandScope::Member(3)));
    assert_eq!(command_scope_for_message(false, None), None);
}

#[test]
fn answers_are_worded() {
    assert!(introduction().starts_with("Send me a post URL"));
    assert!(authorize_prompt().contains("/authorize 123456789"));
    assert!(download_prompt().contains("/download <url>"));
    assert!(unknown_command().starts_with("Unknown command."));
    assert_eq!(id_text("42"), "Your Telegram user id is 42.");
}

#[test]
fn tables_are_made_anew_where_they_are_old() {
    assert_eq!(ensure_users_table(&None, false), UsersTableStep::Create);
    let current = Some(vec![column("platform_user_id", false), column("username", false)]);
    assert_eq!(ensure_users_table(&current, true), UsersTableStep::Index);
    assert_eq!(
        ensure_users_table(&current, false),
        UsersTableStep::Rebuild { with_usernames: true }
    );
    let old = vec![column("id", false), column("platform_user_id", true)];
    assert!(!column_is_nullable(&old, "platform_user_id"));
    assert!(!column_is_nullable(&old, "username"));
    assert!(table_has_column(&old, "id"));
    assert_eq!(
        ensure_users_table(&Some(old), true),
        UsersTableStep::Rebuild { with_usernames: false }
    );
    assert_eq!(username_source(true), "username");
    assert_eq!(username_source(false), "NULL AS username");
    assert_eq!(
        users_column_names().join(", "),
        "id, platform, platform_user_id, username, role, created_at, updated_at"
    );
    assert_eq!(users_copy_sources(true), users_column_names());
    assert_eq!(
        users_copy_sources(false).join(", "),
        "id, platform, platform_user_id, NULL AS username, role, created_at, updated_at"
    );
    assert_eq!(ensure_media_table(false, true), MediaTableStep::Create);
    assert_eq!(ensure_media_table(true, true), MediaTableStep::Keep);
    assert_eq!(ensure_media_table(true, false), MediaTableStep::Rebuild);
}
