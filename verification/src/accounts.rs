//! Who may use the bot: the decisions around the table of users, and what they do to it.
//!
//! The bot runs queries and statements against a database. What to ask next and what to change is
//! decided here; the model of the table says what those changes amount to.
use vstd::prelude::*;

use crate::json::{some_string, some_text};
use crate::text::same_text;
use crate::users::{role_name, role_named, UserRole};

verus! {

// ---------------------------------------------------------------------------
// The table
// ---------------------------------------------------------------------------

/// A row of the table of users. A row without a user id is pending: it waits for the user with
/// its username.
pub struct UserRow {
    pub id: i64,
    pub platform: Seq<char>,
    pub platform_user_id: Option<Seq<char>>,
    pub username: Option<Seq<char>>,
    pub role: Seq<char>,
    pub created_at: Seq<char>,
    pub updated_at: Seq<char>,
}

/// Whether the row belongs to the user with the id.
pub open spec fn has_user_id(row: UserRow, platform: Seq<char>, user_id: Seq<char>) -> bool {
    row.platform == platform && row.platform_user_id == Some(user_id)
}

/// Whether the row waits for the user with the username.
pub open spec fn awaits(row: UserRow, platform: Seq<char>, username: Seq<char>) -> bool {
    row.platform == platform && row.username == Some(username) && row.platform_user_id is None
}

/// What holds of the table at all times: ids are unique, a user id has at most one row, a
/// username has at most one pending row, and every role is a known one.
pub open spec fn table_ok(table: Seq<UserRow>) -> bool {
    &&& forall|i: int, j: int|
        0 <= i < j < table.len() ==> {
            let a = #[trigger] table[i];
            let b = #[trigger] table[j];
            &&& a.id != b.id
            &&& !(a.platform == b.platform && a.platform_user_id is Some && a.platform_user_id
                == b.platform_user_id)
            &&& !(a.platform == b.platform && a.platform_user_id is None && b.platform_user_id
                is None && a.username is Some && a.username == b.username)
        }
    &&& forall|i: int| 0 <= i < table.len() ==> role_named((#[trigger] table[i]).role) is Some
}

/// The position of the row of a user id, if there is one.
pub open spec fn row_of_user(
    table: Seq<UserRow>,
    platform: Seq<char>,
    user_id: Seq<char>,
    i: int,
) -> Option<int>
    decreases table.len() - i,
{
    if i < 0 || i >= table.len() {
        None
    } else if has_user_id(table[i], platform, user_id) {
        Some(i)
    } else {
        row_of_user(table, platform, user_id, i + 1)
    }
}

/// The position of the pending row of a username, if there is one.
pub open spec fn row_awaiting(
    table: Seq<UserRow>,
    platform: Seq<char>,
    username: Seq<char>,
    i: int,
) -> Option<int>
    decreases table.len() - i,
{
    if i < 0 || i >= table.len() {
        None
    } else if awaits(table[i], platform, username) {
        Some(i)
    } else {
        row_awaiting(table, platform, username, i + 1)
    }
}

// ---------------------------------------------------------------------------
// Deciding who a message is from
// ---------------------------------------------------------------------------

/// What the database holds of the user with an id.
pub struct StoredUser {
    pub id: i64,
    pub role: String,
    pub username: Option<String>,
}

/// What the database holds of a pending user.
pub struct PendingUser {
    pub id: i64,
    pub role: String,
}

/// A change of one row.
#[derive(Debug, PartialEq, Eq)]
pub enum UserChange {
    /// The user goes by another name now, or by none.
    Rename { id: i64, name: Option<String> },
    /// The user was seen.
    Touch { id: i64 },
    /// The pending row becomes that of the user with the id.
    Bind { id: i64, platform_user_id: String, username: String },
}

/// What a change of one row is.
pub enum RowChange {
    Rename { id: i64, name: Option<Seq<char>> },
    Touch { id: i64 },
    Bind { id: i64, platform_user_id: Seq<char>, username: Seq<char> },
}

impl View for UserChange {
    type V = RowChange;

    open spec fn view(&self) -> RowChange {
        match self {
            UserChange::Rename { id, name } => RowChange::Rename {
                id: *id,
                name: some_string(*name),
            },
            UserChange::Touch { id } => RowChange::Touch { id: *id },
            UserChange::Bind { id, platform_user_id, username } => RowChange::Bind {
                id: *id,
                platform_user_id: platform_user_id@,
                username: username@,
            },
        }
    }
}

/// What to do next in finding out the role of a user.
#[derive(Debug, PartialEq, Eq)]
pub enum AuthorizeStep {
    /// Look for a pending row with the username.
    LookForUsername,
    /// The user is not known: there is no role.
    Unknown,
    /// Make the change; the user has the stored role.
    Known { change: UserChange, role: String },
}

/// What the next step is.
pub enum Step {
    LookForUsername,
    Unknown,
    Known { change: RowChange, role: Seq<char> },
}

impl View for AuthorizeStep {
    type V = Step;

    open spec fn view(&self) -> Step {
        match self {
            AuthorizeStep::LookForUsername => Step::LookForUsername,
            AuthorizeStep::Unknown => Step::Unknown,
            AuthorizeStep::Known { change, role } => Step::Known { change: change@, role: role@ },
        }
    }
}

/// The step after the row of the user id was looked for. A known user keeps the role, and the row
/// gets the username that the user goes by now.
pub open spec fn step_after_direct(
    found: Option<(i64, Seq<char>, Option<Seq<char>>)>,
    username: Option<Seq<char>>,
) -> Step {
    match found {
        Some((id, role, stored)) => Step::Known {
            change: if stored != username {
                RowChange::Rename { id, name: username }
            } else {
                RowChange::Touch { id }
            },
            role,
        },
        None => if username is Some {
            Step::LookForUsername
        } else {
            Step::Unknown
        },
    }
}

/// The step after the pending row of the username was looked for. A pending row is bound to the
/// user id.
pub open spec fn step_after_pending(
    found: Option<(i64, Seq<char>)>,
    platform_user_id: Seq<char>,
    username: Seq<char>,
) -> Step {
    match found {
        Some((id, role)) => Step::Known {
            change: RowChange::Bind { id, platform_user_id, username },
            role,
        },
        None => Step::Unknown,
    }
}

/// What a stored user is.
pub open spec fn stored_view(found: Option<StoredUser>) -> Option<
    (i64, Seq<char>, Option<Seq<char>>),
> {
    match found {
        Some(u) => Some((u.id, u.role@, some_string(u.username))),
        None => None,
    }
}

/// What a pending user is.
pub open spec fn pending_view(found: Option<PendingUser>) -> Option<(i64, Seq<char>)> {
    match found {
        Some(u) => Some((u.id, u.role@)),
        None => None,
    }
}

/// Whether two optional texts are equal.
fn same_optional(a: &Option<String>, b: Option<&str>) -> (r: bool)
    ensures
        r == (some_string(*a) == some_text(b)),
{
    match (a, b) {
        (Some(x), Some(y)) => same_text(x.as_str(), y),
        (None, None) => true,
        (Some(_), None) => false,
        (None, Some(_)) => false,
    }
}

/// An owned copy of an optional text.
pub fn owned(s: Option<&str>) -> (r: Option<String>)
    ensures
        some_string(r) == some_text(s),
{
    match s {
        Some(t) => Some(t.to_owned()),
        None => None,
    }
}

/// Decides what to do after the row of the user id was looked for.
pub fn after_direct_lookup(found: Option<StoredUser>, username: Option<&str>) -> (r: AuthorizeStep)
    ensures
        r@ == step_after_direct(stored_view(found), some_text(username)),
{
    match found {
        Some(user) => {
            let change = if same_optional(&user.username, username) {
                UserChange::Touch { id: user.id }
            } else {
                UserChange::Rename { id: user.id, name: owned(username) }
            };
            AuthorizeStep::Known { change, role: user.role }
        },
        None => match username {
            Some(_) => AuthorizeStep::LookForUsername,
            None => AuthorizeStep::Unknown,
        },
    }
}

/// Decides what to do after the pending row of the username was looked for.
pub fn after_pending_lookup(
    found: Option<PendingUser>,
    platform_user_id: &str,
    username: &str,
) -> (r: AuthorizeStep)
    ensures
        r@ == step_after_pending(pending_view(found), platform_user_id@, username@),
{
    match found {
        Some(user) => AuthorizeStep::Known {
            change: UserChange::Bind {
                id: user.id,
                platform_user_id: platform_user_id.to_owned(),
                username: username.to_owned(),
            },
            role: user.role,
        },
        None => AuthorizeStep::Unknown,
    }
}

/// The role that a step settles, if it settles one: none for an unknown user, and otherwise the
/// stored role or the message that it is not a role.
pub fn settled_role(step: &AuthorizeStep) -> (r: Result<Option<UserRole>, String>)
    ensures
        match step@ {
            Step::Known { role, .. } => match r {
                Ok(found) => found is Some && role_named(role) == found,
                Err(m) => role_named(role) is None && m@ == "invalid stored user role: "@ + role,
            },
            _ => r matches Ok(found) && found is None,
        },
{
    match step {
        AuthorizeStep::Known { change: _, role } => match UserRole::from_str(role.as_str()) {
            Ok(known) => Ok(Some(known)),
            Err(m) => Err(m),
        },
        _ => Ok(None),
    }
}

// ---------------------------------------------------------------------------
// Giving a role
// ---------------------------------------------------------------------------

/// Which row a role is given to.
#[derive(Debug, PartialEq, Eq)]
pub enum RoleTarget {
    /// The row of the user id, which gets the username too.
    UserId(String),
    /// The pending row of the username.
    Username(String),
}

/// Which row a role is given to.
pub enum Target {
    UserId(Seq<char>),
    Username(Seq<char>),
}

impl View for RoleTarget {
    type V = Target;

    open spec fn view(&self) -> Target {
        match self {
            RoleTarget::UserId(id) => Target::UserId(id@),
            RoleTarget::Username(name) => Target::Username(name@),
        }
    }
}

/// The row that a role is given to: that of the user id if there is one, else the pending row of
/// the username.
pub open spec fn target_of(
    platform_user_id: Option<Seq<char>>,
    username: Option<Seq<char>>,
) -> Option<Target> {
    match platform_user_id {
        Some(id) => Some(Target::UserId(id)),
        None => match username {
            Some(name) => Some(Target::Username(name)),
            None => None,
        },
    }
}

/// Decides which row a role is given to.
pub fn upsert_target(platform_user_id: Option<&str>, username: Option<&str>) -> (r: Result<
    RoleTarget,
    String,
>)
    ensures
        match r {
            Ok(t) => target_of(some_text(platform_user_id), some_text(username)) == Some(t@),
            Err(m) => target_of(some_text(platform_user_id), some_text(username)) is None && m@
                == "upsert_user requires a platform_user_id or username"@,
        },
{
    match platform_user_id {
        Some(id) => Ok(RoleTarget::UserId(id.to_owned())),
        None => match username {
            Some(name) => Ok(RoleTarget::Username(name.to_owned())),
            None => Err("upsert_user requires a platform_user_id or username".to_owned()),
        },
    }
}

/// Whether a row has to be made because there was none to update.
pub fn needs_insert(updated_rows: usize) -> (r: bool)
    ensures
        r == (updated_rows == 0),
{
    updated_rows == 0
}

// ---------------------------------------------------------------------------
// What the decisions do to the table
// ---------------------------------------------------------------------------

/// The row after a change at a time.
pub open spec fn changed_row(row: UserRow, change: RowChange, now: Seq<char>) -> UserRow {
    match change {
        RowChange::Rename { id, name } => if row.id == id {
            UserRow { username: name, updated_at: now, ..row }
        } else {
            row
        },
        RowChange::Touch { id } => if row.id == id {
            UserRow { updated_at: now, ..row }
        } else {
            row
        },
        RowChange::Bind { id, platform_user_id, username } => if row.id == id {
            UserRow {
                platform_user_id: Some(platform_user_id),
                username: Some(username),
                updated_at: now,
                ..row
            }
        } else {
            row
        },
    }
}

/// The table after a change of one row.
pub open spec fn changed(table: Seq<UserRow>, change: RowChange, now: Seq<char>) -> Seq<UserRow> {
    table.map_values(|row: UserRow| changed_row(row, change, now))
}

/// What looking for the row of a user id finds.
pub open spec fn find_user(table: Seq<UserRow>, platform: Seq<char>, user_id: Seq<char>) -> Option<
    (i64, Seq<char>, Option<Seq<char>>),
> {
    match row_of_user(table, platform, user_id, 0) {
        Some(i) => Some((table[i].id, table[i].role, table[i].username)),
        None => None,
    }
}

/// What looking for the pending row of a username finds.
pub open spec fn find_pending(
    table: Seq<UserRow>,
    platform: Seq<char>,
    username: Seq<char>,
) -> Option<(i64, Seq<char>)> {
    match row_awaiting(table, platform, username, 0) {
        Some(i) => Some((table[i].id, table[i].role)),
        None => None,
    }
}

/// The step that settles the role of a user, given the table.
pub open spec fn settling_step(
    table: Seq<UserRow>,
    platform: Seq<char>,
    user_id: Seq<char>,
    username: Option<Seq<char>>,
) -> Step {
    match step_after_direct(find_user(table, platform, user_id), username) {
        Step::LookForUsername => step_after_pending(
            find_pending(table, platform, username->0),
            user_id,
            username->0,
        ),
        other => other,
    }
}

/// The table after a message from a user, and the stored role of that user.
pub open spec fn authorized(
    table: Seq<UserRow>,
    platform: Seq<char>,
    user_id: Seq<char>,
    username: Option<Seq<char>>,
    now: Seq<char>,
) -> (Seq<UserRow>, Option<Seq<char>>) {
    match settling_step(table, platform, user_id, username) {
        Step::Known { change, role } => (changed(table, change, now), Some(role)),
        _ => (table, None),
    }
}

/// The row that is updated when a role is given to a target.
pub open spec fn given_row(
    row: UserRow,
    platform: Seq<char>,
    target: Target,
    username: Option<Seq<char>>,
    role: UserRole,
    now: Seq<char>,
) -> UserRow {
    match target {
        Target::UserId(id) => if has_user_id(row, platform, id) {
            UserRow { username, role: role_name(role), updated_at: now, ..row }
        } else {
            row
        },
        Target::Username(name) => if awaits(row, platform, name) {
            UserRow { role: role_name(role), updated_at: now, ..row }
        } else {
            row
        },
    }
}

/// The row that is made when a role is given to a target without one.
pub open spec fn new_row(
    id: i64,
    platform: Seq<char>,
    target: Target,
    username: Option<Seq<char>>,
    role: UserRole,
    now: Seq<char>,
) -> UserRow {
    UserRow {
        id,
        platform,
        platform_user_id: match target {
            Target::UserId(user_id) => Some(user_id),
            Target::Username(_) => None,
        },
        username: match target {
            Target::UserId(_) => username,
            Target::Username(name) => Some(name),
        },
        role: role_name(role),
        created_at: now,
        updated_at: now,
    }
}

/// Whether the table has a row for the target.
pub open spec fn has_target(table: Seq<UserRow>, platform: Seq<char>, target: Target) -> bool {
    match target {
        Target::UserId(id) => row_of_user(table, platform, id, 0) is Some,
        Target::Username(name) => row_awaiting(table, platform, name, 0) is Some,
    }
}

/// The table after a role was given to a target; `id` is that of a new row.
pub open spec fn given(
    table: Seq<UserRow>,
    id: i64,
    platform: Seq<char>,
    target: Target,
    username: Option<Seq<char>>,
    role: UserRole,
    now: Seq<char>,
) -> Seq<UserRow> {
    if has_target(table, platform, target) {
        table.map_values(|row: UserRow| given_row(row, platform, target, username, role, now))
    } else {
        table.push(new_row(id, platform, target, username, role, now))
    }
}

pub proof fn lemma_row_of_user(table: Seq<UserRow>, platform: Seq<char>, user_id: Seq<char>, i: int)
    requires
        0 <= i,
    ensures
        row_of_user(table, platform, user_id, i) matches Some(k) ==> i <= k < table.len()
            && has_user_id(table[k], platform, user_id),
        row_of_user(table, platform, user_id, i) is None ==> forall|k: int|
            i <= k < table.len() ==> !has_user_id(#[trigger] table[k], platform, user_id),
    decreases table.len() - i,
{
    if i < table.len() && !has_user_id(table[i], platform, user_id) {
        lemma_row_of_user(table, platform, user_id, i + 1);
    }
}

pub proof fn lemma_row_awaiting(table: Seq<UserRow>, platform: Seq<char>, username: Seq<char>, i: int)
    requires
        0 <= i,
    ensures
        row_awaiting(table, platform, username, i) matches Some(k) ==> i <= k < table.len()
            && awaits(table[k], platform, username),
        row_awaiting(table, platform, username, i) is None ==> forall|k: int|
            i <= k < table.len() ==> !awaits(#[trigger] table[k], platform, username),
    decreases table.len() - i,
{
    if i < table.len() && !awaits(table[i], platform, username) {
        lemma_row_awaiting(table, platform, username, i + 1);
    }
}

/// In a table that is in order, a row with the user id is the row of that user.
pub proof fn lemma_the_row_of_user(
    table: Seq<UserRow>,
    platform: Seq<char>,
    user_id: Seq<char>,
    k: int,
)
    requires
        table_ok(table),
        0 <= k < table.len(),
        has_user_id(table[k], platform, user_id),
    ensures
        row_of_user(table, platform, user_id, 0) == Some(k),
{
    lemma_row_of_user(table, platform, user_id, 0);
    let found = row_of_user(table, platform, user_id, 0)->0;
    if found < k {
        assert(table[found].platform == table[k].platform);
    } else if k < found {
        assert(table[k].platform == table[found].platform);
    }
}

/// In a table that is in order, a row that awaits the username is the one that does.
pub proof fn lemma_the_row_awaiting(
    table: Seq<UserRow>,
    platform: Seq<char>,
    username: Seq<char>,
    k: int,
)
    requires
        table_ok(table),
        0 <= k < table.len(),
        awaits(table[k], platform, username),
    ensures
        row_awaiting(table, platform, username, 0) == Some(k),
{
    lemma_row_awaiting(table, platform, username, 0);
    let found = row_awaiting(table, platform, username, 0)->0;
    if found < k {
        assert(table[found].platform == table[k].platform);
    } else if k < found {
        assert(table[k].platform == table[found].platform);
    }
}

/// A message from a user keeps the table in order, and changes neither a role nor the set of
/// rows.
pub proof fn authorizing_keeps_the_table(
    table: Seq<UserRow>,
    platform: Seq<char>,
    user_id: Seq<char>,
    username: Option<Seq<char>>,
    now: Seq<char>,
)
    requires
        table_ok(table),
    ensures
        table_ok(authorized(table, platform, user_id, username, now).0),
        authorized(table, platform, user_id, username, now).0.len() == table.len(),
        forall|i: int|
            #![trigger authorized(table, platform, user_id, username, now).0[i]]
            #![trigger table[i]]
            0 <= i < table.len() ==> {
                let after = authorized(table, platform, user_id, username, now).0[i];
                after.id == table[i].id && after.role == table[i].role && after.platform
                    == table[i].platform && after.created_at == table[i].created_at
            },
{
    let after = authorized(table, platform, user_id, username, now).0;
    lemma_row_of_user(table, platform, user_id, 0);
    if username is Some {
        lemma_row_awaiting(table, platform, username->0, 0);
    }
    if settling_step(table, platform, user_id, username) is Known {
        let change = settling_step(table, platform, user_id, username)->change;
        assert forall|i: int, j: int| 0 <= i < j < after.len() implies {
            let a = #[trigger] after[i];
            let b = #[trigger] after[j];
            &&& a.id != b.id
            &&& !(a.platform == b.platform && a.platform_user_id is Some && a.platform_user_id
                == b.platform_user_id)
            &&& !(a.platform == b.platform && a.platform_user_id is None && b.platform_user_id
                is None && a.username is Some && a.username == b.username)
        } by {
            let a = table[i];
            let b = table[j];
            assert(after[i] == changed_row(a, change, now));
            assert(after[j] == changed_row(b, change, now));
            assert(a.id != b.id);
        }
        assert forall|i: int| 0 <= i < after.len() implies role_named(
            (#[trigger] after[i]).role,
        ) is Some by {
            assert(after[i] == changed_row(table[i], change, now));
            assert(role_named(table[i].role) is Some);
        }
    }
}

/// The role of a known user is always a valid one.
pub proof fn authorized_role_is_valid(
    table: Seq<UserRow>,
    platform: Seq<char>,
    user_id: Seq<char>,
    username: Option<Seq<char>>,
    now: Seq<char>,
)
    requires
        table_ok(table),
    ensures
        authorized(table, platform, user_id, username, now).1 matches Some(role) ==> role_named(
            role,
        ) is Some,
{
    lemma_row_of_user(table, platform, user_id, 0);
    if username is Some {
        lemma_row_awaiting(table, platform, username->0, 0);
    }
}

/// A user without a row, by id or by pending username, gets no role and leaves the table as it
/// is.
pub proof fn unknown_users_are_rejected(
    table: Seq<UserRow>,
    platform: Seq<char>,
    user_id: Seq<char>,
    username: Option<Seq<char>>,
    now: Seq<char>,
)
    requires
        forall|i: int|
            0 <= i < table.len() ==> !has_user_id(#[trigger] table[i], platform, user_id),
        username matches Some(name) ==> forall|i: int|
            0 <= i < table.len() ==> !awaits(#[trigger] table[i], platform, name),
    ensures
        authorized(table, platform, user_id, username, now) == (table, None::<Seq<char>>),
{
    lemma_row_of_user(table, platform, user_id, 0);
    if username is Some {
        lemma_row_awaiting(table, platform, username->0, 0);
    }
}

/// Giving a role keeps the table in order.
pub proof fn giving_a_role_keeps_the_table(
    table: Seq<UserRow>,
    id: i64,
    platform: Seq<char>,
    target: Target,
    username: Option<Seq<char>>,
    role: UserRole,
    now: Seq<char>,
)
    requires
        table_ok(table),
        forall|i: int| 0 <= i < table.len() ==> (#[trigger] table[i]).id != id,
    ensures
        table_ok(given(table, id, platform, target, username, role, now)),
{
    let after = given(table, id, platform, target, username, role, now);
    crate::users::stored_role_is_found(role);
    match target {
        Target::UserId(user_id) => {
            lemma_row_of_user(table, platform, user_id, 0);
        },
        Target::Username(name) => {
            lemma_row_awaiting(table, platform, name, 0);
        },
    }
    if has_target(table, platform, target) {
        assert forall|i: int, j: int| 0 <= i < j < after.len() implies {
            let a = #[trigger] after[i];
            let b = #[trigger] after[j];
            &&& a.id != b.id
            &&& !(a.platform == b.platform && a.platform_user_id is Some && a.platform_user_id
                == b.platform_user_id)
            &&& !(a.platform == b.platform && a.platform_user_id is None && b.platform_user_id
                is None && a.username is Some && a.username == b.username)
        } by {
            assert(after[i] == given_row(table[i], platform, target, username, role, now));
            assert(after[j] == given_row(table[j], platform, target, username, role, now));
        }
        assert forall|i: int| 0 <= i < after.len() implies role_named(
            (#[trigger] after[i]).role,
        ) is Some by {
            assert(after[i] == given_row(table[i], platform, target, username, role, now));
            assert(role_named(table[i].role) is Some);
        }
    } else {
        let new = new_row(id, platform, target, username, role, now);
        assert forall|i: int, j: int| 0 <= i < j < after.len() implies {
            let a = #[trigger] after[i];
            let b = #[trigger] after[j];
            &&& a.id != b.id
            &&& !(a.platform == b.platform && a.platform_user_id is Some && a.platform_user_id
                == b.platform_user_id)
            &&& !(a.platform == b.platform && a.platform_user_id is None && b.platform_user_id
                is None && a.username is Some && a.username == b.username)
        } by {
            assert(after[i] == table[i]);
            if j < table.len() {
                assert(after[j] == table[j]);
            } else {
                assert(after[j] == new);
                match target {
                    Target::UserId(user_id) => {
                        assert(!has_user_id(table[i], platform, user_id));
                    },
                    Target::Username(name) => {
                        assert(!awaits(table[i], platform, name));
                    },
                }
            }
        }
        assert forall|i: int| 0 <= i < after.len() implies role_named(
            (#[trigger] after[i]).role,
        ) is Some by {
            if i < table.len() {
                assert(after[i] == table[i]);
            }
        }
    }
}

/// A user to whose id a role was given has that role at the next message, whatever username they
/// go by.
pub proof fn role_given_to_an_id_is_held(
    table: Seq<UserRow>,
    id: i64,
    platform: Seq<char>,
    user_id: Seq<char>,
    username: Option<Seq<char>>,
    role: UserRole,
    now: Seq<char>,
    seen_as: Option<Seq<char>>,
    later: Seq<char>,
)
    requires
        table_ok(table),
    ensures
        authorized(
            given(table, id, platform, Target::UserId(user_id), username, role, now),
            platform,
            user_id,
            seen_as,
            later,
        ).1 == Some(role_name(role)),
{
    let target = Target::UserId(user_id);
    let after = given(table, id, platform, target, username, role, now);
    lemma_row_of_user(table, platform, user_id, 0);
    lemma_row_of_user(after, platform, user_id, 0);
    if has_target(table, platform, target) {
        let k = row_of_user(table, platform, user_id, 0)->0;
        assert(has_user_id(after[k], platform, user_id));
        let f = row_of_user(after, platform, user_id, 0)->0;
        assert(after[f] == given_row(table[f], platform, target, username, role, now));
    } else {
        assert(has_user_id(after[table.len() as int], platform, user_id));
        let f = row_of_user(after, platform, user_id, 0)->0;
        if f < table.len() {
            assert(after[f] == table[f]);
        }
    }
}

/// A user whose username was given a role before their first message has that role at that
/// message, and at every later one whatever username they go by.
pub proof fn role_given_to_a_username_is_taken_up(
    table: Seq<UserRow>,
    id: i64,
    platform: Seq<char>,
    name: Seq<char>,
    role: UserRole,
    now: Seq<char>,
    user_id: Seq<char>,
    later: Seq<char>,
    seen_as: Option<Seq<char>>,
    last: Seq<char>,
)
    requires
        table_ok(table),
        forall|i: int| 0 <= i < table.len() ==> (#[trigger] table[i]).id != id,
        forall|i: int|
            0 <= i < table.len() ==> !has_user_id(#[trigger] table[i], platform, user_id),
    ensures
        ({
            let pending = given(table, id, platform, Target::Username(name), None, role, now);
            let first = authorized(pending, platform, user_id, Some(name), later);
            let second = authorized(first.0, platform, user_id, seen_as, last);
            first.1 == Some(role_name(role)) && second.1 == Some(role_name(role))
        }),
{
    let target = Target::Username(name);
    let pending = given(table, id, platform, target, None, role, now);
    giving_a_role_keeps_the_table(table, id, platform, target, None, role, now);
    lemma_row_awaiting(table, platform, name, 0);
    lemma_row_of_user(pending, platform, user_id, 0);
    lemma_row_awaiting(pending, platform, name, 0);
    let k = if has_target(table, platform, target) {
        row_awaiting(table, platform, name, 0)->0
    } else {
        table.len() as int
    };
    assert(awaits(pending[k], platform, name));
    assert forall|i: int| 0 <= i < pending.len() implies !has_user_id(
        #[trigger] pending[i],
        platform,
        user_id,
    ) by {
        if has_target(table, platform, target) {
            assert(pending[i] == given_row(table[i], platform, target, None, role, now));
            assert(!has_user_id(table[i], platform, user_id));
        } else if i < table.len() {
            assert(pending[i] == table[i]);
            assert(!has_user_id(table[i], platform, user_id));
        }
    }
    lemma_the_row_awaiting(pending, platform, name, k);
    assert(row_of_user(pending, platform, user_id, 0) is None);
    let first = authorized(pending, platform, user_id, Some(name), later).0;
    authorizing_keeps_the_table(pending, platform, user_id, Some(name), later);
    assert(has_user_id(first[k], platform, user_id));
    lemma_the_row_of_user(first, platform, user_id, k);
}

/// The stored role of the user with an id.
pub open spec fn role_of(table: Seq<UserRow>, platform: Seq<char>, user_id: Seq<char>) -> Option<
    Seq<char>,
> {
    match row_of_user(table, platform, user_id, 0) {
        Some(i) => Some(table[i].role),
        None => None,
    }
}

/// Giving a role to one user leaves the roles of the others as they are.
pub proof fn giving_a_role_keeps_other_roles(
    table: Seq<UserRow>,
    id: i64,
    platform: Seq<char>,
    target: Target,
    username: Option<Seq<char>>,
    role: UserRole,
    now: Seq<char>,
    other_platform: Seq<char>,
    other: Seq<char>,
)
    requires
        table_ok(table),
        target is Username || platform != other_platform || target->UserId_0 != other,
    ensures
        role_of(
            given(table, id, platform, target, username, role, now),
            other_platform,
            other,
        ) == role_of(table, other_platform, other),
{
    let after = given(table, id, platform, target, username, role, now);
    lemma_row_of_user(table, other_platform, other, 0);
    lemma_row_of_user(after, other_platform, other, 0);
    let had = has_target(table, platform, target);
    assert forall|i: int| 0 <= i < table.len() implies has_user_id(
        #[trigger] after[i],
        other_platform,
        other,
    ) == has_user_id(table[i], other_platform, other) by {
        if had {
            assert(after[i] == given_row(table[i], platform, target, username, role, now));
        } else {
            assert(after[i] == table[i]);
        }
    }
    match row_of_user(table, other_platform, other, 0) {
        Some(k) => {
            assert(has_user_id(after[k], other_platform, other));
            let f = row_of_user(after, other_platform, other, 0)->0;
            if f < table.len() {
                assert(has_user_id(table[f], other_platform, other));
                lemma_the_row_of_user(table, other_platform, other, f);
                if had {
                    assert(after[f] == given_row(table[f], platform, target, username, role, now));
                } else {
                    assert(after[f] == table[f]);
                }
            }
        },
        None => {
            match row_of_user(after, other_platform, other, 0) {
                Some(f) => {
                    if f < table.len() {
                        assert(has_user_id(table[f], other_platform, other));
                    }
                },
                None => {},
            }
        },
    }
}

/// A user who is seeded with a role.
pub struct Seed {
    pub platform: Seq<char>,
    pub user_id: Seq<char>,
    pub role: UserRole,
}

/// The table after the first `n` seeds were given their roles; the ids are those of new rows.
pub open spec fn seeded(
    table: Seq<UserRow>,
    seeds: Seq<Seed>,
    ids: Seq<i64>,
    now: Seq<char>,
    n: nat,
) -> Seq<UserRow>
    decreases n,
{
    if n == 0 {
        table
    } else {
        let s = seeds[n - 1];
        given(
            seeded(table, seeds, ids, now, (n - 1) as nat),
            ids[n - 1],
            s.platform,
            Target::UserId(s.user_id),
            None,
            s.role,
            now,
        )
    }
}

/// Whether the ids are new to the table and differ from each other.
pub open spec fn fresh_ids(table: Seq<UserRow>, ids: Seq<i64>) -> bool {
    &&& forall|i: int, j: int|
        0 <= i < table.len() && 0 <= j < ids.len() ==> (#[trigger] table[i]).id
            != #[trigger] ids[j]
    &&& forall|i: int, j: int| 0 <= i < j < ids.len() ==> #[trigger] ids[i] != #[trigger] ids[j]
}

proof fn lemma_seeding_keeps_the_table(
    table: Seq<UserRow>,
    seeds: Seq<Seed>,
    ids: Seq<i64>,
    now: Seq<char>,
    n: nat,
)
    requires
        table_ok(table),
        fresh_ids(table, ids),
        n <= seeds.len(),
        seeds.len() <= ids.len(),
    ensures
        table_ok(seeded(table, seeds, ids, now, n)),
        forall|i: int, j: int|
            0 <= i < seeded(table, seeds, ids, now, n).len() && n <= j < ids.len() ==> (
            #[trigger] seeded(table, seeds, ids, now, n)[i]).id != #[trigger] ids[j],
    decreases n,
{
    if n > 0 {
        let m = (n - 1) as nat;
        lemma_seeding_keeps_the_table(table, seeds, ids, now, m);
        let before = seeded(table, seeds, ids, now, m);
        let s = seeds[n - 1];
        let target = Target::UserId(s.user_id);
        assert forall|i: int| 0 <= i < before.len() implies (#[trigger] before[i]).id
            != ids[n - 1] by {
            assert(before[i].id != ids[n - 1]);
        }
        giving_a_role_keeps_the_table(before, ids[n - 1], s.platform, target, None, s.role, now);
        let after = seeded(table, seeds, ids, now, n);
        assert forall|i: int, j: int| 0 <= i < after.len() && n <= j < ids.len() implies (
        #[trigger] after[i]).id != #[trigger] ids[j] by {
            if has_target(before, s.platform, target) {
                assert(after[i] == given_row(before[i], s.platform, target, None, s.role, now));
                assert(before[i].id != ids[j]);
            } else if i < before.len() {
                assert(after[i] == before[i]);
                assert(before[i].id != ids[j]);
            } else {
                assert(after[i].id == ids[n - 1]);
                assert(ids[n - 1] != ids[j]);
            }
        }
    }
}

/// After seeding every seeded user holds the role of their last seed.
pub proof fn seeded_users_hold_their_roles(
    table: Seq<UserRow>,
    seeds: Seq<Seed>,
    ids: Seq<i64>,
    now: Seq<char>,
    n: nat,
    k: int,
)
    requires
        table_ok(table),
        fresh_ids(table, ids),
        n <= seeds.len(),
        seeds.len() <= ids.len(),
        0 <= k < n,
        forall|j: int|
            k < j < n ==> (#[trigger] seeds[j]).platform != seeds[k].platform || seeds[j].user_id
                != seeds[k].user_id,
    ensures
        role_of(seeded(table, seeds, ids, now, n), seeds[k].platform, seeds[k].user_id) == Some(
            role_name(seeds[k].role),
        ),
    decreases n,
{
    let m = (n - 1) as nat;
    let before = seeded(table, seeds, ids, now, m);
    lemma_seeding_keeps_the_table(table, seeds, ids, now, m);
    let s = seeds[n - 1];
    if k == n - 1 {
        role_given_to_an_id_is_held(
            before,
            ids[n - 1],
            s.platform,
            s.user_id,
            None,
            s.role,
            now,
            None,
            now,
        );
    } else {
        seeded_users_hold_their_roles(table, seeds, ids, now, m, k);
        giving_a_role_keeps_other_roles(
            before,
            ids[n - 1],
            s.platform,
            Target::UserId(s.user_id),
            None,
            s.role,
            now,
            seeds[k].platform,
            seeds[k].user_id,
        );
    }
}

} // verus!
