//! The tables of the database: whether they are made, kept or made anew, and what becomes of the
//! rows of the table of users.
use vstd::prelude::*;

use crate::encode::{owned_words, word_texts};
use crate::text::{same_text, texts};

verus! {

/// A column of a table, as the database describes it.
pub struct Column {
    pub name: String,
    pub not_null: bool,
}

/// What a column of a table is.
pub struct ColumnView {
    pub name: Seq<char>,
    pub not_null: bool,
}

impl View for Column {
    type V = ColumnView;

    open spec fn view(&self) -> ColumnView {
        ColumnView { name: self.name@, not_null: self.not_null }
    }
}

/// What the columns of a table are.
pub open spec fn column_views(columns: Seq<Column>) -> Seq<ColumnView> {
    columns.map_values(|c: Column| c@)
}

/// The first column with a name from position `i` on.
pub open spec fn column_from(columns: Seq<ColumnView>, name: Seq<char>, i: int) -> Option<int>
    decreases columns.len() - i,
{
    if i < 0 || i >= columns.len() {
        None
    } else if columns[i].name == name {
        Some(i)
    } else {
        column_from(columns, name, i + 1)
    }
}

/// Whether a table has a column.
pub open spec fn has_column(columns: Seq<ColumnView>, name: Seq<char>) -> bool {
    column_from(columns, name, 0) is Some
}

/// The first column with a name.
fn column_position(columns: &Vec<Column>, name: &str) -> (r: Option<usize>)
    ensures
        match r {
            Some(i) => column_from(column_views(columns@), name@, 0) == Some(i as int) && i
                < columns.len(),
            None => column_from(column_views(columns@), name@, 0) is None,
        },
{
    let ghost all = column_views(columns@);
    let mut i: usize = 0;
    while i < columns.len()
        invariant
            i <= columns.len(),
            all == column_views(columns@),
            column_from(all, name@, 0) == column_from(all, name@, i as int),
        decreases columns.len() - i,
    {
        assert(all[i as int] == columns@[i as int]@);
        if same_text(columns[i].name.as_str(), name) {
            return Some(i);
        }
        i += 1;
    }
    None
}

/// Whether a table has a column.
pub fn table_has_column(columns: &Vec<Column>, column: &str) -> (r: bool)
    ensures
        r == has_column(column_views(columns@), column@),
{
    match column_position(columns, column) {
        Some(_) => true,
        None => false,
    }
}

/// Whether a column may be empty.
pub open spec fn nullable(columns: Seq<ColumnView>, column: Seq<char>) -> bool {
    column_from(columns, column, 0) matches Some(i) && !columns[i].not_null
}

/// Whether a column may be empty.
pub fn column_is_nullable(columns: &Vec<Column>, column: &str) -> (r: bool)
    ensures
        r == nullable(column_views(columns@), column@),
{
    match column_position(columns, column) {
        Some(i) => !columns[i].not_null,
        None => false,
    }
}

/// What is done about the table of users.
#[derive(Clone, Copy, PartialEq, Eq, Structural, Debug)]
pub enum UsersTableStep {
    /// It is made, with its indexes.
    Create,
    /// It is kept, and gets its indexes.
    Index,
    /// It is made anew from its rows, which have usernames or have none.
    Rebuild { with_usernames: bool },
}

/// What is done about the table of users. It is kept if it has usernames, allows rows without a
/// user id, and is strict.
pub open spec fn users_step(columns: Option<Seq<ColumnView>>, strict: bool) -> UsersTableStep {
    match columns {
        None => UsersTableStep::Create,
        Some(c) => if has_column(c, "username"@) && nullable(c, "platform_user_id"@) && strict {
            UsersTableStep::Index
        } else {
            UsersTableStep::Rebuild { with_usernames: has_column(c, "username"@) }
        },
    }
}

/// Decides what is done about the table of users. There are no columns where there is no table.
pub fn ensure_users_table(columns: &Option<Vec<Column>>, strict: bool) -> (r: UsersTableStep)
    ensures
        r == users_step(
            match columns {
                Some(c) => Some(column_views(c@)),
                None => None,
            },
            strict,
        ),
{
    match columns {
        None => UsersTableStep::Create,
        Some(c) => {
            let has_username = table_has_column(c, "username");
            let may_be_empty = column_is_nullable(c, "platform_user_id");
            if has_username && may_be_empty && strict {
                UsersTableStep::Index
            } else {
                UsersTableStep::Rebuild { with_usernames: has_username }
            }
        },
    }
}

/// What the column of usernames is filled from when the table is made anew.
pub open spec fn username_from(with_usernames: bool) -> Seq<char> {
    if with_usernames {
        "username"@
    } else {
        "NULL AS username"@
    }
}

/// What the column of usernames is filled from when the table is made anew.
pub fn username_source(with_usernames: bool) -> (r: &'static str)
    ensures
        r@ == username_from(with_usernames),
{
    if with_usernames {
        "username"
    } else {
        "NULL AS username"
    }
}

/// The columns of the table of users.
pub open spec fn users_columns() -> Seq<Seq<char>> {
    seq![
        "id"@,
        "platform"@,
        "platform_user_id"@,
        "username"@,
        "role"@,
        "created_at"@,
        "updated_at"@,
    ]
}

/// The columns of the table of users.
pub fn users_column_names() -> (r: Vec<String>)
    ensures
        texts(r@) == users_columns(),
{
    let words: [&str; 7] = [
        "id",
        "platform",
        "platform_user_id",
        "username",
        "role",
        "created_at",
        "updated_at",
    ];
    assert(word_texts(words@) == users_columns());
    owned_words(&words)
}

/// What each column is filled from when the table is made anew, in the order of the columns.
pub open spec fn users_sources(with_usernames: bool) -> Seq<Seq<char>> {
    users_columns().update(3, username_from(with_usernames))
}

/// What each column is filled from when the table is made anew, in the order of the columns.
pub fn users_copy_sources(with_usernames: bool) -> (r: Vec<String>)
    ensures
        texts(r@) == users_sources(with_usernames),
{
    let words: [&str; 7] = [
        "id",
        "platform",
        "platform_user_id",
        username_source(with_usernames),
        "role",
        "created_at",
        "updated_at",
    ];
    assert(word_texts(words@) == users_sources(with_usernames));
    owned_words(&words)
}

// ---------------------------------------------------------------------------
// The rows of the table of users
// ---------------------------------------------------------------------------

/// A row of a table: what stands at each column, if anything does.
pub type Row = Map<Seq<char>, Option<Seq<char>>>;

/// A table of users.
#[verifier::ext_equal]
pub struct UsersTable {
    pub columns: Seq<ColumnView>,
    pub strict: bool,
    pub rows: Seq<Row>,
}

/// Whether every row has something or nothing at each column of the table, and at no other, and
/// the table has the columns of users, except perhaps that of usernames.
pub open spec fn users_table(t: UsersTable) -> bool {
    &&& forall|k: int|
        0 <= k < users_columns().len() && k != 3 ==> has_column(
            t.columns,
            #[trigger] users_columns()[k],
        )
    &&& forall|i: int, name: Seq<char>|
        0 <= i < t.rows.len() ==> (#[trigger] t.rows[i].dom().contains(name) <==> has_column(
            t.columns,
            name,
        ))
}

/// What a source gives for a row: nothing, or what stands at the column that it names.
pub open spec fn source_value(row: Row, source: Seq<char>) -> Option<Seq<char>> {
    if source == username_from(false) {
        None
    } else {
        row[source]
    }
}

/// The row that is made from a row when the table is made anew.
pub open spec fn copied_row(row: Row, with_usernames: bool) -> Row {
    Map::new(
        |name: Seq<char>| users_columns().contains(name),
        |name: Seq<char>|
            source_value(row, users_sources(with_usernames)[users_columns().index_of(name)]),
    )
}

/// The columns of a table of users that was just made. The database counts its key among those
/// that may be empty.
pub open spec fn made_columns() -> Seq<ColumnView> {
    users_columns().map_values(
        |name: Seq<char>|
            ColumnView {
                name,
                not_null: name == "platform"@ || name == "role"@ || name == "created_at"@ || name
                    == "updated_at"@,
            },
    )
}

/// The table of users after what `users_step` decides was done, where the database takes the rows.
pub open spec fn ensured_users(t: Option<UsersTable>) -> UsersTable {
    match t {
        None => UsersTable { columns: made_columns(), strict: true, rows: Seq::empty() },
        Some(t) => match users_step(Some(t.columns), t.strict) {
            UsersTableStep::Rebuild { with_usernames } => UsersTable {
                columns: made_columns(),
                strict: true,
                rows: t.rows.map_values(|row: Row| copied_row(row, with_usernames)),
            },
            _ => t,
        },
    }
}

proof fn lemma_column_from(columns: Seq<ColumnView>, name: Seq<char>, i: int)
    requires
        0 <= i,
    ensures
        column_from(columns, name, i) matches Some(k) ==> i <= k < columns.len() && columns[k].name
            == name,
        column_from(columns, name, i) is None ==> forall|j: int|
            i <= j < columns.len() ==> (#[trigger] columns[j]).name != name,
    decreases columns.len() - i,
{
    if i < columns.len() && columns[i].name != name {
        lemma_column_from(columns, name, i + 1);
    }
}

/// The columns of users have seven names, of which no two are the same, and none is the source of
/// nothing.
proof fn lemma_users_columns()
    ensures
        forall|i: int, j: int|
            0 <= i < j < users_columns().len() ==> #[trigger] users_columns()[i]
                != #[trigger] users_columns()[j],
        forall|i: int|
            0 <= i < users_columns().len() ==> #[trigger] users_columns()[i] != username_from(
                false,
            ),
{
    reveal_strlit("id");
    reveal_strlit("platform");
    reveal_strlit("platform_user_id");
    reveal_strlit("username");
    reveal_strlit("role");
    reveal_strlit("created_at");
    reveal_strlit("updated_at");
    reveal_strlit("NULL AS username");
    assert("created_at"@[0] == 'c');
    assert("updated_at"@[0] == 'u');
    assert("id"@.len() == 2);
    assert("role"@.len() == 4);
    assert("username"@.len() == 8);
    assert("username"@[0] == 'u');
    assert("platform"@.len() == 8);
    assert("platform"@[0] == 'p');
    assert("platform_user_id"@.len() == 16);
    assert("platform_user_id"@[0] == 'p');
    assert("NULL AS username"@.len() == 16);
    assert("NULL AS username"@[0] == 'N');
}

/// A table that was just made has the columns of users and no others.
proof fn lemma_made_columns(name: Seq<char>)
    ensures
        has_column(made_columns(), name) <==> users_columns().contains(name),
        nullable(made_columns(), "platform_user_id"@),
        has_column(made_columns(), "username"@),
{
    let made = made_columns();
    lemma_users_columns();
    lemma_column_from(made, name, 0);
    if users_columns().contains(name) {
        let k = users_columns().index_of(name);
        assert(made[k].name == name);
    }
    if has_column(made, name) {
        let k = column_from(made, name, 0)->0;
        assert(users_columns()[k] == name);
    }
    lemma_column_from(made, "platform_user_id"@, 0);
    lemma_column_from(made, "username"@, 0);
    assert(made[2].name == "platform_user_id"@);
    assert(made[3].name == "username"@);
    let k = column_from(made, "platform_user_id"@, 0)->0;
    assert(users_columns()[k] == users_columns()[2]);
    assert(users_columns()[0] != users_columns()[2]);
    assert(users_columns()[1] != users_columns()[2]);
    assert(users_columns()[2] != users_columns()[4]);
    assert(users_columns()[2] != users_columns()[5]);
    assert(users_columns()[2] != users_columns()[6]);
}

/// Making the table of users ready keeps every row, and in it what stands at each column of users;
/// there is no username where there was no column for it. A table that did not exist gets no rows.
/// The table is strict then, has usernames, and allows rows without a user id.
pub proof fn users_survive(t: Option<UsersTable>)
    requires
        t matches Some(table) ==> users_table(table),
    ensures
        ({
            let after = ensured_users(t);
            &&& users_table(after)
            &&& after.strict
            &&& has_column(after.columns, "username"@)
            &&& nullable(after.columns, "platform_user_id"@)
            &&& t is None ==> after.rows.len() == 0
            &&& t matches Some(table) ==> after.rows.len() == table.rows.len() && forall|
                i: int,
                k: int,
            |
                0 <= i < table.rows.len() && 0 <= k < users_columns().len()
                    ==> #[trigger] after.rows[i][#[trigger] users_columns()[k]] == if has_column(
                    table.columns,
                    users_columns()[k],
                ) {
                    table.rows[i][users_columns()[k]]
                } else {
                    None
                }
        }),
{
    let after = ensured_users(t);
    lemma_users_columns();
    lemma_made_columns("username"@);
    match t {
        None => {
            lemma_made_is_users_table(after);
        },
        Some(table) => {
            match users_step(Some(table.columns), table.strict) {
                UsersTableStep::Rebuild { with_usernames } => {
                    lemma_made_is_users_table(after);
                    assert forall|i: int, k: int|
                        0 <= i < table.rows.len() && 0 <= k < users_columns().len() implies (
                    #[trigger] after.rows[i][#[trigger] users_columns()[k]] == if has_column(
                        table.columns,
                        users_columns()[k],
                    ) {
                        table.rows[i][users_columns()[k]]
                    } else {
                        None
                    }) by {
                        lemma_copied(table.rows[i], with_usernames, k);
                    }
                },
                _ => {
                    assert forall|i: int, k: int|
                        0 <= i < table.rows.len() && 0 <= k < users_columns().len() implies (
                    #[trigger] after.rows[i][#[trigger] users_columns()[k]] == if has_column(
                        table.columns,
                        users_columns()[k],
                    ) {
                        table.rows[i][users_columns()[k]]
                    } else {
                        None
                    }) by {
                        if k == 3 {
                            assert(users_columns()[3] == "username"@);
                        }
                    }
                },
            }
        },
    }
}

/// What stands at a column of users in a copied row.
proof fn lemma_copied(row: Row, with_usernames: bool, k: int)
    requires
        0 <= k < users_columns().len(),
    ensures
        copied_row(row, with_usernames)[users_columns()[k]] == if k == 3 && !with_usernames {
            None
        } else {
            row[users_columns()[k]]
        },
{
    lemma_users_columns();
    let name = users_columns()[k];
    let at = users_columns().index_of(name);
    assert(users_columns().contains(name));
    assert(users_columns()[at] == users_columns()[k]);
    assert(at == k) by {
        if at < k {
            assert(users_columns()[at] != users_columns()[k]);
        } else if k < at {
            assert(users_columns()[k] != users_columns()[at]);
        }
    }
    assert(users_columns()[3] == "username"@);
    assert(users_columns()[3] != username_from(false));
}

/// A table with the columns of a table that was just made, and rows that were copied, is a table
/// of users.
proof fn lemma_made_is_users_table(t: UsersTable)
    requires
        t.columns == made_columns(),
        forall|i: int|
            0 <= i < t.rows.len() ==> (#[trigger] t.rows[i]).dom() =~= Set::new(
                |name: Seq<char>| users_columns().contains(name),
            ),
    ensures
        users_table(t),
{
    assert forall|k: int| 0 <= k < users_columns().len() && k != 3 implies has_column(
        t.columns,
        #[trigger] users_columns()[k],
    ) by {
        lemma_made_columns(users_columns()[k]);
    }
    assert forall|i: int, name: Seq<char>| 0 <= i < t.rows.len() implies (
    #[trigger] t.rows[i].dom().contains(name) <==> has_column(t.columns, name)) by {
        lemma_made_columns(name);
    }
}

/// Making the table of users ready a second time changes nothing, and only the indexes are looked
/// after.
pub proof fn users_table_settles(t: Option<UsersTable>)
    ensures
        ensured_users(Some(ensured_users(t))) == ensured_users(t),
        users_step(Some(ensured_users(t).columns), ensured_users(t).strict)
            == UsersTableStep::Index,
{
    lemma_made_columns("username"@);
}

/// What is done about the table of downloads.
#[derive(Clone, Copy, PartialEq, Eq, Structural, Debug)]
pub enum MediaTableStep {
    Create,
    Keep,
    Rebuild,
}

/// Decides what is done about the table of downloads: it is kept if it is strict.
pub fn ensure_media_table(present: bool, strict: bool) -> (r: MediaTableStep)
    ensures
        r == if !present {
            MediaTableStep::Create
        } else if strict {
            MediaTableStep::Keep
        } else {
            MediaTableStep::Rebuild
        },
{
    if !present {
        MediaTableStep::Create
    } else if strict {
        MediaTableStep::Keep
    } else {
        MediaTableStep::Rebuild
    }
}

} // verus!
