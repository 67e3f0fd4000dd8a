//! The encrypted inventory database: the statements that open it, its
//! tooling file, the command line of its maintenance tool, and the deletions
//! that the central server requests.
use vstd::prelude::*;
use crate::json::Json;
use crate::store_plan::{Rows, Table};
use crate::text::{
    concat3, copy_str, has_prefix, replace_all, replaced, starts_with, str_equal, string_views,
};

verus! {

/// A table that the central server may ask to delete rows from.
#[derive(Clone, Copy, PartialEq, Eq, Structural, Debug)]
pub enum DeleteTable {
    /// `deleted_partition`: the `partition` table.
    Partition,
    /// `deleted_disk`: the `storage` table.
    Disk,
    /// `deleted_nic`: the `nic` table.
    Nic,
    /// `deleted_port`: the `port` table.
    Port,
}

/// Why a deletion request is refused; the database reports "not found".
#[derive(Clone, Copy, PartialEq, Eq, Structural, Debug)]
pub enum DeleteError {
    /// The request has no string `action` member.
    MissingAction,
    /// The action does not start with `deleted_`.
    NotDeleteAction,
    /// The `uuid` member is neither an array nor a string.
    InvalidUuid,
    /// The action names a table that cannot be deleted from.
    UnsupportedTable,
}

/// The rows to delete: those of `table` whose uuid is in `uuids`.
pub struct DeletePlan {
    pub table: DeleteTable,
    pub uuids: Vec<String>,
}

/// The strings among `items`, in order; other values are skipped.
pub open spec fn string_items(items: Seq<Json>) -> Seq<Seq<char>>
    decreases items.len(),
{
    if items.len() == 0 {
        Seq::empty()
    } else {
        match items[0].text() {
            Some(t) => seq![t] + string_items(items.drop_first()),
            None => string_items(items.drop_first()),
        }
    }
}

/// The uuids that a deletion request names.
pub open spec fn requested_uuids(request: Json) -> Option<Seq<Seq<char>>> {
    match request.field("uuid"@) {
        Some(Json::Arr(items)) => Some(string_items(items@)),
        Some(Json::Str(s)) => Some(seq![s@]),
        _ => None,
    }
}

/// The table that a name after `deleted_` stands for.
pub open spec fn delete_table_for(name: Seq<char>) -> Option<DeleteTable> {
    if name == "partition"@ {
        Some(DeleteTable::Partition)
    } else if name == "disk"@ {
        Some(DeleteTable::Disk)
    } else if name == "nic"@ {
        Some(DeleteTable::Nic)
    } else if name == "port"@ {
        Some(DeleteTable::Port)
    } else {
        None
    }
}

/// What a deletion request asks for, checked in the order the database
/// checks it: the action, its prefix, the uuids, then the table.
pub open spec fn delete_request(request: Json) -> Result<
    (DeleteTable, Seq<Seq<char>>),
    DeleteError,
> {
    match request.field_text("action"@) {
        None => Err(DeleteError::MissingAction),
        Some(a) => if !has_prefix(a, "deleted_"@) {
            Err(DeleteError::NotDeleteAction)
        } else {
            match requested_uuids(request) {
                None => Err(DeleteError::InvalidUuid),
                Some(us) => match delete_table_for(
                    a.subrange("deleted_"@.len() as int, a.len() as int),
                ) {
                    None => Err(DeleteError::UnsupportedTable),
                    Some(t) => Ok((t, us)),
                },
            }
        },
    }
}

/// The table that `table_name` stands for, as the deletion step accepts it.
pub fn delete_table(table_name: &str) -> (r: Option<DeleteTable>)
    ensures
        r == delete_table_for(table_name@),
{
    if str_equal(table_name, "partition") {
        Some(DeleteTable::Partition)
    } else if str_equal(table_name, "disk") {
        Some(DeleteTable::Disk)
    } else if str_equal(table_name, "nic") {
        Some(DeleteTable::Nic)
    } else if str_equal(table_name, "port") {
        Some(DeleteTable::Port)
    } else {
        None
    }
}

fn collect_string_items(items: &Vec<Json>) -> (r: Vec<String>)
    ensures
        string_views(r@) == string_items(items@),
{
    let mut out: Vec<String> = Vec::new();
    let mut i: usize = 0;
    assert(items@.skip(0) =~= items@);
    assert(string_views(out@) + string_items(items@) =~= string_items(items@));
    while i < items.len()
        invariant
            i <= items.len(),
            string_views(out@) + string_items(items@.skip(i as int)) == string_items(items@),
        decreases items.len() - i,
    {
        assert(items@.skip(i as int).drop_first() =~= items@.skip(i + 1));
        assert(items@.skip(i as int)[0] == items@[i as int]);
        let ghost before = out@;
        match items[i].as_str() {
            Some(t) => {
                out.push(copy_str(t));
                assert(string_views(out@) =~= string_views(before).push(t@));
                assert(string_views(out@) + string_items(items@.skip(i + 1)) =~= string_views(
                    before,
                ) + string_items(items@.skip(i as int)));
            },
            None => {},
        }
        i = i + 1;
    }
    assert(items@.skip(i as int) =~= Seq::<Json>::empty());
    assert(string_views(out@) + Seq::<Seq<char>>::empty() =~= string_views(out@));
    out
}

/// Plans the deletion that a request from the central server asks for, as
/// `delete_action` performs it.
pub fn delete_action(json_data: &Json) -> (r: Result<DeletePlan, DeleteError>)
    ensures
        match delete_request(*json_data) {
            Ok((t, us)) => r is Ok && r->Ok_0.table == t && string_views(r->Ok_0.uuids@) == us,
            Err(e) => r == Err::<DeletePlan, DeleteError>(e),
        },
{
    let action = match json_data.get_str("action") {
        Some(a) => a,
        None => {
            return Err(DeleteError::MissingAction);
        },
    };
    if !starts_with(action, "deleted_") {
        return Err(DeleteError::NotDeleteAction);
    }
    let skip = "deleted_".unicode_len();
    let table_name = action.substring_char(skip, action.unicode_len());
    let uuids: Vec<String> = match json_data.get("uuid") {
        Some(Json::Arr(items)) => collect_string_items(items),
        Some(Json::Str(s)) => {
            let mut v: Vec<String> = Vec::new();
            v.push(copy_str(s.as_str()));
            assert(string_views(v@) =~= seq![s@]);
            v
        },
        _ => {
            return Err(DeleteError::InvalidUuid);
        },
    };
    match delete_table(table_name) {
        Some(table) => Ok(DeletePlan { table, uuids }),
        None => Err(DeleteError::UnsupportedTable),
    }
}

/// The inventory table that a deletable table stands for.
pub open spec fn table_of(t: DeleteTable) -> Table {
    match t {
        DeleteTable::Partition => Table::Partition,
        DeleteTable::Disk => Table::Storage,
        DeleteTable::Nic => Table::Nic,
        DeleteTable::Port => Table::Port,
    }
}

/// The rows that deleting the rows of `table` whose uuid is in `uuids`
/// leaves.
pub open spec fn rows_after_delete(db: Rows, table: DeleteTable, uuids: Seq<Seq<char>>) -> Rows {
    db.remove_keys(Set::new(|k: (Table, Seq<char>)| k.0 == table_of(table) && uuids.contains(k.1)))
}

/// Carrying out a deletion request a second time leaves the rows as the
/// first time left them: rows already deleted are not found again.
pub proof fn lemma_delete_idempotent(request: Json, db: Rows)
    requires
        delete_request(request) is Ok,
    ensures
        ({
            let (t, us) = delete_request(request)->Ok_0;
            rows_after_delete(rows_after_delete(db, t, us), t, us) == rows_after_delete(db, t, us)
        }),
{
    let (t, us) = delete_request(request)->Ok_0;
    assert(rows_after_delete(rows_after_delete(db, t, us), t, us) =~= rows_after_delete(db, t, us));
}

/// What the maintenance tool is asked to do.
#[derive(Clone, Copy, PartialEq, Eq, Structural, Debug)]
pub enum DbCommand {
    /// `--init-db`: write the tooling file and run the migrations.
    InitDb,
    /// `store-secret`: store a file's bytes under a key.
    StoreSecret,
    /// Anything else: write the tooling file.
    Initialize,
}

/// The command that the first argument selects.
pub open spec fn command_for(args: Seq<Seq<char>>) -> DbCommand {
    if args.len() > 1 && args[1] == "--init-db"@ {
        DbCommand::InitDb
    } else if args.len() > 1 && args[1] == "store-secret"@ {
        DbCommand::StoreSecret
    } else {
        DbCommand::Initialize
    }
}

/// Selects the command from the program's arguments (the program's name
/// first).
pub fn db_command(args: &[String]) -> (r: DbCommand)
    ensures
        r == command_for(string_views(args@)),
{
    if args.len() > 1 {
        assert(string_views(args@)[1] == args@[1]@);
        if str_equal(args[1].as_str(), "--init-db") {
            return DbCommand::InitDb;
        }
        if str_equal(args[1].as_str(), "store-secret") {
            return DbCommand::StoreSecret;
        }
    }
    DbCommand::Initialize
}

/// The index of the first element equal to `x`.
pub open spec fn position_of(s: Seq<Seq<char>>, x: Seq<char>) -> Option<int>
    decreases s.len(),
{
    if s.len() == 0 {
        None
    } else if s[0] == x {
        Some(0)
    } else {
        match position_of(s.drop_first(), x) {
            Some(k) => Some(k + 1),
            None => None,
        }
    }
}

proof fn lemma_position_of(s: Seq<Seq<char>>, x: Seq<char>, i: int)
    requires
        0 <= i <= s.len(),
        forall|j: int| 0 <= j < i ==> s[j] != x,
    ensures
        i < s.len() && s[i] == x ==> position_of(s, x) == Some(i),
        i == s.len() ==> position_of(s, x) is None,
    decreases i,
{
    if i > 0 {
        let t = s.drop_first();
        assert forall|j: int| 0 <= j < i - 1 implies t[j] != x by {
            assert(t[j] == s[j + 1]);
        }
        lemma_position_of(t, x, i - 1);
    }
}

/// The argument after the first occurrence of `name`.
pub open spec fn argument_after(args: Seq<Seq<char>>, name: Seq<char>) -> Option<Seq<char>> {
    match position_of(args, name) {
        Some(i) => if i + 1 < args.len() {
            Some(args[i + 1])
        } else {
            None
        },
        None => None,
    }
}

/// The value given for option `name` in `args`: the argument that follows
/// its first occurrence.
pub fn get_arg(args: &[String], name: &str) -> (r: Option<String>)
    ensures
        match r {
            Some(v) => argument_after(string_views(args@), name@) == Some(v@),
            None => argument_after(string_views(args@), name@) is None,
        },
{
    let ghost views = string_views(args@);
    let mut i: usize = 0;
    while i < args.len()
        invariant
            views == string_views(args@),
            views.len() == args@.len(),
            i <= args.len(),
            forall|j: int| 0 <= j < i ==> views[j] != name@,
        decreases args.len() - i,
    {
        assert(views[i as int] == args@[i as int]@);
        if str_equal(args[i].as_str(), name) {
            proof {
                lemma_position_of(views, name@, i as int);
            }
            if i + 1 < args.len() {
                assert(views[i + 1] == args@[i + 1]@);
                return Some(args[i + 1].clone());
            }
            return None;
        }
        i = i + 1;
    }
    proof {
        lemma_position_of(views, name@, i as int);
    }
    None
}

/// The statement that sets the database key.
pub open spec fn key_statement(key: Seq<char>) -> Seq<char> {
    "PRAGMA key = '"@ + key + "';"@
}

/// The statements that open the encrypted database, in order: the cipher
/// settings, the key, and a read that fails if the key is wrong.
pub fn encrypted_connection_statements(key: &str) -> (r: Vec<String>)
    ensures
        string_views(r@) == seq![
            "PRAGMA cipher_compatibility = 4;"@,
            key_statement(key@),
            "SELECT count(*) FROM sqlite_master;"@,
        ],
{
    let mut v: Vec<String> = Vec::new();
    v.push(copy_str("PRAGMA cipher_compatibility = 4;"));
    v.push(concat3("PRAGMA key = '", key, "';"));
    v.push(copy_str("SELECT count(*) FROM sqlite_master;"));
    assert(string_views(v@) =~= seq![
        "PRAGMA cipher_compatibility = 4;"@,
        key_statement(key@),
        "SELECT count(*) FROM sqlite_master;"@,
    ]);
    v
}

/// The text before the migrations directory in the tooling file.
pub open spec fn diesel_toml_head() -> Seq<char> {
    "# For documentation on how to configure this file,\n# see https://diesel.rs/guides/configuring-diesel-cli\n \n[print_schema]\nfile = \"src/schema.rs\"\ncustom_type_derives = [\"diesel::query_builder::QueryId\", \"Clone\"]\n \n[migrations_directory]\ndir = \""@
}

/// The database tool's file: where it goes and what it says.
pub struct DieselToml {
    pub path: String,
    pub content: String,
}

/// The database tool's configuration file: the migrations
/// directory is the database path with `models_database.sqlite` replaced by
/// `migrations`.
pub fn generate_diesel_toml(app_dir: &str, db_path: &str) -> (r: DieselToml)
    ensures
        r.path@ == app_dir@ + "/models_database/diesel.toml"@,
        r.content@ == diesel_toml_head() + replaced(
            db_path@,
            "models_database.sqlite"@,
            "migrations"@,
        ) + "\"\n"@,
{
    let pattern = "models_database.sqlite";
    proof {
        reveal_strlit("models_database.sqlite");
    }
    let dir = replace_all(db_path, pattern, "migrations");
    let head = "# For documentation on how to configure this file,\n# see https://diesel.rs/guides/configuring-diesel-cli\n \n[print_schema]\nfile = \"src/schema.rs\"\ncustom_type_derives = [\"diesel::query_builder::QueryId\", \"Clone\"]\n \n[migrations_directory]\ndir = \"";
    DieselToml {
        path: crate::text::concat2(app_dir, "/models_database/diesel.toml"),
        content: concat3(head, dir.as_str(), "\"\n"),
    }
}

} // verus!
