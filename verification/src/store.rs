use vstd::prelude::*;

use crate::date::date_text;
use crate::date::format_date;
use crate::date::lemma_ascii_decode;
use crate::date::lemma_format_date_ascii;
use crate::date::lemma_parse_then_format;
use crate::date::parse_date;
use crate::errors::CheckvistError;
use crate::types::Checklist;
use crate::types::Task;

verus! {

broadcast use vstd::seq::group_seq_axioms, vstd::seq_lib::group_seq_lib_default;

// The local cache store: two tables in an embedded SQLite database,
// each keyed by a surrogate row id plus a unique server-identifier
// column. The connection is opaque to the verifier; what the tables
// hold is modelled by `db_lists` and `db_tasks`, and each statement the
// store runs is a trusted wrapper whose contract says what it does to
// that model.

#[verifier::external_type_specification]
#[verifier::external_body]
pub struct ExConnection(rusqlite::Connection);

/// The rows of the list table: server id, name, the timestamp text in
/// the wire form, and the task count.
pub uninterp spec fn db_lists(conn: rusqlite::Connection) -> Seq<(u32, Seq<char>, Seq<char>, u16)>;

/// The rows of the task table: server id, owning list id, content,
/// position, and parent task id.
pub uninterp spec fn db_tasks(conn: rusqlite::Connection) -> Seq<
    (u32, u32, Seq<char>, u16, Option<u32>),
>;

pub open spec fn has_list_id(rows: Seq<(u32, Seq<char>, Seq<char>, u16)>, id: u32) -> bool {
    exists|k: int| 0 <= k < rows.len() && (#[trigger] rows[k]).0 == id
}

pub open spec fn has_task_id(
    rows: Seq<(u32, u32, Seq<char>, u16, Option<u32>)>,
    id: u32,
) -> bool {
    exists|k: int| 0 <= k < rows.len() && (#[trigger] rows[k]).0 == id
}

/// Relies on rusqlite's `Connection::open_in_memory` and
/// `Connection::execute` creating the two empty tables: a fresh
/// in-memory database holds no rows.
#[verifier::external_body]
fn open_memory_db() -> (r: Result<rusqlite::Connection, String>)
    ensures
        match r {
            Ok(c) => db_lists(c) == Seq::<(u32, Seq<char>, Seq<char>, u16)>::empty() && db_tasks(c)
                == Seq::<(u32, u32, Seq<char>, u16, Option<u32>)>::empty(),
            Err(_) => true,
        },
{
    let conn = rusqlite::Connection::open_in_memory().map_err(|e| e.to_string())?;
    conn.execute("CREATE TABLE IF NOT EXISTS checklist (id INTEGER PRIMARY KEY, checkvist_id INTEGER UNIQUE NOT NULL, name TEXT NOT NULL, updated_at TEXT NOT NULL, task_count INTEGER NOT NULL) STRICT", ()).map_err(|e| e.to_string())?;
    conn.execute("CREATE TABLE IF NOT EXISTS task (id INTEGER PRIMARY KEY, checkvist_id INTEGER UNIQUE NOT NULL, list_id INTEGER NOT NULL, content TEXT NOT NULL, position INTEGER NOT NULL, parent_id INTEGER) STRICT", ()).map_err(|e| e.to_string())?;
    Ok(conn)
}

/// Relies on rusqlite's `Connection::open` and `Connection::execute`:
/// opens (creating the file if absent) and ensures the two tables
/// exist. What rows the file already held is unknown.
#[verifier::external_body]
fn open_file_db(path: &str) -> (r: Result<rusqlite::Connection, String>)
{
    let conn = rusqlite::Connection::open(path).map_err(|e| e.to_string())?;
    conn.execute("CREATE TABLE IF NOT EXISTS checklist (id INTEGER PRIMARY KEY, checkvist_id INTEGER UNIQUE NOT NULL, name TEXT NOT NULL, updated_at TEXT NOT NULL, task_count INTEGER NOT NULL) STRICT", ()).map_err(|e| e.to_string())?;
    conn.execute("CREATE TABLE IF NOT EXISTS task (id INTEGER PRIMARY KEY, checkvist_id INTEGER UNIQUE NOT NULL, list_id INTEGER NOT NULL, content TEXT NOT NULL, position INTEGER NOT NULL, parent_id INTEGER) STRICT", ()).map_err(|e| e.to_string())?;
    Ok(conn)
}

/// Relies on rusqlite's `Connection::execute` running one INSERT into
/// the list table, and on SQLite's UNIQUE constraint with statement
/// atomicity: a duplicate server id aborts the statement and changes
/// nothing; success appends exactly the given row; a failed statement
/// leaves the tables as they were.
#[verifier::external_body]
fn insert_list_row(
    conn: &mut rusqlite::Connection,
    id: u32,
    name: &str,
    updated: &str,
    count: u16,
) -> (r: Result<usize, String>)
    ensures
        match r {
            Ok(n) => n == 1 && !has_list_id(db_lists(*old(conn)), id) && db_lists(*final(conn))
                == db_lists(*old(conn)).push((id, name@, updated@, count)) && db_tasks(
                *final(conn),
            ) == db_tasks(*old(conn)),
            Err(_) => db_lists(*final(conn)) == db_lists(*old(conn)) && db_tasks(*final(conn))
                == db_tasks(*old(conn)),
        },
        has_list_id(db_lists(*old(conn)), id) ==> r is Err,
{
    conn.execute(
        "INSERT INTO checklist (checkvist_id, name, updated_at, task_count) VALUES (?1, ?2, ?3, ?4)",
        (id, name, updated, count),
    ).map_err(|e| e.to_string())
}

/// Relies on rusqlite's `Connection::execute` running one DELETE of the
/// whole list table, atomic as a single statement.
#[verifier::external_body]
fn delete_list_rows(conn: &mut rusqlite::Connection) -> (r: Result<usize, String>)
    ensures
        match r {
            Ok(_) => db_lists(*final(conn)) == Seq::<(u32, Seq<char>, Seq<char>, u16)>::empty()
                && db_tasks(*final(conn)) == db_tasks(*old(conn)),
            Err(_) => db_lists(*final(conn)) == db_lists(*old(conn)) && db_tasks(*final(conn))
                == db_tasks(*old(conn)),
        },
{
    conn.execute("DELETE FROM checklist", ()).map_err(|e| e.to_string())
}

/// Relies on rusqlite's `prepare`, `query_map` and collect: one SELECT
/// of every list row. The rows come back exactly as held, in an order
/// SQLite does not promise, so only the multiset is stated.
#[verifier::external_body]
fn fetch_list_rows(conn: &rusqlite::Connection) -> (r: Result<Vec<(u32, String, String, u16)>, String>)
    ensures
        match r {
            Ok(v) => lrows_view(v@).to_multiset() == db_lists(*conn).to_multiset(),
            Err(_) => true,
        },
{
    let mut stmt = conn.prepare("SELECT checkvist_id, name, updated_at, task_count FROM checklist")
        .map_err(|e| e.to_string())?;
    let rows = stmt.query_map([], |row| {
        Ok((row.get(0)?, row.get(1)?, row.get(2)?, row.get(3)?))
    }).map_err(|e| e.to_string())?;
    rows.collect::<Result<Vec<_>, _>>().map_err(|e| e.to_string())
}

/// Relies on rusqlite's `Connection::execute` running one INSERT into
/// the task table, under the same UNIQUE constraint and statement
/// atomicity as the list table.
#[verifier::external_body]
fn insert_task_row(
    conn: &mut rusqlite::Connection,
    id: u32,
    list_id: u32,
    content: &str,
    position: u16,
    parent: Option<u32>,
) -> (r: Result<usize, String>)
    ensures
        match r {
            Ok(n) => n == 1 && !has_task_id(db_tasks(*old(conn)), id) && db_tasks(*final(conn))
                == db_tasks(*old(conn)).push((id, list_id, content@, position, parent)) && db_lists(
                *final(conn),
            ) == db_lists(*old(conn)),
            Err(_) => db_lists(*final(conn)) == db_lists(*old(conn)) && db_tasks(*final(conn))
                == db_tasks(*old(conn)),
        },
        has_task_id(db_tasks(*old(conn)), id) ==> r is Err,
{
    conn.execute(
        "INSERT INTO task (checkvist_id, list_id, content, position, parent_id) VALUES (?1, ?2, ?3, ?4, ?5)",
        (id, list_id, content, position, parent),
    ).map_err(|e| e.to_string())
}

/// Relies on rusqlite's `Connection::execute` running one DELETE of the
/// task rows of one list, atomic as a single statement.
#[verifier::external_body]
fn delete_task_rows(conn: &mut rusqlite::Connection, list_id: u32) -> (r: Result<usize, String>)
    ensures
        match r {
            Ok(_) => db_tasks(*final(conn)) == db_tasks(*old(conn)).filter(
                |t: (u32, u32, Seq<char>, u16, Option<u32>)| t.1 != list_id,
            ) && db_lists(*final(conn)) == db_lists(*old(conn)),
            Err(_) => db_lists(*final(conn)) == db_lists(*old(conn)) && db_tasks(*final(conn))
                == db_tasks(*old(conn)),
        },
{
    conn.execute("DELETE FROM task WHERE list_id = ?1", (list_id,)).map_err(|e| e.to_string())
}

/// Relies on rusqlite's `prepare`, `query_map` and collect: one SELECT
/// of the task rows of one list, stated as a multiset like the lists.
#[verifier::external_body]
fn fetch_task_rows_for_list(conn: &rusqlite::Connection, list_id: u32) -> (r: Result<
    Vec<(u32, u32, String, u16, Option<u32>)>,
    String,
>)
    ensures
        match r {
            Ok(v) => trows_view(v@).to_multiset() == db_tasks(*conn).filter(
                |t: (u32, u32, Seq<char>, u16, Option<u32>)| t.1 == list_id,
            ).to_multiset(),
            Err(_) => true,
        },
{
    let mut stmt = conn.prepare(
        "SELECT checkvist_id, list_id, content, position, parent_id FROM task WHERE list_id = ?1",
    ).map_err(|e| e.to_string())?;
    let rows = stmt.query_map([list_id], |row| {
        Ok((row.get(0)?, row.get(1)?, row.get(2)?, row.get(3)?, row.get(4)?))
    }).map_err(|e| e.to_string())?;
    rows.collect::<Result<Vec<_>, _>>().map_err(|e| e.to_string())
}

/// Relies on rusqlite's `prepare`, `query_map` and collect: one SELECT
/// of every task row.
#[verifier::external_body]
fn fetch_all_task_rows(conn: &rusqlite::Connection) -> (r: Result<
    Vec<(u32, u32, String, u16, Option<u32>)>,
    String,
>)
    ensures
        match r {
            Ok(v) => trows_view(v@).to_multiset() == db_tasks(*conn).to_multiset(),
            Err(_) => true,
        },
{
    let mut stmt = conn.prepare(
        "SELECT checkvist_id, list_id, content, position, parent_id FROM task",
    ).map_err(|e| e.to_string())?;
    let rows = stmt.query_map([], |row| {
        Ok((row.get(0)?, row.get(1)?, row.get(2)?, row.get(3)?, row.get(4)?))
    }).map_err(|e| e.to_string())?;
    rows.collect::<Result<Vec<_>, _>>().map_err(|e| e.to_string())
}

fn sqlite_err(message: String) -> (r: CheckvistError)
    ensures
        r == (CheckvistError::SqliteError { message }),
{
    CheckvistError::SqliteError { message }
}

/// The row a list is cached as.
pub open spec fn list_row(l: Checklist) -> (u32, Seq<char>, Seq<char>, u16) {
    (l.id, l.name@, date_text(l.updated_at), l.task_count)
}

/// The row a task of the given list is cached as.
pub open spec fn task_row(t: Task, list_id: u32) -> (u32, u32, Seq<char>, u16, Option<u32>) {
    (t.id.unwrap(), list_id, t.content@, t.position, t.parent_id)
}

/// The rows a run of lists is cached as, in order.
pub open spec fn cl_rows(v: Seq<Checklist>) -> Seq<(u32, Seq<char>, Seq<char>, u16)> {
    Seq::new(v.len(), |j: int| list_row(v[j]))
}

/// The rows a run of tasks of one list is cached as, in order.
pub open spec fn tk_rows(v: Seq<Task>, list_id: u32) -> Seq<(u32, u32, Seq<char>, u16, Option<u32>)> {
    Seq::new(v.len(), |j: int| task_row(v[j], list_id))
}

/// The spec-level reading of raw list rows.
pub open spec fn lrows_view(v: Seq<(u32, String, String, u16)>) -> Seq<(u32, Seq<char>, Seq<char>, u16)> {
    Seq::new(v.len(), |j: int| (v[j].0, v[j].1@, v[j].2@, v[j].3))
}

/// The spec-level reading of raw task rows.
pub open spec fn trows_view(v: Seq<(u32, u32, String, u16, Option<u32>)>) -> Seq<(u32, u32, Seq<char>, u16, Option<u32>)> {
    Seq::new(v.len(), |j: int| (v[j].0, v[j].1, v[j].2@, v[j].3, v[j].4))
}

/// Render a well-formed timestamp as its wire-form text.
fn date_string(d: &crate::date::CheckvistDate) -> (r: String)
    requires
        d.wf(),
    ensures
        r@ == date_text(*d),
{
    let bytes = format_date(d);
    proof {
        lemma_format_date_ascii(*d);
        lemma_ascii_decode(bytes@);
    }
    match crate::json::string_from_utf8(bytes) {
        Some(s) => s,
        None => {
            proof {
                assert(false);
            }
            String::new()
        },
    }
}

/// The local cache store.
pub struct SqliteStore {
    conn: rusqlite::Connection,
}

impl SqliteStore {
    /// The list rows the store holds.
    pub closed spec fn lists(&self) -> Seq<(u32, Seq<char>, Seq<char>, u16)> {
        db_lists(self.conn)
    }

    /// The task rows the store holds.
    pub closed spec fn tasks(&self) -> Seq<(u32, u32, Seq<char>, u16, Option<u32>)> {
        db_tasks(self.conn)
    }

    /// Open a fresh, empty in-memory store.
    pub fn init_in_memory() -> (r: Result<Self, CheckvistError>)
        ensures
            match r {
                Ok(st) => st.lists() == Seq::<(u32, Seq<char>, Seq<char>, u16)>::empty()
                    && st.tasks() == Seq::<(u32, u32, Seq<char>, u16, Option<u32>)>::empty(),
                Err(e) => e is SqliteError,
            },
    {
        match open_memory_db() {
            Ok(conn) => Ok(SqliteStore { conn }),
            Err(m) => Err(sqlite_err(m)),
        }
    }

    /// Open a store backed by the given database file, creating it and
    /// its tables when absent; rows the file already held are kept.
    pub fn init_with_file(path: &str) -> (r: Result<Self, CheckvistError>)
        ensures
            match r {
                Ok(_) => true,
                Err(e) => e is SqliteError,
            },
    {
        match open_file_db(path) {
            Ok(conn) => Ok(SqliteStore { conn }),
            Err(m) => Err(sqlite_err(m)),
        }
    }

    /// Insert one list. A row with the same server id refuses the
    /// insert and leaves the store unchanged — the unique constraint is
    /// what makes repeated saves of one list safe.
    pub fn save_list(&mut self, list: &Checklist) -> (r: Result<usize, CheckvistError>)
        requires
            list.updated_at.wf(),
        ensures
            match r {
                Ok(n) => n == 1 && !has_list_id(old(self).lists(), list.id) && final(self).lists()
                    == old(self).lists().push(list_row(*list)) && final(self).tasks() == old(self).tasks(),
                Err(e) => e is SqliteError && final(self).lists() == old(self).lists() && final(self).tasks() == old(self).tasks(),
            },
            has_list_id(old(self).lists(), list.id) ==> r is Err,
    {
        let updated = date_string(&list.updated_at);
        match insert_list_row(
            &mut self.conn,
            list.id,
            list.name.as_str(),
            updated.as_str(),
            list.task_count,
        ) {
            Ok(n) => Ok(n),
            Err(m) => Err(sqlite_err(m)),
        }
    }

    /// Insert a batch of lists, in order; the first refused row stops
    /// the batch with the rows before it kept.
    pub fn save_lists(&mut self, lists: &Vec<Checklist>) -> (r: Result<usize, CheckvistError>)
        requires
            forall|k: int| 0 <= k < lists@.len() ==> (#[trigger] lists@[k]).updated_at.wf(),
        ensures
            match r {
                Ok(n) => n == lists@.len() && final(self).lists() == old(self).lists()
                    + cl_rows(lists@) && final(self).tasks() == old(self).tasks(),
                Err(e) => e is SqliteError && final(self).tasks() == old(self).tasks() && exists|
                    k: int,
                |
                    0 <= k < lists@.len() && final(self).lists() == old(self).lists()
                        + #[trigger] cl_rows(lists@.take(k)),
            },
    {
        let n = lists.len();
        let mut i: usize = 0;
        while i < n
            invariant
                n == lists@.len(),
                i <= n,
                forall|k: int| 0 <= k < lists@.len() ==> (#[trigger] lists@[k]).updated_at.wf(),
                self.lists() == old(self).lists() + cl_rows(lists@.take(i as int)),
                self.tasks() == old(self).tasks(),
            decreases n - i,
        {
            match self.save_list(&lists[i]) {
                Ok(_) => {},
                Err(e) => {
                    proof {
                        assert(0 <= i < lists@.len() && self.lists() == old(self).lists()
                            + cl_rows(lists@.take(i as int)));
                    }
                    return Err(e);
                },
            }
            assert(self.lists() =~= old(self).lists() + cl_rows(lists@.take(i + 1))) by {
                assert(cl_rows(lists@.take(i + 1)) =~= cl_rows(lists@.take(i as int)).push(
                    list_row(lists@[i as int]),
                ));
            }
            i = i + 1;
        }
        assert(lists@.take(n as int) =~= lists@);
        Ok(n)
    }

    /// Every list in the store, rebuilt from its rows. The order is
    /// whatever the store returned; the rows are exactly those held.
    pub fn fetch_all_lists(&self) -> (r: Result<Vec<Checklist>, CheckvistError>)
        ensures
            match r {
                Ok(v) => cl_rows(v@).to_multiset() == self.lists().to_multiset(),
                Err(_) => true,
            },
    {
        match fetch_list_rows(&self.conn) {
            Ok(rows) => lists_from_rows(rows),
            Err(m) => Err(sqlite_err(m)),
        }
    }

    /// Delete every cached list row.
    pub fn temp_delete_lists(&mut self) -> (r: Result<(), CheckvistError>)
        ensures
            match r {
                Ok(_) => final(self).lists() == Seq::<(u32, Seq<char>, Seq<char>, u16)>::empty()
                    && final(self).tasks() == old(self).tasks(),
                Err(e) => e is SqliteError && final(self).lists() == old(self).lists() && final(self).tasks() == old(self).tasks(),
            },
    {
        match delete_list_rows(&mut self.conn) {
            Ok(_) => Ok(()),
            Err(m) => Err(sqlite_err(m)),
        }
    }

    /// Insert one task of the given list. A task is cached only once
    /// the server has assigned it an id.
    pub fn save_task(&mut self, list_id: u32, task: &Task) -> (r: Result<usize, CheckvistError>)
        requires
            task.id is Some,
        ensures
            match r {
                Ok(n) => n == 1 && !has_task_id(old(self).tasks(), task.id.unwrap()) && final(self).tasks() == old(self).tasks().push(task_row(*task, list_id)) && final(self).lists()
                    == old(self).lists(),
                Err(e) => e is SqliteError && final(self).lists() == old(self).lists() && final(self).tasks() == old(self).tasks(),
            },
            has_task_id(old(self).tasks(), task.id.unwrap()) ==> r is Err,
    {
        let id = match task.id {
            Some(id) => id,
            None => {
                proof {
                    assert(false);
                }
                0
            },
        };
        match insert_task_row(
            &mut self.conn,
            id,
            list_id,
            task.content.as_str(),
            task.position,
            task.parent_id,
        ) {
            Ok(n) => Ok(n),
            Err(m) => Err(sqlite_err(m)),
        }
    }

    /// Insert a batch of tasks of one list, in order.
    pub fn save_tasks(&mut self, list_id: u32, tasks: &Vec<Task>) -> (r: Result<
        usize,
        CheckvistError,
    >)
        requires
            forall|k: int| 0 <= k < tasks@.len() ==> (#[trigger] tasks@[k]).id is Some,
        ensures
            match r {
                Ok(n) => n == tasks@.len() && final(self).tasks() == old(self).tasks()
                    + tk_rows(tasks@, list_id) && final(self).lists() == old(self).lists(),
                Err(e) => e is SqliteError && final(self).lists() == old(self).lists() && exists|
                    k: int,
                |
                    0 <= k < tasks@.len() && final(self).tasks() == old(self).tasks()
                        + #[trigger] tk_rows(tasks@.take(k), list_id),
            },
    {
        let n = tasks.len();
        let mut i: usize = 0;
        while i < n
            invariant
                n == tasks@.len(),
                i <= n,
                forall|k: int| 0 <= k < tasks@.len() ==> (#[trigger] tasks@[k]).id is Some,
                self.tasks() == old(self).tasks() + tk_rows(tasks@.take(i as int), list_id),
                self.lists() == old(self).lists(),
            decreases n - i,
        {
            match self.save_task(list_id, &tasks[i]) {
                Ok(_) => {},
                Err(e) => {
                    proof {
                        assert(0 <= i < tasks@.len() && self.tasks() == old(self).tasks()
                            + tk_rows(tasks@.take(i as int), list_id));
                    }
                    return Err(e);
                },
            }
            assert(self.tasks() =~= old(self).tasks() + tk_rows(tasks@.take(i + 1), list_id)) by {
                assert(tk_rows(tasks@.take(i + 1), list_id) =~= tk_rows(
                    tasks@.take(i as int),
                    list_id,
                ).push(task_row(tasks@[i as int], list_id)));
            }
            i = i + 1;
        }
        assert(tasks@.take(n as int) =~= tasks@);
        Ok(n)
    }

    /// The cached tasks of one list.
    pub fn fetch_tasks_for_list(&self, list_id: u32) -> (r: Result<Vec<Task>, CheckvistError>)
        ensures
            match r {
                Ok(v) => tk_rows(v@, list_id).to_multiset() == self.tasks().filter(
                    |t: (u32, u32, Seq<char>, u16, Option<u32>)| t.1 == list_id,
                ).to_multiset(),
                Err(_) => true,
            },
    {
        let ghost filtered = self.tasks().filter(
            |t: (u32, u32, Seq<char>, u16, Option<u32>)| t.1 == list_id,
        );
        match fetch_task_rows_for_list(&self.conn, list_id) {
            Ok(rows) => {
                let ghost rowsv = trows_view(rows@);
                match tasks_from_rows_of_list(rows, list_id) {
                    Ok(v) => {
                        proof {
                            assert(tk_rows(v@, list_id) =~= rowsv);
                        }
                        Ok(v)
                    },
                    Err(e) => Err(e),
                }
            },
            Err(m) => Err(sqlite_err(m)),
        }
    }

    /// Every cached task, across all lists: one task per row, each
    /// matching its row in id, content, position and parent.
    pub fn fetch_all_tasks(&self) -> (r: Result<Vec<Task>, CheckvistError>)
        ensures
            match r {
                Ok(v) => exists|rows: Seq<(u32, u32, Seq<char>, u16, Option<u32>)>|
                    #[trigger] rows.to_multiset() == self.tasks().to_multiset() && v@.len()
                        == rows.len() && forall|k: int|
                        0 <= k < rows.len() ==> task_matches_row(#[trigger] v@[k], rows[k]),
                Err(_) => true,
            },
    {
        match fetch_all_task_rows(&self.conn) {
            Ok(rows) => {
                let ghost rowsv = trows_view(rows@);
                let r = tasks_from_rows(rows);
                proof {
                    if r is Ok {
                        let v = r.unwrap();
                        assert(rowsv.to_multiset() == self.tasks().to_multiset() && v@.len()
                            == rowsv.len() && forall|k: int|
                            0 <= k < rowsv.len() ==> task_matches_row(#[trigger] v@[k], rowsv[k]));
                    }
                }
                r
            },
            Err(m) => Err(sqlite_err(m)),
        }
    }

    /// Delete the cached task rows of one list.
    pub fn temp_delete_tasks(&mut self, list_id: u32) -> (r: Result<(), CheckvistError>)
        ensures
            match r {
                Ok(_) => final(self).tasks() == old(self).tasks().filter(
                    |t: (u32, u32, Seq<char>, u16, Option<u32>)| t.1 != list_id,
                ) && final(self).lists() == old(self).lists(),
                Err(e) => e is SqliteError && final(self).lists() == old(self).lists() && final(self).tasks() == old(self).tasks(),
            },
    {
        match delete_task_rows(&mut self.conn, list_id) {
            Ok(_) => Ok(()),
            Err(m) => Err(sqlite_err(m)),
        }
    }
}

/// Rebuild lists from fetched rows: failing only on a row whose
/// timestamp text is not in the wire form.
#[verifier::rlimit(100)]
#[verifier::spinoff_prover]
fn lists_from_rows(rows: Vec<(u32, String, String, u16)>) -> (r: Result<
    Vec<Checklist>,
    CheckvistError,
>)
    ensures
        match r {
            Ok(v) => cl_rows(v@) == lrows_view(rows@),
            Err(e) => e is DecodeError,
        },
{
    let n = rows.len();
    let mut out: Vec<Checklist> = Vec::new();
    let mut i: usize = 0;
    while i < n
        invariant
            n == rows@.len(),
            i <= n,
            out@.len() == i,
            cl_rows(out@) =~= lrows_view(rows@.take(i as int)),
        decreases n - i,
    {
        let row = &rows[i];
        let bytes = row.2.as_str().as_bytes_vec();
        let Some(d) = parse_date(&bytes) else {
            return Err(
                CheckvistError::DecodeError {
                    message: String::from_str("cached timestamp is not in the wire form"),
                },
            );
        };
        proof {
            lemma_parse_then_format(bytes@);
            lemma_format_date_ascii(d);
            lemma_ascii_decode(bytes@);
            vstd::utf8::encode_utf8_decode_utf8(row.2@);
            assert(date_text(d) == row.2@);
        }
        let c = Checklist { id: row.0, name: row.1.clone(), updated_at: d, task_count: row.3 };
        let ghost prev = out@;
        proof {
            assert(list_row(c) == (rows@[i as int].0, rows@[i as int].1@, rows@[i as int].2@,
            rows@[i as int].3));
        }
        out.push(c);
        proof {
            assert(out@ == prev.push(c));
            assert(cl_rows(out@).len() == i + 1);
            assert(lrows_view(rows@.take(i + 1)).len() == i + 1);
            assert(cl_rows(out@)[i as int] == list_row(c));
            assert(lrows_view(rows@.take(i + 1))[i as int] == (
                rows@[i as int].0,
                rows@[i as int].1@,
                rows@[i as int].2@,
                rows@[i as int].3,
            ));
            assert forall|j: int| 0 <= j < i implies cl_rows(out@)[j] == lrows_view(
                rows@.take(i + 1),
            )[j] by {
                assert(cl_rows(prev)[j] == lrows_view(rows@.take(i as int))[j]);
                assert(cl_rows(prev)[j] == list_row(prev[j]));
                assert(out@[j] == prev[j]);
                assert(cl_rows(out@)[j] == list_row(out@[j]));
                assert(rows@.take(i as int)[j] == rows@[j]);
                assert(rows@.take(i + 1)[j] == rows@[j]);
                assert(lrows_view(rows@.take(i as int))[j] == (
                    rows@[j].0,
                    rows@[j].1@,
                    rows@[j].2@,
                    rows@[j].3,
                ));
                assert(lrows_view(rows@.take(i + 1))[j] == (
                    rows@[j].0,
                    rows@[j].1@,
                    rows@[j].2@,
                    rows@[j].3,
                ));
            }
            assert(cl_rows(out@) =~= lrows_view(rows@.take(i + 1)));
        }
        i = i + 1;
    }
    assert(rows@.take(n as int) =~= rows@);
    Ok(out)
}

/// A task agrees with a cached row in id, content, position and parent.
pub open spec fn task_matches_row(t: Task, row: (u32, u32, Seq<char>, u16, Option<u32>)) -> bool {
    t.id == Some(row.0) && t.content@ == row.2 && t.position == row.3 && t.parent_id == row.4
}

/// Rebuild tasks from fetched rows, whatever lists they belong to.
fn tasks_from_rows(rows: Vec<(u32, u32, String, u16, Option<u32>)>) -> (r: Result<
    Vec<Task>,
    CheckvistError,
>)
    ensures
        match r {
            Ok(v) => v@.len() == rows@.len() && forall|k: int|
                0 <= k < rows@.len() ==> task_matches_row(#[trigger] v@[k], trows_view(rows@)[k]),
            Err(_) => false,
        },
{
    let n = rows.len();
    let mut out: Vec<Task> = Vec::new();
    let mut i: usize = 0;
    while i < n
        invariant
            n == rows@.len(),
            i <= n,
            out@.len() == i,
            forall|k: int|
                0 <= k < i ==> task_matches_row(
                    #[trigger] out@[k],
                    (rows@[k].0, rows@[k].1, rows@[k].2@, rows@[k].3, rows@[k].4),
                ),
        decreases n - i,
    {
        let row = &rows[i];
        let t = Task {
            id: Some(row.0),
            content: row.2.clone(),
            position: row.3,
            parent_id: row.4,
        };
        out.push(t);
        i = i + 1;
    }
    Ok(out)
}

/// Rebuild the tasks of one list from fetched rows, refusing a row of
/// another list.
fn tasks_from_rows_of_list(rows: Vec<(u32, u32, String, u16, Option<u32>)>, list_id: u32) -> (r:
    Result<Vec<Task>, CheckvistError>)
    ensures
        match r {
            Ok(v) => v@.len() == rows@.len() && forall|k: int|
                0 <= k < rows@.len() ==> task_row(#[trigger] v@[k], list_id) == (
                    rows@[k].0,
                    rows@[k].1,
                    rows@[k].2@,
                    rows@[k].3,
                    rows@[k].4,
                ),
            Err(e) => e is DecodeError,
        },
{
    let n = rows.len();
    let mut out: Vec<Task> = Vec::new();
    let mut i: usize = 0;
    while i < n
        invariant
            n == rows@.len(),
            i <= n,
            out@.len() == i,
            forall|k: int|
                0 <= k < i ==> task_row(#[trigger] out@[k], list_id) == (
                    rows@[k].0,
                    rows@[k].1,
                    rows@[k].2@,
                    rows@[k].3,
                    rows@[k].4,
                ),
        decreases n - i,
    {
        let row = &rows[i];
        if row.1 != list_id {
            return Err(
                CheckvistError::DecodeError {
                    message: String::from_str("cached task row belongs to another list"),
                },
            );
        }
        let t = Task {
            id: Some(row.0),
            content: row.2.clone(),
            position: row.3,
            parent_id: row.4,
        };
        out.push(t);
        i = i + 1;
    }
    Ok(out)
}

// ---------------------------------------------------------------------
// The unique-id law.
// ---------------------------------------------------------------------

/// How many rows of the list table carry the given server id.
pub open spec fn list_id_count(rows: Seq<(u32, Seq<char>, Seq<char>, u16)>, id: u32) -> nat {
    rows.filter(|r: (u32, Seq<char>, Seq<char>, u16)| r.0 == id).len()
}

/// Saving the same list twice never yields two rows with its server id:
/// once a save appended the row, the id is present, so the contract of
/// `save_list` makes any further save of that id fail and leave the
/// rows unchanged; the count of rows carrying the id stays exactly one.
pub proof fn lemma_second_save_of_same_id_fails(
    rows: Seq<(u32, Seq<char>, Seq<char>, u16)>,
    row: (u32, Seq<char>, Seq<char>, u16),
)
    requires
        !has_list_id(rows, row.0),
    ensures
        has_list_id(rows.push(row), row.0),
        list_id_count(rows.push(row), row.0) == 1,
{
    let pred = |r: (u32, Seq<char>, Seq<char>, u16)| r.0 == row.0;
    assert(has_list_id(rows.push(row), row.0)) by {
        assert(rows.push(row)[rows.len() as int].0 == row.0);
    }
    lemma_no_id_filter_empty(rows, row.0);
    assert(rows.push(row) =~= rows + seq![row]);
    Seq::<(u32, Seq<char>, Seq<char>, u16)>::filter_distributes_over_add(rows, seq![row], pred);
    assert(seq![row].filter(pred) =~= seq![row]) by {
        reveal_with_fuel(Seq::filter, 3);
        assert(seq![row].drop_last() =~= Seq::<(u32, Seq<char>, Seq<char>, u16)>::empty());
    }
}

/// With no row carrying the id, the filtered rows are empty.
proof fn lemma_no_id_filter_empty(rows: Seq<(u32, Seq<char>, Seq<char>, u16)>, id: u32)
    requires
        !has_list_id(rows, id),
    ensures
        list_id_count(rows, id) == 0,
    decreases rows.len(),
{
    reveal_with_fuel(Seq::filter, 2);
    if rows.len() > 0 {
        assert(!has_list_id(rows.drop_last(), id)) by {
            assert forall|k: int|
                0 <= k < rows.drop_last().len() implies (#[trigger] rows.drop_last()[k]).0
                != id by {
                assert(rows[k].0 != id);
            }
        }
        lemma_no_id_filter_empty(rows.drop_last(), id);
        assert(rows.last().0 != id) by {
            assert(rows[rows.len() - 1].0 != id);
        }
    }
}

} // verus!
