use vstd::prelude::*;

use crate::client::CheckvistClient;
use crate::client::TokenSink;
use crate::errors::CheckvistError;
use crate::store::SqliteStore;
use crate::store::cl_rows;
use crate::store::tk_rows;
use crate::types::Checklist;
use crate::types::Task;

verus! {

// The cache-backed client: reads are served from the local store,
// writes go to the network; an explicit sync fetches the remote data
// and replaces the cached rows wholesale. The cache is a disposable
// mirror, never a source of truth.

/// Full replace of the cached lists: afterwards the store holds
/// exactly the given lists — nothing of what it held before survives.
pub fn replace_lists(store: &mut SqliteStore, lists: &Vec<Checklist>) -> (r: Result<
    (),
    CheckvistError,
>)
    requires
        forall|k: int| 0 <= k < lists@.len() ==> (#[trigger] lists@[k]).updated_at.wf(),
    ensures
        match r {
            Ok(_) => final(store).lists() == cl_rows(lists@) && final(store).tasks() == old(
                store,
            ).tasks(),
            Err(e) => e is SqliteError && final(store).tasks() == old(store).tasks(),
        },
{
    match store.temp_delete_lists() {
        Ok(_) => {},
        Err(e) => {
            return Err(e);
        },
    }
    match store.save_lists(lists) {
        Ok(_) => {},
        Err(e) => {
            return Err(e);
        },
    }
    assert(store.lists() =~= cl_rows(lists@));
    Ok(())
}

/// Full replace of the cached tasks of one list: afterwards the store
/// holds exactly the given tasks for that list, other lists' tasks
/// untouched.
pub fn replace_tasks(store: &mut SqliteStore, list_id: u32, tasks: &Vec<Task>) -> (r: Result<
    (),
    CheckvistError,
>)
    requires
        forall|k: int| 0 <= k < tasks@.len() ==> (#[trigger] tasks@[k]).id is Some,
    ensures
        match r {
            Ok(_) => final(store).tasks() == old(store).tasks().filter(
                |t: (u32, u32, Seq<char>, u16, Option<u32>)| t.1 != list_id,
            ) + tk_rows(tasks@, list_id) && final(store).lists() == old(store).lists(),
            Err(e) => e is SqliteError && final(store).lists() == old(store).lists(),
        },
{
    match store.temp_delete_tasks(list_id) {
        Ok(_) => {},
        Err(e) => {
            return Err(e);
        },
    }
    match store.save_tasks(list_id, tasks) {
        Ok(_) => {},
        Err(e) => {
            return Err(e);
        },
    }
    Ok(())
}

fn all_lists_wf(lists: &Vec<Checklist>) -> (r: bool)
    ensures
        r == forall|k: int| 0 <= k < lists@.len() ==> (#[trigger] lists@[k]).updated_at.wf(),
{
    let n = lists.len();
    let mut i: usize = 0;
    while i < n
        invariant
            n == lists@.len(),
            i <= n,
            forall|k: int| 0 <= k < i ==> (#[trigger] lists@[k]).updated_at.wf(),
        decreases n - i,
    {
        if !lists[i].updated_at.is_wf() {
            return false;
        }
        i = i + 1;
    }
    true
}

fn all_tasks_have_ids(tasks: &Vec<Task>) -> (r: bool)
    ensures
        r == forall|k: int| 0 <= k < tasks@.len() ==> (#[trigger] tasks@[k]).id is Some,
{
    let n = tasks.len();
    let mut i: usize = 0;
    while i < n
        invariant
            n == tasks@.len(),
            i <= n,
            forall|k: int| 0 <= k < i ==> (#[trigger] tasks@[k]).id is Some,
        decreases n - i,
    {
        if tasks[i].id.is_none() {
            return false;
        }
        i = i + 1;
    }
    true
}

/// A client that serves list and task reads from the local cache and
/// sends writes to the network.
pub struct SqliteSyncClient<C: TokenSink> {
    api_client: CheckvistClient<C>,
    store: SqliteStore,
}

impl<C: TokenSink> SqliteSyncClient<C> {
    /// The cached list rows.
    pub closed spec fn cached_lists(&self) -> Seq<(u32, Seq<char>, Seq<char>, u16)> {
        self.store.lists()
    }

    /// The cached task rows.
    pub closed spec fn cached_tasks(&self) -> Seq<(u32, u32, Seq<char>, u16, Option<u32>)> {
        self.store.tasks()
    }

    pub fn new(checkvist_client: CheckvistClient<C>, store: SqliteStore) -> (r: Self)
        ensures
            r.cached_lists() == store.lists(),
            r.cached_tasks() == store.tasks(),
    {
        SqliteSyncClient { api_client: checkvist_client, store }
    }

    /// Fetch the remote lists and mirror them wholesale into the cache:
    /// on success the cache holds exactly what the server returned.
    pub fn sync_lists(&mut self) -> (r: Result<(), CheckvistError>)
        ensures
            match r {
                Ok(_) => final(self).cached_tasks() == old(self).cached_tasks() && exists|
                    ls: Seq<Checklist>,
                | final(self).cached_lists() == #[trigger] cl_rows(ls),
                Err(e) => final(self).cached_tasks() == old(self).cached_tasks() && (!(
                e is SqliteError) ==> final(self).cached_lists() == old(self).cached_lists()),
            },
    {
        let lists = match self.api_client.get_lists() {
            Ok(lists) => lists,
            Err(e) => {
                return Err(e);
            },
        };
        if !all_lists_wf(&lists) {
            return Err(
                CheckvistError::DecodeError {
                    message: String::from_str("server returned a list with an impossible timestamp"),
                },
            );
        }
        let r = replace_lists(&mut self.store, &lists);
        proof {
            if r is Ok {
                assert(self.store.lists() == cl_rows(lists@));
            }
        }
        r
    }

    /// Fetch the remote tasks of one list and mirror them wholesale
    /// into the cache. A task the server returned without an id is
    /// refused: the cache never holds an id-less task.
    pub fn sync_tasks(&mut self, list_id: u32) -> (r: Result<(), CheckvistError>)
        ensures
            match r {
                Ok(_) => final(self).cached_lists() == old(self).cached_lists() && exists|
                    ts: Seq<Task>,
                | final(self).cached_tasks() == old(self).cached_tasks().filter(
                    |t: (u32, u32, Seq<char>, u16, Option<u32>)| t.1 != list_id,
                ) + #[trigger] tk_rows(ts, list_id),
                Err(e) => final(self).cached_lists() == old(self).cached_lists() && (!(
                e is SqliteError) ==> final(self).cached_tasks() == old(self).cached_tasks()),
            },
    {
        let tasks = match self.api_client.get_tasks(list_id) {
            Ok(tasks) => tasks,
            Err(e) => {
                return Err(e);
            },
        };
        if !all_tasks_have_ids(&tasks) {
            return Err(
                CheckvistError::DecodeError {
                    message: String::from_str("server returned a task without an id"),
                },
            );
        }
        let r = replace_tasks(&mut self.store, list_id, &tasks);
        proof {
            if r is Ok {
                assert(self.store.tasks() == old(self).cached_tasks().filter(
                    |t: (u32, u32, Seq<char>, u16, Option<u32>)| t.1 != list_id,
                ) + tk_rows(tasks@, list_id));
            }
        }
        r
    }

    /// Read the lists from the cache alone; the network is not touched.
    pub fn get_lists(&self) -> (r: Result<Vec<Checklist>, CheckvistError>)
        ensures
            match r {
                Ok(v) => cl_rows(v@).to_multiset() == self.cached_lists().to_multiset(),
                Err(_) => true,
            },
    {
        self.store.fetch_all_lists()
    }

    /// Read one list's tasks from the cache alone.
    pub fn get_tasks(&self, list_id: u32) -> (r: Result<Vec<Task>, CheckvistError>)
        ensures
            match r {
                Ok(v) => tk_rows(v@, list_id).to_multiset() == self.cached_tasks().filter(
                    |t: (u32, u32, Seq<char>, u16, Option<u32>)| t.1 == list_id,
                ).to_multiset(),
                Err(_) => true,
            },
    {
        self.store.fetch_tasks_for_list(list_id)
    }

    /// Delegate straight to the network.
    pub fn get_list(&mut self, list_id: u32) -> (r: Result<Checklist, CheckvistError>)
        ensures
            final(self).cached_lists() == old(self).cached_lists(),
            final(self).cached_tasks() == old(self).cached_tasks(),
    {
        self.api_client.get_list(list_id)
    }

    /// Delegate straight to the network; the cache is not updated.
    pub fn add_list(&mut self, list_name: &str) -> (r: Result<Checklist, CheckvistError>)
        ensures
            final(self).cached_lists() == old(self).cached_lists(),
            final(self).cached_tasks() == old(self).cached_tasks(),
    {
        self.api_client.add_list(list_name)
    }

    /// Delegate straight to the network; the cache is not updated.
    pub fn add_task(&mut self, list_id: u32, task: &Task) -> (r: Result<Task, CheckvistError>)
        ensures
            final(self).cached_lists() == old(self).cached_lists(),
            final(self).cached_tasks() == old(self).cached_tasks(),
    {
        self.api_client.add_task(list_id, task)
    }
}

/// A minimal cache-backed client for lists alone: syncing appends the
/// fetched lists to the cache without clearing it first.
pub struct PersistentCheckvistClient<C: TokenSink> {
    checkvist_client: CheckvistClient<C>,
    store: SqliteStore,
}

impl<C: TokenSink> PersistentCheckvistClient<C> {
    /// The cached list rows.
    pub closed spec fn cached_lists(&self) -> Seq<(u32, Seq<char>, Seq<char>, u16)> {
        self.store.lists()
    }

    pub fn new(checkvist_client: CheckvistClient<C>, store: SqliteStore) -> (r: Self)
        ensures
            r.cached_lists() == store.lists(),
    {
        PersistentCheckvistClient { checkvist_client, store }
    }

    /// Fetch the remote lists and append them to the cache.
    pub fn sync_lists(&mut self) -> (r: Result<(), CheckvistError>)
        ensures
            r is Ok ==> exists|ls: Seq<Checklist>|
                final(self).cached_lists() == old(self).cached_lists() + #[trigger] cl_rows(ls),
            r matches Err(e) && !(e is SqliteError) ==> final(self).cached_lists() == old(
                self,
            ).cached_lists(),
    {
        let lists = match self.checkvist_client.get_lists() {
            Ok(lists) => lists,
            Err(e) => {
                return Err(e);
            },
        };
        if !all_lists_wf(&lists) {
            return Err(
                CheckvistError::DecodeError {
                    message: String::from_str("server returned a list with an impossible timestamp"),
                },
            );
        }
        match self.store.save_lists(&lists) {
            Ok(_) => {
                proof {
                    assert(self.store.lists() == old(self).cached_lists() + cl_rows(lists@));
                }
                Ok(())
            },
            Err(e) => Err(e),
        }
    }

    /// Read the lists from the cache alone.
    pub fn fetch_all_lists(&self) -> (r: Result<Vec<Checklist>, CheckvistError>)
        ensures
            match r {
                Ok(v) => cl_rows(v@).to_multiset() == self.cached_lists().to_multiset(),
                Err(_) => true,
            },
    {
        self.store.fetch_all_lists()
    }
}

} // verus!
