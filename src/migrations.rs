use vstd::prelude::*;

verus! {

/// The number of schema migrations; they run in order of their ids.
pub const MIGRATION_COUNT: usize = 1;

/// The first schema migration: the tables of projects, tasks, contexts,
/// time logs and ignored branches.
pub const SCHEMA: &'static str = "
  CREATE TABLE IF NOT EXISTS projects (
    id              INTEGER PRIMARY KEY,
    name            TEXT NOT NULL,
    inserted_at     DATETIME NOT NULL,
    updated_at      DATETIME NOT NULL
  );

  CREATE TABLE IF NOT EXISTS tasks (
    id              INTEGER PRIMARY KEY,
    project_id      INTEGER NOT NULL,
    name            TEXT NOT NULL,
    inserted_at     DATETIME NOT NULL,
    updated_at      DATETIME NOT NULL,

    FOREIGN KEY (project_id) REFERENCES projects (id) ON DELETE CASCADE
  );

  CREATE TABLE IF NOT EXISTS contexts (
    id              INTEGER PRIMARY KEY,
    project_id      INTEGER NOT NULL,
    task_id         INTEGER NULL,
    context         TEXT NOT NULL,
    inserted_at     DATETIME NOT NULL,
    updated_at      DATETIME NOT NULL,

    FOREIGN KEY (project_id) REFERENCES projects (id) ON DELETE CASCADE,
    FOREIGN KEY (task_id) REFERENCES tasks (id) ON DELETE CASCADE,
    UNIQUE(project_id, task_id, context)
  );

  CREATE TABLE IF NOT EXISTS task_logs (
    id              INTEGER PRIMARY KEY,
    task_id         INTEGER NOT NULL,
    name            TEXT NOT NULL,
    minutes         INTEGER NOT NULL,
    inserted_at     DATETIME NOT NULL,
    updated_at      DATETIME NOT NULL,

    FOREIGN KEY (task_id) REFERENCES tasks (id) ON DELETE CASCADE
  );

  CREATE TABLE IF NOT EXISTS ignored (
    id              INTEGER PRIMARY KEY,
    context         TEXT NOT NULL,
    inserted_at     DATETIME NOT NULL,
    updated_at      DATETIME NOT NULL
  );
  ";

/// The schema migration with the given id.
pub fn migration_query(id: usize) -> (r: Option<&'static str>)
    ensures
        r.is_some() == (id < MIGRATION_COUNT),
        id == 0 ==> r == Some(SCHEMA),
{
    if id == 0 {
        Some(SCHEMA)
    } else {
        None
    }
}

/// The id of the first migration still to run, given the id of the last one
/// that ran: the one after it, and the first of all where none ran (or the
/// recorded id lies below every id).
pub open spec fn first_pending(last_applied: Option<int>) -> int {
    match last_applied {
        None => 0,
        Some(id) => if id < 0 {
            0
        } else {
            id + 1
        },
    }
}

/// The ids of the migrations still to run, in the order they run in.
pub open spec fn pending_ids(last_applied: Option<int>) -> Seq<int> {
    let first = first_pending(last_applied);
    if first >= MIGRATION_COUNT {
        seq![]
    } else {
        Seq::new((MIGRATION_COUNT - first) as nat, |k: int| first + k)
    }
}

/// Decides which migrations to run from the id of the last one that ran
/// (`None` where none has).
pub fn run_migrations(last_applied: Option<i64>) -> (pending: Vec<usize>)
    ensures
        pending@.map_values(|id: usize| id as int) == pending_ids(
            match last_applied {
                Some(id) => Some(id as int),
                None => None,
            },
        ),
{
    let ghost last = match last_applied {
        Some(id) => Some(id as int),
        None => None,
    };
    let first: usize = match last_applied {
        None => 0,
        Some(id) => {
            if id < 0 {
                0
            } else if id >= MIGRATION_COUNT as i64 {
                MIGRATION_COUNT
            } else {
                (id + 1) as usize
            }
        },
    };
    assert(first as int == first_pending(last) || (first == MIGRATION_COUNT && first_pending(last) >= MIGRATION_COUNT));
    let mut pending: Vec<usize> = Vec::new();
    let mut i: usize = first;
    while i < MIGRATION_COUNT
        invariant
            first <= i <= MIGRATION_COUNT || (first == i && i >= MIGRATION_COUNT),
            pending@.len() == i - first,
            forall|k: int| 0 <= k < pending@.len() ==> pending@[k] == first + k,
        decreases MIGRATION_COUNT - i,
    {
        pending.push(i);
        i = i + 1;
    }
    assert(pending@.map_values(|id: usize| id as int) =~= pending_ids(last));
    pending
}

/// Decides whether the store must be opened: only where no connection is
/// open yet.
pub fn maybe_open_db(connected: bool) -> (open: bool)
    ensures
        open == !connected,
{
    !connected
}

} // verus!
