//! The task entity and the names the store gives its columns.
use vstd::prelude::*;

verus! {

/// The id column shared by every table.
#[derive(Debug, Clone, Copy, PartialEq, Eq, Structural)]
pub enum CommonIden {
    Id,
}

/// The columns that record who changed a row and when.
#[derive(Debug, Clone, Copy, PartialEq, Eq, Structural)]
pub enum TimestampIden {
    Cid,
    Ctime,
    Mid,
    Mtime,
}

impl CommonIden {
    /// The column's name in the store.
    pub fn column_name(&self) -> (r: &'static str)
        ensures
            r@ == seq!['i', 'd'],
    {
        proof {
            reveal_strlit("id");
        }
        "id"
    }
}

impl TimestampIden {
    /// The column's name in the store.
    pub fn column_name(&self) -> (r: &'static str)
        ensures
            r@ == match *self {
                TimestampIden::Cid => seq!['c', 'i', 'd'],
                TimestampIden::Ctime => seq!['c', 't', 'i', 'm', 'e'],
                TimestampIden::Mid => seq!['m', 'i', 'd'],
                TimestampIden::Mtime => seq!['m', 't', 'i', 'm', 'e'],
            },
    {
        match self {
            TimestampIden::Cid => {
                proof {
                    reveal_strlit("cid");
                }
                "cid"
            },
            TimestampIden::Ctime => {
                proof {
                    reveal_strlit("ctime");
                }
                "ctime"
            },
            TimestampIden::Mid => {
                proof {
                    reveal_strlit("mid");
                }
                "mid"
            },
            TimestampIden::Mtime => {
                proof {
                    reveal_strlit("mtime");
                }
                "mtime"
            },
        }
    }
}

#[derive(Debug, Clone)]
pub struct Task {
    pub id: i64,
    pub title: String,
    pub done: bool,
}

pub struct TaskForCreate {
    pub title: String,
}

pub struct TaskForUpdate {
    pub title: Option<String>,
    pub done: Option<bool>,
}

impl Default for TaskForUpdate {
    fn default() -> (r: Self)
        ensures
            r.title is None,
            r.done is None,
    {
        TaskForUpdate { title: None, done: None }
    }
}

impl TaskForUpdate {
    /// `task` with the fields that this update sets replaced.
    pub fn apply(self, task: Task) -> (r: Task)
        ensures
            r.id == task.id,
            r.title@ == match self.title {
                Some(t) => t@,
                None => task.title@,
            },
            r.done == match self.done {
                Some(d) => d,
                None => task.done,
            },
    {
        let title = match self.title {
            Some(t) => t,
            None => task.title,
        };
        let done = match self.done {
            Some(d) => d,
            None => task.done,
        };
        Task { id: task.id, title, done }
    }
}

/// Access to the task table.
#[derive(Debug, Clone, Copy, PartialEq, Eq, Structural)]
pub struct TaskBmc;

impl TaskBmc {
    /// The table's name in the store.
    pub fn table(&self) -> (r: &'static str)
        ensures
            r@ == seq!['t', 'a', 's', 'k'],
    {
        proof {
            reveal_strlit("task");
        }
        "task"
    }
}

/// The fields of a new project.
pub struct ProjectForCreate {
    pub name: String,
}

/// The fields of a project that an update may set.
pub struct ProjectForUpdate {
    pub name: Option<String>,
}

/// What a project listing may filter on.
pub struct ProjectFilter {
    pub name: Option<String>,
}

} // verus!
