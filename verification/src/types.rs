use vstd::prelude::*;

use crate::date::CheckvistDate;

verus! {

/// Location of an item in a Checkvist list: the list itself when
/// `parent_task_id` is `None`, otherwise a task within that list.
#[derive(Debug, Clone, PartialEq)]
pub struct CheckvistLocation {
    pub list_id: u32,
    pub parent_task_id: Option<u32>,
}

/// A remote task list. The identifier is assigned by the server and
/// never reused; `updated_at` carries the service's last-change stamp.
#[derive(Debug, Clone, PartialEq)]
pub struct Checklist {
    pub id: u32,
    pub name: String,
    pub updated_at: CheckvistDate,
    pub task_count: u16,
}

/// One item within a list. `id` is `None` for a task not yet created
/// remotely; the server's copy carries the assigned id. `parent_id`
/// of `None` means the task sits at the top level of its list.
#[derive(Debug, Clone, PartialEq)]
pub struct Task {
    pub id: Option<u32>,
    pub content: String,
    pub position: u16,
    pub parent_id: Option<u32>,
}

impl Checklist {
    /// A list is well formed when its timestamp is.
    pub open spec fn wf(self) -> bool {
        self.updated_at.wf()
    }
}

} // verus!
