//! The application state: the list, the draft of the next task, the undo
//! buffer and the pending drag.

use crate::task::{all_offered, offered, views, Task, TaskView, PRIORITY_MIN};
use vstd::prelude::*;

verus! {

/// The color of the first draft: opaque white.
pub const DEFAULT_COLOR: [u8; 4] = [255, 255, 255, 255];

/// Everything the application keeps between frames.
#[derive(Clone, Debug, PartialEq, Eq)]
pub struct TodoApp {
    /// The tasks in display order.
    pub tasks: Vec<Task>,
    /// The text typed for the next task.
    pub new_task_text: String,
    /// The priority chosen for the next task.
    pub new_task_priority: u8,
    /// The color chosen for the next task.
    pub new_task_color: [u8; 4],
    /// When the list was last written to storage, in seconds of the clock
    /// that drives the autosave.
    pub last_save: u64,
    /// The tasks that the latest deletion removed.
    pub last_deleted_tasks: Vec<Task>,
    /// Where a drag began.
    pub dragging_task: Option<usize>,
    /// Where the pointer was last released.
    pub drag_over_task: Option<usize>,
}

/// The mathematical value of a [`TodoApp`].
pub struct AppView {
    pub tasks: Seq<TaskView>,
    pub new_task_text: Seq<char>,
    pub new_task_priority: u8,
    pub new_task_color: [u8; 4],
    pub last_save: u64,
    pub last_deleted_tasks: Seq<TaskView>,
    pub dragging_task: Option<usize>,
    pub drag_over_task: Option<usize>,
}

impl View for TodoApp {
    type V = AppView;

    open spec fn view(&self) -> AppView {
        AppView {
            tasks: views(self.tasks@),
            new_task_text: self.new_task_text@,
            new_task_priority: self.new_task_priority,
            new_task_color: self.new_task_color,
            last_save: self.last_save,
            last_deleted_tasks: views(self.last_deleted_tasks@),
            dragging_task: self.dragging_task,
            drag_over_task: self.drag_over_task,
        }
    }
}

impl AppView {
    /// The state at the start: the list holds `tasks`, the draft is empty
    /// with the least priority and the default color, nothing is to be
    /// undone and no drag is pending.
    pub open spec fn starting(tasks: Seq<TaskView>, now: u64) -> AppView {
        AppView {
            tasks,
            new_task_text: Seq::empty(),
            new_task_priority: PRIORITY_MIN,
            new_task_color: DEFAULT_COLOR,
            last_save: now,
            last_deleted_tasks: Seq::empty(),
            dragging_task: None,
            drag_over_task: None,
        }
    }
}

impl AppView {
    /// The draft and every task, in the list and in the undo buffer, have a
    /// priority that a priority editor offers.
    pub open spec fn priorities_offered(self) -> bool {
        &&& offered(self.new_task_priority)
        &&& all_offered(self.tasks)
        &&& all_offered(self.last_deleted_tasks)
    }
}

impl TodoApp {
    /// The state at the start of a session that begins at time `now` with
    /// the list `tasks`.
    pub fn with_tasks(tasks: Vec<Task>, now: u64) -> (app: TodoApp)
        ensures
            app@ == AppView::starting(views(tasks@), now),
    {
        let app = TodoApp {
            tasks,
            new_task_text: String::new(),
            new_task_priority: PRIORITY_MIN,
            new_task_color: DEFAULT_COLOR,
            last_save: now,
            last_deleted_tasks: Vec::new(),
            dragging_task: None,
            drag_over_task: None,
        };
        assert(views(app.last_deleted_tasks@) =~= Seq::empty());
        app
    }
}

impl Default for TodoApp {
    /// An empty list at time zero.
    fn default() -> (app: TodoApp)
        ensures
            app@ == AppView::starting(Seq::empty(), 0),
    {
        let app = TodoApp::with_tasks(Vec::new(), 0);
        assert(app@.tasks =~= Seq::empty());
        app
    }
}

} // verus!
