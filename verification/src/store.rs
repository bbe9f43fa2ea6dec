//! The task store: adding, recoloring, deleting and restoring tasks, and
//! what storage keeps of the list.

use crate::order::{priority_class, sort_by_priority, sort_desc, sorted_desc};
use crate::state::{AppView, TodoApp};
use crate::task::{views, Task, TaskRecord, TaskRecordView, TaskView};
use crate::text::{is_blank, lemma_blank_iff_trimmed_empty, trim, trimmed};
use vstd::prelude::*;

verus! {

/// The autosave writes the list once more than this many seconds have passed
/// since it was last written.
pub const AUTOSAVE_INTERVAL_SECS: u64 = 30;

/// The name of the file that holds the list, inside the user's local data
/// directory.
pub const DATA_FILE_NAME: &'static str = "rust_tasks.json";

/// The selected tasks of `s`, in the order of `s`.
pub open spec fn selected_of(s: Seq<TaskView>) -> Seq<TaskView> {
    s.filter(|t: TaskView| t.selected)
}

/// The tasks of `s` that are not selected, in the order of `s`.
pub open spec fn unselected_of(s: Seq<TaskView>) -> Seq<TaskView> {
    s.filter(|t: TaskView| !t.selected)
}

/// `s` with every selected task colored `color`.
pub open spec fn recolored(s: Seq<TaskView>, color: [u8; 4]) -> Seq<TaskView> {
    s.map_values(
        |t: TaskView|
            if t.selected {
                t.with_color(color)
            } else {
                t
            },
    )
}

/// The values of a list of records, in order.
pub open spec fn record_views(records: Seq<TaskRecord>) -> Seq<TaskRecordView> {
    records.map_values(|r: TaskRecord| r@)
}

/// What storage keeps of the list `s`.
pub open spec fn records_of(s: Seq<TaskView>) -> Seq<TaskRecordView> {
    s.map_values(|t: TaskView| t.record())
}

/// The list that the stored `records` stand for.
pub open spec fn restored_from(records: Seq<TaskRecordView>) -> Seq<TaskView> {
    records.map_values(|r: TaskRecordView| TaskView::restored(r))
}

impl AppView {
    /// The state after an attempt to add a task with the text `text`, taken
    /// as it is. An empty text changes nothing. Otherwise the task joins the
    /// list with the draft's priority and color, the list is sorted, and the
    /// draft text is cleared.
    pub open spec fn push_task(self, text: Seq<char>) -> AppView {
        if text.len() == 0 {
            self
        } else {
            AppView {
                tasks: sort_desc(
                    self.tasks.push(
                        TaskView::fresh(text, self.new_task_priority, self.new_task_color),
                    ),
                ),
                new_task_text: Seq::empty(),
                ..self
            }
        }
    }

    /// The state after the draft is submitted: its text is trimmed and added.
    pub open spec fn add_task(self) -> AppView {
        self.push_task(trimmed(self.new_task_text))
    }

    /// The state after a preset color is chosen: the selected tasks and the
    /// draft take the color.
    pub open spec fn recolor_selected(self, color: [u8; 4]) -> AppView {
        AppView { tasks: recolored(self.tasks, color), new_task_color: color, ..self }
    }

    /// The state after the selected tasks are deleted: they leave the list
    /// and replace whatever the undo buffer held.
    pub open spec fn delete_selected(self) -> AppView {
        AppView {
            tasks: unselected_of(self.tasks),
            last_deleted_tasks: selected_of(self.tasks),
            ..self
        }
    }

    /// The state after an undo: the buffered tasks rejoin the list, which is
    /// sorted, and the buffer is emptied. With an empty buffer nothing
    /// changes.
    pub open spec fn undo_delete(self) -> AppView {
        if self.last_deleted_tasks.len() == 0 {
            self
        } else {
            AppView {
                tasks: sort_desc(self.tasks + self.last_deleted_tasks),
                last_deleted_tasks: Seq::empty(),
                ..self
            }
        }
    }

    /// Whether, at time `now`, the list is due to be written again.
    pub open spec fn autosave_due(self, now: u64) -> bool {
        now - self.last_save > AUTOSAVE_INTERVAL_SECS
    }

    /// The state after the autosave check at time `now`: a due write restarts
    /// the interval.
    pub open spec fn autosave_tick(self, now: u64) -> AppView {
        if self.autosave_due(now) {
            AppView { last_save: now, ..self }
        } else {
            self
        }
    }
}

/// The list to start with, given what was read from storage: the stored
/// tasks in their order with no editor open, or no task at all where nothing
/// usable was read.
pub fn load_tasks(stored: Option<Vec<TaskRecord>>) -> (tasks: Vec<Task>)
    ensures
        views(tasks@) == match stored {
            Some(records) => restored_from(record_views(records@)),
            None => Seq::empty(),
        },
{
    let mut tasks: Vec<Task> = Vec::new();
    match stored {
        Some(records) => {
            let ghost all = record_views(records@);
            for record in it: records
                invariant
                    record_views(it.seq()) == all,
                    views(tasks@) == restored_from(all.take(it.index())),
            {
                proof {
                    assert(all.take(it.index() + 1) =~= all.take(it.index()).push(record@));
                    assert(restored_from(all.take(it.index()).push(record@)) =~= restored_from(
                        all.take(it.index()),
                    ).push(TaskView::restored(record@)));
                }
                let ghost before = tasks@;
                let task = Task::from_record(record);
                tasks.push(task);
                assert(views(before.push(task)) =~= views(before).push(task@));
            }
            assert(all.take(all.len() as int) =~= all);
        },
        None => {
            assert(views(tasks@) =~= Seq::empty());
        },
    }
    tasks
}

impl TodoApp {
    /// Adds a task with the text `text`, taken as it is, and the draft's
    /// priority and color. An empty text is rejected. An accepted task
    /// leaves the list sorted and the draft text empty.
    pub fn push_task(&mut self, text: String)
        ensures
            final(self)@ == old(self)@.push_task(text@),
            text@.len() == 0 ==> final(self)@ == old(self)@,
            text@.len() > 0 ==> sorted_desc(final(self)@.tasks),
            text@.len() > 0 ==> forall|p: int|
                priority_class(final(self)@.tasks, p) == priority_class(
                    old(self)@.tasks.push(
                        TaskView::fresh(
                            text@,
                            old(self)@.new_task_priority,
                            old(self)@.new_task_color,
                        ),
                    ),
                    p,
                ),
    {
        if text.as_str().is_empty() {
            return ;
        }
        let ghost before = self.tasks@;
        let task = Task::new(text, self.new_task_priority, self.new_task_color);
        self.tasks.push(task);
        assert(views(before.push(task)) =~= views(before).push(task@));
        sort_by_priority(&mut self.tasks);
        self.new_task_text = String::new();
    }

    /// Submits the draft: trims its text and adds the task. A blank draft
    /// changes nothing.
    pub fn add_task(&mut self)
        ensures
            final(self)@ == old(self)@.add_task(),
            is_blank(old(self)@.new_task_text) ==> final(self)@ == old(self)@,
            !is_blank(old(self)@.new_task_text) ==> sorted_desc(final(self)@.tasks)
                && final(self)@.tasks.len() == old(self)@.tasks.len() + 1,
    {
        proof {
            lemma_blank_iff_trimmed_empty(self.new_task_text@);
            crate::order::lemma_sort_permutes(
                self@.tasks.push(
                    TaskView::fresh(
                        trimmed(self.new_task_text@),
                        self.new_task_priority,
                        self.new_task_color,
                    ),
                ),
            );
        }
        let text = trim(self.new_task_text.as_str());
        self.push_task(text);
    }

    /// Gives every selected task the color `color` and makes it the color of
    /// the draft.
    pub fn recolor_selected(&mut self, color: [u8; 4])
        ensures
            final(self)@ == old(self)@.recolor_selected(color),
    {
        let n = self.tasks.len();
        let ghost before = views(self.tasks@);
        let mut i: usize = 0;
        while i < n
            invariant
                i <= n,
                n == self.tasks@.len(),
                before.len() == n,
                forall|k: int| 0 <= k < i ==> views(self.tasks@)[k] == recolored(before, color)[k],
                forall|k: int| i <= k < n ==> views(self.tasks@)[k] == before[k],
                self.new_task_text == old(self).new_task_text,
                self.new_task_priority == old(self).new_task_priority,
                self.last_save == old(self).last_save,
                self.last_deleted_tasks == old(self).last_deleted_tasks,
                self.dragging_task == old(self).dragging_task,
                self.drag_over_task == old(self).drag_over_task,
            decreases n - i,
        {
            if self.tasks[i].selected {
                self.tasks[i].color = color;
            }
            i = i + 1;
        }
        self.new_task_color = color;
        assert(views(self.tasks@) =~= recolored(before, color));
    }

    /// Deletes the selected tasks: they move, in list order, into the undo
    /// buffer, whose earlier content is lost.
    pub fn delete_selected(&mut self)
        ensures
            final(self)@ == old(self)@.delete_selected(),
    {
        let mut all: Vec<Task> = Vec::new();
        core::mem::swap(&mut self.tasks, &mut all);
        let mut deleted: Vec<Task> = Vec::new();
        let ghost before = views(all@);
        proof {
            broadcast use Seq::lemma_filter_len;

            assert(before.take(0) =~= Seq::empty());
            assert(views(self.tasks@) =~= unselected_of(before.take(0)));
            assert(views(deleted@) =~= selected_of(before.take(0)));
        }
        for task in it: all
            invariant
                views(it.seq()) == before,
                views(self.tasks@) == unselected_of(before.take(it.index())),
                views(deleted@) == selected_of(before.take(it.index())),
                self.new_task_text == old(self).new_task_text,
                self.new_task_priority == old(self).new_task_priority,
                self.new_task_color == old(self).new_task_color,
                self.last_save == old(self).last_save,
                self.dragging_task == old(self).dragging_task,
                self.drag_over_task == old(self).drag_over_task,
        {
            proof {
                broadcast use Seq::lemma_filter_push;

                assert(before.take(it.index() + 1) =~= before.take(it.index()).push(task@));
            }
            let ghost kept = self.tasks@;
            let ghost gone = deleted@;
            if task.selected {
                deleted.push(task);
                assert(views(gone.push(task)) =~= views(gone).push(task@));
            } else {
                self.tasks.push(task);
                assert(views(kept.push(task)) =~= views(kept).push(task@));
            }
        }
        assert(before.take(before.len() as int) =~= before);
        self.last_deleted_tasks = deleted;
    }

    /// Brings back the tasks of the latest deletion, sorts the list and
    /// empties the undo buffer. With an empty buffer nothing changes.
    pub fn undo_delete(&mut self)
        ensures
            final(self)@ == old(self)@.undo_delete(),
            old(self)@.last_deleted_tasks.len() > 0 ==> sorted_desc(final(self)@.tasks),
            final(self)@.last_deleted_tasks.len() == 0,
    {
        if self.last_deleted_tasks.len() > 0 {
            let ghost kept = self.tasks@;
            let ghost back = self.last_deleted_tasks@;
            self.tasks.append(&mut self.last_deleted_tasks);
            proof {
                assert(views(kept + back) =~= views(kept) + views(back));
                assert(views(self.last_deleted_tasks@) =~= Seq::empty());
            }
            sort_by_priority(&mut self.tasks);
        } else {
            assert(views(self.last_deleted_tasks@).len() == 0);
        }
    }

    /// Whether any task is selected.
    pub fn any_selected(&self) -> (any: bool)
        ensures
            any == exists|i: int| 0 <= i < self@.tasks.len() && self@.tasks[i].selected,
    {
        let n = self.tasks.len();
        let mut i: usize = 0;
        while i < n
            invariant
                i <= n,
                n == self.tasks@.len(),
                forall|k: int| 0 <= k < i ==> !self@.tasks[k].selected,
            decreases n - i,
        {
            if self.tasks[i].selected {
                assert(self@.tasks[i as int].selected);
                return true;
            }
            i = i + 1;
        }
        false
    }

    /// The autosave check at time `now`. Returns whether the list is to be
    /// written now; if so the interval starts again.
    pub fn autosave_tick(&mut self, now: u64) -> (due: bool)
        ensures
            due == old(self)@.autosave_due(now),
            final(self)@ == old(self)@.autosave_tick(now),
    {
        if now > self.last_save && now - self.last_save > AUTOSAVE_INTERVAL_SECS {
            self.last_save = now;
            true
        } else {
            false
        }
    }

    /// What storage keeps of the list: a record of each task, in list order.
    pub fn records(&self) -> (records: Vec<TaskRecord>)
        ensures
            record_views(records@) == records_of(self@.tasks),
    {
        let n = self.tasks.len();
        let mut records: Vec<TaskRecord> = Vec::new();
        let mut i: usize = 0;
        while i < n
            invariant
                i <= n,
                n == self.tasks@.len(),
                records@.len() == i,
                forall|k: int| 0 <= k < i ==> (#[trigger] records@[k])@ == self@.tasks[k].record(),
            decreases n - i,
        {
            let record = self.tasks[i].to_record();
            records.push(record);
            i = i + 1;
        }
        assert(record_views(records@) =~= records_of(self@.tasks));
        records
    }
}

} // verus!
