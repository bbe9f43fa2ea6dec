//! Keyboard navigation: moving the selection up and down the list.

use crate::state::{AppView, TodoApp};
use crate::task::{views, Task, TaskView};
use vstd::prelude::*;

verus! {

/// The position of the first selected task of `s` at or after `from`, if
/// there is one.
pub open spec fn first_selected_from(s: Seq<TaskView>, from: int) -> Option<int>
    decreases s.len() - from,
{
    if from >= s.len() {
        None
    } else if s[from].selected {
        Some(from)
    } else {
        first_selected_from(s, from + 1)
    }
}

/// The position of the first selected task of `s`, if any is selected.
pub open spec fn first_selected(s: Seq<TaskView>) -> Option<int> {
    first_selected_from(s, 0)
}

/// A cursor as a position in the list.
pub open spec fn cursor_position(cursor: Option<usize>) -> Option<int> {
    match cursor {
        Some(i) => Some(i as int),
        None => None,
    }
}

/// `s` with the task at `i` selected or not, as `selected` says.
pub open spec fn with_selected_at(s: Seq<TaskView>, i: int, selected: bool) -> Seq<TaskView> {
    s.update(i, s[i].with_selected(selected))
}

/// The list after a step down from `cursor`. The selection passes from the
/// cursor to the task below it; at the last task, or with a cursor outside
/// the list, nothing changes. Without a cursor the first task is selected.
pub open spec fn step_down(s: Seq<TaskView>, cursor: Option<int>) -> Seq<TaskView> {
    match cursor {
        Some(i) => if 0 <= i && i + 1 < s.len() {
            with_selected_at(with_selected_at(s, i, false), i + 1, true)
        } else {
            s
        },
        None => if s.len() > 0 {
            with_selected_at(s, 0, true)
        } else {
            s
        },
    }
}

/// The list after a step up from `cursor`. The selection passes from the
/// cursor to the task above it; at the first task, or with a cursor outside
/// the list, nothing changes. Without a cursor the first task is selected.
pub open spec fn step_up(s: Seq<TaskView>, cursor: Option<int>) -> Seq<TaskView> {
    match cursor {
        Some(i) => if 0 < i < s.len() {
            with_selected_at(with_selected_at(s, i, false), i - 1, true)
        } else {
            s
        },
        None => if s.len() > 0 {
            with_selected_at(s, 0, true)
        } else {
            s
        },
    }
}

/// What `first_selected_from` finds is selected, lies in the list at or
/// after `from`, and has no selected task between `from` and itself.
pub proof fn lemma_first_selected_from(s: Seq<TaskView>, from: int)
    requires
        0 <= from,
    ensures
        match first_selected_from(s, from) {
            Some(i) => from <= i < s.len() && s[i].selected && forall|k: int|
                from <= k < i ==> !(#[trigger] s[k]).selected,
            None => forall|k: int| from <= k < s.len() ==> !(#[trigger] s[k]).selected,
        },
    decreases s.len() - from,
{
    if from < s.len() && !s[from].selected {
        lemma_first_selected_from(s, from + 1);
    }
}

impl AppView {
    /// The state after the move-down key.
    pub open spec fn move_down(self) -> AppView {
        AppView { tasks: step_down(self.tasks, first_selected(self.tasks)), ..self }
    }

    /// The state after the move-up key.
    pub open spec fn move_up(self) -> AppView {
        AppView { tasks: step_up(self.tasks, first_selected(self.tasks)), ..self }
    }
}

/// Selects or deselects the task at `i`.
fn set_selected(tasks: &mut Vec<Task>, i: usize, selected: bool)
    requires
        i < old(tasks)@.len(),
    ensures
        final(tasks)@.len() == old(tasks)@.len(),
        views(final(tasks)@) == with_selected_at(views(old(tasks)@), i as int, selected),
{
    tasks[i].selected = selected;
    assert(views(tasks@) =~= with_selected_at(views(old(tasks)@), i as int, selected));
}

/// Moves the selection from the cursor to the task below it.
fn select_below(tasks: &mut Vec<Task>, cursor: Option<usize>)
    ensures
        views(final(tasks)@) == step_down(views(old(tasks)@), cursor_position(cursor)),
{
    match cursor {
        Some(i) => {
            if i < tasks.len() && tasks.len() - i > 1 {
                set_selected(tasks, i, false);
                set_selected(tasks, i + 1, true);
            }
        },
        None => {
            if tasks.len() > 0 {
                set_selected(tasks, 0, true);
            }
        },
    }
}

/// Moves the selection from the cursor to the task above it.
fn select_above(tasks: &mut Vec<Task>, cursor: Option<usize>)
    ensures
        views(final(tasks)@) == step_up(views(old(tasks)@), cursor_position(cursor)),
{
    match cursor {
        Some(i) => {
            if 0 < i && i < tasks.len() {
                set_selected(tasks, i, false);
                set_selected(tasks, i - 1, true);
            }
        },
        None => {
            if tasks.len() > 0 {
                set_selected(tasks, 0, true);
            }
        },
    }
}

impl TodoApp {
    /// The position of the first selected task, if any task is selected.
    pub fn first_selected(&self) -> (cursor: Option<usize>)
        ensures
            cursor_position(cursor) == first_selected(self@.tasks),
            match cursor {
                Some(i) => i < self@.tasks.len() && self@.tasks[i as int].selected && forall|
                    k: int,
                | 0 <= k < i ==> !(#[trigger] self@.tasks[k]).selected,
                None => forall|k: int|
                    0 <= k < self@.tasks.len() ==> !(#[trigger] self@.tasks[k]).selected,
            },
    {
        let n = self.tasks.len();
        let mut i: usize = 0;
        while i < n
            invariant
                i <= n,
                n == self.tasks@.len(),
                first_selected(self@.tasks) == first_selected_from(self@.tasks, i as int),
                forall|k: int| 0 <= k < i ==> !(#[trigger] self@.tasks[k]).selected,
            decreases n - i,
        {
            if self.tasks[i].selected {
                assert(self@.tasks[i as int].selected);
                return Some(i);
            }
            assert(!self@.tasks[i as int].selected);
            i = i + 1;
        }
        None
    }

    /// The move-down key: the selection passes from the first selected task
    /// to the one below it, or, where nothing is selected, goes to the first
    /// task. At the end of the list nothing changes.
    pub fn move_down(&mut self)
        ensures
            final(self)@ == old(self)@.move_down(),
    {
        let cursor = self.first_selected();
        select_below(&mut self.tasks, cursor);
    }

    /// The move-up key: the selection passes from the first selected task to
    /// the one above it, or, where nothing is selected, goes to the first
    /// task. At the start of the list nothing changes.
    pub fn move_up(&mut self)
        ensures
            final(self)@ == old(self)@.move_up(),
    {
        let cursor = self.first_selected();
        select_above(&mut self.tasks, cursor);
    }
}

} // verus!
