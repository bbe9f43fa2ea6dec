//! Pointer input on a task's body, and reordering the list by dragging.

use crate::state::{AppView, TodoApp};
use crate::task::{clamp, clamp_priority, clamped, views, Task, TaskView};
use crate::task::{PRIORITY_MAX, PRIORITY_MIN};
use vstd::prelude::*;

verus! {

/// What the pointer did to the body of a task during one frame.
#[derive(Clone, Copy, Debug, PartialEq, Eq)]
pub struct BodyInput {
    /// The body was clicked.
    pub clicked: bool,
    /// The body was double-clicked.
    pub double_clicked: bool,
    /// A drag began on the body.
    pub drag_started: bool,
    /// The pointer is over the body.
    pub hovered: bool,
    /// The pointer button was released.
    pub pointer_released: bool,
}

/// The smaller of two priorities.
pub open spec fn lower(a: u8, b: u8) -> u8 {
    if a <= b {
        a
    } else {
        b
    }
}

/// The greater of two priorities.
pub open spec fn higher(a: u8, b: u8) -> u8 {
    if a <= b {
        b
    } else {
        a
    }
}

/// `s` with the task at `from` taken out and put back at `to`.
pub open spec fn moved(s: Seq<TaskView>, from: int, to: int) -> Seq<TaskView> {
    s.remove(from).insert(to, s[from])
}

/// The priority that fits the task at `at` to its neighbors. At the head of
/// the list it is the priority of the task below, at the tail that of the
/// task above, each brought into the range that an editor offers. In between
/// it is the task's own priority brought into the range that the two
/// neighbors span. A task alone keeps its priority.
pub open spec fn rebalanced_priority(s: Seq<TaskView>, at: int) -> u8 {
    if at == 0 {
        if s.len() > 1 {
            clamped(s[1].priority, PRIORITY_MIN, PRIORITY_MAX)
        } else {
            s[at].priority
        }
    } else if at == s.len() - 1 {
        clamped(s[at - 1].priority, PRIORITY_MIN, PRIORITY_MAX)
    } else {
        clamped(
            s[at].priority,
            lower(s[at - 1].priority, s[at + 1].priority),
            higher(s[at - 1].priority, s[at + 1].priority),
        )
    }
}

/// `s` with the priority of the task at `at` fitted to its neighbors.
pub open spec fn rebalanced(s: Seq<TaskView>, at: int) -> Seq<TaskView> {
    s.update(at, s[at].with_priority(rebalanced_priority(s, at)))
}

/// `s` after the task at `from` was dragged to `to`: the task is moved and
/// its priority fitted to its new neighbors. The list is not sorted again.
/// A drag onto the task itself, or with a position outside the list, changes
/// nothing.
pub open spec fn reordered(s: Seq<TaskView>, from: int, to: int) -> Seq<TaskView> {
    if from != to && 0 <= from < s.len() && 0 <= to < s.len() {
        rebalanced(moved(s, from, to), to)
    } else {
        s
    }
}

impl AppView {
    /// The state after pointer input to the body of the task at `index`. A
    /// double click opens the text editor, a click toggles the selection, a
    /// drag that begins marks the task as the drag's source, and a release
    /// of the pointer over the task marks it as the drop target. A task
    /// whose text is open in an editor, or a position outside the list,
    /// takes no such input.
    pub open spec fn body_input(self, index: usize, input: BodyInput) -> AppView {
        if index < self.tasks.len() && !self.tasks[index as int].editing {
            let task = self.tasks[index as int];
            AppView {
                tasks: self.tasks.update(
                    index as int,
                    TaskView {
                        editing: input.double_clicked,
                        selected: if input.clicked {
                            !task.selected
                        } else {
                            task.selected
                        },
                        ..task
                    },
                ),
                dragging_task: if input.drag_started {
                    Some(index)
                } else {
                    self.dragging_task
                },
                drag_over_task: if input.hovered && input.pointer_released {
                    Some(index)
                } else {
                    self.drag_over_task
                },
                ..self
            }
        } else {
            self
        }
    }

    /// The state after a frame's drag is resolved. With both a source and a
    /// target recorded, the list is reordered and both are forgotten, whether
    /// or not the list changed. Otherwise nothing changes.
    pub open spec fn resolve_drag(self) -> AppView {
        match (self.dragging_task, self.drag_over_task) {
            (Some(from), Some(to)) => AppView {
                tasks: reordered(self.tasks, from as int, to as int),
                dragging_task: None,
                drag_over_task: None,
                ..self
            },
            _ => self,
        }
    }
}

/// The priority that fits the task at `at` to its neighbors.
fn fitting_priority(tasks: &Vec<Task>, at: usize) -> (priority: u8)
    requires
        at < tasks@.len(),
    ensures
        priority == rebalanced_priority(views(tasks@), at as int),
{
    let len = tasks.len();
    if at == 0 {
        if len > 1 {
            clamp_priority(tasks[1].priority)
        } else {
            tasks[at].priority
        }
    } else if at == len - 1 {
        clamp_priority(tasks[at - 1].priority)
    } else {
        let above = tasks[at - 1].priority;
        let below = tasks[at + 1].priority;
        let (low, high) = if above <= below {
            (above, below)
        } else {
            (below, above)
        };
        clamp(tasks[at].priority, low, high)
    }
}

/// Moves the task at `from` to `to` and fits its priority to its new
/// neighbors. A move onto itself, or with a position outside the list,
/// changes nothing.
pub fn reorder(tasks: &mut Vec<Task>, from: usize, to: usize)
    ensures
        views(final(tasks)@) == reordered(views(old(tasks)@), from as int, to as int),
        final(tasks)@.len() == old(tasks)@.len(),
{
    if from != to && from < tasks.len() && to < tasks.len() {
        let ghost before = views(tasks@);
        let task = tasks.remove(from);
        tasks.insert(to, task);
        assert(views(tasks@) =~= moved(before, from as int, to as int));
        let priority = fitting_priority(tasks, to);
        let ghost placed = views(tasks@);
        tasks[to].priority = priority;
        assert(views(tasks@) =~= rebalanced(placed, to as int));
    }
}

impl TodoApp {
    /// Applies one frame's pointer input to the body of the task at `index`.
    pub fn body_input(&mut self, index: usize, input: BodyInput)
        ensures
            final(self)@ == old(self)@.body_input(index, input),
    {
        if index < self.tasks.len() && !self.tasks[index].editing {
            if input.double_clicked {
                self.tasks[index].editing = true;
            }
            if input.clicked {
                self.tasks[index].selected = !self.tasks[index].selected;
            }
            if input.drag_started {
                self.dragging_task = Some(index);
            }
            if input.hovered && input.pointer_released {
                self.drag_over_task = Some(index);
            }
            assert(self@.tasks =~= old(self)@.body_input(index, input).tasks);
        }
    }

    /// Resolves the frame's drag: with both a source and a target recorded,
    /// reorders the list and forgets both.
    pub fn resolve_drag(&mut self)
        ensures
            final(self)@ == old(self)@.resolve_drag(),
    {
        match (self.dragging_task, self.drag_over_task) {
            (Some(from), Some(to)) => {
                reorder(&mut self.tasks, from, to);
                self.dragging_task = None;
                self.drag_over_task = None;
            },
            _ => {},
        }
    }
}

} // verus!
