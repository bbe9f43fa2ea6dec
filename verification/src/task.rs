//! The task record, its mathematical model, and the per-task editing flags.

use vstd::prelude::*;

verus! {

/// The least priority a priority editor offers.
pub const PRIORITY_MIN: u8 = 1;

/// The greatest priority a priority editor offers; it marks the most urgent
/// tasks.
pub const PRIORITY_MAX: u8 = 10;

/// `value` brought into the range from `low` to `high`.
pub open spec fn clamped(value: u8, low: u8, high: u8) -> u8
    recommends
        low <= high,
{
    if value < low {
        low
    } else if value > high {
        high
    } else {
        value
    }
}

/// Brings `value` into the range from `low` to `high`.
pub fn clamp(value: u8, low: u8, high: u8) -> (r: u8)
    requires
        low <= high,
    ensures
        r == clamped(value, low, high),
        low <= r <= high,
{
    if value < low {
        low
    } else if value > high {
        high
    } else {
        value
    }
}

/// Brings `value` into the range of priorities that an editor offers.
pub fn clamp_priority(value: u8) -> (r: u8)
    ensures
        r == clamped(value, PRIORITY_MIN, PRIORITY_MAX),
        PRIORITY_MIN <= r <= PRIORITY_MAX,
{
    clamp(value, PRIORITY_MIN, PRIORITY_MAX)
}

/// Whether `priority` is one that a priority editor offers.
pub open spec fn offered(priority: u8) -> bool {
    PRIORITY_MIN <= priority <= PRIORITY_MAX
}

/// Every task of `s` has a priority that a priority editor offers.
pub open spec fn all_offered(s: Seq<TaskView>) -> bool {
    forall|i: int| 0 <= i < s.len() ==> offered((#[trigger] s[i]).priority)
}

/// A to-do item.
#[derive(Clone, Debug, PartialEq, Eq)]
pub struct Task {
    /// What is to be done.
    pub text: String,
    /// The urgency; a higher number is more urgent.
    pub priority: u8,
    /// Red, green, blue and alpha of the background.
    pub color: [u8; 4],
    /// Whether the task belongs to the current selection.
    pub selected: bool,
    /// Whether the text is open in an editor.
    pub editing: bool,
    /// Whether the priority is open in an editor.
    pub editing_priority: bool,
}

/// The mathematical value of a [`Task`].
pub struct TaskView {
    pub text: Seq<char>,
    pub priority: u8,
    pub color: [u8; 4],
    pub selected: bool,
    pub editing: bool,
    pub editing_priority: bool,
}

impl View for Task {
    type V = TaskView;

    open spec fn view(&self) -> TaskView {
        TaskView {
            text: self.text@,
            priority: self.priority,
            color: self.color,
            selected: self.selected,
            editing: self.editing,
            editing_priority: self.editing_priority,
        }
    }
}

/// The values of a list of tasks, in order.
pub open spec fn views(tasks: Seq<Task>) -> Seq<TaskView> {
    tasks.map_values(|t: Task| t@)
}

/// What of a task is kept in storage: everything but the editing flags.
#[derive(Clone, Debug, PartialEq, Eq)]
pub struct TaskRecord {
    pub text: String,
    pub priority: u8,
    pub color: [u8; 4],
    pub selected: bool,
}

/// The mathematical value of a [`TaskRecord`].
pub struct TaskRecordView {
    pub text: Seq<char>,
    pub priority: u8,
    pub color: [u8; 4],
    pub selected: bool,
}

impl View for TaskRecord {
    type V = TaskRecordView;

    open spec fn view(&self) -> TaskRecordView {
        TaskRecordView {
            text: self.text@,
            priority: self.priority,
            color: self.color,
            selected: self.selected,
        }
    }
}

impl TaskView {
    /// A task as it is first added: not selected and with no editor open.
    pub open spec fn fresh(text: Seq<char>, priority: u8, color: [u8; 4]) -> TaskView {
        TaskView { text, priority, color, selected: false, editing: false, editing_priority: false }
    }

    /// What storage keeps of the task.
    pub open spec fn record(self) -> TaskRecordView {
        TaskRecordView {
            text: self.text,
            priority: self.priority,
            color: self.color,
            selected: self.selected,
        }
    }

    /// The task that comes back from storage: no editor is open.
    pub open spec fn restored(record: TaskRecordView) -> TaskView {
        TaskView {
            text: record.text,
            priority: record.priority,
            color: record.color,
            selected: record.selected,
            editing: false,
            editing_priority: false,
        }
    }

    /// The task with every editor closed.
    pub open spec fn at_rest(self) -> TaskView {
        TaskView { editing: false, editing_priority: false, ..self }
    }

    /// The task with its selection flag set to `selected`.
    pub open spec fn with_selected(self, selected: bool) -> TaskView {
        TaskView { selected, ..self }
    }

    /// The task with the color `color`.
    pub open spec fn with_color(self, color: [u8; 4]) -> TaskView {
        TaskView { color, ..self }
    }

    /// The task with the priority `priority`.
    pub open spec fn with_priority(self, priority: u8) -> TaskView {
        TaskView { priority, ..self }
    }

    /// Whether input to the priority region commits an open edit.
    pub open spec fn priority_committed(self, input: EditInput) -> bool {
        self.editing_priority && (input.lost_focus || input.enter_pressed)
    }

    /// The task after input to its priority region: a double click on the
    /// label opens the editor; loss of focus or Enter closes an open editor.
    pub open spec fn priority_input(self, input: EditInput) -> TaskView {
        if self.editing_priority {
            TaskView { editing_priority: !(input.lost_focus || input.enter_pressed), ..self }
        } else {
            TaskView { editing_priority: input.double_clicked, ..self }
        }
    }

    /// The task after input to an open text editor: loss of focus or Enter
    /// closes it.
    pub open spec fn text_input(self, input: EditInput) -> TaskView {
        if self.editing {
            TaskView { editing: !(input.lost_focus || input.enter_pressed), ..self }
        } else {
            self
        }
    }
}

/// What the user did to an editable region during one frame.
#[derive(Clone, Copy, Debug, PartialEq, Eq)]
pub struct EditInput {
    /// The region's label was double-clicked.
    pub double_clicked: bool,
    /// The region's editor lost the input focus.
    pub lost_focus: bool,
    /// The commit key was pressed.
    pub enter_pressed: bool,
}

impl Task {
    /// A new task, not selected and with no editor open.
    pub fn new(text: String, priority: u8, color: [u8; 4]) -> (task: Task)
        ensures
            task@ == TaskView::fresh(text@, priority, color),
    {
        Task { text, priority, color, selected: false, editing: false, editing_priority: false }
    }

    /// What storage keeps of the task.
    pub fn to_record(&self) -> (record: TaskRecord)
        ensures
            record@ == self@.record(),
    {
        TaskRecord {
            text: self.text.clone(),
            priority: self.priority,
            color: self.color,
            selected: self.selected,
        }
    }

    /// The task that `record` stands for, with no editor open.
    pub fn from_record(record: TaskRecord) -> (task: Task)
        ensures
            task@ == TaskView::restored(record@),
    {
        Task {
            text: record.text,
            priority: record.priority,
            color: record.color,
            selected: record.selected,
            editing: false,
            editing_priority: false,
        }
    }

    /// Applies one frame's input to the priority region. Returns whether an
    /// edit was committed, after which the list is to be sorted again.
    pub fn priority_input(&mut self, input: EditInput) -> (committed: bool)
        ensures
            final(self)@ == old(self)@.priority_input(input),
            committed == old(self)@.priority_committed(input),
    {
        if self.editing_priority {
            let committed = input.lost_focus || input.enter_pressed;
            if committed {
                self.editing_priority = false;
            }
            committed
        } else {
            if input.double_clicked {
                self.editing_priority = true;
            }
            false
        }
    }

    /// Applies one frame's input to an open text editor.
    pub fn text_input(&mut self, input: EditInput)
        ensures
            final(self)@ == old(self)@.text_input(input),
    {
        if self.editing && (input.lost_focus || input.enter_pressed) {
            self.editing = false;
        }
    }
}

} // verus!
