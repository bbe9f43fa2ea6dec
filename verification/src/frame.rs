//! The two places in a frame where input becomes a change of the list: the
//! navigation keys, read before the tasks are shown, and the end of the
//! frame.

use crate::laws::lemma_navigation_keeps_single_selection;
use crate::order::{sort_by_priority, sort_desc, sorted_desc};
use crate::state::{AppView, TodoApp};
use crate::store::selected_of;
use vstd::prelude::*;

verus! {

/// Which of the navigation keys were pressed during one frame.
#[derive(Clone, Copy, Debug, PartialEq, Eq)]
pub struct KeyPresses {
    /// The move-down key.
    pub move_down: bool,
    /// The move-up key.
    pub move_up: bool,
    /// The delete key.
    pub delete: bool,
    /// The undo key.
    pub undo: bool,
}

impl AppView {
    /// The state after one frame's navigation keys. While a text field holds
    /// the keyboard the keys do nothing. Otherwise move-down, move-up, delete
    /// and undo take effect one after the other, in this order, each on the
    /// state that the one before it left.
    pub open spec fn handle_keys(self, keys: KeyPresses, keyboard_captured: bool) -> AppView {
        if keyboard_captured {
            self
        } else {
            let down = if keys.move_down {
                self.move_down()
            } else {
                self
            };
            let up = if keys.move_up {
                down.move_up()
            } else {
                down
            };
            let deleted = if keys.delete {
                up.delete_selected()
            } else {
                up
            };
            if keys.undo {
                deleted.undo_delete()
            } else {
                deleted
            }
        }
    }

    /// The state at the end of a frame: after a committed priority edit the
    /// list is sorted; then the frame's drag is resolved.
    pub open spec fn end_frame(self, priority_changed: bool) -> AppView {
        let sorted = if priority_changed {
            AppView { tasks: sort_desc(self.tasks), ..self }
        } else {
            self
        };
        sorted.resolve_drag()
    }
}

impl TodoApp {
    /// Applies one frame's navigation keys. The two move keys, alone or
    /// together, leave at most one task selected where at most one was.
    pub fn handle_keys(&mut self, keys: KeyPresses, keyboard_captured: bool)
        ensures
            final(self)@ == old(self)@.handle_keys(keys, keyboard_captured),
            keyboard_captured ==> final(self)@ == old(self)@,
            !keys.delete && !keys.undo && selected_of(old(self)@.tasks).len() <= 1
                ==> selected_of(final(self)@.tasks).len() <= 1 && final(self)@.tasks.len() == old(
                self,
            )@.tasks.len(),
    {
        if keyboard_captured {
            return ;
        }
        if keys.move_down {
            proof {
                if selected_of(self@.tasks).len() <= 1 {
                    lemma_navigation_keeps_single_selection(self@);
                }
            }
            self.move_down();
        }
        if keys.move_up {
            proof {
                if selected_of(self@.tasks).len() <= 1 {
                    lemma_navigation_keeps_single_selection(self@);
                }
            }
            self.move_up();
        }
        if keys.delete {
            self.delete_selected();
        }
        if keys.undo {
            self.undo_delete();
        }
    }

    /// Ends a frame. `priority_changed` says whether a priority edit was
    /// committed during the frame.
    pub fn end_frame(&mut self, priority_changed: bool)
        ensures
            final(self)@ == old(self)@.end_frame(priority_changed),
            priority_changed && (old(self)@.dragging_task is None || old(
                self,
            )@.drag_over_task is None) ==> sorted_desc(final(self)@.tasks),
    {
        if priority_changed {
            sort_by_priority(&mut self.tasks);
        }
        self.resolve_drag();
    }
}

} // verus!
