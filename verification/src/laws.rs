//! What holds of the operations taken together.

use crate::drag::{higher, lower, moved, rebalanced_priority, reordered, BodyInput};
use crate::frame::KeyPresses;
use crate::navigate::{first_selected, lemma_first_selected_from, step_down, step_up};
use crate::order::{lemma_sort_is_sorted, lemma_sort_permutes, sort_desc, sorted_desc};
use crate::state::AppView;
use crate::store::{records_of, restored_from, selected_of, unselected_of};
use crate::task::{all_offered, clamped, offered, TaskView, PRIORITY_MAX, PRIORITY_MIN};
use vstd::prelude::*;

verus! {

/// No task of `s` is selected.
pub open spec fn none_selected(s: Seq<TaskView>) -> bool {
    forall|i: int| 0 <= i < s.len() ==> !(#[trigger] s[i]).selected
}

/// No two tasks of `s` are selected.
pub open spec fn at_most_one_selected(s: Seq<TaskView>) -> bool {
    forall|i: int, j: int|
        0 <= i < s.len() && 0 <= j < s.len() && (#[trigger] s[i]).selected && (
        #[trigger] s[j]).selected ==> i == j
}

/// The selection is empty exactly when no task is selected.
pub proof fn lemma_selection_empty(s: Seq<TaskView>)
    ensures
        selected_of(s).len() == 0 <==> none_selected(s),
    decreases s.len(),
{
    broadcast use Seq::lemma_filter_push, Seq::lemma_filter_len;

    if s.len() > 0 {
        let init = s.drop_last();
        let x = s.last();
        assert(s =~= init.push(x));
        lemma_selection_empty(init);
        if none_selected(s) {
            assert(!s[s.len() - 1].selected);
            assert forall|i: int| 0 <= i < init.len() implies !(#[trigger] init[i]).selected by {
                assert(init[i] == s[i]);
            }
        }
        if selected_of(s).len() == 0 {
            assert forall|i: int| 0 <= i < s.len() implies !(#[trigger] s[i]).selected by {
                if i < init.len() {
                    assert(init[i] == s[i]);
                }
            }
        }
    }
}

/// The selection holds at most one task exactly when no two tasks are
/// selected.
pub proof fn lemma_selection_single(s: Seq<TaskView>)
    ensures
        selected_of(s).len() <= 1 <==> at_most_one_selected(s),
    decreases s.len(),
{
    broadcast use Seq::lemma_filter_push, Seq::lemma_filter_len;

    if s.len() > 0 {
        let init = s.drop_last();
        let x = s.last();
        let n = init.len() as int;
        assert(s =~= init.push(x));
        lemma_selection_single(init);
        lemma_selection_empty(init);
        if at_most_one_selected(s) {
            assert forall|i: int, j: int|
                0 <= i < n && 0 <= j < n && (#[trigger] init[i]).selected && (
                #[trigger] init[j]).selected implies i == j by {
                assert(init[i] == s[i] && init[j] == s[j]);
            }
            if x.selected {
                assert forall|i: int| 0 <= i < n implies !(#[trigger] init[i]).selected by {
                    assert(init[i] == s[i] && s[n].selected);
                }
            }
        }
        if selected_of(s).len() <= 1 {
            assert forall|i: int, j: int|
                0 <= i < s.len() && 0 <= j < s.len() && (#[trigger] s[i]).selected && (
                #[trigger] s[j]).selected implies i == j by {
                if i < n {
                    assert(init[i] == s[i]);
                }
                if j < n {
                    assert(init[j] == s[j]);
                }
            }
        }
    }
}

/// The tasks that a deletion keeps, followed by those it removes, are the
/// tasks of the list.
pub proof fn lemma_deletion_splits(s: Seq<TaskView>)
    ensures
        (unselected_of(s) + selected_of(s)).to_multiset() == s.to_multiset(),
    decreases s.len(),
{
    broadcast use Seq::lemma_filter_push, Seq::lemma_filter_len;

    if s.len() == 0 {
        assert(unselected_of(s) + selected_of(s) =~= s);
    } else {
        let init = s.drop_last();
        let x = s.last();
        assert(s =~= init.push(x));
        lemma_deletion_splits(init);
        let kept = unselected_of(init);
        let gone = selected_of(init);
        vstd::seq_lib::to_multiset_build(init, x);
        if x.selected {
            assert(kept + gone.push(x) =~= (kept + gone).push(x));
            vstd::seq_lib::to_multiset_build(kept + gone, x);
        } else {
            assert(kept.push(x) + gone =~= (kept + gone).insert(kept.len() as int, x));
            vstd::seq_lib::to_multiset_insert(kept + gone, kept.len() as int, x);
        }
    }
}

/// A deletion removes exactly the selected tasks, and one undo brings
/// exactly these back: the list then holds the tasks it held before the
/// deletion, and is sorted if anything was deleted. A second undo finds the
/// buffer empty and changes nothing.
pub proof fn lemma_delete_then_undo(app: AppView)
    ensures
        app.delete_selected().tasks == unselected_of(app.tasks),
        app.delete_selected().last_deleted_tasks == selected_of(app.tasks),
        app.delete_selected().undo_delete().tasks.to_multiset() == app.tasks.to_multiset(),
        app.delete_selected().undo_delete().tasks.len() == app.tasks.len(),
        selected_of(app.tasks).len() > 0 ==> sorted_desc(
            app.delete_selected().undo_delete().tasks,
        ),
        app.delete_selected().undo_delete().last_deleted_tasks.len() == 0,
        app.delete_selected().undo_delete().undo_delete() == app.delete_selected().undo_delete(),
{
    let kept = unselected_of(app.tasks);
    let gone = selected_of(app.tasks);
    lemma_deletion_splits(app.tasks);
    if gone.len() == 0 {
        assert(kept + gone =~= kept);
    } else {
        lemma_sort_permutes(kept + gone);
        lemma_sort_is_sorted(kept + gone);
    }
    vstd::seq_lib::to_multiset_len(app.tasks);
    vstd::seq_lib::to_multiset_len(app.delete_selected().undo_delete().tasks);
}

/// What a deletion leaves in the undo buffer does not depend on what the
/// buffer held: an earlier batch that was not restored is lost.
pub proof fn lemma_delete_overwrites_buffer(app: AppView, other: AppView)
    requires
        other == (AppView { last_deleted_tasks: other.last_deleted_tasks, ..app }),
    ensures
        app.delete_selected() == other.delete_selected(),
{
}

/// After two deletions in a row the buffer holds the second batch, which is
/// empty, and an undo restores nothing of the first.
pub proof fn lemma_second_delete_discards_first(app: AppView)
    ensures
        app.delete_selected().delete_selected().tasks == unselected_of(app.tasks),
        app.delete_selected().delete_selected().last_deleted_tasks.len() == 0,
        app.delete_selected().delete_selected().undo_delete().tasks == unselected_of(app.tasks),
{
    broadcast use Seq::lemma_filter_pred;

    let kept = unselected_of(app.tasks);
    assert(none_selected(kept)) by {
        assert forall|i: int| 0 <= i < kept.len() implies !(#[trigger] kept[i]).selected by {
            assert(!kept[i].selected);
        }
    }
    lemma_selection_empty(kept);
    lemma_deletion_splits(kept);
    lemma_all_kept(kept);
}

/// A deletion with nothing selected keeps the whole list.
pub proof fn lemma_all_kept(s: Seq<TaskView>)
    requires
        none_selected(s),
    ensures
        unselected_of(s) == s,
    decreases s.len(),
{
    broadcast use Seq::lemma_filter_push, Seq::lemma_filter_len;

    if s.len() == 0 {
        assert(unselected_of(s) =~= s);
    } else {
        let init = s.drop_last();
        let x = s.last();
        assert(s =~= init.push(x));
        assert(!s[s.len() - 1].selected);
        assert forall|i: int| 0 <= i < init.len() implies !(#[trigger] init[i]).selected by {
            assert(init[i] == s[i]);
        }
        lemma_all_kept(init);
    }
}

/// Navigation that starts with at most one selected task ends with at most
/// one, in a list of the same length. Where one task is selected and has a
/// neighbor in the direction of the move, the selection passes to that
/// neighbor; where it has none, nothing changes. Where no task is selected,
/// the first task becomes the selected one.
pub proof fn lemma_navigation_keeps_single_selection(app: AppView)
    requires
        selected_of(app.tasks).len() <= 1,
    ensures
        selected_of(app.move_down().tasks).len() <= 1,
        selected_of(app.move_up().tasks).len() <= 1,
        app.move_down().tasks.len() == app.tasks.len(),
        app.move_up().tasks.len() == app.tasks.len(),
        match first_selected(app.tasks) {
            Some(i) => {
                &&& first_selected(app.move_down().tasks) == if i + 1 < app.tasks.len() {
                    Some(i + 1)
                } else {
                    Some(i)
                }
                &&& first_selected(app.move_up().tasks) == if i > 0 {
                    Some(i - 1)
                } else {
                    Some(i)
                }
            },
            None => {
                &&& first_selected(app.move_down().tasks) == first_selected(app.move_up().tasks)
                &&& first_selected(app.move_down().tasks) == if app.tasks.len() > 0 {
                    Some(0int)
                } else {
                    None
                }
            },
        },
{
    let s = app.tasks;
    let down = app.move_down().tasks;
    let up = app.move_up().tasks;
    lemma_selection_single(s);
    lemma_selection_single(down);
    lemma_selection_single(up);
    lemma_first_selected_from(s, 0);
    lemma_first_selected_from(down, 0);
    lemma_first_selected_from(up, 0);
    match first_selected(s) {
        Some(i) => {
            assert forall|k: int| 0 <= k < s.len() && k != i implies !(#[trigger] s[k]).selected by {
                if s[k].selected {
                    assert(s[i].selected);
                }
            }
            lemma_sole_selection(s, down, if i + 1 < s.len() { i + 1 } else { i });
            lemma_sole_selection(s, up, if i > 0 { i - 1 } else { i });
        },
        None => {
            if s.len() > 0 {
                lemma_sole_selection(s, down, 0);
                lemma_sole_selection(s, up, 0);
            }
        },
    }
}

/// A list whose only selected task stands at `at` has its first selected
/// task there and no second one.
proof fn lemma_sole_selection(before: Seq<TaskView>, after: Seq<TaskView>, at: int)
    requires
        0 <= at < after.len(),
        after[at].selected,
        forall|k: int| 0 <= k < after.len() && k != at ==> !(#[trigger] after[k]).selected,
    ensures
        at_most_one_selected(after),
        first_selected(after) == Some(at),
{
    lemma_first_selected_from(after, 0);
    match first_selected(after) {
        Some(i) => {
            if i != at {
                assert(!after[i].selected);
            }
        },
        None => {
            assert(!after[at].selected);
        },
    }
}

/// Moving a task relocates that one task: it stands at the target
/// position, and without it the list is the old list without it, so all
/// other tasks keep their order.
pub proof fn lemma_move_relocates_one(s: Seq<TaskView>, from: int, to: int)
    requires
        0 <= from < s.len(),
        0 <= to < s.len(),
    ensures
        moved(s, from, to).len() == s.len(),
        moved(s, from, to)[to] == s[from],
        moved(s, from, to).remove(to) == s.remove(from),
        moved(s, from, to).to_multiset() == s.to_multiset(),
{
    let rest = s.remove(from);
    assert(moved(s, from, to).remove(to) =~= rest);
    vstd::seq_lib::to_multiset_insert(rest, to, s[from]);
    assert(rest.insert(from, s[from]) =~= s);
    vstd::seq_lib::to_multiset_insert(rest, from, s[from]);
}

/// After a drag the dragged task stands at the target with its own text,
/// color and flags, every other task is unchanged, and the dragged task's
/// priority fits its new neighbors: between two neighbors it lies in the
/// range they span, and it is the task's old priority where that lies in the
/// range; at an end of the list it is the one neighbor's priority, brought
/// into the range that an editor offers.
pub proof fn lemma_drag_fits_priority(s: Seq<TaskView>, from: int, to: int)
    requires
        0 <= from < s.len(),
        0 <= to < s.len(),
        from != to,
    ensures
        reordered(s, from, to).len() == s.len(),
        reordered(s, from, to)[to] == s[from].with_priority(reordered(s, from, to)[to].priority),
        forall|k: int|
            0 <= k < s.len() && k != to ==> #[trigger] reordered(s, from, to)[k] == moved(
                s,
                from,
                to,
            )[k],
        0 < to < s.len() - 1 ==> {
            let above = reordered(s, from, to)[to - 1].priority;
            let below = reordered(s, from, to)[to + 1].priority;
            let fitted = reordered(s, from, to)[to].priority;
            &&& lower(above, below) <= fitted <= higher(above, below)
            &&& fitted == clamped(s[from].priority, lower(above, below), higher(above, below))
        },
        to == 0 ==> reordered(s, from, to)[0].priority == clamped(
            reordered(s, from, to)[1].priority,
            PRIORITY_MIN,
            PRIORITY_MAX,
        ),
        to == s.len() - 1 ==> reordered(s, from, to)[to].priority == clamped(
            reordered(s, from, to)[to - 1].priority,
            PRIORITY_MIN,
            PRIORITY_MAX,
        ),
{
}

/// Writing a list to storage and reading it back gives the same tasks in the
/// same order, each with its text, priority, color and selection flag, and
/// with no editor open.
pub proof fn lemma_storage_round_trip(s: Seq<TaskView>)
    ensures
        restored_from(records_of(s)) == s.map_values(|t: TaskView| t.at_rest()),
        restored_from(records_of(s)).len() == s.len(),
        forall|i: int|
            0 <= i < s.len() ==> {
                let back = #[trigger] restored_from(records_of(s))[i];
                &&& back.text == s[i].text
                &&& back.priority == s[i].priority
                &&& back.color == s[i].color
                &&& back.selected == s[i].selected
                &&& !back.editing
                &&& !back.editing_priority
            },
{
    assert(restored_from(records_of(s)) =~= s.map_values(|t: TaskView| t.at_rest()));
}

/// Sorting again changes nothing.
pub proof fn lemma_sort_twice(s: Seq<TaskView>)
    ensures
        sort_desc(sort_desc(s)) == sort_desc(s),
{
    lemma_sort_is_sorted(s);
    crate::order::lemma_sorted_is_fixed(sort_desc(s));
}

/// A list made of tasks of a list whose priorities are all offered has only
/// offered priorities.
proof fn lemma_members_offered(r: Seq<TaskView>, s: Seq<TaskView>)
    requires
        all_offered(s),
        forall|i: int| 0 <= i < r.len() ==> s.contains(#[trigger] r[i]),
    ensures
        all_offered(r),
{
    assert forall|i: int| 0 <= i < r.len() implies offered((#[trigger] r[i]).priority) by {
        assert(s.contains(r[i]));
        let j = choose|j: int| 0 <= j < s.len() && s[j] == r[i];
        assert(offered(s[j].priority));
    }
}

/// Sorting keeps the priorities offered.
proof fn lemma_sort_keeps_offered(s: Seq<TaskView>)
    requires
        all_offered(s),
    ensures
        all_offered(sort_desc(s)),
{
    broadcast use vstd::seq_lib::to_multiset_contains;

    lemma_sort_permutes(s);
    let r = sort_desc(s);
    assert forall|i: int| 0 <= i < r.len() implies s.contains(#[trigger] r[i]) by {
        assert(r.contains(r[i]));
        assert(r.to_multiset().count(r[i]) > 0);
        assert(s.to_multiset().count(r[i]) > 0);
    }
    lemma_members_offered(r, s);
}

/// A deletion keeps the priorities offered, in the list and in the buffer.
proof fn lemma_delete_keeps_offered(s: Seq<TaskView>)
    requires
        all_offered(s),
    ensures
        all_offered(selected_of(s)),
        all_offered(unselected_of(s)),
{
    broadcast use Seq::lemma_filter_contains_rev;

    let gone = selected_of(s);
    let kept = unselected_of(s);
    assert forall|i: int| 0 <= i < gone.len() implies s.contains(#[trigger] gone[i]) by {
        assert(gone.contains(gone[i]));
    }
    assert forall|i: int| 0 <= i < kept.len() implies s.contains(#[trigger] kept[i]) by {
        assert(kept.contains(kept[i]));
    }
    lemma_members_offered(gone, s);
    lemma_members_offered(kept, s);
}

/// A drag keeps the priorities offered.
proof fn lemma_drag_keeps_offered(s: Seq<TaskView>, from: int, to: int)
    requires
        all_offered(s),
    ensures
        all_offered(reordered(s, from, to)),
{
    if from != to && 0 <= from < s.len() && 0 <= to < s.len() {
        let m = moved(s, from, to);
        assert forall|i: int| 0 <= i < m.len() implies offered((#[trigger] m[i]).priority) by {
            if i < to {
                assert(m[i] == s.remove(from)[i]);
            } else if i > to {
                assert(m[i] == s.remove(from)[i - 1]);
            } else {
                assert(m[i] == s[from]);
            }
        }
        assert(offered(rebalanced_priority(m, to))) by {
            if to > 0 {
                assert(offered(m[to - 1].priority));
            }
            if to < m.len() - 1 {
                assert(offered(m[to + 1].priority));
            }
            assert(offered(m[to].priority));
        }
    }
}

/// Navigation keeps the priorities offered.
proof fn lemma_steps_keep_offered(s: Seq<TaskView>, cursor: Option<int>)
    requires
        all_offered(s),
    ensures
        all_offered(step_down(s, cursor)),
        all_offered(step_up(s, cursor)),
{
    let down = step_down(s, cursor);
    let up = step_up(s, cursor);
    assert forall|i: int| 0 <= i < down.len() implies offered((#[trigger] down[i]).priority) by {
        assert(down[i].priority == s[i].priority);
    }
    assert forall|i: int| 0 <= i < up.len() implies offered((#[trigger] up[i]).priority) by {
        assert(up[i].priority == s[i].priority);
    }
}

/// Where the draft and all tasks have a priority that a priority editor
/// offers, every operation on the list leaves it so.
pub proof fn lemma_priorities_stay_offered(
    app: AppView,
    text: Seq<char>,
    color: [u8; 4],
    index: usize,
    body: BodyInput,
    keys: KeyPresses,
    keyboard_captured: bool,
    priority_changed: bool,
    now: u64,
)
    requires
        app.priorities_offered(),
    ensures
        app.push_task(text).priorities_offered(),
        app.add_task().priorities_offered(),
        app.recolor_selected(color).priorities_offered(),
        app.delete_selected().priorities_offered(),
        app.undo_delete().priorities_offered(),
        app.move_down().priorities_offered(),
        app.move_up().priorities_offered(),
        app.body_input(index, body).priorities_offered(),
        app.resolve_drag().priorities_offered(),
        app.handle_keys(keys, keyboard_captured).priorities_offered(),
        app.end_frame(priority_changed).priorities_offered(),
        app.autosave_tick(now).priorities_offered(),
{
    lemma_push_keeps_offered(app, text);
    lemma_push_keeps_offered(app, crate::text::trimmed(app.new_task_text));
    assert(all_offered(app.recolor_selected(color).tasks)) by {
        let r = app.recolor_selected(color).tasks;
        assert forall|i: int| 0 <= i < r.len() implies offered((#[trigger] r[i]).priority) by {
            assert(r[i].priority == app.tasks[i].priority);
        }
    }
    lemma_delete_keeps_offered(app.tasks);
    lemma_undo_keeps_offered(app);
    lemma_steps_keep_offered(app.tasks, first_selected(app.tasks));
    assert(all_offered(app.body_input(index, body).tasks)) by {
        let r = app.body_input(index, body).tasks;
        assert forall|i: int| 0 <= i < r.len() implies offered((#[trigger] r[i]).priority) by {
            assert(r[i].priority == app.tasks[i].priority);
        }
    }
    lemma_resolve_keeps_offered(app);
    if !keyboard_captured {
        let down = if keys.move_down {
            app.move_down()
        } else {
            app
        };
        lemma_steps_keep_offered(down.tasks, first_selected(down.tasks));
        let up = if keys.move_up {
            down.move_up()
        } else {
            down
        };
        lemma_delete_keeps_offered(up.tasks);
        let deleted = if keys.delete {
            up.delete_selected()
        } else {
            up
        };
        lemma_undo_keeps_offered(deleted);
    }
    if priority_changed {
        lemma_sort_keeps_offered(app.tasks);
        lemma_resolve_keeps_offered(AppView { tasks: sort_desc(app.tasks), ..app });
    }
}

proof fn lemma_push_keeps_offered(app: AppView, text: Seq<char>)
    requires
        app.priorities_offered(),
    ensures
        app.push_task(text).priorities_offered(),
{
    if text.len() > 0 {
        let added = app.tasks.push(
            TaskView::fresh(text, app.new_task_priority, app.new_task_color),
        );
        assert forall|i: int| 0 <= i < added.len() implies offered((#[trigger] added[i]).priority) by {
            if i < app.tasks.len() {
                assert(added[i] == app.tasks[i]);
            }
        }
        lemma_sort_keeps_offered(added);
    }
}

proof fn lemma_undo_keeps_offered(app: AppView)
    requires
        app.priorities_offered(),
    ensures
        app.undo_delete().priorities_offered(),
{
    if app.last_deleted_tasks.len() > 0 {
        let all = app.tasks + app.last_deleted_tasks;
        assert forall|i: int| 0 <= i < all.len() implies offered((#[trigger] all[i]).priority) by {
            if i < app.tasks.len() {
                assert(all[i] == app.tasks[i]);
            } else {
                assert(all[i] == app.last_deleted_tasks[i - app.tasks.len()]);
            }
        }
        lemma_sort_keeps_offered(all);
    }
}

proof fn lemma_resolve_keeps_offered(app: AppView)
    requires
        app.priorities_offered(),
    ensures
        app.resolve_drag().priorities_offered(),
{
    match (app.dragging_task, app.drag_over_task) {
        (Some(from), Some(to)) => {
            lemma_drag_keeps_offered(app.tasks, from as int, to as int);
        },
        _ => {},
    }
}

} // verus!
