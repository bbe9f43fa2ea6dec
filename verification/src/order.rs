//! The order of the list: by priority, the most urgent first, tasks of equal
//! priority in the order they had.

use crate::task::{views, Task, TaskView};
use vstd::prelude::*;

verus! {

/// The tasks of `s` whose priority is `p`, in the order of `s`.
pub open spec fn priority_class(s: Seq<TaskView>, p: int) -> Seq<TaskView> {
    s.filter(|t: TaskView| t.priority == p)
}

/// The tasks of `s` whose priority is `p` or more: those of the greatest
/// priority first, and so on down to those of priority `p`, each class in the
/// order of `s`.
#[verifier::opaque]
pub open spec fn at_least(s: Seq<TaskView>, p: int) -> Seq<TaskView>
    decreases 256 - p,
{
    if p > u8::MAX {
        Seq::empty()
    } else {
        at_least(s, p + 1) + priority_class(s, p)
    }
}

/// `s` sorted by priority, the most urgent first; tasks of equal priority
/// keep their order.
pub open spec fn sort_desc(s: Seq<TaskView>) -> Seq<TaskView> {
    at_least(s, 0)
}

/// No task of `s` stands before a more urgent one.
pub open spec fn sorted_desc(s: Seq<TaskView>) -> bool {
    forall|i: int, j: int| 0 <= i < j < s.len() ==> s[i].priority >= s[j].priority
}

/// Filtering one priority class for another priority gives the class itself
/// or nothing.
proof fn lemma_class_of_class(s: Seq<TaskView>, p: int, q: int)
    ensures
        priority_class(priority_class(s, p), q) == if p == q {
            priority_class(s, p)
        } else {
            Seq::empty()
        },
    decreases s.len(),
{
    broadcast use Seq::lemma_filter_push, Seq::lemma_filter_len;

    if s.len() == 0 {
        assert(priority_class(s, p) =~= Seq::empty());
        assert(priority_class(Seq::<TaskView>::empty(), q) =~= Seq::empty());
    } else {
        let init = s.drop_last();
        let x = s.last();
        assert(s =~= init.push(x));
        lemma_class_of_class(init, p, q);
        assert(priority_class(init.push(x), p) == if x.priority == p {
            priority_class(init, p).push(x)
        } else {
            priority_class(init, p)
        });
        if x.priority == p {
            assert(priority_class(priority_class(init, p).push(x), q) == if x.priority == q {
                priority_class(priority_class(init, p), q).push(x)
            } else {
                priority_class(priority_class(init, p), q)
            });
        }
    }
}

/// An empty list has no task of any priority.
proof fn lemma_at_least_empty(p: int)
    ensures
        at_least(Seq::empty(), p) == Seq::<TaskView>::empty(),
    decreases 256 - p,
{
    reveal(at_least);
    broadcast use Seq::lemma_filter_len;

    if p <= u8::MAX {
        lemma_at_least_empty(p + 1);
        assert(priority_class(Seq::empty(), p) =~= Seq::empty());
        assert(at_least(Seq::empty(), p + 1) + priority_class(Seq::empty(), p) =~= Seq::<
            TaskView,
        >::empty());
    }
}

/// Every task of `at_least(s, p)` has priority `p` or more.
pub proof fn lemma_at_least_floor(s: Seq<TaskView>, p: int)
    ensures
        forall|i: int| 0 <= i < at_least(s, p).len() ==> (#[trigger] at_least(s, p)[i]).priority >= p,
    decreases 256 - p,
{
    reveal(at_least);
    broadcast use Seq::lemma_filter_pred;

    if p <= u8::MAX {
        lemma_at_least_floor(s, p + 1);
        let upper = at_least(s, p + 1);
        let class = priority_class(s, p);
        assert forall|i: int| 0 <= i < at_least(s, p).len() implies (#[trigger] at_least(
            s,
            p,
        )[i]).priority >= p by {
            if i < upper.len() {
                assert(at_least(s, p)[i] == upper[i]);
            } else {
                assert(at_least(s, p)[i] == class[i - upper.len()]);
            }
        }
    }
}

/// For `p <= q`, `at_least(s, p)` starts with `at_least(s, q)`, and what
/// follows has priority below `q`.
pub proof fn lemma_at_least_split(s: Seq<TaskView>, p: int, q: int)
    requires
        p <= q,
    ensures
        at_least(s, q).len() <= at_least(s, p).len(),
        at_least(s, p).take(at_least(s, q).len() as int) == at_least(s, q),
        forall|i: int|
            at_least(s, q).len() <= i < at_least(s, p).len() ==> (#[trigger] at_least(
                s,
                p,
            )[i]).priority < q,
    decreases q - p,
{
    reveal(at_least);
    broadcast use Seq::lemma_filter_pred;

    if p == q {
        assert(at_least(s, p).take(at_least(s, p).len() as int) =~= at_least(s, p));
    } else if p > u8::MAX {
        assert(at_least(s, p).take(0) =~= at_least(s, q));
    } else {
        lemma_at_least_split(s, p + 1, q);
        let upper = at_least(s, p + 1);
        let class = priority_class(s, p);
        let k = at_least(s, q).len() as int;
        assert((upper + class).take(k) =~= upper.take(k));
        assert forall|i: int| k <= i < at_least(s, p).len() implies (#[trigger] at_least(
            s,
            p,
        )[i]).priority < q by {
            if i < upper.len() {
                assert(at_least(s, p)[i] == upper[i]);
            } else {
                assert(at_least(s, p)[i] == class[i - upper.len()]);
            }
        }
    }
}

/// A task added at the end of a list comes, in the sorted list, directly
/// behind the tasks that are at least as urgent.
pub proof fn lemma_at_least_push(s: Seq<TaskView>, x: TaskView, p: int)
    ensures
        at_least(s.push(x), p) == if p <= x.priority {
            at_least(s, p).insert(at_least(s, x.priority as int).len() as int, x)
        } else {
            at_least(s, p)
        },
    decreases 256 - p,
{
    reveal(at_least);
    broadcast use Seq::lemma_filter_push;

    if p <= u8::MAX {
        lemma_at_least_push(s, x, p + 1);
        let upper = at_least(s, p + 1);
        let class = priority_class(s, p);
        let k = at_least(s, x.priority as int).len() as int;
        assert(priority_class(s.push(x), p) == if x.priority == p {
            class.push(x)
        } else {
            class
        });
        if p == x.priority {
            assert(upper + class.push(x) =~= (upper + class).insert(k, x));
        } else if p < x.priority {
            lemma_at_least_split(s, p + 1, x.priority as int);
            assert(upper.insert(k, x) + class =~= (upper + class).insert(k, x));
        }
    }
}

/// A sorted list is in descending order of priority.
pub proof fn lemma_sort_is_sorted(s: Seq<TaskView>)
    ensures
        sorted_desc(sort_desc(s)),
{
    lemma_at_least_sorted(s, 0);
}

proof fn lemma_at_least_sorted(s: Seq<TaskView>, p: int)
    ensures
        sorted_desc(at_least(s, p)),
    decreases 256 - p,
{
    reveal(at_least);
    broadcast use Seq::lemma_filter_pred;

    if p <= u8::MAX {
        lemma_at_least_sorted(s, p + 1);
        lemma_at_least_floor(s, p + 1);
        let upper = at_least(s, p + 1);
        let class = priority_class(s, p);
        let all = at_least(s, p);
        assert forall|i: int, j: int| 0 <= i < j < all.len() implies all[i].priority
            >= all[j].priority by {
            if j < upper.len() {
                assert(all[i] == upper[i] && all[j] == upper[j]);
            } else if i < upper.len() {
                assert(all[i] == upper[i] && all[j] == class[j - upper.len()]);
            } else {
                assert(all[i] == class[i - upper.len()] && all[j] == class[j - upper.len()]);
            }
        }
    }
}

/// Sorting keeps, for each priority, the tasks of that priority and their
/// order: the sort is stable.
pub proof fn lemma_sort_keeps_classes(s: Seq<TaskView>, q: int)
    ensures
        priority_class(sort_desc(s), q) == priority_class(s, q),
{
    lemma_at_least_class(s, 0, q);
    if !(0 <= q <= u8::MAX) {
        lemma_class_out_of_range(s, q);
    }
}

proof fn lemma_class_out_of_range(s: Seq<TaskView>, q: int)
    requires
        !(0 <= q <= u8::MAX),
    ensures
        priority_class(s, q) == Seq::<TaskView>::empty(),
    decreases s.len(),
{
    broadcast use Seq::lemma_filter_push, Seq::lemma_filter_len;

    if s.len() == 0 {
        assert(priority_class(s, q) =~= Seq::empty());
    } else {
        lemma_class_out_of_range(s.drop_last(), q);
        assert(s =~= s.drop_last().push(s.last()));
    }
}

proof fn lemma_at_least_class(s: Seq<TaskView>, p: int, q: int)
    ensures
        priority_class(at_least(s, p), q) == if p <= q <= u8::MAX {
            priority_class(s, q)
        } else {
            Seq::empty()
        },
    decreases 256 - p,
{
    reveal(at_least);
    broadcast use Seq::filter_distributes_over_add, Seq::lemma_filter_len;

    if p > u8::MAX {
        assert(priority_class(Seq::<TaskView>::empty(), q) =~= Seq::empty());
    } else {
        lemma_at_least_class(s, p + 1, q);
        lemma_class_of_class(s, p, q);
        let upper = at_least(s, p + 1);
        let class = priority_class(s, p);
        assert(priority_class(upper + class, q) == priority_class(upper, q) + priority_class(
            class,
            q,
        ));
        assert(priority_class(upper, q) + priority_class(class, q) =~= if p <= q <= u8::MAX {
            priority_class(s, q)
        } else {
            Seq::empty()
        });
    }
}

/// Sorting neither adds nor drops a task.
pub proof fn lemma_sort_permutes(s: Seq<TaskView>)
    ensures
        sort_desc(s).to_multiset() == s.to_multiset(),
        sort_desc(s).len() == s.len(),
    decreases s.len(),
{
    if s.len() == 0 {
        assert(s =~= Seq::empty());
        lemma_at_least_empty(0);
    } else {
        let init = s.drop_last();
        let x = s.last();
        assert(s =~= init.push(x));
        lemma_sort_permutes(init);
        lemma_at_least_push(init, x, 0);
        lemma_at_least_split(init, 0, x.priority as int);
        let k = at_least(init, x.priority as int).len() as int;
        vstd::seq_lib::to_multiset_insert(sort_desc(init), k, x);
        vstd::seq_lib::to_multiset_build(init, x);
    }
}

/// A list in descending order stays so without its last task, which no
/// other task is less urgent than.
proof fn lemma_sorted_without_last(init: Seq<TaskView>, x: TaskView)
    requires
        sorted_desc(init.push(x)),
    ensures
        sorted_desc(init),
        forall|i: int| 0 <= i < init.len() ==> (#[trigger] init[i]).priority >= x.priority,
{
    let s = init.push(x);
    assert forall|i: int, j: int| 0 <= i < j < init.len() implies init[i].priority
        >= init[j].priority by {
        assert(s[i].priority >= s[j].priority);
    }
    assert forall|i: int| 0 <= i < init.len() implies (#[trigger] init[i]).priority
        >= x.priority by {
        assert(s[i].priority >= s[init.len() as int].priority);
    }
}

/// Sorting leaves a list in descending order as it is.
pub proof fn lemma_sorted_is_fixed(s: Seq<TaskView>)
    requires
        sorted_desc(s),
    ensures
        sort_desc(s) == s,
    decreases s.len(),
{
    if s.len() == 0 {
        assert(s =~= Seq::empty());
        lemma_at_least_empty(0);
    } else {
        let init = s.drop_last();
        let x = s.last();
        assert(s == init.push(x)) by {
            assert(s =~= init.push(x));
        }
        lemma_sorted_without_last(init, x);
        lemma_sorted_is_fixed(init);
        lemma_insertion_point(init, x, init.len() as int);
        assert(init.insert(init.len() as int, x) =~= init.push(x));
    }
}

/// The sorted list depends only on the priority classes of the list.
proof fn lemma_at_least_by_classes(r: Seq<TaskView>, s: Seq<TaskView>, p: int)
    requires
        forall|q: int| 0 <= q <= u8::MAX ==> priority_class(r, q) == priority_class(s, q),
    ensures
        at_least(r, p) == at_least(s, p),
    decreases 256 - p,
{
    reveal(at_least);
    if p <= u8::MAX {
        lemma_at_least_by_classes(r, s, p + 1);
        if p < 0 {
            lemma_class_out_of_range(r, p);
            lemma_class_out_of_range(s, p);
        }
    }
}

/// Only one list is in descending order of priority and holds, for each
/// priority, the tasks that `s` has of it in the order of `s`: the sorted
/// list.
pub proof fn lemma_sort_is_unique(r: Seq<TaskView>, s: Seq<TaskView>)
    requires
        sorted_desc(r),
        forall|q: int| 0 <= q <= u8::MAX ==> priority_class(r, q) == priority_class(s, q),
    ensures
        r == sort_desc(s),
{
    lemma_sorted_is_fixed(r);
    lemma_at_least_by_classes(r, s, 0);
}

/// Where a task goes that is added to a sorted list: behind the last task at
/// least as urgent, before the first less urgent one.
proof fn lemma_insertion_point(s: Seq<TaskView>, x: TaskView, j: int)
    requires
        0 <= j <= sort_desc(s).len(),
        j > 0 ==> sort_desc(s)[j - 1].priority >= x.priority,
        forall|k: int| j <= k < sort_desc(s).len() ==> (#[trigger] sort_desc(s)[k]).priority < x.priority,
    ensures
        sort_desc(s.push(x)) == sort_desc(s).insert(j, x),
{
    let q = x.priority as int;
    let k = at_least(s, q).len() as int;
    lemma_at_least_push(s, x, 0);
    lemma_at_least_split(s, 0, q);
    lemma_at_least_floor(s, q);
    if j < k {
        assert(sort_desc(s).take(k)[j] == at_least(s, q)[j]);
        assert(sort_desc(s)[j].priority < q);
    } else if j > k {
        assert(sort_desc(s)[j - 1].priority < q);
    }
}

/// Sorts the tasks by priority, the most urgent first. Tasks of equal
/// priority keep their order.
pub fn sort_by_priority(tasks: &mut Vec<Task>)
    ensures
        views(final(tasks)@) == sort_desc(views(old(tasks)@)),
        sorted_desc(views(final(tasks)@)),
        forall|p: int|
            priority_class(views(final(tasks)@), p) == priority_class(views(old(tasks)@), p),
        views(final(tasks)@).to_multiset() == views(old(tasks)@).to_multiset(),
        final(tasks)@.len() == old(tasks)@.len(),
{
    let ghost before = views(tasks@);
    let n = tasks.len();
    let mut i: usize = 0;
    proof {
        lemma_at_least_empty(0);
        assert(before.take(0) =~= Seq::empty());
        assert(views(tasks@).skip(0) =~= before.skip(0));
    }
    while i < n
        invariant
            i <= n,
            tasks@.len() == n,
            before.len() == n,
            views(tasks@).take(i as int) == sort_desc(before.take(i as int)),
            views(tasks@).skip(i as int) == before.skip(i as int),
        decreases n - i,
    {
        let ghost current = views(tasks@);
        let priority = tasks[i].priority;
        let mut j: usize = i;
        while j > 0 && tasks[j - 1].priority < priority
            invariant
                j <= i < n,
                tasks@.len() == n,
                current == views(tasks@),
                priority == current[i as int].priority,
                forall|k: int| j <= k < i ==> (#[trigger] current[k]).priority < priority,
            decreases j,
        {
            j = j - 1;
        }
        if j < i {
            let task = tasks.remove(i);
            tasks.insert(j, task);
        }
        proof {
            let x = current[i as int];
            let sorted = current.take(i as int);
            assert(x == before.skip(i as int)[0]);
            assert(before.take(i + 1) =~= before.take(i as int).push(x));
            assert forall|k: int| j <= k < sorted.len() implies (#[trigger] sorted[k]).priority
                < x.priority by {
                assert(sorted[k] == current[k]);
            }
            if j > 0 {
                assert(sorted[j - 1] == current[j - 1]);
            }
            lemma_insertion_point(before.take(i as int), x, j as int);
            assert(views(tasks@) =~= current.remove(i as int).insert(j as int, x));
            assert(views(tasks@).take(i + 1) =~= sorted.insert(j as int, x));
            let rest = views(tasks@).skip(i + 1);
            assert forall|k: int| 0 <= k < rest.len() implies #[trigger] rest[k] == before.skip(
                i + 1,
            )[k] by {
                assert(current.skip(i as int)[k + 1] == before.skip(i as int)[k + 1]);
            }
            assert(rest =~= before.skip(i + 1));
        }
        i = i + 1;
    }
    proof {
        assert(views(tasks@).take(n as int) =~= views(tasks@));
        assert(before.take(n as int) =~= before);
        lemma_sort_is_sorted(before);
        lemma_sort_permutes(before);
        assert forall|p: int| priority_class(sort_desc(before), p) == priority_class(
            before,
            p,
        ) by {
            lemma_sort_keeps_classes(before, p);
        }
    }
}

} // verus!
