//! Filter-level commands: the full listing, the next-task pick, and the
//! rename and label decisions. The caller fetches the tasks; everything
//! decided here is verified.

use vstd::prelude::*;

use crate::tasks::{
    datetime_order_respected, is_position_permutation, sort_by_datetime, sort_by_value, spec_fmt,
    spec_value, task_lines, value_order_respected, FormatType, Task,
};
use crate::time::{dec_digits, u64_digits, Context};

verus! {

/// The listing of every task for a filter, schedule-ordered: a header
/// line, then each task as a list line; a fixed notice where there are
/// none.
pub fn all_tasks(tasks: Vec<Task>, filter: &String, ctx: &Context) -> (r: String)
    ensures
        tasks@.len() == 0 ==> r@ == "No tasks for filter: '"@ + filter@ + "'"@,
        tasks@.len() > 0 ==> exists|p: Seq<int>|
            {
                &&& #[trigger] is_position_permutation(p, tasks@.len() as int)
                &&& datetime_order_respected(tasks@, *ctx, p)
                &&& r@ == "Tasks for filter: '"@ + filter@ + "'"@ + task_lines(
                    Seq::new(tasks@.len(), |k: int| tasks@[p[k]]),
                    *ctx,
                    FormatType::List,
                )
            },
{
    if tasks.is_empty() {
        let mut s = "No tasks for filter: '".to_owned();
        s.append(filter.as_str());
        s.append("'");
        proof {
            assert(s@ =~= "No tasks for filter: '"@ + filter@ + "'"@);
        }
        return s;
    }
    let ghost orig = tasks@;
    let sorted = sort_by_datetime(tasks, ctx);
    let mut s = "Tasks for filter: '".to_owned();
    s.append(filter.as_str());
    s.append("'");
    proof {
        assert(s@ =~= "Tasks for filter: '"@ + filter@ + "'"@);
    }
    let ghost header = s@;
    let n = sorted.len();
    let mut i: usize = 0;
    while i < n
        invariant
            i <= n,
            n == sorted@.len(),
            s@ == header + task_lines(sorted@.take(i as int), *ctx, FormatType::List),
        decreases n - i,
    {
        s.append("\n");
        s.append(sorted[i].fmt(ctx, FormatType::List).as_str());
        proof {
            assert(sorted@.take(i + 1).drop_last() =~= sorted@.take(i as int));
            assert(sorted@.take(i + 1).last() == sorted@[i as int]);
            assert(s@ =~= header + task_lines(sorted@.take(i + 1), *ctx, FormatType::List));
        }
        i = i + 1;
    }
    proof {
        let p = choose|p: Seq<int>|
            {
                &&& #[trigger] is_position_permutation(p, orig.len() as int)
                &&& datetime_order_respected(orig, *ctx, p)
                &&& forall|k: int| 0 <= k < p.len() ==> sorted@[k] == orig[#[trigger] p[k]]
            };
        assert(sorted@.take(n as int) =~= sorted@);
        assert(Seq::new(orig.len(), |k: int| orig[p[k]]) =~= sorted@);
    }
    s
}

/// The most urgent task paired with the candidate count: a task of maximal
/// value, the earliest such task in input order; `None` where the list is
/// empty.
pub fn fetch_next_task(tasks: Vec<Task>, ctx: &Context) -> (r: Option<(Task, usize)>)
    ensures
        (tasks@.len() == 0) == (r is None),
        r matches Some(pair) ==> pair.1 == tasks@.len() && exists|q: int|
            {
                &&& 0 <= q < tasks@.len()
                &&& pair.0 == tasks@[q]
                &&& forall|k: int|
                    0 <= k < tasks@.len() ==> spec_value(#[trigger] tasks@[k], *ctx) <= spec_value(
                        tasks@[q],
                        *ctx,
                    )
                &&& forall|k: int|
                    0 <= k < q ==> spec_value(#[trigger] tasks@[k], *ctx) < spec_value(
                        tasks@[q],
                        *ctx,
                    )
            },
{
    let ghost orig = tasks@;
    let n = tasks.len();
    let sorted = sort_by_value(tasks, ctx);
    if n == 0 {
        return None;
    }
    let first = sorted[0].clone();
    proof {
        let p = choose|p: Seq<int>|
            {
                &&& #[trigger] is_position_permutation(p, orig.len() as int)
                &&& value_order_respected(orig, *ctx, p)
                &&& forall|k: int| 0 <= k < p.len() ==> sorted@[k] == orig[#[trigger] p[k]]
            };
        let q = p[0];
        assert(first == orig[q]);
        assert forall|k: int| 0 <= k < orig.len() implies spec_value(#[trigger] orig[k], *ctx)
            <= spec_value(orig[q], *ctx) by {
            assert(p.contains(k));
            let j = choose|j: int| 0 <= j < p.len() && p[j] == k;
            if j != 0 {
                assert(spec_value(orig[p[0]], *ctx) > spec_value(orig[p[j]], *ctx) || (spec_value(
                    orig[p[0]],
                    *ctx,
                ) == spec_value(orig[p[j]], *ctx) && p[0] < p[j]));
            }
        }
        assert forall|k: int| 0 <= k < q implies spec_value(#[trigger] orig[k], *ctx) < spec_value(
            orig[q],
            *ctx,
        ) by {
            assert(p.contains(k));
            let j = choose|j: int| 0 <= j < p.len() && p[j] == k;
            assert(j != 0);
            assert(spec_value(orig[p[0]], *ctx) > spec_value(orig[p[j]], *ctx) || (spec_value(
                orig[p[0]],
                *ctx,
            ) == spec_value(orig[p[j]], *ctx) && p[0] < p[j]));
        }
    }
    Some((first, n))
}

/// The next-task message: the most urgent task rendered alone, then how
/// many candidates there were; a fixed notice where the list is empty.
pub fn next_task(tasks: Vec<Task>, ctx: &Context) -> (r: String)
    ensures
        tasks@.len() == 0 ==> r@ == "No tasks on list"@,
        tasks@.len() > 0 ==> exists|q: int|
            {
                &&& 0 <= q < tasks@.len()
                &&& forall|k: int|
                    0 <= k < tasks@.len() ==> spec_value(#[trigger] tasks@[k], *ctx) <= spec_value(
                        tasks@[q],
                        *ctx,
                    )
                &&& forall|k: int|
                    0 <= k < q ==> spec_value(#[trigger] tasks@[k], *ctx) < spec_value(
                        tasks@[q],
                        *ctx,
                    )
                &&& r@ == spec_fmt(tasks@[q], *ctx, FormatType::Single) + "\n"@ + dec_digits(
                    tasks@.len() as int,
                ) + " task(s) remaining"@
            },
{
    match fetch_next_task(tasks, ctx) {
        Some((task, remaining)) => {
            let mut s = task.fmt(ctx, FormatType::Single);
            s.append("\n");
            s.append(u64_digits(remaining as u64).as_str());
            s.append(" task(s) remaining");
            s
        },
        None => "No tasks on list".to_owned(),
    }
}

/// The rename decision: `None` where the edited text equals the task's
/// current content and there is nothing to change, else the content to
/// submit.
pub fn rename_task(task: &Task, new_content: String) -> (r: Option<String>)
    ensures
        (r is None) == (task.content@ == new_content@),
        r matches Some(c) ==> c@ == new_content@,
{
    if task.content.eq(&new_content) {
        None
    } else {
        Some(new_content)
    }
}

/// The notice that ends a labelling pass over a filter's tasks.
pub fn label(filter: &str) -> (r: String)
    ensures
        r@ == "There are no more tasks for filter: '"@ + filter@ + "'"@,
{
    let mut s = "There are no more tasks for filter: '".to_owned();
    s.append(filter);
    s.append("'");
    proof {
        assert(s@ =~= "There are no more tasks for filter: '"@ + filter@ + "'"@);
    }
    s
}

} // verus!
