//! Ready-made reports over one project's tasks: what was completed
//! yesterday or today, and what is due today. The caller fetches the
//! tasks; selecting and rendering them is verified.

use vstd::prelude::*;

use crate::tasks::{
    lemma_filter_push, spec_is_today, task_lines, FormatType, Task,
};
use crate::time::{
    effective_zone, effective_zone_name, epoch_of_civil, epoch_seconds, parse_civil_datetime,
    parse_datetime_spec, previous_date, spec_previous_date, Context, Date,
};
use crate::tz::{zone_civil, zone_civil_of};

verus! {

/// The ready-made report kinds.
#[derive(Clone, Copy, Debug, PartialEq, Eq, Structural)]
pub enum CommonReports {
    DoneYesterday,
    DoneToday,
    DueToday,
}

pub open spec fn report_title(c: CommonReports) -> Seq<char> {
    match c {
        CommonReports::DoneYesterday => "Tasks completed yesterday"@,
        CommonReports::DoneToday => "Tasks completed today"@,
        CommonReports::DueToday => "Tasks that need to be done today"@,
    }
}

impl CommonReports {
    /// The report's human heading.
    pub fn fmt(&self) -> (r: String)
        ensures
            r@ == report_title(*self),
    {
        match self {
            CommonReports::DoneYesterday => "Tasks completed yesterday".to_owned(),
            CommonReports::DoneToday => "Tasks completed today".to_owned(),
            CommonReports::DueToday => "Tasks that need to be done today".to_owned(),
        }
    }
}

/// The civil date, in the context's display zone, on which a task was
/// completed: `None` without a completion timestamp, or where it is not
/// the twenty-character UTC form, or where the zone data cannot place it.
pub open spec fn spec_completed_date(t: Task, ctx: Context) -> Option<Date> {
    match t.completed_at {
        None => None,
        Some(s) => match parse_datetime_spec(s@, true) {
            Some(p) => match zone_civil_of(effective_zone_name(ctx), epoch_of_civil(p.0, p.1)) {
                Some(c) => Some(Date { year: c.0 as u32, month: c.1 as u32, day: c.2 as u32 }),
                None => None,
            },
            None => None,
        },
    }
}

/// Reads the completion date of a task in the context's display zone.
pub fn completed_date(t: &Task, ctx: &Context) -> (r: Option<Date>)
    ensures
        r == spec_completed_date(*t, *ctx),
{
    let s = match &t.completed_at {
        None => {
            return None;
        },
        Some(s) => s,
    };
    match parse_civil_datetime(s.as_str(), true) {
        Some((d, tm)) => {
            let e = epoch_seconds(&d, &tm);
            let zone = effective_zone(ctx);
            match zone_civil(zone, e) {
                Some((cd, _tm2)) => Some(cd),
                None => None,
            }
        },
        None => None,
    }
}

/// The selection of a completion report: completed on the given day.
pub open spec fn completed_on_pred(ctx: Context, day: Date) -> spec_fn(Task) -> bool {
    |t: Task| spec_completed_date(t, ctx) == Some(day)
}

/// The selection of the due-today report.
pub open spec fn due_today_pred(ctx: Context) -> spec_fn(Task) -> bool {
    |t: Task| spec_is_today(t, ctx)
}

fn keep_completed_on(tasks: Vec<Task>, ctx: &Context, day: Date) -> (r: Vec<Task>)
    ensures
        r@ == tasks@.filter(completed_on_pred(*ctx, day)),
{
    let n = tasks.len();
    let mut out: Vec<Task> = Vec::new();
    let mut i: usize = 0;
    while i < n
        invariant
            i <= n,
            n == tasks@.len(),
            out@ == tasks@.take(i as int).filter(completed_on_pred(*ctx, day)),
        decreases n - i,
    {
        let ghost prefix = tasks@.take(i as int);
        let t = &tasks[i];
        let keep = match completed_date(t, ctx) {
            Some(d) => crate::time::date_eq(&d, &day),
            None => false,
        };
        if keep {
            out.push(t.clone());
        }
        proof {
            assert(tasks@.take(i + 1) =~= prefix.push(tasks@[i as int]));
            lemma_filter_push(prefix, completed_on_pred(*ctx, day), tasks@[i as int]);
        }
        i = i + 1;
    }
    proof {
        assert(tasks@.take(n as int) =~= tasks@);
    }
    out
}

fn keep_due_today(tasks: Vec<Task>, ctx: &Context) -> (r: Vec<Task>)
    ensures
        r@ == tasks@.filter(due_today_pred(*ctx)),
{
    let n = tasks.len();
    let mut out: Vec<Task> = Vec::new();
    let mut i: usize = 0;
    while i < n
        invariant
            i <= n,
            n == tasks@.len(),
            out@ == tasks@.take(i as int).filter(due_today_pred(*ctx)),
        decreases n - i,
    {
        let ghost prefix = tasks@.take(i as int);
        let t = &tasks[i];
        if t.is_today(ctx) {
            out.push(t.clone());
        }
        proof {
            assert(tasks@.take(i + 1) =~= prefix.push(tasks@[i as int]));
            lemma_filter_push(prefix, due_today_pred(*ctx), tasks@[i as int]);
        }
        i = i + 1;
    }
    proof {
        assert(tasks@.take(n as int) =~= tasks@);
    }
    out
}

/// A selected view over one project's tasks, ready to print.
pub struct Report {
    pub project_name: String,
    pub tasks: Vec<Task>,
    pub context: Context,
    pub report_type: CommonReports,
}

impl Report {
    /// Builds the chosen report over the project's already-fetched tasks.
    pub fn new(context: Context, project: &str, tasks: Vec<Task>, report_type: CommonReports) -> (r:
        Report)
        ensures
            r.project_name@ == project@,
            r.context == context,
            match report_type {
                CommonReports::DoneYesterday => r.report_type == CommonReports::DoneYesterday
                    && r.tasks@ == tasks@.filter(
                    completed_on_pred(context, spec_previous_date(context.today)),
                ),
                CommonReports::DoneToday => r.report_type == CommonReports::DoneToday && r.tasks@
                    == tasks@.filter(completed_on_pred(context, context.today)),
                CommonReports::DueToday => r.report_type == CommonReports::DoneToday && r.tasks@
                    == tasks@.filter(due_today_pred(context)),
            },
    {
        match report_type {
            CommonReports::DoneYesterday => Report::form_done_yesterday_report(
                context,
                project,
                tasks,
            ),
            CommonReports::DoneToday => Report::form_done_today_report(context, project, tasks),
            CommonReports::DueToday => Report::form_due_today_report(context, project, tasks),
        }
    }

    /// The tasks completed on the day before the context's current date.
    pub fn form_done_yesterday_report(context: Context, project: &str, tasks: Vec<Task>) -> (r:
        Report)
        ensures
            r.project_name@ == project@,
            r.context == context,
            r.report_type == CommonReports::DoneYesterday,
            r.tasks@ == tasks@.filter(
                completed_on_pred(context, spec_previous_date(context.today)),
            ),
    {
        let yesterday = previous_date(&context.today);
        let kept = keep_completed_on(tasks, &context, yesterday);
        Report {
            project_name: project.to_owned(),
            tasks: kept,
            context,
            report_type: CommonReports::DoneYesterday,
        }
    }

    /// The tasks completed on the context's current date.
    pub fn form_done_today_report(context: Context, project: &str, tasks: Vec<Task>) -> (r: Report)
        ensures
            r.project_name@ == project@,
            r.context == context,
            r.report_type == CommonReports::DoneToday,
            r.tasks@ == tasks@.filter(completed_on_pred(context, context.today)),
    {
        let today = context.today;
        let kept = keep_completed_on(tasks, &context, today);
        Report {
            project_name: project.to_owned(),
            tasks: kept,
            context,
            report_type: CommonReports::DoneToday,
        }
    }

    /// The tasks due on the context's current date.
    pub fn form_due_today_report(context: Context, project: &str, tasks: Vec<Task>) -> (r: Report)
        ensures
            r.project_name@ == project@,
            r.context == context,
            r.report_type == CommonReports::DoneToday,
            r.tasks@ == tasks@.filter(due_today_pred(context)),
    {
        let kept = keep_due_today(tasks, &context);
        Report {
            project_name: project.to_owned(),
            tasks: kept,
            context,
            report_type: CommonReports::DoneToday,
        }
    }

    /// Renders the report: its heading, then each task as a list line.
    pub fn print(&self) -> (r: Result<String, String>)
        ensures
            r matches Ok(s) && s@ == report_title(self.report_type) + " in "@ + self.project_name@
                + " project:"@ + task_lines(self.tasks@, self.context, FormatType::List),
    {
        let mut s = self.report_type.fmt();
        s.append(" in ");
        s.append(self.project_name.as_str());
        s.append(" project:");
        let ghost header = s@;
        proof {
            assert(header =~= report_title(self.report_type) + " in "@ + self.project_name@
                + " project:"@);
        }
        let n = self.tasks.len();
        let mut i: usize = 0;
        while i < n
            invariant
                i <= n,
                n == self.tasks@.len(),
                s@ == header + task_lines(self.tasks@.take(i as int), self.context, FormatType::List),
        decreases n - i,
        {
            s.append("\n");
            s.append(self.tasks[i].fmt(&self.context, FormatType::List).as_str());
            proof {
                assert(self.tasks@.take(i + 1).drop_last() =~= self.tasks@.take(i as int));
                assert(self.tasks@.take(i + 1).last() == self.tasks@[i as int]);
                assert(s@ =~= header + task_lines(
                    self.tasks@.take(i + 1),
                    self.context,
                    FormatType::List,
                ));
            }
            i = i + 1;
        }
        proof {
            assert(self.tasks@.take(n as int) =~= self.tasks@);
        }
        Ok(s)
    }
}

} // verus!
