use tod::filters::{all_tasks, fetch_next_task, label, next_task, rename_task};
use tod::priority::Priority;
use tod::report::{CommonReports, Report};
use tod::tasks::{
    filter_not_in_future, filter_today_and_has_time, sort_by_datetime, sort_by_value, DateInfo,
    DateTimeInfo, FormatType, Task, TaskFilter,
};
use tod::time::{context_now, Context, Date, TimeError};

fn la_context() -> Context {
    // 2024-01-01T12:00:00Z; 04:00 in America/Los_Angeles, so the current
    // date there is 2024-01-01.
    Context {
        timezone: Some(String::from("America/Los_Angeles")),
        now_epoch_s: 1704110400,
        today: Date { year: 2024, month: 1, day: 1 },
    }
}

fn plain_task(id: &str, content: &str, due: Option<DateInfo>) -> Task {
    Task {
        id: String::from(id),
        content: String::from(content),
        priority: Priority::Medium,
        description: String::new(),
        due,
        is_completed: None,
        is_deleted: None,
        checked: None,
        completed_at: None,
    }
}

fn due(date: &str) -> Option<DateInfo> {
    Some(DateInfo {
        date: String::from(date),
        is_recurring: false,
        timezone: None,
    })
}

#[test]
fn scenario_overdue_date_task() {
    let ctx = la_context();
    let task = plain_task("1", "old chore", due("2020-12-20"));
    assert!(task.is_overdue(&ctx));
    assert_eq!(task.date_value(&ctx), 200);
    assert_eq!(task.priority_value(), 3);
    assert_eq!(task.value(&ctx), 203);
}

#[test]
fn scenario_zone_suffixed_datetime() {
    let ctx = la_context();
    let task = plain_task("1", "call", due("2021-02-27T19:41:56Z"));
    // the instant is fixed to UTC although the context zone is not UTC
    match task.datetime(&ctx) {
        Some(z) => assert_eq!(z.epoch_s, 1614454916),
        None => panic!("expected a concrete instant"),
    }
    // far outside the fifteen-minute window
    assert_eq!(task.date_value(&ctx), 50);
    let recurring = Task {
        due: Some(DateInfo {
            date: String::from("2021-02-27T19:41:56Z"),
            is_recurring: true,
            timezone: None,
        }),
        ..task
    };
    assert_eq!(recurring.date_value(&ctx), 0);
}

#[test]
fn scenario_empty_collection() {
    let ctx = la_context();
    assert_eq!(sort_by_value(Vec::new(), &ctx), Vec::<Task>::new());
    assert_eq!(sort_by_datetime(Vec::new(), &ctx), Vec::<Task>::new());
    assert_eq!(filter_not_in_future(Vec::new(), &ctx), Ok(Vec::new()));
    assert_eq!(filter_today_and_has_time(Vec::new(), &ctx), Vec::<Task>::new());
    assert_eq!(fetch_next_task(Vec::new(), &ctx), None);
    assert_eq!(next_task(Vec::new(), &ctx), "No tasks on list");
}

#[test]
fn scenario_unparseable_due_string() {
    let ctx = la_context();
    let broken = plain_task("1", "broken", due("2{invalid"));
    assert!(matches!(
        broken.datetimeinfo(&ctx),
        Err(TimeError::ParseError { .. })
    ));
    assert_eq!(broken.date_value(&ctx), 50);
    // the task is ranked, not dropped
    let other = plain_task("2", "fine", None);
    let sorted = sort_by_value(vec![broken.clone(), other.clone()], &ctx);
    assert_eq!(sorted.len(), 2);
    assert_eq!(sorted, vec![other, broken]);
}

#[test]
fn ten_characters_never_resolve_to_datetime() {
    let ctx = la_context();
    let task = plain_task("1", "dated", due("2020-12-20"));
    assert!(!task.has_time(&ctx));
    assert_eq!(task.datetime(&ctx), None);
    assert!(matches!(
        task.datetimeinfo(&ctx),
        Ok(DateTimeInfo::Date { .. })
    ));
}

#[test]
fn fifteen_minute_window_boundary() {
    let ctx = la_context();
    // 04:15:59 local is 959 seconds after the current instant: inside
    let inside = plain_task("1", "soon", due("2024-01-01T04:15:59"));
    assert_eq!(inside.date_value(&ctx), 250);
    // 04:16:00 local is 960 seconds after: outside
    let outside = plain_task("2", "later", due("2024-01-01T04:16:00"));
    assert_eq!(outside.date_value(&ctx), 50);
}

#[test]
fn unknown_zone_is_a_typed_error() {
    let ctx = la_context();
    let task = Task {
        due: Some(DateInfo {
            date: String::from("2021-08-13"),
            is_recurring: false,
            timezone: Some(String::from("Not/AZone")),
        }),
        ..plain_task("1", "zoned", None)
    };
    assert!(matches!(
        task.datetimeinfo(&ctx),
        Err(TimeError::TimezoneError { .. })
    ));
    assert_eq!(task.date_value(&ctx), 50);
}

#[test]
fn explicit_zone_anchors_local_datetime() {
    let ctx = la_context();
    let task = Task {
        due: Some(DateInfo {
            date: String::from("2021-09-06T16:00:00"),
            is_recurring: false,
            timezone: Some(String::from("US/Pacific")),
        }),
        ..plain_task("1", "zoned", None)
    };
    // 16:00 in US/Pacific that day is 23:00 UTC
    assert_eq!(task.datetime(&ctx).unwrap().epoch_s, 1630969200);
}

#[test]
fn missing_zones_default_to_utc() {
    let ctx = Context {
        timezone: None,
        now_epoch_s: 1704110400,
        today: Date { year: 2024, month: 1, day: 1 },
    };
    let task = plain_task("1", "plain", due("2021-09-06T16:00:00"));
    assert_eq!(task.datetime(&ctx).unwrap().epoch_s, 1630944000);
}

#[test]
fn formats_hour_minute_for_today() {
    let ctx = la_context();
    let task = plain_task("1", "meeting", due("2024-01-01T16:30:00"));
    assert_eq!(task.fmt(&ctx, FormatType::Single), "meeting\nDue: 16:30");
}

#[test]
fn formats_full_datetime_for_other_days() {
    let ctx = la_context();
    let task = plain_task("1", "meeting", due("2021-09-06T16:00:00"));
    assert_eq!(
        task.fmt(&ctx, FormatType::Single),
        "meeting\nDue: 2021-09-06 16:00:00 PDT"
    );
}

#[test]
fn formats_list_entries_with_description_and_recurrence() {
    let ctx = la_context();
    let task = Task {
        description: String::from("wrap them first"),
        due: Some(DateInfo {
            date: String::from("2020-12-20"),
            is_recurring: true,
            timezone: None,
        }),
        ..plain_task("1", "gifts", None)
    };
    assert_eq!(
        task.fmt(&ctx, FormatType::List),
        "- gifts\n  wrap them first\n  Due: 2020-12-20 ↻"
    );
}

#[test]
fn format_shows_parse_failure_inline() {
    let ctx = la_context();
    let task = plain_task("1", "broken", due("2{invalid"));
    assert_eq!(
        task.fmt(&ctx, FormatType::Single),
        "brokencannot parse DateTime: 2{invalid"
    );
}

#[test]
fn task_filter_views() {
    let ctx = la_context();
    let undated = plain_task("1", "undated", None);
    let overdue = plain_task("2", "overdue", due("2020-12-20"));
    let future = plain_task("3", "future", due("2035-12-12"));
    let recurring = Task {
        due: Some(DateInfo {
            date: String::from("2035-12-12"),
            is_recurring: true,
            timezone: None,
        }),
        ..plain_task("4", "recurring", None)
    };
    assert!(undated.filter(&ctx, &TaskFilter::Unscheduled));
    assert!(overdue.filter(&ctx, &TaskFilter::Unscheduled));
    assert!(!future.filter(&ctx, &TaskFilter::Unscheduled));
    assert!(overdue.filter(&ctx, &TaskFilter::Overdue));
    assert!(!undated.filter(&ctx, &TaskFilter::Overdue));
    assert!(recurring.filter(&ctx, &TaskFilter::Recurring));
    assert!(!future.filter(&ctx, &TaskFilter::Recurring));
}

#[test]
fn filter_not_in_future_keeps_candidates_in_order() {
    let ctx = la_context();
    let undated = plain_task("1", "undated", None);
    let overdue = plain_task("2", "overdue", due("2020-12-20"));
    let today = plain_task("3", "today", due("2024-01-01"));
    let future = plain_task("4", "future", due("2035-12-12"));
    let kept = filter_not_in_future(
        vec![undated.clone(), future, overdue.clone(), today.clone()],
        &ctx,
    )
    .unwrap();
    assert_eq!(kept, vec![undated, overdue, today]);
}

#[test]
fn filter_today_and_has_time_keeps_appointments() {
    let ctx = la_context();
    let timed_today = plain_task("1", "timed", due("2024-01-01T16:30:00"));
    let dated_today = plain_task("2", "dated", due("2024-01-01"));
    let timed_future = plain_task("3", "future", due("2035-09-06T16:00:00"));
    let kept = filter_today_and_has_time(
        vec![dated_today, timed_today.clone(), timed_future],
        &ctx,
    );
    assert_eq!(kept, vec![timed_today]);
}

#[test]
fn sort_by_value_is_stable_for_equal_values() {
    let ctx = la_context();
    let first = plain_task("first", "same value", None);
    let second = plain_task("second", "same value", None);
    let sorted = sort_by_value(vec![first.clone(), second.clone()], &ctx);
    assert_eq!(sorted[0].id, "first");
    assert_eq!(sorted[1].id, "second");
}

#[test]
fn all_tasks_lists_in_schedule_order() {
    let ctx = la_context();
    let filter = String::from("today");
    assert_eq!(
        all_tasks(Vec::new(), &filter, &ctx),
        "No tasks for filter: 'today'"
    );
    let a = plain_task("1", "A", None);
    let b = plain_task("2", "B", due("2021-09-06T16:00:00"));
    assert_eq!(
        all_tasks(vec![b, a], &filter, &ctx),
        "Tasks for filter: 'today'\n- A\n- B\n  Due: 2021-09-06 16:00:00 PDT"
    );
}

#[test]
fn next_task_picks_the_most_urgent() {
    let ctx = la_context();
    let urgent = Task {
        priority: Priority::High,
        ..plain_task("1", "urgent", None)
    };
    let relaxed = Task {
        priority: Priority::NotSet,
        ..plain_task("2", "relaxed", None)
    };
    match fetch_next_task(vec![relaxed.clone(), urgent.clone()], &ctx) {
        Some((task, remaining)) => {
            assert_eq!(task.content, "urgent");
            assert_eq!(remaining, 2);
        }
        None => panic!("expected a task"),
    }
    assert_eq!(
        next_task(vec![relaxed, urgent], &ctx),
        "urgent\n2 task(s) remaining"
    );
}

#[test]
fn rename_task_decides() {
    let task = plain_task("1", "same", None);
    assert_eq!(rename_task(&task, String::from("same")), None);
    assert_eq!(
        rename_task(&task, String::from("changed")),
        Some(String::from("changed"))
    );
}

#[test]
fn label_notice() {
    assert_eq!(
        label("today"),
        "There are no more tasks for filter: 'today'"
    );
}

#[test]
fn completion_reports_select_by_local_date() {
    let ctx = la_context();
    let done_today = Task {
        completed_at: Some(String::from("2024-01-01T18:00:00Z")),
        ..plain_task("1", "done today", None)
    };
    let done_yesterday = Task {
        completed_at: Some(String::from("2023-12-31T18:00:00Z")),
        ..plain_task("2", "done yesterday", None)
    };
    let open_task = plain_task("3", "open", None);
    let tasks = vec![done_today, done_yesterday, open_task];

    let report = Report::new(
        ctx.clone(),
        "chores",
        tasks.clone(),
        CommonReports::DoneToday,
    );
    assert_eq!(
        report.print(),
        Ok(String::from(
            "Tasks completed today in chores project:\n- done today"
        ))
    );

    let report = Report::new(
        ctx.clone(),
        "chores",
        tasks,
        CommonReports::DoneYesterday,
    );
    assert_eq!(
        report.print(),
        Ok(String::from(
            "Tasks completed yesterday in chores project:\n- done yesterday"
        ))
    );
}

#[test]
fn due_today_report_selects_todays_tasks() {
    let ctx = la_context();
    let today = plain_task("1", "due now", due("2024-01-01"));
    let future = plain_task("2", "later", due("2035-12-12"));
    let report = Report::new(ctx, "chores", vec![future, today], CommonReports::DueToday);
    assert_eq!(
        report.print(),
        Ok(String::from(
            "Tasks completed today in chores project:\n- due now\n  Due: Today"
        ))
    );
}

#[test]
fn today_date_values() {
    let ctx = la_context();
    let plain = plain_task("1", "chore", due("2024-01-01"));
    assert_eq!(plain.date_value(&ctx), 150);
    let recurring = Task {
        due: Some(DateInfo {
            date: String::from("2024-01-01"),
            is_recurring: true,
            timezone: None,
        }),
        ..plain
    };
    assert_eq!(recurring.date_value(&ctx), 100);
}

#[test]
fn priority_value_ranking_scale() {
    let ctx = la_context();
    let with = |p: Priority| Task {
        priority: p,
        ..plain_task("1", "x", None)
    };
    assert_eq!(with(Priority::NotSet).priority_value(), 2);
    assert_eq!(with(Priority::Low).priority_value(), 1);
    assert_eq!(with(Priority::Medium).priority_value(), 3);
    assert_eq!(with(Priority::High).priority_value(), 4);
    // no due specification: 80 plus the priority contribution
    assert_eq!(with(Priority::High).value(&ctx), 84);
}

#[test]
fn empty_report_prints_its_heading_alone() {
    let ctx = la_context();
    let report = Report::new(ctx, "chores", Vec::new(), CommonReports::DoneYesterday);
    assert_eq!(
        report.print(),
        Ok(String::from("Tasks completed yesterday in chores project:"))
    );
}

#[test]
fn context_now_resolves_known_zones_only() {
    let ctx = context_now(Some(String::from("US/Pacific"))).unwrap();
    assert_eq!(ctx.timezone, Some(String::from("US/Pacific")));
    assert!(ctx.now_epoch_s > 1704110400);
    assert!(matches!(
        context_now(Some(String::from("Nope/Zone"))),
        Err(TimeError::TimezoneError { .. })
    ));
    assert!(context_now(None).is_ok());
}
