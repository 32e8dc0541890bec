use tod::priority::Priority;
use tod::tasks::{sort_by_datetime, sort_by_value, DateInfo, FormatType, Task};
use tod::time::{today_string, Context, Date};

fn test_context() -> Context {
    // 2024-01-01T12:00:00Z; 04:00 in the US/Pacific zone, so the current
    // date there is 2024-01-01.
    Context {
        timezone: Some(String::from("US/Pacific")),
        now_epoch_s: 1704110400,
        today: Date { year: 2024, month: 1, day: 1 },
    }
}

fn fixture_task() -> Task {
    Task {
        id: String::from("222"),
        content: String::from("Get gifts for the twins"),
        priority: Priority::Medium,
        description: String::new(),
        due: Some(DateInfo {
            date: String::from("2061-11-13"),
            is_recurring: false,
            timezone: Some(String::from("America/Los_Angeles")),
        }),
        is_completed: None,
        is_deleted: None,
        checked: None,
        completed_at: None,
    }
}

#[test]
fn date_value_can_handle_date() {
    let config = test_context();
    // On another day
    assert_eq!(fixture_task().date_value(&config), 50);

    // Recurring
    let task = Task {
        due: Some(DateInfo {
            is_recurring: true,
            ..fixture_task().due.unwrap()
        }),
        ..fixture_task()
    };
    assert_eq!(task.date_value(&config), 0);

    // Overdue
    let task = Task {
        due: Some(DateInfo {
            date: String::from("2001-11-13"),
            is_recurring: true,
            timezone: Some(String::from("America/Los_Angeles")),
        }),
        ..fixture_task()
    };
    assert_eq!(task.date_value(&config), 150);

    // No date
    let task = Task { due: None, ..task };
    assert_eq!(task.date_value(&config), 80);
}

#[test]
fn date_value_can_handle_datetime() {
    let config = test_context();
    let task = Task {
        due: Some(DateInfo {
            date: String::from("2021-02-27T19:41:56Z"),
            ..fixture_task().due.unwrap()
        }),
        ..fixture_task()
    };

    assert_eq!(task.date_value(&config), 50);
}

#[test]
fn can_format_task_with_a_date() {
    let config = test_context();
    let task = Task {
        content: String::from("Get gifts for the twins"),
        due: Some(DateInfo {
            date: String::from("2021-08-13"),
            ..fixture_task().due.unwrap()
        }),
        ..fixture_task()
    };

    assert_eq!(
        task.fmt(&config, FormatType::Single),
        "Get gifts for the twins\nDue: 2021-08-13"
    );
}

#[test]
fn can_format_task_with_today() {
    let config = test_context();
    let task = Task {
        content: String::from("Get gifts for the twins"),
        due: Some(DateInfo {
            date: today_string(&config),
            ..fixture_task().due.unwrap()
        }),
        ..fixture_task()
    };

    assert_eq!(
        task.fmt(&config, FormatType::Single),
        "Get gifts for the twins\nDue: Today"
    );
}

#[test]
fn value_can_get_the_value_of_an_task() {
    let config = test_context();
    let task = Task {
        due: Some(DateInfo {
            date: String::from("2021-09-06T16:00:00"),
            ..fixture_task().due.unwrap()
        }),
        ..fixture_task()
    };

    assert!(matches!(task.datetime(&config), Some(_)));
}

#[test]
fn datetime_works_with_date() {
    let config = test_context();
    let task = Task {
        due: Some(DateInfo {
            date: today_string(&config),
            ..fixture_task().due.unwrap()
        }),
        ..fixture_task()
    };

    assert_eq!(task.datetime(&config), None);
}

#[test]
fn has_no_date_works() {
    let config = test_context();
    let task = Task {
        due: None,
        ..fixture_task()
    };

    assert!(task.has_no_date());

    let task_today = Task {
        due: Some(DateInfo {
            date: today_string(&config),
            ..fixture_task().due.unwrap()
        }),
        ..fixture_task()
    };
    assert!(!task_today.has_no_date());
}

#[test]
fn has_time_works() {
    let config = test_context();
    let task = Task {
        due: None,
        ..fixture_task()
    };

    assert!(!task.has_time(&config));

    let task_with_date = Task {
        due: Some(DateInfo {
            date: today_string(&config),
            is_recurring: false,
            timezone: None,
        }),
        ..task.clone()
    };
    assert!(!task_with_date.has_time(&config));

    let task_with_datetime = Task {
        due: Some(DateInfo {
            date: String::from("2021-09-06T16:00:00"),
            is_recurring: false,
            timezone: None,
        }),
        ..task
    };
    assert!(task_with_datetime.has_time(&config));
}

#[test]
fn is_today_works() {
    let config = test_context();
    let task = Task {
        due: None,
        ..fixture_task()
    };

    assert!(!task.is_today(&config));

    let task_today = Task {
        due: Some(DateInfo {
            date: today_string(&config),
            is_recurring: false,
            timezone: None,
        }),
        ..fixture_task()
    };
    assert!(task_today.is_today(&config));

    let task_in_past = Task {
        due: Some(DateInfo {
            date: String::from("2021-09-06T16:00:00"),
            is_recurring: false,
            timezone: None,
        }),
        ..fixture_task()
    };
    assert!(!task_in_past.is_today(&config));
}

#[test]
fn sort_by_value_works() {
    let config = test_context();
    let today = Task {
        due: Some(DateInfo {
            date: today_string(&config),
            is_recurring: false,
            timezone: None,
        }),
        ..fixture_task()
    };

    let today_recurring = Task {
        due: Some(DateInfo {
            date: today_string(&config),
            is_recurring: false,
            timezone: None,
        }),
        ..fixture_task()
    };

    let future = Task {
        due: Some(DateInfo {
            date: String::from("2035-12-12"),
            is_recurring: false,
            timezone: None,
        }),
        ..fixture_task()
    };

    let input = vec![future.clone(), today_recurring.clone(), today.clone()];
    let result = vec![today, today_recurring, future];

    assert_eq!(sort_by_value(input, &config), result);
}

#[test]
fn sort_by_datetime_works() {
    let config = test_context();
    let no_date = Task {
        id: String::from("222"),
        content: String::from("Get gifts for the twins"),
        checked: None,
        description: String::from(""),
        due: None,
        priority: Priority::Medium,
        is_deleted: None,
        is_completed: None,
        completed_at: None,
    };

    let date_not_datetime = Task {
        due: Some(DateInfo {
            date: today_string(&config),
            is_recurring: false,
            timezone: None,
        }),
        ..no_date.clone()
    };

    let present = Task {
        due: Some(DateInfo {
            date: String::from("2020-09-06T16:00:00"),
            is_recurring: false,
            timezone: None,
        }),
        ..no_date.clone()
    };

    let future = Task {
        due: Some(DateInfo {
            date: String::from("2035-09-06T16:00:00"),
            is_recurring: false,
            timezone: None,
        }),
        ..no_date.clone()
    };

    let past = Task {
        due: Some(DateInfo {
            date: String::from("2015-09-06T16:00:00"),
            is_recurring: false,
            timezone: None,
        }),
        ..no_date.clone()
    };

    let input = vec![
        future.clone(),
        past.clone(),
        present.clone(),
        no_date.clone(),
        date_not_datetime.clone(),
    ];
    let result = vec![no_date, date_not_datetime, past, present, future];

    assert_eq!(sort_by_datetime(input, &config), result);
}

#[test]
fn is_overdue_works() {
    let config = test_context();
    let task = Task {
        id: String::from("222"),
        content: String::from("Get gifts for the twins"),
        checked: None,
        description: String::from(""),
        due: None,
        priority: Priority::Medium,
        is_deleted: None,
        is_completed: None,
        completed_at: None,
    };

    assert!(!task.is_overdue(&config));

    let task_today = Task {
        due: Some(DateInfo {
            date: today_string(&config),
            is_recurring: false,
            timezone: None,
        }),
        ..task.clone()
    };
    assert!(!task_today.is_overdue(&config));

    let task_future = Task {
        due: Some(DateInfo {
            date: String::from("2035-12-12"),
            is_recurring: false,
            timezone: None,
        }),
        ..task.clone()
    };
    assert!(!task_future.is_overdue(&config));

    let task_today = Task {
        due: Some(DateInfo {
            date: String::from("2020-12-20"),
            is_recurring: false,
            timezone: None,
        }),
        ..task
    };
    assert!(task_today.is_overdue(&config));
}

#[test]
fn test_to_integer() {
    assert_eq!(Priority::NotSet.to_integer(), 4);
    assert_eq!(Priority::Low.to_integer(), 3);
    assert_eq!(Priority::Medium.to_integer(), 2);
    assert_eq!(Priority::High.to_integer(), 1);
}
