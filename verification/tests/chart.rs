use production_schedule::calendar::{Date, Instant};
use production_schedule::chart::{chart_for_day, chart_rows};
use production_schedule::form::FormState;
use production_schedule::materials::Materials;
use production_schedule::task::Task;

fn task(id: &str, seconds: i64, nanos: u32, minutes: i64) -> Task {
    Task::with_id(
        id.to_string(),
        "ann".to_string(),
        "saw".to_string(),
        Instant { seconds, nanos },
        minutes,
        Materials::new(),
    )
}

#[test]
fn rows_span_from_start_to_end_in_milliseconds() {
    let tasks = vec![task("t1", 1_709_640_000, 0, 90), task("t2", 10, 999_999_999, -1), task("t3", -1, 500_000_000, 0)];
    let rows = chart_rows(&tasks, &vec![0, 1, 2]).expect("every task has a span");
    assert_eq!(rows.len(), 3);
    assert_eq!(rows[0].id, "t1");
    assert_eq!(rows[0].name, "saw");
    assert_eq!(rows[0].resource, "ann");
    assert_eq!(rows[0].start, 1_709_640_000_000);
    assert_eq!(rows[0].end, 1_709_640_000_000 + 90 * 60_000);
    assert_eq!((rows[1].start, rows[1].end), (10_999, -49_001));
    assert_eq!((rows[2].start, rows[2].end), (-500, -500));
    let rows = chart_rows(&tasks, &vec![2, 0]).expect("every task has a span");
    assert_eq!(rows[0].id, "t3");
    assert_eq!(rows[1].id, "t1");
    assert_eq!(chart_rows(&tasks, &vec![]).expect("nothing to show").len(), 0);
}

#[test]
fn no_rows_without_a_span() {
    let tasks = vec![task("t1", 1_709_640_000, 0, i64::MAX), task("t2", 0, 0, 1)];
    assert!(chart_rows(&tasks, &vec![0, 1]).is_none());
    assert!(chart_rows(&tasks, &vec![1]).is_some());
    let tasks = vec![task("t1", i64::MAX, 0, 1)];
    assert!(chart_rows(&tasks, &vec![0]).is_none());
    let tasks = vec![task("t1", 0, 2_000_000_000, 1)];
    assert!(chart_rows(&tasks, &vec![0]).is_none());
}

#[test]
fn chart_of_a_day() {
    let mut form = FormState::new("2024-03-05".to_string());
    form.user_id = "ann".to_string();
    form.operation_id = "saw".to_string();
    form.start_hour = "12".to_string();
    let noon = form.new_task().expect("noon exists");
    form.date = "2024-03-07".to_string();
    let later = form.new_task().expect("noon exists");
    let tasks = vec![noon.clone(), later.clone()];
    let rows = chart_for_day(&tasks, "2024-03-05").expect("every task has a span");
    assert_eq!(rows.len(), 1);
    assert_eq!(rows[0].id, noon.id);
    assert_eq!(rows[0].end - rows[0].start, 3_600_000);
    assert_eq!(rows[0].start, noon.start_time.seconds * 1000);
    let rows = chart_for_day(&tasks, "2024-03-06").expect("every task has a span");
    assert_eq!(rows.len(), 0);
    let rows = chart_for_day(&tasks, "").expect("every task has a span");
    assert_eq!(rows.len(), 2);
    assert_eq!(rows[1].id, later.id);
}

#[test]
fn days_are_read_as_year_month_day() {
    let mut form = FormState::new("2024-03-05".to_string());
    assert_eq!(form.start_day(), Some(Date { year: 2024, month: 3, day: 5 }));
    form.date = "2024-02-29".to_string();
    assert_eq!(form.start_day(), Some(Date { year: 2024, month: 2, day: 29 }));
    form.date = "2023-02-29".to_string();
    assert_eq!(form.start_day(), None);
    form.date = "05.03.2024".to_string();
    assert_eq!(form.start_day(), None);
    form.date = "".to_string();
    assert_eq!(form.start_day(), None);
}
