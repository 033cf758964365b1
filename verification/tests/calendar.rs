use production_schedule::calendar::{local_start_of, Instant};
use production_schedule::form::FormState;
use production_schedule::form::local_starts;
use production_schedule::materials::Materials;
use production_schedule::task::Task;

fn shown(seconds: i64, nanos: u32) -> bool {
    local_start_of(Instant { seconds, nanos }).is_some()
}

#[test]
fn the_clock_shows_every_instant_within_its_range() {
    assert!(shown(0, 0));
    assert!(shown(1_709_640_000, 999_999_999));
    assert!(shown(-1_709_640_000, 1));
    assert!(shown(8_000_000_000_000, 0));
    assert!(shown(-8_000_000_000_000, 0));
    assert!(!shown(8_000_000_000_001, 0));
    assert!(!shown(-8_000_000_000_001, 0));
    assert!(!shown(i64::MAX, 0));
    assert!(!shown(i64::MIN, 0));
}

#[test]
fn leap_nanoseconds_only_in_the_last_second_of_a_minute() {
    assert!(shown(59, 1_000_000_000));
    assert!(shown(59, 1_999_999_999));
    assert!(shown(-1, 1_500_000_000));
    assert!(shown(1_709_640_059, 1_000_000_000));
    assert!(!shown(58, 1_000_000_000));
    assert!(!shown(0, 1_000_000_000));
    assert!(!shown(-2, 1_000_000_000));
    assert!(!shown(59, 2_000_000_000));
    assert!(!shown(0, u32::MAX));
}

#[test]
fn what_the_clock_shows_is_written_for_the_form() {
    let local = local_start_of(Instant { seconds: 1_709_640_000, nanos: 0 }).expect("within range");
    assert_eq!(local.date_text, format!("{:04}-{:02}-{:02}", local.date.year, local.date.month, local.date.day));
    assert_eq!(local.hour_text.len(), 2);
    assert_eq!(local.minute_text.len(), 2);
    assert!(local.hour_text.parse::<u32>().expect("an hour") < 24);
    assert!(local.minute_text.parse::<u32>().expect("a minute") < 60);
}

#[test]
fn planned_start_is_the_start_of_a_minute_on_the_clock() {
    let mut form = FormState::new("2024-03-05".to_string());
    let nine = form.planned_start().expect("nine o'clock exists");
    assert_eq!(nine.nanos, 0);
    form.start_hour = "23".to_string();
    form.start_minute = "59".to_string();
    let late = form.planned_start().expect("a minute to midnight exists");
    assert_eq!(late.nanos, 0);
    assert_eq!(late.seconds - nine.seconds, 14 * 3600 + 59 * 60);
    let back = local_start_of(late).expect("within range");
    assert_eq!(back.date_text, "2024-03-05");
    assert_eq!(back.hour_text, "23");
    assert_eq!(back.minute_text, "59");
    form.start_hour = "24".to_string();
    assert!(form.planned_start().is_none());
    form.start_hour = "23".to_string();
    form.start_minute = "60".to_string();
    assert!(form.planned_start().is_none());
    form.start_minute = "4294967295".to_string();
    assert!(form.planned_start().is_none());
    form.start_hour = "-1".to_string();
    form.start_minute = "".to_string();
    let fallback = form.planned_start().expect("nine o'clock exists");
    assert_eq!(fallback, nine);
    form.date = "no day".to_string();
    assert_eq!(form.planned_start().expect("nine o'clock today exists").nanos, 0);
}

#[test]
fn the_clock_is_read_for_every_task_that_it_shows() {
    let at = |seconds: i64, nanos: u32| {
        Task::with_id("t".to_string(), "ann".to_string(), "saw".to_string(), Instant { seconds, nanos }, 60, Materials::new())
    };
    let tasks = vec![at(1_709_640_000, 0), at(58, 1_000_000_000), at(59, 1_000_000_000), at(i64::MAX, 0), at(0, 0)];
    let locals = local_starts(&tasks);
    let read: Vec<bool> = locals.iter().map(|l| l.is_some()).collect();
    assert_eq!(read, vec![true, false, true, false, true]);
    assert_eq!(local_starts(&Vec::new()).len(), 0);
}

#[test]
fn selecting_a_task_reads_the_clock() {
    let shown = Task::with_id("t1".to_string(), "ann".to_string(), "saw".to_string(), Instant { seconds: 1_709_640_000, nanos: 0 }, 60, Materials::new());
    let unseen = Task::with_id("t2".to_string(), "bob".to_string(), "sand".to_string(), Instant { seconds: i64::MAX, nanos: 0 }, 60, Materials::new());
    let tasks = vec![shown, unseen];
    let local = local_start_of(Instant { seconds: 1_709_640_000, nanos: 0 }).expect("within range");
    let mut form = FormState::new("1999-01-01".to_string());
    form.start_hour = "xx".to_string();
    form.start_minute = "yy".to_string();
    assert!(form.select_task(&tasks, "t1"));
    assert_eq!(form.date, local.date_text);
    assert_eq!(form.start_hour, local.hour_text);
    assert_eq!(form.start_minute, local.minute_text);
    form.date = "1999-01-01".to_string();
    form.start_hour = "xx".to_string();
    assert!(form.select_task(&tasks, "t2"));
    assert_eq!(form.selected_task_id.as_deref(), Some("t2"));
    assert_eq!(form.user_id, "bob");
    assert_eq!(form.date, "1999-01-01");
    assert_eq!(form.start_hour, "xx");
}
