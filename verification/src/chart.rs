//! The rows of the chart: for each task that is shown, who does what from
//! when to when.

use vstd::prelude::*;
use chrono::{DateTime, TimeDelta, Utc};
use crate::calendar::{date_of_text, locals_of, parse_date, Date, Instant, LocalView};
use crate::form::{has_place, local_starts, on_day, readings_of, shown_on_chart};
use crate::task::{tasks_of, Task, TaskView};

verus! {

/// A row of the chart. `start` and `end` are in milliseconds since
/// 1970-01-01 00:00:00 UTC.
pub struct ChartRow {
    pub id: String,
    /// The operation.
    pub name: String,
    /// Who carries it out.
    pub resource: String,
    pub start: i64,
    pub end: i64,
}

/// A `ChartRow` with its texts as sequences of characters.
pub struct RowView {
    pub id: Seq<char>,
    pub name: Seq<char>,
    pub resource: Seq<char>,
    pub start: i64,
    pub end: i64,
}

impl ChartRow {
    /// The row with its texts as sequences of characters.
    pub open spec fn view(&self) -> RowView {
        RowView {
            id: self.id@,
            name: self.name@,
            resource: self.resource@,
            start: self.start,
            end: self.end,
        }
    }
}

/// The rows of `v` with their texts as sequences of characters.
pub open spec fn rows_of(v: Seq<ChartRow>) -> Seq<RowView> {
    Seq::new(v.len(), |i: int| v[i]@)
}

/// The milliseconds at which a span begins and ends that starts at the
/// instant of `seconds` and `nanos` and lasts `minutes`, as `chrono` counts
/// them; `None` where `chrono` has no such instant or the end lies beyond
/// its calendar.
pub uninterp spec fn span_of(seconds: i64, nanos: u32, minutes: i64) -> Option<(i64, i64)>;

/// The milliseconds at which a span begins and ends.
///
/// Calls `chrono::DateTime::from_timestamp`, `TimeDelta::try_minutes`,
/// `DateTime::checked_add_signed` and `DateTime::timestamp_millis`. The
/// result is a function of the three numbers alone, and that is all that is
/// claimed: it is what `span_of` names.
#[verifier::external_body]
pub(crate) fn chart_span(at: Instant, minutes: i64) -> (r: Option<(i64, i64)>)
    ensures
        r == span_of(at.seconds, at.nanos, minutes),
{
    let start = DateTime::<Utc>::from_timestamp(at.seconds, at.nanos)?;
    let end = start.checked_add_signed(TimeDelta::try_minutes(minutes)?)?;
    Some((start.timestamp_millis(), end.timestamp_millis()))
}

/// The row of `task` with the span `span`.
pub open spec fn row_of(task: TaskView, span: (i64, i64)) -> RowView {
    RowView {
        id: task.id,
        name: task.operation_id,
        resource: task.user_id,
        start: span.0,
        end: span.1,
    }
}

/// The span of `task`: from its start for its expected duration.
pub open spec fn task_span(task: TaskView) -> Option<(i64, i64)> {
    span_of(task.start_time.seconds, task.start_time.nanos, task.expected_duration_minutes)
}

/// The row of `task` with the span `span`.
pub fn chart_row(task: &Task, span: (i64, i64)) -> (row: ChartRow)
    ensures
        row@ == row_of(task@, span),
{
    ChartRow {
        id: task.id.clone(),
        name: task.operation_id.clone(),
        resource: task.user_id.clone(),
        start: span.0,
        end: span.1,
    }
}

/// The rows of the tasks at the places `shown`, in that order. There are no
/// rows where one of those tasks has no span.
pub fn chart_rows(tasks: &Vec<Task>, shown: &Vec<usize>) -> (r: Option<Vec<ChartRow>>)
    requires
        forall|a: int| 0 <= a < shown@.len() ==> (#[trigger] shown@[a]) < tasks@.len(),
    ensures
        r is Some <==> forall|a: int|
            0 <= a < shown@.len() ==> task_span(#[trigger] tasks_of(tasks@)[shown@[a] as int])
                is Some,
        r matches Some(rows) ==> rows@.len() == shown@.len() && forall|a: int|
            0 <= a < shown@.len() ==> (#[trigger] rows_of(rows@)[a]) == row_of(
                tasks_of(tasks@)[shown@[a] as int],
                task_span(tasks_of(tasks@)[shown@[a] as int]).unwrap(),
            ),
{
    let mut rows: Vec<ChartRow> = Vec::new();
    let mut a: usize = 0;
    while a < shown.len()
        invariant
            0 <= a <= shown@.len(),
            rows@.len() == a,
            forall|b: int| 0 <= b < shown@.len() ==> (#[trigger] shown@[b]) < tasks@.len(),
            forall|b: int|
                0 <= b < a ==> task_span(#[trigger] tasks_of(tasks@)[shown@[b] as int]) is Some,
            forall|b: int|
                0 <= b < a ==> (#[trigger] rows_of(rows@)[b]) == row_of(
                    tasks_of(tasks@)[shown@[b] as int],
                    task_span(tasks_of(tasks@)[shown@[b] as int]).unwrap(),
                ),
        decreases shown@.len() - a,
    {
        let task = &tasks[shown[a]];
        assert(tasks_of(tasks@)[shown@[a as int] as int] == task@);
        match chart_span(task.start_time, task.expected_duration_minutes) {
            Some(span) => {
                let ghost had = rows_of(rows@);
                rows.push(chart_row(task, span));
                assert forall|b: int| 0 <= b < a + 1 implies (#[trigger] rows_of(rows@)[b])
                    == row_of(
                    tasks_of(tasks@)[shown@[b] as int],
                    task_span(tasks_of(tasks@)[shown@[b] as int]).unwrap(),
                ) by {
                    if b < a {
                        assert(rows_of(rows@)[b] == had[b]);
                    }
                }
            },
            None => {
                return None;
            },
        }
        a += 1;
    }
    Some(rows)
}

/// Whether `rows` are the rows of the tasks at the places `shown`, which
/// ascend.
pub open spec fn rows_show(rows: Seq<RowView>, tasks: Seq<TaskView>, shown: Seq<usize>) -> bool {
    &&& rows.len() == shown.len()
    &&& forall|a: int, b: int| 0 <= a < b < shown.len() ==> shown[a] < shown[b]
    &&& forall|a: int|
        0 <= a < shown.len() ==> (#[trigger] shown[a]) < tasks.len() && task_span(
            tasks[shown[a] as int],
        ) is Some && rows[a] == row_of(
            tasks[shown[a] as int],
            task_span(tasks[shown[a] as int]).unwrap(),
        )
}

/// Whether `rows` are what the chart shows of `tasks` for `day`, where
/// `shown` are the places of the tasks shown and `locals` says how the local
/// wall clock shows the start of each task whose start it shows.
pub open spec fn chart_shows(
    rows: Seq<RowView>,
    tasks: Seq<TaskView>,
    shown: Seq<usize>,
    locals: Seq<Option<LocalView>>,
    day: Option<Date>,
) -> bool {
    &&& readings_of(locals, tasks)
    &&& rows_show(rows, tasks, shown)
    &&& forall|i: int|
        has_place(shown, i) <==> (0 <= i < tasks.len() && (day is None || on_day(locals[i], day)))
}

/// The rows of the chart for the day that `date_text` names: those of the
/// tasks that start on that day of the local wall clock, in the order of the
/// list. Where `date_text` names no day the chart shows every task. There
/// are no rows where one of the tasks to show has no span.
pub fn chart_for_day(tasks: &Vec<Task>, date_text: &str) -> (r: Option<Vec<ChartRow>>)
    ensures
        r matches Some(rows) ==> exists|shown: Seq<usize>, locals: Seq<Option<LocalView>>| #[trigger]
            chart_shows(rows_of(rows@), tasks_of(tasks@), shown, locals, date_of_text(date_text@)),
        r is None ==> exists|i: int|
            0 <= i < tasks@.len() && task_span(#[trigger] tasks_of(tasks@)[i]) is None,
{
    let day = parse_date(date_text);
    let locals = local_starts(tasks);
    let shown = shown_on_chart(&locals, day);
    proof {
        assert forall|a: int| 0 <= a < shown@.len() implies (#[trigger] shown@[a])
            < tasks@.len() by {
            assert(has_place(shown@, shown@[a] as int));
        }
    }
    let r = chart_rows(tasks, &shown);
    proof {
        if r is Some {
            assert(chart_shows(
                rows_of(r.unwrap()@),
                tasks_of(tasks@),
                shown@,
                locals_of(locals@),
                date_of_text(date_text@),
            ));
        } else {
            let a = choose|a: int|
                0 <= a < shown@.len() && !(task_span(
                    #[trigger] tasks_of(tasks@)[shown@[a] as int],
                ) is Some);
            assert(task_span(tasks_of(tasks@)[shown@[a] as int]) is None);
        }
    }
    r
}

} // verus!
