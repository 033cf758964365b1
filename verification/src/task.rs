//! Tasks on the timeline, and what goes to and comes from the assistant that
//! suggests a start time.

use vstd::prelude::*;
use crate::calendar::Instant;
use crate::materials::Materials;

verus! {

/// A piece of work on the timeline.
pub struct Task {
    /// The identifier: no two tasks share one.
    pub id: String,
    /// Who does the work.
    pub user_id: String,
    /// The operation that is carried out.
    pub operation_id: String,
    /// How long the work is expected to take, in minutes.
    pub expected_duration_minutes: i64,
    /// When the work is to start.
    pub start_time: Instant,
    /// When the work did start, once that is known.
    pub actual_start_time: Option<Instant>,
    /// How long the work did take, in minutes, once that is known.
    pub actual_duration_minutes: Option<i64>,
    /// The materials that the work needs, each with its quantity text.
    pub materials: Materials,
}

/// A task as a value.
pub struct TaskView {
    pub id: Seq<char>,
    pub user_id: Seq<char>,
    pub operation_id: Seq<char>,
    pub expected_duration_minutes: i64,
    pub start_time: Instant,
    pub actual_start_time: Option<Instant>,
    pub actual_duration_minutes: Option<i64>,
    pub materials: Map<Seq<char>, Seq<char>>,
}

/// A text that no task made before bears: a random identifier.
///
/// Calls `uuid::Uuid::new_v4` and writes the identifier out with its
/// `Display`, which gives the hyphenated form of 36 characters. The
/// identifier is random, so only its length is claimed.
#[verifier::external_body]
pub(crate) fn fresh_id() -> (id: String)
    ensures
        id@.len() == 36,
{
    uuid::Uuid::new_v4().to_string()
}

impl Task {
    /// The task as a value.
    pub open spec fn view(&self) -> TaskView {
        TaskView {
            id: self.id@,
            user_id: self.user_id@,
            operation_id: self.operation_id@,
            expected_duration_minutes: self.expected_duration_minutes,
            start_time: self.start_time,
            actual_start_time: self.actual_start_time,
            actual_duration_minutes: self.actual_duration_minutes,
            materials: self.materials@,
        }
    }

    /// A planned task under the identifier `id`: nothing is known yet of how
    /// the work went.
    pub fn with_id(
        id: String,
        user_id: String,
        op_id: String,
        start: Instant,
        duration: i64,
        materials: Materials,
    ) -> (task: Task)
        ensures
            task@ == (TaskView {
                id: id@,
                user_id: user_id@,
                operation_id: op_id@,
                expected_duration_minutes: duration,
                start_time: start,
                actual_start_time: None,
                actual_duration_minutes: None,
                materials: materials@,
            }),
            task.materials.pairs() == materials.pairs(),
    {
        Task {
            id,
            user_id,
            operation_id: op_id,
            expected_duration_minutes: duration,
            start_time: start,
            actual_start_time: None,
            actual_duration_minutes: None,
            materials,
        }
    }

    /// A planned task under a fresh random identifier: nothing is known yet
    /// of how the work went.
    pub fn new(user_id: String, op_id: String, start: Instant, duration: i64, materials: Materials)
        -> (task: Task)
        ensures
            task@ == (TaskView {
                id: task.id@,
                user_id: user_id@,
                operation_id: op_id@,
                expected_duration_minutes: duration,
                start_time: start,
                actual_start_time: None,
                actual_duration_minutes: None,
                materials: materials@,
            }),
            task.id@.len() == 36,
            task.materials.pairs() == materials.pairs(),
    {
        Task::with_id(fresh_id(), user_id, op_id, start, duration, materials)
    }
}

impl Clone for Task {
    fn clone(&self) -> (task: Self)
        ensures
            task@ == self@,
            task.materials.pairs() == self.materials.pairs(),
    {
        Task {
            id: self.id.clone(),
            user_id: self.user_id.clone(),
            operation_id: self.operation_id.clone(),
            expected_duration_minutes: self.expected_duration_minutes,
            start_time: self.start_time,
            actual_start_time: self.actual_start_time,
            actual_duration_minutes: self.actual_duration_minutes,
            materials: self.materials.clone(),
        }
    }
}

/// The tasks of `v` as values.
pub open spec fn tasks_of(v: Seq<Task>) -> Seq<TaskView> {
    Seq::new(v.len(), |i: int| v[i]@)
}

/// What the assistant is asked: the tasks that stand on the timeline, and
/// what the new operation is, in the user's words.
pub struct ScheduleRequest {
    pub current_tasks: Vec<Task>,
    pub new_operation_description: String,
}

/// What the assistant answers: a start time, and why.
pub struct ScheduleSuggestion {
    pub suggested_start_time: Instant,
    pub reason: String,
}

} // verus!
