//! The task form: what its fields hold, which task is selected, which preset
//! update waits to be confirmed, and how each event changes them. Nothing
//! here reads or writes anything but its arguments: fetching, sending and
//! storing are the caller's.

use vstd::prelude::*;
use crate::calendar::{clock_shows, date_of_text, earlier, instant_of_local, local_of, local_start_of, locals_of, parse_date, today, Date, Instant, LocalStart, LocalView};
use crate::diff::{diff_presets, reports, DiffReport};
use crate::inventory::{all_present, Inventory};
use crate::materials::Materials;
use crate::preset::{PresetStore, PresetView, TaskPreset};
use crate::task::{tasks_of, Task, TaskView};
use crate::text::{i64_of_text, i64_text, int_text, is_blank, parse_i64, parse_u32, str_is_blank, trunc_div, trunc_rem, u32_of_text};

verus! {

/// What the form holds.
pub struct FormState {
    pub user_id: String,
    pub operation_id: String,
    /// The day, as the date field writes it.
    pub date: String,
    pub start_hour: String,
    pub start_minute: String,
    pub duration_hours: String,
    pub duration_minutes: String,
    pub materials: Materials,
    /// The task that is being edited, if one is.
    pub selected_task_id: Option<String>,
    /// The preset update that waits to be confirmed, if one does: the
    /// operation's name and the candidate. There is never more than one.
    pub pending_preset_update: Option<(String, TaskPreset)>,
}

/// The form as a value.
pub struct FormView {
    pub user_id: Seq<char>,
    pub operation_id: Seq<char>,
    pub date: Seq<char>,
    pub start_hour: Seq<char>,
    pub start_minute: Seq<char>,
    pub duration_hours: Seq<char>,
    pub duration_minutes: Seq<char>,
    pub materials: Map<Seq<char>, Seq<char>>,
    pub selected_task_id: Option<Seq<char>>,
    pub pending_preset_update: Option<(Seq<char>, PresetView)>,
}

/// Whether the form adds a task or edits one.
#[derive(Clone, Copy, Debug, PartialEq, Eq, Structural)]
pub enum Mode {
    /// No task is selected: the form adds one.
    Creating,
    /// A task is selected: the form updates or deletes it.
    Editing,
}

/// The hours field for a duration of `minutes`.
pub open spec fn hours_text(minutes: i64) -> Seq<char> {
    int_text(trunc_div(minutes as int, 60))
}

/// The minutes field for a duration of `minutes`.
pub open spec fn minutes_text(minutes: i64) -> Seq<char> {
    int_text(trunc_rem(minutes as int, 60))
}

/// The duration that the two duration fields give, in minutes: sixty times
/// the hours and the minutes, where a field that is no integer counts as one
/// hour or as no minutes. `None` where sixty times the hours, or the sum,
/// does not fit in an `i64`.
pub open spec fn duration_of(hours: Seq<char>, minutes: Seq<char>) -> Option<i64> {
    let h: int = match i64_of_text(hours) {
        Some(h) => h as int,
        None => 1,
    };
    let m: int = match i64_of_text(minutes) {
        Some(m) => m as int,
        None => 0,
    };
    if i64::MIN <= h * 60 <= i64::MAX && i64::MIN <= h * 60 + m <= i64::MAX {
        Some((h * 60 + m) as i64)
    } else {
        None
    }
}

/// The preset update that a form with these fields asks for: none while the
/// operation's name is blank or the duration does not fit.
pub open spec fn proposal_of(
    operation_id: Seq<char>,
    duration_hours: Seq<char>,
    duration_minutes: Seq<char>,
    materials: Map<Seq<char>, Seq<char>>,
) -> Option<(Seq<char>, PresetView)> {
    if is_blank(operation_id) {
        None
    } else {
        match duration_of(duration_hours, duration_minutes) {
            Some(d) => Some((operation_id, PresetView { duration_minutes: d, materials })),
            None => None,
        }
    }
}

/// The form after a preset update was asked for: the update that its fields
/// ask for waits, whatever waited before; without such an update the form
/// is as it was.
pub open spec fn proposed(form: FormView) -> FormView {
    match proposal_of(
        form.operation_id,
        form.duration_hours,
        form.duration_minutes,
        form.materials,
    ) {
        Some(proposal) => FormView { pending_preset_update: Some(proposal), ..form },
        None => form,
    }
}

/// The form after the waiting preset update was confirmed or cancelled:
/// nothing waits.
pub open spec fn settled(form: FormView) -> FormView {
    FormView { pending_preset_update: None, ..form }
}

/// A second request for a preset update replaces the first. Let `first` be
/// any form, and `second` what became of it after a request and any edits of
/// its fields. Where the fields of `second` ask for an update, that update
/// alone waits after the second request: it is made of the fields of
/// `second` and of nothing that waited before, and a form with the same
/// fields and nothing waiting would end with the same update waiting.
pub proof fn lemma_second_proposal_replaces(first: FormView, second: FormView)
    requires
        second.pending_preset_update == proposed(first).pending_preset_update,
        proposal_of(
            second.operation_id,
            second.duration_hours,
            second.duration_minutes,
            second.materials,
        ) is Some,
    ensures
        proposed(second).pending_preset_update == proposal_of(
            second.operation_id,
            second.duration_hours,
            second.duration_minutes,
            second.materials,
        ),
        proposed(second).pending_preset_update == proposed(settled(second)).pending_preset_update,
        proposed(second) == proposed(settled(second)),
{
}

/// Once the waiting update is confirmed or cancelled nothing waits, and
/// where nothing waits there is nothing to confirm.
pub proof fn lemma_settled_is_final(form: FormView)
    ensures
        settled(form).pending_preset_update is None,
        settled(settled(form)) == settled(form),
{
}

/// Whether a task with these fields may be submitted: the user and the
/// operation are named, and every material is in stock by name.
pub open spec fn submittable(form: FormView, stock: Seq<crate::inventory::ItemView>) -> bool {
    &&& !is_blank(form.user_id)
    &&& !is_blank(form.operation_id)
    &&& all_present(stock, form.materials.dom())
}

/// The pending update of `p` as a value.
pub open spec fn pending_of(p: Option<(String, TaskPreset)>) -> Option<(Seq<char>, PresetView)> {
    match p {
        Some((name, preset)) => Some((name@, preset@)),
        None => None,
    }
}

/// The text of `t`, if there is one, as a sequence of characters.
pub open spec fn text_of(t: Option<String>) -> Option<Seq<char>> {
    match t {
        Some(t) => Some(t@),
        None => None,
    }
}

impl FormState {
    /// The form as a value.
    pub open spec fn view(&self) -> FormView {
        FormView {
            user_id: self.user_id@,
            operation_id: self.operation_id@,
            date: self.date@,
            start_hour: self.start_hour@,
            start_minute: self.start_minute@,
            duration_hours: self.duration_hours@,
            duration_minutes: self.duration_minutes@,
            materials: self.materials@,
            selected_task_id: text_of(self.selected_task_id),
            pending_preset_update: pending_of(self.pending_preset_update),
        }
    }

    /// The form as it opens on the day `date`: nobody and nothing named, a
    /// start at nine, a duration of one hour, no materials, no task selected
    /// and no preset update pending.
    pub fn new(date: String) -> (form: FormState)
        ensures
            form@ == (FormView {
                user_id: Seq::empty(),
                operation_id: Seq::empty(),
                date: date@,
                start_hour: "09"@,
                start_minute: "00"@,
                duration_hours: "1"@,
                duration_minutes: "00"@,
                materials: Map::empty(),
                selected_task_id: None,
                pending_preset_update: None,
            }),
    {
        FormState {
            user_id: String::new(),
            operation_id: String::new(),
            date,
            start_hour: String::from_str("09"),
            start_minute: String::from_str("00"),
            duration_hours: String::from_str("1"),
            duration_minutes: String::from_str("00"),
            materials: Materials::new(),
            selected_task_id: None,
            pending_preset_update: None,
        }
    }

    /// Whether the form adds a task or edits one: it edits exactly while a
    /// task is selected.
    pub fn mode(&self) -> (mode: Mode)
        ensures
            mode == (if self@.selected_task_id is Some {
                Mode::Editing
            } else {
                Mode::Creating
            }),
    {
        if self.selected_task_id.is_some() {
            Mode::Editing
        } else {
            Mode::Creating
        }
    }

    /// Whether the task of the form may be added: the user and the operation
    /// are named and every material is in stock by name. Quantity texts that
    /// do not read, and units that differ from the stock's, do not stand in
    /// the way.
    pub fn can_add(&self, inventory: &Inventory) -> (b: bool)
        ensures
            b == submittable(self@, inventory@),
    {
        !str_is_blank(self.user_id.as_str()) && !str_is_blank(self.operation_id.as_str())
            && inventory.all_present(&self.materials)
    }

    /// Whether the selected task may be updated: one is selected, and the
    /// task of the form may be submitted.
    pub fn can_update(&self, inventory: &Inventory) -> (b: bool)
        ensures
            b == (self@.selected_task_id is Some && submittable(self@, inventory@)),
    {
        self.selected_task_id.is_some() && self.can_add(inventory)
    }

    /// Whether a preset update may be asked for: the operation is named.
    pub fn can_update_preset(&self) -> (b: bool)
        ensures
            b == !is_blank(self@.operation_id),
    {
        !str_is_blank(self.operation_id.as_str())
    }

    /// The duration that the two duration fields give, in minutes.
    pub fn duration(&self) -> (r: Option<i64>)
        ensures
            r == duration_of(self@.duration_hours, self@.duration_minutes),
    {
        let h: i64 = match parse_i64(self.duration_hours.as_str()) {
            Some(h) => h,
            None => 1,
        };
        let m: i64 = match parse_i64(self.duration_minutes.as_str()) {
            Some(m) => m,
            None => 0,
        };
        match h.checked_mul(60) {
            Some(hm) => hm.checked_add(m),
            None => None,
        }
    }

    /// Adds a row to the materials: `New Material` with the quantity `0`. A
    /// row of that name that is there already gets the quantity `0`.
    pub fn add_material_row(&mut self)
        ensures
            final(self)@ == (FormView {
                materials: old(self)@.materials.insert("New Material"@, "0"@),
                ..old(self)@
            }),
    {
        let _ = self.materials.insert(String::from_str("New Material"), String::from_str("0"));
    }

    /// Gives the material `name` the quantity text `quantity`, adding the
    /// material where it is not there.
    pub fn set_material(&mut self, name: String, quantity: String)
        ensures
            final(self)@ == (FormView {
                materials: old(self)@.materials.insert(name@, quantity@),
                ..old(self)@
            }),
    {
        let _ = self.materials.insert(name, quantity);
    }

    /// Gives the material `name` the quantity made of `number`, a space and
    /// `unit`: what a row does whose unit is taken from the stock.
    pub fn set_material_amount(&mut self, name: String, number: &str, unit: &str)
        ensures
            final(self)@ == (FormView {
                materials: old(self)@.materials.insert(name@, number@ + " "@ + unit@),
                ..old(self)@
            }),
    {
        let mut quantity = String::from_str(number);
        quantity.append(" ");
        quantity.append(unit);
        let _ = self.materials.insert(name, quantity);
    }

    /// Renames the material `from` to `to`, keeping its quantity text. A
    /// material named `to` gives way to it. Without a material named `from`
    /// nothing changes.
    pub fn rename_material(&mut self, from: &str, to: String)
        ensures
            final(self)@ == (FormView {
                materials: if old(self)@.materials.contains_key(from@) {
                    old(self)@.materials.remove(from@).insert(to@, old(self)@.materials[from@])
                } else {
                    old(self)@.materials
                },
                ..old(self)@
            }),
    {
        match self.materials.remove(from) {
            Some(quantity) => {
                let _ = self.materials.insert(to, quantity);
            },
            None => {
                assert(self.materials@ =~= old(self)@.materials);
            },
        }
    }

    /// Takes the material `name` out.
    pub fn delete_material(&mut self, name: &str)
        ensures
            final(self)@ == (FormView {
                materials: old(self)@.materials.remove(name@),
                ..old(self)@
            }),
    {
        let _ = self.materials.remove(name);
    }

    /// Takes `value` as the operation's name. Where that operation has a
    /// preset, the duration fields and the materials are overwritten with the
    /// preset's: nothing of what they held is kept.
    pub fn enter_operation(&mut self, value: String, presets: &PresetStore)
        ensures
            final(self)@ == (if presets@.contains_key(value@) {
                FormView {
                    operation_id: value@,
                    duration_hours: hours_text(presets@[value@].duration_minutes),
                    duration_minutes: minutes_text(presets@[value@].duration_minutes),
                    materials: presets@[value@].materials,
                    ..old(self)@
                }
            } else {
                FormView { operation_id: value@, ..old(self)@ }
            }),
    {
        match presets.get(value.as_str()) {
            Some(preset) => {
                self.duration_hours = i64_text(preset.duration_minutes / 60);
                self.duration_minutes = i64_text(preset.duration_minutes % 60);
                self.materials = preset.materials.clone();
            },
            None => {},
        }
        self.operation_id = value;
    }

    /// Asks for the operation's preset to be replaced by what the form
    /// holds: the duration and the materials. The request waits to be
    /// confirmed or cancelled, and it takes the place of a request that was
    /// waiting: nothing of that one is kept. Nothing happens while the
    /// operation's name is blank or the duration does not fit.
    pub fn propose_preset_update(&mut self)
        ensures
            final(self)@ == proposed(old(self)@),
    {
        if str_is_blank(self.operation_id.as_str()) {
            return ;
        }
        match self.duration() {
            Some(duration_minutes) => {
                let candidate = TaskPreset { duration_minutes, materials: self.materials.clone() };
                self.pending_preset_update = Some((self.operation_id.clone(), candidate));
            },
            None => {},
        }
    }

    /// Carries the waiting preset update out: the candidate becomes the
    /// preset of its operation, and nothing waits any more. Says whether
    /// there was an update to carry out; without one nothing changes.
    pub fn confirm_preset_update(&mut self, presets: &mut PresetStore) -> (done: bool)
        ensures
            done == old(self)@.pending_preset_update is Some,
            final(self)@ == (FormView { pending_preset_update: None, ..old(self)@ }),
            final(presets).wf(),
            final(presets)@ == (match old(self)@.pending_preset_update {
                Some((name, candidate)) => old(presets)@.insert(name, candidate),
                None => old(presets)@,
            }),
    {
        let mut pending: Option<(String, TaskPreset)> = None;
        core::mem::swap(&mut self.pending_preset_update, &mut pending);
        match pending {
            Some((name, candidate)) => {
                presets.upsert(name, candidate);
                true
            },
            None => {
                let _ = presets.len();
                false
            },
        }
    }

    /// Drops the waiting preset update, if one waits. No preset changes.
    pub fn cancel_preset_update(&mut self)
        ensures
            final(self)@ == (FormView { pending_preset_update: None, ..old(self)@ }),
    {
        self.pending_preset_update = None;
    }

    /// What carrying the waiting preset update out would do, for the user to
    /// look at before confirming; `None` while no update waits.
    pub fn pending_report(&self, presets: &PresetStore) -> (r: Option<DiffReport>)
        ensures
            r is Some <==> self@.pending_preset_update is Some,
            r matches Some(report) ==> reports(
                report@,
                if presets@.contains_key(self@.pending_preset_update.unwrap().0) {
                    Some(presets@[self@.pending_preset_update.unwrap().0])
                } else {
                    None
                },
                self@.pending_preset_update.unwrap().1,
            ),
    {
        match &self.pending_preset_update {
            Some((name, candidate)) => Some(diff_presets(presets.get(name.as_str()), candidate)),
            None => None,
        }
    }

    /// Empties the form after the selected task was deleted: no task is
    /// selected, nobody and nothing is named, and there are no materials.
    pub fn clear_after_delete(&mut self)
        ensures
            final(self)@ == (FormView {
                selected_task_id: None,
                operation_id: Seq::empty(),
                user_id: Seq::empty(),
                materials: Map::empty(),
                ..old(self)@
            }),
    {
        self.selected_task_id = None;
        self.operation_id = String::new();
        self.user_id = String::new();
        self.materials = Materials::new();
    }

    /// Selects the first task that is of the form's operation and user, or
    /// no task where there is none.
    pub fn sync_selection(&mut self, tasks: &Vec<Task>)
        ensures
            final(self)@ == (FormView {
                selected_task_id: final(self)@.selected_task_id,
                ..old(self)@
            }),
            forall|i: int|
                first_of(tasks_of(tasks@), old(self)@.operation_id, old(self)@.user_id, i)
                    ==> final(self)@.selected_task_id == Some(tasks_of(tasks@)[i].id),
            (forall|i: int|
                0 <= i < tasks@.len() ==> !matches_form(
                    #[trigger] tasks_of(tasks@)[i],
                    old(self)@.operation_id,
                    old(self)@.user_id,
                )) ==> final(self)@.selected_task_id is None,
    {
        let mut i: usize = 0;
        while i < tasks.len()
            invariant
                0 <= i <= tasks@.len(),
                *self == *old(self),
                forall|j: int|
                    0 <= j < i ==> !matches_form(
                        #[trigger] tasks_of(tasks@)[j],
                        self@.operation_id,
                        self@.user_id,
                    ),
            decreases tasks@.len() - i,
        {
            let task = &tasks[i];
            assert(tasks_of(tasks@)[i as int] == task@);
            if task.operation_id.as_str().eq(self.operation_id.as_str())
                && task.user_id.as_str().eq(self.user_id.as_str()) {
                self.selected_task_id = Some(task.id.clone());
                return ;
            }
            i += 1;
        }
        self.selected_task_id = None;
    }
}

/// Whether `task` is of the operation `operation_id` and of the user
/// `user_id`.
pub open spec fn matches_form(task: TaskView, operation_id: Seq<char>, user_id: Seq<char>)
    -> bool {
    task.operation_id == operation_id && task.user_id == user_id
}

/// Whether `tasks[i]` is the first task of the operation and the user.
pub open spec fn first_of(
    tasks: Seq<TaskView>,
    operation_id: Seq<char>,
    user_id: Seq<char>,
    i: int,
) -> bool {
    &&& 0 <= i < tasks.len()
    &&& matches_form(tasks[i], operation_id, user_id)
    &&& forall|j: int| 0 <= j < i ==> !matches_form(#[trigger] tasks[j], operation_id, user_id)
}

/// The form after `task` was selected: it holds the task's fields, with the
/// start as the local wall clock shows it. Where the clock does not show it,
/// the date and the start fields stay as they are.
pub open spec fn task_shown(form: FormView, task: TaskView, local: Option<LocalView>) -> FormView {
    let held = FormView {
        selected_task_id: Some(task.id),
        operation_id: task.operation_id,
        user_id: task.user_id,
        duration_hours: hours_text(task.expected_duration_minutes),
        duration_minutes: minutes_text(task.expected_duration_minutes),
        materials: task.materials,
        ..form
    };
    match local {
        Some(l) => FormView {
            date: l.date_text,
            start_hour: l.hour_text,
            start_minute: l.minute_text,
            ..held
        },
        None => held,
    }
}

/// The form after the day was set to `text` and `task` was found to be the
/// first of that day: the date field holds `text`, the other fields hold the
/// task's.
pub open spec fn day_shown(form: FormView, text: Seq<char>, task: TaskView, local: LocalView)
    -> FormView {
    FormView {
        date: text,
        selected_task_id: Some(task.id),
        operation_id: task.operation_id,
        user_id: task.user_id,
        start_hour: local.hour_text,
        start_minute: local.minute_text,
        duration_hours: hours_text(task.expected_duration_minutes),
        duration_minutes: minutes_text(task.expected_duration_minutes),
        materials: task.materials,
        ..form
    }
}

/// The form after the day was set to `text` and no task was found on that
/// day: the date field holds `text`, and the other fields are as in a form
/// that has just opened. A preset update that waits goes on waiting.
pub open spec fn day_empty(form: FormView, text: Seq<char>) -> FormView {
    FormView {
        date: text,
        selected_task_id: None,
        operation_id: Seq::empty(),
        user_id: Seq::empty(),
        start_hour: "09"@,
        start_minute: "00"@,
        duration_hours: "1"@,
        duration_minutes: "00"@,
        materials: Map::empty(),
        ..form
    }
}

/// Whether a task that the local wall clock shows as `local` starts on `day`.
pub open spec fn on_day(local: Option<LocalView>, day: Option<Date>) -> bool {
    local is Some && day == Some(local.unwrap().date)
}

/// Whether `tasks[i]` is the task that starts first on `day`: it starts on
/// that day, no task of that day starts earlier, and of those that start at
/// the same instant it stands first in the list.
pub open spec fn earliest_on(
    tasks: Seq<TaskView>,
    locals: Seq<Option<LocalView>>,
    day: Option<Date>,
    i: int,
) -> bool {
    &&& 0 <= i < tasks.len()
    &&& on_day(locals[i], day)
    &&& forall|j: int|
        0 <= j < tasks.len() && on_day(#[trigger] locals[j], day) ==> {
            &&& !earlier(tasks[j].start_time, tasks[i].start_time)
            &&& j < i ==> earlier(tasks[i].start_time, tasks[j].start_time)
        }
}

/// At most one task starts first on a day.
pub proof fn lemma_earliest_is_unique(
    tasks: Seq<TaskView>,
    locals: Seq<Option<LocalView>>,
    day: Option<Date>,
    i: int,
    j: int,
)
    requires
        earliest_on(tasks, locals, day, i),
        earliest_on(tasks, locals, day, j),
    ensures
        i == j,
{
    assert(on_day(locals[i], day));
    assert(on_day(locals[j], day));
}

/// Where some task starts on a day, one of them starts first.
pub proof fn lemma_day_has_first(
    tasks: Seq<TaskView>,
    locals: Seq<Option<LocalView>>,
    day: Option<Date>,
)
    requires
        tasks.len() == locals.len(),
        exists|k: int| 0 <= k < tasks.len() && on_day(#[trigger] locals[k], day),
    ensures
        exists|i: int| #[trigger] earliest_on(tasks, locals, day, i),
{
    lemma_earliest_exists(tasks, locals, day, tasks.len() as int);
    assert(tasks.take(tasks.len() as int) =~= tasks);
    assert(locals.take(tasks.len() as int) =~= locals);
}

/// Among the first `n` tasks, where one starts on a day, one starts first.
proof fn lemma_earliest_exists(
    tasks: Seq<TaskView>,
    locals: Seq<Option<LocalView>>,
    day: Option<Date>,
    n: int,
)
    requires
        0 <= n <= tasks.len(),
        tasks.len() == locals.len(),
        exists|k: int| 0 <= k < n && on_day(#[trigger] locals[k], day),
    ensures
        exists|i: int| #[trigger] earliest_on(tasks.take(n), locals.take(n), day, i),
    decreases n,
{
    let ts = tasks.take(n);
    let ls = locals.take(n);
    let last = n - 1;
    if exists|k: int| 0 <= k < n - 1 && on_day(#[trigger] locals[k], day) {
        lemma_earliest_exists(tasks, locals, day, n - 1);
        let b = choose|i: int|
            #[trigger] earliest_on(tasks.take(n - 1), locals.take(n - 1), day, i);
        let ts0 = tasks.take(n - 1);
        let ls0 = locals.take(n - 1);
        assert(ts0[b] == ts[b] && ls0[b] == ls[b]);
        if on_day(locals[last], day) && earlier(tasks[last].start_time, tasks[b].start_time) {
            assert forall|j: int| 0 <= j < ts.len() && on_day(#[trigger] ls[j], day) implies {
                &&& !earlier(ts[j].start_time, ts[last].start_time)
                &&& j < last ==> earlier(ts[last].start_time, ts[j].start_time)
            } by {
                if j < last {
                    assert(ls0[j] == ls[j] && ts0[j] == ts[j]);
                    assert(on_day(ls0[j], day));
                }
            }
            assert(earliest_on(ts, ls, day, last));
        } else {
            assert forall|j: int| 0 <= j < ts.len() && on_day(#[trigger] ls[j], day) implies {
                &&& !earlier(ts[j].start_time, ts[b].start_time)
                &&& j < b ==> earlier(ts[b].start_time, ts[j].start_time)
            } by {
                if j < last {
                    assert(ls0[j] == ls[j] && ts0[j] == ts[j]);
                    assert(on_day(ls0[j], day));
                }
            }
            assert(earliest_on(ts, ls, day, b));
        }
    } else {
        assert(on_day(locals[last], day));
        assert forall|j: int| 0 <= j < ts.len() && on_day(#[trigger] ls[j], day) implies j
            == last by {
            if j < last {
                assert(ls[j] == locals[j]);
            }
        }
        assert(earliest_on(ts, ls, day, last));
    }
}

/// Whether `after` is the form `before` once the day was set to `text`:
/// it shows the task that starts first on that day, or is empty where no
/// task starts on that day.
pub open spec fn day_applied(
    before: FormView,
    after: FormView,
    text: Seq<char>,
    tasks: Seq<TaskView>,
    locals: Seq<Option<LocalView>>,
    day: Option<Date>,
) -> bool {
    &&& forall|i: int|
        earliest_on(tasks, locals, day, i) ==> after == day_shown(
            before,
            text,
            tasks[i],
            locals[i].unwrap(),
        )
    &&& (forall|i: int| 0 <= i < tasks.len() ==> !on_day(#[trigger] locals[i], day)) ==> after
        == day_empty(before, text)
}

/// Whether `tasks[i]` is the first task with the identifier `id`.
pub open spec fn first_with_id(tasks: Seq<TaskView>, id: Seq<char>, i: int) -> bool {
    &&& 0 <= i < tasks.len()
    &&& tasks[i].id == id
    &&& forall|j: int| 0 <= j < i ==> (#[trigger] tasks[j]).id != id
}

/// Whether `locals` holds a reading of the local wall clock for each task
/// of `tasks` whose start the clock shows, and for no other.
pub open spec fn readings_of(locals: Seq<Option<LocalView>>, tasks: Seq<TaskView>) -> bool {
    &&& locals.len() == tasks.len()
    &&& forall|i: int|
        0 <= i < tasks.len() ==> ((#[trigger] locals[i]) is Some <==> clock_shows(
            tasks[i].start_time,
        ))
}

/// How the local wall clock shows the start of each task of `tasks`: a
/// reading for each task whose start the clock shows, in the order of the
/// tasks.
pub fn local_starts(tasks: &Vec<Task>) -> (locals: Vec<Option<LocalStart>>)
    ensures
        locals@.len() == tasks@.len(),
        forall|i: int|
            0 <= i < tasks@.len() ==> ((#[trigger] locals@[i]) is Some <==> clock_shows(
                tasks@[i].start_time,
            )),
        readings_of(locals_of(locals@), tasks_of(tasks@)),
{
    let mut locals: Vec<Option<LocalStart>> = Vec::new();
    let mut i: usize = 0;
    while i < tasks.len()
        invariant
            0 <= i <= tasks@.len(),
            locals@.len() == i,
            forall|j: int|
                0 <= j < i ==> ((#[trigger] locals@[j]) is Some <==> clock_shows(
                    tasks@[j].start_time,
                )),
        decreases tasks@.len() - i,
    {
        locals.push(local_start_of(tasks[i].start_time));
        i += 1;
    }
    proof {
        assert forall|j: int| 0 <= j < tasks@.len() implies ((#[trigger] locals_of(locals@)[j])
            is Some <==> clock_shows(tasks_of(tasks@)[j].start_time)) by {
            assert(locals@[j] is Some <==> clock_shows(tasks@[j].start_time));
        }
    }
    locals
}

/// The task that starts first on `day`, where `locals` says how the local
/// wall clock shows the start of each task.
pub fn earliest_on_day(tasks: &Vec<Task>, locals: &Vec<Option<LocalStart>>, day: Option<Date>)
    -> (r: Option<usize>)
    requires
        locals@.len() == tasks@.len(),
    ensures
        r matches Some(i) ==> earliest_on(tasks_of(tasks@), locals_of(locals@), day, i as int),
        r is None ==> forall|i: int|
            0 <= i < tasks@.len() ==> !on_day(#[trigger] locals_of(locals@)[i], day),
{
    let mut best: Option<usize> = None;
    let mut i: usize = 0;
    while i < tasks.len()
        invariant
            0 <= i <= tasks@.len(),
            locals@.len() == tasks@.len(),
            best matches Some(b) ==> {
                &&& b < i
                &&& on_day(locals_of(locals@)[b as int], day)
                &&& forall|j: int|
                    0 <= j < i && on_day(#[trigger] locals_of(locals@)[j], day) ==> {
                        &&& !earlier(
                            tasks_of(tasks@)[j].start_time,
                            tasks_of(tasks@)[b as int].start_time,
                        )
                        &&& j < b ==> earlier(
                            tasks_of(tasks@)[b as int].start_time,
                            tasks_of(tasks@)[j].start_time,
                        )
                    }
            },
            best is None ==> forall|j: int|
                0 <= j < i ==> !on_day(#[trigger] locals_of(locals@)[j], day),
        decreases tasks@.len() - i,
    {
        let here = match (&locals[i], day) {
            (Some(local), Some(d)) => local.date == d,
            _ => false,
        };
        assert(here == on_day(locals_of(locals@)[i as int], day));
        if here {
            match best {
                Some(b) => {
                    if tasks[i].start_time.is_before(&tasks[b].start_time) {
                        best = Some(i);
                    }
                },
                None => {
                    best = Some(i);
                },
            }
        }
        i += 1;
    }
    best
}

/// Whether the place `i` is among `places`.
pub open spec fn has_place(places: Seq<usize>, i: int) -> bool {
    exists|a: int| 0 <= a < places.len() && #[trigger] places[a] == i
}

/// The tasks that the chart shows for `day`, by their places in the list:
/// those that start on that day. Without a day the chart shows every task.
pub fn shown_on_chart(locals: &Vec<Option<LocalStart>>, day: Option<Date>) -> (shown: Vec<usize>)
    ensures
        forall|a: int, b: int| 0 <= a < b < shown@.len() ==> shown@[a] < shown@[b],
        forall|i: int|
            has_place(shown@, i) <==> (0 <= i < locals@.len() && (day is None || on_day(
                locals_of(locals@)[i],
                day,
            ))),
{
    let mut shown: Vec<usize> = Vec::new();
    let mut i: usize = 0;
    while i < locals.len()
        invariant
            0 <= i <= locals@.len(),
            forall|a: int, b: int| 0 <= a < b < shown@.len() ==> shown@[a] < shown@[b],
            forall|a: int| 0 <= a < shown@.len() ==> (#[trigger] shown@[a]) < i,
            forall|j: int|
                has_place(shown@, j) <==> (0 <= j < i && (day is None || on_day(
                    locals_of(locals@)[j],
                    day,
                ))),
        decreases locals@.len() - i,
    {
        let here = match (&locals[i], day) {
            (_, None) => true,
            (Some(local), Some(d)) => local.date == d,
            (None, Some(_)) => false,
        };
        assert(here == (day is None || on_day(locals_of(locals@)[i as int], day)));
        let ghost had = shown@;
        if here {
            shown.push(i);
            assert(shown@[had.len() as int] == i);
        }
        proof {
            assert forall|j: int| has_place(shown@, j) <==> (0 <= j < i + 1 && (day is None
                || on_day(locals_of(locals@)[j], day))) by {
                if has_place(shown@, j) {
                    let a = choose|a: int| 0 <= a < shown@.len() && #[trigger] shown@[a] == j;
                    if a < had.len() {
                        assert(had[a] == j);
                        assert(has_place(had, j));
                    }
                }
                if has_place(had, j) {
                    let a = choose|a: int| 0 <= a < had.len() && #[trigger] had[a] == j;
                    assert(shown@[a] == j);
                }
            }
        }
        i += 1;
    }
    shown
}

impl FormState {
    /// Selects `task` and fills the form with its fields. `local` is how the
    /// local wall clock shows the task's start.
    pub fn show_task(&mut self, task: &Task, local: Option<&LocalStart>)
        ensures
            final(self)@ == task_shown(
                old(self)@,
                task@,
                match local {
                    Some(l) => Some(l@),
                    None => None,
                },
            ),
    {
        self.selected_task_id = Some(task.id.clone());
        self.operation_id = task.operation_id.clone();
        self.user_id = task.user_id.clone();
        self.duration_hours = i64_text(task.expected_duration_minutes / 60);
        self.duration_minutes = i64_text(task.expected_duration_minutes % 60);
        self.materials = task.materials.clone();
        match local {
            Some(l) => {
                self.date = l.date_text.clone();
                self.start_hour = l.hour_text.clone();
                self.start_minute = l.minute_text.clone();
            },
            None => {},
        }
    }

    /// Selects the first task with the identifier `id`, as a click on the
    /// chart does, and fills the form with its fields; the date and the
    /// start fields show the task's start on the local wall clock, where the
    /// clock shows it, and stay as they are where it does not. Says whether
    /// there is such a task; without one nothing changes.
    pub fn select_task(&mut self, tasks: &Vec<Task>, id: &str) -> (found: bool)
        ensures
            found == exists|i: int| first_with_id(tasks_of(tasks@), id@, i),
            !found ==> final(self)@ == old(self)@,
            forall|i: int|
                first_with_id(tasks_of(tasks@), id@, i) ==> exists|local: Option<LocalView>|
                    (local is Some <==> clock_shows(tasks_of(tasks@)[i].start_time))
                        && final(self)@ == #[trigger] task_shown(
                        old(self)@,
                        tasks_of(tasks@)[i],
                        local,
                    ),
    {
        let mut i: usize = 0;
        while i < tasks.len()
            invariant
                0 <= i <= tasks@.len(),
                *self == *old(self),
                forall|j: int| 0 <= j < i ==> (#[trigger] tasks_of(tasks@)[j]).id != id@,
            decreases tasks@.len() - i,
        {
            let task = &tasks[i];
            assert(tasks_of(tasks@)[i as int] == task@);
            if task.id.as_str().eq(id) {
                let local = local_start_of(task.start_time);
                self.show_task(task, local.as_ref());
                proof {
                    assert(first_with_id(tasks_of(tasks@), id@, i as int));
                    let shown = local_of(local);
                    assert(self@ == task_shown(old(self)@, tasks_of(tasks@)[i as int], shown));
                    assert(shown is Some <==> clock_shows(tasks_of(tasks@)[i as int].start_time));
                    assert forall|k: int| first_with_id(tasks_of(tasks@), id@, k) implies exists|
                        l: Option<LocalView>,
                    |
                        (l is Some <==> clock_shows(tasks_of(tasks@)[k].start_time)) && self@
                            == #[trigger] task_shown(old(self)@, tasks_of(tasks@)[k], l) by {
                        assert(k == i);
                    }
                }
                return true;
            }
            i += 1;
        }
        proof {
            assert forall|k: int| !first_with_id(tasks_of(tasks@), id@, k) by {
                if first_with_id(tasks_of(tasks@), id@, k) {
                    assert(tasks_of(tasks@)[k].id != id@);
                }
            }
        }
        false
    }

    /// Sets the day to `text` and shows the task that starts first on the
    /// day `day`, or empties the form where no task starts on it. `locals`
    /// says how the local wall clock shows the start of each task.
    pub fn show_day(
        &mut self,
        text: String,
        tasks: &Vec<Task>,
        locals: &Vec<Option<LocalStart>>,
        day: Option<Date>,
    )
        requires
            locals@.len() == tasks@.len(),
        ensures
            day_applied(
                old(self)@,
                final(self)@,
                text@,
                tasks_of(tasks@),
                locals_of(locals@),
                day,
            ),
    {
        let ghost ts = tasks_of(tasks@);
        let ghost ls = locals_of(locals@);
        match earliest_on_day(tasks, locals, day) {
            Some(i) => {
                let task = &tasks[i];
                assert(ts[i as int] == task@);
                match &locals[i] {
                    Some(local) => {
                        assert(ls[i as int] == Some(local@));
                        self.selected_task_id = Some(task.id.clone());
                        self.operation_id = task.operation_id.clone();
                        self.user_id = task.user_id.clone();
                        self.start_hour = local.hour_text.clone();
                        self.start_minute = local.minute_text.clone();
                        self.duration_hours = i64_text(task.expected_duration_minutes / 60);
                        self.duration_minutes = i64_text(task.expected_duration_minutes % 60);
                        self.materials = task.materials.clone();
                        self.date = text;
                        proof {
                            assert forall|k: int| earliest_on(ts, ls, day, k) implies k == i by {
                                assert(on_day(ls[k], day));
                                assert(on_day(ls[i as int], day));
                            }
                            assert(on_day(ls[i as int], day));
                        }
                    },
                    None => {
                        assert(ls[i as int] is None);
                        assert(false);
                    },
                }
            },
            None => {
                self.selected_task_id = None;
                self.operation_id = String::new();
                self.user_id = String::new();
                self.materials = Materials::new();
                self.start_hour = String::from_str("09");
                self.start_minute = String::from_str("00");
                self.duration_hours = String::from_str("1");
                self.duration_minutes = String::from_str("00");
                self.date = text;
            },
        }
    }

    /// Sets the day to `text`, as typing into the date field does, and shows
    /// the task that starts first on that day of the local wall clock, or
    /// empties the form where no task starts on it or `text` names no day.
    /// The clock is read for every task whose start it shows.
    pub fn change_date(&mut self, text: String, tasks: &Vec<Task>)
        ensures
            exists|locals: Seq<Option<LocalView>>|
                readings_of(locals, tasks_of(tasks@)) && #[trigger] day_applied(
                    old(self)@,
                    final(self)@,
                    text@,
                    tasks_of(tasks@),
                    locals,
                    date_of_text(text@),
                ),
    {
        let day = parse_date(text.as_str());
        let locals = local_starts(tasks);
        let ghost name = text@;
        self.show_day(text, tasks, &locals, day);
        assert(readings_of(locals_of(locals@), tasks_of(tasks@)));
        assert(day_applied(
            old(self)@,
            self@,
            name,
            tasks_of(tasks@),
            locals_of(locals@),
            date_of_text(name),
        ));
    }
}

/// The hour that the start is set to: what the field says, or nine where it
/// says no number.
pub open spec fn start_hour_of(text: Seq<char>) -> u32 {
    match u32_of_text(text) {
        Some(h) => h,
        None => 9,
    }
}

/// The minute that the start is set to: what the field says, or zero where
/// it says no number.
pub open spec fn start_minute_of(text: Seq<char>) -> u32 {
    match u32_of_text(text) {
        Some(m) => m,
        None => 0,
    }
}

/// Whether a clock shows the hour and the minute that the start is set to:
/// an hour below 24 and a minute below 60.
pub open spec fn on_the_clock(hour_text: Seq<char>, minute_text: Seq<char>) -> bool {
    start_hour_of(hour_text) < 24 && start_minute_of(minute_text) < 60
}

/// The task that the form describes, under the identifier `id` and with the
/// start `start` and the duration `duration`.
pub open spec fn planned(form: FormView, id: Seq<char>, start: Instant, duration: i64) -> TaskView {
    TaskView {
        id,
        user_id: form.user_id,
        operation_id: form.operation_id,
        expected_duration_minutes: duration,
        start_time: start,
        actual_start_time: None,
        actual_duration_minutes: None,
        materials: form.materials,
    }
}

impl FormState {
    /// The hour that the start is set to.
    pub fn start_hour(&self) -> (hour: u32)
        ensures
            hour == start_hour_of(self@.start_hour),
    {
        match parse_u32(self.start_hour.as_str()) {
            Some(h) => h,
            None => 9,
        }
    }

    /// The minute that the start is set to.
    pub fn start_minute(&self) -> (minute: u32)
        ensures
            minute == start_minute_of(self@.start_minute),
    {
        match parse_u32(self.start_minute.as_str()) {
            Some(m) => m,
            None => 0,
        }
    }

    /// The instant that the date and the start fields name on the local wall
    /// clock: the start of that minute. A date field that names no day
    /// stands for today. There is no instant where the hour or the minute
    /// does not exist on the clock, nor where the clock skips that time or
    /// shows it twice.
    pub fn planned_start(&self) -> (r: Option<Instant>)
        ensures
            !on_the_clock(self@.start_hour, self@.start_minute) ==> r is None,
            r matches Some(at) ==> at.nanos == 0,
    {
        let day = match self.start_day() {
            Some(day) => day,
            None => today(),
        };
        instant_of_local(day, self.start_hour(), self.start_minute())
    }

    /// The day that the date field names, if it names one.
    pub fn start_day(&self) -> (day: Option<Date>)
        ensures
            day == date_of_text(self@.date),
    {
        parse_date(self.date.as_str())
    }

    /// The task that the form describes, under the identifier `id` and with
    /// the start `start`: there is none without a start, nor where the
    /// duration does not fit.
    pub fn planned_task(&self, id: String, start: Option<Instant>) -> (r: Option<Task>)
        ensures
            r is Some <==> (start is Some && duration_of(
                self@.duration_hours,
                self@.duration_minutes,
            ) is Some),
            r matches Some(task) ==> task@ == planned(
                self@,
                id@,
                start.unwrap(),
                duration_of(self@.duration_hours, self@.duration_minutes).unwrap(),
            ),
    {
        match (start, self.duration()) {
            (Some(start), Some(duration)) => Some(
                Task::with_id(
                    id,
                    self.user_id.clone(),
                    self.operation_id.clone(),
                    start,
                    duration,
                    self.materials.clone(),
                ),
            ),
            _ => None,
        }
    }

    /// The task to add: what the form describes, under a fresh identifier,
    /// starting at the instant that the date and the start fields name on the
    /// local wall clock. There is none where the duration does not fit or
    /// the fields name no instant.
    pub fn new_task(&self) -> (r: Option<Task>)
        ensures
            duration_of(self@.duration_hours, self@.duration_minutes) is None ==> r is None,
            !on_the_clock(self@.start_hour, self@.start_minute) ==> r is None,
            r matches Some(task) ==> task.id@.len() == 36 && task.start_time.nanos == 0 && task@
                == planned(
                self@,
                task.id@,
                task.start_time,
                duration_of(self@.duration_hours, self@.duration_minutes).unwrap(),
            ),
    {
        let start = self.planned_start();
        self.planned_task(crate::task::fresh_id(), start)
    }

    /// The task to put in the place of the selected one: what the form
    /// describes, under the identifier of the selected task, starting at the
    /// instant that the date and the start fields name on the local wall
    /// clock. There is none while no task is selected, where the duration
    /// does not fit, or where the fields name no instant.
    pub fn updated_task(&self) -> (r: Option<Task>)
        ensures
            self@.selected_task_id is None ==> r is None,
            duration_of(self@.duration_hours, self@.duration_minutes) is None ==> r is None,
            !on_the_clock(self@.start_hour, self@.start_minute) ==> r is None,
            r matches Some(task) ==> task.start_time.nanos == 0 && task@ == planned(
                self@,
                self@.selected_task_id.unwrap(),
                task.start_time,
                duration_of(self@.duration_hours, self@.duration_minutes).unwrap(),
            ),
    {
        match &self.selected_task_id {
            Some(id) => {
                let start = self.planned_start();
                self.planned_task(id.clone(), start)
            },
            None => None,
        }
    }
}

} // verus!
