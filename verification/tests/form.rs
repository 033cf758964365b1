use production_schedule::calendar::{Date, Instant, LocalStart};
use production_schedule::diff::DiffReport;
use production_schedule::form::{earliest_on_day, shown_on_chart, FormState, Mode};
use production_schedule::inventory::{Amount, Inventory, InventoryItem};
use production_schedule::materials::Materials;
use production_schedule::preset::{PresetStore, TaskPreset};
use production_schedule::task::Task;

fn materials(pairs: &[(&str, &str)]) -> Materials {
    let mut m = Materials::new();
    for (name, quantity) in pairs {
        m.insert(name.to_string(), quantity.to_string());
    }
    m
}

fn pairs(m: &Materials) -> Vec<(String, String)> {
    let mut v = Vec::new();
    for i in 0..m.len() {
        v.push((m.name_at(i).clone(), m.quantity_at(i).clone()));
    }
    v.sort();
    v
}

fn owned(pairs: &[(&str, &str)]) -> Vec<(String, String)> {
    let mut v: Vec<(String, String)> = pairs.iter().map(|(a, b)| (a.to_string(), b.to_string())).collect();
    v.sort();
    v
}

fn stock(names: &[&str]) -> Inventory {
    Inventory::from_items(
        names
            .iter()
            .map(|n| InventoryItem { name: n.to_string(), quantity: Amount { bits: 10.0f64.to_bits() }, unit: "kg".to_string() })
            .collect(),
    )
}

fn task(id: &str, user: &str, op: &str, seconds: i64, duration: i64) -> Task {
    Task::with_id(
        id.to_string(),
        user.to_string(),
        op.to_string(),
        Instant { seconds, nanos: 0 },
        duration,
        materials(&[("Wood", "3 kg")]),
    )
}

fn local(year: i32, month: u32, day: u32, hour: &str, minute: &str) -> Option<LocalStart> {
    Some(LocalStart {
        date: Date { year, month, day },
        date_text: format!("{:04}-{:02}-{:02}", year, month, day),
        hour_text: hour.to_string(),
        minute_text: minute.to_string(),
    })
}

#[test]
fn a_form_opens_creating() {
    let form = FormState::new("2024-03-05".to_string());
    assert_eq!(form.date, "2024-03-05");
    assert_eq!(form.user_id, "");
    assert_eq!(form.operation_id, "");
    assert_eq!(form.start_hour, "09");
    assert_eq!(form.start_minute, "00");
    assert_eq!(form.duration_hours, "1");
    assert_eq!(form.duration_minutes, "00");
    assert_eq!(form.materials.len(), 0);
    assert!(form.selected_task_id.is_none());
    assert!(form.pending_preset_update.is_none());
    assert_eq!(form.mode(), Mode::Creating);
    assert_eq!(form.duration(), Some(60));
}

#[test]
fn submission_needs_names_and_present_materials() {
    let inventory = stock(&["Wood"]);
    let mut form = FormState::new("2024-03-05".to_string());
    assert!(!form.can_add(&inventory));
    form.user_id = "ann".to_string();
    assert!(!form.can_add(&inventory));
    form.operation_id = "  \t".to_string();
    assert!(!form.can_add(&inventory));
    assert!(!form.can_update_preset());
    form.operation_id = "saw".to_string();
    assert!(form.can_add(&inventory));
    assert!(form.can_update_preset());
    assert!(!form.can_update(&inventory));
    form.selected_task_id = Some("t1".to_string());
    assert!(form.can_update(&inventory));
    assert_eq!(form.mode(), Mode::Editing);
}

#[test]
fn gating_looks_at_names_only() {
    let mut form = FormState::new("2024-03-05".to_string());
    form.user_id = "ann".to_string();
    form.operation_id = "saw".to_string();
    form.set_material("Wood".to_string(), "5 kg".to_string());
    assert!(form.can_add(&stock(&["Wood"])));
    assert!(!form.can_add(&stock(&[])));
    assert!(!form.can_add(&stock(&["Glue"])));
    form.set_material("Wood".to_string(), "5 lb".to_string());
    assert!(form.can_add(&stock(&["Wood"])));
    form.set_material("Wood".to_string(), "a lot".to_string());
    assert!(form.can_add(&stock(&["Wood"])));
    assert!(!form.can_add(&stock(&["wood"])));
}

#[test]
fn duration_fields() {
    let mut form = FormState::new("2024-03-05".to_string());
    form.duration_hours = "2".to_string();
    form.duration_minutes = "30".to_string();
    assert_eq!(form.duration(), Some(150));
    form.duration_hours = "x".to_string();
    form.duration_minutes = "".to_string();
    assert_eq!(form.duration(), Some(60));
    form.duration_hours = "-1".to_string();
    form.duration_minutes = "+15".to_string();
    assert_eq!(form.duration(), Some(-45));
    form.duration_hours = "9223372036854775807".to_string();
    assert_eq!(form.duration(), None);
    form.duration_hours = "153722867280912930".to_string();
    form.duration_minutes = "7".to_string();
    assert_eq!(form.duration(), Some(i64::MAX));
    form.duration_minutes = "8".to_string();
    assert_eq!(form.duration(), None);
}

#[test]
fn material_rows() {
    let mut form = FormState::new("2024-03-05".to_string());
    form.add_material_row();
    assert_eq!(pairs(&form.materials), owned(&[("New Material", "0")]));
    form.set_material("New Material".to_string(), "4".to_string());
    form.add_material_row();
    assert_eq!(pairs(&form.materials), owned(&[("New Material", "0")]));
    form.rename_material("New Material", "Wood".to_string());
    assert_eq!(pairs(&form.materials), owned(&[("Wood", "0")]));
    form.rename_material("Missing", "Glue".to_string());
    assert_eq!(pairs(&form.materials), owned(&[("Wood", "0")]));
    form.set_material_amount("Wood".to_string(), "3.5", "kg");
    form.set_material("Glue".to_string(), "1".to_string());
    assert_eq!(pairs(&form.materials), owned(&[("Glue", "1"), ("Wood", "3.5 kg")]));
    form.rename_material("Glue", "Wood".to_string());
    assert_eq!(pairs(&form.materials), owned(&[("Wood", "1")]));
    form.delete_material("Wood");
    form.delete_material("Wood");
    assert_eq!(form.materials.len(), 0);
}

#[test]
fn operation_with_a_preset_overwrites_duration_and_materials() {
    let mut presets = PresetStore::new();
    presets.upsert("saw".to_string(), TaskPreset { duration_minutes: 135, materials: materials(&[("Wood", "3 kg")]) });
    let mut form = FormState::new("2024-03-05".to_string());
    form.set_material("Glue".to_string(), "1".to_string());
    form.enter_operation("sa".to_string(), &presets);
    assert_eq!(form.operation_id, "sa");
    assert_eq!(form.duration_hours, "1");
    assert_eq!(form.duration_minutes, "00");
    assert_eq!(pairs(&form.materials), owned(&[("Glue", "1")]));
    form.enter_operation("saw".to_string(), &presets);
    assert_eq!(form.operation_id, "saw");
    assert_eq!(form.duration_hours, "2");
    assert_eq!(form.duration_minutes, "15");
    assert_eq!(pairs(&form.materials), owned(&[("Wood", "3 kg")]));
    presets.upsert("undo".to_string(), TaskPreset { duration_minutes: -135, materials: Materials::new() });
    form.enter_operation("undo".to_string(), &presets);
    assert_eq!(form.duration_hours, "-2");
    assert_eq!(form.duration_minutes, "-15");
    assert_eq!(form.materials.len(), 0);
}

#[test]
fn second_proposal_replaces_the_first() {
    let mut presets = PresetStore::new();
    let mut form = FormState::new("2024-03-05".to_string());
    form.propose_preset_update();
    assert!(form.pending_preset_update.is_none());
    form.operation_id = "saw".to_string();
    form.set_material("Wood".to_string(), "3 kg".to_string());
    form.propose_preset_update();
    {
        let (name, candidate) = form.pending_preset_update.as_ref().expect("an update waits");
        assert_eq!(name, "saw");
        assert_eq!(candidate.duration_minutes, 60);
        assert_eq!(pairs(&candidate.materials), owned(&[("Wood", "3 kg")]));
    }
    form.operation_id = "glue up".to_string();
    form.duration_hours = "0".to_string();
    form.duration_minutes = "20".to_string();
    form.delete_material("Wood");
    form.set_material("Glue".to_string(), "1".to_string());
    form.propose_preset_update();
    {
        let (name, candidate) = form.pending_preset_update.as_ref().expect("an update waits");
        assert_eq!(name, "glue up");
        assert_eq!(candidate.duration_minutes, 20);
        assert_eq!(pairs(&candidate.materials), owned(&[("Glue", "1")]));
    }
    assert!(matches!(form.pending_report(&presets), Some(DiffReport::NewPreset)));
    assert!(form.confirm_preset_update(&mut presets));
    assert!(form.pending_preset_update.is_none());
    assert_eq!(presets.len(), 1);
    assert!(presets.get("saw").is_none());
    assert_eq!(presets.get("glue up").expect("stored").duration_minutes, 20);
    assert!(!form.confirm_preset_update(&mut presets));
    assert_eq!(presets.len(), 1);
}

#[test]
fn a_proposal_that_does_not_fit_changes_nothing() {
    let mut form = FormState::new("2024-03-05".to_string());
    form.operation_id = "saw".to_string();
    form.propose_preset_update();
    form.duration_hours = "9223372036854775807".to_string();
    form.propose_preset_update();
    let (_, candidate) = form.pending_preset_update.as_ref().expect("the first update still waits");
    assert_eq!(candidate.duration_minutes, 60);
}

#[test]
fn cancel_drops_the_proposal_and_keeps_the_presets() {
    let mut presets = PresetStore::new();
    presets.upsert("saw".to_string(), TaskPreset { duration_minutes: 60, materials: materials(&[("Glue", "1")]) });
    let mut form = FormState::new("2024-03-05".to_string());
    form.operation_id = "saw".to_string();
    form.duration_hours = "1".to_string();
    form.duration_minutes = "30".to_string();
    form.set_material("Glue".to_string(), "1".to_string());
    form.set_material("Paint".to_string(), "2".to_string());
    form.propose_preset_update();
    let report = form.pending_report(&presets).expect("an update waits");
    assert_eq!(report.lines(), vec!["Duration: 60m -> 90m".to_string(), "Added Paint: 2".to_string()]);
    assert_eq!(presets.get("saw").expect("kept").duration_minutes, 60);
    form.cancel_preset_update();
    assert!(form.pending_preset_update.is_none());
    assert!(form.pending_report(&presets).is_none());
    assert_eq!(presets.get("saw").expect("kept").duration_minutes, 60);
    assert_eq!(presets.get("saw").expect("kept").materials.len(), 1);
}

#[test]
fn selection_follows_operation_and_user() {
    let tasks = vec![task("t1", "ann", "saw", 100, 60), task("t2", "bob", "saw", 50, 60), task("t3", "bob", "saw", 10, 60)];
    let mut form = FormState::new("2024-03-05".to_string());
    form.sync_selection(&tasks);
    assert!(form.selected_task_id.is_none());
    form.user_id = "bob".to_string();
    form.operation_id = "saw".to_string();
    form.sync_selection(&tasks);
    assert_eq!(form.selected_task_id.as_deref(), Some("t2"));
    form.operation_id = "sand".to_string();
    form.sync_selection(&tasks);
    assert!(form.selected_task_id.is_none());
    assert_eq!(form.user_id, "bob");
}

#[test]
fn showing_a_task_fills_the_form() {
    let shown = task("t1", "ann", "saw", 1_709_640_000, 135);
    let mut form = FormState::new("2024-01-01".to_string());
    form.pending_preset_update = Some(("x".to_string(), TaskPreset { duration_minutes: 1, materials: Materials::new() }));
    let at = local(2024, 3, 5, "14", "05");
    form.show_task(&shown, at.as_ref());
    assert_eq!(form.selected_task_id.as_deref(), Some("t1"));
    assert_eq!(form.user_id, "ann");
    assert_eq!(form.operation_id, "saw");
    assert_eq!(form.date, "2024-03-05");
    assert_eq!(form.start_hour, "14");
    assert_eq!(form.start_minute, "05");
    assert_eq!(form.duration_hours, "2");
    assert_eq!(form.duration_minutes, "15");
    assert_eq!(pairs(&form.materials), owned(&[("Wood", "3 kg")]));
    assert!(form.pending_preset_update.is_some());
    let mut other = FormState::new("2024-01-01".to_string());
    other.show_task(&shown, None);
    assert_eq!(other.date, "2024-01-01");
    assert_eq!(other.start_hour, "09");
    assert_eq!(other.selected_task_id.as_deref(), Some("t1"));
}

#[test]
fn select_task_by_identifier() {
    let tasks = vec![task("t1", "ann", "saw", 1_709_640_000, 60), task("t2", "bob", "sand", 1_709_650_000, 30)];
    let mut form = FormState::new("2024-01-01".to_string());
    assert!(!form.select_task(&tasks, "t9"));
    assert!(form.selected_task_id.is_none());
    assert_eq!(form.date, "2024-01-01");
    assert!(form.select_task(&tasks, "t2"));
    assert_eq!(form.selected_task_id.as_deref(), Some("t2"));
    assert_eq!(form.user_id, "bob");
    assert_eq!(form.operation_id, "sand");
    assert_eq!(form.duration_hours, "0");
    assert_eq!(form.duration_minutes, "30");
    assert_eq!(form.date.len(), 10);
    assert_eq!(form.start_hour.len(), 2);
    assert_eq!(form.start_minute.len(), 2);
}

#[test]
fn earliest_task_of_the_day_is_selected() {
    let tasks = vec![
        task("afternoon", "ann", "saw", 1_709_647_200, 60),
        task("other day", "ann", "saw", 1_709_500_000, 60),
        task("morning", "bob", "sand", 1_709_629_200, 90),
        task("morning again", "cy", "glue", 1_709_629_200, 90),
    ];
    let locals = vec![
        local(2024, 3, 5, "14", "00"),
        local(2024, 3, 3, "21", "06"),
        local(2024, 3, 5, "09", "00"),
        local(2024, 3, 5, "09", "00"),
    ];
    let day = Some(Date { year: 2024, month: 3, day: 5 });
    assert_eq!(earliest_on_day(&tasks, &locals, day), Some(2));
    assert_eq!(earliest_on_day(&tasks, &locals, Some(Date { year: 2024, month: 3, day: 4 })), None);
    assert_eq!(earliest_on_day(&tasks, &locals, None), None);
    assert_eq!(shown_on_chart(&locals, day), vec![0, 2, 3]);
    assert_eq!(shown_on_chart(&locals, None), vec![0, 1, 2, 3]);
    assert_eq!(shown_on_chart(&locals, Some(Date { year: 2024, month: 3, day: 4 })), Vec::<usize>::new());

    let mut form = FormState::new("2024-01-01".to_string());
    form.show_day("2024-03-05".to_string(), &tasks, &locals, day);
    assert_eq!(form.date, "2024-03-05");
    assert_eq!(form.selected_task_id.as_deref(), Some("morning"));
    assert_eq!(form.user_id, "bob");
    assert_eq!(form.operation_id, "sand");
    assert_eq!(form.start_hour, "09");
    assert_eq!(form.start_minute, "00");
    assert_eq!(form.duration_hours, "1");
    assert_eq!(form.duration_minutes, "30");

    form.show_day("2024-03-04".to_string(), &tasks, &locals, Some(Date { year: 2024, month: 3, day: 4 }));
    assert_eq!(form.date, "2024-03-04");
    assert!(form.selected_task_id.is_none());
    assert_eq!(form.user_id, "");
    assert_eq!(form.operation_id, "");
    assert_eq!(form.start_hour, "09");
    assert_eq!(form.start_minute, "00");
    assert_eq!(form.duration_hours, "1");
    assert_eq!(form.duration_minutes, "00");
    assert_eq!(form.materials.len(), 0);
}

#[test]
fn changing_the_date_selects_the_nine_o_clock_task() {
    let mut at_two = FormState::new("2024-03-05".to_string());
    at_two.user_id = "ann".to_string();
    at_two.operation_id = "saw".to_string();
    at_two.start_hour = "14".to_string();
    let afternoon = at_two.new_task().expect("two in the afternoon exists");
    let mut at_nine = FormState::new("2024-03-05".to_string());
    at_nine.user_id = "bob".to_string();
    at_nine.operation_id = "sand".to_string();
    at_nine.duration_hours = "0".to_string();
    at_nine.duration_minutes = "45".to_string();
    at_nine.set_material("Paper".to_string(), "2".to_string());
    let morning = at_nine.new_task().expect("nine in the morning exists");
    assert_ne!(afternoon.id, morning.id);
    assert_eq!(afternoon.id.len(), 36);
    assert_eq!(afternoon.start_time.seconds - morning.start_time.seconds, 5 * 3600);
    assert_eq!(morning.expected_duration_minutes, 45);
    assert!(morning.actual_start_time.is_none());
    assert!(morning.actual_duration_minutes.is_none());
    let morning_id = morning.id.clone();
    let tasks = vec![afternoon, morning];

    let mut form = FormState::new("2024-01-01".to_string());
    form.change_date("2024-03-05".to_string(), &tasks);
    assert_eq!(form.date, "2024-03-05");
    assert_eq!(form.selected_task_id, Some(morning_id));
    assert_eq!(form.user_id, "bob");
    assert_eq!(form.operation_id, "sand");
    assert_eq!(form.start_hour, "09");
    assert_eq!(form.start_minute, "00");
    assert_eq!(form.duration_hours, "0");
    assert_eq!(form.duration_minutes, "45");
    assert_eq!(pairs(&form.materials), owned(&[("Paper", "2")]));

    form.change_date("2024-03-06".to_string(), &tasks);
    assert!(form.selected_task_id.is_none());
    assert_eq!(form.user_id, "");
    form.change_date("not a day".to_string(), &tasks);
    assert_eq!(form.date, "not a day");
    assert!(form.selected_task_id.is_none());
}

#[test]
fn updated_task_keeps_the_identifier() {
    let mut form = FormState::new("2024-03-05".to_string());
    form.user_id = "ann".to_string();
    form.operation_id = "saw".to_string();
    assert!(form.updated_task().is_none());
    form.selected_task_id = Some("t7".to_string());
    form.start_hour = "25".to_string();
    assert!(form.updated_task().is_none());
    assert!(form.new_task().is_none());
    form.start_hour = "10".to_string();
    form.start_minute = "61".to_string();
    assert!(form.updated_task().is_none());
    form.start_minute = "x".to_string();
    let updated = form.updated_task().expect("ten o'clock exists");
    assert_eq!(updated.id, "t7");
    assert_eq!(updated.user_id, "ann");
    assert_eq!(updated.operation_id, "saw");
    assert_eq!(updated.expected_duration_minutes, 60);
    let same = form.planned_task("t7".to_string(), Some(updated.start_time)).expect("fits");
    assert_eq!(same.start_time, updated.start_time);
    assert!(form.planned_task("t7".to_string(), None).is_none());
    form.duration_hours = "9223372036854775807".to_string();
    assert!(form.updated_task().is_none());
}

#[test]
fn clearing_after_delete() {
    let mut form = FormState::new("2024-03-05".to_string());
    form.user_id = "ann".to_string();
    form.operation_id = "saw".to_string();
    form.selected_task_id = Some("t1".to_string());
    form.start_hour = "14".to_string();
    form.set_material("Wood".to_string(), "1".to_string());
    form.clear_after_delete();
    assert!(form.selected_task_id.is_none());
    assert_eq!(form.user_id, "");
    assert_eq!(form.operation_id, "");
    assert_eq!(form.materials.len(), 0);
    assert_eq!(form.start_hour, "14");
    assert_eq!(form.date, "2024-03-05");
}
