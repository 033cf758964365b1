use production_schedule::diff::{diff_presets, material_changes, DiffReport, MaterialChange};
use production_schedule::materials::Materials;
use production_schedule::preset::TaskPreset;
use production_schedule::diff::describe_duration;

fn materials(pairs: &[(&str, &str)]) -> Materials {
    let mut m = Materials::new();
    for (name, quantity) in pairs {
        m.insert(name.to_string(), quantity.to_string());
    }
    m
}

fn preset(duration_minutes: i64, pairs: &[(&str, &str)]) -> TaskPreset {
    TaskPreset { duration_minutes, materials: materials(pairs) }
}

fn described(changes: &[MaterialChange]) -> Vec<String> {
    changes.iter().map(|c| c.describe()).collect()
}

#[test]
fn duration_and_added_material() {
    let existing = preset(60, &[("Glue", "1")]);
    let candidate = preset(90, &[("Glue", "1"), ("Paint", "2")]);
    match diff_presets(Some(&existing), &candidate) {
        DiffReport::Changes { duration, materials } => {
            assert_eq!(duration, Some((60, 90)));
            assert_eq!(described(&materials), vec!["Added Paint: 2".to_string()]);
        }
        _ => panic!("expected changes"),
    }
    let report = diff_presets(Some(&existing), &candidate);
    assert_eq!(report.lines(), vec!["Duration: 60m -> 90m".to_string(), "Added Paint: 2".to_string()]);
}

#[test]
fn new_preset_has_no_delta() {
    let candidate = preset(90, &[("Glue", "1")]);
    let report = diff_presets(None, &candidate);
    assert!(matches!(report, DiffReport::NewPreset));
    assert_eq!(report.lines(), vec!["New Preset will be created.".to_string()]);
}

#[test]
fn equal_presets_have_no_changes() {
    let existing = preset(60, &[("Glue", "1"), ("Paint", "2")]);
    let candidate = preset(60, &[("Paint", "2"), ("Glue", "1")]);
    let report = diff_presets(Some(&existing), &candidate);
    assert!(matches!(report, DiffReport::NoChanges));
    assert_eq!(report.lines(), vec!["No changes detected.".to_string()]);
}

#[test]
fn only_materials_change() {
    let existing = preset(60, &[("Glue", "1"), ("Wood", "3 kg"), ("Nails", "10")]);
    let candidate = preset(60, &[("Wood", "4 kg"), ("Paint", "2"), ("Nails", "10")]);
    match diff_presets(Some(&existing), &candidate) {
        DiffReport::Changes { duration, materials } => {
            assert_eq!(duration, None);
            assert_eq!(
                described(&materials),
                vec![
                    "Removed Glue: 1".to_string(),
                    "Added Paint: 2".to_string(),
                    "Wood: 3 kg -> 4 kg".to_string(),
                ]
            );
        }
        _ => panic!("expected changes"),
    }
}

#[test]
fn only_duration_changes() {
    let existing = preset(-5, &[("Glue", "1")]);
    let candidate = preset(0, &[("Glue", "1")]);
    let report = diff_presets(Some(&existing), &candidate);
    assert_eq!(report.lines(), vec!["Duration: -5m -> 0m".to_string()]);
}

#[test]
fn changes_come_in_dictionary_order() {
    let before = materials(&[("b", "1"), ("B", "1"), ("ab", "1"), ("a", "1"), ("", "1")]);
    let after = materials(&[]);
    let names: Vec<String> = material_changes(&before, &after).iter().map(|c| c.name().clone()).collect();
    assert_eq!(names, vec!["", "B", "a", "ab", "b"]);
    let mut sorted = names.clone();
    sorted.sort();
    assert_eq!(names, sorted);
}

#[test]
fn changes_mirror() {
    let before = materials(&[("Glue", "1"), ("Wood", "3 kg")]);
    let after = materials(&[("Wood", "4 kg"), ("Paint", "2")]);
    assert_eq!(
        described(&material_changes(&before, &after)),
        vec!["Removed Glue: 1", "Added Paint: 2", "Wood: 3 kg -> 4 kg"]
    );
    assert_eq!(
        described(&material_changes(&after, &before)),
        vec!["Added Glue: 1", "Removed Paint: 2", "Wood: 4 kg -> 3 kg"]
    );
}

#[test]
fn diff_leaves_both_presets_alone() {
    let existing = preset(60, &[("Glue", "1")]);
    let candidate = preset(90, &[("Paint", "2")]);
    let _ = diff_presets(Some(&existing), &candidate);
    assert_eq!(existing.duration_minutes, 60);
    assert_eq!(existing.materials.get("Glue"), Some(&"1".to_string()));
    assert_eq!(existing.materials.len(), 1);
    assert_eq!(candidate.duration_minutes, 90);
    assert_eq!(candidate.materials.get("Paint"), Some(&"2".to_string()));
    assert_eq!(candidate.materials.len(), 1);
}

#[test]
fn duration_change_as_text() {
    assert_eq!(describe_duration(60, 90), "60m -> 90m");
    assert_eq!(describe_duration(-5, 0), "-5m -> 0m");
    assert_eq!(describe_duration(i64::MIN, i64::MAX), "-9223372036854775808m -> 9223372036854775807m");
}
