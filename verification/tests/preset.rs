use production_schedule::assistant::{remove_all, strip_code_fences, suggestion_prompt, suggestion_url};
use production_schedule::inventory::{quantity_field, Amount, Inventory, InventoryItem};
use production_schedule::materials::Materials;
use production_schedule::preset::{free_row_name, PresetStore, TaskPreset};
use production_schedule::text::chars_contain;
use production_schedule::preset::{names_passing, texts_contain};

fn materials(pairs: &[(&str, &str)]) -> Materials {
    let mut m = Materials::new();
    for (name, quantity) in pairs {
        m.insert(name.to_string(), quantity.to_string());
    }
    m
}

fn pairs(m: &Materials) -> Vec<(String, String)> {
    let mut v = Vec::new();
    for i in 0..m.len() {
        v.push((m.name_at(i).clone(), m.quantity_at(i).clone()));
    }
    v
}

fn owned(pairs: &[(&str, &str)]) -> Vec<(String, String)> {
    pairs.iter().map(|(a, b)| (a.to_string(), b.to_string())).collect()
}

fn store() -> PresetStore {
    let mut presets = PresetStore::new();
    presets.upsert("Saw planks".to_string(), TaskPreset { duration_minutes: 60, materials: materials(&[("Wood", "3 kg")]) });
    presets.upsert("glue up".to_string(), TaskPreset { duration_minutes: 20, materials: materials(&[("Glue", "1"), ("Clamps", "4")]) });
    presets.upsert("Sweep".to_string(), TaskPreset { duration_minutes: 5, materials: Materials::new() });
    presets
}

#[test]
fn materials_keep_each_name_once_in_order_of_entry() {
    let mut m = Materials::new();
    assert_eq!(m.insert("Wood".to_string(), "1".to_string()), None);
    assert_eq!(m.insert("Glue".to_string(), "2".to_string()), None);
    assert_eq!(m.insert("Wood".to_string(), "3".to_string()), Some("1".to_string()));
    assert_eq!(pairs(&m), owned(&[("Wood", "3"), ("Glue", "2")]));
    assert_eq!(m.get("Wood"), Some(&"3".to_string()));
    assert_eq!(m.get("wood"), None);
    assert!(m.contains_key("Glue"));
    assert_eq!(m.position("Glue"), Some(1));
    assert_eq!(m.remove("Wood"), Some("3".to_string()));
    assert_eq!(m.remove("Wood"), None);
    assert_eq!(pairs(&m), owned(&[("Glue", "2")]));
    let copy = m.clone();
    m.insert("Nails".to_string(), "9".to_string());
    assert_eq!(pairs(&copy), owned(&[("Glue", "2")]));
    assert_eq!(m.names_ascending(), vec!["Glue", "Nails"]);
}

#[test]
fn store_get_upsert_delete() {
    let mut presets = store();
    assert_eq!(presets.len(), 3);
    assert!(presets.contains_key("Sweep"));
    assert!(presets.get("sweep").is_none());
    assert_eq!(presets.get("glue up").expect("stored").duration_minutes, 20);
    presets.upsert("glue up".to_string(), TaskPreset { duration_minutes: 25, materials: Materials::new() });
    assert_eq!(presets.len(), 3);
    assert_eq!(presets.name_at(1), "glue up");
    assert_eq!(presets.preset_at(1).duration_minutes, 25);
    assert_eq!(presets.get("glue up").expect("stored").materials.len(), 0);
    assert_eq!(presets.get("Saw planks").expect("kept").duration_minutes, 60);
    assert!(presets.delete("Saw planks"));
    assert!(!presets.delete("Saw planks"));
    assert_eq!(presets.len(), 2);
    assert!(presets.get("Saw planks").is_none());
    assert_eq!(presets.name_at(0), "glue up");
}

#[test]
fn duration_is_set_from_an_integer_only() {
    let mut presets = store();
    assert!(presets.set_duration("Sweep", "15"));
    assert_eq!(presets.get("Sweep").expect("stored").duration_minutes, 15);
    assert!(!presets.set_duration("Sweep", "1.5"));
    assert!(!presets.set_duration("Sweep", ""));
    assert!(!presets.set_duration("Mop", "15"));
    assert_eq!(presets.get("Sweep").expect("stored").duration_minutes, 15);
    assert!(presets.set_duration("Sweep", "-3"));
    assert_eq!(presets.get("Sweep").expect("stored").duration_minutes, -3);
    assert_eq!(presets.len(), 3);
}

#[test]
fn new_rows_get_the_first_free_name() {
    let mut presets = store();
    assert!(presets.add_material("Sweep"));
    assert!(presets.add_material("Sweep"));
    assert!(presets.add_material("Sweep"));
    assert!(!presets.add_material("Mop"));
    assert_eq!(
        pairs(&presets.get("Sweep").expect("stored").materials),
        owned(&[("New Material", "0"), ("New Material 1", "0"), ("New Material 2", "0")])
    );
    assert!(presets.delete_material("Sweep", "New Material 1"));
    assert!(presets.set_material("Sweep", "New Material 10".to_string(), "7".to_string()));
    assert!(presets.add_material("Sweep"));
    assert_eq!(
        pairs(&presets.get("Sweep").expect("stored").materials),
        owned(&[("New Material", "0"), ("New Material 2", "0"), ("New Material 10", "7"), ("New Material 1", "0")])
    );
    assert_eq!(free_row_name(&materials(&[])), "New Material");
    assert_eq!(free_row_name(&materials(&[("New Material 1", "0")])), "New Material");
    assert_eq!(free_row_name(&materials(&[("New Material", "0"), ("New Material 1", "0")])), "New Material 2");
}

#[test]
fn preset_materials_are_edited_in_place() {
    let mut presets = store();
    assert!(presets.set_material("glue up", "Glue".to_string(), "2".to_string()));
    assert!(!presets.set_material("Mop", "Glue".to_string(), "2".to_string()));
    assert!(!presets.rename_material("glue up", "Glue", "Clamps".to_string()));
    assert!(!presets.rename_material("glue up", "Paint", "Varnish".to_string()));
    assert!(!presets.rename_material("Mop", "Glue", "Paste".to_string()));
    assert!(presets.rename_material("glue up", "Glue", "Paste".to_string()));
    assert_eq!(pairs(&presets.get("glue up").expect("stored").materials), owned(&[("Clamps", "4"), ("Paste", "2")]));
    assert!(presets.delete_material("glue up", "Clamps"));
    assert!(presets.delete_material("glue up", "Clamps"));
    assert!(!presets.delete_material("Mop", "Clamps"));
    assert_eq!(pairs(&presets.get("glue up").expect("stored").materials), owned(&[("Paste", "2")]));
    assert_eq!(presets.get("glue up").expect("stored").duration_minutes, 20);
    assert_eq!(presets.name_at(1), "glue up");
}

#[test]
fn filters_look_in_lower_case() {
    let presets = store();
    assert_eq!(presets.visible_names("", ""), vec!["Saw planks", "Sweep", "glue up"]);
    assert_eq!(presets.visible_names("S", ""), vec!["Saw planks", "Sweep"]);
    assert_eq!(presets.visible_names("UP", ""), vec!["glue up"]);
    assert_eq!(presets.visible_names("", "w"), vec!["Saw planks"]);
    assert_eq!(presets.visible_names("", "L"), vec!["glue up"]);
    assert_eq!(presets.visible_names("s", "l"), Vec::<String>::new());
    assert_eq!(presets.visible_names("", "x"), Vec::<String>::new());
}

#[test]
fn contains_is_what_std_says() {
    let texts = ["", "a", "ab", "aab", "aaab", "abcabd", "abd", "b", "ba", "glue up", "up", "é", "aé"];
    for hay in texts {
        for needle in texts {
            let h: Vec<char> = hay.chars().collect();
            let n: Vec<char> = needle.chars().collect();
            assert_eq!(chars_contain(&h, &n), hay.contains(needle), "{:?} {:?}", hay, needle);
        }
    }
}

#[test]
fn quantity_field_splits_where_the_stock_knows_the_unit() {
    let stock = Inventory::from_items(vec![InventoryItem {
        name: "Wood".to_string(),
        quantity: Amount { bits: 10.0f64.to_bits() },
        unit: "kg".to_string(),
    }]);
    let field = quantity_field("Wood", "3.5 lb", &stock);
    assert_eq!(field.text, "3.5");
    assert_eq!(field.unit.as_deref(), Some("kg"));
    let field = quantity_field("Wood", "some", &stock);
    assert_eq!(field.text, "");
    assert_eq!(field.unit.as_deref(), Some("kg"));
    let field = quantity_field("Glue", "3.5 lb", &stock);
    assert_eq!(field.text, "3.5 lb");
    assert_eq!(field.unit, None);
}

#[test]
fn removing_is_what_replace_with_nothing_does() {
    let texts = ["", "`", "``", "```", "````", "``````", "```json", "```json{\"a\":1}```", "a```b```json```c", "``` ```json", "`````json", "x"];
    let patterns = ["```json", "```", "", "`", "``", "ab"];
    for text in texts {
        for pattern in patterns {
            assert_eq!(remove_all(text, pattern), if pattern.is_empty() { text.to_string() } else { text.replace(pattern, "") });
        }
        assert_eq!(strip_code_fences(text), text.replace("```json", "").replace("```", ""));
    }
    assert_eq!(strip_code_fences("```json\n{\"reason\": \"free\"}\n```"), "\n{\"reason\": \"free\"}\n");
}

#[test]
fn prompt_and_address() {
    let prompt = suggestion_prompt("[]", "paint the fence");
    assert_eq!(
        prompt,
        format!(
            "You are a scheduling assistant. Here are existing tasks: {}. 
        User wants to schedule: '{}'. 
        Suggest a start time (ISO 8601 format) that does not overlap and a brief reason. 
        Return ONLY valid JSON format: {{ \"suggested_start_time\": \"...\", \"reason\": \"...\" }}",
            "[]", "paint the fence"
        )
    );
    assert_eq!(
        suggestion_url("k1"),
        "https://generativelanguage.googleapis.com/v1beta/models/gemini-1.5-flash:generateContent?key=k1"
    );
}

fn seen(name: &str, materials: &[&str]) -> production_schedule::preset::LoweredPreset {
    production_schedule::preset::LoweredPreset {
        name: name.to_string(),
        lowered_name: name.to_lowercase(),
        lowered_materials: materials.iter().map(|m| m.to_lowercase()).collect(),
    }
}

#[test]
fn names_passing_compares_lowered_texts_as_they_stand() {
    let entries = vec![
        seen("cut-fine", &["Wood", "Oil"]),
        seen("Sanding", &["Paper"]),
        seen("Cutting", &["Plywood"]),
        seen("Cut steel", &["Steel"]),
        seen("Sweep", &[]),
    ];
    assert_eq!(names_passing(&entries, "cut", "wood"), vec!["Cutting", "cut-fine"]);
    assert_eq!(names_passing(&entries, "cut", ""), vec!["Cut steel", "Cutting", "cut-fine"]);
    assert_eq!(names_passing(&entries, "", ""), vec!["Cut steel", "Cutting", "Sanding", "Sweep", "cut-fine"]);
    assert_eq!(names_passing(&entries, "", "p"), vec!["Cutting", "Sanding"]);
    assert_eq!(names_passing(&entries, "sweep", "a"), Vec::<String>::new());
    assert_eq!(names_passing(&entries, "CUT", ""), Vec::<String>::new());
    assert_eq!(names_passing(&entries, "cut", "WOOD"), Vec::<String>::new());
    assert_eq!(names_passing(&Vec::new(), "", ""), Vec::<String>::new());
}

#[test]
fn filters_are_lowered_before_they_are_compared() {
    let mut presets = PresetStore::new();
    presets.upsert("cut-fine".to_string(), TaskPreset { duration_minutes: 1, materials: materials(&[("Wood", "1"), ("Oil", "1")]) });
    presets.upsert("Sanding".to_string(), TaskPreset { duration_minutes: 1, materials: materials(&[("Paper", "1")]) });
    presets.upsert("Cutting".to_string(), TaskPreset { duration_minutes: 1, materials: materials(&[("Plywood", "1")]) });
    assert_eq!(presets.visible_names("CUT", "WOOD"), vec!["Cutting", "cut-fine"]);
    let seen = presets.lowered();
    assert_eq!(seen.len(), 3);
    assert_eq!(seen[0].name, "cut-fine");
    assert_eq!(seen[0].lowered_name, "cut-fine");
    assert_eq!(seen[0].lowered_materials, vec!["wood", "oil"]);
    assert_eq!(seen[2].name, "Cutting");
    assert_eq!(seen[2].lowered_name, "cutting");
    assert_eq!(seen[2].lowered_materials, vec!["plywood"]);
}

#[test]
fn some_text_holds_the_filter() {
    let texts = vec!["wood".to_string(), "oil".to_string()];
    assert!(texts_contain(&texts, "oo"));
    assert!(texts_contain(&texts, "oil"));
    assert!(texts_contain(&texts, ""));
    assert!(!texts_contain(&texts, "oils"));
    assert!(!texts_contain(&texts, "W"));
    assert!(!texts_contain(&Vec::new(), ""));
}
