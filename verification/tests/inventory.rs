use production_schedule::inventory::{evaluate, Amount, Inventory, InventoryItem, Leftover};
use production_schedule::materials::Materials;

fn item(name: &str, quantity: f64, unit: &str) -> InventoryItem {
    InventoryItem {
        name: name.to_string(),
        quantity: Amount { bits: quantity.to_bits() },
        unit: unit.to_string(),
    }
}

fn stock() -> Inventory {
    Inventory::from_items(vec![item("Wood", 10.0, "kg"), item("Glue", 2.5, "l"), item("Nails", 100.0, "")])
}

fn shown(leftover: &Leftover) -> String {
    match leftover {
        Leftover::NotInInventory => "Not in Inventory".to_string(),
        Leftover::ParseError => "Parse Error".to_string(),
        Leftover::UnitMismatch => "Unit Mismatch".to_string(),
        Leftover::Remaining { available, required, unit } => {
            let needed: f64 = required.parse().unwrap_or(0.0);
            format!("{:.2} {}", f64::from_bits(available.bits) - needed, unit)
        }
    }
}

#[test]
fn leftover_in_matching_unit() {
    let stock = Inventory::from_items(vec![item("Wood", 10.0, "kg")]);
    let leftover = evaluate("Wood", "3 kg", &stock);
    match &leftover {
        Leftover::Remaining { available, required, unit } => {
            assert_eq!(f64::from_bits(available.bits), 10.0);
            assert_eq!(required, "3");
            assert_eq!(unit, "kg");
        }
        _ => panic!("expected a leftover"),
    }
    assert_eq!(shown(&leftover), "7.00 kg");
}

#[test]
fn unit_mismatch() {
    let stock = Inventory::from_items(vec![item("Wood", 10.0, "kg")]);
    assert!(matches!(evaluate("Wood", "3 lb", &stock), Leftover::UnitMismatch));
    assert!(matches!(evaluate("Wood", "3 Kg", &stock), Leftover::UnitMismatch));
    assert!(matches!(evaluate("Wood", "3", &stock), Leftover::UnitMismatch));
}

#[test]
fn not_in_inventory_comes_first() {
    let stock = stock();
    assert!(matches!(evaluate("Steel", "3 kg", &stock), Leftover::NotInInventory));
    assert!(matches!(evaluate("Steel", "no number", &stock), Leftover::NotInInventory));
    assert!(matches!(evaluate("wood", "3 kg", &stock), Leftover::NotInInventory));
}

#[test]
fn parse_error_before_units() {
    let stock = stock();
    assert!(matches!(evaluate("Wood", "three kg", &stock), Leftover::ParseError));
    assert!(matches!(evaluate("Wood", "", &stock), Leftover::ParseError));
}

#[test]
fn leftover_may_be_negative_and_unitless() {
    let stock = stock();
    assert_eq!(shown(&evaluate("Glue", "4 l", &stock)), "-1.50 l");
    assert_eq!(shown(&evaluate("Nails", "1e1", &stock)), "90.00 ");
    assert_eq!(shown(&evaluate("Glue", ".5   l ", &stock)), "2.00 l");
}

#[test]
fn evaluate_twice_gives_the_same() {
    let stock = stock();
    let first = shown(&evaluate("Wood", "2.5 kg", &stock));
    let second = shown(&evaluate("Wood", "2.5 kg", &stock));
    assert_eq!(first, second);
    assert_eq!(first, "7.50 kg");
}

#[test]
fn find_takes_the_first_of_a_name() {
    let stock = Inventory::from_items(vec![item("Wood", 1.0, "kg"), item("Wood", 2.0, "t")]);
    let found = stock.find("Wood").expect("Wood is in stock");
    assert_eq!(found.unit, "kg");
    assert!(stock.find("Iron").is_none());
    assert!(stock.contains("Wood"));
    assert!(!stock.contains("wood"));
}

#[test]
fn presence_ignores_units_and_texts() {
    let stock = Inventory::from_items(vec![item("Wood", 10.0, "kg")]);
    let mut materials = Materials::new();
    assert!(stock.all_present(&materials));
    materials.insert("Wood".to_string(), "5 kg".to_string());
    assert!(stock.all_present(&materials));
    materials.insert("Wood".to_string(), "5 lb".to_string());
    assert!(stock.all_present(&materials));
    materials.insert("Wood".to_string(), "plenty".to_string());
    assert!(stock.all_present(&materials));
    materials.insert("Paint".to_string(), "1 l".to_string());
    assert!(!stock.all_present(&materials));
    assert!(!Inventory::new().all_present(&materials));
}
