use production_schedule::quantity::parse_quantity;

fn parts(text: &str) -> Option<(String, String)> {
    parse_quantity(text).map(|q| (q.number, q.unit))
}

fn some(number: &str, unit: &str) -> Option<(String, String)> {
    Some((number.to_string(), unit.to_string()))
}

#[test]
fn number_and_unit() {
    assert_eq!(parts("250 g"), some("250", "g"));
    assert_eq!(parts("3.5"), some("3.5", ""));
    assert_eq!(parts("-2e1 kg"), some("-2e1", "kg"));
}

#[test]
fn no_number_at_the_start() {
    assert_eq!(parts(""), None);
    assert_eq!(parts("kg"), None);
    assert_eq!(parts(" 3 kg"), None);
    assert_eq!(parts("."), None);
    assert_eq!(parts("+"), None);
    assert_eq!(parts("e5"), None);
    assert_eq!(parts("-.e3"), None);
}

#[test]
fn point_forms() {
    assert_eq!(parts("5."), some("5.", ""));
    assert_eq!(parts(".5 l"), some(".5", "l"));
    assert_eq!(parts("3.5.2 kg"), some("3.5", ".2 kg"));
}

#[test]
fn exponent_needs_digits() {
    assert_eq!(parts("3e kg"), some("3", "e kg"));
    assert_eq!(parts("3e+ kg"), some("3", "e+ kg"));
    assert_eq!(parts("3E-2kg"), some("3E-2", "kg"));
    assert_eq!(parts("1e5e5"), some("1e5", "e5"));
}

#[test]
fn unit_is_trimmed_and_kept_verbatim() {
    assert_eq!(parts("3 \t kg  "), some("3", "kg"));
    assert_eq!(parts("3kg per box "), some("3", "kg per box"));
    assert_eq!(parts("3\u{a0}Kg\u{3000}"), some("3", "Kg"));
}

#[test]
fn unit_survives_redisplay_with_two_decimals() {
    for text in ["3 kg", "2.5l", "-2e1 kg", ".5 m per s", "7", "1e-3  µg ", "+4.125\tboxes of 12", "0 3"] {
        let (number, unit) = parts(text).expect("a quantity");
        let magnitude: f64 = number.parse().expect("a number");
        let shown = format!("{:.2} {}", magnitude, unit);
        let (_, unit_again) = parts(&shown).expect("still a quantity");
        assert_eq!(unit_again, unit, "{:?} shown as {:?}", text, shown);
        assert_eq!(unit, unit.trim());
    }
    assert_eq!(parts("3 kg"), some("3", "kg"));
    assert_eq!(parts("3.00 kg"), some("3.00", "kg"));
}

#[test]
fn every_number_is_read_by_the_float_parser() {
    for text in ["5.", ".5", "+.5e-3", "-0", "1e999", "00012.5000E+0003", "3.5.2", "1e5e5"] {
        let (number, _) = parts(text).expect("a quantity");
        assert!(number.parse::<f64>().is_ok(), "{:?}", number);
    }
}
