use production_schedule::order::{insert_ascending, str_less};
use production_schedule::text::{char_is_whitespace, i64_text, parse_i64, parse_u32, str_is_blank, trim};

#[test]
fn whitespace_is_what_std_says() {
    let mut code: u32 = 0;
    while code <= 0x10ffff {
        if let Some(c) = char::from_u32(code) {
            assert_eq!(char_is_whitespace(c), c.is_whitespace(), "U+{:04X}", code);
        }
        code += 1;
    }
}

#[test]
fn trim_is_what_std_says() {
    for text in ["", " ", "a", "  a b  ", "\t\nkg\u{3000}", "\u{a0}x\u{2003}y\u{85}", "no space", " \r\n "] {
        assert_eq!(trim(text), text.trim());
        assert_eq!(str_is_blank(text), text.trim().is_empty());
    }
}

#[test]
fn integers_are_read_as_std_reads_them() {
    for text in [
        "0", "7", "-7", "+7", "007", "-0", "+0", "", "-", "+", " 7", "7 ", "7a", "1.0", "--7", "+-7",
        "9223372036854775807", "9223372036854775808", "-9223372036854775808", "-9223372036854775809",
        "4294967295", "4294967296", "99999999999999999999999", "٣",
    ] {
        assert_eq!(parse_i64(text), text.parse::<i64>().ok(), "{:?}", text);
        assert_eq!(parse_u32(text), text.parse::<u32>().ok(), "{:?}", text);
    }
}

#[test]
fn integers_are_written_as_std_writes_them() {
    for n in [0i64, 1, 9, 10, 11, 60, 99, 100, 12345, -1, -9, -10, -12345, i64::MAX, i64::MIN, i64::MIN + 1] {
        assert_eq!(i64_text(n), n.to_string());
    }
    assert_eq!(i64_text(-90), "-90");
}

#[test]
fn dictionary_order_is_the_order_of_str() {
    let texts = ["", "a", "A", "ab", "abc", "b", "B", "é", "z", "\u{10000}", "a\u{0}", "Glue", "Paint", "Wood"];
    for a in texts {
        for b in texts {
            assert_eq!(str_less(a, b), a < b, "{:?} {:?}", a, b);
        }
    }
}

#[test]
fn ascending_list_takes_each_text_once() {
    let mut list: Vec<String> = Vec::new();
    for text in ["pear", "apple", "fig", "apple", "", "zebra", "fig", "Apple"] {
        insert_ascending(&mut list, text.to_string());
    }
    assert_eq!(list, vec!["", "Apple", "apple", "fig", "pear", "zebra"]);
}
