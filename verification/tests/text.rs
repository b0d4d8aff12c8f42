use progressbox_agent::order::{no_later, sort_by_name};
use progressbox_agent::text::{
    decimal, is_white_space, parse_u64, same_text, signed_decimal, trim, trim_leading,
};
use progressbox_agent::types::to_signed;

#[test]
fn white_space_is_that_of_unicode() {
    for p in 0..=0x10ffffu32 {
        if let Some(c) = char::from_u32(p) {
            assert_eq!(is_white_space(c), c.is_whitespace(), "code point {:x}", p);
        }
    }
}

#[test]
fn trims_both_ends() {
    for text in ["  a b \n", "", "   ", "a", "\u{3000}é\u{a0}", "\ta", "a\t", " \u{feff} "] {
        assert_eq!(trim(text), text.trim());
    }
    assert_eq!(trim("  a b \n"), "a b");
}

#[test]
fn trims_leading_copies() {
    assert_eq!(trim_leading("//mosquitto/1", '/'), "mosquitto/1");
    assert_eq!(trim_leading("mosquitto", '/'), "mosquitto");
    assert_eq!(trim_leading("///", '/'), "");
    assert_eq!(trim_leading("", '/'), "");
}

#[test]
fn compares_texts() {
    assert!(same_text("abc", "abc"));
    assert!(same_text("", ""));
    assert!(!same_text("abc", "abd"));
    assert!(!same_text("abc", "ab"));
}

#[test]
fn reads_numbers_like_the_standard_library() {
    let texts = [
        "0", "7", "007", "+5", "++5", "+", "-1", "", " 1", "1 ", "12a", "1.5",
        "18446744073709551615", "18446744073709551616", "184467440737095516150",
        "99999999999999999999", "+18446744073709551615", "٣", "1_000",
    ];
    for text in texts {
        assert_eq!(parse_u64(text), text.parse::<u64>().ok(), "{:?}", text);
    }
}

#[test]
fn writes_numbers() {
    for n in [0u64, 9, 10, 99, 100, 1234567890, u64::MAX] {
        assert_eq!(decimal(n), n.to_string());
        assert_eq!(parse_u64(&decimal(n)), Some(n));
        assert_eq!(trim(&decimal(n)), decimal(n));
    }
    for n in [0i64, -1, 42, -1234567, i64::MAX, i64::MIN] {
        assert_eq!(signed_decimal(n), n.to_string());
    }
}

#[test]
fn casts_counts_to_signed_numbers() {
    assert_eq!(to_signed(0), 0);
    assert_eq!(to_signed(9223372036854775807), i64::MAX);
    assert_eq!(to_signed(9223372036854775808), i64::MIN);
    assert_eq!(to_signed(u64::MAX), -1);
}

#[test]
fn orders_names_like_the_standard_library() {
    let names = ["", "a", "ab", "b", "B", "é", "z", "\u{ffff}", "\u{10000}", "a-1", "a1", "broker-10", "broker-2"];
    for a in names {
        for b in names {
            assert_eq!(no_later(a, b), a <= b, "{:?} {:?}", a, b);
        }
    }
}

#[test]
fn sorts_by_name_and_keeps_every_item() {
    let items = vec![
        ("c".to_string(), 1),
        ("a".to_string(), 2),
        ("b".to_string(), 3),
        ("a".to_string(), 4),
        ("".to_string(), 5),
    ];
    let sorted = sort_by_name(items);
    let names: Vec<&str> = sorted.iter().map(|item| item.0.as_str()).collect();
    assert_eq!(names, vec!["", "a", "a", "b", "c"]);
    let mut values: Vec<i32> = sorted.iter().map(|item| item.1).collect();
    values.sort();
    assert_eq!(values, vec![1, 2, 3, 4, 5]);
    assert_eq!(sorted[3].1, 3);
}
