use scm_fleet::table::Table;
use scm_fleet::text::{decimal_string, has_prefix, has_suffix, push_decimal, trimmed_start};

fn filled() -> Table<u32> {
    let mut t = Table::new();
    t.insert("a".to_string(), 1);
    t.insert("b".to_string(), 2);
    t.insert("c".to_string(), 3);
    t
}

fn entries(t: &Table<u32>) -> Vec<(String, u32)> {
    (0..t.len()).map(|i| (t.key_at(i).clone(), *t.value_at(i))).collect()
}

#[test]
fn insert_keeps_first_appearance_order() {
    let mut t = filled();
    t.insert("b".to_string(), 20);
    assert_eq!(
        entries(&t),
        vec![("a".to_string(), 1), ("b".to_string(), 20), ("c".to_string(), 3)]
    );
    assert_eq!(t.get(&"b".to_string()), Some(&20));
    assert_eq!(t.get(&"z".to_string()), None);
    assert!(t.contains(&"c".to_string()));
    assert!(!t.contains(&"".to_string()));
    assert_eq!(t.position(&"c".to_string()), Some(2));
    assert_eq!(t.position(&"z".to_string()), None);
}

#[test]
fn remove_closes_the_gap() {
    let mut t = filled();
    assert_eq!(t.remove(&"a".to_string()), Some(1));
    assert_eq!(t.remove(&"a".to_string()), None);
    assert_eq!(entries(&t), vec![("b".to_string(), 2), ("c".to_string(), 3)]);
    assert_eq!(t.remove_at(1), 3);
    assert_eq!(entries(&t), vec![("b".to_string(), 2)]);
}

#[test]
fn values_are_replaced_in_place() {
    let mut t = filled();
    t.set_value_at(0, 10);
    assert_eq!(t.swap_value_at(2, 30), 3);
    assert_eq!(
        entries(&t),
        vec![("a".to_string(), 10), ("b".to_string(), 2), ("c".to_string(), 30)]
    );
}

#[test]
fn retain_reads_flags_by_position() {
    let mut t = filled();
    t.insert("d".to_string(), 4);
    t.retain(&vec![false, true, false, true]);
    assert_eq!(entries(&t), vec![("b".to_string(), 2), ("d".to_string(), 4)]);
    t.retain(&vec![true, true]);
    assert_eq!(t.len(), 2);
    t.retain(&vec![false, false]);
    assert_eq!(t.len(), 0);
    t.retain(&Vec::new());
    assert_eq!(t.len(), 0);
}

#[test]
fn decimal_rendering() {
    assert_eq!(decimal_string(0), "0");
    assert_eq!(decimal_string(7), "7");
    assert_eq!(decimal_string(10), "10");
    assert_eq!(decimal_string(255), "255");
    assert_eq!(decimal_string(1_234_567_890), "1234567890");
    assert_eq!(decimal_string(u64::MAX), "18446744073709551615");
    let mut s = "port ".to_string();
    push_decimal(&mut s, 8000);
    assert_eq!(s, "port 8000");
}

#[test]
fn prefixes_suffixes_and_trimming() {
    assert!(has_prefix("uploaded.x", "uploaded."));
    assert!(!has_prefix("upload", "uploaded."));
    assert!(has_prefix("abc", ""));
    assert!(has_prefix("", ""));
    assert!(!has_prefix("", "a"));
    assert!(has_suffix("x.json", ".json"));
    assert!(!has_suffix("x.jsonl", ".json"));
    assert!(has_suffix("\u{e9}.json", ".json"));
    assert!(!has_suffix("son", ".json"));
    assert_eq!(trimmed_start("///a/b", '/'), "a/b");
    assert_eq!(trimmed_start("a/b", '/'), "a/b");
    assert_eq!(trimmed_start("///", '/'), "");
    assert_eq!(trimmed_start("", '/'), "");
    assert_eq!(trimmed_start("\u{e9}\u{e9}x", '\u{e9}'), "x");
}
