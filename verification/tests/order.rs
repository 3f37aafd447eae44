use unit_designator::dictionary;
use unit_designator::matcher::compile;
use unit_designator::order::{normalize, same_bytes, searched_before, ConfigError};
use unit_designator::table::{LabelEntry, LabelTable};
use unit_designator::unit::Unit;

fn table_of(entries: &[(&str, Unit)]) -> LabelTable {
    let mut table = LabelTable::new();
    for (label, unit) in entries {
        assert!(table.add(label, *unit));
    }
    table
}

fn labels_of(table: &LabelTable) -> Vec<Vec<u8>> {
    let ordered = normalize(table).unwrap();
    (0..ordered.len()).map(|i| ordered.get(i).unwrap().label().to_vec()).collect()
}

#[test]
fn longer_labels_come_first() {
    let table = table_of(&[
        ("m", Unit::Minute),
        ("mo", Unit::Month),
        ("months", Unit::Month),
        ("min", Unit::Minute),
    ]);
    let expected: Vec<Vec<u8>> =
        vec![b"months".to_vec(), b"min".to_vec(), b"mo".to_vec(), b"m".to_vec()];
    assert_eq!(labels_of(&table), expected);
}

#[test]
fn equal_lengths_are_in_descending_byte_order() {
    let table = table_of(&[
        ("mo", Unit::Month),
        ("yr", Unit::Year),
        ("ms", Unit::Millisecond),
        ("µ", Unit::Microsecond),
        ("hr", Unit::Hour),
    ]);
    let expected: Vec<Vec<u8>> = vec![
        vec![0xc2, 0xb5],
        b"yr".to_vec(),
        b"ms".to_vec(),
        b"mo".to_vec(),
        b"hr".to_vec(),
    ];
    assert_eq!(labels_of(&table), expected);
}

#[test]
fn standard_dictionary_is_sorted_as_by_length_and_bytes() {
    let table = dictionary::table();
    let mut expected: Vec<Vec<u8>> =
        (0..table.len()).map(|i| table.get(i).unwrap().label().to_vec()).collect();
    expected.sort_by(|a, b| (a.len(), a).cmp(&(b.len(), b)).reverse());
    assert_eq!(labels_of(&table), expected);
    assert_eq!(expected[0], b"milliseconds".to_vec());
    assert_eq!(expected[55], b"d".to_vec());
}

#[test]
fn order_keeps_every_entry_with_its_unit() {
    let table = dictionary::table();
    let ordered = normalize(&table).unwrap();
    assert_eq!(ordered.len(), table.len());
    for i in 0..table.len() {
        let entry = table.get(i).unwrap();
        let places = (0..ordered.len())
            .filter(|&k| {
                let other = ordered.get(k).unwrap();
                other.label() == entry.label() && other.unit() == entry.unit()
            })
            .count();
        assert_eq!(places, 1);
    }
    assert!(ordered.get(ordered.len()).is_none());
}

#[test]
fn prefix_comes_after_every_label_that_extends_it() {
    let ordered = normalize(&dictionary::table()).unwrap();
    for i in 0..ordered.len() {
        for j in 0..ordered.len() {
            let a = ordered.get(i).unwrap().label();
            let b = ordered.get(j).unwrap().label();
            if a.len() < b.len() && b.starts_with(a) {
                assert!(j < i);
            }
        }
    }
}

#[test]
fn repeated_label_is_a_configuration_error() {
    let table = table_of(&[("mo", Unit::Month), ("m", Unit::Minute), ("mo", Unit::Month)]);
    assert_eq!(
        normalize(&table).unwrap_err(),
        ConfigError::DuplicateLabel { label: b"mo".to_vec() }
    );
    assert_eq!(
        compile(&table).unwrap_err(),
        ConfigError::DuplicateLabel { label: b"mo".to_vec() }
    );
}

#[test]
fn repeated_label_with_another_unit_is_an_error_too() {
    let table = table_of(&[("m", Unit::Minute), ("mo", Unit::Month), ("m", Unit::Month)]);
    assert_eq!(
        normalize(&table).unwrap_err(),
        ConfigError::DuplicateLabel { label: b"m".to_vec() }
    );
}

#[test]
fn first_repeated_label_is_reported() {
    let table = table_of(&[
        ("s", Unit::Second),
        ("ms", Unit::Millisecond),
        ("us", Unit::Microsecond),
        ("ms", Unit::Millisecond),
        ("s", Unit::Second),
        ("us", Unit::Microsecond),
    ]);
    assert_eq!(
        normalize(&table).unwrap_err(),
        ConfigError::DuplicateLabel { label: b"ms".to_vec() }
    );
}

#[test]
fn many_labels_for_one_unit_are_no_error() {
    let table = table_of(&[("y", Unit::Year), ("yr", Unit::Year), ("yrs", Unit::Year)]);
    assert!(normalize(&table).is_ok());
}

#[test]
fn empty_table_is_in_order() {
    let ordered = normalize(&LabelTable::new()).unwrap();
    assert_eq!(ordered.len(), 0);
    assert!(ordered.get(0).is_none());
}

#[test]
fn search_order_compares_length_then_bytes() {
    assert!(searched_before(b"mo", b"m"));
    assert!(!searched_before(b"m", b"mo"));
    assert!(searched_before(b"ms", b"mo"));
    assert!(!searched_before(b"mo", b"ms"));
    assert!(searched_before(b"aa", b"z"));
    assert!(!searched_before(b"z", b"aa"));
    assert!(searched_before(&[0xc2, 0xb5], b"zz"));
    assert!(!searched_before(b"mo", b"mo"));
    assert!(!searched_before(b"", b""));
    assert!(searched_before(b"a", b""));
    assert!(searched_before(b"abd", b"abc"));
    assert!(!searched_before(b"abc", b"abd"));
}

#[test]
fn same_bytes_is_byte_equality() {
    assert!(same_bytes(b"mo", b"mo"));
    assert!(same_bytes(b"", b""));
    assert!(!same_bytes(b"mo", b"ms"));
    assert!(!same_bytes(b"mo", b"m"));
    assert!(!same_bytes(b"m", b"mo"));
    assert!(!same_bytes(b"mo", b"Mo"));
}

#[test]
fn empty_label_is_no_entry() {
    assert!(LabelEntry::new(Vec::new(), Unit::Day).is_none());
    assert!(LabelEntry::from_text("", Unit::Day).is_none());
    let mut table = LabelTable::new();
    assert!(!table.add("", Unit::Day));
    assert_eq!(table.len(), 0);
    assert!(table.add("d", Unit::Day));
    assert_eq!(table.len(), 1);
}

#[test]
fn entry_keeps_label_bytes_and_unit() {
    let entry = LabelEntry::from_text("µs", Unit::Microsecond).unwrap();
    assert_eq!(entry.label(), &[0xc2, 0xb5, b's'][..]);
    assert_eq!(entry.unit(), Unit::Microsecond);
    let raw = LabelEntry::new(vec![b'h', b'r'], Unit::Hour).unwrap();
    assert_eq!(raw.label(), b"hr");
    assert_eq!(raw.unit(), Unit::Hour);
    let copy = raw.duplicate();
    assert_eq!(copy.label(), b"hr");
    assert_eq!(copy.unit(), Unit::Hour);
}

#[test]
fn standard_dictionary_lists_its_labels_by_unit() {
    let table = dictionary::table();
    assert_eq!(table.len(), 56);
    let first = table.get(0).unwrap();
    assert_eq!((first.label(), first.unit()), (&b"years"[..], Unit::Year));
    let micro = table.get(48).unwrap();
    assert_eq!((micro.label(), micro.unit()), ("µs".as_bytes(), Unit::Microsecond));
    let last = table.get(55).unwrap();
    assert_eq!((last.label(), last.unit()), (&b"ns"[..], Unit::Nanosecond));
    assert!(table.get(56).is_none());
}
