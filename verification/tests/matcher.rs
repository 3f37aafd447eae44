use unit_designator::dictionary;
use unit_designator::matcher::{compile, starts_with, DecisionProcedure, MatchResult};
use unit_designator::table::{LabelEntry, LabelTable};
use unit_designator::unit::Unit;

fn standard() -> DecisionProcedure {
    dictionary::procedure()
}

fn hit(unit: Unit, consumed: usize) -> Option<MatchResult> {
    Some(MatchResult { unit, consumed })
}

fn standard_entries() -> Vec<(Vec<u8>, Unit)> {
    let table = dictionary::table();
    let mut entries = Vec::new();
    for i in 0..table.len() {
        let entry = table.get(i).unwrap();
        entries.push((entry.label().to_vec(), entry.unit()));
    }
    entries
}

#[test]
fn finds_years() {
    assert_eq!(standard().find(b"years"), hit(Unit::Year, 5));
}

#[test]
fn finds_single_letter_year() {
    assert_eq!(standard().find(b"y"), hit(Unit::Year, 1));
}

#[test]
fn finds_month_and_months_apart() {
    let procedure = standard();
    assert_eq!(procedure.find(b"month"), hit(Unit::Month, 5));
    assert_eq!(procedure.find(b"months"), hit(Unit::Month, 6));
}

#[test]
fn finds_short_and_long_milliseconds() {
    let procedure = standard();
    assert_eq!(procedure.find(b"ms"), hit(Unit::Millisecond, 2));
    assert_eq!(procedure.find(b"milliseconds"), hit(Unit::Millisecond, 12));
}

#[test]
fn counts_bytes_of_micro_sign() {
    let procedure = standard();
    assert_eq!("µs".len(), 3);
    assert_eq!(procedure.find("µs".as_bytes()), hit(Unit::Microsecond, 3));
    assert_eq!(procedure.find(&[0xc2, 0xb5, b's']), hit(Unit::Microsecond, 3));
    assert_eq!(procedure.find("µsecs".as_bytes()), hit(Unit::Microsecond, 6));
    assert_eq!(procedure.find("µsec".as_bytes()), hit(Unit::Microsecond, 5));
}

#[test]
fn finds_nothing_in_unknown_bytes() {
    assert_eq!(standard().find(b"xyz"), None);
}

#[test]
fn finds_nothing_in_empty_haystack() {
    assert_eq!(standard().find(b""), None);
}

#[test]
fn finds_nothing_in_half_a_micro_sign() {
    let procedure = standard();
    assert_eq!(procedure.find(&[0xc2]), None);
    assert_eq!(procedure.find(&[0xc2, 0xb5]), None);
    assert_eq!(procedure.find(&[0xb5, b's']), None);
}

#[test]
fn labels_are_case_sensitive() {
    let procedure = standard();
    assert_eq!(procedure.find(b"Years"), None);
    assert_eq!(procedure.find(b"MS"), None);
    assert_eq!(procedure.find(b"mS"), hit(Unit::Minute, 1));
}

#[test]
fn match_stops_where_the_label_ends() {
    let procedure = standard();
    assert_eq!(procedure.find(b"yrs 5mo"), hit(Unit::Year, 3));
    assert_eq!(procedure.find(b"5 yrs"), None);
    assert_eq!(procedure.find(b" yrs"), None);
    assert_eq!(procedure.find(b"hours, 3 minutes"), hit(Unit::Hour, 5));
}

#[test]
fn longest_label_wins_among_overlapping_ones() {
    let procedure = standard();
    assert_eq!(procedure.find(b"m"), hit(Unit::Minute, 1));
    assert_eq!(procedure.find(b"mi"), hit(Unit::Minute, 1));
    assert_eq!(procedure.find(b"min"), hit(Unit::Minute, 3));
    assert_eq!(procedure.find(b"mins"), hit(Unit::Minute, 4));
    assert_eq!(procedure.find(b"minu"), hit(Unit::Minute, 3));
    assert_eq!(procedure.find(b"minute"), hit(Unit::Minute, 6));
    assert_eq!(procedure.find(b"minutes"), hit(Unit::Minute, 7));
    assert_eq!(procedure.find(b"mo"), hit(Unit::Month, 2));
    assert_eq!(procedure.find(b"mos"), hit(Unit::Month, 3));
    assert_eq!(procedure.find(b"mont"), hit(Unit::Month, 2));
    assert_eq!(procedure.find(b"ms"), hit(Unit::Millisecond, 2));
    assert_eq!(procedure.find(b"msec"), hit(Unit::Millisecond, 4));
    assert_eq!(procedure.find(b"msecs"), hit(Unit::Millisecond, 5));
    assert_eq!(procedure.find(b"mil"), hit(Unit::Minute, 1));
    assert_eq!(procedure.find(b"milli"), hit(Unit::Millisecond, 5));
    assert_eq!(procedure.find(b"millis"), hit(Unit::Millisecond, 6));
    assert_eq!(procedure.find(b"millisec"), hit(Unit::Millisecond, 6));
    assert_eq!(procedure.find(b"millisecond"), hit(Unit::Millisecond, 11));
    assert_eq!(procedure.find(b"micro"), hit(Unit::Microsecond, 5));
    assert_eq!(procedure.find(b"micros"), hit(Unit::Microsecond, 6));
    assert_eq!(procedure.find(b"microsecondss"), hit(Unit::Microsecond, 12));
    assert_eq!(procedure.find(b"us"), hit(Unit::Microsecond, 2));
    assert_eq!(procedure.find(b"usec"), hit(Unit::Microsecond, 4));
    assert_eq!(procedure.find(b"nano"), hit(Unit::Nanosecond, 4));
    assert_eq!(procedure.find(b"ns"), hit(Unit::Nanosecond, 2));
    assert_eq!(procedure.find(b"n"), None);
    assert_eq!(procedure.find(b"u"), None);
}

#[test]
fn every_unit_has_its_designators() {
    let procedure = standard();
    assert_eq!(procedure.find(b"wk"), hit(Unit::Week, 2));
    assert_eq!(procedure.find(b"weeks"), hit(Unit::Week, 5));
    assert_eq!(procedure.find(b"d"), hit(Unit::Day, 1));
    assert_eq!(procedure.find(b"days"), hit(Unit::Day, 4));
    assert_eq!(procedure.find(b"hr"), hit(Unit::Hour, 2));
    assert_eq!(procedure.find(b"h"), hit(Unit::Hour, 1));
    assert_eq!(procedure.find(b"s"), hit(Unit::Second, 1));
    assert_eq!(procedure.find(b"secs"), hit(Unit::Second, 4));
    assert_eq!(procedure.find(b"seconds"), hit(Unit::Second, 7));
}

#[test]
fn every_standard_label_finds_itself() {
    let procedure = standard();
    let entries = standard_entries();
    assert_eq!(entries.len(), 56);
    for (label, unit) in &entries {
        assert_eq!(procedure.find(label), hit(*unit, label.len()));
    }
}

#[test]
fn longer_label_is_never_cut_to_its_prefix() {
    let procedure = standard();
    let entries = standard_entries();
    let mut pairs = 0;
    for (short, short_unit) in &entries {
        for (long, long_unit) in &entries {
            if long.len() > short.len() && long.starts_with(short) {
                pairs += 1;
                let found = procedure.find(long);
                assert_eq!(found, hit(*long_unit, long.len()));
                assert_ne!(found, hit(*short_unit, short.len()));
            }
        }
    }
    assert!(pairs > 40);
}

#[test]
fn repeated_calls_give_the_same_answer() {
    let procedure = standard();
    let again = standard();
    for haystack in [&b"millis"[..], b"yr", b"", b"xyz", "µsec".as_bytes()] {
        let first = procedure.find(haystack);
        assert_eq!(procedure.find(haystack), first);
        assert_eq!(procedure.find(haystack), first);
        assert_eq!(again.find(haystack), first);
    }
}

#[test]
fn match_is_never_empty_nor_longer_than_the_haystack() {
    let procedure = standard();
    let entries = standard_entries();
    for (label, _) in &entries {
        for cut in 0..=label.len() {
            let mut haystack = label[..cut].to_vec();
            for extra in [None, Some(b's'), Some(b' '), Some(0xc2)] {
                if let Some(byte) = extra {
                    haystack.push(byte);
                }
                if let Some(found) = procedure.find(&haystack) {
                    assert!(0 < found.consumed);
                    assert!(found.consumed <= haystack.len());
                    assert!(entries
                        .iter()
                        .any(|(l, u)| *u == found.unit && l[..] == haystack[..found.consumed]));
                }
            }
        }
    }
}

#[test]
fn answer_is_the_longest_matching_label() {
    let procedure = standard();
    let entries = standard_entries();
    let haystacks: Vec<Vec<u8>> = entries
        .iter()
        .flat_map(|(label, _)| {
            let mut with_tail = label.clone();
            with_tail.extend_from_slice(b"s1");
            vec![label.clone(), with_tail, label[..label.len() - 1].to_vec()]
        })
        .collect();
    for haystack in &haystacks {
        let best = entries
            .iter()
            .filter(|(label, _)| haystack.starts_with(label))
            .max_by_key(|(label, _)| label.len())
            .map(|(label, unit)| MatchResult { unit: *unit, consumed: label.len() });
        assert_eq!(procedure.find(haystack), best);
    }
}

#[test]
fn input_order_does_not_change_the_answers() {
    let entries = standard_entries();
    let mut reversed = LabelTable::new();
    for (label, unit) in entries.iter().rev() {
        reversed.push(LabelEntry::new(label.clone(), *unit).unwrap());
    }
    let mut rotated = LabelTable::new();
    for k in 0..entries.len() {
        let (label, unit) = &entries[(k * 17 + 5) % entries.len()];
        rotated.push(LabelEntry::new(label.clone(), *unit).unwrap());
    }
    let procedure = standard();
    let from_reversed = compile(&reversed).unwrap();
    let from_rotated = compile(&rotated).unwrap();
    assert_eq!(from_reversed.len(), 56);
    assert_eq!(from_rotated.len(), 56);
    for i in 0..procedure.len() {
        assert_eq!(from_reversed.branch(i), procedure.branch(i));
        assert_eq!(from_rotated.branch(i), procedure.branch(i));
    }
    for (label, _) in &entries {
        for cut in 0..=label.len() {
            let haystack = &label[..cut];
            assert_eq!(from_reversed.find(haystack), procedure.find(haystack));
            assert_eq!(from_rotated.find(haystack), procedure.find(haystack));
        }
    }
    assert_eq!(from_reversed.find(b"xyz"), None);
}

#[test]
fn procedure_of_empty_table_finds_nothing() {
    let procedure = compile(&LabelTable::new()).unwrap();
    assert_eq!(procedure.len(), 0);
    assert_eq!(procedure.branch(0), None);
    assert_eq!(procedure.find(b"years"), None);
    assert_eq!(procedure.find(b""), None);
}

#[test]
fn labels_need_not_be_text() {
    let mut table = LabelTable::new();
    table.push(LabelEntry::new(vec![0xff, 0x00], Unit::Day).unwrap());
    table.push(LabelEntry::new(vec![0xff], Unit::Hour).unwrap());
    let procedure = compile(&table).unwrap();
    assert_eq!(procedure.find(&[0xff, 0x00, 0x01]), hit(Unit::Day, 2));
    assert_eq!(procedure.find(&[0xff, 0x01]), hit(Unit::Hour, 1));
    assert_eq!(procedure.find(&[0x00, 0xff]), None);
}

#[test]
fn branches_are_the_labels_in_search_order() {
    let procedure = standard();
    assert_eq!(procedure.len(), 56);
    assert_eq!(procedure.branch(0), Some((&b"milliseconds"[..], Unit::Millisecond)));
    assert_eq!(procedure.branch(1), Some((&b"microseconds"[..], Unit::Microsecond)));
    assert_eq!(procedure.branch(2), Some((&b"nanoseconds"[..], Unit::Nanosecond)));
    assert_eq!(procedure.branch(55), Some((&b"d"[..], Unit::Day)));
    assert_eq!(procedure.branch(56), None);
}

#[test]
fn starts_with_compares_the_leading_bytes() {
    assert!(starts_with(b"months", b"mo"));
    assert!(starts_with(b"mo", b"mo"));
    assert!(starts_with(b"mo", b""));
    assert!(starts_with(b"", b""));
    assert!(!starts_with(b"m", b"mo"));
    assert!(!starts_with(b"ms", b"mo"));
    assert!(!starts_with(b"", b"m"));
}

#[test]
fn standard_procedure_is_the_compiled_standard_table() {
    let direct = dictionary::procedure();
    let compiled = compile(&dictionary::table()).unwrap();
    assert_eq!(direct.len(), 56);
    for i in 0..=direct.len() {
        assert_eq!(direct.branch(i), compiled.branch(i));
    }
}
