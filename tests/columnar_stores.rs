use personalgreenbutton::{Entries, EntryType, GreenButtonError, IntervalReadings, LocalTimeParameters};

fn two_entries(entry_type: Vec<EntryType>, title: Vec<String>) -> Entries {
    Entries::new(
        entry_type,
        vec!["a".to_string(), "b".to_string()],
        title,
        vec![0, 1],
        vec![0, 1],
        vec![String::new(), String::new()],
        vec![String::new(), String::new()],
    )
}

#[test]
fn new() {
    let test = LocalTimeParameters::default();
    assert_eq!(test.dst_start_rule.len(), 0);
}

#[test]
fn len() {
    let test = LocalTimeParameters::new(vec![0, 1], vec![0, 1], vec![0, 1], vec![0, 1]);
    assert_eq!(test.len(), 2);
}

#[test]
fn push() {
    let t = Entries::default();

    let mut builder = t.start_push();
    builder.published_unix_ms(1);
    builder.title("b".into());
    builder.href("h1".into());
    builder.entry_type(EntryType::Other);
    builder.updated_unix_ms(0);
    let t = builder.finalize_push().unwrap();

    let mut builder = t.start_push();
    builder.published_unix_ms(2);
    builder.title("c".into());
    builder.href("h2".into());
    builder.entry_type(EntryType::Other);
    builder.updated_unix_ms(0);
    let t = builder.finalize_push().unwrap();

    assert_eq!(t.published_unix_ms, vec![1, 2]);
}

#[test]
fn partial_push() {
    let t = IntervalReadings::default();
    let mut builder = t.start_push();
    builder.entry_index(0);
    builder.value(1);
    builder.time_period_start_unix_ms(0);
    builder.time_period_duration_seconds(3600);
    let t = builder.finalize_push().unwrap();
    assert_eq!(t.quality[0], 16);
    assert!(t.cost[0].is_none());
    assert_eq!(t.tou[0], 0);
}

#[test]
fn push_missing_default() {
    let t = IntervalReadings::default();
    let mut builder = t.start_push();
    builder.quality(1);
    let result = builder.finalize_push();
    assert!(result.is_err());
    assert_eq!(
        result.err(),
        Some(GreenButtonError::MissingField { field: "entry_index", table: "IntervalReadings" })
    );
}

#[test]
fn with_enum() {
    let test = two_entries(
        vec![EntryType::IntervalBlock, EntryType::ReadingTypeWithIndex(1)],
        vec!["a".to_string(), "b".to_string()],
    );
    assert_eq!(test.entry_type, vec![EntryType::IntervalBlock, EntryType::ReadingTypeWithIndex(1)]);
}

#[test]
fn with_static_str() {
    let test = two_entries(vec![EntryType::Other, EntryType::Other], vec!["a".into(), "b".into()]);
    assert_eq!(test.title, vec!["a", "b"]);
}

#[test]
fn with_string() {
    let test = two_entries(
        vec![EntryType::Other, EntryType::Other],
        vec!["a".to_string(), "b".to_string()],
    );
    assert_eq!(test.href, vec!["a", "b"]);
}

#[test]
fn with_string_with_default() {
    let test = Entries::default();
    let mut builder = test.start_push();
    builder.entry_type(EntryType::Other);
    builder.href("x".to_string());
    builder.title("t".to_string());
    builder.published_unix_ms(0);
    builder.updated_unix_ms(0);
    let test = builder.finalize_push().unwrap();
    assert_eq!(test.related_meter_reading_entry_href, vec![""]);
    assert_eq!(test.related_reading_type_entry_href, vec![""]);
}

#[test]
fn entries_missing_href_names_the_field() {
    let mut builder = Entries::default().start_push();
    builder.entry_type(EntryType::Other);
    builder.title("t".to_string());
    let result = builder.finalize_push();
    assert_eq!(
        result.err(),
        Some(GreenButtonError::MissingField { field: "href", table: "Entries" })
    );
}

#[test]
fn setting_a_field_twice_keeps_the_last_value() {
    let mut builder = LocalTimeParameters::default().start_push();
    builder.dst_start_rule(1);
    builder.dst_start_rule(2);
    builder.dst_end_rule(3);
    builder.dst_offset(3600);
    builder.tz_offset(-18000);
    let t = builder.finalize_push().unwrap();
    assert_eq!(t.len(), 1);
    assert_eq!(t.dst_start_rule, vec![2]);
    assert_eq!(t.tz_offset, vec![-18000]);
}

#[test]
fn entry_type_set_accepts_same_and_rejects_mixed() {
    let mut t = EntryType::Unset;
    assert!(t.set(EntryType::IntervalBlock).is_ok());
    assert_eq!(t, EntryType::IntervalBlock);
    assert!(t.set(EntryType::IntervalBlock).is_ok());
    assert_eq!(t.set(EntryType::Other), Err(GreenButtonError::MixedContent));
    assert_eq!(t, EntryType::IntervalBlock);
    assert_eq!(t.label(), "interval block");
}
