use flowgen::naming::{
    avro_object_path, event_object_path, i64_text, file_name, file_record_subject,
    labelled_subject, object_file_name,
};

#[test]
fn file_name_is_last_segment() {
    assert_eq!(file_name("/data/in/a.csv"), "a.csv");
    assert_eq!(file_name("a.csv"), "a.csv");
    assert_eq!(file_name("dir/"), "");
    assert_eq!(file_name(""), "");
}

#[test]
fn file_record_subject_joins_name_and_time() {
    assert_eq!(file_record_subject("/data/a.csv", 1700000000123456), "a.csv.1700000000123456");
    assert_eq!(file_record_subject("b.csv", -5), "b.csv.-5");
    assert_eq!(file_record_subject("c", 0), "c.0");
}

#[test]
fn labelled_subject_uses_label_or_default() {
    assert_eq!(labelled_subject(&Some("tick".to_string()), "generate", 42), "tick.42");
    assert_eq!(labelled_subject(&None, "generate", 7), "generate.7");
}

#[test]
fn decimal_text_of_extremes() {
    assert_eq!(i64_text(0), "0");
    assert_eq!(i64_text(-7), "-7");
    assert_eq!(i64_text(i64::MAX), "9223372036854775807");
    assert_eq!(i64_text(i64::MIN), "-9223372036854775808");
}

#[test]
fn calendar_range_has_dates() {
    let first = -62135596800000000i64;
    let last = 253402300799999999i64;
    assert_eq!(event_object_path("b", &None, first).unwrap(), format!("b/0001-01-01/{}.avro", first));
    assert_eq!(event_object_path("b", &None, last).unwrap(), format!("b/9999-12-31/{}.avro", last));
}

#[test]
fn object_name_prefers_id() {
    assert_eq!(object_file_name(&Some("evt-1".to_string()), 99), "evt-1");
    assert_eq!(object_file_name(&None, 1234567), "1234567");
}

#[test]
fn avro_path_layout() {
    assert_eq!(avro_object_path("landing", "2024-01-02", "evt"), "landing/2024-01-02/evt.avro");
}

#[test]
fn event_object_path_uses_utc_date() {
    let micros = 1704153600000000i64 + 3600 * 1000000; // 2024-01-02T01:00:00Z
    assert_eq!(
        event_object_path("landing", &None, micros).unwrap(),
        format!("landing/2024-01-02/{}.avro", micros)
    );
    assert_eq!(
        event_object_path("l", &Some("x".to_string()), 0).unwrap(),
        "l/1970-01-01/x.avro"
    );
}
