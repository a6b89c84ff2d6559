use flowgen::event::{
    AvroData, Column, ColumnType, ColumnarBatch, Encoding, EventBuilder, EventData, EventError,
};

fn json(text: &str) -> EventData {
    EventData::Json(text.to_string())
}

#[test]
fn build_succeeds_with_data_and_subject() {
    let e = EventBuilder::new()
        .data(json("{\"a\":1}"))
        .subject("orders.in".to_string())
        .current_task_id(3)
        .build()
        .unwrap();
    assert_eq!(e.subject, "orders.in");
    assert_eq!(e.current_task_id, Some(3));
    assert!(e.id.is_none());
    assert!(matches!(e.data, EventData::Json(ref t) if t == "{\"a\":1}"));
}

#[test]
fn build_keeps_absent_task_id_and_id() {
    let e = EventBuilder::new()
        .data(json("null"))
        .subject("s".to_string())
        .id("object-7".to_string())
        .build()
        .unwrap();
    assert_eq!(e.current_task_id, None);
    assert_eq!(e.id.as_deref(), Some("object-7"));
}

#[test]
fn build_without_data_fails() {
    let r = EventBuilder::new().subject("s".to_string()).current_task_id(0).build();
    assert_eq!(r.unwrap_err(), EventError::MissingData);
}

#[test]
fn build_without_subject_fails() {
    let r = EventBuilder::new().data(json("1")).build();
    assert_eq!(r.unwrap_err(), EventError::MissingSubject);
}

#[test]
fn build_without_anything_reports_data_first() {
    assert_eq!(EventBuilder::new().build().unwrap_err(), EventError::MissingData);
}

fn text_column(name: &str, values: &[&str]) -> Column {
    Column {
        name: name.to_string(),
        column_type: ColumnType::Utf8,
        values: values.iter().map(|v| v.to_string()).collect(),
    }
}

#[test]
fn batch_of_equal_columns() {
    let b = ColumnarBatch::try_new(vec![
        text_column("id", &["1", "2"]),
        text_column("name", &["a", "b"]),
    ])
    .unwrap();
    assert_eq!(b.num_rows, 2);
    assert_eq!(b.columns.len(), 2);
}

#[test]
fn batch_of_unequal_columns_fails() {
    let r = ColumnarBatch::try_new(vec![text_column("id", &["1", "2"]), text_column("n", &["a"])]);
    assert_eq!(r.unwrap_err(), EventError::UnequalColumnLengths);
}

#[test]
fn empty_batch_has_no_rows() {
    assert_eq!(ColumnarBatch::try_new(Vec::new()).unwrap().num_rows, 0);
}

#[test]
fn text_row_becomes_one_row_batch() {
    let b = ColumnarBatch::from_text_row(vec![
        ("status".to_string(), "\"ok\"".to_string()),
        ("count".to_string(), "3".to_string()),
    ])
    .unwrap();
    assert_eq!(b.num_rows, 1);
    assert_eq!(b.columns[0].name, "status");
    assert_eq!(b.columns[0].values, vec!["\"ok\"".to_string()]);
    assert_eq!(b.columns[1].name, "count");
    assert_eq!(b.columns[1].column_type, ColumnType::Utf8);
    assert_eq!(b.columns[1].values, vec!["3".to_string()]);
}

#[test]
fn empty_row_is_refused() {
    assert_eq!(ColumnarBatch::from_text_row(Vec::new()).unwrap_err(), EventError::NoColumns);
}

#[test]
fn encoding_follows_the_payload_tag() {
    let batch = ColumnarBatch::try_new(Vec::new()).unwrap();
    assert_eq!(EventData::ColumnarBatch(batch).encoding(), Encoding::ArrowStream);
    let avro = AvroData { schema: "\"string\"".to_string(), raw_bytes: vec![2, 97] };
    assert_eq!(EventData::AvroRecord(avro).encoding(), Encoding::Bincode);
    assert_eq!(json("{}").encoding(), Encoding::JsonText);
}
