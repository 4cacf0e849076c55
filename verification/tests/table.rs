use township::table::{output_records, ADDRESS_COLUMN, TOWNSHIP_COLUMN};

#[test]
fn table_starts_with_the_heading() {
    let records = output_records(&vec![]);
    assert_eq!(records, vec![vec!["Address".to_string(), "Township".to_string()]]);
    assert_eq!(ADDRESS_COLUMN, "Address");
    assert_eq!(TOWNSHIP_COLUMN, "Township");
}

#[test]
fn table_holds_one_record_per_row_in_order() {
    let rows = vec![
        ("1600 Amphitheatre Parkway, Mountain View, CA, USA".to_string(), "Mountain View".to_string()),
        ("Nowhere".to_string(), String::new()),
        ("1600 Amphitheatre Parkway, Mountain View, CA, USA".to_string(), "Mountain View".to_string()),
        ("123 Fake Addr Rd, Springfield, OH, USA".to_string(), "Springfield City".to_string()),
    ];
    let records = output_records(&rows);
    assert_eq!(records.len(), 5);
    assert_eq!(records[0], vec!["Address", "Township"]);
    for (row, record) in rows.iter().zip(records[1..].iter()) {
        assert_eq!(record, &vec![row.0.clone(), row.1.clone()]);
    }
}
