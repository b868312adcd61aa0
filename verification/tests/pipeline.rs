use trade_flows::{
    extract, get_flow_data, process_tsv, FlowError, FlowRecord, RawTable, YearColumn, EXPORTS,
    IMPORTS,
};

fn number(value: f64) -> Option<u64> {
    Some(value.to_bits())
}

fn year(label: &str, values: Vec<Option<u64>>) -> YearColumn {
    YearColumn { label: label.to_string(), values }
}

fn source(composite: Vec<Option<&str>>, years: Vec<YearColumn>) -> RawTable {
    RawTable {
        composite: Some(composite.into_iter().map(|cell| cell.map(String::from)).collect()),
        years,
    }
}

fn plain(records: &[FlowRecord]) -> Vec<(String, String, f64)> {
    records
        .iter()
        .map(|record| {
            (
                record.industry_code.clone(),
                record.flow_type.clone(),
                f64::from_bits(record.value_bits),
            )
        })
        .collect()
}

fn one_row_imports() -> RawTable {
    // header: meta, 2020, 2021; one row: "A,B,C,D,E", 10, NA
    source(
        vec![Some("A,B,C,D,E")],
        vec![year("2020", vec![number(10.0)]), year("2021", vec![None])],
    )
}

fn one_row_exports() -> RawTable {
    // header: meta, 2020, 2021; one row: "A,B,C,D,E", 5, 7
    source(
        vec![Some("A,B,C,D,E")],
        vec![year("2020", vec![number(5.0)]), year("2021", vec![number(7.0)])],
    )
}

#[test]
fn year_with_both_values() {
    let records = get_flow_data(one_row_imports(), one_row_exports(), 2020).unwrap();
    assert_eq!(
        plain(&records),
        vec![
            ("B".to_string(), "Total Imports".to_string(), 10.0),
            ("B".to_string(), "Total Exports".to_string(), 5.0),
        ]
    );
}

#[test]
fn year_with_unavailable_import() {
    let records = get_flow_data(one_row_imports(), one_row_exports(), 2021).unwrap();
    assert_eq!(plain(&records), vec![("B".to_string(), "Total Exports".to_string(), 7.0)]);
}

#[test]
fn unavailable_as_not_a_number() {
    let imports = source(
        vec![Some("A,B,C,D,E")],
        vec![year("2020", vec![number(10.0)]), year("2021", vec![number(f64::NAN)])],
    );
    let records = get_flow_data(imports, one_row_exports(), 2021).unwrap();
    assert_eq!(plain(&records), vec![("B".to_string(), "Total Exports".to_string(), 7.0)]);
}

#[test]
fn flow_type_literals() {
    assert_eq!(IMPORTS, "Total Imports");
    assert_eq!(EXPORTS, "Total Exports");
}

#[test]
fn empty_composite_still_gives_a_record() {
    let imports = source(vec![Some("")], vec![year("1999", vec![number(3.25)])]);
    let exports = source(vec![None], vec![year("1999", vec![number(-1.0)])]);
    let records = get_flow_data(imports, exports, 1999).unwrap();
    assert_eq!(
        plain(&records),
        vec![
            (String::new(), "Total Imports".to_string(), 3.25),
            (String::new(), "Total Exports".to_string(), -1.0),
        ]
    );
}

#[test]
fn zero_is_a_valid_flow() {
    let imports = source(
        vec![Some("A,X,C,D,E"), Some("A,Y,C,D,E")],
        vec![year("2020", vec![number(0.0), number(-0.0)])],
    );
    let exports = source(vec![], vec![year("2020", vec![])]);
    let records = get_flow_data(imports, exports, 2020).unwrap();
    assert_eq!(records.len(), 2);
    assert_eq!(records[0].industry_code, "X");
    assert_eq!(records[0].value_bits, 0.0f64.to_bits());
    assert_eq!(records[1].industry_code, "Y");
    assert_eq!(records[1].value_bits, (-0.0f64).to_bits());
}

#[test]
fn imports_come_first_and_rows_keep_their_order() {
    let imports = source(
        vec![Some("A,I1,,,"), Some("A,I2,,,"), Some("A,I3,,,"), Some("A,I4,,,")],
        vec![year("2005", vec![number(4.0), None, number(f64::NAN), number(1.0)])],
    );
    let exports = source(
        vec![Some("A,E1,,,"), Some("A,E2,,,"), Some("A,E3,,,")],
        vec![year("2005", vec![None, number(9.0), number(2.0)])],
    );
    let records = get_flow_data(imports, exports, 2005).unwrap();
    assert_eq!(
        plain(&records),
        vec![
            ("I1".to_string(), "Total Imports".to_string(), 4.0),
            ("I4".to_string(), "Total Imports".to_string(), 1.0),
            ("E2".to_string(), "Total Exports".to_string(), 9.0),
            ("E3".to_string(), "Total Exports".to_string(), 2.0),
        ]
    );
}

#[test]
fn rows_with_one_code_are_not_merged() {
    let imports = source(
        vec![Some("A,C10,X,MIO,DE"), Some("A,C10,Y,MIO,DE"), Some("A,C10,X,MIO,FR")],
        vec![year("2010", vec![number(1.0), number(1.0), number(2.5)])],
    );
    let exports = source(vec![Some("A,C10,X,MIO,DE")], vec![year("2010", vec![number(1.0)])]);
    let records = get_flow_data(imports, exports, 2010).unwrap();
    assert_eq!(records.len(), 4);
    assert!(records.iter().all(|record| record.industry_code == "C10"));
    assert_eq!(f64::from_bits(records[2].value_bits), 2.5);
}

#[test]
fn record_count_is_the_count_of_observed_rows() {
    let cells = vec![number(1.0), None, number(f64::NAN), number(0.0), None, number(-3.0)];
    let observed = cells
        .iter()
        .filter(|cell| matches!(cell, Some(bits) if !f64::from_bits(*bits).is_nan()))
        .count();
    let composite = vec![Some("A,B,C,D,E"); 6];
    let imports = source(composite.clone(), vec![year("7", cells.clone())]);
    let exports = source(vec![], vec![year("7", vec![])]);
    let records = get_flow_data(imports, exports, 7).unwrap();
    assert_eq!(records.len(), observed);
    assert_eq!(records.len(), 3);
    assert!(records.len() <= 6);
}

#[test]
fn unobserved_row_changes_nothing_else() {
    let with_row = source(
        vec![Some("A,K1,,,"), Some("A,GONE,,,"), Some("A,K2,,,")],
        vec![year("2001", vec![number(1.0), None, number(2.0)])],
    );
    let without_row = source(
        vec![Some("A,K1,,,"), Some("A,K2,,,")],
        vec![year("2001", vec![number(1.0), number(2.0)])],
    );
    let empty = || source(vec![], vec![year("2001", vec![])]);
    let first = get_flow_data(with_row, empty(), 2001).unwrap();
    let second = get_flow_data(without_row, empty(), 2001).unwrap();
    assert_eq!(first, second);
    assert!(first.iter().all(|record| record.industry_code != "GONE"));
}

#[test]
fn missing_year_in_both_tables() {
    let result = get_flow_data(one_row_imports(), one_row_exports(), 2022);
    assert_eq!(result, Err(FlowError::MissingColumn("2022".to_string())));
}

#[test]
fn missing_year_in_imports_only() {
    let imports = source(vec![Some("A,B,C,D,E")], vec![year("2021", vec![number(1.0)])]);
    let result = get_flow_data(imports, one_row_exports(), 2020);
    assert_eq!(result, Err(FlowError::MissingColumn("2020".to_string())));
}

#[test]
fn missing_year_in_exports_only() {
    let exports = source(vec![Some("A,B,C,D,E")], vec![year("2021", vec![number(1.0)])]);
    let result = get_flow_data(one_row_imports(), exports, 2020);
    assert_eq!(result, Err(FlowError::MissingColumn("2020".to_string())));
}

#[test]
fn missing_year_message_names_the_year() {
    let error = get_flow_data(one_row_imports(), one_row_exports(), -3).unwrap_err();
    assert_eq!(error.message(), "missing column: -3");
}

#[test]
fn year_label_must_match_exactly() {
    let imports = source(vec![Some("A,B,C,D,E")], vec![year("2020 ", vec![number(1.0)])]);
    let result = get_flow_data(imports, one_row_exports(), 2020);
    assert_eq!(result, Err(FlowError::MissingColumn("2020".to_string())));
    let padded = source(vec![Some("A,B,C,D,E")], vec![year("02020", vec![number(1.0)])]);
    let result = get_flow_data(padded, one_row_exports(), 2020);
    assert_eq!(result, Err(FlowError::MissingColumn("2020".to_string())));
}

#[test]
fn source_without_columns_is_malformed() {
    let nothing = RawTable { composite: None, years: vec![] };
    let error = get_flow_data(nothing.clone(), one_row_exports(), 2020).unwrap_err();
    assert_eq!(error, FlowError::MalformedTable("table has no columns".to_string()));
    let error = get_flow_data(one_row_imports(), nothing.clone(), 2020).unwrap_err();
    assert_eq!(error, FlowError::MalformedTable("table has no columns".to_string()));
    assert!(process_tsv(nothing).is_err());
}

#[test]
fn malformed_imports_are_reported_before_a_missing_year() {
    let nothing = RawTable { composite: None, years: vec![] };
    let error = get_flow_data(nothing, one_row_exports(), 1800).unwrap_err();
    assert!(matches!(error, FlowError::MalformedTable(_)));
}

#[test]
fn misaligned_year_column_is_malformed() {
    let short = source(vec![Some("A,B,C,D,E"), Some("A,B,C,D,E")], vec![year("2020", vec![None])]);
    let error = process_tsv(short).unwrap_err();
    assert_eq!(
        error,
        FlowError::MalformedTable("year column length differs from row count".to_string())
    );
    let long = source(vec![], vec![year("2020", vec![None])]);
    assert!(process_tsv(long).is_err());
}

#[test]
fn extract_from_decoded_tables() {
    let imports = process_tsv(one_row_imports()).unwrap();
    let exports = process_tsv(one_row_exports()).unwrap();
    let records = extract(&imports, &exports, 2021).unwrap();
    assert_eq!(
        records,
        vec![FlowRecord {
            industry_code: "B".to_string(),
            flow_type: "Total Exports".to_string(),
            value_bits: 7.0f64.to_bits(),
        }]
    );
    assert_eq!(
        extract(&imports, &exports, 1),
        Err(FlowError::MissingColumn("1".to_string()))
    );
}
