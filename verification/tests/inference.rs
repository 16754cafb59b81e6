use tsv_csv_to_sql::column::classify_cell;
use tsv_csv_to_sql::ColumnType;
use tsv_csv_to_sql::Filetype;
use tsv_csv_to_sql::InputFile;

#[test]
fn test_return_data_types() {
    let test_input =
        InputFile::new("one,two,three\nOne,2,3.2\nOne,2,3.2\n".to_string(), Filetype::Csv)
            .unwrap();
    assert_eq!(
        test_input.infer_col_data_types(),
        vec![
            "VARCHAR(20)".to_string(),
            "INT".to_string(),
            "FLOAT".to_string()
        ]
    )
}

#[test]
fn integer_valued_decimals_count_as_integers() {
    assert_eq!(classify_cell("2"), ColumnType::Integer);
    assert_eq!(classify_cell("3.0"), ColumnType::Integer);
    assert_eq!(classify_cell("-4"), ColumnType::Integer);
    assert_eq!(classify_cell("+007"), ColumnType::Integer);
    assert_eq!(classify_cell("5."), ColumnType::Integer);
    assert_eq!(classify_cell("-0.000"), ColumnType::Integer);
}

#[test]
fn decimals_with_a_nonzero_fraction_count_as_floats() {
    assert_eq!(classify_cell("3.2"), ColumnType::Float);
    assert_eq!(classify_cell("+2.5"), ColumnType::Float);
    assert_eq!(classify_cell("-0.01"), ColumnType::Float);
    assert_eq!(classify_cell(".5"), ColumnType::Float);
}

#[test]
fn non_decimal_cells_count_as_text() {
    assert_eq!(classify_cell("One"), ColumnType::Text);
    assert_eq!(classify_cell(""), ColumnType::Text);
    assert_eq!(classify_cell("."), ColumnType::Text);
    assert_eq!(classify_cell("+"), ColumnType::Text);
    assert_eq!(classify_cell("1.2.3"), ColumnType::Text);
    assert_eq!(classify_cell("2e5"), ColumnType::Text);
    assert_eq!(classify_cell("4 "), ColumnType::Text);
    assert_eq!(classify_cell("--1"), ColumnType::Text);
}

#[test]
fn inference_reads_the_first_data_row_not_the_header() {
    let test_input =
        InputFile::new("a,b\n1,x\n2.5,y\n".to_string(), Filetype::Csv).unwrap();
    assert_eq!(
        test_input.infer_col_data_types(),
        vec!["INT".to_string(), "VARCHAR(20)".to_string()]
    );
}

#[test]
fn inference_splits_on_the_tab_for_tsv_files() {
    let test_input =
        InputFile::new("a\tb\n1\t2.5\n".to_string(), Filetype::Tsv).unwrap();
    assert_eq!(
        test_input.infer_col_data_types(),
        vec!["INT".to_string(), "FLOAT".to_string()]
    );
}
