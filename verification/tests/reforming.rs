use tsv_csv_to_sql::reform::reform_row;
use tsv_csv_to_sql::ColumnType;
use tsv_csv_to_sql::Filetype;
use tsv_csv_to_sql::InputFile;
use tsv_csv_to_sql::ReformError;

fn sample() -> InputFile {
    let text = "one,two,three\nOne,2,3.2\nOne,2,3.2\n".to_string();
    InputFile::new(text, Filetype::Csv).unwrap()
}

#[test]
fn test_reform_header() {
    let mut test_input = sample();
    test_input.reform_header();
    assert_eq!(test_input.header(), &"`one`,`two`,`three`".to_string());
}

#[test]
fn test_reform_body() {
    let mut test_input = sample();
    test_input.reform_body().unwrap();
    assert_eq!(
        test_input.body(),
        &vec!["'One',2,3.2".to_string(), "'One',2,3.2".to_string()]
    );
}

#[test]
fn header_reform_is_delimiter_independent() {
    let mut tab_input =
        InputFile::new("one\ttwo\tthree\nOne\t2\t3.2\n".to_string(), Filetype::Tsv).unwrap();
    tab_input.reform_header();
    assert_eq!(tab_input.header(), &"`one`,`two`,`three`".to_string());
}

#[test]
fn reformed_body_row_mixes_quoted_and_bare_cells() {
    let types = vec![ColumnType::Text, ColumnType::Integer, ColumnType::Float];
    let row = reform_row("One,2,3.2", &types, ',');
    assert_eq!(row, "'One',2,3.2".to_string());
}

#[test]
fn identical_rows_reform_identically() {
    let mut test_input = sample();
    test_input.reform_body().unwrap();
    assert_eq!(test_input.body()[0], test_input.body()[1]);
}

#[test]
fn reforming_a_header_twice_doubles_the_quotes() {
    let mut test_input = sample();
    test_input.reform_header();
    test_input.reform_header();
    assert_eq!(test_input.header(), &"``one``,``two``,``three``".to_string());
}

#[test]
fn all_text_row_has_every_cell_quoted() {
    let types = vec![ColumnType::Text, ColumnType::Text, ColumnType::Text];
    let row = reform_row("a,b,c", &types, ',');
    assert_eq!(row, "'a','b','c'".to_string());
}

#[test]
fn all_numeric_row_has_every_cell_bare() {
    let types = vec![ColumnType::Integer, ColumnType::Float];
    let row = reform_row("2,3.5", &types, ',');
    assert_eq!(row, "2,3.5".to_string());
}

#[test]
fn ragged_long_row_is_truncated_to_the_type_vector() {
    let types = vec![ColumnType::Text, ColumnType::Integer];
    let row = reform_row("a,2,extra,more", &types, ',');
    assert_eq!(row, "'a',2".to_string());
}

#[test]
fn ragged_short_row_keeps_only_its_own_cells() {
    let types = vec![ColumnType::Text, ColumnType::Integer, ColumnType::Float];
    let row = reform_row("a,2", &types, ',');
    assert_eq!(row, "'a',2".to_string());
}

#[test]
fn empty_cells_of_a_text_column_are_quoted_empty() {
    let types = vec![ColumnType::Text, ColumnType::Text, ColumnType::Text];
    let row = reform_row(",,", &types, ',');
    assert_eq!(row, "'','',''".to_string());
}

#[test]
fn reforming_a_ragged_file_fails_with_the_first_ragged_row() {
    let mut test_input =
        InputFile::new("h1,h2\na,1\nb,2,3\nc\n".to_string(), Filetype::Csv).unwrap();
    assert_eq!(
        test_input.reform_body(),
        Err(ReformError::RaggedRow(1))
    );
}

#[test]
fn a_failed_body_reform_leaves_the_file_unchanged() {
    let mut test_input = InputFile::new("h1,h2\na\n".to_string(), Filetype::Csv).unwrap();
    assert_eq!(
        test_input.reform_body(),
        Err(ReformError::RaggedRow(0))
    );
    assert_eq!(test_input.body(), &vec!["a".to_string()]);
    assert_eq!(test_input.header(), &"h1,h2".to_string());
}

#[test]
fn body_reform_leaves_header_and_sample_row_alone() {
    let mut test_input = sample();
    test_input.reform_body().unwrap();
    assert_eq!(test_input.header(), &"one,two,three".to_string());
    assert_eq!(test_input.first_row(), &"One,2,3.2".to_string());
}
