use tsv_csv_to_sql::text::contains_char;
use tsv_csv_to_sql::text::split_cells;
use tsv_csv_to_sql::text::split_lines;
use tsv_csv_to_sql::Filetype;
use tsv_csv_to_sql::InputFile;
use tsv_csv_to_sql::LoadError;

#[test]
fn csv_paths_are_recognized_case_insensitively() {
    assert_eq!(Filetype::from_path("data.csv"), Ok(Filetype::Csv));
    assert_eq!(Filetype::from_path("DATA.CSV"), Ok(Filetype::Csv));
    assert_eq!(Filetype::from_path("Mixed.Csv"), Ok(Filetype::Csv));
    assert_eq!(Filetype::from_path("a.csv.bak"), Ok(Filetype::Csv));
}

#[test]
fn tsv_paths_are_recognized_case_insensitively() {
    assert_eq!(Filetype::from_path("data.tsv"), Ok(Filetype::Tsv));
    assert_eq!(Filetype::from_path("DATA.TSV"), Ok(Filetype::Tsv));
}

#[test]
fn a_path_naming_both_kinds_counts_as_csv() {
    assert_eq!(Filetype::from_path("a.tsv.csv"), Ok(Filetype::Csv));
}

#[test]
fn other_paths_are_rejected() {
    assert_eq!(
        Filetype::from_path("data.txt"),
        Err(LoadError::UnrecognizedExtension)
    );
    assert_eq!(
        Filetype::from_path("csv"),
        Err(LoadError::UnrecognizedExtension)
    );
    assert_eq!(
        Filetype::from_path(""),
        Err(LoadError::UnrecognizedExtension)
    );
}

#[test]
fn loading_splits_header_sample_row_and_body() {
    let f = InputFile::new("h1,h2\na,1\nb,2\n".to_string(), Filetype::Csv).unwrap();
    assert_eq!(f.header(), &"h1,h2".to_string());
    assert_eq!(f.first_row(), &"a,1".to_string());
    assert_eq!(f.body(), &vec!["a,1".to_string(), "b,2".to_string()]);
    assert_eq!(f.text(), &"h1,h2\na,1\nb,2\n".to_string());
    assert_eq!(f.filetype(), Filetype::Csv);
}

#[test]
fn a_file_without_a_data_row_is_rejected() {
    assert_eq!(
        InputFile::new("h1,h2\n".to_string(), Filetype::Csv).unwrap_err(),
        LoadError::MissingRows
    );
    assert_eq!(
        InputFile::new("".to_string(), Filetype::Csv).unwrap_err(),
        LoadError::MissingRows
    );
}

#[test]
fn a_file_without_its_delimiter_is_rejected() {
    assert_eq!(
        InputFile::new("h1\nv1\n".to_string(), Filetype::Csv).unwrap_err(),
        LoadError::MissingSeparator
    );
    assert_eq!(
        InputFile::new("h1,h2\na,1\n".to_string(), Filetype::Tsv).unwrap_err(),
        LoadError::MissingSeparator
    );
}

#[test]
fn a_well_formed_file_has_no_ragged_row() {
    let f = InputFile::new("h1,h2\na,1\nb,2\n".to_string(), Filetype::Csv).unwrap();
    assert_eq!(f.find_ragged_row(), None);
}

#[test]
fn the_first_ragged_row_is_found() {
    let f = InputFile::new("h1,h2\na,1\nb,2,3\nc\n".to_string(), Filetype::Csv).unwrap();
    assert_eq!(f.find_ragged_row(), Some(1));
}

#[test]
fn splitting_keeps_empty_cells() {
    let cells = split_cells("a,,b,", ',');
    assert_eq!(
        cells,
        vec![
            "a".to_string(),
            "".to_string(),
            "b".to_string(),
            "".to_string()
        ]
    );
}

#[test]
fn line_splitting_handles_carriage_returns_and_final_newlines() {
    assert_eq!(
        split_lines("a\r\nb\nc"),
        vec!["a".to_string(), "b".to_string(), "c".to_string()]
    );
    assert_eq!(split_lines("a\nb\n"), vec!["a".to_string(), "b".to_string()]);
    assert_eq!(split_lines(""), Vec::<String>::new());
    assert_eq!(
        split_lines("a\n\nb"),
        vec!["a".to_string(), "".to_string(), "b".to_string()]
    );
}

#[test]
fn contains_char_finds_only_present_characters() {
    assert!(contains_char("a\tb", '\t'));
    assert!(!contains_char("a\tb", ','));
    assert!(!contains_char("", ','));
}
