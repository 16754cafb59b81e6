use tsv_csv_to_sql::sql_script;
use tsv_csv_to_sql::Filetype;
use tsv_csv_to_sql::InputFile;

#[test]
fn the_script_holds_all_four_statement_blocks_in_order() {
    let mut input =
        InputFile::new("one,two,three\nOne,2,3.2\nOne,2,3.2\n".to_string(), Filetype::Csv)
            .unwrap();
    input.reform_header();
    input.reform_body().unwrap();
    let script = sql_script(&input, "test");
    let expected = "DROP TABLE IF EXISTS test;\nCREATE TABLE test(\nid INT NOT NULL AUTO_INCREMENT, \n`one` VARCHAR(20),\n`two` INT,\n`three` FLOAT,\nPRIMARY KEY ( id ));\n\nINSERT INTO test\n(`one`,`two`,`three`)\nVALUES\n('One',2,3.2),\n('One',2,3.2);";
    assert_eq!(script, expected.to_string());
}

#[test]
fn a_single_data_row_gets_no_trailing_comma() {
    let mut input = InputFile::new("a\tb\n1\t2.5\n".to_string(), Filetype::Tsv).unwrap();
    input.reform_header();
    input.reform_body().unwrap();
    let script = sql_script(&input, "t");
    let expected = "DROP TABLE IF EXISTS t;\nCREATE TABLE t(\nid INT NOT NULL AUTO_INCREMENT, \n`a` INT,\n`b` FLOAT,\nPRIMARY KEY ( id ));\n\nINSERT INTO t\n(`a`,`b`)\nVALUES\n(1,2.5);";
    assert_eq!(script, expected.to_string());
}
