use textops::error::OperationError;
use textops::ops::Operation;
use textops::table::{process_csv, CsvTable};

#[test]
fn header_only_fails_with_no_data_rows() {
    assert_eq!(process_csv("name,age"), Err(OperationError::CsvNoDataRows));
    assert_eq!(process_csv("name,age\n"), Err(OperationError::CsvNoDataRows));
}

#[test]
fn empty_input_fails_with_no_headers() {
    assert_eq!(process_csv(""), Err(OperationError::CsvNoHeaders));
}

#[test]
fn leading_blank_line_is_skipped_by_the_reader() {
    assert_eq!(process_csv("\nname,age"), Err(OperationError::CsvNoDataRows));
}

#[test]
fn stray_quotes_parse_leniently() {
    let rendered = process_csv("name,age\n\"unclosed,30").unwrap();
    assert!(rendered.contains("unclosed,30"));
}

#[test]
fn fields_are_trimmed() {
    let rendered = process_csv(" name , age \n Ann , 30 ").unwrap();
    assert!(rendered.contains("| name | age |"));
    assert!(rendered.contains("| Ann  | 30  |"));
}

#[test]
fn three_records_render_in_order() {
    let rendered = process_csv("name,age\nAnn,30\nBob,41\nCyd,52").unwrap();
    let ann = rendered.find("Ann").unwrap();
    let bob = rendered.find("Bob").unwrap();
    let cyd = rendered.find("Cyd").unwrap();
    let name = rendered.find("name").unwrap();
    assert!(name < ann && ann < bob && bob < cyd);
}

#[test]
fn ragged_row_renders_only_its_own_fields() {
    let rendered = CsvTable {
        headers: vec![String::from("a"), String::from("b")],
        records: vec![
            vec![String::from("1"), String::from("2")],
            vec![String::from("3")],
        ],
    }
    .render();
    let content: Vec<&str> = rendered
        .lines()
        .filter(|line| line.starts_with('|'))
        .collect();
    assert_eq!(content.len(), 3);
    assert!(content[0].contains('a') && content[0].contains('b'));
    assert!(content[1].contains('1') && content[1].contains('2'));
    assert!(content[2].contains('3'));
    let cells: Vec<&str> = content[2].trim_matches('|').split('|').collect();
    assert_eq!(cells[0].trim(), "3");
    assert!(cells.len() == 1 || cells[1].trim().is_empty());
}

#[test]
fn csv_scenario_through_the_executor() {
    let rendered =
        textops::execute::process_operation(Operation::Csv, "name,age\nAnn,30\n").unwrap();
    let content: Vec<&str> = rendered
        .lines()
        .filter(|line| line.starts_with('|'))
        .collect();
    assert_eq!(content.len(), 2);
    assert!(content[0].contains("name") && content[0].contains("age"));
    assert!(content[1].contains("Ann") && content[1].contains("30"));
}

#[test]
fn ragged_rows_parse_through_the_csv_operation() {
    let rendered = process_csv("a,b\n1,2\n3").unwrap();
    assert!(rendered.contains('3'));
    let content: Vec<&str> = rendered
        .lines()
        .filter(|line| line.starts_with('|'))
        .collect();
    assert_eq!(content.len(), 3);
}
