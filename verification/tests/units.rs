use rsqloth::comments::extract_comments;
use rsqloth::interleave::interleave;
use rsqloth::model::{FmtError, Insert, ParsedStatement};
use rsqloth::render::{format_statement, generate_formatted_query};
use rsqloth::widths::{get_char_length_matrix, get_max_char_length_vec};
use rsqloth::{format_parsed, is_insert_only};

fn strings(words: &[&str]) -> Vec<String> {
    words.iter().map(|w| String::from(*w)).collect()
}

#[test]
fn comments_group_around_markers() {
    let groups = extract_comments("-- a\nINSERT INTO x\n-- b\n");
    assert_eq!(groups, vec![vec![String::from("-- a")], vec![String::from("-- b")]]);
}

#[test]
fn comment_swallows_marker_on_its_line() {
    let groups = extract_comments("-- INSERT INTO x\n");
    assert_eq!(groups, vec![vec![String::from("-- INSERT INTO x")]]);
}

#[test]
fn empty_text_has_one_empty_group() {
    let groups = extract_comments("");
    assert_eq!(groups, vec![Vec::<String>::new()]);
}

#[test]
fn comment_without_newline_runs_to_end() {
    let groups = extract_comments("INSERT INTO x\n-- tail");
    assert_eq!(groups, vec![vec![], vec![String::from("-- tail")]]);
}

#[test]
fn matrix_holds_header_and_value_lengths() {
    let columns = strings(&["id", "name"]);
    let values = vec![strings(&["1", "'alice'"]), strings(&["23", "'b'"])];
    let matrix = get_char_length_matrix(&columns, &values);
    assert_eq!(matrix, vec![vec![2, 4], vec![1, 7], vec![2, 3]]);
}

#[test]
fn max_vector_is_per_column() {
    let columns = strings(&["id", "name"]);
    let values = vec![strings(&["1", "'alice'"]), strings(&["23", "'b'"])];
    let maxes = get_max_char_length_vec(&columns, &values);
    assert_eq!(maxes, vec![2, 7]);
}

#[test]
fn generate_pads_every_cell() {
    let columns = strings(&["a", "bb"]);
    let values = vec![strings(&["1", "2"])];
    let maxes = vec![1, 2];
    let out = generate_formatted_query(&String::from("t"), &columns, &values, &maxes);
    assert_eq!(out, "INSERT INTO t\n(a,bb)\nVALUES\n(1,2 );\n\n");
}

#[test]
fn format_statement_derives_the_widths() {
    let ins = Insert {
        table: String::from("t"),
        columns: strings(&["id", "name"]),
        rows: vec![strings(&["1", "'alice'"]), strings(&["23", "'b'"])],
    };
    assert!(ins.check_wf());
    let out = format_statement(&ins);
    assert_eq!(out, "INSERT INTO t\n(id,name   )\nVALUES\n(1 ,'alice'),\n(23,'b'    );\n\n");
}

#[test]
fn check_wf_rejects_ragged_rows() {
    let ins = Insert {
        table: String::from("t"),
        columns: strings(&["a"]),
        rows: vec![strings(&["1", "2"])],
    };
    assert!(!ins.check_wf());
    let empty_cols = Insert { table: String::from("t"), columns: vec![], rows: vec![] };
    assert!(!empty_cols.check_wf());
}

#[test]
fn is_insert_only_spots_other_statements() {
    let ins = Insert { table: String::from("t"), columns: strings(&["a"]), rows: vec![] };
    let all = vec![ParsedStatement::InsertValues(ins)];
    assert!(is_insert_only(&all));
    let mixed = vec![
        ParsedStatement::InsertValues(Insert {
            table: String::from("t"),
            columns: strings(&["a"]),
            rows: vec![],
        }),
        ParsedStatement::Other,
    ];
    assert!(!is_insert_only(&mixed));
}

#[test]
fn format_parsed_interleaves_comments() {
    let ins = Insert {
        table: String::from("t"),
        columns: strings(&["a"]),
        rows: vec![strings(&["1"])],
    };
    let stmts = vec![ParsedStatement::InsertValues(ins)];
    let out = format_parsed(&stmts, "-- note\nINSERT INTO t (a) VALUES (1);").unwrap();
    assert_eq!(out, "-- note\n\nINSERT INTO t\n(a)\nVALUES\n(1);\n\n");
}

#[test]
fn format_parsed_rejects_boundary_mismatch() {
    let ins = Insert {
        table: String::from("t"),
        columns: strings(&["a"]),
        rows: vec![strings(&["1"])],
    };
    let stmts = vec![ParsedStatement::InsertValues(ins)];
    let r = format_parsed(&stmts, "no marker here");
    assert!(matches!(r, Err(FmtError::StructuralMismatch)));
}

#[test]
fn interleave_puts_a_blank_line_after_each_comment_group() {
    let groups = vec![vec![String::from("-- x")], vec![]];
    let queries = vec![String::from("Q"), String::new()];
    let out = interleave(&groups, &queries);
    assert_eq!(out, "-- x\n\nQ");
}

#[test]
fn error_messages_name_the_failure() {
    assert_eq!(
        FmtError::UnsupportedStatement.message(),
        "can't format queries other than INSERT"
    );
    assert_eq!(FmtError::ParseError(String::from("boom")).message(), "boom");
    assert_eq!(
        FmtError::StructuralMismatch.message(),
        "statement structure and source text do not agree"
    );
}
