use rsqloth::{format_insert_queries, FmtError};

#[test]
fn single_statement_aligns_columns() {
    let out = format_insert_queries("INSERT INTO t (a, bb) VALUES (1, 2);").unwrap();
    assert_eq!(out, "INSERT INTO t\n(a,bb)\nVALUES\n(1,2 );\n\n");
}

#[test]
fn leading_comment_stays_before_statement() {
    let out = format_insert_queries("-- note\nINSERT INTO t (a) VALUES (1);").unwrap();
    assert_eq!(out, "-- note\n\nINSERT INTO t\n(a)\nVALUES\n(1);\n\n");
    assert!(out.starts_with("-- note\n"));
}

#[test]
fn two_statements_keep_order() {
    let out = format_insert_queries(
        "INSERT INTO a (x) VALUES (1);\nINSERT INTO b (y) VALUES (2);",
    )
    .unwrap();
    assert_eq!(
        out,
        "INSERT INTO a\n(x)\nVALUES\n(1);\n\nINSERT INTO b\n(y)\nVALUES\n(2);\n\n"
    );
    let a = out.find("INSERT INTO a").unwrap();
    let b = out.find("INSERT INTO b").unwrap();
    assert!(a < b);
}

#[test]
fn select_statement_is_rejected() {
    let r = format_insert_queries("SELECT * FROM t; INSERT INTO t (a) VALUES (1);");
    assert!(matches!(r, Err(FmtError::UnsupportedStatement)));
}

#[test]
fn update_statement_is_rejected() {
    let r = format_insert_queries("UPDATE t SET a = 1;");
    assert!(matches!(r, Err(FmtError::UnsupportedStatement)));
}

#[test]
fn invalid_sql_is_a_parse_error() {
    let r = format_insert_queries("this is not sql");
    assert!(matches!(r, Err(FmtError::ParseError(_))));
}

#[test]
fn malformed_granted_by_is_a_parse_error() {
    let r = format_insert_queries("GRANT ALL ON t TO u GRANTED BY 1");
    assert!(matches!(r, Err(FmtError::ParseError(_))));
}

#[test]
fn malformed_div_expression_is_a_parse_error() {
    let r = format_insert_queries("INSERT INTO t (a) VALUES (1 DIV);");
    assert!(matches!(r, Err(FmtError::ParseError(_))));
}

#[test]
fn lowercase_insert_is_a_structural_mismatch() {
    // The parser accepts lowercase keywords, but the lexical scan only
    // recognises the literal marker `INSERT INTO`, so the boundary count
    // cannot match the parsed statement count.
    let r = format_insert_queries("insert into t (a) values (1);");
    assert!(matches!(r, Err(FmtError::StructuralMismatch)));
}

#[test]
fn missing_column_list_is_a_structural_mismatch() {
    let r = format_insert_queries("INSERT INTO t VALUES (1);");
    assert!(matches!(r, Err(FmtError::StructuralMismatch)));
}

#[test]
fn row_wider_than_columns_is_a_structural_mismatch() {
    let r = format_insert_queries("INSERT INTO t (a) VALUES (1, 2);");
    assert!(matches!(r, Err(FmtError::StructuralMismatch)));
}

#[test]
fn multi_row_values_line_up() {
    let out =
        format_insert_queries("INSERT INTO t (id, name) VALUES (1, 'alice'), (23, 'b');").unwrap();
    assert_eq!(
        out,
        "INSERT INTO t\n(id,name   )\nVALUES\n(1 ,'alice'),\n(23,'b'    );\n\n"
    );
    // the two value-row lines have the same width
    let lines: Vec<&str> = out.lines().collect();
    assert_eq!(lines[3].len(), lines[4].len());
}

#[test]
fn padding_counts_characters_not_bytes() {
    let out = format_insert_queries("INSERT INTO t (x, yyyyyyyyy) VALUES ('h\u{e9}llo', 1);")
        .unwrap();
    assert_eq!(
        out,
        "INSERT INTO t\n(x      ,yyyyyyyyy)\nVALUES\n('h\u{e9}llo',1        );\n\n"
    );
}

#[test]
fn formatting_is_idempotent_on_plain_statements() {
    let once = format_insert_queries("INSERT INTO t (a, bb) VALUES (1, 2);").unwrap();
    let twice = format_insert_queries(&once).unwrap();
    assert_eq!(once, twice);
}

#[test]
fn formatting_is_idempotent_with_comments() {
    let input = "-- note\nINSERT INTO t (id, name) VALUES (1, 'alice'), (23, 'b');\n-- tail";
    let once = format_insert_queries(input).unwrap();
    let twice = format_insert_queries(&once).unwrap();
    assert_eq!(once, twice);
}

#[test]
fn comments_round_trip_in_order() {
    let input = "-- first\nINSERT INTO a (x) VALUES (1);\n-- second\nINSERT INTO b (y) VALUES (2);\n-- last";
    let out = format_insert_queries(input).unwrap();
    let p1 = out.find("-- first").unwrap();
    let pa = out.find("INSERT INTO a").unwrap();
    let p2 = out.find("-- second").unwrap();
    let pb = out.find("INSERT INTO b").unwrap();
    let p3 = out.find("-- last").unwrap();
    assert!(p1 < pa && pa < p2 && p2 < pb && pb < p3);
}

#[test]
fn empty_input_formats_to_empty_output() {
    let out = format_insert_queries("").unwrap();
    assert_eq!(out, "");
}

#[test]
fn comment_only_input_keeps_the_comments() {
    let out = format_insert_queries("-- a\n-- b").unwrap();
    assert_eq!(out, "-- a\n-- b\n\n");
}

#[test]
fn marker_inside_string_literal_is_a_structural_mismatch() {
    // The lexical scan sees a second `INSERT INTO` inside the string value,
    // so the boundary count cannot match the single parsed statement.
    let r = format_insert_queries("INSERT INTO t (a) VALUES ('INSERT INTO x');");
    assert!(matches!(r, Err(FmtError::StructuralMismatch)));
}

#[test]
fn trailing_comment_group_is_kept() {
    let out = format_insert_queries("INSERT INTO t (a) VALUES (1);\n-- done").unwrap();
    assert_eq!(out, "INSERT INTO t\n(a)\nVALUES\n(1);\n\n-- done\n\n");
}
