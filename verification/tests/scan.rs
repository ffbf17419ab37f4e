use csvtab::cursor::{scan_table, Cursor};
use csvtab::errors::VtabError;
use csvtab::table::{connect, TableInstance};

fn mk(opts: &[&str]) -> Vec<String> {
    let mut v: Vec<String> = vec!["module".to_string(), "db".to_string(), "tab".to_string()];
    for o in opts {
        v.push(o.to_string());
    }
    v
}

fn drain(c: &mut Cursor, t: &TableInstance) -> Vec<(i64, Vec<String>)> {
    c.filter(t).unwrap();
    let mut out = Vec::new();
    while !c.eof() {
        out.push((c.rowid(), c.current_row()));
        c.next().unwrap();
    }
    out
}

#[test]
fn scenario_header_names_and_rows() {
    let args = mk(&["table=name,age\nAlice,30\nBob,25", "header=yes"]);
    let (schema, t) = connect(&args).unwrap();
    assert_eq!(schema, "CREATE TABLE x(\"name\" TEXT, \"age\" TEXT);");
    let mut c = t.open();
    c.filter(&t).unwrap();
    assert!(!c.eof());
    assert_eq!(c.rowid(), 1);
    assert_eq!(c.column(0).unwrap().unwrap(), "Alice");
    assert_eq!(c.column(1).unwrap().unwrap(), "30");
    c.next().unwrap();
    assert!(!c.eof());
    assert_eq!(c.rowid(), 2);
    assert_eq!(c.column(0).unwrap().unwrap(), "Bob");
    assert_eq!(c.column(1).unwrap().unwrap(), "25");
    c.next().unwrap();
    assert!(c.eof());
}

#[test]
fn scenario_fixed_columns() {
    let args = mk(&["table=1,2,3\n4,5,6", "columns=3", "header=no"]);
    let (schema, t) = connect(&args).unwrap();
    assert_eq!(schema, "CREATE TABLE x(\"c0\" TEXT, \"c1\" TEXT, \"c2\" TEXT);");
    let mut c = t.open();
    let rows = drain(&mut c, &t);
    assert_eq!(rows.len(), 2);
    assert_eq!(rows[0].1, vec!["1", "2", "3"]);
    assert_eq!(rows[1].1, vec!["4", "5", "6"]);
}

#[test]
fn scenario_argument_without_separator() {
    let args = mk(&["foo"]);
    let e = connect(&args).unwrap_err();
    assert!(matches!(e, VtabError::ParameterError(_)));
    assert_eq!(e.message(), "illegal argument: 'foo'");
}

#[test]
fn scenario_empty_table_value() {
    let args = mk(&["table="]);
    let e = connect(&args).unwrap_err();
    assert!(matches!(e, VtabError::SchemaError(_)));
    assert_eq!(e.message(), "no table name specified");
}

#[test]
fn empty_table_value_fails_before_later_errors() {
    // The empty payload is an immediate failure, not one deferred until
    // after the remaining (here malformed) arguments are inspected.
    let args = mk(&["table=", "this-is-not-a-pair"]);
    let e = connect(&args).unwrap_err();
    assert!(matches!(e, VtabError::SchemaError(_)));
    assert_eq!(e.message(), "no table name specified");
}

#[test]
fn filter_is_idempotent_and_restartable() {
    let args = mk(&["table=a,b\nc,d\ne,f", "header=no", "columns=2"]);
    let (_, t) = connect(&args).unwrap();
    let mut c1 = t.open();
    let fresh = drain(&mut c1, &t);
    let mut c2 = t.open();
    c2.filter(&t).unwrap();
    c2.next().unwrap();
    // Restart mid-scan: the second drain must match a fresh cursor's drain.
    let again = drain(&mut c2, &t);
    assert_eq!(fresh, again);
    // And restarting an exhausted cursor works too.
    let third = drain(&mut c2, &t);
    assert_eq!(fresh, third);
}

#[test]
fn rowids_count_up_from_one_without_gaps() {
    let args = mk(&["table=a\nb\nc\nd", "header=no"]);
    let (_, t) = connect(&args).unwrap();
    let mut c = t.open();
    let rows = drain(&mut c, &t);
    let ids: Vec<i64> = rows.iter().map(|r| r.0).collect();
    assert_eq!(ids, vec![1, 2, 3, 4]);
}

#[test]
fn quote_zero_leaves_quote_bytes_alone() {
    let args = mk(&["table=he\"llo,x", "header=no", "quote=0", "columns=2"]);
    let (_, t) = connect(&args).unwrap();
    let mut c = t.open();
    c.filter(&t).unwrap();
    assert_eq!(c.column(0).unwrap().unwrap(), "he\"llo");
    assert_eq!(c.column(1).unwrap().unwrap(), "x");
}

#[test]
fn default_quote_interprets_quoted_fields() {
    let args = mk(&["table=\"a,b\",x", "header=no", "columns=2"]);
    let (_, t) = connect(&args).unwrap();
    let mut c = t.open();
    c.filter(&t).unwrap();
    assert_eq!(c.column(0).unwrap().unwrap(), "a,b");
}

#[test]
fn column_on_empty_record_is_null() {
    let args = mk(&["table=a,b", "header=no"]);
    let (_, t) = connect(&args).unwrap();
    let c = t.open();
    // A cursor not yet holding a record has zero fields: the result is a
    // null value, never an empty string.
    assert_eq!(c.column(0).unwrap(), None);
}

#[test]
fn column_out_of_range_is_an_index_error() {
    let args = mk(&["table=a,b", "header=no"]);
    let (_, t) = connect(&args).unwrap();
    let mut c = t.open();
    c.filter(&t).unwrap();
    let e = c.column(2).unwrap_err();
    assert!(matches!(e, VtabError::IndexError(_)));
    assert_eq!(e.message(), "column index out of bounds: 2");
}

#[test]
fn header_names_get_their_quotes_doubled() {
    let args = mk(&["table=na\"me,age\na,b", "header=yes", "quote=0"]);
    let (schema, _) = connect(&args).unwrap();
    assert_eq!(schema, "CREATE TABLE x(\"na\"\"me\" TEXT, \"age\" TEXT);");
}

#[test]
fn explicit_columns_win_even_with_header() {
    let args = mk(&["table=h1,h2\na,b", "header=yes", "columns=2"]);
    let (schema, t) = connect(&args).unwrap();
    assert_eq!(schema, "CREATE TABLE x(\"c0\" TEXT, \"c1\" TEXT);");
    let mut c = t.open();
    let rows = drain(&mut c, &t);
    // The header row is still skipped.
    assert_eq!(rows.len(), 1);
    assert_eq!(rows[0].1, vec!["a", "b"]);
}

#[test]
fn escaped_newlines_in_the_payload_are_row_breaks() {
    let args = mk(&["table=a,b\\nc,d", "header=no"]);
    let (_, t) = connect(&args).unwrap();
    let mut c = t.open();
    let rows = drain(&mut c, &t);
    assert_eq!(rows.len(), 2);
    assert_eq!(rows[0].1, vec!["a", "b"]);
    assert_eq!(rows[1].1, vec!["c", "d"]);
}

#[test]
fn custom_delimiter() {
    let args = mk(&["table=a;b\nc;d", "header=no", "delimiter=;"]);
    let (schema, t) = connect(&args).unwrap();
    assert_eq!(schema, "CREATE TABLE x(\"c0\" TEXT, \"c1\" TEXT);");
    let mut c = t.open();
    let rows = drain(&mut c, &t);
    assert_eq!(rows[0].1, vec!["a", "b"]);
    assert_eq!(rows[1].1, vec!["c", "d"]);
}

#[test]
fn explicit_schema_is_used_verbatim() {
    let args = mk(&["table=x,y\n1,2", "header=yes", "schema=CREATE TABLE t(a INT, b INT);"]);
    let (schema, t) = connect(&args).unwrap();
    assert_eq!(schema, "CREATE TABLE t(a INT, b INT);");
    let mut c = t.open();
    let rows = drain(&mut c, &t);
    // The header row is read and skipped even when the schema is explicit.
    assert_eq!(rows.len(), 1);
    assert_eq!(rows[0].1, vec!["1", "2"]);
}

#[test]
fn quoted_option_values_are_dequoted() {
    let args = mk(&["table='a,b'", "header=no"]);
    let (_, t) = connect(&args).unwrap();
    let mut c = t.open();
    let rows = drain(&mut c, &t);
    assert_eq!(rows[0].1, vec!["a", "b"]);
}

#[test]
fn no_arguments_means_no_table() {
    let args: Vec<String> = vec!["module".to_string(), "db".to_string(), "tab".to_string()];
    let e = connect(&args).unwrap_err();
    assert!(matches!(e, VtabError::SchemaError(_)));
    assert_eq!(e.message(), "no table name specified");
}

#[test]
fn scan_table_drains_everything() {
    let args = mk(&["table=h1,h2\np,q\nr,s", "header=yes"]);
    let (schema, rows) = scan_table(&args).unwrap();
    assert_eq!(schema, "CREATE TABLE x(\"h1\" TEXT, \"h2\" TEXT);");
    assert_eq!(rows, vec![vec!["p", "q"], vec!["r", "s"]]);
}

#[test]
fn best_index_reports_the_fixed_full_scan_cost() {
    let args = mk(&["table=a", "header=no"]);
    let (_, t) = connect(&args).unwrap();
    assert_eq!(t.best_index(), 1_000_000);
}

#[test]
fn restart_with_header_skips_it_every_time() {
    let args = mk(&["table=h1,h2\na,b\nc,d", "header=yes"]);
    let (_, t) = connect(&args).unwrap();
    let mut c = t.open();
    let first = drain(&mut c, &t);
    assert_eq!(first.len(), 2);
    assert_eq!(first[0].1, vec!["a", "b"]);
    // Restarting rewinds to the position after the header, never to the
    // payload start: the header must not reappear as a data row.
    let second = drain(&mut c, &t);
    assert_eq!(first, second);
}

#[test]
fn unequal_row_lengths_are_a_parse_error() {
    let args = mk(&["table=a,b\nc", "header=no"]);
    let (_, t) = connect(&args).unwrap();
    let mut c = t.open();
    c.filter(&t).unwrap();
    assert_eq!(c.current_row(), vec!["a", "b"]);
    let e = c.next().unwrap_err();
    assert!(matches!(e, VtabError::ParseError(_)));
}

#[test]
fn no_determinable_columns_is_a_schema_error() {
    // A payload of one blank line parses to no records, so with no header
    // names, no explicit count and no explicit schema there is nothing to
    // build a schema from.
    let args = mk(&["table=\\n", "header=no"]);
    let e = connect(&args).unwrap_err();
    assert!(matches!(e, VtabError::SchemaError(_)));
    assert_eq!(e.message(), "no column specified");
}

#[test]
fn restart_keeps_a_byte_order_mark_inside_the_payload() {
    // A U+FEFF at the start of a later record is ordinary field content,
    // and a restarted scan must yield it exactly as the first scan did.
    let args = mk(&["table=h\n\u{feff}x", "header=yes"]);
    let (_, t) = connect(&args).unwrap();
    let mut c = t.open();
    let first = drain(&mut c, &t);
    let second = drain(&mut c, &t);
    assert_eq!(first, second);
    assert_eq!(first.len(), 1);
    assert_eq!(first[0].1, vec!["\u{feff}x"]);
}

#[test]
fn byte_order_mark_at_the_payload_start_is_stripped_consistently() {
    let args = mk(&["table=\u{feff}h\nv", "header=yes"]);
    let (schema, t) = connect(&args).unwrap();
    assert_eq!(schema, "CREATE TABLE x(\"h\" TEXT);");
    let mut c = t.open();
    let first = drain(&mut c, &t);
    let second = drain(&mut c, &t);
    assert_eq!(first, second);
    assert_eq!(first[0].1, vec!["v"]);
}

#[test]
fn restart_recovers_after_a_parse_error() {
    let args = mk(&["table=h1,h2\na,b\nc", "header=yes"]);
    let (_, t) = connect(&args).unwrap();
    let mut c = t.open();
    c.filter(&t).unwrap();
    assert_eq!(c.current_row(), vec!["a", "b"]);
    let e = c.next().unwrap_err();
    assert!(matches!(e, VtabError::ParseError(_)));
    // A restart re-enters the scan from the first data row as if nothing
    // had happened.
    c.filter(&t).unwrap();
    assert_eq!(c.rowid(), 1);
    assert_eq!(c.current_row(), vec!["a", "b"]);
}
