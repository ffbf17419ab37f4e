use csvtab::errors::VtabError;
use csvtab::table::connect;
use csvtab::text::{dequote_str, parse_u16_str, trim_str};

fn mk(opts: &[&str]) -> Vec<String> {
    let mut v: Vec<String> = vec!["module".to_string(), "db".to_string(), "tab".to_string()];
    for o in opts {
        v.push(o.to_string());
    }
    v
}

fn param_err(opts: &[&str]) -> VtabError {
    let e = connect(&mk(opts)).unwrap_err();
    assert!(matches!(e, VtabError::ParameterError(_)));
    e
}

#[test]
fn columns_zero_is_rejected() {
    let e = param_err(&["table=a,b", "columns=0"]);
    assert_eq!(e.message(), "must have at least one column");
}

#[test]
fn columns_given_twice_is_rejected() {
    let e = param_err(&["table=a,b", "columns=2", "columns=3"]);
    assert_eq!(e.message(), "more than one 'columns' parameter");
}

#[test]
fn columns_must_be_a_number() {
    let e = param_err(&["table=a,b", "columns=abc"]);
    assert_eq!(e.message(), "unrecognized argument to 'columns': abc");
}

#[test]
fn columns_too_large_is_rejected() {
    let e = param_err(&["table=a,b", "columns=65536"]);
    assert_eq!(e.message(), "unrecognized argument to 'columns': 65536");
}

#[test]
fn header_token_must_be_boolean_like() {
    let e = param_err(&["table=a,b", "header=maybe"]);
    assert_eq!(e.message(), "unrecognized argument to 'header': maybe");
}

#[test]
fn header_tokens_are_case_insensitive() {
    let args = mk(&["table=h\nv", "header=TRUE"]);
    let (schema, _) = connect(&args).unwrap();
    assert_eq!(schema, "CREATE TABLE x(\"h\" TEXT);");
    let args = mk(&["table=h\nv", "header=Off"]);
    let (schema, _) = connect(&args).unwrap();
    assert_eq!(schema, "CREATE TABLE x(\"c0\" TEXT);");
}

#[test]
fn delimiter_must_be_one_byte() {
    let e = param_err(&["table=a,b", "delimiter=;;"]);
    assert_eq!(e.message(), "unrecognized argument to 'delimiter': ;;");
}

#[test]
fn quote_must_be_one_byte() {
    let e = param_err(&["table=a,b", "quote=<<"]);
    assert_eq!(e.message(), "unrecognized argument to 'quote': <<");
}

#[test]
fn unknown_keys_are_rejected() {
    let e = param_err(&["table=a,b", "frobnicate=1"]);
    assert_eq!(e.message(), "unrecognized parameter 'frobnicate'");
}

#[test]
fn surrounding_whitespace_is_trimmed() {
    let args = mk(&["  header = yes ", "table=h1\nv1"]);
    // The key is trimmed on both sides; the value keeps no surrounding
    // whitespace here because the argument's own trim removes it.
    let e = connect(&args).unwrap_err();
    // " yes " survives as " yes" after the outer trim, which is not a
    // recognized boolean token.
    assert!(matches!(e, VtabError::ParameterError(_)));
    let args = mk(&[" header=yes", "table=h1\nv1"]);
    let (schema, _) = connect(&args).unwrap();
    assert_eq!(schema, "CREATE TABLE x(\"h1\" TEXT);");
}

#[test]
fn trim_and_dequote_helpers() {
    assert_eq!(trim_str("  a b \t"), "a b");
    assert_eq!(trim_str(""), "");
    assert_eq!(dequote_str("'abc'"), "abc");
    assert_eq!(dequote_str("\"abc\""), "abc");
    assert_eq!(dequote_str("\"abc'"), "\"abc'");
    assert_eq!(dequote_str("x"), "x");
}

#[test]
fn u16_parser_matches_std_behaviour() {
    assert_eq!(parse_u16_str("12"), Some(12));
    assert_eq!(parse_u16_str("+12"), Some(12));
    assert_eq!(parse_u16_str("65535"), Some(65535));
    assert_eq!(parse_u16_str("65536"), None);
    assert_eq!(parse_u16_str(""), None);
    assert_eq!(parse_u16_str("+"), None);
    assert_eq!(parse_u16_str("1x"), None);
    assert_eq!(parse_u16_str("-1"), None);
}

#[test]
fn numeric_header_tokens() {
    let args = mk(&["table=h\nv", "header=1"]);
    let (schema, _) = connect(&args).unwrap();
    assert_eq!(schema, "CREATE TABLE x(\"h\" TEXT);");
    let args = mk(&["table=h\nv", "header=0"]);
    let (schema, _) = connect(&args).unwrap();
    assert_eq!(schema, "CREATE TABLE x(\"c0\" TEXT);");
}

#[test]
fn synthesized_names_reach_two_digits() {
    let args = mk(&["table=a", "columns=12"]);
    let (schema, _) = connect(&args).unwrap();
    assert_eq!(
        schema,
        "CREATE TABLE x(\"c0\" TEXT, \"c1\" TEXT, \"c2\" TEXT, \"c3\" TEXT, \"c4\" TEXT, \
         \"c5\" TEXT, \"c6\" TEXT, \"c7\" TEXT, \"c8\" TEXT, \"c9\" TEXT, \"c10\" TEXT, \
         \"c11\" TEXT);"
    );
}

#[test]
fn value_runs_to_the_end_of_the_argument() {
    // The value of a `key=value` option is everything after the first `=`;
    // a second `=` belongs to the value.
    let args = mk(&["table=a=b,c", "header=no"]);
    let (_, t) = connect(&args).unwrap();
    let mut cur = t.open();
    cur.filter(&t).unwrap();
    assert_eq!(cur.column(0).unwrap().unwrap(), "a=b");
    assert_eq!(cur.column(1).unwrap().unwrap(), "c");

    let args = mk(&["table=1", "schema=CREATE TABLE t(a INT DEFAULT 1=1);"]);
    let (schema, _) = connect(&args).unwrap();
    assert_eq!(schema, "CREATE TABLE t(a INT DEFAULT 1=1);");
}
