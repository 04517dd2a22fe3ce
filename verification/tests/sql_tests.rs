use clipper_studio::sql::{sql_escape, sql_opt_int, sql_opt_text, sql_quoted, sql_text_or_null};

#[test]
fn quotes_are_doubled() {
    assert_eq!(sql_escape("it's"), "it''s");
    assert_eq!(sql_escape("''"), "''''");
    assert_eq!(sql_quoted("O'Neil"), "'O''Neil'");
}

#[test]
fn escaping_round_trips() {
    for s in ["", "a", "'", "x'y'z", "主播's"] {
        let e = sql_escape(s);
        assert_eq!(e.replace("''", "'"), s);
    }
}

#[test]
fn optional_literals() {
    assert_eq!(sql_opt_text(&None), "NULL");
    assert_eq!(sql_opt_text(&Some("a'b".to_string())), "'a''b'");
    assert_eq!(sql_text_or_null(""), "NULL");
    assert_eq!(sql_text_or_null("x"), "'x'");
    assert_eq!(sql_opt_int(Some(-42)), "-42");
    assert_eq!(sql_opt_int(None), "NULL");
}
