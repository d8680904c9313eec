use sqlite_cms::sql_scan::strip_sql_comments;

fn strip(s: &str) -> String {
    strip_sql_comments(&s.chars().collect()).into_iter().collect()
}

#[test]
fn sql_without_comment_marks_is_unchanged() {
    let sql = "SELECT a - b, 'x--y' FROM t WHERE c / d > 1";
    assert_eq!(strip(sql), sql);
}

#[test]
fn stripped_unquoted_sql_has_no_comment_marks() {
    let sql = "SELECT -/* c */-1 -- tail\nFROM t /* open";
    let out = strip(sql);
    assert_eq!(out, "SELECT - -1  FROM t ");
    assert!(!out.contains("--") && !out.contains("/*"));
    assert!(out.chars().count() <= sql.chars().count());
}
