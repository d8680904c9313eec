use sqlite_cms::prefs::{stored_json_is_empty, table_ui_meta_from_decoded};
use sqlite_cms::error::DomainError;
use sqlite_cms::prefs::{
    apply_column_renames_to_filter, apply_column_renames_to_sort, apply_column_renames_to_widths,
    build_order_by_from_sort, build_where_from_filter, compact_filter_entries, compute_sanitized_ui_preferences,
    escape_like_pattern, parse_filter_query_param, parse_sort_query_param, percent_decode_query_component,
    pragma_table_info_sql, prune_column_widths, should_skip_ui_meta_persist, split_column_value_query_parts,
    SanitizeUiPreferencesOptions, TableFilterEntry, TableSortDirection, TableSortEntry, TableUiMeta,
};
use sqlite_cms::table_data::{
    column_meta_from_pragma, column_type_label, order_columns_from_pragma, parse_cell_update_value,
    pragma_type_to_type_key, CellBindValue, PragmaTableInfoRow,
};

fn sort(column: &str, direction: TableSortDirection) -> TableSortEntry {
    TableSortEntry { column: column.to_string(), direction }
}

fn filter(column: &str, text: &str) -> TableFilterEntry {
    TableFilterEntry { column: column.to_string(), text: text.to_string() }
}

fn names(v: &[&str]) -> Vec<String> {
    v.iter().map(|s| s.to_string()).collect()
}

fn validation_message<T: std::fmt::Debug>(r: Result<T, DomainError>) -> String {
    match r {
        Err(DomainError::Validation(m)) => m,
        other => panic!("expected a validation error, got {other:?}"),
    }
}

#[test]
fn query_fragments_split_at_the_first_colon() {
    let parts = split_column_value_query_parts(" a : x:y , ,b:", "ソート").expect("parts");
    assert_eq!(parts, vec![("a".to_string(), " x:y".to_string()), ("b".to_string(), "".to_string())]);
    assert_eq!(
        validation_message(split_column_value_query_parts("a:1,oops", "ソート")),
        "ソート指定の形式が不正です: `oops`"
    );
    assert_eq!(validation_message(split_column_value_query_parts(":1", "フィルター")), "フィルター指定に列名が含まれていません");
    assert!(split_column_value_query_parts("", "ソート").expect("parts").is_empty());
}

#[test]
fn sort_and_filter_parameters() {
    let s = parse_sort_query_param("name:DESC, id: asc ").expect("sort");
    assert_eq!(s.len(), 2);
    assert_eq!(s[0].direction, TableSortDirection::Desc);
    assert_eq!(s[1].column, "id");
    assert_eq!(
        validation_message(parse_sort_query_param("name:up")),
        "ソート方向は asc または desc で指定してください: `up`"
    );
    let f = parse_filter_query_param("name:caf%C3%A9%20x,note:%FF").expect("filter");
    assert_eq!(f[0].text, "café x");
    assert_eq!(f[1].text, "%FF");
    assert_eq!(percent_decode_query_component("a%2Cb"), "a,b");
}

#[test]
fn like_patterns_and_where_clauses() {
    let escaped: String = escape_like_pattern(&"a%b_c\\".chars().collect()).into_iter().collect();
    assert_eq!(escaped, "a\\%b\\_c\\\\");
    let (clause, binds) =
        build_where_from_filter(&[], "t", &[filter("Name", "AbC"), filter("x", ""), filter("n\"o", "5_")]).expect("where");
    assert_eq!(
        clause,
        "WHERE LOWER(CAST(\"Name\" AS TEXT)) LIKE ? ESCAPE '\\' AND LOWER(CAST(\"n\"\"o\" AS TEXT)) LIKE ? ESCAPE '\\'"
    );
    assert_eq!(binds, vec!["%abc%".to_string(), "%5\\_%".to_string()]);
    let (empty, none) = build_where_from_filter(&[], "t", &[filter("a", "")]).expect("where");
    assert_eq!((empty.as_str(), none.len()), ("", 0));
    assert_eq!(
        build_order_by_from_sort(&[], "t", &[sort("a", TableSortDirection::Asc), sort("b", TableSortDirection::Desc)])
            .expect("order"),
        "\"a\" ASC, \"b\" DESC"
    );
    assert_eq!(pragma_table_info_sql("my\"t"), "PRAGMA table_info(\"my\"\"t\")");
}

#[test]
fn preferences_follow_column_renames() {
    let mut s = vec![sort("a", TableSortDirection::Asc), sort("z", TableSortDirection::Desc)];
    let renames = vec![("a".to_string(), "b".to_string()), ("a".to_string(), "c".to_string())];
    apply_column_renames_to_sort(&mut s, &renames);
    assert_eq!(s[0].column, "c");
    assert_eq!(s[1].column, "z");
    let mut f = vec![filter("a", "x")];
    apply_column_renames_to_filter(&mut f, &renames);
    assert_eq!(f[0].column, "c");
    let mut w = Some(vec![("a".to_string(), 10), ("c".to_string(), 20), ("q".to_string(), 5)]);
    apply_column_renames_to_widths(&mut w, &renames);
    assert_eq!(w, Some(vec![("c".to_string(), 20), ("q".to_string(), 5)]));
    let mut none: Option<Vec<(String, i32)>> = None;
    apply_column_renames_to_widths(&mut none, &renames);
    assert!(none.is_none());
}

#[test]
fn preferences_are_pruned_to_existing_columns() {
    let cols = names(&["id", "b"]);
    assert_eq!(
        prune_column_widths(&cols, Some(vec![("b".to_string(), 1), ("gone".to_string(), 2)])),
        Some(vec![("b".to_string(), 1)])
    );
    assert_eq!(prune_column_widths(&cols, Some(vec![("gone".to_string(), 2)])), None);
    assert_eq!(compact_filter_entries(&[filter("a", "  "), filter("b", "x")]).len(), 1);
    let meta = TableUiMeta {
        sort: Some(vec![sort("a", TableSortDirection::Asc)]),
        filter: Some(vec![filter("a", "x"), filter("gone", "y")]),
        column_widths: Some(vec![("a".to_string(), 100)]),
    };
    let renamed = compute_sanitized_ui_preferences(
        &cols,
        &meta,
        SanitizeUiPreferencesOptions { clear_sort_filter: false, column_renames: &[("a".to_string(), "b".to_string())] },
    );
    assert_eq!(renamed.sort[0].column, "b");
    assert_eq!(renamed.filter.len(), 1);
    assert_eq!(renamed.column_widths, Some(vec![("b".to_string(), 100)]));
    let cleared = compute_sanitized_ui_preferences(
        &names(&["a"]),
        &meta,
        SanitizeUiPreferencesOptions { clear_sort_filter: true, column_renames: &[] },
    );
    assert!(cleared.sort.is_empty() && cleared.filter.is_empty());
    assert_eq!(cleared.column_widths, Some(vec![("a".to_string(), 100)]));
    assert!(should_skip_ui_meta_persist(false, &[], &[], None));
    assert!(!should_skip_ui_meta_persist(true, &[], &[], None));
}

fn row(name: &str, column_type: &str, notnull: i32, pk: i32) -> PragmaTableInfoRow {
    PragmaTableInfoRow { name: name.to_string(), column_type: column_type.to_string(), notnull, pk }
}

#[test]
fn declared_types_and_default_order() {
    assert_eq!(pragma_type_to_type_key("varchar(20)"), Some("text"));
    assert_eq!(pragma_type_to_type_key("BIGINT"), Some("integer"));
    assert_eq!(pragma_type_to_type_key("double"), Some("real"));
    assert_eq!(pragma_type_to_type_key("datetime"), Some("timestamp"));
    assert_eq!(pragma_type_to_type_key(""), Some("text"));
    assert_eq!(pragma_type_to_type_key("GEOMETRY"), None);
    assert_eq!(column_type_label("boolean"), "真偽値");
    assert_eq!(column_type_label("x"), "不明");
    let rows = vec![row("b", "TEXT", 0, 2), row("a", "INT", 1, 1), row("c", "TEXT", 0, 0)];
    assert_eq!(order_columns_from_pragma(&rows), "\"a\", \"b\"");
    assert_eq!(order_columns_from_pragma(&[row("x", "TEXT", 0, 0), row("ID", "INT", 0, 0)]), "\"id\"");
    assert_eq!(order_columns_from_pragma(&[row("x", "TEXT", 0, 0)]), "\"x\"");
    assert_eq!(order_columns_from_pragma(&[]), "rowid");
    let meta = column_meta_from_pragma(&rows).expect("meta");
    assert_eq!(meta[1].type_key, "integer");
    assert!(meta[1].pk && !meta[1].nullable && meta[0].nullable);
}

#[test]
fn typed_cell_values() {
    assert!(matches!(parse_cell_update_value("boolean", false, false, " TRUE ", "f"), Ok(CellBindValue::Integer(1))));
    assert!(matches!(parse_cell_update_value("real", false, false, " 1.50 ", "r"), Ok(CellBindValue::Real(s)) if s == "1.50"));
    assert!(matches!(parse_cell_update_value("blob", false, false, "0x0aff", "b"), Ok(CellBindValue::Blob(b)) if b == vec![0x0a, 0xff]));
    assert!(matches!(parse_cell_update_value("text", true, false, "  ", "t"), Ok(CellBindValue::Null)));
    assert_eq!(
        validation_message(parse_cell_update_value("boolean", false, false, "yes", "f")),
        "fは 0/1 または true/false で指定してください"
    );
    assert_eq!(validation_message(parse_cell_update_value("json", true, false, "1", "j")), "カラム `j` の型が不正です");
    assert!(matches!(
        parse_cell_update_value("timestamp", false, false, "2026-01-02 03:04", "ts"),
        Ok(CellBindValue::Text(s)) if s == "2026-01-02T03:04:00+09:00"
    ));
}

#[test]
fn stored_preference_columns() {
    assert!(stored_json_is_empty("", "{}"));
    assert!(stored_json_is_empty("{}", "{}"));
    assert!(!stored_json_is_empty("[]", "{}"));
    assert!(!stored_json_is_empty("{\"a\":1}", "{}"));
    let meta = table_ui_meta_from_decoded(Some(vec![]), Some(vec![sort("a", TableSortDirection::Asc)]), Some(vec![]));
    assert!(meta.column_widths.is_none());
    assert_eq!(meta.sort.expect("sort").len(), 1);
    assert!(meta.filter.is_none());
}
