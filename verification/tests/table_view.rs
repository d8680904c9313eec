use sqlite_cms::error::DomainError;
use sqlite_cms::prefs::{TableFilterEntry, TableSortDirection, TableSortEntry, TableUiMeta};
use sqlite_cms::table_data::{CellBindValue, PragmaTableInfoRow};
use sqlite_cms::table_view::{
    assemble_table_data_view, check_rows_offset, needs_stored_ui_meta, plan_cell_update, plan_table_rows_query,
    rows_chunk_sql, TableCellUpdateRequest, TABLE_DATA_CHUNK_SIZE,
};

fn row(name: &str, column_type: &str, notnull: i32, pk: i32) -> PragmaTableInfoRow {
    PragmaTableInfoRow { name: name.to_string(), column_type: column_type.to_string(), notnull, pk }
}

fn notes_rows() -> Vec<PragmaTableInfoRow> {
    vec![row("id", "INTEGER", 1, 1), row("title", "TEXT", 1, 0), row("n", "INTEGER", 0, 0)]
}

fn request(column: &str, value: &str, null: bool, keys: &[(&str, &str)]) -> TableCellUpdateRequest {
    TableCellUpdateRequest {
        column: column.to_string(),
        value: value.to_string(),
        null,
        keys: keys.iter().map(|(k, v)| (k.to_string(), v.to_string())).collect(),
    }
}

fn validation_message<T: std::fmt::Debug>(r: Result<T, DomainError>) -> String {
    match r {
        Err(DomainError::Validation(m)) => m,
        other => panic!("expected a validation error, got {other:?}"),
    }
}

#[test]
fn cell_update_binds_the_value_then_the_key() {
    let plan = plan_cell_update("notes", &request("n", " 42 ", false, &[("id", "7")]), &notes_rows()).expect("plan");
    assert_eq!(plan.sql, "UPDATE \"notes\" SET \"n\" = ? WHERE \"id\" = ?");
    assert!(matches!(plan.value, CellBindValue::Integer(42)));
    assert_eq!(plan.keys.len(), 1);
    assert!(matches!(plan.keys[0], CellBindValue::Integer(7)));
}

#[test]
fn cell_update_uses_every_key_column_in_table_order() {
    let rows = vec![row("a", "TEXT", 1, 2), row("b", "INTEGER", 1, 1), row("c", "TEXT", 0, 0)];
    let plan = plan_cell_update("t", &request("c", " x ", false, &[("b", "2"), ("a", "k")]), &rows).expect("plan");
    assert_eq!(plan.sql, "UPDATE \"t\" SET \"c\" = ? WHERE \"a\" = ? AND \"b\" = ?");
    assert!(matches!(&plan.value, CellBindValue::Text(s) if s == "x"));
    assert!(matches!(&plan.keys[0], CellBindValue::Text(s) if s == "k"));
    assert!(matches!(plan.keys[1], CellBindValue::Integer(2)));
}

#[test]
fn cell_update_null_into_a_nullable_column() {
    let plan = plan_cell_update("notes", &request("n", "", true, &[("id", "1")]), &notes_rows()).expect("plan");
    assert!(matches!(plan.value, CellBindValue::Null));
}

#[test]
fn cell_update_refusals() {
    let rows = notes_rows();
    assert_eq!(
        validation_message(plan_cell_update("notes", &request("zzz", "1", false, &[("id", "1")]), &rows)),
        "カラム `zzz` はテーブルに存在しません"
    );
    assert_eq!(
        validation_message(plan_cell_update("notes", &request("id", "1", false, &[("id", "1")]), &rows)),
        "主キー列は編集できません"
    );
    assert_eq!(
        validation_message(plan_cell_update("notes", &request("n", "1", false, &[]), &rows)),
        "主キー列 `id` の値が指定されていません"
    );
    assert_eq!(
        validation_message(plan_cell_update("notes", &request("n", "abc", false, &[("id", "x")]), &rows)),
        "nは整数で指定してください"
    );
    assert_eq!(
        validation_message(plan_cell_update("notes", &request("n", "5", false, &[("id", "x")]), &rows)),
        "idは整数で指定してください"
    );
    assert_eq!(
        validation_message(plan_cell_update("notes", &request("title", "", true, &[("id", "1")]), &rows)),
        "NOT NULL 列 `title` には NULL を設定できません"
    );
    let no_key = vec![row("a", "TEXT", 0, 0), row("b", "TEXT", 0, 0)];
    assert_eq!(
        validation_message(plan_cell_update("t", &request("a", "x", false, &[]), &no_key)),
        "主キー列が定義されていないテーブルは編集できません"
    );
    let odd_type = vec![row("id", "INTEGER", 1, 1), row("g", "GEOMETRY", 0, 0)];
    assert_eq!(
        validation_message(plan_cell_update("t", &request("g", "x", false, &[("id", "1")]), &odd_type)),
        "カラム `g` の型を判別できません"
    );
}

#[test]
fn rows_query_uses_the_request_over_stored_preferences() {
    let rows = vec![row("id", "INTEGER", 1, 1), row("name", "TEXT", 0, 0), row("note", "TEXT", 0, 0)];
    let sort = vec![
        TableSortEntry { column: "name".to_string(), direction: TableSortDirection::Desc },
        TableSortEntry { column: "ghost".to_string(), direction: TableSortDirection::Asc },
    ];
    let filter = vec![
        TableFilterEntry { column: "note".to_string(), text: "50%".to_string() },
        TableFilterEntry { column: "name".to_string(), text: "  ".to_string() },
    ];
    let q = plan_table_rows_query(&rows, Some(sort.as_slice()), Some(filter.as_slice()), None);
    assert_eq!(q.columns, vec!["id".to_string(), "name".to_string(), "note".to_string()]);
    assert_eq!(q.sort.len(), 1);
    assert_eq!(q.sort[0].column, "name");
    assert_eq!(q.filter.len(), 1);
    assert_eq!(q.where_clause, "WHERE LOWER(CAST(\"note\" AS TEXT)) LIKE ? ESCAPE '\\'");
    assert_eq!(q.where_binds, vec!["%50\\%%".to_string()]);
    assert_eq!(q.order_by, "\"name\" DESC");
}

#[test]
fn rows_query_defaults_to_stored_sort_or_key_order() {
    let rows = vec![row("id", "INTEGER", 1, 1), row("name", "TEXT", 0, 0)];
    let q = plan_table_rows_query(&rows, None, None, None);
    assert_eq!(q.order_by, "\"id\"");
    assert_eq!(q.where_clause, "");
    assert!(q.where_binds.is_empty());
    let stored = TableUiMeta {
        sort: Some(vec![TableSortEntry { column: "name".to_string(), direction: TableSortDirection::Asc }]),
        filter: None,
        column_widths: None,
    };
    let q2 = plan_table_rows_query(&rows, None, None, Some(&stored));
    assert_eq!(q2.order_by, "\"name\" ASC");
    assert!(needs_stored_ui_meta(None, Some(&[][..])));
    assert!(!needs_stored_ui_meta(Some(&[][..]), Some(&[][..])));
}

#[test]
fn rows_chunk_sql_and_offsets() {
    assert_eq!(TABLE_DATA_CHUNK_SIZE, 1000);
    assert_eq!(
        rows_chunk_sql("notes", 0, 1000, "\"id\"", "").expect("sql"),
        "SELECT * FROM \"notes\" ORDER BY \"id\" LIMIT 1000 OFFSET 0"
    );
    assert_eq!(
        rows_chunk_sql("notes", 2000, 1000, "\"id\"", "WHERE x").expect("sql"),
        "SELECT * FROM \"notes\" WHERE x ORDER BY \"id\" LIMIT 1000 OFFSET 2000"
    );
    assert_eq!(validation_message(rows_chunk_sql("notes", -1, 10, "\"id\"", "")), "offset と limit は 0 以上で指定してください");
    assert!(check_rows_offset(0).is_ok());
    assert_eq!(validation_message(check_rows_offset(-5)), "offset は 0 以上で指定してください");
}

#[test]
fn first_page_carries_preferences_and_metadata() {
    let rows = vec![row("id", "INTEGER", 1, 1), row("name", "TEXT", 0, 0)];
    let q = plan_table_rows_query(&rows, None, None, None);
    let data = vec![vec![Some("1".to_string()), None], vec![Some("2".to_string()), Some("b".to_string())]];
    let widths = Some(vec![("name".to_string(), 120), ("gone".to_string(), 80)]);
    let view = assemble_table_data_view(q.clone(), &rows, data.clone(), 5, 0, widths).expect("view");
    assert!(view.has_more);
    assert_eq!(view.total_count, 5);
    assert_eq!(view.rows, data);
    assert_eq!(view.column_widths, Some(vec![("name".to_string(), 120)]));
    assert!(view.sort.is_some() && view.filter.is_some());
    let meta = view.column_meta.expect("meta");
    assert_eq!(meta.len(), 2);
    assert!(meta[0].pk && !meta[0].nullable);
    assert_eq!(meta[1].type_key, "text");

    let later = assemble_table_data_view(q, &rows, data, 5, 3, None).expect("view");
    assert!(!later.has_more);
    assert!(later.column_widths.is_none() && later.sort.is_none() && later.filter.is_none());
    assert!(later.column_meta.is_none());
}
