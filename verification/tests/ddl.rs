use sqlite_cms::ddl::{
    check_not_null_add_rows, count_rows_sql, create_table_ddl, duplicate_insert_sql, has_not_null_add,
    migration_ddl_statements, migration_needs_rebuild, plan_view_update, rebuild_table_statements,
    ViewUpdateStep,
};
use sqlite_cms::error::DomainError;
use sqlite_cms::schema::{ColumnMigrationPlan, TableColumnInput};

fn col(name: &str, type_key: &str, nullable: bool, orig: Option<&str>) -> TableColumnInput {
    TableColumnInput {
        name: name.to_string(),
        type_key: type_key.to_string(),
        nullable,
        orig_name: orig.map(|s| s.to_string()),
    }
}

#[test]
fn create_table_ddl_quotes_the_name() {
    assert_eq!(
        create_table_ddl("my\"notes", "id INTEGER PRIMARY KEY"),
        "CREATE TABLE \"my\"\"notes\" (id INTEGER PRIMARY KEY)"
    );
}

#[test]
fn count_rows_sql_with_and_without_where() {
    assert_eq!(count_rows_sql("notes", ""), "SELECT COUNT(*) FROM \"notes\"");
    assert_eq!(
        count_rows_sql("notes", "WHERE \"a\" = ?"),
        "SELECT COUNT(*) FROM \"notes\" WHERE \"a\" = ?"
    );
}

#[test]
fn migration_statements_rename_then_drop_then_add() {
    let plan = ColumnMigrationPlan {
        renames: vec![("body".to_string(), "content".to_string())],
        drops: vec!["old".to_string()],
        adds: vec![col("score", "integer", true, None), col("flag", "boolean", false, None)],
        nullable_relaxations: vec![],
    };
    let ddl = migration_ddl_statements("notes", &plan).expect("ddl");
    assert_eq!(
        ddl,
        vec![
            "ALTER TABLE \"notes\" RENAME COLUMN \"body\" TO \"content\"".to_string(),
            "ALTER TABLE \"notes\" DROP COLUMN \"old\"".to_string(),
            "ALTER TABLE \"notes\" ADD COLUMN \"score\" INTEGER".to_string(),
            "ALTER TABLE \"notes\" ADD COLUMN \"flag\" BOOLEAN NOT NULL".to_string(),
        ]
    );
    assert!(has_not_null_add(&plan));
    assert!(!migration_needs_rebuild(&plan));
}

#[test]
fn migration_statements_reject_an_unknown_type() {
    let plan = ColumnMigrationPlan {
        renames: vec![],
        drops: vec![],
        adds: vec![col("x", "decimal", true, None)],
        nullable_relaxations: vec![],
    };
    match migration_ddl_statements("notes", &plan) {
        Err(DomainError::Validation(m)) => assert_eq!(m, "カラム `x` の型が不正です"),
        other => panic!("unexpected: {other:?}"),
    }
}

#[test]
fn empty_plan_has_no_statements_and_relaxation_rebuilds() {
    let plan = ColumnMigrationPlan {
        renames: vec![],
        drops: vec![],
        adds: vec![col("a", "text", true, None)],
        nullable_relaxations: vec!["b".to_string()],
    };
    assert!(!has_not_null_add(&plan));
    assert!(migration_needs_rebuild(&plan));
    let empty = ColumnMigrationPlan { renames: vec![], drops: vec![], adds: vec![], nullable_relaxations: vec![] };
    assert_eq!(migration_ddl_statements("t", &empty).expect("ok"), Vec::<String>::new());
}

#[test]
fn not_null_add_needs_an_empty_table() {
    assert!(check_not_null_add_rows(0).is_ok());
    match check_not_null_add_rows(3) {
        Err(DomainError::Validation(m)) => {
            assert_eq!(m, "既存データがあるテーブルには NOT NULL な列を追加できません")
        }
        other => panic!("unexpected: {other:?}"),
    }
}

#[test]
fn rebuild_copies_rows_by_original_column() {
    let desired = vec![
        col("title", "text", false, Some("title")),
        col(" body2 ", "text", true, Some("body")),
        col("  ", "text", true, None),
        col("extra", "integer", true, None),
    ];
    let plan = rebuild_table_statements("notes", &desired).expect("plan");
    assert_eq!(
        plan.create,
        "CREATE TABLE \"notes__cms_rebuild\" (id INTEGER PRIMARY KEY, \"title\" TEXT NOT NULL, \"body2\" TEXT, \"extra\" INTEGER)"
    );
    assert_eq!(
        plan.insert,
        "INSERT INTO \"notes__cms_rebuild\" (\"id\", \"title\", \"body2\", \"extra\") SELECT id, \"title\", \"body\", NULL FROM \"notes\""
    );
    assert_eq!(plan.drop, "DROP TABLE \"notes\"");
    assert_eq!(plan.rename, "ALTER TABLE \"notes__cms_rebuild\" RENAME TO \"notes\"");
    assert_eq!(plan.renames, vec![("body".to_string(), "body2".to_string())]);
}

#[test]
fn rebuild_rejects_a_reserved_column_name() {
    let desired = vec![col("id", "integer", false, None)];
    match rebuild_table_statements("notes", &desired) {
        Err(DomainError::Validation(m)) => assert_eq!(m, "カラム名 `id` は自動追加されるため使用できません"),
        other => panic!("unexpected: {other:?}"),
    }
}

#[test]
fn duplicate_copies_id_and_kept_columns_in_source_order() {
    let source_columns = vec!["id".to_string(), "a".to_string(), "b".to_string(), "c".to_string()];
    let desired = vec![col("c", "text", true, None), col("a", "text", true, None), col(" ", "text", true, None)];
    assert_eq!(
        duplicate_insert_sql("src", "dst", &source_columns, &desired),
        "INSERT INTO \"dst\" (\"id\", \"a\", \"c\") SELECT \"id\", \"a\", \"c\" FROM \"src\""
    );
}

#[test]
fn view_update_in_place_recreates_and_clears_sort_filter() {
    let steps = plan_view_update("v", "v", "SELECT 1", "SELECT 1", false, false).expect("steps");
    assert_eq!(steps.len(), 3);
    assert!(matches!(&steps[0], ViewUpdateStep::Execute(s) if s == "DROP VIEW IF EXISTS \"v\""));
    assert!(matches!(&steps[1], ViewUpdateStep::Execute(s) if s == "CREATE VIEW \"v\" AS SELECT 1"));
    assert!(matches!(&steps[2], ViewUpdateStep::ClearSortFilter(n) if n == "v"));
}

#[test]
fn view_rename_moves_preferences_and_keeps_them_when_unchanged() {
    let steps = plan_view_update("v", "w", "SELECT 1", " SELECT 1 ", false, false).expect("steps");
    assert_eq!(steps.len(), 3);
    assert!(matches!(&steps[0], ViewUpdateStep::Execute(s) if s == "CREATE VIEW \"w\" AS SELECT 1"));
    assert!(matches!(&steps[1], ViewUpdateStep::MoveStoredPreferences { from, to } if from == "v" && to == "w"));
    assert!(matches!(&steps[2], ViewUpdateStep::Execute(s) if s == "DROP VIEW IF EXISTS \"v\""));
    let changed = plan_view_update("v", "w", "SELECT 2", "SELECT 1", false, false).expect("steps");
    assert_eq!(changed.len(), 4);
    assert!(matches!(&changed[3], ViewUpdateStep::ClearSortFilter(n) if n == "w"));
}

#[test]
fn view_rename_onto_a_taken_name_conflicts() {
    match plan_view_update("v", "w", "SELECT 1", "SELECT 1", true, false) {
        Err(DomainError::Conflict(m)) => assert_eq!(m, "ビュー `w` は既に存在します"),
        other => panic!("unexpected: {other:?}"),
    }
    match plan_view_update("v", "w", "SELECT 1", "SELECT 1", false, true) {
        Err(DomainError::Conflict(m)) => assert_eq!(m, "同名のテーブル `w` が既に存在します"),
        other => panic!("unexpected: {other:?}"),
    }
}
