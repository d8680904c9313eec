use sqlite_cms::backup::{
    check_backup_entry_name, restore_result, uploads_inside_work, BackupManifest, BackupManifestPaths,
};
use sqlite_cms::db_objects::db_object_item;
use sqlite_cms::error::DomainError;
use sqlite_cms::layouts::{
    check_layout_rename_free, layout_import_key, layout_import_outcome, LayoutImportAction, LayoutImportMode,
};
use sqlite_cms::names::quote_sql_identifier;
use sqlite_cms::prefs::{widths_to_save, COLUMN_WIDTH_MAX_PX, COLUMN_WIDTH_MIN_PX};
use sqlite_cms::session::AppConfig;
use sqlite_cms::sql_build::{
    check_view_source_table, finish_view_ui_spec, start_view_ui_spec, ui_columns_from_pragma,
    view_ui_spec_without_builder, ViewUiSpecStart,
};
use sqlite_cms::sql_scan::parse_sql_identifier_prefix;
use sqlite_cms::table_data::PragmaTableInfoRow;

#[test]
fn listed_objects_carry_a_preview() {
    let long = format!("CREATE TABLE t ({})", "x".repeat(100));
    let item = db_object_item("posts".to_string(), Some(long.clone()), Some(3));
    assert_eq!(item.sql, long);
    assert_eq!(item.sql_preview.chars().count(), 81);
    assert!(item.sql_preview.ends_with('…'));
    assert!(item.is_system);
    assert_eq!(item.row_count, Some(3));
    let view = db_object_item("v".to_string(), None, None);
    assert_eq!(view.sql, "");
    assert_eq!(view.sql_preview, "");
    assert!(!view.is_system);
}

#[test]
fn saved_widths_are_in_range_and_on_columns() {
    assert_eq!((COLUMN_WIDTH_MIN_PX, COLUMN_WIDTH_MAX_PX), (40, 2000));
    let cols = vec!["a".to_string(), "b".to_string()];
    let widths = vec![
        ("a".to_string(), 40),
        ("b".to_string(), 39),
        ("gone".to_string(), 100),
        ("b".to_string(), 2000),
        ("a".to_string(), 2001),
    ];
    assert_eq!(widths_to_save(&cols, &widths), vec![("a".to_string(), 40), ("b".to_string(), 2000)]);
}

fn row(name: &str, column_type: &str, notnull: i32, pk: i32) -> PragmaTableInfoRow {
    PragmaTableInfoRow { name: name.to_string(), column_type: column_type.to_string(), notnull, pk }
}

#[test]
fn view_builder_sources_and_restore() {
    assert!(check_view_source_table("posts").is_ok());
    assert!(matches!(check_view_source_table("_sqlx_migrations"), Err(DomainError::SystemTable(_))));
    let cols = ui_columns_from_pragma(&[row("id", "INTEGER", 1, 1), row("body", "TEXT", 0, 0)]).expect("cols");
    assert_eq!(cols.len(), 2);
    assert!(cols[0].pk && !cols[0].nullable);
    assert_eq!(cols[1].type_key, "text");
    assert!(matches!(start_view_ui_spec("   "), ViewUiSpecStart::Empty));
    assert!(matches!(start_view_ui_spec("SELECT a FROM t GROUP BY a"), ViewUiSpecStart::Unsupported));
    let parsed = match start_view_ui_spec(" SELECT \"body\" FROM \"notes\" ") {
        ViewUiSpecStart::Parsed(p) => p,
        other => panic!("unexpected: {other:?}"),
    };
    assert_eq!(parsed.base_table, "notes");
    let done = finish_view_ui_spec(&parsed, Some(cols));
    assert!(done.supported);
    assert_eq!(done.spec.expect("spec").columns[0].name, "body");
    let failed = finish_view_ui_spec(&parsed, None);
    assert!(!failed.supported && failed.spec.is_none());
    assert!(view_ui_spec_without_builder(true).supported);
}

#[test]
fn layout_import_keys_and_outcomes() {
    assert_eq!(layout_import_key(" corp ", LayoutImportMode::Overwrite, None).expect("key"), "corp");
    assert_eq!(layout_import_key("corp", LayoutImportMode::Rename, Some(" copy ")).expect("key"), "copy");
    assert!(matches!(
        layout_import_key("corp", LayoutImportMode::Rename, None),
        Err(DomainError::Validation(m)) if m == "インポート先 layout key を指定してください"
    ));
    assert!(matches!(
        layout_import_key("corp", LayoutImportMode::Rename, Some("bad key")),
        Err(DomainError::Conflict(_))
    ));
    assert!(check_layout_rename_free("copy", false).is_ok());
    assert!(matches!(
        check_layout_rename_free("copy", true),
        Err(DomainError::Conflict(m)) if m == "指定した layout key「copy」は既に使われています"
    ));
    assert_eq!(
        layout_import_outcome("corp", LayoutImportMode::Skip, true),
        (LayoutImportAction::Skipped, "レイアウト「corp」は既に存在するためスキップしました".to_string())
    );
    assert_eq!(
        layout_import_outcome("corp", LayoutImportMode::Overwrite, true),
        (LayoutImportAction::Updated, "レイアウト「corp」をインポートしました（上書き）".to_string())
    );
    assert_eq!(
        layout_import_outcome("copy", LayoutImportMode::Rename, false),
        (LayoutImportAction::Created, "レイアウト「copy」を別名でインポートしました（新規作成）".to_string())
    );
    assert_eq!(
        layout_import_outcome("corp", LayoutImportMode::Skip, false),
        (LayoutImportAction::Created, "レイアウト「corp」をインポートしました（新規作成）".to_string())
    );
}

#[test]
fn backup_entries_and_restores() {
    assert!(check_backup_entry_name("work/layouts/a.html").is_ok());
    assert!(matches!(
        check_backup_entry_name("../etc/passwd"),
        Err(DomainError::Validation(m)) if m == "安全でない ZIP エントリパスです: ../etc/passwd"
    ));
    let mut config = AppConfig::default();
    config.paths.work_dir = "/srv/work".to_string();
    config.paths.uploads_dir = "/srv/work/uploads".to_string();
    assert!(uploads_inside_work(&config));
    config.paths.uploads_dir = "/srv/workshop".to_string();
    assert!(!uploads_inside_work(&config));
    let manifest = BackupManifest {
        format_version: 1,
        cms_version: "1".to_string(),
        created_at: "2026-01-01T00:00:00Z".to_string(),
        database_path: "cms.db".to_string(),
        paths: BackupManifestPaths { work_dir: "w".to_string(), uploads_dir: "u".to_string() },
    };
    let result = restore_result(4, &manifest);
    assert_eq!(result.restored_files_count, 4);
    assert_eq!(result.backup_created_at.as_deref(), Some("2026-01-01T00:00:00Z"));
    assert_eq!(
        result.message,
        "バックアップからのリストアが完了しました。サーバーを再起動することを強くおすすめします。"
    );
}

#[test]
fn quoted_identifiers_read_back() {
    for name in ["plain", "with \"quotes\"", "", "a,b (c)", "日本語"] {
        let quoted: Vec<char> = quote_sql_identifier(name).chars().collect();
        let (read, rest) = parse_sql_identifier_prefix(&quoted).expect("identifier");
        assert_eq!(read.into_iter().collect::<String>(), name);
        assert!(rest.is_empty());
    }
}
