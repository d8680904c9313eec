use sqlite_cms::create_sql::parse_user_columns_from_create_sql;
use sqlite_cms::db_objects::{build_duplicate_payloads, DbObjectItem};
use sqlite_cms::error::DomainError;
use sqlite_cms::names::{
    cms_table_edit_denied_message, infra_table_denied_message, is_cms_core_table, is_cms_readonly_table,
    is_db_admin_data_viewable, is_db_admin_editable, is_hidden_admin_table, is_system_table,
    quote_sql_identifier, system_table_denied_message, truncate_sql, validate_column_name,
    validate_user_object_name,
};
use sqlite_cms::prefs::{
    filter_sort_entries_to_columns, parse_filter_query_param, parse_sort_query_param, TableSortDirection,
    TableSortEntry,
};
use sqlite_cms::schema::{build_table_definition, plan_column_migration, TableColumnInput};
use sqlite_cms::seed::{parse_seed_form, ColumnSeedRule, TestDataSeedForm};
use sqlite_cms::sql_build::{
    build_simple_view_select, build_simple_view_ui_spec, extract_view_select_from_create_sql,
    validate_view_definition, ExtraWhereCondition, SimpleViewUiColumn, SimpleViewUiSpec, TableColumnUiInfo,
};
use sqlite_cms::sql_view::{parse_simple_view_select, ParsedViewColumnList, ParsedWhereCondition};

#[test]
fn is_system_table_detects_cms_and_infra_tables() {
    assert!(is_system_table("_sqlx_migrations"));
    assert!(is_system_table("sqlite_sequence"));
    assert!(is_system_table("posts"));
    assert!(is_system_table("users"));
    assert!(is_system_table("user_table_meta"));
    assert!(!is_system_table("my_custom_table"));
}


#[test]
fn is_cms_core_table_includes_users() {
    assert!(is_cms_core_table("posts"));
    assert!(is_cms_core_table("users"));
    assert!(is_cms_core_table("user_table_meta"));
    assert!(!is_cms_core_table("my_custom_table"));
}


#[test]
fn is_cms_readonly_table_covers_all_cms_core_tables() {
    assert!(is_cms_readonly_table("posts"));
    assert!(is_cms_readonly_table("users"));
    assert!(is_cms_readonly_table("user_table_meta"));
    assert!(!is_cms_readonly_table("my_custom_table"));
}


#[test]
fn is_db_admin_editable_allows_only_user_defined_tables() {
    assert!(!is_db_admin_editable("posts"));
    assert!(!is_db_admin_editable("users"));
    assert!(!is_db_admin_editable("user_table_meta"));
    assert!(!is_db_admin_editable("_sqlx_migrations"));
    assert!(is_db_admin_editable("my_custom_table"));
}


#[test]
fn build_duplicate_payloads_extracts_editable_objects_only() {
    let payloads = build_duplicate_payloads(
        &[DbObjectItem {
            name: "custom_notes".to_string(),
            sql: r#"CREATE TABLE "custom_notes" (id INTEGER PRIMARY KEY, "body" TEXT NOT NULL)"#
                .to_string(),
            sql_preview: String::new(),
            is_system: false,
            row_count: Some(0),
        }],
        &[DbObjectItem {
            name: "custom_notes_view".to_string(),
            sql: r#"CREATE VIEW "custom_notes_view" AS SELECT id, body FROM custom_notes"#
                .to_string(),
            sql_preview: String::new(),
            is_system: false,
            row_count: None,
        }],
    );

    assert_eq!(payloads.table_columns("custom_notes").unwrap().len(), 1);
    assert_eq!(payloads.table_columns("custom_notes").unwrap()[0].name, "body");
    assert_eq!(
        payloads.view_definition("custom_notes_view").unwrap(),
        "SELECT id, body FROM custom_notes"
    );
    assert!(payloads.table_columns("posts").is_none());
}


#[test]
fn is_db_admin_data_viewable_blocks_infra_only() {
    assert!(!is_db_admin_data_viewable("_sqlx_migrations"));
    assert!(!is_db_admin_data_viewable("sqlite_sequence"));
    assert!(is_db_admin_data_viewable("posts"));
    assert!(is_db_admin_data_viewable("users"));
    assert!(is_db_admin_data_viewable("user_table_meta"));
    assert!(is_db_admin_data_viewable("my_custom_table"));
}


#[test]
fn is_hidden_admin_table_detects_infra_tables() {
    assert!(is_hidden_admin_table("_sqlx_migrations"));
    assert!(!is_hidden_admin_table("posts"));
    assert!(!is_hidden_admin_table("user_table_meta"));
}


#[test]
fn system_table_denied_message_describes_table_kind() {
    assert!(cms_table_edit_denied_message("posts").contains("列編集・テストデータ生成はできません"));
    assert!(infra_table_denied_message("_sqlx_migrations").contains("インフラ用"));
    assert!(system_table_denied_message("posts").contains("CMSのシステムテーブル"));
    assert!(system_table_denied_message("_sqlx_migrations").contains("インフラ用"));
}


#[test]
fn validate_user_object_name_rejects_system_names() {
    assert!(validate_user_object_name("posts").is_err());
    assert!(validate_user_object_name("user_table_meta").is_err());
    assert!(validate_user_object_name("my_table").is_ok());
    assert!(validate_user_object_name("記事").is_ok());
    assert!(validate_user_object_name("a/b").is_err());
}


#[test]
fn quote_sql_identifier_escapes_embedded_quotes() {
    assert_eq!(quote_sql_identifier("title"), "\"title\"");
    assert_eq!(quote_sql_identifier(r#"a"b"#), r#""a""b""#);
}


#[test]
fn validate_column_name_allows_unicode_and_rejects_id() {
    assert!(validate_column_name("タイトル").is_ok());
    assert!(validate_column_name("id").is_err());
    assert!(validate_column_name("ID").is_err());
}


#[test]
fn build_table_definition_quotes_multilingual_names() {
    let definition = build_table_definition(&[TableColumnInput {
        name: "タイトル".to_string(),
        type_key: "text".to_string(),
        nullable: false,
        orig_name: None,
    }])
    .unwrap();

    assert!(definition.contains(r#""タイトル" TEXT NOT NULL"#));
}


#[test]
fn validate_view_definition_requires_select() {
    assert!(validate_view_definition("SELECT id FROM posts").is_ok());
    assert!(validate_view_definition("DELETE FROM posts").is_err());
}


#[test]
fn validate_view_definition_allows_leading_comment() {
    assert!(validate_view_definition("-- notes view\nSELECT id FROM posts").is_ok());
    assert!(validate_view_definition("/* notes */ SELECT id FROM posts").is_ok());
    assert!(validate_view_definition(
        "-- DROP TABLE posts\nSELECT id FROM posts"
    )
    .is_ok());
}


#[test]
fn build_table_definition_adds_id_and_columns() {
    let definition = build_table_definition(&[
        TableColumnInput {
            name: "title".to_string(),
            type_key: "text".to_string(),
            nullable: false,
            orig_name: None,
        },
        TableColumnInput {
            name: "score".to_string(),
            type_key: "real".to_string(),
            nullable: true,
            orig_name: None,
        },
    ])
    .unwrap();

    assert!(definition.starts_with("id INTEGER PRIMARY KEY"));
    assert!(definition.contains(r#""title" TEXT NOT NULL"#));
    assert!(definition.contains(r#""score" REAL"#));
    assert!(!definition.contains(r#""score" REAL NOT NULL"#));
}


#[test]
fn build_table_definition_supports_all_sqlite_types() {
    let definition = build_table_definition(&[
        TableColumnInput {
            name: "payload".to_string(),
            type_key: "blob".to_string(),
            nullable: true,
            orig_name: None,
        },
        TableColumnInput {
            name: "created_at".to_string(),
            type_key: "timestamp".to_string(),
            nullable: false,
            orig_name: None,
        },
        TableColumnInput {
            name: "active".to_string(),
            type_key: "boolean".to_string(),
            nullable: false,
            orig_name: None,
        },
    ])
    .unwrap();

    assert!(definition.contains(r#""payload" BLOB"#));
    assert!(definition.contains(r#""created_at" TIMESTAMP NOT NULL"#));
    assert!(definition.contains(r#""active" BOOLEAN NOT NULL"#));

    let err = build_table_definition(&[TableColumnInput {
        name: "id".to_string(),
        type_key: "integer".to_string(),
        nullable: false,
        orig_name: None,
    }])
    .unwrap_err();
    assert!(err.message().contains("id"));
}

fn sample_column(name: &str, type_key: &str, nullable: bool) -> TableColumnInput {
    TableColumnInput {
        name: name.to_string(),
        type_key: type_key.to_string(),
        nullable,
        orig_name: None,
    }
}

fn sample_column_with_orig(
    orig_name: &str,
    name: &str,
    type_key: &str,
    nullable: bool,
) -> TableColumnInput {
    TableColumnInput {
        name: name.to_string(),
        type_key: type_key.to_string(),
        nullable,
        orig_name: Some(orig_name.to_string()),
    }
}


#[test]
fn plan_column_migration_detects_rename_add_and_drop() {
    let current = vec![
        sample_column("body", "text", false),
        sample_column("score", "real", true),
    ];
    let desired = vec![
        sample_column_with_orig("body", "title", "text", false),
        sample_column("memo", "text", true),
    ];

    let plan = plan_column_migration(&current, &desired).unwrap();
    assert_eq!(plan.renames, vec![("body".to_string(), "title".to_string())]);
    assert_eq!(plan.drops, vec!["score".to_string()]);
    assert_eq!(plan.adds.len(), 1);
    assert_eq!(plan.adds[0].name, "memo");
}


#[test]
fn plan_column_migration_rejects_type_change() {
    let current = vec![sample_column("body", "text", false)];
    let desired = vec![sample_column_with_orig("body", "body", "integer", false)];

    let err = plan_column_migration(&current, &desired).unwrap_err();
    assert!(err.message().contains("型は変更できません"));
}


#[test]
fn plan_column_migration_allows_not_null_to_nullable() {
    let current = vec![sample_column("body", "text", false)];
    let desired = vec![sample_column_with_orig("body", "body", "text", true)];

    let plan = plan_column_migration(&current, &desired).unwrap();
    assert_eq!(plan.nullable_relaxations, vec!["body".to_string()]);
    assert!(plan.renames.is_empty());
    assert!(plan.drops.is_empty());
    assert!(plan.adds.is_empty());
}


#[test]
fn plan_column_migration_rejects_nullable_to_not_null() {
    let current = vec![sample_column("body", "text", true)];
    let desired = vec![sample_column_with_orig("body", "body", "text", false)];

    let err = plan_column_migration(&current, &desired).unwrap_err();
    assert!(err.message().contains("NOT NULL に変更することはできません"));
}


#[test]
fn parse_user_columns_from_create_sql_extracts_columns() {
    let sql = r#"CREATE TABLE "notes" (id INTEGER PRIMARY KEY, "body" TEXT NOT NULL, "score" REAL, "payload" BLOB, "created_at" TIMESTAMP, "active" BOOLEAN)"#;
    let columns = parse_user_columns_from_create_sql(sql).unwrap();
    assert_eq!(columns.len(), 5);
    assert_eq!(columns[0].name, "body");
    assert_eq!(columns[0].type_key, "text");
    assert!(!columns[0].nullable);
    assert_eq!(columns[1].name, "score");
    assert_eq!(columns[1].type_key, "real");
    assert!(columns[1].nullable);
    assert_eq!(columns[2].type_key, "blob");
    assert_eq!(columns[3].type_key, "timestamp");
    assert_eq!(columns[4].type_key, "boolean");
}


#[test]
fn parse_sort_query_param_parses_entries() {
    let entries = parse_sort_query_param("name:asc,age:desc").unwrap();
    assert_eq!(entries.len(), 2);
    assert_eq!(entries[0].column, "name");
    assert_eq!(entries[0].direction, TableSortDirection::Asc);
    assert_eq!(entries[1].column, "age");
    assert_eq!(entries[1].direction, TableSortDirection::Desc);
}


#[test]
fn parse_sort_query_param_empty_returns_empty_vec() {
    assert!(parse_sort_query_param("").unwrap().is_empty());
}


#[test]
fn parse_sort_query_param_rejects_invalid_direction() {
    let err = parse_sort_query_param("name:up").unwrap_err();
    assert!(err.message().contains("asc または desc"));
}


#[test]
fn parse_filter_query_param_parses_entries() {
    let entries = parse_filter_query_param("name:hello,age:42").unwrap();
    assert_eq!(entries.len(), 2);
    assert_eq!(entries[0].column, "name");
    assert_eq!(entries[0].text, "hello");
    assert_eq!(entries[1].column, "age");
    assert_eq!(entries[1].text, "42");
}


#[test]
fn parse_filter_query_param_decodes_percent_encoding() {
    let entries = parse_filter_query_param("body:hello%2Cworld").unwrap();
    assert_eq!(entries.len(), 1);
    assert_eq!(entries[0].column, "body");
    assert_eq!(entries[0].text, "hello,world");
}


#[test]
fn parse_filter_query_param_empty_returns_empty_vec() {
    assert!(parse_filter_query_param("").unwrap().is_empty());
}


#[test]
fn parse_seed_form_validates_integer_range() {
    let columns = vec![TableColumnInput {
        name: "score".to_string(),
        type_key: "integer".to_string(),
        nullable: true,
        orig_name: None,
    }];
    let form = TestDataSeedForm {
        count: "10".to_string(),
        col_name: vec!["score".to_string()],
        col_type: vec!["integer".to_string()],
        col_int_min: vec!["100".to_string()],
        col_int_max: vec!["10".to_string()],
        ..Default::default()
    };
    let err = parse_seed_form(&columns, &form).unwrap_err();
    assert!(err.message().contains("最小値"));

    let form = TestDataSeedForm {
        col_int_min: vec!["0".to_string()],
        col_int_max: vec!["100".to_string()],
        ..form
    };
    let (count, rules) = parse_seed_form(&columns, &form).unwrap();
    assert_eq!(count, 10);
    assert_eq!(
        rules[0].1,
        ColumnSeedRule::Integer {
            min: 0,
            max: 100,
            include_null: false,
        }
    );
}


#[test]
fn truncate_sql_shortens_long_definitions() {
    let sql = "CREATE VIEW example AS SELECT id, title FROM posts WHERE status = 'publish'";
    assert_eq!(truncate_sql(sql, 80), sql);
    assert!(truncate_sql(sql, 20).ends_with('…'));
    assert!(truncate_sql(sql, 20).chars().count() <= 21);
}


#[test]
fn extract_view_select_from_create_sql_parses_quoted_view_name() {
    let sql = r#"CREATE VIEW "custom_notes_view" AS SELECT id, body FROM custom_notes"#;
    let definition = extract_view_select_from_create_sql(sql).expect("extract definition");
    assert_eq!(definition, "SELECT id, body FROM custom_notes");
}


#[test]
fn extract_view_select_from_create_sql_rejects_missing_as_clause() {
    let err = extract_view_select_from_create_sql("CREATE VIEW broken").unwrap_err();
    assert!(matches!(err, DomainError::NotFound));
}


#[test]
fn parse_simple_view_select_parses_column_list() {
    let parsed = parse_simple_view_select("SELECT id, body FROM custom_notes").expect("parsed");
    assert_eq!(parsed.base_table, "custom_notes");
    assert!(matches!(
        parsed.columns,
        ParsedViewColumnList::Columns(ref columns)
            if columns.len() == 2
                && columns[0].name == "id"
                && columns[0].alias.is_none()
                && columns[1].name == "body"
                && columns[1].alias.is_none()
    ));
}


#[test]
fn parse_simple_view_select_parses_quoted_identifiers() {
    let parsed =
        parse_simple_view_select(r#"SELECT "id", "body" FROM "custom_notes""#).expect("parsed");
    assert_eq!(parsed.base_table, "custom_notes");
    assert!(matches!(
        parsed.columns,
        ParsedViewColumnList::Columns(ref columns)
            if columns.len() == 2
                && columns[0].name == "id"
                && columns[1].name == "body"
    ));
}


#[test]
fn parse_simple_view_select_parses_column_aliases() {
    let parsed = parse_simple_view_select(
        r#"SELECT "id" AS "user_id", "body" FROM "custom_notes""#,
    )
    .expect("parsed");
    assert!(matches!(
        parsed.columns,
        ParsedViewColumnList::Columns(ref columns)
            if columns.len() == 2
                && columns[0].name == "id"
                && columns[0].alias.as_deref() == Some("user_id")
                && columns[1].name == "body"
                && columns[1].alias.is_none()
    ));
}


#[test]
fn parse_simple_view_select_parses_duplicate_columns_with_alias() {
    let parsed = parse_simple_view_select(
        r#"SELECT "id", "id" AS "id2" FROM "custom_notes""#,
    )
    .expect("parsed");
    assert!(matches!(
        parsed.columns,
        ParsedViewColumnList::Columns(ref columns)
            if columns.len() == 2
                && columns[0].name == "id"
                && columns[0].alias.is_none()
                && columns[1].name == "id"
                && columns[1].alias.as_deref() == Some("id2")
    ));
}


#[test]
fn parse_simple_view_select_rejects_duplicate_output_names() {
    assert!(parse_simple_view_select(r#"SELECT "id", "id" FROM "custom_notes""#).is_none());
}


#[test]
fn parse_simple_view_select_parses_star() {
    let parsed = parse_simple_view_select("SELECT * FROM posts").expect("parsed");
    assert_eq!(parsed.base_table, "posts");
    assert!(matches!(parsed.columns, ParsedViewColumnList::All));
}


#[test]
fn parse_simple_view_select_rejects_join() {
    assert!(parse_simple_view_select("SELECT id FROM posts JOIN users ON 1 = 1").is_none());
}


#[test]
fn parse_simple_view_select_parses_leading_line_comment() {
    let parsed = parse_simple_view_select(
        "-- notes view\nSELECT \"id\", \"body\" FROM \"custom_notes\"",
    )
    .expect("parsed");
    assert_eq!(parsed.base_table, "custom_notes");
    assert!(matches!(
        parsed.columns,
        ParsedViewColumnList::Columns(ref columns)
            if columns.len() == 2
                && columns[0].name == "id"
                && columns[1].name == "body"
    ));
}


#[test]
fn parse_simple_view_select_parses_leading_block_comment() {
    let parsed =
        parse_simple_view_select("/* notes */ SELECT \"id\" FROM \"custom_notes\"")
            .expect("parsed");
    assert_eq!(parsed.base_table, "custom_notes");
}


#[test]
fn parse_simple_view_select_parses_inline_select_comment() {
    let parsed = parse_simple_view_select(
        "SELECT \"id\" -- id column\n, \"body\" FROM \"custom_notes\"",
    )
    .expect("parsed");
    assert!(matches!(
        parsed.columns,
        ParsedViewColumnList::Columns(ref columns)
            if columns.len() == 2
                && columns[0].name == "id"
                && columns[1].name == "body"
    ));
}


#[test]
fn parse_simple_view_select_parses_distinct_with_block_comment() {
    let parsed = parse_simple_view_select(
        "SELECT /* cols */ DISTINCT \"id\" FROM \"custom_notes\" WHERE \"body\" IS NOT NULL",
    )
    .expect("parsed");
    assert!(parsed.distinct);
    assert_eq!(
        parsed.where_conditions,
        vec![ParsedWhereCondition {
            column: "body".to_string(),
            suffix: "IS NOT NULL".to_string(),
        }]
    );
}


#[test]
fn parse_simple_view_select_preserves_dash_in_quoted_identifier() {
    let parsed =
        parse_simple_view_select(r#"SELECT "col--name" FROM "custom_notes""#).expect("parsed");
    assert!(matches!(
        parsed.columns,
        ParsedViewColumnList::Columns(ref columns)
            if columns.len() == 1 && columns[0].name == "col--name"
    ));
}


#[test]
fn parse_simple_view_select_rejects_join_with_comment() {
    assert!(parse_simple_view_select(
        "-- join view\nSELECT id FROM posts JOIN users ON 1 = 1"
    )
    .is_none());
}


#[test]
fn parse_simple_view_select_parses_simple_where() {
    let parsed =
        parse_simple_view_select(r#"SELECT "id" FROM "join_src" WHERE "body" IS NOT NULL"#)
            .expect("parsed");
    assert_eq!(parsed.base_table, "join_src");
    assert_eq!(
        parsed.where_conditions,
        vec![ParsedWhereCondition {
            column: "body".to_string(),
            suffix: "IS NOT NULL".to_string(),
        }]
    );
}


#[test]
fn parse_simple_view_select_parses_multiple_where_conditions() {
    let parsed = parse_simple_view_select(
        r#"SELECT "id", "body" FROM "custom_notes" WHERE "body" IS NOT NULL AND "id" > 0"#,
    )
    .expect("parsed");
    assert_eq!(
        parsed.where_conditions,
        vec![
            ParsedWhereCondition {
                column: "body".to_string(),
                suffix: "IS NOT NULL".to_string(),
            },
            ParsedWhereCondition {
                column: "id".to_string(),
                suffix: "> 0".to_string(),
            },
        ]
    );
}


#[test]
fn parse_simple_view_select_parses_duplicate_column_where_conditions() {
    let parsed = parse_simple_view_select(
        r#"SELECT "id", "id" AS "id2" FROM "custom_notes" WHERE "id" > 0 AND "id" IS NOT NULL"#,
    )
    .expect("parsed");
    assert_eq!(
        parsed.where_conditions,
        vec![
            ParsedWhereCondition {
                column: "id".to_string(),
                suffix: "> 0".to_string(),
            },
            ParsedWhereCondition {
                column: "id".to_string(),
                suffix: "IS NOT NULL".to_string(),
            },
        ]
    );
}


#[test]
fn build_simple_view_ui_spec_assigns_where_per_select_row() {
    let parsed = parse_simple_view_select(
        r#"SELECT "id", "id" AS "id2", "body" FROM "custom_notes" WHERE "id" > 0 AND "id" IS NOT NULL"#,
    )
    .expect("parsed");
    let table_columns = vec![
        TableColumnUiInfo {
            name: "id".to_string(),
            type_key: "integer".to_string(),
            pk: true,
            nullable: false,
        },
        TableColumnUiInfo {
            name: "body".to_string(),
            type_key: "text".to_string(),
            pk: false,
            nullable: false,
        },
    ];

    let spec = build_simple_view_ui_spec(&parsed, &table_columns);
    assert_eq!(spec.columns.len(), 3);
    assert_eq!(
        spec.columns[0].where_condition.as_deref(),
        Some("> 0")
    );
    assert_eq!(
        spec.columns[1].where_condition.as_deref(),
        Some("IS NOT NULL")
    );
    assert!(spec.columns[2].where_condition.is_none());
}


#[test]
fn parse_simple_view_select_rejects_complex_where() {
    assert!(parse_simple_view_select(
        "SELECT id FROM posts WHERE id = 1 OR body IS NOT NULL"
    )
    .is_none());
}


#[test]
fn build_simple_view_select_generates_quoted_sql() {
    let spec = SimpleViewUiSpec {
        base_table: "custom_notes".to_string(),
        distinct: false,
        extra_where: vec![],
        columns: vec![SimpleViewUiColumn {
            name: "body".to_string(),
            type_key: "text".to_string(),
            alias: None,
            expression: None,
            where_condition: None,
        }],
    };

    let sql = build_simple_view_select(&spec).expect("sql");
    assert_eq!(sql, r#"SELECT "body" FROM "custom_notes""#);
}


#[test]
fn build_simple_view_select_generates_column_alias() {
    let spec = SimpleViewUiSpec {
        base_table: "custom_notes".to_string(),
        distinct: false,
        extra_where: vec![],
        columns: vec![SimpleViewUiColumn {
            name: "id".to_string(),
            type_key: "integer".to_string(),
            alias: Some("user_id".to_string()),
            expression: None,
            where_condition: None,
        }],
    };

    let sql = build_simple_view_select(&spec).expect("sql");
    assert_eq!(sql, r#"SELECT "id" AS "user_id" FROM "custom_notes""#);
}


#[test]
fn build_simple_view_select_rejects_duplicate_output_names() {
    let spec = SimpleViewUiSpec {
        base_table: "custom_notes".to_string(),
        distinct: false,
        extra_where: vec![],
        columns: vec![
            SimpleViewUiColumn {
                name: "id".to_string(),
                type_key: "integer".to_string(),
                alias: None,
                expression: None,
                where_condition: None,
            },
            SimpleViewUiColumn {
                name: "id".to_string(),
                type_key: "integer".to_string(),
                alias: None,
                expression: None,
                where_condition: None,
            },
        ],
    };

    let err = build_simple_view_select(&spec).unwrap_err();
    assert!(matches!(err, DomainError::Validation(ref msg) if msg.contains("出力列名が重複")));
}


#[test]
fn build_simple_view_select_generates_where_clause() {
    let spec = SimpleViewUiSpec {
        base_table: "custom_notes".to_string(),
        distinct: false,
        extra_where: vec![],
        columns: vec![
            SimpleViewUiColumn {
                name: "id".to_string(),
                type_key: "integer".to_string(),
                alias: None,
                expression: None,
                where_condition: Some("> 0".to_string()),
            },
            SimpleViewUiColumn {
                name: "body".to_string(),
                type_key: "text".to_string(),
                alias: None,
                expression: None,
                where_condition: Some("IS NOT NULL".to_string()),
            },
        ],
    };

    let sql = build_simple_view_select(&spec).expect("sql");
    assert_eq!(
        sql,
        r#"SELECT "id", "body" FROM "custom_notes" WHERE "id" > 0 AND "body" IS NOT NULL"#
    );
}


#[test]
fn build_simple_view_select_requires_column() {
    let spec = SimpleViewUiSpec {
        base_table: "custom_notes".to_string(),
        distinct: false,
        extra_where: vec![],
        columns: vec![],
    };
    assert!(build_simple_view_select(&spec).is_err());
}


#[test]
fn parse_simple_view_select_parses_expression_with_alias() {
    let parsed = parse_simple_view_select(
        r#"SELECT LENGTH("body") AS "body_len", "id" FROM "custom_notes""#,
    )
    .expect("parsed");
    assert!(matches!(
        parsed.columns,
        ParsedViewColumnList::Columns(ref columns)
            if columns.len() == 2
                && columns[0].name.is_empty()
                && columns[0].expression.as_deref() == Some(r#"LENGTH("body")"#)
                && columns[0].alias.as_deref() == Some("body_len")
                && columns[1].name == "id"
                && columns[1].expression.is_none()
    ));
}


#[test]
fn build_simple_view_select_generates_expression_column() {
    let spec = SimpleViewUiSpec {
        base_table: "custom_notes".to_string(),
        distinct: false,
        extra_where: vec![],
        columns: vec![
            SimpleViewUiColumn {
                name: String::new(),
                type_key: "text".to_string(),
                alias: Some("body_len".to_string()),
                expression: Some(r#"LENGTH("body")"#.to_string()),
                where_condition: None,
            },
            SimpleViewUiColumn {
                name: "id".to_string(),
                type_key: "integer".to_string(),
                alias: None,
                expression: None,
                where_condition: None,
            },
        ],
    };

    let sql = build_simple_view_select(&spec).expect("sql");
    assert_eq!(
        sql,
        r#"SELECT LENGTH("body") AS "body_len", "id" FROM "custom_notes""#
    );
}


#[test]
fn build_simple_view_ui_spec_restores_expression_column() {
    let parsed = parse_simple_view_select(
        r#"SELECT LENGTH("body") AS "body_len" FROM "custom_notes""#,
    )
    .expect("parsed");
    let table_columns = vec![TableColumnUiInfo {
        name: "body".to_string(),
        type_key: "text".to_string(),
        pk: false,
        nullable: false,
    }];

    let spec = build_simple_view_ui_spec(&parsed, &table_columns);
    assert_eq!(spec.columns.len(), 1);
    assert_eq!(
        spec.columns[0].expression.as_deref(),
        Some(r#"LENGTH("body")"#)
    );
    assert_eq!(spec.columns[0].alias.as_deref(), Some("body_len"));
    assert!(spec.columns[0].where_condition.is_none());
}


#[test]
fn build_simple_view_select_rejects_duplicate_expression_output_names() {
    let spec = SimpleViewUiSpec {
        base_table: "custom_notes".to_string(),
        distinct: false,
        extra_where: vec![],
        columns: vec![
            SimpleViewUiColumn {
                name: String::new(),
                type_key: "text".to_string(),
                alias: None,
                expression: Some(r#"LENGTH("body")"#.to_string()),
                where_condition: None,
            },
            SimpleViewUiColumn {
                name: String::new(),
                type_key: "text".to_string(),
                alias: None,
                expression: Some(r#"LENGTH("body")"#.to_string()),
                where_condition: None,
            },
        ],
    };

    let err = build_simple_view_select(&spec).unwrap_err();
    assert!(matches!(err, DomainError::Validation(ref msg) if msg.contains("出力列名が重複")));
}


#[test]
fn build_simple_view_select_rejects_forbidden_keyword_in_expression() {
    let spec = SimpleViewUiSpec {
        base_table: "custom_notes".to_string(),
        distinct: false,
        extra_where: vec![],
        columns: vec![SimpleViewUiColumn {
            name: String::new(),
            type_key: "text".to_string(),
            alias: None,
            expression: Some("DELETE FROM custom_notes".to_string()),
            where_condition: None,
        }],
    };

    let err = build_simple_view_select(&spec).unwrap_err();
    assert!(matches!(err, DomainError::Validation(ref msg) if msg.contains("式")));
}


#[test]
fn parse_simple_view_select_parses_distinct() {
    let parsed =
        parse_simple_view_select(r#"SELECT DISTINCT "id" FROM "custom_notes""#).expect("parsed");
    assert!(parsed.distinct);
    assert!(matches!(
        parsed.columns,
        ParsedViewColumnList::Columns(ref columns) if columns.len() == 1 && columns[0].name == "id"
    ));
}


#[test]
fn parse_simple_view_select_parses_table_alias() {
    let parsed =
        parse_simple_view_select(r#"SELECT "id" FROM "custom_notes" AS "n""#).expect("parsed");
    assert_eq!(parsed.base_table, "custom_notes");
    assert!(matches!(
        parsed.columns,
        ParsedViewColumnList::Columns(ref columns) if columns.len() == 1 && columns[0].name == "id"
    ));
}


#[test]
fn parse_simple_view_select_parses_implicit_table_alias() {
    let parsed = parse_simple_view_select(r#"SELECT n."id" FROM "custom_notes" n"#).expect("parsed");
    assert_eq!(parsed.base_table, "custom_notes");
    assert!(matches!(
        parsed.columns,
        ParsedViewColumnList::Columns(ref columns) if columns.len() == 1 && columns[0].name == "id"
    ));
}


#[test]
fn parse_simple_view_select_parses_schema_qualified_table() {
    let parsed =
        parse_simple_view_select(r#"SELECT "id" FROM main."custom_notes""#).expect("parsed");
    assert_eq!(parsed.base_table, "custom_notes");
}


#[test]
fn parse_simple_view_select_parses_implicit_column_alias() {
    let parsed =
        parse_simple_view_select(r#"SELECT "id" user_id FROM "custom_notes""#).expect("parsed");
    assert!(matches!(
        parsed.columns,
        ParsedViewColumnList::Columns(ref columns)
            if columns.len() == 1
                && columns[0].name == "id"
                && columns[0].alias.as_deref() == Some("user_id")
    ));
}


#[test]
fn parse_simple_view_select_parses_qualified_where() {
    let parsed = parse_simple_view_select(
        r#"SELECT "id" FROM "custom_notes" n WHERE n."body" IS NOT NULL"#,
    )
    .expect("parsed");
    assert_eq!(
        parsed.where_conditions,
        vec![ParsedWhereCondition {
            column: "body".to_string(),
            suffix: "IS NOT NULL".to_string(),
        }]
    );
}


#[test]
fn build_simple_view_ui_spec_splits_extra_where() {
    let parsed = parse_simple_view_select(
        r#"SELECT "id" FROM "custom_notes" WHERE "body" IS NOT NULL"#,
    )
    .expect("parsed");
    let table_columns = vec![
        TableColumnUiInfo {
            name: "id".to_string(),
            type_key: "integer".to_string(),
            pk: true,
            nullable: false,
        },
        TableColumnUiInfo {
            name: "body".to_string(),
            type_key: "text".to_string(),
            pk: false,
            nullable: false,
        },
    ];

    let spec = build_simple_view_ui_spec(&parsed, &table_columns);
    assert_eq!(spec.columns.len(), 1);
    assert!(spec.columns[0].where_condition.is_none());
    assert_eq!(
        spec.extra_where,
        vec![ExtraWhereCondition {
            column: "body".to_string(),
            suffix: "IS NOT NULL".to_string(),
        }]
    );
}


#[test]
fn build_simple_view_select_generates_distinct_and_extra_where() {
    let spec = SimpleViewUiSpec {
        base_table: "custom_notes".to_string(),
        distinct: true,
        extra_where: vec![ExtraWhereCondition {
            column: "body".to_string(),
            suffix: "IS NOT NULL".to_string(),
        }],
        columns: vec![SimpleViewUiColumn {
            name: "id".to_string(),
            type_key: "integer".to_string(),
            alias: None,
            expression: None,
            where_condition: None,
        }],
    };

    let sql = build_simple_view_select(&spec).expect("sql");
    assert_eq!(
        sql,
        r#"SELECT DISTINCT "id" FROM "custom_notes" WHERE "body" IS NOT NULL"#
    );
}


#[test]
fn filter_sort_entries_to_columns_drops_missing_columns() {
    let filtered = filter_sort_entries_to_columns(
        &["user_id".to_string()],
        &[TableSortEntry {
            column: "body".to_string(),
            direction: TableSortDirection::Asc,
        }],
    );
    assert!(filtered.is_empty());
}


#[test]
fn build_simple_view_ui_spec_returns_only_selected_columns() {
    let parsed = parse_simple_view_select("SELECT body FROM custom_notes").expect("parsed");
    let table_columns = vec![
        TableColumnUiInfo {
            name: "id".to_string(),
            type_key: "integer".to_string(),
            pk: true,
            nullable: false,
        },
        TableColumnUiInfo {
            name: "body".to_string(),
            type_key: "text".to_string(),
            pk: false,
            nullable: false,
        },
    ];

    let spec = build_simple_view_ui_spec(&parsed, &table_columns);
    assert_eq!(spec.base_table, "custom_notes");
    assert_eq!(spec.columns.len(), 1);
    assert_eq!(spec.columns[0].name, "body");
    assert!(spec.columns[0].where_condition.is_none());
}
