use sqlite_cms::create_sql::parse_user_columns_from_create_sql;
use sqlite_cms::ddl::create_table_ddl;
use sqlite_cms::schema::{build_table_definition, TableColumnInput};

fn column(name: &str, type_key: &str, nullable: bool, orig: Option<&str>) -> TableColumnInput {
    TableColumnInput {
        name: name.to_string(),
        type_key: type_key.to_string(),
        nullable,
        orig_name: orig.map(|s| s.to_string()),
    }
}

#[test]
fn created_table_columns_read_back() {
    let columns = vec![
        column("  タイトル ", "text", false, Some("old")),
        column("", "integer", true, None),
        column("price", "real", true, None),
        column("my flag", "boolean", false, None),
        column("photo", "blob", true, None),
        column("at", "timestamp", false, None),
        column("count", "integer", true, None),
    ];
    let definition = build_table_definition(&columns).unwrap();
    let sql = create_table_ddl("記事 \"一覧\"", &definition);
    let read = parse_user_columns_from_create_sql(&sql).unwrap();
    let expected = vec![
        column("タイトル", "text", false, None),
        column("price", "real", true, None),
        column("my flag", "boolean", false, None),
        column("photo", "blob", true, None),
        column("at", "timestamp", false, None),
        column("count", "integer", true, None),
    ];
    assert_eq!(read.len(), expected.len());
    for (a, b) in read.iter().zip(expected.iter()) {
        assert_eq!(a.name, b.name);
        assert_eq!(a.type_key, b.type_key);
        assert_eq!(a.nullable, b.nullable);
        assert_eq!(a.orig_name, b.orig_name);
    }
}

#[test]
fn comma_in_a_column_name_is_not_read_back() {
    let columns = vec![column("a,b", "text", true, None)];
    let definition = build_table_definition(&columns).unwrap();
    let sql = create_table_ddl("t", &definition);
    let read = parse_user_columns_from_create_sql(&sql);
    let same = match &read {
        Ok(cols) => cols.len() == 1 && cols[0].name == "a,b",
        Err(_) => false,
    };
    assert!(!same);
}
