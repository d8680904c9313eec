use sqlite_cms::error::DomainError;
use sqlite_cms::seed::{seed_progress_due, seed_progress_interval, ColumnSeedRule, StringCharset};
use sqlite_cms::test_data::{
    check_seed_count, generate_cell_value, random_bytes, random_string, random_timestamp_between, seed_insert_sql,
    null_from_draw, should_generate_null, SeedCellValue,
};

const ALNUM: &str = "abcdefghijklmnopqrstuvwxyzABCDEFGHIJKLMNOPQRSTUVWXYZ0123456789";

#[test]
fn random_text_has_the_length_and_the_charset() {
    for _ in 0..20 {
        let s = random_string(StringCharset::AsciiAlnum, 12);
        assert_eq!(s.chars().count(), 12);
        assert!(s.chars().all(|c| ALNUM.contains(c)));
        let p = random_string(StringCharset::AsciiPrintable, 8);
        assert!(p.chars().all(|c| (' '..='~').contains(&c)));
        let j = random_string(StringCharset::Japanese, 5);
        assert_eq!(j.chars().count(), 5);
    }
    assert_eq!(random_string(StringCharset::Japanese, 0), "");
    assert_eq!(random_bytes(7).len(), 7);
}

#[test]
fn drawn_values_respect_their_rules() {
    for _ in 0..50 {
        match generate_cell_value(&ColumnSeedRule::Integer { min: -3, max: 3, include_null: false }).expect("value") {
            SeedCellValue::Integer(v) => assert!((-3..=3).contains(&v)),
            other => panic!("unexpected: {other:?}"),
        }
        match generate_cell_value(&ColumnSeedRule::Text {
            min_len: 2,
            max_len: 4,
            charset: StringCharset::AsciiAlnum,
            include_null: false,
        })
        .expect("value")
        {
            SeedCellValue::Text(s) => assert!((2..=4).contains(&s.chars().count())),
            other => panic!("unexpected: {other:?}"),
        }
        match generate_cell_value(&ColumnSeedRule::Blob { min_len: 1, max_len: 3, include_null: false }).expect("value")
        {
            SeedCellValue::Blob(b) => assert!((1..=3).contains(&b.len())),
            other => panic!("unexpected: {other:?}"),
        }
        match generate_cell_value(&ColumnSeedRule::Boolean { include_null: false }).expect("value") {
            SeedCellValue::Integer(v) => assert!(v == 0 || v == 1),
            other => panic!("unexpected: {other:?}"),
        }
        assert!(!should_generate_null(&ColumnSeedRule::Boolean { include_null: false }));
    }
    match generate_cell_value(&ColumnSeedRule::Real {
        min: "0.5".to_string(),
        max: "1.5".to_string(),
        include_null: false,
    })
    .expect("value")
    {
        SeedCellValue::RealBetween(a, b) => assert_eq!((a.as_str(), b.as_str()), ("0.5", "1.5")),
        other => panic!("unexpected: {other:?}"),
    }
}

#[test]
fn timestamps_are_drawn_between_the_bounds() {
    assert_eq!(random_timestamp_between(0, 0), Some("1970-01-01T00:00:00Z".to_string()));
    assert_eq!(random_timestamp_between(10, 5), Some("1970-01-01T00:00:10Z".to_string()));
    let t = random_timestamp_between(86_400, 86_459).expect("text");
    assert!(t.starts_with("1970-01-02T00:00:"), "{t}");
    let rule = ColumnSeedRule::Timestamp {
        from: "2026-01-01T00:00".to_string(),
        to: "2026-01-01 00:00".to_string(),
        include_null: false,
    };
    match generate_cell_value(&rule).expect("value") {
        SeedCellValue::Text(s) => assert_eq!(s, "2026-01-01T00:00:00Z"),
        other => panic!("unexpected: {other:?}"),
    }
    let bad = ColumnSeedRule::Timestamp { from: "yesterday".to_string(), to: "".to_string(), include_null: false };
    match generate_cell_value(&bad) {
        Err(DomainError::Validation(m)) => assert_eq!(m, "開始日時は YYYY-MM-DDTHH:MM 形式で指定してください"),
        other => panic!("unexpected: {other:?}"),
    }
}

#[test]
fn row_counts_and_insert_statements() {
    assert!(check_seed_count(1).is_ok());
    assert!(check_seed_count(10_000_000).is_ok());
    for n in [0, 10_000_001] {
        match check_seed_count(n) {
            Err(DomainError::Validation(m)) => assert_eq!(m, "生成件数は 1〜10000000 で指定してください"),
            other => panic!("unexpected: {other:?}"),
        }
    }
    assert_eq!(seed_insert_sql("t", &[]), "INSERT INTO \"t\" DEFAULT VALUES");
    assert_eq!(
        seed_insert_sql("t", &["a".to_string(), "b\"c".to_string()]),
        "INSERT INTO \"t\" (\"a\", \"b\"\"c\") VALUES (?, ?)"
    );
    assert_eq!(seed_progress_interval(50_000), 500);
    assert_eq!(seed_progress_interval(50), 1);
    assert!(seed_progress_due(1, 50_000, 500));
    assert!(seed_progress_due(1_000, 50_000, 500));
    assert!(!seed_progress_due(1_001, 50_000, 500));
    assert!(seed_progress_due(50_000, 50_000, 500));
}

#[test]
fn null_needs_both_the_rule_and_the_draw() {
    let nullable = ColumnSeedRule::Boolean { include_null: true };
    let required = ColumnSeedRule::Integer { min: 0, max: 1, include_null: false };
    assert!(null_from_draw(&nullable, true));
    assert!(!null_from_draw(&nullable, false));
    assert!(!null_from_draw(&required, true));
    assert!(!null_from_draw(&required, false));
}
