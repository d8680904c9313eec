use sqlite_cms::error::DomainError;
use sqlite_cms::schema::TableColumnInput;
use sqlite_cms::seed::{parse_form_f64, parse_seed_form, ColumnSeedRule, TestDataSeedForm};
use sqlite_cms::table_data::{parse_cell_update_value, CellBindValue};

fn message<T: std::fmt::Debug>(r: Result<T, DomainError>) -> String {
    match r {
        Err(DomainError::Validation(m)) => m,
        other => panic!("expected a validation error, got {other:?}"),
    }
}

fn real_cell(raw: &str) -> Result<CellBindValue, DomainError> {
    parse_cell_update_value("real", false, false, raw, "score")
}

#[test]
fn real_cells_accept_what_f64_parsing_accepts() {
    for text in ["1.5", " -2 ", "+.5", "5.", "1e10", "1E-3", "2.5e+7", "inf", "-Infinity", "NaN", "007"] {
        match real_cell(text) {
            Ok(CellBindValue::Real(s)) => {
                assert_eq!(s, text.trim());
                assert!(s.parse::<f64>().is_ok(), "{s}");
            }
            other => panic!("{text}: {other:?}"),
        }
    }
}

#[test]
fn real_cells_refuse_other_text() {
    for text in ["abc", ".", "1e", "1e+", "+", "1.2.3", "1,5", "0x10", "1_000", "in f", "e5", "--1"] {
        assert!(text.trim().parse::<f64>().is_err(), "{text}");
        assert_eq!(message(real_cell(text)), "scoreは数値で指定してください");
    }
    assert!(matches!(parse_cell_update_value("real", true, false, "  ", "score"), Ok(CellBindValue::Null)));
}

#[test]
fn seed_form_reals_are_checked_as_numbers() {
    assert_eq!(parse_form_f64(Some(&" 2.5 ".to_string()), "x").unwrap(), "2.5");
    assert_eq!(message(parse_form_f64(None, "カラム `p` の最小値")), "カラム `p` の最小値は数値で指定してください");
    let columns = vec![TableColumnInput {
        name: "price".to_string(),
        type_key: "real".to_string(),
        nullable: false,
        orig_name: None,
    }];
    let form = TestDataSeedForm {
        count: "5".to_string(),
        col_name: vec!["price".to_string()],
        col_type: vec!["real".to_string()],
        col_real_min: vec!["0.5".to_string()],
        col_real_max: vec!["abc".to_string()],
        ..Default::default()
    };
    assert_eq!(
        message(parse_seed_form(&columns, &form)),
        "カラム `price` の最大値は数値で指定してください"
    );
    let form = TestDataSeedForm { col_real_max: vec![" 9.75 ".to_string()], ..form };
    let (count, rules) = parse_seed_form(&columns, &form).unwrap();
    assert_eq!(count, 5);
    assert_eq!(
        rules[0].1,
        ColumnSeedRule::Real { min: "0.5".to_string(), max: "9.75".to_string(), include_null: false }
    );
}
