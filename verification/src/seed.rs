//! The test-data form: its default rows, reading the submitted form into
//! per-column generation rules, and the progress reporting interval.
use vstd::prelude::*;

use crate::error::{is_validation, DomainError};
use crate::numbers::{parse_i64, parse_i64_spec, parse_u32, parse_u32_spec};
use crate::prefs::strings_view;
use crate::schema::{cols_view, ColumnSpec, TableColumnInput};
use crate::table_data::{column_type_label, type_label_spec};
use crate::text::{append_vec, chars_of, chars_of_string, seq_eq, string_of, trim, trim_vec};
use crate::timestamps::{form_datetime_spec, parse_form_datetime};

verus! {

/// Most rows one generation may insert.
pub const MAX_TEST_DATA_ROWS: u32 = 10_000_000;

/// Most bytes of a generated blob.
pub const MAX_BLOB_SEED_BYTES: u32 = 4096;

/// Characters drawn for generated text.
#[derive(Debug, Clone, Copy, PartialEq, Eq, Structural)]
pub enum StringCharset {
    AsciiAlnum,
    AsciiPrintable,
    Japanese,
}

/// How values of one column are generated. The bounds of a `Real` rule are
/// the trimmed texts of the form, literals that `f64::from_str` accepts; they
/// are read as floats, and their order checked, where values are drawn.
#[derive(Debug, Clone, PartialEq)]
pub enum ColumnSeedRule {
    Integer { min: i64, max: i64, include_null: bool },
    Real { min: String, max: String, include_null: bool },
    Text { min_len: u32, max_len: u32, charset: StringCharset, include_null: bool },
    Blob { min_len: u32, max_len: u32, include_null: bool },
    Timestamp { from: String, to: String, include_null: bool },
    Boolean { include_null: bool },
}

pub enum RuleP {
    Integer { min: i64, max: i64, include_null: bool },
    Real { min: Seq<char>, max: Seq<char>, include_null: bool },
    Text { min_len: u32, max_len: u32, charset: StringCharset, include_null: bool },
    Blob { min_len: u32, max_len: u32, include_null: bool },
    Timestamp { from: Seq<char>, to: Seq<char>, include_null: bool },
    Boolean { include_null: bool },
}

impl View for ColumnSeedRule {
    type V = RuleP;

    open spec fn view(&self) -> RuleP {
        match self {
            ColumnSeedRule::Integer { min, max, include_null } => RuleP::Integer {
                min: *min,
                max: *max,
                include_null: *include_null,
            },
            ColumnSeedRule::Real { min, max, include_null } => RuleP::Real {
                min: min@,
                max: max@,
                include_null: *include_null,
            },
            ColumnSeedRule::Text { min_len, max_len, charset, include_null } => RuleP::Text {
                min_len: *min_len,
                max_len: *max_len,
                charset: *charset,
                include_null: *include_null,
            },
            ColumnSeedRule::Blob { min_len, max_len, include_null } => RuleP::Blob {
                min_len: *min_len,
                max_len: *max_len,
                include_null: *include_null,
            },
            ColumnSeedRule::Timestamp { from, to, include_null } => RuleP::Timestamp {
                from: from@,
                to: to@,
                include_null: *include_null,
            },
            ColumnSeedRule::Boolean { include_null } => RuleP::Boolean { include_null: *include_null },
        }
    }
}

/// One column row of the test-data form as first shown.
#[derive(Debug, Clone)]
pub struct SeedFormRow {
    pub name: String,
    pub type_key: String,
    pub type_label: String,
    pub nullable: bool,
    pub int_min: String,
    pub int_max: String,
    pub real_min: String,
    pub real_max: String,
    pub text_min: String,
    pub text_max: String,
    pub charset: String,
    pub blob_min: String,
    pub blob_max: String,
    pub timestamp_from: String,
    pub timestamp_to: String,
    pub include_null: bool,
}

/// The submitted test-data form.
#[derive(Debug, Clone, Default)]
pub struct TestDataSeedForm {
    pub count: String,
    pub col_name: Vec<String>,
    pub col_type: Vec<String>,
    pub col_int_min: Vec<String>,
    pub col_int_max: Vec<String>,
    pub col_real_min: Vec<String>,
    pub col_real_max: Vec<String>,
    pub col_text_min: Vec<String>,
    pub col_text_max: Vec<String>,
    pub col_charset: Vec<String>,
    pub col_blob_min: Vec<String>,
    pub col_blob_max: Vec<String>,
    pub col_timestamp_from: Vec<String>,
    pub col_timestamp_to: Vec<String>,
    pub col_include_null: Vec<String>,
}

/// The default form rows of the columns; the timestamp range is the one
/// given (the year up to now, as the form shows it).
pub fn build_seed_form_rows(columns: &[TableColumnInput], timestamp_from: &str, timestamp_to: &str) -> (r: Vec<
    SeedFormRow,
>)
    ensures
        r@.len() == columns@.len(),
        forall|i: int|
            0 <= i < r@.len() ==> {
                let row = #[trigger] r@[i];
                let c = columns@[i]@;
                &&& row.name@ == c.name
                &&& row.type_key@ == c.type_key
                &&& row.type_label@ == type_label_spec(c.type_key)
                &&& row.nullable == c.nullable
                &&& row.int_min@ == "0"@ && row.int_max@ == "1000"@
                &&& row.real_min@ == "0"@ && row.real_max@ == "100"@
                &&& row.text_min@ == "8"@ && row.text_max@ == "64"@
                &&& row.charset@ == "ascii_alnum"@
                &&& row.blob_min@ == "1"@ && row.blob_max@ == "32"@
                &&& row.timestamp_from@ == timestamp_from@ && row.timestamp_to@ == timestamp_to@
                &&& !row.include_null
            },
{
    let mut out: Vec<SeedFormRow> = Vec::new();
    let mut i: usize = 0;
    while i < columns.len()
        invariant
            i <= columns.len(),
            out@.len() == i,
            forall|k: int|
                0 <= k < i ==> {
                    let row = #[trigger] out@[k];
                    let c = columns@[k]@;
                    &&& row.name@ == c.name
                    &&& row.type_key@ == c.type_key
                    &&& row.type_label@ == type_label_spec(c.type_key)
                    &&& row.nullable == c.nullable
                    &&& row.int_min@ == "0"@ && row.int_max@ == "1000"@
                    &&& row.real_min@ == "0"@ && row.real_max@ == "100"@
                    &&& row.text_min@ == "8"@ && row.text_max@ == "64"@
                    &&& row.charset@ == "ascii_alnum"@
                    &&& row.blob_min@ == "1"@ && row.blob_max@ == "32"@
                    &&& row.timestamp_from@ == timestamp_from@ && row.timestamp_to@ == timestamp_to@
                    &&& !row.include_null
                },
        decreases columns.len() - i,
    {
        let c = &columns[i];
        let row = SeedFormRow {
            name: c.name.clone(),
            type_key: c.type_key.clone(),
            type_label: String::from_str(column_type_label(c.type_key.as_str())),
            nullable: c.nullable,
            int_min: String::from_str("0"),
            int_max: String::from_str("1000"),
            real_min: String::from_str("0"),
            real_max: String::from_str("100"),
            text_min: String::from_str("8"),
            text_max: String::from_str("64"),
            charset: String::from_str("ascii_alnum"),
            blob_min: String::from_str("1"),
            blob_max: String::from_str("32"),
            timestamp_from: String::from_str(timestamp_from),
            timestamp_to: String::from_str(timestamp_to),
            include_null: false,
        };
        out.push(row);
        i += 1;
    }
    out
}

// ---------------------------------------------------------------------------
// Reading the submitted form
// ---------------------------------------------------------------------------

pub struct FormP {
    pub count: Seq<char>,
    pub col_name: Seq<Seq<char>>,
    pub col_type: Seq<Seq<char>>,
    pub col_int_min: Seq<Seq<char>>,
    pub col_int_max: Seq<Seq<char>>,
    pub col_real_min: Seq<Seq<char>>,
    pub col_real_max: Seq<Seq<char>>,
    pub col_text_min: Seq<Seq<char>>,
    pub col_text_max: Seq<Seq<char>>,
    pub col_charset: Seq<Seq<char>>,
    pub col_blob_min: Seq<Seq<char>>,
    pub col_blob_max: Seq<Seq<char>>,
    pub col_timestamp_from: Seq<Seq<char>>,
    pub col_timestamp_to: Seq<Seq<char>>,
    pub col_include_null: Seq<Seq<char>>,
}

impl View for TestDataSeedForm {
    type V = FormP;

    open spec fn view(&self) -> FormP {
        FormP {
            count: self.count@,
            col_name: strings_view(self.col_name@),
            col_type: strings_view(self.col_type@),
            col_int_min: strings_view(self.col_int_min@),
            col_int_max: strings_view(self.col_int_max@),
            col_real_min: strings_view(self.col_real_min@),
            col_real_max: strings_view(self.col_real_max@),
            col_text_min: strings_view(self.col_text_min@),
            col_text_max: strings_view(self.col_text_max@),
            col_charset: strings_view(self.col_charset@),
            col_blob_min: strings_view(self.col_blob_min@),
            col_blob_max: strings_view(self.col_blob_max@),
            col_timestamp_from: strings_view(self.col_timestamp_from@),
            col_timestamp_to: strings_view(self.col_timestamp_to@),
            col_include_null: strings_view(self.col_include_null@),
        }
    }
}

/// The `i`-th form value, when the form has one.
pub open spec fn opt_at(v: Seq<Seq<char>>, i: int) -> Option<Seq<char>> {
    if 0 <= i < v.len() {
        Some(v[i])
    } else {
        None
    }
}

pub open spec fn or_default(o: Option<Seq<char>>, d: Seq<char>) -> Seq<char> {
    match o {
        Some(v) => v,
        None => d,
    }
}

pub open spec fn form_i64_spec(value: Option<Seq<char>>, label: Seq<char>) -> Result<i64, Seq<char>> {
    match parse_i64_spec(trim(or_default(value, seq![]))) {
        Some(v) => Ok(v),
        None => Err(label + "は整数で指定してください"@),
    }
}

/// A form value read as the text of an `f64`.
pub open spec fn form_f64_spec(value: Option<Seq<char>>, label: Seq<char>) -> Result<Seq<char>, Seq<char>> {
    let t = trim(or_default(value, seq![]));
    if crate::numbers::f64_literal_ok(t) {
        Ok(t)
    } else {
        Err(label + "は数値で指定してください"@)
    }
}

pub open spec fn form_u32_spec(value: Option<Seq<char>>, label: Seq<char>) -> Result<u32, Seq<char>> {
    match parse_u32_spec(trim(or_default(value, seq![]))) {
        Some(v) => Ok(v),
        None => Err(label + "は正の整数で指定してください"@),
    }
}

pub open spec fn charset_spec(value: Option<Seq<char>>, column: Seq<char>) -> Result<StringCharset, Seq<char>> {
    let v = or_default(value, "ascii_alnum"@);
    if v == "ascii_alnum"@ {
        Ok(StringCharset::AsciiAlnum)
    } else if v == "ascii_printable"@ {
        Ok(StringCharset::AsciiPrintable)
    } else if v == "japanese"@ {
        Ok(StringCharset::Japanese)
    } else {
        Err("カラム `"@ + column + "` の文字種が不正です"@)
    }
}

/// `カラム `name`` followed by `tail`.
pub open spec fn col_text(name: Seq<char>, tail: Seq<char>) -> Seq<char> {
    "カラム `"@ + name + tail
}

/// The rule of column `i` as the form gives it, or the error of the column.
pub open spec fn column_rule_spec(c: ColumnSpec, f: FormP, i: int) -> Result<RuleP, Seq<char>> {
    let form_name = or_default(opt_at(f.col_name, i), seq![]);
    let form_type = or_default(opt_at(f.col_type, i), seq![]);
    let include_null = opt_at(f.col_include_null, i) == Some("1"@);
    let n = c.name;
    if form_name != n || form_type != c.type_key {
        Err(col_text(n, "` のフォーム内容が不正です"@))
    } else if !c.nullable && include_null {
        Err("NOT NULL 列 `"@ + n + "` では NULL を含められません"@)
    } else if c.type_key == "integer"@ {
        match form_i64_spec(opt_at(f.col_int_min, i), col_text(n, "` の最小値"@)) {
            Err(m) => Err(m),
            Ok(min) => match form_i64_spec(opt_at(f.col_int_max, i), col_text(n, "` の最大値"@)) {
                Err(m) => Err(m),
                Ok(max) => if min > max {
                    Err(col_text(n, "` の最小値は最大値以下にしてください"@))
                } else {
                    Ok(RuleP::Integer { min, max, include_null })
                },
            },
        }
    } else if c.type_key == "real"@ {
        match form_f64_spec(opt_at(f.col_real_min, i), col_text(n, "` の最小値"@)) {
            Err(m) => Err(m),
            Ok(min) => match form_f64_spec(opt_at(f.col_real_max, i), col_text(n, "` の最大値"@)) {
                Err(m) => Err(m),
                Ok(max) => Ok(RuleP::Real { min, max, include_null }),
            },
        }
    } else if c.type_key == "text"@ {
        match form_u32_spec(opt_at(f.col_text_min, i), col_text(n, "` の最小文字数"@)) {
            Err(m) => Err(m),
            Ok(min_len) => match form_u32_spec(opt_at(f.col_text_max, i), col_text(n, "` の最大文字数"@)) {
                Err(m) => Err(m),
                Ok(max_len) => if min_len < 1 || max_len < 1 || min_len > max_len {
                    Err(col_text(n, "` の文字数範囲が不正です"@))
                } else {
                    match charset_spec(opt_at(f.col_charset, i), n) {
                        Err(m) => Err(m),
                        Ok(charset) => Ok(RuleP::Text { min_len, max_len, charset, include_null }),
                    }
                },
            },
        }
    } else if c.type_key == "blob"@ {
        match form_u32_spec(opt_at(f.col_blob_min, i), col_text(n, "` の最小バイト数"@)) {
            Err(m) => Err(m),
            Ok(min_len) => match form_u32_spec(opt_at(f.col_blob_max, i), col_text(n, "` の最大バイト数"@)) {
                Err(m) => Err(m),
                Ok(max_len) => if min_len < 1 || max_len < 1 || min_len > max_len || max_len > 4096 {
                    Err(col_text(n, "` のバイト数範囲は 1〜4096 で指定してください"@))
                } else {
                    Ok(RuleP::Blob { min_len, max_len, include_null })
                },
            },
        }
    } else if c.type_key == "timestamp"@ {
        let from = trim(or_default(opt_at(f.col_timestamp_from, i), seq![]));
        let to = trim(or_default(opt_at(f.col_timestamp_to, i), seq![]));
        match form_datetime_spec(from, col_text(n, "` の開始日時"@)) {
            Err(m) => Err(m),
            Ok(a) => match form_datetime_spec(to, col_text(n, "` の終了日時"@)) {
                Err(m) => Err(m),
                Ok(b) => if a > b {
                    Err(col_text(n, "` の開始日時は終了日時以前にしてください"@))
                } else {
                    Ok(RuleP::Timestamp { from, to, include_null })
                },
            },
        }
    } else if c.type_key == "boolean"@ {
        Ok(RuleP::Boolean { include_null })
    } else {
        Err(col_text(n, "` の型はテストデータ生成に対応していません"@))
    }
}

/// Rules of the columns in order; the first bad column decides the error.
pub open spec fn rules_spec(cols: Seq<ColumnSpec>, f: FormP) -> Result<Seq<(Seq<char>, RuleP)>, Seq<char>>
    decreases cols.len(),
{
    if cols.len() == 0 {
        Ok(seq![])
    } else {
        match rules_spec(cols.drop_last(), f) {
            Err(m) => Err(m),
            Ok(acc) => match column_rule_spec(cols.last(), f, cols.len() - 1) {
                Err(m) => Err(m),
                Ok(r) => Ok(acc.push((cols.last().name, r))),
            },
        }
    }
}

/// The row count and the rules of a submitted form.
pub open spec fn seed_form_spec(cols: Seq<ColumnSpec>, f: FormP) -> Result<(u32, Seq<(Seq<char>, RuleP)>), Seq<char>> {
    match parse_u32_spec(trim(f.count)) {
        None => Err("生成件数は数値で指定してください"@),
        Some(count) => if count == 0 || count > MAX_TEST_DATA_ROWS {
            Err("生成件数は 1〜10000000 で指定してください"@)
        } else if f.col_name.len() != cols.len() || f.col_type.len() != cols.len() {
            Err("カラム定義とフォームの内容が一致しません"@)
        } else {
            match rules_spec(cols, f) {
                Err(m) => Err(m),
                Ok(rs) => Ok((count, rs)),
            }
        },
    }
}

pub open spec fn rules_view(v: Seq<(String, ColumnSeedRule)>) -> Seq<(Seq<char>, RuleP)> {
    Seq::new(v.len(), |i: int| (v[i].0@, v[i].1@))
}

fn get_or(v: &Vec<String>, i: usize, d: &str) -> (r: Vec<char>)
    ensures
        r@ == or_default(opt_at(strings_view(v@), i as int), d@),
{
    if i < v.len() {
        chars_of_string(&v[i])
    } else {
        chars_of(d)
    }
}

fn col_msg(name: &Vec<char>, tail: &str) -> (r: Vec<char>)
    ensures
        r@ == col_text(name@, tail@),
{
    let mut m = chars_of("カラム `");
    append_vec(&mut m, name);
    let t = chars_of(tail);
    append_vec(&mut m, &t);
    m
}

fn same(v: &Vec<char>, s: &str) -> (b: bool)
    ensures
        b == (v@ == s@),
{
    let sv = chars_of(s);
    seq_eq(v, &sv)
}

pub open spec fn opt_ref_view(o: Option<&String>) -> Option<Seq<char>> {
    match o {
        Some(s) => Some(s@),
        None => None,
    }
}

fn value_at(v: &Vec<String>, i: usize) -> (r: Option<&String>)
    ensures
        opt_ref_view(r) == opt_at(strings_view(v@), i as int),
{
    if i < v.len() {
        Some(&v[i])
    } else {
        None
    }
}

fn chars_or(o: Option<&String>, d: &str) -> (r: Vec<char>)
    ensures
        r@ == or_default(opt_ref_view(o), d@),
{
    match o {
        Some(s) => chars_of_string(s),
        None => chars_of(d),
    }
}

/// Reads a form value as the text of an `f64` (a missing value reads as
/// empty); the text is read as a float where values are drawn.
pub fn parse_form_f64(value: Option<&String>, label: &str) -> (r: Result<String, DomainError>)
    ensures
        match form_f64_spec(opt_ref_view(value), label@) {
            Ok(t) => r matches Ok(s) && s@ == t,
            Err(m) => is_validation(r, m),
        },
{
    proof {
        reveal_strlit("");
        assert(""@ =~= Seq::<char>::empty());
    }
    let v = chars_or(value, "");
    let t = trim_vec(&v);
    if crate::numbers::is_f64_literal(&t) {
        Ok(string_of(&t))
    } else {
        let mut m = chars_of(label);
        let tail = chars_of("は数値で指定してください");
        append_vec(&mut m, &tail);
        Err(DomainError::Validation(string_of(&m)))
    }
}

/// Reads a form value as an `i64` (a missing value reads as empty).
pub fn parse_form_i64(value: Option<&String>, label: &str) -> (r: Result<i64, DomainError>)
    ensures
        match form_i64_spec(opt_ref_view(value), label@) {
            Ok(x) => r == Ok::<i64, DomainError>(x),
            Err(m) => is_validation(r, m),
        },
{
    proof {
        reveal_strlit("");
        assert(""@ =~= Seq::<char>::empty());
    }
    let v = chars_or(value, "");
    let t = trim_vec(&v);
    match parse_i64(&t) {
        Some(x) => Ok(x),
        None => {
            let mut m = chars_of(label);
            let tail = chars_of("は整数で指定してください");
            append_vec(&mut m, &tail);
            Err(DomainError::Validation(string_of(&m)))
        },
    }
}

/// Reads a form value as a `u32` (a missing value reads as empty).
pub fn parse_form_u32(value: Option<&String>, label: &str) -> (r: Result<u32, DomainError>)
    ensures
        match form_u32_spec(opt_ref_view(value), label@) {
            Ok(x) => r == Ok::<u32, DomainError>(x),
            Err(m) => is_validation(r, m),
        },
{
    proof {
        reveal_strlit("");
        assert(""@ =~= Seq::<char>::empty());
    }
    let v = chars_or(value, "");
    let t = trim_vec(&v);
    match parse_u32(&t) {
        Some(x) => Ok(x),
        None => {
            let mut m = chars_of(label);
            let tail = chars_of("は正の整数で指定してください");
            append_vec(&mut m, &tail);
            Err(DomainError::Validation(string_of(&m)))
        },
    }
}

/// Reads the character set of a text column (`ascii_alnum` when absent).
pub fn parse_charset(value: Option<&String>, column_name: &str) -> (r: Result<StringCharset, DomainError>)
    ensures
        match charset_spec(opt_ref_view(value), column_name@) {
            Ok(x) => r == Ok::<StringCharset, DomainError>(x),
            Err(m) => is_validation(r, m),
        },
{
    let v = chars_or(value, "ascii_alnum");
    if same(&v, "ascii_alnum") {
        Ok(StringCharset::AsciiAlnum)
    } else if same(&v, "ascii_printable") {
        Ok(StringCharset::AsciiPrintable)
    } else if same(&v, "japanese") {
        Ok(StringCharset::Japanese)
    } else {
        let n = chars_of(column_name);
        let m = col_msg(&n, "` の文字種が不正です");
        Err(DomainError::Validation(string_of(&m)))
    }
}

fn column_rule(c: &TableColumnInput, form: &TestDataSeedForm, i: usize) -> (r: Result<ColumnSeedRule, DomainError>)
    ensures
        match column_rule_spec(c@, form@, i as int) {
            Ok(x) => r matches Ok(v) && v@ == x,
            Err(m) => is_validation(r, m),
        },
{
    let n = chars_of_string(&c.name);
    let tk = chars_of_string(&c.type_key);
    proof {
        reveal_strlit("");
        assert(""@ =~= Seq::<char>::empty());
    }
    let form_name = get_or(&form.col_name, i, "");
    let form_type = get_or(&form.col_type, i, "");
    let inc = if i < form.col_include_null.len() {
        let v = chars_of_string(&form.col_include_null[i]);
        assert(strings_view(form.col_include_null@)[i as int] == v@);
        let b = same(&v, "1");
        assert(b == (opt_at(form@.col_include_null, i as int) == Some("1"@)));
        b
    } else {
        false
    };
    assert(inc == (opt_at(form@.col_include_null, i as int) == Some("1"@)));
    if !seq_eq(&form_name, &n) || !seq_eq(&form_type, &tk) {
        let m = col_msg(&n, "` のフォーム内容が不正です");
        return Err(DomainError::Validation(string_of(&m)));
    }
    if !c.nullable && inc {
        let mut m = chars_of("NOT NULL 列 `");
        append_vec(&mut m, &n);
        let t = chars_of("` では NULL を含められません");
        append_vec(&mut m, &t);
        return Err(DomainError::Validation(string_of(&m)));
    }
    if same(&tk, "integer") {
        let l1 = string_of(&col_msg(&n, "` の最小値"));
        let min = match parse_form_i64(value_at(&form.col_int_min, i), l1.as_str()) {
            Ok(x) => x,
            Err(e) => return Err(e),
        };
        let l2 = string_of(&col_msg(&n, "` の最大値"));
        let max = match parse_form_i64(value_at(&form.col_int_max, i), l2.as_str()) {
            Ok(x) => x,
            Err(e) => return Err(e),
        };
        if min > max {
            let m = col_msg(&n, "` の最小値は最大値以下にしてください");
            return Err(DomainError::Validation(string_of(&m)));
        }
        Ok(ColumnSeedRule::Integer { min, max, include_null: inc })
    } else if same(&tk, "real") {
        let l1 = string_of(&col_msg(&n, "` の最小値"));
        let min = match parse_form_f64(value_at(&form.col_real_min, i), l1.as_str()) {
            Ok(x) => x,
            Err(e) => return Err(e),
        };
        let l2 = string_of(&col_msg(&n, "` の最大値"));
        let max = match parse_form_f64(value_at(&form.col_real_max, i), l2.as_str()) {
            Ok(x) => x,
            Err(e) => return Err(e),
        };
        Ok(ColumnSeedRule::Real { min, max, include_null: inc })
    } else if same(&tk, "text") {
        let l1 = string_of(&col_msg(&n, "` の最小文字数"));
        let min_len = match parse_form_u32(value_at(&form.col_text_min, i), l1.as_str()) {
            Ok(x) => x,
            Err(e) => return Err(e),
        };
        let l2 = string_of(&col_msg(&n, "` の最大文字数"));
        let max_len = match parse_form_u32(value_at(&form.col_text_max, i), l2.as_str()) {
            Ok(x) => x,
            Err(e) => return Err(e),
        };
        if min_len < 1 || max_len < 1 || min_len > max_len {
            let m = col_msg(&n, "` の文字数範囲が不正です");
            return Err(DomainError::Validation(string_of(&m)));
        }
        let charset = match parse_charset(value_at(&form.col_charset, i), c.name.as_str()) {
            Ok(x) => x,
            Err(e) => return Err(e),
        };
        Ok(ColumnSeedRule::Text { min_len, max_len, charset, include_null: inc })
    } else if same(&tk, "blob") {
        let l1 = string_of(&col_msg(&n, "` の最小バイト数"));
        let min_len = match parse_form_u32(value_at(&form.col_blob_min, i), l1.as_str()) {
            Ok(x) => x,
            Err(e) => return Err(e),
        };
        let l2 = string_of(&col_msg(&n, "` の最大バイト数"));
        let max_len = match parse_form_u32(value_at(&form.col_blob_max, i), l2.as_str()) {
            Ok(x) => x,
            Err(e) => return Err(e),
        };
        if min_len < 1 || max_len < 1 || min_len > max_len || max_len > MAX_BLOB_SEED_BYTES {
            let m = col_msg(&n, "` のバイト数範囲は 1〜4096 で指定してください");
            return Err(DomainError::Validation(string_of(&m)));
        }
        Ok(ColumnSeedRule::Blob { min_len, max_len, include_null: inc })
    } else if same(&tk, "timestamp") {
        let v1 = get_or(&form.col_timestamp_from, i, "");
        let v2 = get_or(&form.col_timestamp_to, i, "");
        let from = string_of(&trim_vec(&v1));
        let to = string_of(&trim_vec(&v2));
        let l1 = string_of(&col_msg(&n, "` の開始日時"));
        let a = match parse_form_datetime(from.as_str(), l1.as_str()) {
            Ok(x) => x,
            Err(e) => return Err(e),
        };
        let l2 = string_of(&col_msg(&n, "` の終了日時"));
        let b = match parse_form_datetime(to.as_str(), l2.as_str()) {
            Ok(x) => x,
            Err(e) => return Err(e),
        };
        if a > b {
            let m = col_msg(&n, "` の開始日時は終了日時以前にしてください");
            return Err(DomainError::Validation(string_of(&m)));
        }
        Ok(ColumnSeedRule::Timestamp { from, to, include_null: inc })
    } else if same(&tk, "boolean") {
        Ok(ColumnSeedRule::Boolean { include_null: inc })
    } else {
        let m = col_msg(&n, "` の型はテストデータ生成に対応していません");
        Err(DomainError::Validation(string_of(&m)))
    }
}

proof fn lemma_rules_err_sticky(cols: Seq<ColumnSpec>, f: FormP, i: int)
    requires
        0 <= i <= cols.len(),
        rules_spec(cols.take(i), f) is Err,
    ensures
        rules_spec(cols, f) == rules_spec(cols.take(i), f),
    decreases cols.len() - i,
{
    if i < cols.len() {
        assert(cols.take(i + 1).drop_last() =~= cols.take(i));
        lemma_rules_err_sticky(cols, f, i + 1);
    } else {
        assert(cols.take(i) =~= cols);
    }
}

/// Reads the submitted test-data form: the number of rows and each column's rule.
pub fn parse_seed_form(columns: &[TableColumnInput], form: &TestDataSeedForm) -> (r: Result<
    (u32, Vec<(String, ColumnSeedRule)>),
    DomainError,
>)
    ensures
        match seed_form_spec(cols_view(columns@), form@) {
            Ok((n, rs)) => r matches Ok(v) && v.0 == n && rules_view(v.1@) == rs,
            Err(m) => is_validation(r, m),
        },
{
    let cv = chars_of_string(&form.count);
    let ct = trim_vec(&cv);
    let count = match parse_u32(&ct) {
        Some(x) => x,
        None => return Err(DomainError::Validation(String::from_str("生成件数は数値で指定してください"))),
    };
    if count == 0 || count > MAX_TEST_DATA_ROWS {
        return Err(DomainError::Validation(String::from_str("生成件数は 1〜10000000 で指定してください")));
    }
    if form.col_name.len() != columns.len() || form.col_type.len() != columns.len() {
        return Err(DomainError::Validation(String::from_str("カラム定義とフォームの内容が一致しません")));
    }
    let ghost cs = cols_view(columns@);
    let mut rules: Vec<(String, ColumnSeedRule)> = Vec::new();
    let mut i: usize = 0;
    assert(cs.take(0) =~= seq![]);
    assert(rules_view(rules@) =~= seq![]);
    while i < columns.len()
        invariant
            i <= columns.len(),
            cs == cols_view(columns@),
            parse_u32_spec(trim(form@.count)) == Some(count),
            !(count == 0 || count > MAX_TEST_DATA_ROWS),
            form@.col_name.len() == cs.len() && form@.col_type.len() == cs.len(),
            rules_spec(cs.take(i as int), form@) == Ok::<Seq<(Seq<char>, RuleP)>, Seq<char>>(rules_view(rules@)),
        decreases columns.len() - i,
    {
        let ghost t = cs.take(i + 1);
        assert(t.drop_last() =~= cs.take(i as int));
        assert(t.last() == columns@[i as int]@);
        match column_rule(&columns[i], form, i) {
            Err(e) => {
                proof {
                    lemma_rules_err_sticky(cs, form@, i + 1);
                }
                return Err(e);
            },
            Ok(rule) => {
                let item = (columns[i].name.clone(), rule);
                let ghost old = rules_view(rules@);
                rules.push(item);
                assert(rules_view(rules@) =~= old.push((item.0@, item.1@)));
            },
        }
        i += 1;
    }
    assert(cs.take(columns@.len() as int) =~= cs);
    Ok((count, rules))
}

// ---------------------------------------------------------------------------
// Progress while generating
// ---------------------------------------------------------------------------

/// Rows between two progress reports: a hundredth of the total, at least one.
pub fn seed_progress_interval(count: u32) -> (r: u32)
    ensures
        r == if count / 100 > 1 { count / 100 } else { 1 },
{
    let q = count / 100;
    if q > 1 {
        q
    } else {
        1
    }
}

/// Whether progress is reported after `done` rows: the first, the last and
/// every `interval`-th.
pub fn seed_progress_due(done: u32, total: u32, interval: u32) -> (b: bool)
    requires
        interval > 0,
    ensures
        b == (done == 1 || done == total || done % interval == 0),
{
    done == 1 || done == total || done % interval == 0
}

// ---------------------------------------------------------------------------
// What an accepted form gives
// ---------------------------------------------------------------------------

/// The seconds a date-time of the form reads as, whatever label its error
/// would carry.
pub open spec fn form_seconds(value: Seq<char>) -> Option<i64> {
    match form_datetime_spec(value, seq![]) {
        Ok(s) => Some(s),
        Err(_) => None,
    }
}

/// A rule fits its column: its kind is the column's type, it draws NULL only
/// for a nullable column, and its range is not empty (for a real, both
/// bounds read as numbers; their order is a comparison of floats).
pub open spec fn rule_fits(c: ColumnSpec, r: RuleP) -> bool {
    &&& rule_include_null_p(r) ==> c.nullable
    &&& match r {
        RuleP::Integer { min, max, .. } => c.type_key == "integer"@ && min <= max,
        RuleP::Real { min, max, .. } => c.type_key == "real"@ && crate::numbers::f64_literal_ok(min)
            && crate::numbers::f64_literal_ok(max),
        RuleP::Text { min_len, max_len, .. } => c.type_key == "text"@ && 1 <= min_len <= max_len,
        RuleP::Blob { min_len, max_len, .. } => c.type_key == "blob"@ && 1 <= min_len <= max_len <= 4096,
        RuleP::Timestamp { from, to, .. } => c.type_key == "timestamp"@ && match (form_seconds(from), form_seconds(to)) {
            (Some(a), Some(b)) => a <= b,
            _ => false,
        },
        RuleP::Boolean { .. } => c.type_key == "boolean"@,
    }
}

pub open spec fn rule_include_null_p(r: RuleP) -> bool {
    match r {
        RuleP::Integer { include_null, .. } => include_null,
        RuleP::Real { include_null, .. } => include_null,
        RuleP::Text { include_null, .. } => include_null,
        RuleP::Blob { include_null, .. } => include_null,
        RuleP::Timestamp { include_null, .. } => include_null,
        RuleP::Boolean { include_null } => include_null,
    }
}

proof fn lemma_column_rule_fits(c: ColumnSpec, f: FormP, i: int)
    requires
        column_rule_spec(c, f, i) is Ok,
    ensures
        rule_fits(c, column_rule_spec(c, f, i)->Ok_0),
{
    let r = column_rule_spec(c, f, i)->Ok_0;
    if c.type_key == "timestamp"@ {
        let from = trim(or_default(opt_at(f.col_timestamp_from, i), seq![]));
        let to = trim(or_default(opt_at(f.col_timestamp_to, i), seq![]));
        assert(form_seconds(from) == match form_datetime_spec(from, col_text(c.name, "` の開始日時"@)) {
            Ok(s) => Some(s),
            Err(_) => None::<i64>,
        });
        assert(form_seconds(to) == match form_datetime_spec(to, col_text(c.name, "` の終了日時"@)) {
            Ok(s) => Some(s),
            Err(_) => None::<i64>,
        });
    }
}

proof fn lemma_rules_fit(cols: Seq<ColumnSpec>, f: FormP)
    requires
        rules_spec(cols, f) is Ok,
    ensures
        rules_spec(cols, f)->Ok_0.len() == cols.len(),
        forall|i: int|
            0 <= i < cols.len() ==> (#[trigger] rules_spec(cols, f)->Ok_0[i]).0 == cols[i].name && rule_fits(
                cols[i],
                rules_spec(cols, f)->Ok_0[i].1,
            ),
    decreases cols.len(),
{
    if cols.len() > 0 {
        lemma_rules_fit(cols.drop_last(), f);
        lemma_column_rule_fits(cols.last(), f, cols.len() - 1);
        let acc = rules_spec(cols.drop_last(), f)->Ok_0;
        let rs = rules_spec(cols, f)->Ok_0;
        assert forall|i: int| 0 <= i < cols.len() implies (#[trigger] rs[i]).0 == cols[i].name && rule_fits(
            cols[i],
            rs[i].1,
        ) by {
            if i < cols.len() - 1 {
                assert(rs[i] == acc[i]);
                assert(cols[i] == cols.drop_last()[i]);
            }
        }
    }
}

/// An accepted test data form asks for 1 to 10,000,000 rows and gives one
/// rule per column, in order, under the column's name, each fitting its
/// column.
pub proof fn law_accepted_seed_form(cols: Seq<ColumnSpec>, f: FormP)
    requires
        seed_form_spec(cols, f) is Ok,
    ensures
        1 <= seed_form_spec(cols, f)->Ok_0.0 <= MAX_TEST_DATA_ROWS,
        seed_form_spec(cols, f)->Ok_0.1.len() == cols.len(),
        forall|i: int|
            0 <= i < cols.len() ==> (#[trigger] seed_form_spec(cols, f)->Ok_0.1[i]).0 == cols[i].name && rule_fits(
                cols[i],
                seed_form_spec(cols, f)->Ok_0.1[i].1,
            ),
{
    lemma_rules_fit(cols, f);
}

/// The trimmed text of field `v` for column `i` of the form (empty when the
/// form has none).
pub open spec fn form_field(v: Seq<Seq<char>>, i: int) -> Seq<char> {
    trim(or_default(opt_at(v, i), seq![]))
}

proof fn lemma_rules_index(cols: Seq<ColumnSpec>, f: FormP, i: int)
    requires
        rules_spec(cols, f) is Ok,
        0 <= i < cols.len(),
    ensures
        column_rule_spec(cols[i], f, i) is Ok,
        rules_spec(cols, f)->Ok_0[i].1 == column_rule_spec(cols[i], f, i)->Ok_0,
    decreases cols.len(),
{
    lemma_rules_fit(cols.drop_last(), f);
    let acc = rules_spec(cols.drop_last(), f)->Ok_0;
    let rs = rules_spec(cols, f)->Ok_0;
    if i < cols.len() - 1 {
        lemma_rules_index(cols.drop_last(), f, i);
        assert(rs[i] == acc[i]);
        assert(cols[i] == cols.drop_last()[i]);
    } else {
        assert(cols[i] == cols.last());
    }
}

/// The bounds of an accepted rule are the values of that column's own form
/// fields: the integers, lengths and byte counts as the fields read, the
/// real and timestamp bounds as their trimmed texts.
pub proof fn law_seed_rule_bounds(cols: Seq<ColumnSpec>, f: FormP, i: int)
    requires
        seed_form_spec(cols, f) is Ok,
        0 <= i < cols.len(),
    ensures
        ({
            let r = seed_form_spec(cols, f)->Ok_0.1[i].1;
            &&& r matches RuleP::Integer { min, max, .. } ==> parse_i64_spec(form_field(f.col_int_min, i)) == Some(min)
                && parse_i64_spec(form_field(f.col_int_max, i)) == Some(max)
            &&& r matches RuleP::Real { min, max, .. } ==> min == form_field(f.col_real_min, i) && max == form_field(
                f.col_real_max,
                i,
            )
            &&& r matches RuleP::Text { min_len, max_len, .. } ==> parse_u32_spec(form_field(f.col_text_min, i)) == Some(
                min_len,
            ) && parse_u32_spec(form_field(f.col_text_max, i)) == Some(max_len)
            &&& r matches RuleP::Blob { min_len, max_len, .. } ==> parse_u32_spec(form_field(f.col_blob_min, i)) == Some(
                min_len,
            ) && parse_u32_spec(form_field(f.col_blob_max, i)) == Some(max_len)
            &&& r matches RuleP::Timestamp { from, to, .. } ==> from == form_field(f.col_timestamp_from, i) && to
                == form_field(f.col_timestamp_to, i)
        }),
{
    lemma_rules_index(cols, f, i);
}

} // verus!
