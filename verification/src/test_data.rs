//! Random test rows for a user table: the values drawn for each column rule,
//! and the statement that inserts a row.
use vstd::prelude::*;

use crate::error::{is_validation, DomainError};
use crate::names::{quote_ident_spec, quote_ident_vec};
use crate::numbers::nat_digits;
use crate::schema::{join, join_vecs};
use crate::seed::{ColumnSeedRule, RuleP, StringCharset, MAX_TEST_DATA_ROWS};
use crate::timestamps::{form_datetime_spec, parse_form_datetime};
use crate::text::{append_vec, chars_of, chars_of_string, string_of, vv};

verus! {

// ---------------------------------------------------------------------------
// Random draws
// ---------------------------------------------------------------------------

/// `rand::Rng::gen_range(0..n)` on the operating system's generator: some
/// index below `n`.
#[verifier::external_body]
fn random_index(n: usize) -> (r: usize)
    requires
        n > 0,
    ensures
        r < n,
{
    rand::Rng::gen_range(&mut rand::rngs::OsRng, 0..n)
}

/// `rand::Rng::gen_range(min..=max)` on the operating system's generator.
#[verifier::external_body]
fn random_i64_in(min: i64, max: i64) -> (r: i64)
    requires
        min <= max,
    ensures
        min <= r <= max,
{
    rand::Rng::gen_range(&mut rand::rngs::OsRng, min..=max)
}

/// `rand::Rng::gen_range(min..=max)` on the operating system's generator.
#[verifier::external_body]
fn random_u32_in(min: u32, max: u32) -> (r: u32)
    requires
        min <= max,
    ensures
        min <= r <= max,
{
    rand::Rng::gen_range(&mut rand::rngs::OsRng, min..=max)
}

/// `rand::Rng::gen_range(0..=255)` on the operating system's generator: any byte.
#[verifier::external_body]
fn random_byte() -> (r: u8) {
    rand::Rng::gen_range(&mut rand::rngs::OsRng, 0..=255u8)
}

/// `rand::Rng::gen_ratio(numerator, denominator)` on the operating system's
/// generator: `true` with that chance, never for 0 and always for 1.
#[verifier::external_body]
fn random_ratio(numerator: u32, denominator: u32) -> (r: bool)
    requires
        0 < denominator,
        numerator <= denominator,
    ensures
        numerator == 0 ==> !r,
        numerator == denominator ==> r,
{
    rand::Rng::gen_ratio(&mut rand::rngs::OsRng, numerator, denominator)
}

/// What chrono gives for `DateTime::from_timestamp(secs, 0)` formatted with
/// `%Y-%m-%dT%H:%M:%SZ`, or `None` where the instant cannot be represented.
pub uninterp spec fn utc_seconds_text(secs: i64) -> Option<Seq<char>>;

/// `chrono::DateTime::from_timestamp(secs, 0)`, formatted as
/// `%Y-%m-%dT%H:%M:%SZ`.
#[verifier::external_body]
fn utc_timestamp_text(secs: i64) -> (r: Option<String>)
    ensures
        crate::sql_view::opt_view(r) == utc_seconds_text(secs),
{
    chrono::DateTime::from_timestamp(secs, 0).map(|d| d.format("%Y-%m-%dT%H:%M:%SZ").to_string())
}

// ---------------------------------------------------------------------------
// Drawn values
// ---------------------------------------------------------------------------

pub open spec fn ascii_alnum() -> Seq<char> {
    "abcdefghijklmnopqrstuvwxyzABCDEFGHIJKLMNOPQRSTUVWXYZ0123456789"@
}

pub open spec fn ascii_printable() -> Seq<char> {
    " !\"#$%&'()*+,-./0123456789:;<=>?@ABCDEFGHIJKLMNOPQRSTUVWXYZ[\\]^_`abcdefghijklmnopqrstuvwxyz{|}~"@
}

pub open spec fn japanese_chars() -> Seq<char> {
    "あいうえおかきくけこさしすせそたちつてとなにぬねのはひふへほまみむめもやゆよらりるれろわをん"@
        + "アイウエオカキクケコサシスセソタチツテトナニヌネノハヒフヘホマミムメモヤユヨラリルレロワヲン"@
        + "日月火水木金土山川田人口手目耳足心文字本学校会社国都市町村春夏秋冬"@ + ascii_alnum()
}

/// The characters text of a charset is drawn from.
pub open spec fn charset_pool(charset: StringCharset) -> Seq<char> {
    match charset {
        StringCharset::AsciiAlnum => ascii_alnum(),
        StringCharset::AsciiPrintable => ascii_printable(),
        StringCharset::Japanese => japanese_chars(),
    }
}

fn charset_pool_vec(charset: StringCharset) -> (v: Vec<char>)
    ensures
        v@ == charset_pool(charset),
        v@.len() > 0,
{
    let alnum = "abcdefghijklmnopqrstuvwxyzABCDEFGHIJKLMNOPQRSTUVWXYZ0123456789";
    proof {
        reveal_strlit("abcdefghijklmnopqrstuvwxyzABCDEFGHIJKLMNOPQRSTUVWXYZ0123456789");
    }
    match charset {
        StringCharset::AsciiAlnum => chars_of(alnum),
        StringCharset::AsciiPrintable => {
            proof {
                reveal_strlit(
                    " !\"#$%&'()*+,-./0123456789:;<=>?@ABCDEFGHIJKLMNOPQRSTUVWXYZ[\\]^_`abcdefghijklmnopqrstuvwxyz{|}~",
                );
            }
            chars_of(
                " !\"#$%&'()*+,-./0123456789:;<=>?@ABCDEFGHIJKLMNOPQRSTUVWXYZ[\\]^_`abcdefghijklmnopqrstuvwxyz{|}~",
            )
        },
        StringCharset::Japanese => {
            let mut v = chars_of("あいうえおかきくけこさしすせそたちつてとなにぬねのはひふへほまみむめもやゆよらりるれろわをん");
            let k = chars_of("アイウエオカキクケコサシスセソタチツテトナニヌネノハヒフヘホマミムメモヤユヨラリルレロワヲン");
            append_vec(&mut v, &k);
            let j = chars_of("日月火水木金土山川田人口手目耳足心文字本学校会社国都市町村春夏秋冬");
            append_vec(&mut v, &j);
            let a = chars_of(alnum);
            append_vec(&mut v, &a);
            v
        },
    }
}

/// Random text of `len` characters drawn from the charset.
pub fn random_string(charset: StringCharset, len: u32) -> (s: String)
    ensures
        s@.len() == len,
        forall|i: int| 0 <= i < s@.len() ==> charset_pool(charset).contains(#[trigger] s@[i]),
{
    let pool = charset_pool_vec(charset);
    let mut out: Vec<char> = Vec::new();
    let mut i: u32 = 0;
    while i < len
        invariant
            i <= len,
            pool@ == charset_pool(charset),
            pool@.len() > 0,
            out@.len() == i,
            forall|k: int| 0 <= k < out@.len() ==> charset_pool(charset).contains(#[trigger] out@[k]),
        decreases len - i,
    {
        let k = random_index(pool.len());
        let c = pool[k];
        assert(pool@[k as int] == c);
        out.push(c);
        i += 1;
    }
    string_of(&out)
}

/// `len` random bytes.
pub fn random_bytes(len: usize) -> (b: Vec<u8>)
    ensures
        b@.len() == len,
{
    let mut out: Vec<u8> = Vec::new();
    let mut i: usize = 0;
    while i < len
        invariant
            i <= len,
            out@.len() == i,
        decreases len - i,
    {
        out.push(random_byte());
        i += 1;
    }
    out
}

/// Whether a rule lets a NULL be drawn.
pub open spec fn rule_include_null(rule: RuleP) -> bool {
    match rule {
        RuleP::Integer { include_null, .. } => include_null,
        RuleP::Real { include_null, .. } => include_null,
        RuleP::Text { include_null, .. } => include_null,
        RuleP::Blob { include_null, .. } => include_null,
        RuleP::Timestamp { include_null, .. } => include_null,
        RuleP::Boolean { include_null } => include_null,
    }
}

/// Whether a value is NULL, given the rule and whether the one-in-ten draw
/// came up: only where the rule allows NULL and the draw came up.
pub fn null_from_draw(rule: &ColumnSeedRule, drawn: bool) -> (b: bool)
    ensures
        b == (rule_include_null(rule@) && drawn),
{
    let include_null = match rule {
        ColumnSeedRule::Integer { include_null, .. } => *include_null,
        ColumnSeedRule::Real { include_null, .. } => *include_null,
        ColumnSeedRule::Text { include_null, .. } => *include_null,
        ColumnSeedRule::Blob { include_null, .. } => *include_null,
        ColumnSeedRule::Timestamp { include_null, .. } => *include_null,
        ColumnSeedRule::Boolean { include_null } => *include_null,
    };
    include_null && drawn
}

/// Whether this value is NULL: one time in ten where the rule allows NULL,
/// never otherwise. The draw is random, so only that a NULL needs a rule
/// that allows it holds of every outcome; [`null_from_draw`] gives the
/// answer for each outcome of the draw.
pub fn should_generate_null(rule: &ColumnSeedRule) -> (b: bool)
    ensures
        b ==> rule_include_null(rule@),
{
    let drawn = random_ratio(1, 10);
    null_from_draw(rule, drawn)
}

/// A random instant between `from` and `to` (seconds; `from` itself when
/// `to` is not later), as `%Y-%m-%dT%H:%M:%SZ`; `None` where chrono cannot
/// represent the instant drawn.
pub fn random_timestamp_between(from: i64, to: i64) -> (r: Option<String>)
    ensures
        exists|t: i64|
            from <= t && (t == from || t <= to) && #[trigger] utc_seconds_text(t) == crate::sql_view::opt_view(r),
{
    let t = if to > from {
        random_i64_in(from, to)
    } else {
        from
    };
    let r = utc_timestamp_text(t);
    assert(utc_seconds_text(t) == crate::sql_view::opt_view(r));
    r
}

/// A value drawn for a cell. A real is drawn between its two bounds (as
/// typed in the form) where the value is bound, as floating point.
#[derive(Debug, Clone)]
pub enum SeedCellValue {
    Null,
    Integer(i64),
    RealBetween(String, String),
    Text(String),
    Blob(Vec<u8>),
}

/// The ranges of a rule can be drawn from (the form checks them).
pub open spec fn rule_ranges_ok(rule: RuleP) -> bool {
    match rule {
        RuleP::Integer { min, max, .. } => min <= max,
        RuleP::Text { min_len, max_len, .. } => min_len <= max_len,
        RuleP::Blob { min_len, max_len, .. } => min_len <= max_len,
        _ => true,
    }
}

/// What holds of every value drawn for a rule: NULL only where the rule
/// allows it; an integer within its bounds; text and blobs of a length within
/// the bounds (text from the charset); a boolean as 0 or 1; a timestamp
/// between the two instants; the real's bounds handed on. A timestamp whose
/// bounds do not parse is the form's error.
pub open spec fn drawn_value_ok(rule: RuleP, v: SeedCellValue) -> bool {
    match v {
        SeedCellValue::Null => rule_include_null(rule),
        SeedCellValue::Integer(x) => match rule {
            RuleP::Integer { min, max, .. } => min <= x <= max,
            RuleP::Boolean { .. } => x == 0 || x == 1,
            _ => false,
        },
        SeedCellValue::RealBetween(a, b) => rule matches RuleP::Real { min, max, .. } && a@ == min && b@ == max,
        SeedCellValue::Text(s) => match rule {
            RuleP::Text { min_len, max_len, charset, .. } => min_len <= s@.len() <= max_len && forall|i: int|
                0 <= i < s@.len() ==> charset_pool(charset).contains(#[trigger] s@[i]),
            RuleP::Timestamp { from, to, .. } => form_datetime_spec(from, "開始日時"@) matches Ok(f)
                && form_datetime_spec(to, "終了日時"@) matches Ok(t) && exists|x: i64|
                f <= x && (x == f || x <= t) && #[trigger] utc_seconds_text(x) == Some(s@),
            _ => false,
        },
        SeedCellValue::Blob(b) => rule matches RuleP::Blob { min_len, max_len, .. } && min_len <= b@.len()
            <= max_len,
    }
}

/// A random value for a cell under its rule. A timestamp rule whose bounds
/// do not parse is refused with the form's error (unless NULL is drawn); an
/// instant chrono cannot represent is an internal error.
pub fn generate_cell_value(rule: &ColumnSeedRule) -> (r: Result<SeedCellValue, DomainError>)
    requires
        rule_ranges_ok(rule@),
    ensures
        r matches Ok(v) ==> drawn_value_ok(rule@, v),
        !(rule@ is Timestamp) ==> r is Ok,
        rule@ matches RuleP::Timestamp { from, to, .. } ==> (r is Err ==> match form_datetime_spec(
            from,
            "開始日時"@,
        ) {
            Err(m) => is_validation(r, m),
            Ok(_) => match form_datetime_spec(to, "終了日時"@) {
                Err(m) => is_validation(r, m),
                Ok(_) => r matches Err(DomainError::Internal(_)),
            },
        }),
{
    if should_generate_null(rule) {
        return Ok(SeedCellValue::Null);
    }
    match rule {
        ColumnSeedRule::Integer { min, max, .. } => Ok(SeedCellValue::Integer(random_i64_in(*min, *max))),
        ColumnSeedRule::Real { min, max, .. } => Ok(SeedCellValue::RealBetween(min.clone(), max.clone())),
        ColumnSeedRule::Text { min_len, max_len, charset, .. } => {
            let len = random_u32_in(*min_len, *max_len);
            Ok(SeedCellValue::Text(random_string(*charset, len)))
        },
        ColumnSeedRule::Blob { min_len, max_len, .. } => {
            let len = random_u32_in(*min_len, *max_len);
            Ok(SeedCellValue::Blob(random_bytes(len as usize)))
        },
        ColumnSeedRule::Timestamp { from, to, .. } => {
            let from_secs = parse_form_datetime(from.as_str(), "開始日時")?;
            let to_secs = parse_form_datetime(to.as_str(), "終了日時")?;
            match random_timestamp_between(from_secs, to_secs) {
                Some(s) => Ok(SeedCellValue::Text(s)),
                None => Err(DomainError::Internal(String::from_str("日時を表せません"))),
            }
        },
        ColumnSeedRule::Boolean { .. } => Ok(SeedCellValue::Integer(
            if random_ratio(1, 2) {
                1
            } else {
                0
            },
        )),
    }
}

// ---------------------------------------------------------------------------
// Inserting the rows
// ---------------------------------------------------------------------------

/// Refuses a row count outside `1..=MAX_TEST_DATA_ROWS`.
pub fn check_seed_count(count: u32) -> (r: Result<(), DomainError>)
    ensures
        1 <= count <= MAX_TEST_DATA_ROWS ==> r is Ok,
        !(1 <= count <= MAX_TEST_DATA_ROWS) ==> is_validation(
            r,
            "生成件数は 1〜"@ + nat_digits(MAX_TEST_DATA_ROWS as nat) + " で指定してください"@,
        ),
{
    if count == 0 || count > MAX_TEST_DATA_ROWS {
        let mut m = chars_of("生成件数は 1〜");
        let n = crate::numbers::u64_text(MAX_TEST_DATA_ROWS as u64);
        append_vec(&mut m, &chars_of_string(&n));
        let t = chars_of(" で指定してください");
        append_vec(&mut m, &t);
        return Err(DomainError::Validation(string_of(&m)));
    }
    Ok(())
}

/// `INSERT INTO "table" DEFAULT VALUES` when no column has a rule, else
/// `INSERT INTO "table" ("a", "b") VALUES (?, ?)`.
pub open spec fn seed_insert_sql_spec(table: Seq<char>, columns: Seq<Seq<char>>) -> Seq<char> {
    if columns.len() == 0 {
        "INSERT INTO "@ + quote_ident_spec(table) + " DEFAULT VALUES"@
    } else {
        "INSERT INTO "@ + quote_ident_spec(table) + " ("@ + join(
            Seq::new(columns.len(), |i: int| quote_ident_spec(columns[i])),
            ", "@,
        ) + ") VALUES ("@ + join(Seq::new(columns.len(), |i: int| "?"@), ", "@) + ")"@
    }
}

/// The statement that inserts one generated row.
pub fn seed_insert_sql(table_name: &str, columns: &[String]) -> (s: String)
    ensures
        s@ == seed_insert_sql_spec(table_name@, crate::prefs::strings_view(columns@)),
{
    let tv = chars_of(table_name);
    let mut r = chars_of("INSERT INTO ");
    append_vec(&mut r, &quote_ident_vec(&tv));
    if columns.len() == 0 {
        let d = chars_of(" DEFAULT VALUES");
        append_vec(&mut r, &d);
        return string_of(&r);
    }
    let ghost cv = crate::prefs::strings_view(columns@);
    let mut names: Vec<Vec<char>> = Vec::new();
    let mut marks: Vec<Vec<char>> = Vec::new();
    let mut i: usize = 0;
    while i < columns.len()
        invariant
            i <= columns.len(),
            cv == crate::prefs::strings_view(columns@),
            vv(names@) =~= Seq::new(i as nat, |k: int| quote_ident_spec(cv[k])),
            vv(marks@) =~= Seq::new(i as nat, |k: int| "?"@),
        decreases columns.len() - i,
    {
        let n = chars_of_string(&columns[i]);
        let q = quote_ident_vec(&n);
        let m = chars_of("?");
        let ghost on = vv(names@);
        let ghost om = vv(marks@);
        names.push(q);
        marks.push(m);
        assert(vv(names@) =~= on.push(q@));
        assert(vv(marks@) =~= om.push(m@));
        i += 1;
    }
    let sep = chars_of(", ");
    let op = chars_of(" (");
    append_vec(&mut r, &op);
    append_vec(&mut r, &join_vecs(&names, &sep));
    let mid = chars_of(") VALUES (");
    append_vec(&mut r, &mid);
    append_vec(&mut r, &join_vecs(&marks, &sep));
    let cp = chars_of(")");
    append_vec(&mut r, &cp);
    string_of(&r)
}

} // verus!
