//! Timestamps typed into the data view and the test-data form: which formats
//! are tried, in which order, and at which offset a time without one is read.
//! The parsing and formatting themselves are chrono's.
use vstd::prelude::*;

use chrono::TimeZone;

use crate::error::{is_validation, DomainError};
use crate::sql_view::opt_view;
use crate::text::{
    append_vec, chars_of, replace_char, replace_char_vec, string_of, sub_vec, trim, trim_vec,
};

verus! {

/// Output format of a stored timestamp.
pub open spec fn canonical_format() -> Seq<char> {
    "%Y-%m-%dT%H:%M:%S%:z"@
}

/// What chrono's `DateTime::parse_from_str(value, fmt_in)`, formatted with
/// `fmt_out`, gives (`None` when it does not parse).
pub uninterp spec fn offset_datetime_text(value: Seq<char>, fmt_in: Seq<char>, fmt_out: Seq<char>) -> Option<
    Seq<char>,
>;

/// Whether chrono's `NaiveDateTime::parse_from_str(value, fmt)` succeeds.
pub uninterp spec fn naive_parses(value: Seq<char>, fmt: Seq<char>) -> bool;

/// What chrono gives for `NaiveDateTime::parse_from_str(value, fmt_in)` read
/// at the fixed offset `offset_secs` east of UTC and formatted with `fmt_out`.
pub uninterp spec fn naive_text_at_offset(
    value: Seq<char>,
    fmt_in: Seq<char>,
    offset_secs: int,
    fmt_out: Seq<char>,
) -> Option<Seq<char>>;

/// Seconds since the epoch of chrono's `NaiveDateTime::parse_from_str(value, fmt)`,
/// taken as UTC.
pub uninterp spec fn naive_seconds(value: Seq<char>, fmt: Seq<char>) -> Option<i64>;

/// chrono's `DateTime::parse_from_str` followed by `format(..).to_string()`.
/// `to_string` panics where chrono reports a bad format specifier, so the
/// output format is the canonical one, which chrono formats.
#[verifier::external_body]
fn reformat_offset_datetime(value: &str, fmt_in: &str, fmt_out: &str) -> (r: Option<String>)
    requires
        fmt_out@ == canonical_format(),
    ensures
        opt_view(r) == offset_datetime_text(value@, fmt_in@, fmt_out@),
{
    match chrono::DateTime::parse_from_str(value, fmt_in) {
        Ok(d) => Some(d.format(fmt_out).to_string()),
        Err(_) => None,
    }
}

/// chrono's `NaiveDateTime::parse_from_str`, as success or failure.
#[verifier::external_body]
fn naive_datetime_parses(value: &str, fmt: &str) -> (r: bool)
    ensures
        r == naive_parses(value@, fmt@),
{
    chrono::NaiveDateTime::parse_from_str(value, fmt).is_ok()
}

/// chrono's `NaiveDateTime::parse_from_str`, `FixedOffset::east_opt`,
/// `from_local_datetime(..).single()` and `format(..).to_string()` in a row.
/// `None` comes from the parse, from an offset of a day or more (`east_opt`)
/// or from the local-time conversion. `to_string` panics where chrono reports
/// a bad format specifier, so the output format is the canonical one.
#[verifier::external_body]
fn naive_datetime_at_offset(value: &str, fmt_in: &str, offset_secs: i32, fmt_out: &str) -> (r: Option<String>)
    requires
        fmt_out@ == canonical_format(),
    ensures
        opt_view(r) == naive_text_at_offset(value@, fmt_in@, offset_secs as int, fmt_out@),
        r is Some ==> naive_parses(value@, fmt_in@),
{
    let naive = chrono::NaiveDateTime::parse_from_str(value, fmt_in).ok()?;
    let offset = chrono::FixedOffset::east_opt(offset_secs)?;
    let dt = offset.from_local_datetime(&naive).single()?;
    Some(dt.format(fmt_out).to_string())
}

/// chrono's `NaiveDateTime::parse_from_str` followed by `and_utc().timestamp()`.
#[verifier::external_body]
fn naive_datetime_seconds(value: &str, fmt: &str) -> (r: Option<i64>)
    ensures
        r == naive_seconds(value@, fmt@),
{
    match chrono::NaiveDateTime::parse_from_str(value, fmt) {
        Ok(n) => Some(n.and_utc().timestamp()),
        Err(_) => None,
    }
}

/// Formats with an explicit offset, tried in order.
pub open spec fn offset_format(k: int) -> Seq<char> {
    if k == 0 {
        "%Y-%m-%dT%H:%M:%S%:z"@
    } else if k == 1 {
        "%Y-%m-%dT%H:%M:%S%z"@
    } else if k == 2 {
        "%Y-%m-%dT%H:%M%:z"@
    } else {
        "%Y-%m-%dT%H:%M%z"@
    }
}

/// Formats without an offset, tried in order.
pub open spec fn naive_format(k: int) -> Seq<char> {
    if k == 0 {
        "%Y-%m-%dT%H:%M:%S"@
    } else {
        "%Y-%m-%dT%H:%M"@
    }
}

/// The first offset format from `k` on that parses `v`, reformatted.
pub open spec fn first_offset_text(v: Seq<char>, k: int) -> Option<Seq<char>>
    decreases 4 - k,
{
    if k < 0 || k >= 4 {
        None
    } else {
        match offset_datetime_text(v, offset_format(k), canonical_format()) {
            Some(s) => Some(s),
            None => first_offset_text(v, k + 1),
        }
    }
}

/// The first naive format that parses `v`.
pub open spec fn first_naive_format(v: Seq<char>) -> Option<int> {
    if naive_parses(v, naive_format(0)) {
        Some(0)
    } else if naive_parses(v, naive_format(1)) {
        Some(1)
    } else {
        None
    }
}

/// A time without offset, read at `offset_secs`: `None` when no naive format
/// parses it, else the formatted text or the error of a failed conversion.
pub open spec fn naive_result(v: Seq<char>, offset_secs: int, label: Seq<char>) -> Option<Result<Seq<char>, Seq<char>>> {
    match first_naive_format(v) {
        None => None,
        Some(k) => match naive_text_at_offset(v, naive_format(k), offset_secs, canonical_format()) {
            Some(s) => Some(Ok(s)),
            None => Some(Err(label + "の日時が不正です"@)),
        },
    }
}

/// The text without one trailing `Z` or `z`, when it has one.
pub open spec fn strip_zulu(v: Seq<char>) -> Option<Seq<char>> {
    if v.len() > 0 && (v.last() == 'Z' || v.last() == 'z') {
        Some(v.drop_last())
    } else {
        None
    }
}

/// A timestamp cell as stored: with its own offset, as UTC when it ends in
/// `Z`, else as Japan time (+09:00).
pub open spec fn canonical_timestamp_spec(value: Seq<char>, label: Seq<char>) -> Result<Seq<char>, Seq<char>> {
    let v = replace_char(trim(value), ' ', seq!['T']);
    if v.len() == 0 {
        Err(label + "を指定してください"@)
    } else {
        match first_offset_text(v, 0) {
            Some(s) => Ok(s),
            None => {
                let utc = match strip_zulu(v) {
                    Some(base) => naive_result(base, 0, label),
                    None => None,
                };
                match utc {
                    Some(r) => r,
                    None => match naive_result(v, 32400, label) {
                        Some(r) => r,
                        None => Err(label + "は YYYY-MM-DDTHH:MM:SS+HH:MM 形式で指定してください"@),
                    },
                }
            },
        }
    }
}

fn offset_format_str(k: usize) -> (s: &'static str)
    requires
        k < 4,
    ensures
        s@ == offset_format(k as int),
{
    if k == 0 {
        "%Y-%m-%dT%H:%M:%S%:z"
    } else if k == 1 {
        "%Y-%m-%dT%H:%M:%S%z"
    } else if k == 2 {
        "%Y-%m-%dT%H:%M%:z"
    } else {
        "%Y-%m-%dT%H:%M%z"
    }
}

fn naive_format_str(k: usize) -> (s: &'static str)
    requires
        k < 2,
    ensures
        s@ == naive_format(k as int),
{
    if k == 0 {
        "%Y-%m-%dT%H:%M:%S"
    } else {
        "%Y-%m-%dT%H:%M"
    }
}

fn naive_at(v: &str, offset_secs: i32, label: &Vec<char>) -> (r: Option<Result<String, String>>)
    requires
        -86400 < offset_secs < 86400,
    ensures
        match naive_result(v@, offset_secs as int, label@) {
            None => r is None,
            Some(Ok(s)) => r matches Some(Ok(x)) && x@ == s,
            Some(Err(m)) => r matches Some(Err(x)) && x@ == m,
        },
{
    let k: usize = if naive_datetime_parses(v, naive_format_str(0)) {
        0
    } else if naive_datetime_parses(v, naive_format_str(1)) {
        1
    } else {
        return None;
    };
    match naive_datetime_at_offset(v, naive_format_str(k), offset_secs, "%Y-%m-%dT%H:%M:%S%:z") {
        Some(s) => Some(Ok(s)),
        None => {
            let mut m: Vec<char> = Vec::new();
            append_vec(&mut m, label);
            let t = chars_of("の日時が不正です");
            append_vec(&mut m, &t);
            Some(Err(string_of(&m)))
        },
    }
}

/// Reads a timestamp cell and gives it in the stored form.
pub fn parse_and_canonicalize_cell_timestamp(value: &str, label: &str) -> (r: Result<String, DomainError>)
    ensures
        match canonical_timestamp_spec(value@, label@) {
            Ok(s) => r matches Ok(x) && x@ == s,
            Err(m) => is_validation(r, m),
        },
{
    let raw = chars_of(value);
    let t = trim_vec(&raw);
    let tee = vec!['T'];
    let vv = replace_char_vec(&t, ' ', &tee);
    assert(tee@ =~= seq!['T']);
    let lv = chars_of(label);
    if vv.len() == 0 {
        let mut m: Vec<char> = Vec::new();
        append_vec(&mut m, &lv);
        let tail = chars_of("を指定してください");
        append_vec(&mut m, &tail);
        return Err(DomainError::Validation(string_of(&m)));
    }
    let v = string_of(&vv);
    let mut k: usize = 0;
    while k < 4
        invariant
            k <= 4,
            v@ == vv@,
            vv@ == replace_char(trim(value@), ' ', seq!['T']),
            vv@.len() > 0,
            first_offset_text(v@, 0) == first_offset_text(v@, k as int),
        decreases 4 - k,
    {
        match reformat_offset_datetime(v.as_str(), offset_format_str(k), "%Y-%m-%dT%H:%M:%S%:z") {
            Some(s) => {
                return Ok(s);
            },
            None => {},
        }
        k += 1;
    }
    let n = vv.len();
    if vv[n - 1] == 'Z' || vv[n - 1] == 'z' {
        let base_v = sub_vec(&vv, 0, n - 1);
        assert(base_v@ =~= vv@.drop_last());
        let base = string_of(&base_v);
        match naive_at(base.as_str(), 0, &lv) {
            Some(Ok(s)) => return Ok(s),
            Some(Err(m)) => return Err(DomainError::Validation(m)),
            None => {},
        }
    }
    match naive_at(v.as_str(), 32400, &lv) {
        Some(Ok(s)) => Ok(s),
        Some(Err(m)) => Err(DomainError::Validation(m)),
        None => {
            let mut m: Vec<char> = Vec::new();
            append_vec(&mut m, &lv);
            let tail = chars_of("は YYYY-MM-DDTHH:MM:SS+HH:MM 形式で指定してください");
            append_vec(&mut m, &tail);
            Err(DomainError::Validation(string_of(&m)))
        },
    }
}

/// A form date-time: trimmed, a space read as `T`, one trailing `Z`/`z`
/// dropped, then read with the first format that fits; its seconds.
pub open spec fn form_datetime_spec(value: Seq<char>, label: Seq<char>) -> Result<i64, Seq<char>> {
    let n0 = replace_char(trim(value), ' ', seq!['T']);
    let n = match strip_zulu(n0) {
        Some(b) => b,
        None => n0,
    };
    match naive_seconds(n, "%Y-%m-%dT%H:%M"@) {
        Some(s) => Ok(s),
        None => match naive_seconds(n, "%Y-%m-%dT%H:%M:%S"@) {
            Some(s) => Ok(s),
            None => Err(label + "は YYYY-MM-DDTHH:MM 形式で指定してください"@),
        },
    }
}

/// Reads a date-time of the test-data form; its value is given as seconds,
/// which orders the values as the date-times do.
pub fn parse_form_datetime(value: &str, label: &str) -> (r: Result<i64, DomainError>)
    ensures
        match form_datetime_spec(value@, label@) {
            Ok(s) => r matches Ok(x) && x == s,
            Err(m) => is_validation(r, m),
        },
{
    let raw = chars_of(value);
    let t = trim_vec(&raw);
    let tee = vec!['T'];
    let n0 = replace_char_vec(&t, ' ', &tee);
    assert(tee@ =~= seq!['T']);
    let nv = if n0.len() > 0 && (n0[n0.len() - 1] == 'Z' || n0[n0.len() - 1] == 'z') {
        let b = sub_vec(&n0, 0, n0.len() - 1);
        assert(b@ =~= n0@.drop_last());
        b
    } else {
        n0
    };
    let n = string_of(&nv);
    match naive_datetime_seconds(n.as_str(), "%Y-%m-%dT%H:%M") {
        Some(s) => return Ok(s),
        None => {},
    }
    match naive_datetime_seconds(n.as_str(), "%Y-%m-%dT%H:%M:%S") {
        Some(s) => return Ok(s),
        None => {},
    }
    let mut m = chars_of(label);
    let tail = chars_of("は YYYY-MM-DDTHH:MM 形式で指定してください");
    append_vec(&mut m, &tail);
    Err(DomainError::Validation(string_of(&m)))
}

} // verus!
