//! Reading user column definitions back from a `CREATE TABLE` statement.
use vstd::prelude::*;

use crate::error::{is_validation, DomainError};
use crate::names::{column_name_error, is_id_name, is_id_name_exec, validate_column_name_vec};
use crate::schema::{cols_view, ColumnSpec, TableColumnInput};
use crate::text::{
    chars_of, chars_of_string, contains_exec, contains_seq, is_whitespace, is_ws, starts_with,
    starts_with_exec, string_of, sub_vec, trim, trim_start, trim_start_vec, trim_vec, upper_seq,
    upper_vec, vv,
};

verus! {

pub open spec fn table_parse_msg() -> Seq<char> {
    "テーブル定義の解析に失敗しました"@
}

pub open spec fn column_name_parse_msg() -> Seq<char> {
    "カラム名の解析に失敗しました"@
}

/// Index of the first `c` at or after `i`.
pub open spec fn first_index_from(s: Seq<char>, c: char, i: int) -> Option<int>
    decreases s.len() - i,
{
    if i < 0 || i >= s.len() {
        None
    } else if s[i] == c {
        Some(i)
    } else {
        first_index_from(s, c, i + 1)
    }
}

/// Index of the last `c` before position `j`.
pub open spec fn last_index_before(s: Seq<char>, c: char, j: int) -> Option<int>
    decreases j,
{
    if j <= 0 || j > s.len() {
        None
    } else if s[j - 1] == c {
        Some(j - 1)
    } else {
        last_index_before(s, c, j - 1)
    }
}

/// Text between the first `(` and the last `)`.
pub open spec fn create_body_spec(sql: Seq<char>) -> Result<Seq<char>, Seq<char>> {
    match first_index_from(sql, '(', 0) {
        None => Err(table_parse_msg()),
        Some(open) => match last_index_before(sql, ')', sql.len() as int) {
            None => Err(table_parse_msg()),
            Some(close) => if close <= open {
                Err(table_parse_msg())
            } else {
                Ok(sql.subrange(open + 1, close))
            },
        },
    }
}

/// Comma separated definitions at parenthesis depth 0, each trimmed; a
/// blank final piece is dropped.
pub open spec fn split_defs_from(s: Seq<char>, i: int, depth: nat, cur: Seq<char>) -> Seq<Seq<char>>
    decreases s.len() - i,
{
    if i < 0 || i >= s.len() {
        if trim(cur).len() > 0 {
            seq![trim(cur)]
        } else {
            seq![]
        }
    } else {
        let c = s[i];
        if c == '(' {
            split_defs_from(s, i + 1, depth + 1, cur.push(c))
        } else if c == ')' {
            split_defs_from(
                s,
                i + 1,
                if depth > 0 {
                    (depth - 1) as nat
                } else {
                    0
                },
                cur.push(c),
            )
        } else if c == ',' && depth == 0 {
            seq![trim(cur)] + split_defs_from(s, i + 1, 0, seq![])
        } else {
            split_defs_from(s, i + 1, depth, cur.push(c))
        }
    }
}

/// A quoted identifier starting at `i` (after the opening quote): the name
/// with doubled quotes collapsed, and the text after the closing quote.
pub open spec fn quoted_from(d: Seq<char>, i: int, acc: Seq<char>) -> Result<(Seq<char>, Seq<char>), Seq<char>>
    decreases d.len() - i,
{
    if i < 0 || i >= d.len() {
        Err(column_name_parse_msg())
    } else if d[i] == '"' {
        if i + 1 < d.len() && d[i + 1] == '"' {
            quoted_from(d, i + 2, acc.push('"'))
        } else {
            Ok((acc, trim_start(d.subrange(i + 1, d.len() as int))))
        }
    } else {
        quoted_from(d, i + 1, acc.push(d[i]))
    }
}

/// A double-quoted identifier at the start of `d` (`""` stands for one quote)
/// and the rest after it, trimmed at the start.
pub open spec fn quoted_identifier_spec(d: Seq<char>) -> Result<(Seq<char>, Seq<char>), Seq<char>> {
    if d.len() == 0 || d[0] != '"' {
        Err("クォートされた識別子の解析に失敗しました"@)
    } else {
        quoted_from(d, 1, seq![])
    }
}

/// Index of the first whitespace character at or after `i`.
pub open spec fn first_ws_from(s: Seq<char>, i: int) -> Option<int>
    decreases s.len() - i,
{
    if i < 0 || i >= s.len() {
        None
    } else if is_ws(s[i]) {
        Some(i)
    } else {
        first_ws_from(s, i + 1)
    }
}

/// Column name and the rest of a column definition.
pub open spec fn name_and_rest_spec(def: Seq<char>) -> Result<(Seq<char>, Seq<char>), Seq<char>> {
    let d = trim(def);
    if d.len() == 0 {
        Err("空のカラム定義は解析できません"@)
    } else if d[0] == '"' {
        quoted_identifier_spec(d)
    } else {
        match first_ws_from(d, 0) {
            None => Err(column_name_parse_msg()),
            Some(k) => Ok((d.subrange(0, k), trim(d.subrange(k, d.len() as int)))),
        }
    }
}

/// Column type key detected in the upper-cased rest of a definition.
pub open spec fn detect_type(upper: Seq<char>) -> Option<Seq<char>> {
    if contains_seq(upper, " INTEGER"@) || starts_with(upper, "INTEGER"@) {
        Some("integer"@)
    } else if contains_seq(upper, " REAL"@) || starts_with(upper, "REAL"@) {
        Some("real"@)
    } else if contains_seq(upper, " TEXT"@) || starts_with(upper, "TEXT"@) {
        Some("text"@)
    } else if contains_seq(upper, " BLOB"@) || starts_with(upper, "BLOB"@) {
        Some("blob"@)
    } else if contains_seq(upper, " TIMESTAMP"@) || starts_with(upper, "TIMESTAMP"@) {
        Some("timestamp"@)
    } else if contains_seq(upper, " BOOLEAN"@) || starts_with(upper, "BOOLEAN"@) {
        Some("boolean"@)
    } else {
        None
    }
}

/// One column definition read back into a column.
pub open spec fn column_def_parse_spec(def: Seq<char>) -> Result<ColumnSpec, Seq<char>> {
    match name_and_rest_spec(def) {
        Err(m) => Err(m),
        Ok((name, rest)) => if is_id_name(name) {
            Err("主キー列 id は編集対象に含められません"@)
        } else {
            let upper = upper_seq(rest);
            match detect_type(upper) {
                None => Err("カラム `"@ + name + "` の型を判別できません"@),
                Some(t) => match column_name_error(trim(name)) {
                    Some(m) => Err(m),
                    None => Ok(
                        ColumnSpec {
                            name: trim(name),
                            type_key: t,
                            nullable: !contains_seq(upper, "NOT NULL"@),
                            orig_name: None,
                        },
                    ),
                },
            }
        },
    }
}

/// The characters of `s` that are not whitespace.
pub open spec fn strip_ws(s: Seq<char>) -> Seq<char>
    decreases s.len(),
{
    if s.len() == 0 {
        seq![]
    } else {
        strip_ws(s.drop_last()) + (if is_ws(s.last()) {
            seq![]
        } else {
            seq![s.last()]
        })
    }
}

/// The `id INTEGER PRIMARY KEY` definition that every user table starts with.
pub open spec fn is_id_pk_def(part: Seq<char>) -> bool {
    starts_with(upper_seq(strip_ws(part)), "IDINTEGERPRIMARYKEY"@)
}

/// Columns read from definition pieces `parts[i..]`, or the first error.
pub open spec fn columns_from_parts(parts: Seq<Seq<char>>, i: int) -> Result<Seq<ColumnSpec>, Seq<char>>
    decreases parts.len() - i,
{
    if i < 0 || i >= parts.len() {
        Ok(seq![])
    } else {
        let p = trim(parts[i]);
        if p.len() == 0 || is_id_pk_def(p) {
            columns_from_parts(parts, i + 1)
        } else {
            match column_def_parse_spec(p) {
                Err(m) => Err(m),
                Ok(c) => match columns_from_parts(parts, i + 1) {
                    Err(m) => Err(m),
                    Ok(rest) => Ok(seq![c] + rest),
                },
            }
        }
    }
}

/// The user columns of a `CREATE TABLE` statement.
pub open spec fn user_columns_spec(sql: Seq<char>) -> Result<Seq<ColumnSpec>, Seq<char>> {
    match create_body_spec(sql) {
        Err(m) => Err(m),
        Ok(body) => columns_from_parts(split_defs_from(body, 0, 0, seq![]), 0),
    }
}

fn first_index_exec(s: &Vec<char>, c: char) -> (r: Option<usize>)
    ensures
        match first_index_from(s@, c, 0) {
            None => r is None,
            Some(k) => r matches Some(x) && x as int == k,
        },
        r matches Some(x) ==> x < s@.len(),
{
    let mut i: usize = 0;
    while i < s.len()
        invariant
            i <= s.len(),
            first_index_from(s@, c, 0) == first_index_from(s@, c, i as int),
        decreases s.len() - i,
    {
        if s[i] == c {
            return Some(i);
        }
        i += 1;
    }
    None
}

fn last_index_exec(s: &Vec<char>, c: char) -> (r: Option<usize>)
    ensures
        match last_index_before(s@, c, s@.len() as int) {
            None => r is None,
            Some(k) => r matches Some(x) && x as int == k,
        },
        r matches Some(x) ==> x < s@.len(),
{
    let mut j: usize = s.len();
    while j > 0
        invariant
            j <= s.len(),
            last_index_before(s@, c, s@.len() as int) == last_index_before(s@, c, j as int),
        decreases j,
    {
        if s[j - 1] == c {
            return Some(j - 1);
        }
        j -= 1;
    }
    None
}

pub fn extract_create_table_body(sql: &Vec<char>) -> (r: Result<Vec<char>, DomainError>)
    ensures
        match create_body_spec(sql@) {
            Ok(b) => r matches Ok(v) && v@ == b,
            Err(m) => is_validation(r, m),
        },
{
    let open = match first_index_exec(sql, '(') {
        None => return Err(DomainError::Validation(String::from_str("テーブル定義の解析に失敗しました"))),
        Some(k) => k,
    };
    let close = match last_index_exec(sql, ')') {
        None => return Err(DomainError::Validation(String::from_str("テーブル定義の解析に失敗しました"))),
        Some(k) => k,
    };
    if close <= open {
        return Err(DomainError::Validation(String::from_str("テーブル定義の解析に失敗しました")));
    }
    Ok(sub_vec(sql, open + 1, close))
}

pub fn split_column_definitions(body: &Vec<char>) -> (parts: Vec<Vec<char>>)
    ensures
        vv(parts@) == split_defs_from(body@, 0, 0, seq![]),
{
    let mut parts: Vec<Vec<char>> = Vec::new();
    let mut cur: Vec<char> = Vec::new();
    let mut depth: usize = 0;
    let mut i: usize = 0;
    while i < body.len()
        invariant
            i <= body.len(),
            depth <= i,
            vv(parts@) + split_defs_from(body@, i as int, depth as nat, cur@) == split_defs_from(
                body@,
                0,
                0,
                seq![],
            ),
        decreases body.len() - i,
    {
        let c = body[i];
        if c == '(' {
            depth += 1;
            cur.push(c);
        } else if c == ')' {
            if depth > 0 {
                depth -= 1;
            }
            cur.push(c);
        } else if c == ',' && depth == 0 {
            let t = trim_vec(&cur);
            let ghost old = vv(parts@);
            parts.push(t);
            assert(vv(parts@) =~= old.push(t@));
            assert(vv(parts@) + split_defs_from(body@, i + 1, 0, seq![]) =~= old + (seq![t@]
                + split_defs_from(body@, i + 1, 0, seq![])));
            cur = Vec::new();
        } else {
            cur.push(c);
        }
        i += 1;
    }
    let t = trim_vec(&cur);
    if t.len() > 0 {
        let ghost old = vv(parts@);
        parts.push(t);
        assert(vv(parts@) =~= old + seq![t@]);
    } else {
        assert(vv(parts@) + seq![] =~= vv(parts@));
    }
    parts
}

fn parse_quoted_sql_identifier(d: &Vec<char>) -> (r: Result<(Vec<char>, Vec<char>), DomainError>)
    ensures
        match quoted_identifier_spec(d@) {
            Ok((n, rest)) => r matches Ok((a, b)) && a@ == n && b@ == rest,
            Err(m) => is_validation(r, m),
        },
{
    if d.len() == 0 || d[0] != '"' {
        return Err(DomainError::Validation(String::from_str("クォートされた識別子の解析に失敗しました")));
    }
    let mut name: Vec<char> = Vec::new();
    let mut i: usize = 1;
    while i < d.len()
        invariant
            1 <= i,
            d@.len() > 0 && d@[0] == '"',
            quoted_from(d@, 1, seq![]) == quoted_from(d@, i as int, name@),
        decreases d.len() - i,
    {
        if d[i] == '"' {
            if i + 1 < d.len() && d[i + 1] == '"' {
                name.push('"');
                i += 2;
                continue;
            }
            let after = sub_vec(d, i + 1, d.len());
            let rest = trim_start_vec(&after);
            return Ok((name, rest));
        }
        name.push(d[i]);
        i += 1;
    }
    Err(DomainError::Validation(String::from_str("カラム名の解析に失敗しました")))
}

fn first_ws_exec(s: &Vec<char>) -> (r: Option<usize>)
    ensures
        match first_ws_from(s@, 0) {
            None => r is None,
            Some(k) => r matches Some(x) && x as int == k,
        },
        r matches Some(x) ==> x < s@.len(),
{
    let mut i: usize = 0;
    while i < s.len()
        invariant
            i <= s.len(),
            first_ws_from(s@, 0) == first_ws_from(s@, i as int),
        decreases s.len() - i,
    {
        if is_whitespace(s[i]) {
            return Some(i);
        }
        i += 1;
    }
    None
}

fn parse_column_name_and_rest(def: &Vec<char>) -> (r: Result<(Vec<char>, Vec<char>), DomainError>)
    ensures
        match name_and_rest_spec(def@) {
            Ok((n, rest)) => r matches Ok((a, b)) && a@ == n && b@ == rest,
            Err(m) => is_validation(r, m),
        },
{
    let d = trim_vec(def);
    if d.len() == 0 {
        return Err(DomainError::Validation(String::from_str("空のカラム定義は解析できません")));
    }
    if d[0] == '"' {
        return parse_quoted_sql_identifier(&d);
    }
    match first_ws_exec(&d) {
        None => Err(DomainError::Validation(String::from_str("カラム名の解析に失敗しました"))),
        Some(k) => {
            let name = sub_vec(&d, 0, k);
            let after = sub_vec(&d, k, d.len());
            Ok((name, trim_vec(&after)))
        },
    }
}

fn contains_str(v: &Vec<char>, s: &str) -> (r: bool)
    ensures
        r == contains_seq(v@, s@),
{
    let n = chars_of(s);
    contains_exec(v, &n)
}

fn starts_str(v: &Vec<char>, s: &str) -> (r: bool)
    ensures
        r == starts_with(v@, s@),
{
    let n = chars_of(s);
    starts_with_exec(v, &n)
}

fn detect_type_exec(upper: &Vec<char>) -> (r: Option<String>)
    ensures
        match detect_type(upper@) {
            None => r is None,
            Some(t) => r matches Some(s) && s@ == t,
        },
{
    if contains_str(upper, " INTEGER") || starts_str(upper, "INTEGER") {
        Some(String::from_str("integer"))
    } else if contains_str(upper, " REAL") || starts_str(upper, "REAL") {
        Some(String::from_str("real"))
    } else if contains_str(upper, " TEXT") || starts_str(upper, "TEXT") {
        Some(String::from_str("text"))
    } else if contains_str(upper, " BLOB") || starts_str(upper, "BLOB") {
        Some(String::from_str("blob"))
    } else if contains_str(upper, " TIMESTAMP") || starts_str(upper, "TIMESTAMP") {
        Some(String::from_str("timestamp"))
    } else if contains_str(upper, " BOOLEAN") || starts_str(upper, "BOOLEAN") {
        Some(String::from_str("boolean"))
    } else {
        None
    }
}

fn parse_column_definition(def: &Vec<char>) -> (r: Result<TableColumnInput, DomainError>)
    ensures
        match column_def_parse_spec(def@) {
            Ok(c) => r matches Ok(col) && col@ == c,
            Err(m) => is_validation(r, m),
        },
{
    let (name, rest) = parse_column_name_and_rest(def)?;
    if is_id_name_exec(&name) {
        return Err(DomainError::Validation(String::from_str("主キー列 id は編集対象に含められません")));
    }
    let upper = upper_vec(&rest);
    let nullable = !contains_str(&upper, "NOT NULL");
    let type_key = match detect_type_exec(&upper) {
        None => {
            let mut m = String::from_str("カラム `");
            let ns = string_of(&name);
            m.append(ns.as_str());
            m.append("` の型を判別できません");
            return Err(DomainError::Validation(m));
        },
        Some(t) => t,
    };
    let valid = validate_column_name_vec(&name)?;
    Ok(TableColumnInput { name: valid, type_key, nullable, orig_name: None })
}

fn strip_ws_exec(s: &Vec<char>) -> (r: Vec<char>)
    ensures
        r@ == strip_ws(s@),
{
    let mut r: Vec<char> = Vec::new();
    let mut i: usize = 0;
    while i < s.len()
        invariant
            i <= s.len(),
            r@ == strip_ws(s@.take(i as int)),
        decreases s.len() - i,
    {
        assert(s@.take(i + 1).drop_last() == s@.take(i as int));
        if !is_whitespace(s[i]) {
            r.push(s[i]);
        }
        i += 1;
    }
    assert(s@.take(s@.len() as int) == s@);
    r
}

fn is_id_pk_def_exec(part: &Vec<char>) -> (b: bool)
    ensures
        b == is_id_pk_def(part@),
{
    let compact = strip_ws_exec(part);
    let up = upper_vec(&compact);
    starts_str(&up, "IDINTEGERPRIMARYKEY")
}

/// The user columns of a `CREATE TABLE` statement (the `id` primary key is skipped).
pub fn parse_user_columns_from_create_sql(sql: &str) -> (r: Result<Vec<TableColumnInput>, DomainError>)
    ensures
        match user_columns_spec(sql@) {
            Ok(cols) => r matches Ok(v) && cols_view(v@) == cols,
            Err(m) => is_validation(r, m),
        },
{
    let sv = chars_of(sql);
    let body = match extract_create_table_body(&sv) {
        Ok(b) => b,
        Err(e) => {
            return Err(e);
        },
    };
    assert(create_body_spec(sql@) == Ok::<Seq<char>, Seq<char>>(body@));
    let parts = split_column_definitions(&body);
    let ghost ps = vv(parts@);
    assert(user_columns_spec(sql@) == columns_from_parts(ps, 0));
    let mut columns: Vec<TableColumnInput> = Vec::new();
    let mut i: usize = 0;
    while i < parts.len()
        invariant
            i <= parts.len(),
            ps == vv(parts@),
            user_columns_spec(sql@) == columns_from_parts(ps, 0),
            columns_from_parts(ps, 0) == match columns_from_parts(ps, i as int) {
                Ok(rest) => Ok(cols_view(columns@) + rest),
                Err(m) => Err(m),
            },
        decreases parts.len() - i,
    {
        let p = trim_vec(&parts[i]);
        assert(ps[i as int] == parts@[i as int]@);
        if p.len() == 0 || is_id_pk_def_exec(&p) {
            i += 1;
            continue;
        }
        let ghost pv = trim(ps[i as int]);
        assert(p@ == pv);
        assert(!(pv.len() == 0 || is_id_pk_def(pv)));
        let c = match parse_column_definition(&p) {
            Ok(c) => c,
            Err(e) => {
                assert(columns_from_parts(ps, i as int) == Err::<Seq<ColumnSpec>, Seq<char>>(
                    column_def_parse_spec(pv)->Err_0,
                ));
                return Err(e);
            },
        };
        let ghost old = cols_view(columns@);
        columns.push(c);
        proof {
            assert(cols_view(columns@) =~= old.push(c@));
            match columns_from_parts(ps, i + 1) {
                Ok(rest) => {
                    assert(cols_view(columns@) + rest =~= old + (seq![c@] + rest));
                },
                Err(m) => {},
            }
        }
        i += 1;
    }
    assert(cols_view(columns@) + seq![] =~= cols_view(columns@));
    Ok(columns)
}

} // verus!
