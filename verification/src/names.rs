//! Classification of database object names and validation of user supplied
//! table, view and column names.
use vstd::prelude::*;

use crate::error::{is_system_table_err, is_validation, DomainError};
use crate::text::{
    append_vec, chars_of, chars_of_string, contains_char, eq_ignore_case, is_control, is_ctrl,
    lower_spec, replace_char, replace_char_vec, seq_eq, starts_with, starts_with_exec, string_of,
    sub_vec, to_lower, trim, trim_vec,
};

verus! {

/// Maximum number of characters in a user supplied SQL identifier.
pub const MAX_SQL_IDENTIFIER_LEN: usize = 120;

// ---------------------------------------------------------------------------
// Specifications
// ---------------------------------------------------------------------------

/// Infrastructure tables hidden from the admin listing.
pub open spec fn is_hidden_admin_spec(n: Seq<char>) -> bool {
    n == "_sqlx_migrations"@
}

/// Infrastructure tables: the hidden ones and SQLite's own `sqlite_*` tables.
pub open spec fn is_infra_spec(n: Seq<char>) -> bool {
    is_hidden_admin_spec(n) || starts_with(n, "sqlite_"@)
}

/// The CMS core tables defined by the migrations.
pub open spec fn is_cms_core_spec(n: Seq<char>) -> bool {
    ||| n == "widget_types"@
    ||| n == "placeholders"@
    ||| n == "posts"@
    ||| n == "postmeta"@
    ||| n == "options"@
    ||| n == "layouts"@
    ||| n == "pages"@
    ||| n == "users"@
    ||| n == "user_table_meta"@
}

pub open spec fn is_system_spec(n: Seq<char>) -> bool {
    is_infra_spec(n) || is_cms_core_spec(n)
}

pub open spec fn is_editable_spec(n: Seq<char>) -> bool {
    !is_infra_spec(n) && !is_cms_core_spec(n)
}

pub open spec fn is_viewable_spec(n: Seq<char>) -> bool {
    !is_infra_spec(n)
}

pub open spec fn infra_denied_msg(n: Seq<char>) -> Seq<char> {
    "`"@ + n + "` はインフラ用のシステムテーブルです。編集・データ閲覧はできません。"@
}

pub open spec fn cms_denied_msg(n: Seq<char>) -> Seq<char> {
    "`"@ + n + "` はCMSのシステムテーブルです。列編集・テストデータ生成はできません。"@
}

/// `c` may not appear in an identifier.
pub open spec fn is_forbidden_ident_char(c: char) -> bool {
    is_ctrl(c) || c == '"' || c == ';'
}

/// The message with which an identifier is rejected, if it is.
pub open spec fn ident_error(n: Seq<char>, label: Seq<char>) -> Option<Seq<char>> {
    if n.len() == 0 {
        Some(label + "は必須です"@)
    } else if n.len() > MAX_SQL_IDENTIFIER_LEN {
        Some(label + "は 120 文字以内で指定してください"@)
    } else if exists|i: int| 0 <= i < n.len() && is_forbidden_ident_char(#[trigger] n[i]) {
        Some(label + "に使用できない文字が含まれています"@)
    } else {
        None
    }
}

/// The message with which a (trimmed) table or view name is rejected, if it is.
pub open spec fn table_name_error(n: Seq<char>) -> Option<Seq<char>> {
    if ident_error(n, "名前"@) is Some {
        ident_error(n, "名前"@)
    } else if n.contains('/') || n.contains('\\') {
        Some("名前に / または \\ は使用できません"@)
    } else if starts_with(n, "sqlite_"@) || is_system_spec(n) {
        Some("この名前はシステム用に予約されています"@)
    } else {
        None
    }
}

/// `n` equals "id" ignoring ASCII case.
pub open spec fn is_id_name(n: Seq<char>) -> bool {
    eq_ignore_case(n, "id"@)
}

/// The message with which a (trimmed) column name is rejected, if it is.
pub open spec fn column_name_error(n: Seq<char>) -> Option<Seq<char>> {
    if ident_error(n, "カラム名"@) is Some {
        ident_error(n, "カラム名"@)
    } else if is_id_name(n) {
        Some("カラム名 `id` は自動追加されるため使用できません"@)
    } else {
        None
    }
}

/// Result of validating a name whose checks are described by `err` on the trimmed text.
pub open spec fn validated_as(r: Result<String, DomainError>, trimmed: Seq<char>, err: Option<Seq<char>>) -> bool {
    match err {
        None => r matches Ok(s) && s@ == trimmed,
        Some(m) => is_validation(r, m),
    }
}

/// `"…"`-quoted SQL identifier with embedded quotes doubled.
pub open spec fn quote_ident_spec(n: Seq<char>) -> Seq<char> {
    seq!['"'] + replace_char(n, '"', seq!['"', '"']) + seq!['"']
}

/// A usable table name after trimming: not empty, valid characters, no path
/// separators (the rule applied when a name comes from a URL).
pub open spec fn table_input_ok(n: Seq<char>) -> bool {
    n.len() > 0 && ident_error(n, "テーブル名"@) is None && !n.contains('/') && !n.contains('\\')
}

// ---------------------------------------------------------------------------
// Executable functions
// ---------------------------------------------------------------------------

pub fn str_eq(a: &str, b: &str) -> (r: bool)
    ensures
        r == (a@ == b@),
{
    let va = chars_of(a);
    let vb = chars_of(b);
    seq_eq(&va, &vb)
}

pub fn vec_eq_str(a: &Vec<char>, b: &str) -> (r: bool)
    ensures
        r == (a@ == b@),
{
    let vb = chars_of(b);
    seq_eq(a, &vb)
}

fn vec_starts_with_str(a: &Vec<char>, b: &str) -> (r: bool)
    ensures
        r == starts_with(a@, b@),
{
    let vb = chars_of(b);
    starts_with_exec(a, &vb)
}

/// Infrastructure table hidden from the admin listing.
pub fn is_hidden_admin_table(name: &str) -> (b: bool)
    ensures
        b == is_hidden_admin_spec(name@),
{
    str_eq(name, "_sqlx_migrations")
}

pub fn is_infra_table_vec(name: &Vec<char>) -> (b: bool)
    ensures
        b == is_infra_spec(name@),
{
    vec_eq_str(name, "_sqlx_migrations") || vec_starts_with_str(name, "sqlite_")
}

/// Infrastructure table (`_sqlx_migrations` or `sqlite_*`).
pub fn is_infra_table(name: &str) -> (b: bool)
    ensures
        b == is_infra_spec(name@),
{
    let v = chars_of(name);
    is_infra_table_vec(&v)
}

pub fn is_cms_core_table_vec(name: &Vec<char>) -> (b: bool)
    ensures
        b == is_cms_core_spec(name@),
{
    vec_eq_str(name, "widget_types") || vec_eq_str(name, "placeholders") || vec_eq_str(
        name,
        "posts",
    ) || vec_eq_str(name, "postmeta") || vec_eq_str(name, "options") || vec_eq_str(name, "layouts")
        || vec_eq_str(name, "pages") || vec_eq_str(name, "users") || vec_eq_str(
        name,
        "user_table_meta",
    )
}

/// CMS core table (one of the tables the migrations define, `users` included).
pub fn is_cms_core_table(name: &str) -> (b: bool)
    ensures
        b == is_cms_core_spec(name@),
{
    let v = chars_of(name);
    is_cms_core_table_vec(&v)
}

/// CMS core table whose data the admin may only read.
pub fn is_cms_readonly_table(name: &str) -> (b: bool)
    ensures
        b == is_cms_core_spec(name@),
{
    is_cms_core_table(name)
}

/// Columns may be edited and test data generated: user defined tables only.
pub fn is_db_admin_editable(name: &str) -> (b: bool)
    ensures
        b == is_editable_spec(name@),
{
    !is_infra_table(name) && !is_cms_core_table(name)
}

/// The data of the table may be viewed in the admin.
pub fn is_db_admin_data_viewable(name: &str) -> (b: bool)
    ensures
        b == is_viewable_spec(name@),
{
    !is_infra_table(name)
}

/// System object (listing badge, reserved names).
pub fn is_system_table(name: &str) -> (b: bool)
    ensures
        b == is_system_spec(name@),
{
    is_infra_table(name) || is_cms_core_table(name)
}

pub fn is_system_table_vec(name: &Vec<char>) -> (b: bool)
    ensures
        b == is_system_spec(name@),
{
    is_infra_table_vec(name) || is_cms_core_table_vec(name)
}

pub fn infra_denied_message_vec(name: &Vec<char>) -> (s: String)
    ensures
        s@ == infra_denied_msg(name@),
{
    let mut s = String::from_str("`");
    let n = string_of(name);
    s.append(n.as_str());
    s.append("` はインフラ用のシステムテーブルです。編集・データ閲覧はできません。");
    s
}

/// Message refusing any access to an infrastructure table.
pub fn infra_table_denied_message(name: &str) -> (s: String)
    ensures
        s@ == infra_denied_msg(name@),
{
    let v = chars_of(name);
    infra_denied_message_vec(&v)
}

pub fn cms_denied_message_vec(name: &Vec<char>) -> (s: String)
    ensures
        s@ == cms_denied_msg(name@),
{
    let mut s = String::from_str("`");
    let n = string_of(name);
    s.append(n.as_str());
    s.append("` はCMSのシステムテーブルです。列編集・テストデータ生成はできません。");
    s
}

/// Message refusing column edits and test data for a CMS core table.
pub fn cms_table_edit_denied_message(name: &str) -> (s: String)
    ensures
        s@ == cms_denied_msg(name@),
{
    let v = chars_of(name);
    cms_denied_message_vec(&v)
}

/// Message refusing edits of a system table, by its kind.
pub fn system_table_denied_message(name: &str) -> (s: String)
    ensures
        is_infra_spec(name@) ==> s@ == infra_denied_msg(name@),
        !is_infra_spec(name@) ==> s@ == cms_denied_msg(name@),
{
    if is_infra_table(name) {
        infra_table_denied_message(name)
    } else {
        cms_table_edit_denied_message(name)
    }
}

/// Shortens `sql` to `max_len` characters followed by `…`.
pub fn truncate_sql(sql: &str, max_len: usize) -> (s: String)
    ensures
        sql@.len() <= max_len ==> s@ == sql@,
        sql@.len() > max_len ==> s@ == sql@.subrange(0, max_len as int).push('…'),
{
    let v = chars_of(sql);
    if v.len() <= max_len {
        string_of(&v)
    } else {
        let mut t = sub_vec(&v, 0, max_len);
        t.push('…');
        string_of(&t)
    }
}

pub fn quote_ident_vec(name: &Vec<char>) -> (r: Vec<char>)
    ensures
        r@ == quote_ident_spec(name@),
{
    let mut r: Vec<char> = Vec::new();
    r.push('"');
    let dq = vec!['"', '"'];
    let body = replace_char_vec(name, '"', &dq);
    append_vec(&mut r, &body);
    r.push('"');
    assert(r@ == quote_ident_spec(name@));
    r
}

/// Wraps an SQLite identifier in double quotes, doubling the quotes inside.
pub fn quote_sql_identifier(name: &str) -> (s: String)
    ensures
        s@ == quote_ident_spec(name@),
{
    let v = chars_of(name);
    let r = quote_ident_vec(&v);
    string_of(&r)
}

pub fn validate_identifier_chars(name: &Vec<char>, label: &str) -> (r: Result<(), DomainError>)
    ensures
        match ident_error(name@, label@) {
            None => r is Ok,
            Some(m) => is_validation(r, m),
        },
{
    if name.len() == 0 {
        let mut m = String::from_str(label);
        m.append("は必須です");
        return Err(DomainError::Validation(m));
    }
    if name.len() > MAX_SQL_IDENTIFIER_LEN {
        let mut m = String::from_str(label);
        m.append("は 120 文字以内で指定してください");
        return Err(DomainError::Validation(m));
    }
    let mut i: usize = 0;
    while i < name.len()
        invariant
            i <= name.len(),
            0 < name.len() <= MAX_SQL_IDENTIFIER_LEN,
            forall|k: int| 0 <= k < i ==> !is_forbidden_ident_char(#[trigger] name@[k]),
        decreases name.len() - i,
    {
        let c = name[i];
        if is_control(c) || c == '"' || c == ';' {
            assert(is_forbidden_ident_char(name@[i as int]));
            assert(exists|j: int| 0 <= j < name@.len() && is_forbidden_ident_char(#[trigger] name@[j]));
            let mut m = String::from_str(label);
            m.append("に使用できない文字が含まれています");
            return Err(DomainError::Validation(m));
        }
        i += 1;
    }
    Ok(())
}

pub fn validate_table_name_vec(name: &Vec<char>) -> (r: Result<String, DomainError>)
    ensures
        validated_as(r, trim(name@), table_name_error(trim(name@))),
{
    let n = trim_vec(name);
    match validate_identifier_chars(&n, "名前") {
        Err(e) => return Err(e),
        Ok(()) => {},
    }
    if contains_char(&n, '/') || contains_char(&n, '\\') {
        return Err(DomainError::Validation(String::from_str("名前に / または \\ は使用できません")));
    }
    if vec_starts_with_str(&n, "sqlite_") || is_system_table_vec(&n) {
        return Err(DomainError::Validation(String::from_str("この名前はシステム用に予約されています")));
    }
    Ok(string_of(&n))
}

/// Validates the name of a user table or view; returns the trimmed name.
pub fn validate_table_name(name: &str) -> (r: Result<String, DomainError>)
    ensures
        validated_as(r, trim(name@), table_name_error(trim(name@))),
{
    let v = chars_of(name);
    validate_table_name_vec(&v)
}

pub fn is_id_name_exec(n: &Vec<char>) -> (b: bool)
    ensures
        b == is_id_name(n@),
{
    proof {
        reveal_strlit("id");
    }
    if n.len() != 2 {
        return false;
    }
    let a = to_lower(n[0]);
    let b = to_lower(n[1]);
    let r = a == 'i' && b == 'd';
    assert(lower_spec('i') == 'i' && lower_spec('d') == 'd');
    if r {
        assert(eq_ignore_case(n@, "id"@)) by {
            assert forall|i: int| 0 <= i < 2 implies #[trigger] lower_spec(n@[i]) == lower_spec(
                "id"@[i],
            ) by {
                if i == 0 {
                } else {
                }
            }
        }
    } else {
        proof {
            if eq_ignore_case(n@, "id"@) {
                assert(lower_spec(n@[0]) == lower_spec("id"@[0]));
                assert(lower_spec(n@[1]) == lower_spec("id"@[1]));
            }
        }
    }
    r
}

pub fn validate_column_name_vec(name: &Vec<char>) -> (r: Result<String, DomainError>)
    ensures
        validated_as(r, trim(name@), column_name_error(trim(name@))),
{
    let n = trim_vec(name);
    match validate_identifier_chars(&n, "カラム名") {
        Err(e) => return Err(e),
        Ok(()) => {},
    }
    if is_id_name_exec(&n) {
        return Err(
            DomainError::Validation(String::from_str("カラム名 `id` は自動追加されるため使用できません")),
        );
    }
    Ok(string_of(&n))
}

/// Validates a user column name; returns the trimmed name.
pub fn validate_column_name(name: &str) -> (r: Result<String, DomainError>)
    ensures
        validated_as(r, trim(name@), column_name_error(trim(name@))),
{
    let v = chars_of(name);
    validate_column_name_vec(&v)
}

/// Validates the name of an object a user may create.
pub fn validate_user_object_name(name: &str) -> (r: Result<String, DomainError>)
    ensures
        validated_as(r, trim(name@), table_name_error(trim(name@))),
{
    validate_table_name(name)
}

/// Trims a table name taken from a URL; names that could not be a table are
/// reported as not found.
pub fn sanitize_table_name_input(name: &str) -> (r: Result<String, DomainError>)
    ensures
        table_input_ok(trim(name@)) ==> (r matches Ok(s) && s@ == trim(name@)),
        !table_input_ok(trim(name@)) ==> r matches Err(DomainError::NotFound),
{
    let v = chars_of(name);
    let n = trim_vec(&v);
    if n.len() == 0 {
        return Err(DomainError::NotFound);
    }
    if validate_identifier_chars(&n, "テーブル名").is_err() || contains_char(&n, '/')
        || contains_char(&n, '\\') {
        return Err(DomainError::NotFound);
    }
    Ok(string_of(&n))
}

/// The trimmed name of a table whose data may be viewed.
pub fn ensure_viewable_table(name: &str) -> (r: Result<String, DomainError>)
    ensures
        !table_input_ok(trim(name@)) ==> r matches Err(DomainError::NotFound),
        table_input_ok(trim(name@)) && is_infra_spec(trim(name@)) ==> is_system_table_err(
            r,
            infra_denied_msg(trim(name@)),
        ),
        table_input_ok(trim(name@)) && !is_infra_spec(trim(name@)) ==> (r matches Ok(s) && s@
            == trim(name@)),
{
    let n = sanitize_table_name_input(name)?;
    let v = chars_of_string(&n);
    if is_infra_table_vec(&v) {
        return Err(DomainError::SystemTable(infra_denied_message_vec(&v)));
    }
    Ok(n)
}

/// The trimmed name of a user defined table that may be edited.
pub fn ensure_editable_user_table(name: &str) -> (r: Result<String, DomainError>)
    ensures
        !table_input_ok(trim(name@)) ==> r matches Err(DomainError::NotFound),
        table_input_ok(trim(name@)) && is_infra_spec(trim(name@)) ==> is_system_table_err(
            r,
            infra_denied_msg(trim(name@)),
        ),
        table_input_ok(trim(name@)) && !is_infra_spec(trim(name@)) && is_cms_core_spec(
            trim(name@),
        ) ==> is_system_table_err(r, cms_denied_msg(trim(name@))),
        table_input_ok(trim(name@)) && is_editable_spec(trim(name@)) ==> (r matches Ok(s) && s@
            == trim(name@)),
{
    let n = sanitize_table_name_input(name)?;
    let v = chars_of_string(&n);
    if is_infra_table_vec(&v) {
        return Err(DomainError::SystemTable(infra_denied_message_vec(&v)));
    }
    if is_cms_core_table_vec(&v) {
        return Err(DomainError::SystemTable(cms_denied_message_vec(&v)));
    }
    Ok(n)
}

} // verus!
