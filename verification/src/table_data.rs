//! The table data view: column metadata read from `PRAGMA table_info`, the
//! default row order, and the cell values typed in by the user.
use vstd::prelude::*;

use crate::error::{is_validation, DomainError};
use crate::names::{quote_ident_spec, quote_ident_vec};
use crate::numbers::{parse_hex_blob, parse_hex_blob_spec, parse_i64, parse_i64_spec};
use crate::schema::join;
use crate::text::{
    append_vec, chars_of, chars_of_string, contains_exec, contains_seq, eq_ignore_case, lower_seq, lower_spec,
    lower_vec, seq_eq, string_of, trim, trim_vec, upper_seq, upper_vec, vv,
};
use crate::timestamps::{canonical_timestamp_spec, parse_and_canonicalize_cell_timestamp};

verus! {

/// One row of `PRAGMA table_info`.
#[derive(Debug, Clone)]
pub struct PragmaTableInfoRow {
    pub name: String,
    pub column_type: String,
    pub notnull: i32,
    pub pk: i32,
}

/// Column metadata for the data view.
#[derive(Debug, Clone)]
pub struct TableDataColumnMeta {
    pub name: String,
    pub pk: bool,
    pub type_key: String,
    pub nullable: bool,
}

pub struct PragmaP {
    pub name: Seq<char>,
    pub column_type: Seq<char>,
    pub notnull: i32,
    pub pk: i32,
}

pub struct MetaP {
    pub name: Seq<char>,
    pub pk: bool,
    pub type_key: Seq<char>,
    pub nullable: bool,
}

impl View for PragmaTableInfoRow {
    type V = PragmaP;

    open spec fn view(&self) -> PragmaP {
        PragmaP { name: self.name@, column_type: self.column_type@, notnull: self.notnull, pk: self.pk }
    }
}

impl View for TableDataColumnMeta {
    type V = MetaP;

    open spec fn view(&self) -> MetaP {
        MetaP { name: self.name@, pk: self.pk, type_key: self.type_key@, nullable: self.nullable }
    }
}

pub open spec fn pragma_view(v: Seq<PragmaTableInfoRow>) -> Seq<PragmaP> {
    Seq::new(v.len(), |i: int| v[i]@)
}

pub open spec fn metas_view(v: Seq<TableDataColumnMeta>) -> Seq<MetaP> {
    Seq::new(v.len(), |i: int| v[i]@)
}

// ---------------------------------------------------------------------------
// Column types
// ---------------------------------------------------------------------------

/// Type key of a declared SQLite column type, by SQLite's affinity rules as
/// this admin UI applies them.
pub open spec fn type_key_spec(column_type: Seq<char>) -> Option<Seq<char>> {
    let u = upper_seq(trim(column_type));
    if u.len() == 0 {
        Some("text"@)
    } else if contains_seq(u, "INT"@) {
        Some("integer"@)
    } else if contains_seq(u, "REAL"@) || contains_seq(u, "FLOA"@) || contains_seq(u, "DOUB"@) {
        Some("real"@)
    } else if contains_seq(u, "BLOB"@) {
        Some("blob"@)
    } else if contains_seq(u, "BOOL"@) {
        Some("boolean"@)
    } else if contains_seq(u, "TIMESTAMP"@) || contains_seq(u, "DATETIME"@) || contains_seq(u, "DATE"@)
        || contains_seq(u, "TIME"@) {
        Some("timestamp"@)
    } else if contains_seq(u, "TEXT"@) || contains_seq(u, "CHAR"@) || contains_seq(u, "CLOB"@) {
        Some("text"@)
    } else {
        None
    }
}

fn contains_str(u: &Vec<char>, needle: &str) -> (b: bool)
    ensures
        b == contains_seq(u@, needle@),
{
    let n = chars_of(needle);
    contains_exec(u, &n)
}

/// The type key of a declared column type, `None` when it cannot be told.
pub fn pragma_type_to_type_key(column_type: &str) -> (r: Option<&'static str>)
    ensures
        match type_key_spec(column_type@) {
            Some(k) => r matches Some(s) && s@ == k,
            None => r is None,
        },
{
    let tv = chars_of(column_type);
    let t = trim_vec(&tv);
    let u = upper_vec(&t);
    if u.len() == 0 {
        return Some("text");
    }
    if contains_str(&u, "INT") {
        return Some("integer");
    }
    if contains_str(&u, "REAL") || contains_str(&u, "FLOA") || contains_str(&u, "DOUB") {
        return Some("real");
    }
    if contains_str(&u, "BLOB") {
        return Some("blob");
    }
    if contains_str(&u, "BOOL") {
        return Some("boolean");
    }
    if contains_str(&u, "TIMESTAMP") || contains_str(&u, "DATETIME") || contains_str(&u, "DATE")
        || contains_str(&u, "TIME") {
        return Some("timestamp");
    }
    if contains_str(&u, "TEXT") || contains_str(&u, "CHAR") || contains_str(&u, "CLOB") {
        return Some("text");
    }
    None
}

/// Japanese label of a type key.
pub open spec fn type_label_spec(type_key: Seq<char>) -> Seq<char> {
    if type_key == "integer"@ {
        "整数"@
    } else if type_key == "real"@ {
        "実数"@
    } else if type_key == "text"@ {
        "文字列"@
    } else if type_key == "blob"@ {
        "バイナリ"@
    } else if type_key == "timestamp"@ {
        "日時"@
    } else if type_key == "boolean"@ {
        "真偽値"@
    } else {
        "不明"@
    }
}

fn str_is(v: &Vec<char>, s: &str) -> (b: bool)
    ensures
        b == (v@ == s@),
{
    let sv = chars_of(s);
    seq_eq(v, &sv)
}

/// The label shown for a column type.
pub fn column_type_label(type_key: &str) -> (s: &'static str)
    ensures
        s@ == type_label_spec(type_key@),
{
    let k = chars_of(type_key);
    if str_is(&k, "integer") {
        "整数"
    } else if str_is(&k, "real") {
        "実数"
    } else if str_is(&k, "text") {
        "文字列"
    } else if str_is(&k, "blob") {
        "バイナリ"
    } else if str_is(&k, "timestamp") {
        "日時"
    } else if str_is(&k, "boolean") {
        "真偽値"
    } else {
        "不明"
    }
}

/// Metadata of each column; the first column whose type cannot be told is an error.
pub open spec fn column_meta_spec(rows: Seq<PragmaP>) -> Result<Seq<MetaP>, Seq<char>>
    decreases rows.len(),
{
    if rows.len() == 0 {
        Ok(seq![])
    } else {
        match column_meta_spec(rows.drop_last()) {
            Err(m) => Err(m),
            Ok(acc) => {
                let r = rows.last();
                match type_key_spec(r.column_type) {
                    None => Err("カラム `"@ + r.name + "` の型を判別できません"@),
                    Some(k) => Ok(acc.push(MetaP { name: r.name, pk: r.pk > 0, type_key: k, nullable: r.notnull == 0 })),
                }
            },
        }
    }
}

proof fn lemma_column_meta_err_sticky(rows: Seq<PragmaP>, i: int)
    requires
        0 <= i <= rows.len(),
        column_meta_spec(rows.take(i)) is Err,
    ensures
        column_meta_spec(rows) == column_meta_spec(rows.take(i)),
    decreases rows.len() - i,
{
    if i < rows.len() {
        assert(rows.take(i + 1).drop_last() =~= rows.take(i));
        lemma_column_meta_err_sticky(rows, i + 1);
    } else {
        assert(rows.take(i) =~= rows);
    }
}

/// Data-view metadata of the columns.
pub fn column_meta_from_pragma(rows: &[PragmaTableInfoRow]) -> (r: Result<Vec<TableDataColumnMeta>, DomainError>)
    ensures
        match column_meta_spec(pragma_view(rows@)) {
            Ok(ms) => r matches Ok(v) && metas_view(v@) == ms,
            Err(m) => is_validation(r, m),
        },
{
    let ghost rv = pragma_view(rows@);
    let mut out: Vec<TableDataColumnMeta> = Vec::new();
    let mut i: usize = 0;
    assert(rv.take(0) =~= seq![]);
    assert(metas_view(out@) =~= seq![]);
    while i < rows.len()
        invariant
            i <= rows.len(),
            rv == pragma_view(rows@),
            column_meta_spec(rv.take(i as int)) == Ok::<Seq<MetaP>, Seq<char>>(metas_view(out@)),
        decreases rows.len() - i,
    {
        let ghost t = rv.take(i + 1);
        assert(t.drop_last() =~= rv.take(i as int));
        assert(t.last() == rows@[i as int]@);
        let row = &rows[i];
        match pragma_type_to_type_key(row.column_type.as_str()) {
            None => {
                let mut m = chars_of("カラム `");
                let nv = chars_of_string(&row.name);
                append_vec(&mut m, &nv);
                let tail = chars_of("` の型を判別できません");
                append_vec(&mut m, &tail);
                proof {
                    assert(m@ =~= "カラム `"@ + row.name@ + "` の型を判別できません"@);
                    lemma_column_meta_err_sticky(rv, i + 1);
                }
                return Err(DomainError::Validation(string_of(&m)));
            },
            Some(k) => {
                let meta = TableDataColumnMeta {
                    name: row.name.clone(),
                    pk: row.pk > 0,
                    type_key: String::from_str(k),
                    nullable: row.notnull == 0,
                };
                let ghost old = metas_view(out@);
                out.push(meta);
                assert(metas_view(out@) =~= old.push(meta@));
            },
        }
        i += 1;
    }
    assert(rv.take(rows@.len() as int) =~= rv);
    Ok(out)
}

// ---------------------------------------------------------------------------
// Default row order
// ---------------------------------------------------------------------------

/// Position for `x` among `s`: after every entry whose key is not greater.
pub open spec fn pk_insert_pos(s: Seq<(i32, Seq<char>)>, key: i32, i: int) -> int
    decreases s.len() - i,
{
    if i < 0 || i >= s.len() {
        s.len() as int
    } else if s[i].0 > key {
        i
    } else {
        pk_insert_pos(s, key, i + 1)
    }
}

/// The entries stably sorted by key (insertion in order of appearance).
pub open spec fn pk_sorted(s: Seq<(i32, Seq<char>)>) -> Seq<(i32, Seq<char>)>
    decreases s.len(),
{
    if s.len() == 0 {
        seq![]
    } else {
        let p = pk_sorted(s.drop_last());
        p.insert(pk_insert_pos(p, s.last().0, 0), s.last())
    }
}

/// Primary-key columns of the table with their position in the key.
pub open spec fn pk_columns(rows: Seq<PragmaP>) -> Seq<(i32, Seq<char>)> {
    rows.filter(|r: PragmaP| r.pk > 0).map_values(|r: PragmaP| (r.pk, r.name))
}

/// Default ORDER BY of the data view: the primary key in key order, else an
/// `id` column, else the first column, else `rowid`.
pub open spec fn order_columns_spec(rows: Seq<PragmaP>) -> Seq<char> {
    let pks = pk_sorted(pk_columns(rows));
    if pks.len() > 0 {
        join(Seq::new(pks.len(), |i: int| quote_ident_spec(pks[i].1)), ", "@)
    } else if exists|i: int| 0 <= i < rows.len() && eq_ignore_case(#[trigger] rows[i].name, "id"@) {
        quote_ident_spec("id"@)
    } else if rows.len() > 0 {
        quote_ident_spec(rows[0].name)
    } else {
        "rowid"@
    }
}

proof fn lemma_pk_insert_pos(s: Seq<(i32, Seq<char>)>, key: i32, i: int)
    requires
        0 <= i <= s.len(),
    ensures
        i <= pk_insert_pos(s, key, i) <= s.len(),
        forall|q: int| i <= q < pk_insert_pos(s, key, i) ==> s[q].0 <= key,
        pk_insert_pos(s, key, i) < s.len() ==> s[pk_insert_pos(s, key, i)].0 > key,
    decreases s.len() - i,
{
    if i < s.len() && s[i].0 <= key {
        lemma_pk_insert_pos(s, key, i + 1);
    }
}

/// Stable sorting yields entries ordered by key.
pub proof fn lemma_pk_sorted_ordered(s: Seq<(i32, Seq<char>)>)
    ensures
        pk_sorted(s).len() == s.len(),
        forall|a: int, b: int| 0 <= a < b < pk_sorted(s).len() ==> pk_sorted(s)[a].0 <= pk_sorted(s)[b].0,
    decreases s.len(),
{
    if s.len() > 0 {
        let p = pk_sorted(s.drop_last());
        lemma_pk_sorted_ordered(s.drop_last());
        lemma_pk_insert_pos(p, s.last().0, 0);
        let j = pk_insert_pos(p, s.last().0, 0);
        let r = p.insert(j, s.last());
        assert forall|a: int, b: int| 0 <= a < b < r.len() implies r[a].0 <= r[b].0 by {
            if b < j {
            } else if b == j {
                assert(r[a] == p[a]);
            } else if a < j {
                assert(r[b] == p[b - 1]);
                if a < j {
                    assert(r[a] == p[a]);
                    assert(p[a].0 <= p[b - 1].0 || a == b - 1);
                }
            } else if a == j {
                assert(r[b] == p[b - 1]);
                assert(p[j].0 > s.last().0);
                if b - 1 > j {
                    assert(p[j].0 <= p[b - 1].0);
                }
            } else {
                assert(r[a] == p[a - 1]);
                assert(r[b] == p[b - 1]);
            }
        }
    }
}

fn id_column_exists(rows: &[PragmaTableInfoRow]) -> (b: bool)
    ensures
        b == exists|i: int| 0 <= i < rows@.len() && eq_ignore_case(#[trigger] pragma_view(rows@)[i].name, "id"@),
{
    let id = chars_of("id");
    let mut i: usize = 0;
    while i < rows.len()
        invariant
            i <= rows.len(),
            id@ == "id"@,
            forall|k: int| 0 <= k < i ==> !eq_ignore_case(#[trigger] pragma_view(rows@)[k].name, "id"@),
        decreases rows.len() - i,
    {
        let nv = chars_of_string(&rows[i].name);
        let low = lower_vec(&nv);
        let lid = lower_vec(&id);
        assert(pragma_view(rows@)[i as int].name == nv@);
        if seq_eq(&low, &lid) {
            assert(eq_ignore_case(nv@, id@)) by {
                assert(low@.len() == nv@.len() && lid@.len() == id@.len());
                assert forall|k: int| 0 <= k < nv@.len() implies #[trigger] lower_spec(nv@[k]) == lower_spec(id@[k]) by {
                    assert(low@[k] == lid@[k]);
                    assert(low@[k] == lower_spec(nv@[k]));
                    assert(lid@[k] == lower_spec(id@[k]));
                }
            }
            return true;
        }
        proof {
            if eq_ignore_case(nv@, id@) {
                assert(low@ =~= lid@);
            }
        }
        i += 1;
    }
    false
}

/// The default ORDER BY column list of a table.
pub fn order_columns_from_pragma(rows: &[PragmaTableInfoRow]) -> (s: String)
    ensures
        s@ == order_columns_spec(pragma_view(rows@)),
{
    let ghost rv = pragma_view(rows@);
    let ghost pred = |r: PragmaP| r.pk > 0;
    let ghost f = |r: PragmaP| (r.pk, r.name);
    let mut pks: Vec<(i32, String)> = Vec::new();
    let mut i: usize = 0;
    proof {
        reveal(Seq::filter);
        assert(rv.take(0) =~= seq![]);
        assert(rv.take(0).filter(pred).map_values(f) =~= seq![]);
    }
    while i < rows.len()
        invariant
            i <= rows.len(),
            rv == pragma_view(rows@),
            pred == (|r: PragmaP| r.pk > 0),
            f == (|r: PragmaP| (r.pk, r.name)),
            Seq::new(pks@.len(), |k: int| (pks@[k].0, pks@[k].1@)) == pk_sorted(rv.take(i as int).filter(pred).map_values(f)),
        decreases rows.len() - i,
    {
        proof {
            reveal(Seq::filter);
            assert(rv.take(i + 1).drop_last() =~= rv.take(i as int));
            assert(rv.take(i + 1).last() == rows@[i as int]@);
        }
        let ghost before = rv.take(i as int).filter(pred).map_values(f);
        let ghost pv = Seq::new(pks@.len(), |k: int| (pks@[k].0, pks@[k].1@));
        if rows[i].pk > 0 {
            let key = rows[i].pk;
            let mut j: usize = 0;
            while j < pks.len() && pks[j].0 <= key
                invariant
                    j <= pks.len(),
                    pv == Seq::new(pks@.len(), |k: int| (pks@[k].0, pks@[k].1@)),
                    pk_insert_pos(pv, key, 0) == pk_insert_pos(pv, key, j as int),
                decreases pks.len() - j,
            {
                j += 1;
            }
            let item = (key, rows[i].name.clone());
            pks.insert(j, item);
            proof {
                let after = rv.take(i + 1).filter(pred).map_values(f);
                assert(rv.take(i + 1).filter(pred) =~= rv.take(i as int).filter(pred).push(rows@[i as int]@));
                assert(after =~= before.push((key, rows@[i as int]@.name)));
                assert(after.drop_last() =~= before);
                assert(Seq::new(pks@.len(), |k: int| (pks@[k].0, pks@[k].1@)) =~= pv.insert(j as int, (key, item.1@)));
            }
        } else {
            proof {
                assert(rv.take(i + 1).filter(pred) =~= rv.take(i as int).filter(pred));
            }
        }
        i += 1;
    }
    assert(rv.take(rows@.len() as int) =~= rv);
    let ghost pv = Seq::new(pks@.len(), |k: int| (pks@[k].0, pks@[k].1@));
    if pks.len() > 0 {
        let mut parts: Vec<Vec<char>> = Vec::new();
        let mut k: usize = 0;
        while k < pks.len()
            invariant
                k <= pks.len(),
                pv == Seq::new(pks@.len(), |q: int| (pks@[q].0, pks@[q].1@)),
                vv(parts@) =~= Seq::new(k as nat, |q: int| quote_ident_spec(pv[q].1)),
            decreases pks.len() - k,
        {
            let nv = chars_of_string(&pks[k].1);
            let q = quote_ident_vec(&nv);
            let ghost old = vv(parts@);
            parts.push(q);
            assert(vv(parts@) =~= old.push(q@));
            k += 1;
        }
        let sep = chars_of(", ");
        let body = crate::schema::join_vecs(&parts, &sep);
        return string_of(&body);
    }
    if id_column_exists(rows) {
        let id = chars_of("id");
        let q = quote_ident_vec(&id);
        return string_of(&q);
    }
    if rows.len() > 0 {
        assert(rv[0] == rows@[0]@);
        let nv = chars_of_string(&rows[0].name);
        let q = quote_ident_vec(&nv);
        return string_of(&q);
    }
    String::from_str("rowid")
}

// ---------------------------------------------------------------------------
// Cell values typed into the data view
// ---------------------------------------------------------------------------

/// A value to bind for a cell. A `real` cell carries its trimmed text, a
/// literal that `f64::from_str` accepts, read as a float where the value is
/// bound.
#[derive(Debug, Clone)]
pub enum CellBindValue {
    Null,
    Integer(i64),
    Real(String),
    Text(String),
    Blob(Vec<u8>),
}

pub enum CellP {
    Null,
    Integer(i64),
    Real(Seq<char>),
    Text(Seq<char>),
    Blob(Seq<u8>),
}

impl View for CellBindValue {
    type V = CellP;

    open spec fn view(&self) -> CellP {
        match self {
            CellBindValue::Null => CellP::Null,
            CellBindValue::Integer(v) => CellP::Integer(*v),
            CellBindValue::Real(s) => CellP::Real(s@),
            CellBindValue::Text(s) => CellP::Text(s@),
            CellBindValue::Blob(b) => CellP::Blob(b@),
        }
    }
}

pub open spec fn bool_cell_spec(r: Seq<char>) -> Option<i64> {
    if r == "0"@ || r == "false"@ || r == "FALSE"@ || r == "False"@ {
        Some(0)
    } else if r == "1"@ || r == "true"@ || r == "TRUE"@ || r == "True"@ {
        Some(1)
    } else {
        None
    }
}

/// The value to store for a cell of a column of type `type_key`.
pub open spec fn cell_value_spec(
    type_key: Seq<char>,
    nullable: bool,
    is_null: bool,
    raw: Seq<char>,
    column: Seq<char>,
) -> Result<CellP, Seq<char>> {
    if is_null {
        if !nullable {
            Err("NOT NULL 列 `"@ + column + "` には NULL を設定できません"@)
        } else {
            Ok(CellP::Null)
        }
    } else {
        let r = trim(raw);
        let known = type_key == "integer"@ || type_key == "boolean"@ || type_key == "real"@ || type_key
            == "text"@ || type_key == "timestamp"@ || type_key == "blob"@;
        if !known {
            Err("カラム `"@ + column + "` の型が不正です"@)
        } else if r.len() == 0 && nullable {
            Ok(CellP::Null)
        } else if type_key == "integer"@ {
            match parse_i64_spec(r) {
                Some(v) => Ok(CellP::Integer(v)),
                None => Err(column + "は整数で指定してください"@),
            }
        } else if type_key == "boolean"@ {
            match bool_cell_spec(r) {
                Some(v) => Ok(CellP::Integer(v)),
                None => Err(column + "は 0/1 または true/false で指定してください"@),
            }
        } else if type_key == "real"@ {
            if crate::numbers::f64_literal_ok(r) {
                Ok(CellP::Real(r))
            } else {
                Err(column + "は数値で指定してください"@)
            }
        } else if type_key == "text"@ {
            Ok(CellP::Text(r))
        } else if type_key == "timestamp"@ {
            match canonical_timestamp_spec(r, column) {
                Ok(s) => Ok(CellP::Text(s)),
                Err(m) => Err(m),
            }
        } else {
            match parse_hex_blob_spec(r, column) {
                Ok(b) => Ok(CellP::Blob(b)),
                Err(m) => Err(m),
            }
        }
    }
}

fn message3(a: &str, b: &Vec<char>, c: &str) -> (s: String)
    ensures
        s@ == a@ + b@ + c@,
{
    let mut m = chars_of(a);
    append_vec(&mut m, b);
    let t = chars_of(c);
    append_vec(&mut m, &t);
    string_of(&m)
}

/// Reads the text typed into a cell as a value of the column's type.
pub fn parse_cell_update_value(
    type_key: &str,
    nullable: bool,
    is_null: bool,
    raw: &str,
    column_name: &str,
) -> (r: Result<CellBindValue, DomainError>)
    ensures
        match cell_value_spec(type_key@, nullable, is_null, raw@, column_name@) {
            Ok(c) => r matches Ok(v) && v@ == c,
            Err(m) => is_validation(r, m),
        },
{
    let col = chars_of(column_name);
    proof {
        reveal_strlit("");
        assert(""@ + col@ =~= col@);
    }
    if is_null {
        if !nullable {
            return Err(DomainError::Validation(message3("NOT NULL 列 `", &col, "` には NULL を設定できません")));
        }
        return Ok(CellBindValue::Null);
    }
    let rv = chars_of(raw);
    let t = trim_vec(&rv);
    let k = chars_of(type_key);
    let known = str_is(&k, "integer") || str_is(&k, "boolean") || str_is(&k, "real") || str_is(&k, "text")
        || str_is(&k, "timestamp") || str_is(&k, "blob");
    if !known {
        return Err(DomainError::Validation(message3("カラム `", &col, "` の型が不正です")));
    }
    if t.len() == 0 && nullable {
        return Ok(CellBindValue::Null);
    }
    if str_is(&k, "integer") {
        match parse_i64(&t) {
            Some(v) => Ok(CellBindValue::Integer(v)),
            None => Err(DomainError::Validation(message3("", &col, "は整数で指定してください"))),
        }
    } else if str_is(&k, "boolean") {
        if str_is(&t, "0") || str_is(&t, "false") || str_is(&t, "FALSE") || str_is(&t, "False") {
            Ok(CellBindValue::Integer(0))
        } else if str_is(&t, "1") || str_is(&t, "true") || str_is(&t, "TRUE") || str_is(&t, "True") {
            Ok(CellBindValue::Integer(1))
        } else {
            Err(DomainError::Validation(message3("", &col, "は 0/1 または true/false で指定してください")))
        }
    } else if str_is(&k, "real") {
        if crate::numbers::is_f64_literal(&t) {
            Ok(CellBindValue::Real(string_of(&t)))
        } else {
            Err(DomainError::Validation(message3("", &col, "は数値で指定してください")))
        }
    } else if str_is(&k, "text") {
        Ok(CellBindValue::Text(string_of(&t)))
    } else if str_is(&k, "timestamp") {
        let ts = string_of(&t);
        match parse_and_canonicalize_cell_timestamp(ts.as_str(), column_name) {
            Ok(s) => Ok(CellBindValue::Text(s)),
            Err(e) => Err(e),
        }
    } else {
        let ts = string_of(&t);
        match parse_hex_blob(ts.as_str(), column_name) {
            Ok(b) => Ok(CellBindValue::Blob(b)),
            Err(e) => Err(e),
        }
    }
}

/// Reads a primary-key value that identifies the row of an edited cell.
pub fn parse_cell_key_value(type_key: &str, raw: &str, column_name: &str) -> (r: Result<CellBindValue, DomainError>)
    ensures
        match cell_value_spec(type_key@, false, false, raw@, column_name@) {
            Ok(c) => r matches Ok(v) && v@ == c,
            Err(m) => is_validation(r, m),
        },
{
    parse_cell_update_value(type_key, false, false, raw, column_name)
}

// ---------------------------------------------------------------------------
// Boolean cells
// ---------------------------------------------------------------------------

/// A boolean cell stores 0 for `0`, `false`, `FALSE` or `False` and 1 for
/// `1`, `true`, `TRUE` or `True`, with any whitespace around them; any other
/// non-blank text is refused.
pub proof fn law_boolean_cell_values(nullable: bool, raw: Seq<char>, column: Seq<char>)
    ensures
        ({
            let r = trim(raw);
            &&& (r == "0"@ || r == "false"@ || r == "FALSE"@ || r == "False"@) ==> cell_value_spec(
                "boolean"@,
                nullable,
                false,
                raw,
                column,
            ) == Ok::<CellP, Seq<char>>(CellP::Integer(0))
            &&& (r == "1"@ || r == "true"@ || r == "TRUE"@ || r == "True"@) ==> cell_value_spec(
                "boolean"@,
                nullable,
                false,
                raw,
                column,
            ) == Ok::<CellP, Seq<char>>(CellP::Integer(1))
            &&& r.len() > 0 && !(r == "0"@ || r == "false"@ || r == "FALSE"@ || r == "False"@ || r == "1"@ || r
                == "true"@ || r == "TRUE"@ || r == "True"@) ==> cell_value_spec(
                "boolean"@,
                nullable,
                false,
                raw,
                column,
            ) is Err
        }),
{
    reveal_strlit("0");
    reveal_strlit("1");
    reveal_strlit("false");
    reveal_strlit("FALSE");
    reveal_strlit("False");
    reveal_strlit("true");
    reveal_strlit("TRUE");
    reveal_strlit("True");
    reveal_strlit("boolean");
    reveal_strlit("integer");
    assert("boolean"@[0] == 'b' && "integer"@[0] == 'i');
    assert("0"@[0] == '0' && "false"@[0] == 'f' && "FALSE"@[0] == 'F' && "False"@[0] == 'F');
    assert("1"@[0] == '1' && "true"@[0] == 't' && "TRUE"@[0] == 'T' && "True"@[0] == 'T');
}

} // verus!
