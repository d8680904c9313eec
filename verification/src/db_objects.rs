//! Tables and views listed in the database admin, and the data the copy
//! dialog is filled with.
use vstd::prelude::*;

use crate::create_sql::{parse_user_columns_from_create_sql, user_columns_spec};
use crate::names::{is_db_admin_editable, is_editable_spec};
use crate::schema::ColumnSpec;
use crate::sql_build::{extract_view_select_from_create_sql, view_select_spec};
use crate::text::{chars_of_string, seq_eq};

verus! {

/// A table or view as listed from `sqlite_master`.
#[derive(Debug, Clone)]
pub struct DbObjectItem {
    pub name: String,
    pub sql: String,
    pub sql_preview: String,
    pub is_system: bool,
    pub row_count: Option<i64>,
}

/// The listing row of an object read from `sqlite_master`: its SQL (empty
/// when it has none), a preview of 80 characters, whether it is a system
/// table, and its row count where one was taken.
pub fn db_object_item(name: String, sql: Option<String>, row_count: Option<i64>) -> (item: DbObjectItem)
    ensures
        item.name@ == name@,
        item.sql@ == (match sql {
            Some(s) => s@,
            None => seq![],
        }),
        item.sql@.len() <= 80 ==> item.sql_preview@ == item.sql@,
        item.sql@.len() > 80 ==> item.sql_preview@ == item.sql@.subrange(0, 80).push('…'),
        item.is_system == crate::names::is_system_spec(name@),
        item.row_count == row_count,
{
    let sql = match sql {
        Some(s) => s,
        None => String::new(),
    };
    let sql_preview = crate::names::truncate_sql(sql.as_str(), 80);
    let is_system = crate::names::is_system_table(name.as_str());
    DbObjectItem { name, sql, sql_preview, is_system, row_count }
}

/// A column offered in the table copy dialog.
#[derive(Debug, Clone)]
pub struct TableColumnDuplicateJson {
    pub name: String,
    pub type_key: String,
    pub nullable: bool,
}

/// The copy dialog's data: the columns of each table and the definition of
/// each view, by name.
#[derive(Debug, Clone, Default)]
pub struct DatabaseDuplicatePayloads {
    pub tables: Vec<(String, Vec<TableColumnDuplicateJson>)>,
    pub views: Vec<(String, String)>,
}

pub struct DupColP {
    pub name: Seq<char>,
    pub type_key: Seq<char>,
    pub nullable: bool,
}

pub open spec fn dup_cols_view(v: Seq<TableColumnDuplicateJson>) -> Seq<DupColP> {
    Seq::new(v.len(), |i: int| DupColP { name: v[i].name@, type_key: v[i].type_key@, nullable: v[i].nullable })
}

pub open spec fn tables_view(v: Seq<(String, Vec<TableColumnDuplicateJson>)>) -> Seq<(Seq<char>, Seq<DupColP>)> {
    Seq::new(v.len(), |i: int| (v[i].0@, dup_cols_view(v[i].1@)))
}

pub open spec fn views_view(v: Seq<(String, String)>) -> Seq<(Seq<char>, Seq<char>)> {
    Seq::new(v.len(), |i: int| (v[i].0@, v[i].1@))
}

pub open spec fn items_view(v: Seq<DbObjectItem>) -> Seq<(Seq<char>, Seq<char>)> {
    Seq::new(v.len(), |i: int| (v[i].name@, v[i].sql@))
}

/// Index of the entry keyed `k`.
pub open spec fn key_index<V>(m: Seq<(Seq<char>, V)>, k: Seq<char>, i: int) -> Option<int>
    decreases m.len() - i,
{
    if i < 0 || i >= m.len() {
        None
    } else if m[i].0 == k {
        Some(i)
    } else {
        key_index(m, k, i + 1)
    }
}

/// A map kept as a list: the entry keyed `k` gets `v`, or `(k, v)` is added.
pub open spec fn map_insert<V>(m: Seq<(Seq<char>, V)>, k: Seq<char>, v: V) -> Seq<(Seq<char>, V)> {
    match key_index(m, k, 0) {
        Some(j) => m.update(j, (k, v)),
        None => m.push((k, v)),
    }
}

pub open spec fn dup_columns(cols: Seq<ColumnSpec>) -> Seq<DupColP> {
    Seq::new(cols.len(), |i: int| DupColP { name: cols[i].name, type_key: cols[i].type_key, nullable: cols[i].nullable })
}

/// The tables part: every editable table whose columns can be read back.
pub open spec fn table_payloads(items: Seq<(Seq<char>, Seq<char>)>) -> Seq<(Seq<char>, Seq<DupColP>)>
    decreases items.len(),
{
    if items.len() == 0 {
        seq![]
    } else {
        let acc = table_payloads(items.drop_last());
        let (name, sql) = items.last();
        if !is_editable_spec(name) {
            acc
        } else {
            match user_columns_spec(sql) {
                Err(_) => acc,
                Ok(cols) => map_insert(acc, name, dup_columns(cols)),
            }
        }
    }
}

/// The views part: every editable view whose definition can be read back.
pub open spec fn view_payloads(items: Seq<(Seq<char>, Seq<char>)>) -> Seq<(Seq<char>, Seq<char>)>
    decreases items.len(),
{
    if items.len() == 0 {
        seq![]
    } else {
        let acc = view_payloads(items.drop_last());
        let (name, sql) = items.last();
        if !is_editable_spec(name) {
            acc
        } else {
            match view_select_spec(sql) {
                None => acc,
                Some(d) => map_insert(acc, name, d),
            }
        }
    }
}

fn table_insert(m: &mut Vec<(String, Vec<TableColumnDuplicateJson>)>, k: String, v: Vec<TableColumnDuplicateJson>)
    ensures
        tables_view(final(m)@) == map_insert(tables_view(old(m)@), k@, dup_cols_view(v@)),
{
    let ghost mv = tables_view(m@);
    let kv = chars_of_string(&k);
    let mut i: usize = 0;
    while i < m.len()
        invariant
            i <= m.len(),
            mv == tables_view(m@),
            mv == tables_view(old(m)@),
            kv@ == k@,
            key_index(mv, k@, 0) == key_index(mv, k@, i as int),
        decreases m.len() - i,
    {
        assert(mv[i as int].0 == m@[i as int].0@);
        let c = chars_of_string(&m[i].0);
        if seq_eq(&c, &kv) {
            let ghost vv = dup_cols_view(v@);
            m.set(i, (k, v));
            assert(tables_view(m@) =~= mv.update(i as int, (k@, vv)));
            return;
        }
        i += 1;
    }
    let ghost vv = dup_cols_view(v@);
    let ghost kk = k@;
    m.push((k, v));
    assert(tables_view(m@) =~= mv.push((kk, vv)));
}

fn view_insert(m: &mut Vec<(String, String)>, k: String, v: String)
    ensures
        views_view(final(m)@) == map_insert(views_view(old(m)@), k@, v@),
{
    let ghost mv = views_view(m@);
    let kv = chars_of_string(&k);
    let mut i: usize = 0;
    while i < m.len()
        invariant
            i <= m.len(),
            mv == views_view(m@),
            mv == views_view(old(m)@),
            kv@ == k@,
            key_index(mv, k@, 0) == key_index(mv, k@, i as int),
        decreases m.len() - i,
    {
        assert(mv[i as int].0 == m@[i as int].0@);
        let c = chars_of_string(&m[i].0);
        if seq_eq(&c, &kv) {
            let ghost vs = v@;
            m.set(i, (k, v));
            assert(views_view(m@) =~= mv.update(i as int, (kv@, vs)));
            return;
        }
        i += 1;
    }
    let ghost kk = k@;
    let ghost vs = v@;
    m.push((k, v));
    assert(views_view(m@) =~= mv.push((kk, vs)));
}

/// The copy dialog's data from the listed tables and views: the columns of
/// every editable table and the definition of every editable view, where
/// they can be read back from their SQL.
pub fn build_duplicate_payloads(tables: &[DbObjectItem], views: &[DbObjectItem]) -> (p: DatabaseDuplicatePayloads)
    ensures
        tables_view(p.tables@) == table_payloads(items_view(tables@)),
        views_view(p.views@) == view_payloads(items_view(views@)),
{
    let ghost tv = items_view(tables@);
    let mut out_tables: Vec<(String, Vec<TableColumnDuplicateJson>)> = Vec::new();
    let mut i: usize = 0;
    assert(tv.take(0) =~= seq![]);
    assert(tables_view(out_tables@) =~= seq![]);
    while i < tables.len()
        invariant
            i <= tables.len(),
            tv == items_view(tables@),
            tables_view(out_tables@) == table_payloads(tv.take(i as int)),
        decreases tables.len() - i,
    {
        let ghost t = tv.take(i + 1);
        assert(t.drop_last() =~= tv.take(i as int));
        assert(t.last() == (tables@[i as int].name@, tables@[i as int].sql@));
        let item = &tables[i];
        if is_db_admin_editable(item.name.as_str()) {
            match parse_user_columns_from_create_sql(item.sql.as_str()) {
                Err(_) => {},
                Ok(columns) => {
                    let mut cols: Vec<TableColumnDuplicateJson> = Vec::new();
                    let mut k: usize = 0;
                    while k < columns.len()
                        invariant
                            k <= columns.len(),
                            dup_cols_view(cols@) =~= dup_columns(crate::schema::cols_view(columns@)).take(k as int),
                        decreases columns.len() - k,
                    {
                        let c = TableColumnDuplicateJson {
                            name: columns[k].name.clone(),
                            type_key: columns[k].type_key.clone(),
                            nullable: columns[k].nullable,
                        };
                        let ghost old = dup_cols_view(cols@);
                        cols.push(c);
                        assert(dup_cols_view(cols@) =~= old.push(
                            DupColP { name: c.name@, type_key: c.type_key@, nullable: c.nullable },
                        ));
                        k += 1;
                    }
                    assert(dup_columns(crate::schema::cols_view(columns@)).take(columns@.len() as int)
                        =~= dup_columns(crate::schema::cols_view(columns@)));
                    table_insert(&mut out_tables, item.name.clone(), cols);
                },
            }
        }
        i += 1;
    }
    assert(tv.take(tables@.len() as int) =~= tv);
    let ghost vw = items_view(views@);
    let mut out_views: Vec<(String, String)> = Vec::new();
    let mut j: usize = 0;
    assert(vw.take(0) =~= seq![]);
    assert(views_view(out_views@) =~= seq![]);
    while j < views.len()
        invariant
            j <= views.len(),
            vw == items_view(views@),
            views_view(out_views@) == view_payloads(vw.take(j as int)),
        decreases views.len() - j,
    {
        let ghost t = vw.take(j + 1);
        assert(t.drop_last() =~= vw.take(j as int));
        assert(t.last() == (views@[j as int].name@, views@[j as int].sql@));
        let item = &views[j];
        if is_db_admin_editable(item.name.as_str()) {
            match extract_view_select_from_create_sql(item.sql.as_str()) {
                Err(_) => {},
                Ok(definition) => {
                    view_insert(&mut out_views, item.name.clone(), definition);
                },
            }
        }
        j += 1;
    }
    assert(vw.take(views@.len() as int) =~= vw);
    DatabaseDuplicatePayloads { tables: out_tables, views: out_views }
}

impl DatabaseDuplicatePayloads {
    /// The columns listed for table `name`, if any.
    pub fn table_columns(&self, name: &str) -> (r: Option<&Vec<TableColumnDuplicateJson>>)
        ensures
            match key_index(tables_view(self.tables@), name@, 0) {
                Some(j) => r matches Some(v) && dup_cols_view(v@) == tables_view(self.tables@)[j].1,
                None => r is None,
            },
    {
        let ghost tv = tables_view(self.tables@);
        let nv = crate::text::chars_of(name);
        let mut i: usize = 0;
        while i < self.tables.len()
            invariant
                i <= self.tables.len(),
                tv == tables_view(self.tables@),
                nv@ == name@,
                key_index(tv, name@, 0) == key_index(tv, name@, i as int),
            decreases self.tables.len() - i,
        {
            assert(tv[i as int].0 == self.tables@[i as int].0@);
            let k = chars_of_string(&self.tables[i].0);
            if seq_eq(&k, &nv) {
                return Some(&self.tables[i].1);
            }
            i += 1;
        }
        None
    }

    /// The definition listed for view `name`, if any.
    pub fn view_definition(&self, name: &str) -> (r: Option<&String>)
        ensures
            match key_index(views_view(self.views@), name@, 0) {
                Some(j) => r matches Some(v) && v@ == views_view(self.views@)[j].1,
                None => r is None,
            },
    {
        let ghost vw = views_view(self.views@);
        let nv = crate::text::chars_of(name);
        let mut i: usize = 0;
        while i < self.views.len()
            invariant
                i <= self.views.len(),
                vw == views_view(self.views@),
                nv@ == name@,
                key_index(vw, name@, 0) == key_index(vw, name@, i as int),
            decreases self.views.len() - i,
        {
            assert(vw[i as int].0 == self.views@[i as int].0@);
            let k = chars_of_string(&self.views[i].0);
            if seq_eq(&k, &nv) {
                return Some(&self.views[i].1);
            }
            i += 1;
        }
        None
    }
}

} // verus!
