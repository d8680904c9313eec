//! Reading and editing the rows of a user table: which query a page of the
//! data view runs, how the page is put together, and which statement an
//! edited cell becomes.
use vstd::prelude::*;

use crate::error::{is_validation, DomainError};
use crate::names::{quote_ident_spec, quote_ident_vec};
use crate::schema::{join, join_vecs};
use crate::table_data::{
    cell_value_spec, column_meta_from_pragma, column_meta_spec, metas_view, parse_cell_key_value,
    parse_cell_update_value, pragma_view, CellBindValue, CellP, MetaP, PragmaP, PragmaTableInfoRow,
    TableDataColumnMeta,
};
use crate::numbers::{i64_text, i64_to_text};
use crate::prefs::{
    build_order_by_from_sort, build_where_from_filter, compact_filter_entries, compact_filters_spec,
    filter_filter_entries_to_columns, filter_sort_entries_to_columns, filters_in_columns, filters_view,
    opt_filters_view, opt_sorts_view, opt_widths_view, order_item_spec, prune_column_widths, prune_widths_spec,
    sorts_in_columns, sorts_view, strings_view, where_from_filter_spec, FilterP, SortP, TableFilterEntry,
    TableSortEntry, TableUiMeta,
};
use crate::table_data::{order_columns_from_pragma, order_columns_spec};
use crate::text::{append_vec, chars_of, chars_of_string, seq_eq, string_of, trim, vv};

verus! {

// ---------------------------------------------------------------------------
// Editing one cell
// ---------------------------------------------------------------------------

/// An edit of one cell, sent by the data view: the column, the text typed in
/// (or `null`), and the primary-key values of the row by column name.
#[derive(Debug, Clone)]
pub struct TableCellUpdateRequest {
    pub column: String,
    pub value: String,
    pub null: bool,
    pub keys: Vec<(String, String)>,
}

/// What the data view shows in the cell after an edit.
#[derive(Debug, Clone)]
pub struct TableCellUpdateResult {
    pub value: Option<String>,
}

/// The statement of an edit and the values bound to it: the new value, then
/// one value per primary-key column.
#[derive(Debug, Clone)]
pub struct CellUpdatePlan {
    pub sql: String,
    pub value: CellBindValue,
    pub keys: Vec<CellBindValue>,
}

pub open spec fn keys_view(v: Seq<(String, String)>) -> Seq<(Seq<char>, Seq<char>)> {
    Seq::new(v.len(), |i: int| (v[i].0@, v[i].1@))
}

pub open spec fn cells_view(v: Seq<CellBindValue>) -> Seq<CellP> {
    Seq::new(v.len(), |i: int| v[i]@)
}

/// Index of the first column named `name`, from `i` on.
pub open spec fn meta_index_from(ms: Seq<MetaP>, name: Seq<char>, i: int) -> Option<int>
    decreases ms.len() - i,
{
    if i < 0 || i >= ms.len() {
        None
    } else if ms[i].name == name {
        Some(i)
    } else {
        meta_index_from(ms, name, i + 1)
    }
}

/// The primary-key columns, in table order.
pub open spec fn pk_metas(ms: Seq<MetaP>) -> Seq<MetaP>
    decreases ms.len(),
{
    if ms.len() == 0 {
        seq![]
    } else if ms.last().pk {
        pk_metas(ms.drop_last()).push(ms.last())
    } else {
        pk_metas(ms.drop_last())
    }
}

/// The value sent for key column `name` (the first entry with that name).
pub open spec fn key_lookup_from(keys: Seq<(Seq<char>, Seq<char>)>, name: Seq<char>, i: int) -> Option<
    Seq<char>,
>
    decreases keys.len() - i,
{
    if i < 0 || i >= keys.len() {
        None
    } else if keys[i].0 == name {
        Some(keys[i].1)
    } else {
        key_lookup_from(keys, name, i + 1)
    }
}

/// The first key column, from `i` on, that the request sends no value for.
pub open spec fn missing_key_from(pks: Seq<MetaP>, keys: Seq<(Seq<char>, Seq<char>)>, i: int) -> Option<
    Seq<char>,
>
    decreases pks.len() - i,
{
    if i < 0 || i >= pks.len() {
        None
    } else if key_lookup_from(keys, pks[i].name, 0) is None {
        Some(pks[i].name)
    } else {
        missing_key_from(pks, keys, i + 1)
    }
}

/// The key values, from column `i` on, read as values of their columns' types.
pub open spec fn key_values_from(pks: Seq<MetaP>, keys: Seq<(Seq<char>, Seq<char>)>, i: int) -> Result<
    Seq<CellP>,
    Seq<char>,
>
    decreases pks.len() - i,
{
    if i < 0 || i >= pks.len() {
        Ok(seq![])
    } else {
        let raw = match key_lookup_from(keys, pks[i].name, 0) {
            Some(v) => v,
            None => seq![],
        };
        match cell_value_spec(pks[i].type_key, false, false, raw, pks[i].name) {
            Err(m) => Err(m),
            Ok(c) => match key_values_from(pks, keys, i + 1) {
                Err(m) => Err(m),
                Ok(rest) => Ok(seq![c] + rest),
            },
        }
    }
}

/// `UPDATE "table" SET "column" = ? WHERE "k1" = ? AND "k2" = ?`.
pub open spec fn update_sql_spec(table: Seq<char>, column: Seq<char>, pks: Seq<MetaP>) -> Seq<char> {
    "UPDATE "@ + quote_ident_spec(table) + " SET "@ + quote_ident_spec(column) + " = ? WHERE "@ + join(
        Seq::new(pks.len(), |i: int| quote_ident_spec(pks[i].name) + " = ?"@),
        " AND "@,
    )
}

/// The edit of a cell of table `table` (already checked to be editable), with
/// the table's `PRAGMA table_info` rows: the statement, the new value and the
/// key values, or the first reason the edit is refused.
pub open spec fn cell_update_spec(
    table: Seq<char>,
    column: Seq<char>,
    value: Seq<char>,
    is_null: bool,
    keys: Seq<(Seq<char>, Seq<char>)>,
    rows: Seq<PragmaP>,
) -> Result<(Seq<char>, CellP, Seq<CellP>), Seq<char>> {
    match column_meta_spec(rows) {
        Err(m) => Err(m),
        Ok(ms) => match meta_index_from(ms, column, 0) {
            None => Err("カラム `"@ + column + "` はテーブルに存在しません"@),
            Some(t) => {
                let target = ms[t];
                let pks = pk_metas(ms);
                if target.pk {
                    Err("主キー列は編集できません"@)
                } else if pks.len() == 0 {
                    Err("主キー列が定義されていないテーブルは編集できません"@)
                } else {
                    match missing_key_from(pks, keys, 0) {
                        Some(n) => Err("主キー列 `"@ + n + "` の値が指定されていません"@),
                        None => match cell_value_spec(target.type_key, target.nullable, is_null, value, target.name) {
                            Err(m) => Err(m),
                            Ok(v) => match key_values_from(pks, keys, 0) {
                                Err(m) => Err(m),
                                Ok(kv) => Ok((update_sql_spec(table, target.name, pks), v, kv)),
                            },
                        },
                    }
                }
            },
        },
    }
}

fn message3(a: &str, b: &Vec<char>, c: &str) -> (s: String)
    ensures
        s@ == a@ + b@ + c@,
{
    let mut m = chars_of(a);
    append_vec(&mut m, b);
    let t = chars_of(c);
    append_vec(&mut m, &t);
    string_of(&m)
}

fn key_lookup(keys: &Vec<(String, String)>, name: &Vec<char>) -> (r: Option<Vec<char>>)
    ensures
        match key_lookup_from(keys_view(keys@), name@, 0) {
            None => r is None,
            Some(v) => r matches Some(x) && x@ == v,
        },
{
    let ghost kv = keys_view(keys@);
    let mut i: usize = 0;
    while i < keys.len()
        invariant
            i <= keys.len(),
            kv == keys_view(keys@),
            key_lookup_from(kv, name@, 0) == key_lookup_from(kv, name@, i as int),
        decreases keys.len() - i,
    {
        assert(kv[i as int] == (keys@[i as int].0@, keys@[i as int].1@));
        let k = chars_of_string(&keys[i].0);
        if seq_eq(&k, name) {
            return Some(chars_of_string(&keys[i].1));
        }
        i += 1;
    }
    None
}

fn copy_meta(m: &TableDataColumnMeta) -> (r: TableDataColumnMeta)
    ensures
        r@ == m@,
{
    TableDataColumnMeta { name: m.name.clone(), pk: m.pk, type_key: m.type_key.clone(), nullable: m.nullable }
}

fn find_meta(metas: &Vec<TableDataColumnMeta>, col: &Vec<char>) -> (r: Option<usize>)
    ensures
        match meta_index_from(metas_view(metas@), col@, 0) {
            None => r is None,
            Some(k) => r matches Some(x) && x as int == k && x < metas@.len(),
        },
{
    let ghost ms = metas_view(metas@);
    let mut t: usize = 0;
    while t < metas.len()
        invariant
            t <= metas.len(),
            ms == metas_view(metas@),
            meta_index_from(ms, col@, 0) == meta_index_from(ms, col@, t as int),
        decreases metas.len() - t,
    {
        assert(ms[t as int] == metas@[t as int]@);
        let n = chars_of_string(&metas[t].name);
        if seq_eq(&n, col) {
            return Some(t);
        }
        t += 1;
    }
    None
}

fn pk_columns(metas: &Vec<TableDataColumnMeta>) -> (r: Vec<TableDataColumnMeta>)
    ensures
        metas_view(r@) == pk_metas(metas_view(metas@)),
{
    let ghost ms = metas_view(metas@);
    let mut pks: Vec<TableDataColumnMeta> = Vec::new();
    let mut i: usize = 0;
    assert(ms.take(0) =~= seq![]);
    assert(metas_view(pks@) =~= seq![]);
    while i < metas.len()
        invariant
            i <= metas.len(),
            ms == metas_view(metas@),
            metas_view(pks@) == pk_metas(ms.take(i as int)),
        decreases metas.len() - i,
    {
        assert(ms.take(i + 1).drop_last() =~= ms.take(i as int));
        assert(ms.take(i + 1).last() == metas@[i as int]@);
        if metas[i].pk {
            let m = copy_meta(&metas[i]);
            let ghost old = metas_view(pks@);
            pks.push(m);
            assert(metas_view(pks@) =~= old.push(m@));
        }
        i += 1;
    }
    assert(ms.take(metas@.len() as int) =~= ms);
    pks
}

fn first_missing_key(pks: &Vec<TableDataColumnMeta>, keys: &Vec<(String, String)>) -> (r: Option<Vec<char>>)
    ensures
        match missing_key_from(metas_view(pks@), keys_view(keys@), 0) {
            None => r is None,
            Some(n) => r matches Some(x) && x@ == n,
        },
{
    let ghost pv = metas_view(pks@);
    let ghost kv = keys_view(keys@);
    let mut j: usize = 0;
    while j < pks.len()
        invariant
            j <= pks.len(),
            pv == metas_view(pks@),
            kv == keys_view(keys@),
            missing_key_from(pv, kv, 0) == missing_key_from(pv, kv, j as int),
        decreases pks.len() - j,
    {
        assert(pv[j as int] == pks@[j as int]@);
        let n = chars_of_string(&pks[j].name);
        if key_lookup(keys, &n).is_none() {
            return Some(n);
        }
        j += 1;
    }
    None
}

fn key_values(pks: &Vec<TableDataColumnMeta>, keys: &Vec<(String, String)>) -> (r: Result<
    Vec<CellBindValue>,
    DomainError,
>)
    ensures
        match key_values_from(metas_view(pks@), keys_view(keys@), 0) {
            Ok(kv) => r matches Ok(v) && cells_view(v@) == kv,
            Err(m) => is_validation(r, m),
        },
{
    let ghost pv = metas_view(pks@);
    let ghost kv = keys_view(keys@);
    let mut out: Vec<CellBindValue> = Vec::new();
    let mut x: usize = 0;
    while x < pks.len()
        invariant
            x <= pks.len(),
            pv == metas_view(pks@),
            kv == keys_view(keys@),
            key_values_from(pv, kv, 0) == match key_values_from(pv, kv, x as int) {
                Ok(rest) => Ok::<Seq<CellP>, Seq<char>>(cells_view(out@) + rest),
                Err(m) => Err(m),
            },
        decreases pks.len() - x,
    {
        assert(pv[x as int] == pks@[x as int]@);
        let n = chars_of_string(&pks[x].name);
        let raw = match key_lookup(keys, &n) {
            Some(v) => v,
            None => Vec::new(),
        };
        let rs = string_of(&raw);
        let c = parse_cell_key_value(pks[x].type_key.as_str(), rs.as_str(), pks[x].name.as_str())?;
        let ghost old = cells_view(out@);
        out.push(c);
        proof {
            assert(cells_view(out@) =~= old.push(c@));
            match key_values_from(pv, kv, x + 1) {
                Ok(rest) => {
                    assert(old + (seq![c@] + rest) =~= cells_view(out@) + rest);
                },
                Err(m) => {},
            }
        }
        x += 1;
    }
    assert(cells_view(out@) + seq![] =~= cells_view(out@));
    Ok(out)
}

fn update_sql(table_name: &str, column: &Vec<char>, pks: &Vec<TableDataColumnMeta>) -> (s: String)
    ensures
        s@ == update_sql_spec(table_name@, column@, metas_view(pks@)),
{
    let ghost pv = metas_view(pks@);
    let mut conds: Vec<Vec<char>> = Vec::new();
    let mut k: usize = 0;
    while k < pks.len()
        invariant
            k <= pks.len(),
            pv == metas_view(pks@),
            vv(conds@) =~= Seq::new(k as nat, |x: int| quote_ident_spec(pv[x].name) + " = ?"@),
        decreases pks.len() - k,
    {
        assert(pv[k as int] == pks@[k as int]@);
        let n = chars_of_string(&pks[k].name);
        let mut c = quote_ident_vec(&n);
        let eq = chars_of(" = ?");
        append_vec(&mut c, &eq);
        let ghost old = vv(conds@);
        conds.push(c);
        assert(vv(conds@) =~= old.push(c@));
        k += 1;
    }
    let tv = chars_of(table_name);
    let mut sql = chars_of("UPDATE ");
    append_vec(&mut sql, &quote_ident_vec(&tv));
    let set = chars_of(" SET ");
    append_vec(&mut sql, &set);
    append_vec(&mut sql, &quote_ident_vec(column));
    let wh = chars_of(" = ? WHERE ");
    append_vec(&mut sql, &wh);
    let and = chars_of(" AND ");
    let body = join_vecs(&conds, &and);
    append_vec(&mut sql, &body);
    string_of(&sql)
}

/// The statement and bound values of a cell edit of table `table_name` (a
/// name already checked to be an editable user table), given the table's
/// `PRAGMA table_info` rows.
pub fn plan_cell_update(table_name: &str, request: &TableCellUpdateRequest, pragma_rows: &[PragmaTableInfoRow]) -> (r:
    Result<CellUpdatePlan, DomainError>)
    ensures
        match cell_update_spec(
            table_name@,
            request.column@,
            request.value@,
            request.null,
            keys_view(request.keys@),
            pragma_view(pragma_rows@),
        ) {
            Ok((sql, v, kv)) => r matches Ok(p) && p.sql@ == sql && p.value@ == v && cells_view(p.keys@) == kv,
            Err(m) => is_validation(r, m),
        },
{
    let metas = column_meta_from_pragma(pragma_rows)?;
    let ghost ms = metas_view(metas@);
    let col = chars_of_string(&request.column);
    let t = match find_meta(&metas, &col) {
        None => {
            return Err(DomainError::Validation(message3("カラム `", &col, "` はテーブルに存在しません")));
        },
        Some(t) => t,
    };
    let target = &metas[t];
    assert(ms[t as int] == target@);
    if target.pk {
        return Err(DomainError::Validation(String::from_str("主キー列は編集できません")));
    }
    let pks = pk_columns(&metas);
    if pks.len() == 0 {
        return Err(DomainError::Validation(String::from_str("主キー列が定義されていないテーブルは編集できません")));
    }
    if let Some(n) = first_missing_key(&pks, &request.keys) {
        return Err(DomainError::Validation(message3("主キー列 `", &n, "` の値が指定されていません")));
    }
    let value = parse_cell_update_value(
        target.type_key.as_str(),
        target.nullable,
        request.null,
        request.value.as_str(),
        target.name.as_str(),
    )?;
    let cv = chars_of_string(&target.name);
    let sql = update_sql(table_name, &cv, &pks);
    let keys = key_values(&pks, &request.keys)?;
    Ok(CellUpdatePlan { sql, value, keys })
}

// ---------------------------------------------------------------------------
// A page of rows
// ---------------------------------------------------------------------------

/// Rows fetched per page of the data view.
pub const TABLE_DATA_CHUNK_SIZE: i64 = 1000;

/// A page of the data view. The preferences and the column metadata come
/// with the first page (offset 0) only.
#[derive(Debug, Clone)]
pub struct TableDataView {
    pub columns: Vec<String>,
    pub rows: Vec<Vec<Option<String>>>,
    pub total_count: i64,
    pub offset: i64,
    pub has_more: bool,
    pub column_widths: Option<Vec<(String, i32)>>,
    pub sort: Option<Vec<TableSortEntry>>,
    pub filter: Option<Vec<TableFilterEntry>>,
    pub column_meta: Option<Vec<TableDataColumnMeta>>,
}

/// The query of a page: the table's columns, the sort and filter in effect,
/// the WHERE clause with its bound patterns and the ORDER BY list.
#[derive(Debug, Clone)]
pub struct TableRowsQuery {
    pub columns: Vec<String>,
    pub sort: Vec<TableSortEntry>,
    pub filter: Vec<TableFilterEntry>,
    pub where_clause: String,
    pub where_binds: Vec<String>,
    pub order_by: String,
}

pub open spec fn pragma_names(rows: Seq<PragmaP>) -> Seq<Seq<char>> {
    Seq::new(rows.len(), |i: int| rows[i].name)
}

pub open spec fn opt_slice_sorts(o: Option<&[TableSortEntry]>) -> Option<Seq<SortP>> {
    match o {
        Some(s) => Some(sorts_view(s@)),
        None => None,
    }
}

pub open spec fn opt_slice_filters(o: Option<&[TableFilterEntry]>) -> Option<Seq<FilterP>> {
    match o {
        Some(s) => Some(filters_view(s@)),
        None => None,
    }
}

/// The sort in effect: the request's, else the stored one, keeping the
/// entries on existing columns.
pub open spec fn effective_sort_spec(rows: Seq<PragmaP>, over: Option<Seq<SortP>>, stored: Seq<SortP>) -> Seq<SortP> {
    sorts_in_columns(
        pragma_names(rows),
        match over {
            Some(s) => s,
            None => stored,
        },
    )
}

/// The filter in effect: the request's, else the stored one, without blank
/// entries and keeping the entries on existing columns.
pub open spec fn effective_filter_spec(rows: Seq<PragmaP>, over: Option<Seq<FilterP>>, stored: Seq<FilterP>) -> Seq<
    FilterP,
> {
    filters_in_columns(
        pragma_names(rows),
        compact_filters_spec(
            match over {
                Some(f) => f,
                None => stored,
            },
        ),
    )
}

/// ORDER BY list of a page: the sort in effect, or the table's default order.
pub open spec fn page_order_spec(rows: Seq<PragmaP>, sort: Seq<SortP>) -> Seq<char> {
    if sort.len() == 0 {
        order_columns_spec(rows)
    } else {
        join(Seq::new(sort.len(), |i: int| order_item_spec(sort[i])), ", "@)
    }
}

/// Whether the stored preferences are read: unless the request gives both the
/// sort and the filter.
pub fn needs_stored_ui_meta(sort_override: Option<&[TableSortEntry]>, filter_override: Option<&[TableFilterEntry]>) -> (b:
    bool)
    ensures
        b == (sort_override is None || filter_override is None),
{
    sort_override.is_none() || filter_override.is_none()
}

/// Refuses a negative offset.
pub fn check_rows_offset(offset: i64) -> (r: Result<(), DomainError>)
    ensures
        offset >= 0 ==> r is Ok,
        offset < 0 ==> is_validation(r, "offset は 0 以上で指定してください"@),
{
    if offset < 0 {
        return Err(DomainError::Validation(String::from_str("offset は 0 以上で指定してください")));
    }
    Ok(())
}

fn copy_sorts(v: &[TableSortEntry]) -> (r: Vec<TableSortEntry>)
    ensures
        sorts_view(r@) == sorts_view(v@),
{
    let mut out: Vec<TableSortEntry> = Vec::new();
    let mut i: usize = 0;
    while i < v.len()
        invariant
            i <= v.len(),
            sorts_view(out@) =~= sorts_view(v@).take(i as int),
        decreases v.len() - i,
    {
        let e = TableSortEntry { column: v[i].column.clone(), direction: v[i].direction };
        let ghost old = sorts_view(out@);
        out.push(e);
        assert(sorts_view(v@)[i as int] == v@[i as int]@);
        assert(sorts_view(out@) =~= old.push(e@));
        assert(sorts_view(v@).take(i + 1) =~= sorts_view(v@).take(i as int).push(e@));
        i += 1;
    }
    assert(sorts_view(v@).take(v@.len() as int) =~= sorts_view(v@));
    out
}

/// The query of a page of table rows, from the table's `PRAGMA table_info`
/// rows, the sort and filter the request gives, and the stored preferences
/// (read when the request does not give both).
pub fn plan_table_rows_query(
    pragma_rows: &[PragmaTableInfoRow],
    sort_override: Option<&[TableSortEntry]>,
    filter_override: Option<&[TableFilterEntry]>,
    stored: Option<&TableUiMeta>,
) -> (q: TableRowsQuery)
    ensures
        ({
            let rows = pragma_view(pragma_rows@);
            let stored_sort = match stored {
                Some(m) => opt_sorts_view(m.sort),
                None => seq![],
            };
            let stored_filter = match stored {
                Some(m) => opt_filters_view(m.filter),
                None => seq![],
            };
            let sort = effective_sort_spec(rows, opt_slice_sorts(sort_override), stored_sort);
            let filter = effective_filter_spec(rows, opt_slice_filters(filter_override), stored_filter);
            &&& strings_view(q.columns@) == pragma_names(rows)
            &&& sorts_view(q.sort@) == sort
            &&& filters_view(q.filter@) == filter
            &&& (q.where_clause@, strings_view(q.where_binds@)) == where_from_filter_spec(filter)
            &&& q.order_by@ == page_order_spec(rows, sort)
        }),
{
    let ghost rows = pragma_view(pragma_rows@);
    let mut columns: Vec<String> = Vec::new();
    let mut i: usize = 0;
    while i < pragma_rows.len()
        invariant
            i <= pragma_rows.len(),
            rows == pragma_view(pragma_rows@),
            strings_view(columns@) =~= pragma_names(rows).take(i as int),
        decreases pragma_rows.len() - i,
    {
        let n = pragma_rows[i].name.clone();
        let ghost old = strings_view(columns@);
        columns.push(n);
        assert(rows[i as int] == pragma_rows@[i as int]@);
        assert(strings_view(columns@) =~= old.push(n@));
        assert(pragma_names(rows).take(i + 1) =~= pragma_names(rows).take(i as int).push(n@));
        i += 1;
    }
    assert(pragma_names(rows).take(pragma_rows@.len() as int) =~= pragma_names(rows));
    let base_sort: Vec<TableSortEntry> = match sort_override {
        Some(s) => copy_sorts(s),
        None => match stored {
            Some(m) => match &m.sort {
                Some(s) => copy_sorts(s.as_slice()),
                None => Vec::new(),
            },
            None => Vec::new(),
        },
    };
    let sort = filter_sort_entries_to_columns(columns.as_slice(), base_sort.as_slice());
    let compacted = match filter_override {
        Some(f) => compact_filter_entries(f),
        None => match stored {
            Some(m) => match &m.filter {
                Some(f) => compact_filter_entries(f.as_slice()),
                None => compact_filter_entries(&[]),
            },
            None => compact_filter_entries(&[]),
        },
    };
    proof {
        assert(filters_view(Seq::<TableFilterEntry>::empty()) =~= seq![]);
    }
    let filter = filter_filter_entries_to_columns(columns.as_slice(), compacted.as_slice());
    let (where_clause, where_binds) = match build_where_from_filter(columns.as_slice(), "", filter.as_slice()) {
        Ok(p) => p,
        Err(_) => (String::new(), Vec::new()),
    };
    let order_by = if sort.len() == 0 {
        order_columns_from_pragma(pragma_rows)
    } else {
        match build_order_by_from_sort(columns.as_slice(), "", sort.as_slice()) {
            Ok(s) => s,
            Err(_) => String::new(),
        }
    };
    proof {
        if sort@.len() > 0 {
            assert(Seq::new(sort@.len(), |k: int| order_item_spec(sort@[k]@)) =~= Seq::new(
                sorts_view(sort@).len(),
                |k: int| order_item_spec(sorts_view(sort@)[k]),
            ));
        }
    }
    TableRowsQuery { columns, sort, filter, where_clause, where_binds, order_by }
}

/// `SELECT * FROM "table" [WHERE ...] ORDER BY ... LIMIT n OFFSET m`.
pub open spec fn rows_chunk_sql_spec(
    table: Seq<char>,
    offset: i64,
    limit: i64,
    order_by: Seq<char>,
    where_clause: Seq<char>,
) -> Seq<char> {
    let tail = " ORDER BY "@ + order_by + " LIMIT "@ + i64_text(limit) + " OFFSET "@ + i64_text(offset);
    if where_clause.len() == 0 {
        "SELECT * FROM "@ + quote_ident_spec(table) + tail
    } else {
        "SELECT * FROM "@ + quote_ident_spec(table) + " "@ + where_clause + tail
    }
}

/// The statement that reads one chunk of rows of table `table_name` (a name
/// already checked to be viewable); a negative offset or limit is refused.
pub fn rows_chunk_sql(table_name: &str, offset: i64, limit: i64, order_by: &str, where_clause: &str) -> (r: Result<
    String,
    DomainError,
>)
    ensures
        offset < 0 || limit < 0 ==> is_validation(r, "offset と limit は 0 以上で指定してください"@),
        offset >= 0 && limit >= 0 ==> (r matches Ok(s) && s@ == rows_chunk_sql_spec(
            table_name@,
            offset,
            limit,
            order_by@,
            where_clause@,
        )),
{
    if offset < 0 || limit < 0 {
        return Err(DomainError::Validation(String::from_str("offset と limit は 0 以上で指定してください")));
    }
    let tv = chars_of(table_name);
    let mut s = chars_of("SELECT * FROM ");
    append_vec(&mut s, &quote_ident_vec(&tv));
    let w = chars_of(where_clause);
    if w.len() > 0 {
        let sp = chars_of(" ");
        append_vec(&mut s, &sp);
        append_vec(&mut s, &w);
    }
    let ob = chars_of(" ORDER BY ");
    append_vec(&mut s, &ob);
    let o = chars_of(order_by);
    append_vec(&mut s, &o);
    let lim = chars_of(" LIMIT ");
    append_vec(&mut s, &lim);
    append_vec(&mut s, &i64_to_text(limit));
    let off = chars_of(" OFFSET ");
    append_vec(&mut s, &off);
    append_vec(&mut s, &i64_to_text(offset));
    Ok(string_of(&s))
}

/// Puts a page together from its query, the rows read, the row count under
/// the filter and the stored column widths; the preferences and the column
/// metadata come with the first page only.
pub fn assemble_table_data_view(
    query: TableRowsQuery,
    pragma_rows: &[PragmaTableInfoRow],
    rows: Vec<Vec<Option<String>>>,
    total_count: i64,
    offset: i64,
    stored_widths: Option<Vec<(String, i32)>>,
) -> (r: Result<TableDataView, DomainError>)
    requires
        0 <= offset,
        offset + rows@.len() <= i64::MAX,
    ensures
        offset == 0 && column_meta_spec(pragma_view(pragma_rows@)) is Err ==> is_validation(
            r,
            column_meta_spec(pragma_view(pragma_rows@))->Err_0,
        ),
        offset > 0 || column_meta_spec(pragma_view(pragma_rows@)) is Ok ==> (r matches Ok(v) && {
            &&& v.columns == query.columns
            &&& v.rows == rows
            &&& v.total_count == total_count
            &&& v.offset == offset
            &&& v.has_more == (offset + rows@.len() < total_count)
            &&& offset == 0 ==> opt_widths_view(v.column_widths) == prune_widths_spec(
                strings_view(query.columns@),
                opt_widths_view(stored_widths),
            )
            &&& offset == 0 ==> v.sort == Some(query.sort) && v.filter == Some(query.filter)
            &&& offset == 0 ==> (v.column_meta matches Some(m) && metas_view(m@) == column_meta_spec(
                pragma_view(pragma_rows@),
            )->Ok_0)
            &&& offset > 0 ==> v.column_widths is None && v.sort is None && v.filter is None && v.column_meta is None
        }),
{
    let fetched = rows.len() as i64;
    let has_more = offset + fetched < total_count;
    if offset == 0 {
        let column_meta = column_meta_from_pragma(pragma_rows)?;
        let column_widths = prune_column_widths(query.columns.as_slice(), stored_widths);
        Ok(TableDataView {
            columns: query.columns,
            rows,
            total_count,
            offset,
            has_more,
            column_widths,
            sort: Some(query.sort),
            filter: Some(query.filter),
            column_meta: Some(column_meta),
        })
    } else {
        Ok(TableDataView {
            columns: query.columns,
            rows,
            total_count,
            offset,
            has_more,
            column_widths: None,
            sort: None,
            filter: None,
            column_meta: None,
        })
    }
}

// ---------------------------------------------------------------------------
// Stored preferences apply when the request gives none
// ---------------------------------------------------------------------------

proof fn lemma_filter_member<A>(s: Seq<A>, p: spec_fn(A) -> bool, e: A)
    ensures
        s.filter(p).contains(e) <==> s.contains(e) && p(e),
{
    s.filter_lemma(p);
    if s.filter(p).contains(e) {
        s.lemma_filter_contains_rev(p, e);
        let j = choose|j: int| 0 <= j < s.filter(p).len() && s.filter(p)[j] == e;
        assert(p(s.filter(p)[j]));
    }
    if s.contains(e) && p(e) {
        let i = choose|i: int| 0 <= i < s.len() && s[i] == e;
        assert(s.filter(p).contains(s[i]));
    }
}

/// Without a sort or a filter in the request, the stored one applies: the
/// result is what the same stored entries give when the request passes them,
/// and it holds exactly the stored entries on existing columns (for a
/// filter, those with a non-blank text).
pub proof fn law_stored_preferences_apply(
    rows: Seq<PragmaP>,
    stored_sort: Seq<SortP>,
    stored_filter: Seq<FilterP>,
    other_sort: Seq<SortP>,
    other_filter: Seq<FilterP>,
)
    ensures
        effective_sort_spec(rows, None, stored_sort) == effective_sort_spec(rows, Some(stored_sort), other_sort),
        effective_filter_spec(rows, None, stored_filter) == effective_filter_spec(
            rows,
            Some(stored_filter),
            other_filter,
        ),
        forall|e: SortP|
            effective_sort_spec(rows, None, stored_sort).contains(e) <==> stored_sort.contains(e) && pragma_names(
                rows,
            ).contains(e.column),
        forall|e: FilterP|
            effective_filter_spec(rows, None, stored_filter).contains(e) <==> stored_filter.contains(e) && trim(
                e.text,
            ).len() > 0 && pragma_names(rows).contains(e.column),
{
    let names = pragma_names(rows);
    assert forall|e: SortP| effective_sort_spec(rows, None, stored_sort).contains(e) <==> stored_sort.contains(e)
        && names.contains(e.column) by {
        lemma_filter_member(stored_sort, |x: SortP| names.contains(x.column), e);
    }
    assert forall|e: FilterP| effective_filter_spec(rows, None, stored_filter).contains(e) <==> stored_filter.contains(
        e,
    ) && trim(e.text).len() > 0 && names.contains(e.column) by {
        let compact = compact_filters_spec(stored_filter);
        lemma_filter_member(stored_filter, |x: FilterP| trim(x.text).len() > 0, e);
        lemma_filter_member(compact, |x: FilterP| names.contains(x.column), e);
    }
}

} // verus!
