//! The view builder's state: restoring it from a parsed view definition and
//! generating the `SELECT` statement back from it; checks on view SQL.
use vstd::prelude::*;

use crate::error::{is_validation, DomainError};
use crate::names::{ident_error, quote_ident_spec, quote_ident_vec, validate_identifier_chars};
use crate::schema::{join, join_vecs};
use crate::sql_scan::{
    find_sql_keyword, first_keyword_from, keyword_vec, strip_comments_spec, strip_sql_comments,
};
use crate::sql_view::{
    opt_view, pcols_view, ColumnP, CondP, ListP, ParsedSimpleViewSelect, ParsedViewColumn,
    ParsedViewColumnList, ParsedWhereCondition, SelectP,
};
use crate::text::{
    append_vec, chars_of, chars_of_string, contains_char, contains_exec, contains_seq,
    is_first_occurrence_from, occurs_at, seq_eq, starts_with, starts_with_exec, string_of,
    sub_vec, trim, trim_vec, upper_seq, upper_vec, vv, find_from,
};

verus! {

/// Column information used by the view builder.
#[derive(Debug, Clone)]
pub struct TableColumnUiInfo {
    pub name: String,
    pub type_key: String,
    pub pk: bool,
    pub nullable: bool,
}

/// A column row of the view builder.
#[derive(Debug, Clone)]
pub struct SimpleViewUiColumn {
    pub name: String,
    pub type_key: String,
    pub alias: Option<String>,
    pub expression: Option<String>,
    pub where_condition: Option<String>,
}

/// A WHERE condition on a column that is not in the SELECT list.
#[derive(Debug, Clone, PartialEq, Eq)]
pub struct ExtraWhereCondition {
    pub column: String,
    pub suffix: String,
}

/// The full state of the view builder.
#[derive(Debug, Clone)]
pub struct SimpleViewUiSpec {
    pub base_table: String,
    pub distinct: bool,
    pub columns: Vec<SimpleViewUiColumn>,
    pub extra_where: Vec<ExtraWhereCondition>,
}

/// Result of restoring a view definition into the builder.
#[derive(Debug, Clone)]
pub struct ViewUiSpecResolveResult {
    pub supported: bool,
    pub spec: Option<SimpleViewUiSpec>,
    pub table_columns: Option<Vec<TableColumnUiInfo>>,
}

pub struct TcP {
    pub name: Seq<char>,
    pub type_key: Seq<char>,
}

pub struct UiColP {
    pub name: Seq<char>,
    pub type_key: Seq<char>,
    pub alias: Option<Seq<char>>,
    pub expression: Option<Seq<char>>,
    pub where_condition: Option<Seq<char>>,
}

pub struct UiSpecP {
    pub base_table: Seq<char>,
    pub distinct: bool,
    pub columns: Seq<UiColP>,
    pub extra_where: Seq<CondP>,
}

impl View for TableColumnUiInfo {
    type V = TcP;

    open spec fn view(&self) -> TcP {
        TcP { name: self.name@, type_key: self.type_key@ }
    }
}

impl View for SimpleViewUiColumn {
    type V = UiColP;

    open spec fn view(&self) -> UiColP {
        UiColP {
            name: self.name@,
            type_key: self.type_key@,
            alias: opt_view(self.alias),
            expression: opt_view(self.expression),
            where_condition: opt_view(self.where_condition),
        }
    }
}

impl View for ExtraWhereCondition {
    type V = CondP;

    open spec fn view(&self) -> CondP {
        CondP { column: self.column@, suffix: self.suffix@ }
    }
}

pub open spec fn tcs_view(v: Seq<TableColumnUiInfo>) -> Seq<TcP> {
    Seq::new(v.len(), |i: int| v[i]@)
}

pub open spec fn uicols_view(v: Seq<SimpleViewUiColumn>) -> Seq<UiColP> {
    Seq::new(v.len(), |i: int| v[i]@)
}

pub open spec fn extras_view(v: Seq<ExtraWhereCondition>) -> Seq<CondP> {
    Seq::new(v.len(), |i: int| v[i]@)
}

impl View for SimpleViewUiSpec {
    type V = UiSpecP;

    open spec fn view(&self) -> UiSpecP {
        UiSpecP {
            base_table: self.base_table@,
            distinct: self.distinct,
            columns: uicols_view(self.columns@),
            extra_where: extras_view(self.extra_where@),
        }
    }
}

// ---------------------------------------------------------------------------
// Restoring the builder state
// ---------------------------------------------------------------------------

/// Type of the last table column named `name` (a map built from the list keeps the last).
pub open spec fn type_lookup(tc: Seq<TcP>, name: Seq<char>) -> Option<Seq<char>>
    decreases tc.len(),
{
    if tc.len() == 0 {
        None
    } else if tc.last().name == name {
        Some(tc.last().type_key)
    } else {
        type_lookup(tc.drop_last(), name)
    }
}

/// The builder's rows: every table column for `SELECT *`, else the selected ones.
pub open spec fn ordered_spec(cols: ListP, tc: Seq<TcP>) -> Seq<ColumnP> {
    match cols {
        ListP::All => Seq::new(tc.len(), |i: int| ColumnP { name: tc[i].name, alias: None, expression: None }),
        ListP::Columns(c) => c,
    }
}

/// First condition at or after `k` on column `name` not used yet.
pub open spec fn first_unused(conds: Seq<CondP>, used: Seq<bool>, name: Seq<char>, k: int) -> Option<int>
    decreases conds.len() - k,
{
    if k < 0 || k >= conds.len() {
        None
    } else if !used[k] && conds[k].column == name {
        Some(k)
    } else {
        first_unused(conds, used, name, k + 1)
    }
}

/// Each row from `i` on takes the first unused condition on its column.
pub open spec fn assign_from(cols: Seq<ColumnP>, conds: Seq<CondP>, i: int, used: Seq<bool>) -> (
    Seq<Option<Seq<char>>>,
    Seq<bool>,
)
    decreases cols.len() - i,
{
    if i < 0 || i >= cols.len() {
        (seq![], used)
    } else {
        match first_unused(conds, used, cols[i].name, 0) {
            None => {
                let (r, u) = assign_from(cols, conds, i + 1, used);
                (seq![None] + r, u)
            },
            Some(k) => {
                let (r, u) = assign_from(cols, conds, i + 1, used.update(k, true));
                (seq![Some(conds[k].suffix)] + r, u)
            },
        }
    }
}

/// Conditions among the first `n` that no row took.
pub open spec fn unused_prefix(conds: Seq<CondP>, used: Seq<bool>, n: int) -> Seq<CondP>
    decreases n,
{
    if n <= 0 {
        seq![]
    } else {
        unused_prefix(conds, used, n - 1) + (if used[n - 1] {
            seq![]
        } else {
            seq![conds[n - 1]]
        })
    }
}

/// The builder's state for a parsed view and its base table's columns.
pub open spec fn ui_spec_of(parsed: SelectP, tc: Seq<TcP>) -> UiSpecP {
    let ord = ordered_spec(parsed.columns, tc);
    let conds = parsed.where_conditions;
    let (assigned, used) = assign_from(ord, conds, 0, Seq::new(conds.len(), |k: int| false));
    UiSpecP {
        base_table: parsed.base_table,
        distinct: parsed.distinct,
        columns: Seq::new(
            ord.len(),
            |i: int|
                UiColP {
                    name: ord[i].name,
                    type_key: match type_lookup(tc, ord[i].name) {
                        Some(t) => t,
                        None => "text"@,
                    },
                    alias: ord[i].alias,
                    expression: ord[i].expression,
                    where_condition: assigned[i],
                },
        ),
        extra_where: unused_prefix(conds, used, conds.len() as int),
    }
}

proof fn lemma_assign_len(cols: Seq<ColumnP>, conds: Seq<CondP>, i: int, used: Seq<bool>)
    requires
        0 <= i <= cols.len(),
        used.len() == conds.len(),
    ensures
        assign_from(cols, conds, i, used).0.len() == cols.len() - i,
        assign_from(cols, conds, i, used).1.len() == conds.len(),
    decreases cols.len() - i,
{
    if i < cols.len() {
        match first_unused(conds, used, cols[i].name, 0) {
            None => lemma_assign_len(cols, conds, i + 1, used),
            Some(k) => {
                lemma_first_unused_bounds(conds, used, cols[i].name, 0);
                lemma_assign_len(cols, conds, i + 1, used.update(k, true));
            },
        }
    }
}

proof fn lemma_first_unused_bounds(conds: Seq<CondP>, used: Seq<bool>, name: Seq<char>, k: int)
    requires
        0 <= k,
    ensures
        first_unused(conds, used, name, k) matches Some(x) ==> k <= x < conds.len(),
    decreases conds.len() - k,
{
    if k < conds.len() && !(!used[k] && conds[k].column == name) {
        lemma_first_unused_bounds(conds, used, name, k + 1);
    }
}

fn first_unused_exec(conds: &Vec<ParsedWhereCondition>, used: &Vec<bool>, name: &Vec<char>) -> (r:
    Option<usize>)
    requires
        used@.len() == conds@.len(),
    ensures
        match first_unused(crate::sql_view::conds_view(conds@), used@, name@, 0) {
            None => r is None,
            Some(k) => r matches Some(x) && x as int == k,
        },
        r matches Some(x) ==> x < conds@.len(),
{
    let ghost cv = crate::sql_view::conds_view(conds@);
    let mut k: usize = 0;
    while k < conds.len()
        invariant
            k <= conds.len(),
            used@.len() == conds@.len(),
            cv == crate::sql_view::conds_view(conds@),
            first_unused(cv, used@, name@, 0) == first_unused(cv, used@, name@, k as int),
        decreases conds.len() - k,
    {
        assert(cv[k as int] == conds@[k as int]@);
        let cn = chars_of_string(&conds[k].column);
        if !used[k] && seq_eq(&cn, name) {
            return Some(k);
        }
        k += 1;
    }
    None
}

fn type_lookup_exec(tc: &[TableColumnUiInfo], name: &Vec<char>) -> (r: Vec<char>)
    ensures
        r@ == match type_lookup(tcs_view(tc@), name@) {
            Some(t) => t,
            None => "text"@,
        },
{
    let mut j: usize = tc.len();
    assert(tcs_view(tc@).take(j as int) =~= tcs_view(tc@));
    while j > 0
        invariant
            j <= tc.len(),
            type_lookup(tcs_view(tc@), name@) == type_lookup(tcs_view(tc@).take(j as int), name@),
        decreases j,
    {
        let ghost pre = tcs_view(tc@).take(j as int);
        assert(pre.last() == tc@[j - 1]@);
        let cn = chars_of_string(&tc[j - 1].name);
        if seq_eq(&cn, name) {
            return chars_of_string(&tc[j - 1].type_key);
        }
        assert(pre.drop_last() =~= tcs_view(tc@).take(j - 1));
        j -= 1;
    }
    chars_of("text")
}

fn copy_string_opt(o: &Option<String>) -> (r: Option<String>)
    ensures
        opt_view(r) == opt_view(*o),
{
    match o {
        None => None,
        Some(s) => Some(s.clone()),
    }
}

/// Builds the view builder's state from a parsed view and the columns of its
/// base table; each row takes the first unused WHERE condition on its
/// column and the conditions left over are kept separately.
pub fn build_simple_view_ui_spec(parsed: &ParsedSimpleViewSelect, table_columns: &[TableColumnUiInfo]) -> (r:
    SimpleViewUiSpec)
    ensures
        r@ == ui_spec_of(parsed@, tcs_view(table_columns@)),
{
    let ghost tcv = tcs_view(table_columns@);
    let mut ordered: Vec<ParsedViewColumn> = Vec::new();
    match &parsed.columns {
        ParsedViewColumnList::All => {
            let mut i: usize = 0;
            while i < table_columns.len()
                invariant
                    i <= table_columns.len(),
                    tcv == tcs_view(table_columns@),
                    pcols_view(ordered@) =~= Seq::new(
                        i as nat,
                        |k: int| ColumnP { name: tcv[k].name, alias: None, expression: None },
                    ),
                decreases table_columns.len() - i,
            {
                let c = ParsedViewColumn {
                    name: table_columns[i].name.clone(),
                    alias: None,
                    expression: None,
                };
                assert(tcv[i as int] == table_columns@[i as int]@);
                let ghost old = pcols_view(ordered@);
                ordered.push(c);
                assert(pcols_view(ordered@) =~= old.push(c@));
                i += 1;
            }
        },
        ParsedViewColumnList::Columns(sel) => {
            let mut i: usize = 0;
            while i < sel.len()
                invariant
                    i <= sel.len(),
                    pcols_view(ordered@) =~= pcols_view(sel@).take(i as int),
                decreases sel.len() - i,
            {
                let c = ParsedViewColumn {
                    name: sel[i].name.clone(),
                    alias: copy_string_opt(&sel[i].alias),
                    expression: copy_string_opt(&sel[i].expression),
                };
                assert(pcols_view(sel@)[i as int] == sel@[i as int]@);
                let ghost old = pcols_view(ordered@);
                ordered.push(c);
                assert(pcols_view(ordered@) =~= old.push(c@));
                assert(pcols_view(sel@).take(i + 1) =~= pcols_view(sel@).take(i as int).push(c@));
                i += 1;
            }
            assert(pcols_view(sel@).take(sel@.len() as int) =~= pcols_view(sel@));
        },
    }
    let ghost ord = pcols_view(ordered@);
    assert(ord == ordered_spec(parsed@.columns, tcv));
    let conds = &parsed.where_conditions;
    let ghost cv = crate::sql_view::conds_view(conds@);
    let mut used: Vec<bool> = Vec::new();
    let mut k: usize = 0;
    while k < conds.len()
        invariant
            k <= conds.len(),
            used@ =~= Seq::new(k as nat, |x: int| false),
        decreases conds.len() - k,
    {
        used.push(false);
        k += 1;
    }
    let ghost used0 = used@;
    let mut columns: Vec<SimpleViewUiColumn> = Vec::new();
    let mut i: usize = 0;
    proof {
        lemma_assign_len(ord, cv, 0, used0);
    }
    while i < ordered.len()
        invariant
            i <= ordered.len(),
            ord == pcols_view(ordered@),
            cv == crate::sql_view::conds_view(conds@),
            tcv == tcs_view(table_columns@),
            used@.len() == conds@.len(),
            used0.len() == cv.len(),
            assign_from(ord, cv, 0, used0).0.len() == ord.len(),
            columns@.len() == i,
            assign_from(ord, cv, 0, used0).1 == assign_from(ord, cv, i as int, used@).1,
            assign_from(ord, cv, 0, used0).0 == assign_from(ord, cv, 0, used0).0.take(i as int)
                + assign_from(ord, cv, i as int, used@).0,
            forall|x: int|
                0 <= x < i ==> #[trigger] uicols_view(columns@)[x] == (UiColP {
                    name: ord[x].name,
                    type_key: match type_lookup(tcv, ord[x].name) {
                        Some(t) => t,
                        None => "text"@,
                    },
                    alias: ord[x].alias,
                    expression: ord[x].expression,
                    where_condition: assign_from(ord, cv, 0, used0).0[x],
                }),
        decreases ordered.len() - i,
    {
        let c = &ordered[i];
        assert(ord[i as int] == c@);
        let name_v = chars_of_string(&c.name);
        let t = type_lookup_exec(table_columns, &name_v);
        let ghost used_before = used@;
        proof {
            lemma_assign_len(ord, cv, i as int, used_before);
        }
        let found = first_unused_exec(conds, &used, &name_v);
        let wc = match found {
            None => None,
            Some(k) => {
                used.set(k, true);
                Some(conds[k].suffix.clone())
            },
        };
        proof {
            assert(cv.len() == conds@.len());
            match found {
                None => {
                    assert(opt_view(wc) == assign_from(ord, cv, i as int, used_before).0[0]);
                },
                Some(k) => {
                    assert(cv[k as int] == conds@[k as int]@);
                    assert(used@ == used_before.update(k as int, true));
                    assert(opt_view(wc) == assign_from(ord, cv, i as int, used_before).0[0]);
                },
            }
            let a_i = assign_from(ord, cv, i as int, used_before).0;
            assert(a_i == seq![a_i[0]] + assign_from(ord, cv, i + 1, used@).0);
            let full = assign_from(ord, cv, 0, used0).0;
            assert(full[i as int] == a_i[0]);
            assert(full == full.take(i + 1) + assign_from(ord, cv, i + 1, used@).0);
        }
        let ghost old_cols = uicols_view(columns@);
        let row = SimpleViewUiColumn {
            name: c.name.clone(),
            type_key: string_of(&t),
            alias: copy_string_opt(&c.alias),
            expression: copy_string_opt(&c.expression),
            where_condition: wc,
        };
        columns.push(row);
        assert(uicols_view(columns@) =~= old_cols.push(row@));
        i += 1;
    }
    // leftover conditions
    let ghost used_final = used@;
    assert(used_final == assign_from(ord, cv, 0, used0).1) by {
        assert(assign_from(ord, cv, ordered@.len() as int, used@).1 == used@);
    }
    let mut extra: Vec<ExtraWhereCondition> = Vec::new();
    let mut k2: usize = 0;
    while k2 < conds.len()
        invariant
            k2 <= conds.len(),
            used@ == used_final,
            used@.len() == conds@.len(),
            cv == crate::sql_view::conds_view(conds@),
            extras_view(extra@) == unused_prefix(cv, used_final, k2 as int),
        decreases conds.len() - k2,
    {
        assert(cv[k2 as int] == conds@[k2 as int]@);
        let ghost old = extras_view(extra@);
        if !used[k2] {
            let e = ExtraWhereCondition {
                column: conds[k2].column.clone(),
                suffix: conds[k2].suffix.clone(),
            };
            extra.push(e);
            assert(extras_view(extra@) =~= old.push(e@));
        }
        k2 += 1;
    }
    let r = SimpleViewUiSpec {
        base_table: parsed.base_table.clone(),
        distinct: parsed.distinct,
        columns,
        extra_where: extra,
    };
    proof {
        let full = assign_from(ord, cv, 0, used0).0;
        assert(full.take(ordered@.len() as int) =~= full);
        assert(r@.columns =~= ui_spec_of(parsed@, tcv).columns);
    }
    r
}

/// A source table of the view builder must be one whose data may be viewed.
pub fn check_view_source_table(table_name: &str) -> (r: Result<(), DomainError>)
    ensures
        crate::names::is_viewable_spec(table_name@) ==> r is Ok,
        !crate::names::is_viewable_spec(table_name@) ==> crate::error::is_system_table_err(
            r,
            crate::names::infra_denied_msg(table_name@),
        ),
{
    if !crate::names::is_db_admin_data_viewable(table_name) {
        return Err(DomainError::SystemTable(crate::names::infra_table_denied_message(table_name)));
    }
    Ok(())
}

/// The columns the view builder offers for a table, from its
/// `PRAGMA table_info` rows; a column whose type cannot be told is an error.
pub fn ui_columns_from_pragma(rows: &[crate::table_data::PragmaTableInfoRow]) -> (r: Result<
    Vec<TableColumnUiInfo>,
    DomainError,
>)
    ensures
        match crate::table_data::column_meta_spec(crate::table_data::pragma_view(rows@)) {
            Ok(ms) => r matches Ok(v) && v@.len() == ms.len() && forall|i: int|
                0 <= i < ms.len() ==> {
                    &&& (#[trigger] v@[i]).name@ == ms[i].name
                    &&& v@[i].type_key@ == ms[i].type_key
                    &&& v@[i].pk == ms[i].pk
                    &&& v@[i].nullable == ms[i].nullable
                },
            Err(m) => is_validation(r, m),
        },
{
    let metas = crate::table_data::column_meta_from_pragma(rows)?;
    let ghost mv = crate::table_data::metas_view(metas@);
    let mut out: Vec<TableColumnUiInfo> = Vec::new();
    let mut i: usize = 0;
    while i < metas.len()
        invariant
            i <= metas.len(),
            mv == crate::table_data::metas_view(metas@),
            out@.len() == i,
            forall|k: int|
                0 <= k < i ==> {
                    &&& (#[trigger] out@[k]).name@ == mv[k].name
                    &&& out@[k].type_key@ == mv[k].type_key
                    &&& out@[k].pk == mv[k].pk
                    &&& out@[k].nullable == mv[k].nullable
                },
        decreases metas.len() - i,
    {
        assert(mv[i as int] == metas@[i as int]@);
        out.push(
            TableColumnUiInfo {
                name: metas[i].name.clone(),
                type_key: metas[i].type_key.clone(),
                pk: metas[i].pk,
                nullable: metas[i].nullable,
            },
        );
        i += 1;
    }
    Ok(out)
}

/// The first step of restoring the view builder from a definition.
#[derive(Debug, Clone)]
pub enum ViewUiSpecStart {
    /// No definition yet: the builder starts empty.
    Empty,
    /// The definition is not a simple SELECT the builder can show.
    Unsupported,
    /// The definition, parsed; its base table's columns are needed next.
    Parsed(ParsedSimpleViewSelect),
}

/// Reads a view definition for the view builder.
pub fn start_view_ui_spec(definition: &str) -> (r: ViewUiSpecStart)
    ensures
        trim(definition@).len() == 0 ==> r is Empty,
        trim(definition@).len() > 0 ==> match crate::sql_view::parse_view_spec(trim(definition@)) {
            None => r is Unsupported,
            Some(p) => r matches ViewUiSpecStart::Parsed(x) && x@ == p,
        },
{
    let d = chars_of(definition);
    let t = trim_vec(&d);
    if t.len() == 0 {
        return ViewUiSpecStart::Empty;
    }
    let ts = string_of(&t);
    match crate::sql_view::parse_simple_view_select(ts.as_str()) {
        None => ViewUiSpecStart::Unsupported,
        Some(p) => ViewUiSpecStart::Parsed(p),
    }
}

/// The builder's answer for an empty or unsupported definition.
pub fn view_ui_spec_without_builder(supported: bool) -> (r: ViewUiSpecResolveResult)
    ensures
        r.supported == supported,
        r.spec is None,
        r.table_columns is None,
{
    ViewUiSpecResolveResult { supported, spec: None, table_columns: None }
}

/// The builder's answer for a parsed definition, given the columns of its
/// base table (`None` when they could not be read).
pub fn finish_view_ui_spec(parsed: &ParsedSimpleViewSelect, table_columns: Option<Vec<TableColumnUiInfo>>) -> (r:
    ViewUiSpecResolveResult)
    ensures
        table_columns is None ==> !r.supported && r.spec is None && r.table_columns is None,
        table_columns matches Some(tc) ==> r.supported && r.table_columns == Some(tc) && (r.spec matches Some(
            s,
        ) && s@ == ui_spec_of(parsed@, tcs_view(tc@))),
{
    match table_columns {
        None => view_ui_spec_without_builder(false),
        Some(tc) => {
            let spec = build_simple_view_ui_spec(parsed, tc.as_slice());
            view_ui_spec_resolve_success(spec, tc)
        },
    }
}

/// A successful restore.
pub fn view_ui_spec_resolve_success(spec: SimpleViewUiSpec, table_columns: Vec<TableColumnUiInfo>) -> (r:
    ViewUiSpecResolveResult)
    ensures
        r.supported,
        r.spec == Some(spec),
        r.table_columns == Some(table_columns),
{
    ViewUiSpecResolveResult { supported: true, spec: Some(spec), table_columns: Some(table_columns) }
}

// ---------------------------------------------------------------------------
// Checks on SQL fragments
// ---------------------------------------------------------------------------

/// Statement keywords a view definition or expression may not contain.
pub open spec fn forbidden_keyword_spec(sql: Seq<char>) -> bool {
    ||| first_keyword_from(sql, "ATTACH"@, 0) is Some
    ||| first_keyword_from(sql, "ALTER"@, 0) is Some
    ||| first_keyword_from(sql, "CREATE"@, 0) is Some
    ||| first_keyword_from(sql, "DELETE"@, 0) is Some
    ||| first_keyword_from(sql, "DETACH"@, 0) is Some
    ||| first_keyword_from(sql, "DROP"@, 0) is Some
    ||| first_keyword_from(sql, "INSERT"@, 0) is Some
    ||| first_keyword_from(sql, "PRAGMA"@, 0) is Some
    ||| first_keyword_from(sql, "UPDATE"@, 0) is Some
}

fn has_kw(s: &Vec<char>, kw: &str) -> (b: bool)
    ensures
        b == (first_keyword_from(s@, kw@, 0) is Some),
{
    let k = keyword_vec(kw);
    find_sql_keyword(s, &k, 0).is_some()
}

/// Some whole word of `sql` is a data-changing or schema statement keyword
/// (ASCII case ignored).
pub fn contains_forbidden_keyword(sql: &Vec<char>) -> (b: bool)
    ensures
        b == forbidden_keyword_spec(sql@),
{
    has_kw(sql, "ATTACH") || has_kw(sql, "ALTER") || has_kw(sql, "CREATE") || has_kw(sql, "DELETE")
        || has_kw(sql, "DETACH") || has_kw(sql, "DROP") || has_kw(sql, "INSERT") || has_kw(
        sql,
        "PRAGMA",
    ) || has_kw(sql, "UPDATE")
}

/// Why an SQL fragment is refused, if it is.
pub open spec fn ddl_fragment_error(frag: Seq<char>, label: Seq<char>) -> Option<Seq<char>> {
    if frag.contains(';') {
        Some(label + "にセミコロンは使用できません"@)
    } else if forbidden_keyword_spec(strip_comments_spec(frag)) {
        Some(label + "に使用できない SQL キーワードが含まれています"@)
    } else {
        None
    }
}

/// Refuses fragments with `;` or, outside comments, a statement keyword.
pub fn validate_ddl_fragment(fragment: &Vec<char>, label: &str) -> (r: Result<(), DomainError>)
    ensures
        match ddl_fragment_error(fragment@, label@) {
            None => r is Ok,
            Some(m) => is_validation(r, m),
        },
{
    if contains_char(fragment, ';') {
        let mut m = String::from_str(label);
        m.append("にセミコロンは使用できません");
        return Err(DomainError::Validation(m));
    }
    let stripped = strip_sql_comments(fragment);
    if contains_forbidden_keyword(&stripped) {
        let mut m = String::from_str(label);
        m.append("に使用できない SQL キーワードが含まれています");
        return Err(DomainError::Validation(m));
    }
    Ok(())
}

/// Why a view definition is refused, if it is (on the trimmed definition).
pub open spec fn view_definition_error(d: Seq<char>) -> Option<Seq<char>> {
    if d.len() == 0 {
        Some("SELECT 文は必須です"@)
    } else if !starts_with(upper_seq(trim(strip_comments_spec(d))), "SELECT"@) {
        Some("ビュー定義は SELECT で始めてください"@)
    } else {
        ddl_fragment_error(d, "SELECT 文"@)
    }
}

/// Validates a view definition: a single `SELECT` (comments allowed before
/// it) without `;` or statement keywords; returns it trimmed.
pub fn validate_view_definition(definition: &str) -> (r: Result<String, DomainError>)
    ensures
        match view_definition_error(trim(definition@)) {
            None => r matches Ok(s) && s@ == trim(definition@),
            Some(m) => is_validation(r, m),
        },
{
    let dv = chars_of(definition);
    let d = trim_vec(&dv);
    if d.len() == 0 {
        return Err(DomainError::Validation(String::from_str("SELECT 文は必須です")));
    }
    let stripped = strip_sql_comments(&d);
    let w = trim_vec(&stripped);
    let up = upper_vec(&w);
    let sel = chars_of("SELECT");
    if !starts_with_exec(&up, &sel) {
        return Err(DomainError::Validation(String::from_str("ビュー定義は SELECT で始めてください")));
    }
    match validate_ddl_fragment(&d, "SELECT 文") {
        Err(e) => return Err(e),
        Ok(()) => {},
    }
    Ok(string_of(&d))
}

/// `CREATE VIEW "name" AS definition`.
pub open spec fn create_view_ddl_spec(name: Seq<char>, definition: Seq<char>) -> Seq<char> {
    "CREATE VIEW "@ + quote_ident_spec(name) + " AS "@ + definition
}

pub fn create_view_ddl(name: &str, definition: &str) -> (s: String)
    ensures
        s@ == create_view_ddl_spec(name@, definition@),
{
    let nv = chars_of(name);
    let q = string_of(&quote_ident_vec(&nv));
    let mut s = String::from_str("CREATE VIEW ");
    s.append(q.as_str());
    s.append(" AS ");
    s.append(definition);
    s
}

/// The definition after the first ` AS ` (ASCII case ignored), trimmed.
pub open spec fn view_select_of(sql: Seq<char>, r: Result<Seq<char>, ()>) -> bool {
    let up = upper_seq(sql);
    match r {
        Ok(d) => exists|p: int|
            is_first_occurrence_from(up, " AS "@, 0, p) && d == trim(sql.subrange(p + 4, sql.len() as int))
                && d.len() > 0,
        Err(_) => forall|p: int|
            is_first_occurrence_from(up, " AS "@, 0, p) ==> trim(sql.subrange(p + 4, sql.len() as int)).len()
                == 0,
    }
}

/// The definition after the first ` AS ` (ASCII case ignored), trimmed, when
/// there is one and it is not empty.
pub open spec fn view_select_spec(sql: Seq<char>) -> Option<Seq<char>> {
    match crate::text::first_occurrence_from(upper_seq(sql), " AS "@, 0) {
        None => None,
        Some(p) => {
            let d = trim(sql.subrange(p + 4, sql.len() as int));
            if d.len() > 0 {
                Some(d)
            } else {
                None
            }
        },
    }
}

/// The SELECT part of a stored `CREATE VIEW` statement.
pub fn extract_view_select_from_create_sql(sql: &str) -> (r: Result<String, DomainError>)
    ensures
        view_select_of(
            sql@,
            match r {
                Ok(s) => Ok(s@),
                Err(_) => Err(()),
            },
        ),
        r is Err ==> r matches Err(DomainError::NotFound),
        match view_select_spec(sql@) {
            Some(d) => r matches Ok(x) && x@ == d,
            None => r matches Err(DomainError::NotFound),
        },
{
    proof {
        crate::text::lemma_first_occurrence_from(upper_seq(sql@), " AS "@, 0);
    }
    let sv = chars_of(sql);
    let up = upper_vec(&sv);
    let marker = chars_of(" AS ");
    proof {
        reveal_strlit(" AS ");
    }
    let found = find_from(&up, &marker, 0);
    match found {
        None => {
            assert forall|p: int| is_first_occurrence_from(up@, " AS "@, 0, p) implies trim(
                sql@.subrange(p + 4, sql@.len() as int),
            ).len() == 0 by {
                assert(!occurs_at(up@, marker@, p));
            }
            Err(DomainError::NotFound)
        },
        Some(pos) => {
            let n = sv.len();
            assert(occurs_at(up@, marker@, pos as int));
            let tail = sub_vec(&sv, pos + 4, n);
            let d = trim_vec(&tail);
            proof {
                assert forall|p: int| is_first_occurrence_from(up@, " AS "@, 0, p) implies p
                    == pos by {
                    if p < pos {
                        assert(!occurs_at(up@, marker@, p));
                    } else if p > pos {
                        assert(!occurs_at(up@, marker@, pos as int));
                    }
                }
            }
            if d.len() == 0 {
                return Err(DomainError::NotFound);
            }
            Ok(string_of(&d))
        },
    }
}

// ---------------------------------------------------------------------------
// Generating SQL from the builder state
// ---------------------------------------------------------------------------

/// The trimmed text when it is not blank.
pub open spec fn nonblank(o: Option<Seq<char>>) -> Option<Seq<char>> {
    match o {
        Some(v) => if trim(v).len() > 0 {
            Some(trim(v))
        } else {
            None
        },
        None => None,
    }
}

/// Name of a builder row in the view's output.
pub open spec fn effective_name_spec(c: UiColP) -> Seq<char> {
    match nonblank(c.alias) {
        Some(a) => a,
        None => match nonblank(c.expression) {
            Some(e) => e,
            None => c.name,
        },
    }
}

/// SELECT list entry of a builder row.
pub open spec fn format_column_spec(c: UiColP) -> Seq<char> {
    let sel = match nonblank(c.expression) {
        Some(e) => e,
        None => quote_ident_spec(c.name),
    };
    match nonblank(c.alias) {
        Some(a) => sel + " AS "@ + quote_ident_spec(a),
        None => sel,
    }
}

pub open spec fn dup_output_msg() -> Seq<char> {
    "出力列名が重複しています。別名で区別してください"@
}

/// First problem with the output columns from row `i` on, given the names already used.
pub open spec fn output_check_from(cols: Seq<UiColP>, i: int, seen: Seq<Seq<char>>) -> Option<Seq<char>>
    decreases cols.len() - i,
{
    if i < 0 || i >= cols.len() {
        None
    } else {
        let c = cols[i];
        let alias_err = match nonblank(c.alias) {
            Some(a) => ident_error(trim(a), "別名"@),
            None => None,
        };
        let expr_err = match nonblank(c.expression) {
            Some(e) => ddl_fragment_error(e, "式"@),
            None => None,
        };
        if alias_err is Some {
            alias_err
        } else if expr_err is Some {
            expr_err
        } else if seen.contains(effective_name_spec(c)) {
            Some(dup_output_msg())
        } else {
            output_check_from(cols, i + 1, seen.push(effective_name_spec(c)))
        }
    }
}

/// WHERE parts from the rows (rows with an expression contribute none).
pub open spec fn row_where_parts(cols: Seq<UiColP>) -> Seq<Seq<char>>
    decreases cols.len(),
{
    if cols.len() == 0 {
        seq![]
    } else {
        let c = cols.last();
        row_where_parts(cols.drop_last()) + (if c.expression is None && nonblank(
            c.where_condition,
        ) is Some {
            seq![quote_ident_spec(c.name) + " "@ + nonblank(c.where_condition)->Some_0]
        } else {
            seq![]
        })
    }
}

/// WHERE parts from the extra conditions.
pub open spec fn extra_where_parts(extra: Seq<CondP>) -> Seq<Seq<char>>
    decreases extra.len(),
{
    if extra.len() == 0 {
        seq![]
    } else {
        let c = extra.last();
        extra_where_parts(extra.drop_last()) + (if trim(c.suffix).len() > 0 {
            seq![quote_ident_spec(c.column) + " "@ + trim(c.suffix)]
        } else {
            seq![]
        })
    }
}

pub open spec fn where_clause_spec(cols: Seq<UiColP>, extra: Seq<CondP>) -> Seq<char> {
    let parts = row_where_parts(cols) + extra_where_parts(extra);
    if parts.len() == 0 {
        seq![]
    } else {
        " WHERE "@ + join(parts, " AND "@)
    }
}

/// The SELECT statement for a builder state, or why it cannot be built.
pub open spec fn select_sql_spec(spec: UiSpecP) -> Result<Seq<char>, Seq<char>> {
    if spec.columns.len() == 0 {
        Err("ビューに含めるカラムを1つ以上選択してください"@)
    } else {
        match output_check_from(spec.columns, 0, seq![]) {
            Some(m) => Err(m),
            None => Ok(
                "SELECT "@ + (if spec.distinct {
                    "DISTINCT "@
                } else {
                    seq![]
                }) + join(
                    Seq::new(spec.columns.len(), |i: int| format_column_spec(spec.columns[i])),
                    ", "@,
                ) + " FROM "@ + quote_ident_spec(spec.base_table) + where_clause_spec(
                    spec.columns,
                    spec.extra_where,
                ),
            ),
        }
    }
}

fn nonblank_exec(o: &Option<String>) -> (r: Option<Vec<char>>)
    ensures
        crate::sql_view::vopt(r) == nonblank(opt_view(*o)),
{
    match o {
        None => None,
        Some(s) => {
            let v = chars_of_string(s);
            let t = trim_vec(&v);
            if t.len() > 0 {
                Some(t)
            } else {
                None
            }
        },
    }
}

fn effective_view_column_name(c: &SimpleViewUiColumn) -> (r: Vec<char>)
    ensures
        r@ == effective_name_spec(c@),
{
    match nonblank_exec(&c.alias) {
        Some(a) => a,
        None => match nonblank_exec(&c.expression) {
            Some(e) => e,
            None => chars_of_string(&c.name),
        },
    }
}

fn format_simple_view_select_column(c: &SimpleViewUiColumn) -> (r: Vec<char>)
    ensures
        r@ == format_column_spec(c@),
{
    let mut sel = match nonblank_exec(&c.expression) {
        Some(e) => e,
        None => {
            let n = chars_of_string(&c.name);
            quote_ident_vec(&n)
        },
    };
    match nonblank_exec(&c.alias) {
        Some(a) => {
            let as_kw = chars_of(" AS ");
            append_vec(&mut sel, &as_kw);
            let q = quote_ident_vec(&a);
            append_vec(&mut sel, &q);
            sel
        },
        None => sel,
    }
}

fn seen_has(seen: &Vec<Vec<char>>, n: &Vec<char>) -> (r: bool)
    ensures
        r == vv(seen@).contains(n@),
{
    let mut i: usize = 0;
    while i < seen.len()
        invariant
            i <= seen.len(),
            forall|k: int| 0 <= k < i ==> vv(seen@)[k] != n@,
        decreases seen.len() - i,
    {
        if seq_eq(&seen[i], n) {
            assert(vv(seen@)[i as int] == n@);
            return true;
        }
        i += 1;
    }
    false
}

fn validate_view_output_column_names(columns: &Vec<SimpleViewUiColumn>) -> (r: Result<(), DomainError>)
    ensures
        match output_check_from(uicols_view(columns@), 0, seq![]) {
            None => r is Ok,
            Some(m) => is_validation(r, m),
        },
{
    let ghost cv = uicols_view(columns@);
    let mut seen: Vec<Vec<char>> = Vec::new();
    let mut i: usize = 0;
    assert(vv(seen@) =~= seq![]);
    while i < columns.len()
        invariant
            i <= columns.len(),
            cv == uicols_view(columns@),
            output_check_from(cv, 0, seq![]) == output_check_from(cv, i as int, vv(seen@)),
        decreases columns.len() - i,
    {
        let c = &columns[i];
        assert(cv[i as int] == c@);
        match nonblank_exec(&c.alias) {
            Some(a) => {
                let t = trim_vec(&a);
                match validate_identifier_chars(&t, "別名") {
                    Err(e) => return Err(e),
                    Ok(()) => {},
                }
            },
            None => {},
        }
        match nonblank_exec(&c.expression) {
            Some(e) => {
                match validate_ddl_fragment(&e, "式") {
                    Err(err) => return Err(err),
                    Ok(()) => {},
                }
            },
            None => {},
        }
        let n = effective_view_column_name(c);
        if seen_has(&seen, &n) {
            return Err(
                DomainError::Validation(String::from_str("出力列名が重複しています。別名で区別してください")),
            );
        }
        let ghost old = vv(seen@);
        seen.push(n);
        assert(vv(seen@) =~= old.push(n@));
        i += 1;
    }
    Ok(())
}

fn build_simple_view_where_clause(columns: &Vec<SimpleViewUiColumn>, extra: &Vec<ExtraWhereCondition>) -> (r:
    Vec<char>)
    ensures
        r@ == where_clause_spec(uicols_view(columns@), extras_view(extra@)),
{
    let ghost cv = uicols_view(columns@);
    let ghost ev = extras_view(extra@);
    let mut parts: Vec<Vec<char>> = Vec::new();
    let mut i: usize = 0;
    assert(vv(parts@) =~= row_where_parts(cv.take(0)));
    while i < columns.len()
        invariant
            i <= columns.len(),
            cv == uicols_view(columns@),
            vv(parts@) == row_where_parts(cv.take(i as int)),
        decreases columns.len() - i,
    {
        let c = &columns[i];
        assert(cv.take(i + 1).drop_last() =~= cv.take(i as int));
        assert(cv.take(i + 1).last() == c@);
        let ghost old = vv(parts@);
        if c.expression.is_none() {
            match nonblank_exec(&c.where_condition) {
                Some(w) => {
                    let nv = chars_of_string(&c.name);
                    let mut p = quote_ident_vec(&nv);
                    p.push(' ');
                    append_vec(&mut p, &w);
                    assert(p@ =~= quote_ident_spec(c@.name) + " "@ + w@) by {
                        reveal_strlit(" ");
                    }
                    parts.push(p);
                    assert(vv(parts@) =~= old.push(p@));
                },
                None => {},
            }
        }
        i += 1;
    }
    assert(cv.take(columns@.len() as int) =~= cv);
    let ghost row_parts = vv(parts@);
    let mut j: usize = 0;
    assert(vv(parts@) =~= row_parts + extra_where_parts(ev.take(0)));
    while j < extra.len()
        invariant
            j <= extra.len(),
            ev == extras_view(extra@),
            row_parts == row_where_parts(cv),
            vv(parts@) == row_parts + extra_where_parts(ev.take(j as int)),
        decreases extra.len() - j,
    {
        let c = &extra[j];
        assert(ev.take(j + 1).drop_last() =~= ev.take(j as int));
        assert(ev.take(j + 1).last() == c@);
        let sv = chars_of_string(&c.suffix);
        let suffix = trim_vec(&sv);
        let ghost old = vv(parts@);
        if suffix.len() > 0 {
            let nv = chars_of_string(&c.column);
            let mut p = quote_ident_vec(&nv);
            p.push(' ');
            append_vec(&mut p, &suffix);
            assert(p@ =~= quote_ident_spec(c@.column) + " "@ + suffix@) by {
                reveal_strlit(" ");
            }
            parts.push(p);
            assert(vv(parts@) =~= old.push(p@));
        }
        j += 1;
    }
    assert(ev.take(extra@.len() as int) =~= ev);
    if parts.len() == 0 {
        return Vec::new();
    }
    let mut r = chars_of(" WHERE ");
    let sep = chars_of(" AND ");
    let body = join_vecs(&parts, &sep);
    append_vec(&mut r, &body);
    r
}

/// Generates the SELECT statement for the builder's state.
pub fn build_simple_view_select(spec: &SimpleViewUiSpec) -> (r: Result<String, DomainError>)
    ensures
        match select_sql_spec(spec@) {
            Ok(s) => r matches Ok(v) && v@ == s,
            Err(m) => is_validation(r, m),
        },
{
    if spec.columns.len() == 0 {
        return Err(
            DomainError::Validation(String::from_str("ビューに含めるカラムを1つ以上選択してください")),
        );
    }
    match validate_view_output_column_names(&spec.columns) {
        Err(e) => return Err(e),
        Ok(()) => {},
    }
    let ghost cv = uicols_view(spec.columns@);
    let mut items: Vec<Vec<char>> = Vec::new();
    let mut i: usize = 0;
    while i < spec.columns.len()
        invariant
            i <= spec.columns.len(),
            cv == uicols_view(spec.columns@),
            vv(items@) =~= Seq::new(i as nat, |k: int| format_column_spec(cv[k])),
        decreases spec.columns.len() - i,
    {
        assert(cv[i as int] == spec.columns@[i as int]@);
        let f = format_simple_view_select_column(&spec.columns[i]);
        let ghost old = vv(items@);
        items.push(f);
        assert(vv(items@) =~= old.push(f@));
        i += 1;
    }
    let sep = chars_of(", ");
    let column_sql = join_vecs(&items, &sep);
    let mut out = chars_of("SELECT ");
    if spec.distinct {
        let d = chars_of("DISTINCT ");
        append_vec(&mut out, &d);
    }
    append_vec(&mut out, &column_sql);
    let from_kw = chars_of(" FROM ");
    append_vec(&mut out, &from_kw);
    let bv = chars_of_string(&spec.base_table);
    let qb = quote_ident_vec(&bv);
    append_vec(&mut out, &qb);
    let w = build_simple_view_where_clause(&spec.columns, &spec.extra_where);
    append_vec(&mut out, &w);
    proof {
        if !spec.distinct {
            assert("SELECT "@ + seq![] =~= "SELECT "@);
        }
    }
    Ok(string_of(&out))
}

// ---------------------------------------------------------------------------
// No WHERE condition is lost or made up when the builder state is restored
// ---------------------------------------------------------------------------

/// The conditions that the rows `r` (for columns `cols` from `i` on) took.
pub open spec fn taken_conds(cols: Seq<ColumnP>, r: Seq<Option<Seq<char>>>, i: int) -> Seq<CondP>
    decreases r.len(),
{
    if r.len() == 0 {
        seq![]
    } else {
        (match r[0] {
            Some(w) => seq![CondP { column: cols[i].name, suffix: w }],
            None => seq![],
        }) + taken_conds(cols, r.drop_first(), i + 1)
    }
}

/// The conditions that the builder's rows carry, each on its row's column.
pub open spec fn row_conds(cols: Seq<UiColP>) -> Seq<CondP>
    decreases cols.len(),
{
    if cols.len() == 0 {
        seq![]
    } else {
        (match cols[0].where_condition {
            Some(w) => seq![CondP { column: cols[0].name, suffix: w }],
            None => seq![],
        }) + row_conds(cols.drop_first())
    }
}

proof fn lemma_first_unused(conds: Seq<CondP>, used: Seq<bool>, name: Seq<char>, k: int)
    requires
        0 <= k,
        used.len() == conds.len(),
    ensures
        first_unused(conds, used, name, k) matches Some(j) ==> k <= j < conds.len() && !used[j]
            && conds[j].column == name,
    decreases conds.len() - k,
{
    if k < conds.len() && !(!used[k] && conds[k].column == name) {
        lemma_first_unused(conds, used, name, k + 1);
    }
}

proof fn lemma_unused_agree(conds: Seq<CondP>, u1: Seq<bool>, u2: Seq<bool>, n: int)
    requires
        0 <= n <= u1.len(),
        n <= u2.len(),
        forall|j: int| 0 <= j < n ==> u1[j] == u2[j],
    ensures
        unused_prefix(conds, u1, n) == unused_prefix(conds, u2, n),
    decreases n,
{
    if n > 0 {
        lemma_unused_agree(conds, u1, u2, n - 1);
    }
}

proof fn lemma_unused_take(conds: Seq<CondP>, used: Seq<bool>, k: int, n: int)
    requires
        0 <= k < n <= conds.len(),
        used.len() == conds.len(),
        !used[k],
    ensures
        unused_prefix(conds, used, n).to_multiset() == unused_prefix(conds, used.update(k, true), n).to_multiset().insert(
            conds[k],
        ),
    decreases n,
{
    broadcast use vstd::seq_lib::group_to_multiset_ensures;

    let upd = used.update(k, true);
    if n - 1 == k {
        lemma_unused_agree(conds, used, upd, n - 1);
        assert(unused_prefix(conds, used, n) == unused_prefix(conds, used, n - 1).push(conds[k]));
        assert(unused_prefix(conds, upd, n) =~= unused_prefix(conds, upd, n - 1));
    } else {
        lemma_unused_take(conds, used, k, n - 1);
        let tail: Seq<CondP> = if used[n - 1] {
            seq![]
        } else {
            seq![conds[n - 1]]
        };
        assert(upd[n - 1] == used[n - 1]);
        if used[n - 1] {
            assert(unused_prefix(conds, used, n) =~= unused_prefix(conds, used, n - 1));
            assert(unused_prefix(conds, upd, n) =~= unused_prefix(conds, upd, n - 1));
        } else {
            assert(unused_prefix(conds, used, n) =~= unused_prefix(conds, used, n - 1).push(conds[n - 1]));
            assert(unused_prefix(conds, upd, n) =~= unused_prefix(conds, upd, n - 1).push(conds[n - 1]));
        }
    }
}

proof fn lemma_assign_conserves(cols: Seq<ColumnP>, conds: Seq<CondP>, i: int, used: Seq<bool>)
    requires
        0 <= i <= cols.len(),
        used.len() == conds.len(),
    ensures
        assign_from(cols, conds, i, used).1.len() == conds.len(),
        assign_from(cols, conds, i, used).0.len() == cols.len() - i,
        taken_conds(cols, assign_from(cols, conds, i, used).0, i).to_multiset().add(
            unused_prefix(conds, assign_from(cols, conds, i, used).1, conds.len() as int).to_multiset(),
        ) == unused_prefix(conds, used, conds.len() as int).to_multiset(),
    decreases cols.len() - i,
{
    broadcast use vstd::seq_lib::group_to_multiset_ensures, vstd::seq_lib::lemma_multiset_commutative;

    let n = conds.len() as int;
    if i == cols.len() {
        assert(taken_conds(cols, seq![], i) =~= Seq::<CondP>::empty());
        assert(Seq::<CondP>::empty().to_multiset() =~= vstd::multiset::Multiset::empty());
        assert(vstd::multiset::Multiset::<CondP>::empty().add(unused_prefix(conds, used, n).to_multiset())
            =~= unused_prefix(conds, used, n).to_multiset());
    } else {
        lemma_first_unused(conds, used, cols[i].name, 0);
        match first_unused(conds, used, cols[i].name, 0) {
            None => {
                lemma_assign_conserves(cols, conds, i + 1, used);
                let (r, u) = assign_from(cols, conds, i + 1, used);
                let full = seq![None] + r;
                assert(full.drop_first() =~= r);
                assert(taken_conds(cols, full, i) =~= Seq::<CondP>::empty() + taken_conds(cols, r, i + 1));
            },
            Some(k) => {
                let upd = used.update(k, true);
                lemma_assign_conserves(cols, conds, i + 1, upd);
                lemma_unused_take(conds, used, k, n);
                let (r, u) = assign_from(cols, conds, i + 1, upd);
                let full = seq![Some(conds[k].suffix)] + r;
                assert(full.drop_first() =~= r);
                let c = CondP { column: cols[i].name, suffix: conds[k].suffix };
                assert(c == conds[k]);
                assert(taken_conds(cols, full, i) == seq![c] + taken_conds(cols, r, i + 1));
                let t = taken_conds(cols, r, i + 1).to_multiset();
                let un = unused_prefix(conds, u, n).to_multiset();
                assert(seq![c].to_multiset() =~= vstd::multiset::Multiset::empty().insert(c)) by {
                    assert(seq![c] =~= Seq::<CondP>::empty().push(c));
                }
                assert((seq![c] + taken_conds(cols, r, i + 1)).to_multiset() =~= vstd::multiset::Multiset::empty().insert(
                    c,
                ).add(t));
                assert(vstd::multiset::Multiset::empty().insert(c).add(t).add(un) =~= t.add(un).insert(c));
            },
        }
    }
}

proof fn lemma_row_conds(spec: Seq<UiColP>, ord: Seq<ColumnP>, assigned: Seq<Option<Seq<char>>>, i: int)
    requires
        0 <= i <= spec.len(),
        spec.len() == ord.len(),
        assigned.len() == ord.len() - i,
        forall|j: int| i <= j < spec.len() ==> #[trigger] spec[j].name == ord[j].name && spec[j].where_condition
            == assigned[j - i],
    ensures
        row_conds(spec.skip(i)) == taken_conds(ord, assigned, i),
    decreases spec.len() - i,
{
    if i < spec.len() {
        assert forall|j: int| i + 1 <= j < spec.len() implies #[trigger] spec[j].name == ord[j].name
            && spec[j].where_condition == assigned.drop_first()[j - (i + 1)] by {
            assert(assigned.drop_first()[j - (i + 1)] == assigned[j - i]);
        }
        lemma_row_conds(spec, ord, assigned.drop_first(), i + 1);
        assert(spec.skip(i).drop_first() =~= spec.skip(i + 1));
        assert(spec.skip(i)[0] == spec[i]);
        assert(spec[i].name == ord[i].name && spec[i].where_condition == assigned[0]);
    } else {
        assert(spec.skip(i) =~= Seq::<UiColP>::empty());
        assert(assigned =~= Seq::<Option<Seq<char>>>::empty());
    }
}

proof fn lemma_all_unused(conds: Seq<CondP>, used: Seq<bool>, n: int)
    requires
        0 <= n <= conds.len(),
        used.len() == conds.len(),
        forall|j: int| 0 <= j < used.len() ==> !used[j],
    ensures
        unused_prefix(conds, used, n) == conds.take(n),
    decreases n,
{
    if n > 0 {
        lemma_all_unused(conds, used, n - 1);
        assert(conds.take(n) =~= conds.take(n - 1).push(conds[n - 1]));
    } else {
        assert(conds.take(0) =~= Seq::<CondP>::empty());
    }
}

/// Restoring the builder's state loses no WHERE condition and makes none up:
/// the conditions on the rows, each on its row's column, together with the
/// conditions left over are the parsed conditions, as a multiset.
pub proof fn law_view_ui_conditions_kept(parsed: SelectP, tc: Seq<TcP>)
    ensures
        row_conds(ui_spec_of(parsed, tc).columns).to_multiset().add(ui_spec_of(parsed, tc).extra_where.to_multiset())
            == parsed.where_conditions.to_multiset(),
{
    let ord = ordered_spec(parsed.columns, tc);
    let conds = parsed.where_conditions;
    let used0 = Seq::new(conds.len(), |k: int| false);
    lemma_assign_conserves(ord, conds, 0, used0);
    let (assigned, used) = assign_from(ord, conds, 0, used0);
    let spec = ui_spec_of(parsed, tc);
    lemma_row_conds(spec.columns, ord, assigned, 0);
    assert(spec.columns.skip(0) =~= spec.columns);
    lemma_all_unused(conds, used0, conds.len() as int);
    assert(conds.take(conds.len() as int) =~= conds);
}

// ---------------------------------------------------------------------------
// Every extra condition reaches the WHERE clause
// ---------------------------------------------------------------------------

/// An extra condition with a non-blank suffix is added to the WHERE clause
/// after everything already there, with ` AND ` when the clause has parts,
/// whatever the rows carry; one with a blank suffix changes nothing.
pub proof fn law_extra_condition_appended(cols: Seq<UiColP>, extra: Seq<CondP>, e: CondP)
    ensures
        trim(e.suffix).len() > 0 ==> where_clause_spec(cols, extra.push(e)) == (if where_clause_spec(
            cols,
            extra,
        ).len() == 0 {
            " WHERE "@
        } else {
            where_clause_spec(cols, extra) + " AND "@
        }) + quote_ident_spec(e.column) + " "@ + trim(e.suffix),
        trim(e.suffix).len() == 0 ==> where_clause_spec(cols, extra.push(e)) == where_clause_spec(cols, extra),
{
    reveal_strlit(" WHERE ");
    let p = quote_ident_spec(e.column) + " "@ + trim(e.suffix);
    assert(extra.push(e).drop_last() =~= extra);
    assert(extra.push(e).last() == e);
    let ps = row_where_parts(cols) + extra_where_parts(extra);
    if trim(e.suffix).len() > 0 {
        assert(extra_where_parts(extra.push(e)) == extra_where_parts(extra).push(p));
        assert(row_where_parts(cols) + extra_where_parts(extra.push(e)) =~= ps.push(p));
        if ps.len() == 0 {
            assert(ps.push(p) =~= seq![p]);
            assert(join(seq![p], " AND "@) == p);
        } else {
            assert(ps.push(p).drop_last() =~= ps);
            assert(join(ps.push(p), " AND "@) == join(ps, " AND "@) + " AND "@ + p);
            assert((" WHERE "@ + join(ps, " AND "@)).len() > 0);
        }
    } else {
        assert(extra_where_parts(extra.push(e)) =~= extra_where_parts(extra));
    }
}

} // verus!
