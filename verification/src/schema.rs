//! Column definitions of user tables: building `CREATE TABLE` bodies, planning
//! column migrations and reading definitions back from `sqlite_master`.
use vstd::prelude::*;

use crate::error::{is_validation, DomainError};
use crate::names::{
    column_name_error, is_id_name, is_id_name_exec, quote_ident_spec, quote_ident_vec,
    validate_column_name_vec, validated_as,
};
use crate::text::{
    append_vec, chars_of, chars_of_string, contains_exec, contains_seq, first_non_ws_from,
    is_whitespace, is_ws, lemma_first_non_ws_bounds, seq_eq, starts_with, starts_with_exec,
    string_of, sub_vec, trim, vv, trim_start, trim_start_vec, trim_vec, upper_seq, upper_vec,
};

verus! {

/// A column as entered in the table form.
#[derive(Debug, Clone, PartialEq, Eq)]
pub struct TableColumnInput {
    pub name: String,
    pub type_key: String,
    pub nullable: bool,
    /// The column's name before the edit; `None` for a new column.
    pub orig_name: Option<String>,
}

/// The mathematical view of a [`TableColumnInput`].
pub struct ColumnSpec {
    pub name: Seq<char>,
    pub type_key: Seq<char>,
    pub nullable: bool,
    pub orig_name: Option<Seq<char>>,
}

impl View for TableColumnInput {
    type V = ColumnSpec;

    open spec fn view(&self) -> ColumnSpec {
        ColumnSpec {
            name: self.name@,
            type_key: self.type_key@,
            nullable: self.nullable,
            orig_name: match self.orig_name {
                Some(s) => Some(s@),
                None => None,
            },
        }
    }
}

impl DeepView for TableColumnInput {
    type V = ColumnSpec;

    open spec fn deep_view(&self) -> ColumnSpec {
        self@
    }
}

pub open spec fn cols_view(v: Seq<TableColumnInput>) -> Seq<ColumnSpec> {
    Seq::new(v.len(), |i: int| v[i]@)
}

/// Migration plan between the current and the edited column list.
#[derive(Debug, Clone, PartialEq, Eq)]
pub struct ColumnMigrationPlan {
    pub renames: Vec<(String, String)>,
    pub drops: Vec<String>,
    pub adds: Vec<TableColumnInput>,
    /// Original names of the columns relaxed from NOT NULL to nullable.
    pub nullable_relaxations: Vec<String>,
}

pub struct PlanSpec {
    pub renames: Seq<(Seq<char>, Seq<char>)>,
    pub drops: Seq<Seq<char>>,
    pub adds: Seq<ColumnSpec>,
    pub relaxations: Seq<Seq<char>>,
}

impl View for ColumnMigrationPlan {
    type V = PlanSpec;

    open spec fn view(&self) -> PlanSpec {
        PlanSpec {
            renames: self.renames.deep_view(),
            drops: self.drops.deep_view(),
            adds: cols_view(self.adds@),
            relaxations: self.nullable_relaxations.deep_view(),
        }
    }
}

// ---------------------------------------------------------------------------
// Specifications
// ---------------------------------------------------------------------------

/// `parts` joined with `sep` between consecutive elements.
pub open spec fn join(parts: Seq<Seq<char>>, sep: Seq<char>) -> Seq<char>
    decreases parts.len(),
{
    if parts.len() == 0 {
        seq![]
    } else if parts.len() == 1 {
        parts[0]
    } else {
        join(parts.drop_last(), sep) + sep + parts.last()
    }
}

/// SQL type of a column type key.
pub open spec fn sql_type_of(type_key: Seq<char>) -> Option<Seq<char>> {
    if type_key == "integer"@ {
        Some("INTEGER"@)
    } else if type_key == "real"@ {
        Some("REAL"@)
    } else if type_key == "text"@ {
        Some("TEXT"@)
    } else if type_key == "blob"@ {
        Some("BLOB"@)
    } else if type_key == "timestamp"@ {
        Some("TIMESTAMP"@)
    } else if type_key == "boolean"@ {
        Some("BOOLEAN"@)
    } else {
        None
    }
}

pub open spec fn bad_type_msg(raw_name: Seq<char>) -> Seq<char> {
    "カラム `"@ + raw_name + "` の型が不正です"@
}

pub open spec fn duplicate_msg(name: Seq<char>) -> Seq<char> {
    "カラム名 `"@ + name + "` が重複しています"@
}

/// `"name" TYPE[ NOT NULL]`, or the type error.
pub open spec fn column_def_spec(name: Seq<char>, c: ColumnSpec) -> Result<Seq<char>, Seq<char>> {
    match sql_type_of(c.type_key) {
        None => Err(bad_type_msg(c.name)),
        Some(t) => Ok(
            quote_ident_spec(name) + " "@ + t + (if c.nullable {
                seq![]
            } else {
                " NOT NULL"@
            }),
        ),
    }
}

/// Column parts of the table body from column `i` on, given the names
/// already used.
pub open spec fn table_parts_from(cols: Seq<ColumnSpec>, i: int, seen: Seq<Seq<char>>) -> Result<
    Seq<Seq<char>>,
    Seq<char>,
>
    decreases cols.len() - i,
{
    if i < 0 || i >= cols.len() {
        Ok(seq![])
    } else {
        let c = cols[i];
        let n = trim(c.name);
        if n.len() == 0 {
            table_parts_from(cols, i + 1, seen)
        } else {
            match column_name_error(n) {
                Some(m) => Err(m),
                None => if seen.contains(n) {
                    Err(duplicate_msg(n))
                } else {
                    match column_def_spec(n, c) {
                        Err(m) => Err(m),
                        Ok(part) => match table_parts_from(cols, i + 1, seen.push(n)) {
                            Err(m) => Err(m),
                            Ok(rest) => Ok(seq![part] + rest),
                        },
                    }
                },
            }
        }
    }
}

/// The body of `CREATE TABLE` for the given columns: the `id` primary key
/// followed by one definition per named column, or the first error.
pub open spec fn table_definition_spec(cols: Seq<ColumnSpec>) -> Result<Seq<char>, Seq<char>> {
    match table_parts_from(cols, 0, seq!["id"@]) {
        Err(m) => Err(m),
        Ok(parts) => Ok(join(seq!["id INTEGER PRIMARY KEY"@] + parts, ", "@)),
    }
}

/// The columns with blank names dropped and the others trimmed and validated.
pub open spec fn normalize_from(cols: Seq<ColumnSpec>, i: int) -> Result<Seq<ColumnSpec>, Seq<char>>
    decreases cols.len() - i,
{
    if i < 0 || i >= cols.len() {
        Ok(seq![])
    } else {
        let c = cols[i];
        let n = trim(c.name);
        if n.len() == 0 {
            normalize_from(cols, i + 1)
        } else {
            match column_name_error(n) {
                Some(m) => Err(m),
                None => match normalize_from(cols, i + 1) {
                    Err(m) => Err(m),
                    Ok(rest) => Ok(
                        seq![ColumnSpec { name: n, type_key: c.type_key, nullable: c.nullable, orig_name: c.orig_name }]
                            + rest,
                    ),
                },
            }
        }
    }
}

/// The last current column named `name` (a map built from the list keeps the last).
pub open spec fn lookup_current(current: Seq<ColumnSpec>, name: Seq<char>) -> Option<ColumnSpec>
    decreases current.len(),
{
    if current.len() == 0 {
        None
    } else if current.last().name == name {
        Some(current.last())
    } else {
        lookup_current(current.drop_last(), name)
    }
}

pub open spec fn missing_msg(o: Seq<char>) -> Seq<char> {
    "列 `"@ + o + "` は存在しません"@
}

pub open spec fn type_change_msg(o: Seq<char>) -> Seq<char> {
    "列 `"@ + o + "` の型は変更できません"@
}

pub open spec fn not_null_msg(o: Seq<char>) -> Seq<char> {
    "列 `"@ + o + "` を NOT NULL に変更することはできません"@
}

/// Renames and nullability relaxations for the retained columns of `norm`
/// from index `i` on, or the first error.
pub open spec fn retained_changes_from(current: Seq<ColumnSpec>, norm: Seq<ColumnSpec>, i: int) -> Result<
    (Seq<(Seq<char>, Seq<char>)>, Seq<Seq<char>>),
    Seq<char>,
>
    decreases norm.len() - i,
{
    if i < 0 || i >= norm.len() {
        Ok((seq![], seq![]))
    } else {
        let c = norm[i];
        match c.orig_name {
            None => retained_changes_from(current, norm, i + 1),
            Some(o) => match lookup_current(current, o) {
                None => Err(missing_msg(o)),
                Some(e) => if e.type_key != c.type_key {
                    Err(type_change_msg(o))
                } else if e.nullable && !c.nullable {
                    Err(not_null_msg(o))
                } else {
                    match retained_changes_from(current, norm, i + 1) {
                        Err(m) => Err(m),
                        Ok((rn, rl)) => Ok(
                            (
                                (if o != c.name {
                                    seq![(o, c.name)]
                                } else {
                                    seq![]
                                }) + rn,
                                (if !e.nullable && c.nullable {
                                    seq![o]
                                } else {
                                    seq![]
                                }) + rl,
                            ),
                        ),
                    }
                },
            },
        }
    }
}

/// Some column of `norm` was originally named `n`.
pub open spec fn is_retained(norm: Seq<ColumnSpec>, n: Seq<char>) -> bool {
    exists|k: int| 0 <= k < norm.len() && #[trigger] norm[k].orig_name == Some(n)
}

/// Names of the current columns that no edited column keeps.
pub open spec fn drops_spec(current: Seq<ColumnSpec>, norm: Seq<ColumnSpec>) -> Seq<Seq<char>>
    decreases current.len(),
{
    if current.len() == 0 {
        seq![]
    } else {
        drops_spec(current.drop_last(), norm) + (if is_retained(norm, current.last().name) {
            seq![]
        } else {
            seq![current.last().name]
        })
    }
}

/// The edited columns that are new.
pub open spec fn adds_spec(norm: Seq<ColumnSpec>) -> Seq<ColumnSpec>
    decreases norm.len(),
{
    if norm.len() == 0 {
        seq![]
    } else {
        adds_spec(norm.drop_last()) + (if norm.last().orig_name is None {
            seq![norm.last()]
        } else {
            seq![]
        })
    }
}

/// The migration from `current` to `desired`, or the first error.
pub open spec fn plan_spec(current: Seq<ColumnSpec>, desired: Seq<ColumnSpec>) -> Result<PlanSpec, Seq<char>> {
    match normalize_from(desired, 0) {
        Err(m) => Err(m),
        Ok(norm) => match table_definition_spec(norm) {
            Err(m) => Err(m),
            Ok(_) => match retained_changes_from(current, norm, 0) {
                Err(m) => Err(m),
                Ok((renames, relax)) => Ok(
                    PlanSpec {
                        renames,
                        drops: drops_spec(current, norm),
                        adds: adds_spec(norm),
                        relaxations: relax,
                    },
                ),
            },
        },
    }
}

// ---------------------------------------------------------------------------
// Executable functions
// ---------------------------------------------------------------------------

pub fn join_vecs(parts: &Vec<Vec<char>>, sep: &Vec<char>) -> (r: Vec<char>)
    ensures
        r@ == join(vv(parts@), sep@),
{
    let mut r: Vec<char> = Vec::new();
    let mut i: usize = 0;
    while i < parts.len()
        invariant
            i <= parts.len(),
            r@ == join(vv(parts@).take(i as int), sep@),
        decreases parts.len() - i,
    {
        let ghost prev = vv(parts@).take(i as int);
        if i > 0 {
            append_vec(&mut r, sep);
        }
        append_vec(&mut r, &parts[i]);
        i += 1;
        proof {
            let cur = vv(parts@).take(i as int);
            assert(cur.drop_last() =~= prev);
            assert(cur.last() == parts@[i - 1]@);
            if i == 1 {
                assert(prev.len() == 0);
            }
        }
    }
    assert(vv(parts@).take(parts.len() as int) =~= vv(parts@));
    r
}

/// Joins strings with a separator.
pub fn join_strings(parts: &Vec<String>, sep: &str) -> (r: String)
    ensures
        r@ == join(parts.deep_view(), sep@),
{
    let mut vs: Vec<Vec<char>> = Vec::new();
    let mut i: usize = 0;
    while i < parts.len()
        invariant
            i <= parts.len(),
            vv(vs@) == parts.deep_view().take(i as int),
        decreases parts.len() - i,
    {
        let c = chars_of_string(&parts[i]);
        let ghost old = vv(vs@);
        vs.push(c);
        assert(vv(vs@) =~= old.push(c@));
        assert(parts.deep_view()[i as int] == parts@[i as int]@);
        i += 1;
        assert(vv(vs@) =~= parts.deep_view().take(i as int));
    }
    assert(parts.deep_view().take(parts.len() as int) =~= parts.deep_view());
    let sv = chars_of(sep);
    let r = join_vecs(&vs, &sv);
    string_of(&r)
}

fn vec_is(a: &Vec<char>, b: &str) -> (r: bool)
    ensures
        r == (a@ == b@),
{
    let vb = chars_of(b);
    seq_eq(a, &vb)
}

/// SQL type for a column type key.
pub fn column_sql_type(column: &TableColumnInput) -> (r: Result<String, DomainError>)
    ensures
        match sql_type_of(column.type_key@) {
            Some(t) => r matches Ok(s) && s@ == t,
            None => is_validation(r, bad_type_msg(column.name@)),
        },
{
    let t = chars_of_string(&column.type_key);
    if vec_is(&t, "integer") {
        Ok(String::from_str("INTEGER"))
    } else if vec_is(&t, "real") {
        Ok(String::from_str("REAL"))
    } else if vec_is(&t, "text") {
        Ok(String::from_str("TEXT"))
    } else if vec_is(&t, "blob") {
        Ok(String::from_str("BLOB"))
    } else if vec_is(&t, "timestamp") {
        Ok(String::from_str("TIMESTAMP"))
    } else if vec_is(&t, "boolean") {
        Ok(String::from_str("BOOLEAN"))
    } else {
        let mut m = String::from_str("カラム `");
        m.append(column.name.as_str());
        m.append("` の型が不正です");
        Err(DomainError::Validation(m))
    }
}

pub fn column_definition_vec(name: &Vec<char>, column: &TableColumnInput) -> (r: Result<
    Vec<char>,
    DomainError,
>)
    ensures
        match column_def_spec(name@, column@) {
            Ok(s) => r matches Ok(v) && v@ == s,
            Err(m) => is_validation(r, m),
        },
{
    let t = column_sql_type(column)?;
    let mut r = quote_ident_vec(name);
    r.push(' ');
    let tv = chars_of_string(&t);
    append_vec(&mut r, &tv);
    if !column.nullable {
        let nn = chars_of(" NOT NULL");
        append_vec(&mut r, &nn);
    }
    proof {
        if column.nullable {
            assert(r@ == quote_ident_spec(name@) + " "@ + tv@ + seq![]) by {
                reveal_strlit(" ");
            }
        } else {
            reveal_strlit(" ");
        }
    }
    Ok(r)
}

/// Column definition SQL: `"name" TYPE` with ` NOT NULL` unless nullable.
pub fn column_definition_sql(name: &str, column: &TableColumnInput) -> (r: Result<String, DomainError>)
    ensures
        match column_def_spec(name@, column@) {
            Ok(s) => r matches Ok(v) && v@ == s,
            Err(m) => is_validation(r, m),
        },
{
    let n = chars_of(name);
    let v = column_definition_vec(&n, column)?;
    Ok(string_of(&v))
}

fn seen_contains(seen: &Vec<Vec<char>>, n: &Vec<char>) -> (r: bool)
    ensures
        r == vv(seen@).contains(n@),
{
    let mut i: usize = 0;
    while i < seen.len()
        invariant
            i <= seen.len(),
            forall|k: int| 0 <= k < i ==> vv(seen@)[k] != n@,
        decreases seen.len() - i,
    {
        if seq_eq(&seen[i], n) {
            assert(vv(seen@)[i as int] == n@);
            return true;
        }
        i += 1;
    }
    false
}

pub fn table_parts(columns: &[TableColumnInput]) -> (r: Result<Vec<Vec<char>>, DomainError>)
    ensures
        match table_parts_from(cols_view(columns@), 0, seq!["id"@]) {
            Ok(p) => r matches Ok(v) && vv(v@) == p,
            Err(m) => is_validation(r, m),
        },
{
    let ghost cv = cols_view(columns@);
    let mut parts: Vec<Vec<char>> = Vec::new();
    let mut seen: Vec<Vec<char>> = Vec::new();
    seen.push(chars_of("id"));
    assert(vv(seen@) =~= seq!["id"@]);
    assert(vv(parts@) =~= Seq::<Seq<char>>::empty());
    let mut i: usize = 0;
    while i < columns.len()
        invariant
            i <= columns.len(),
            cv == cols_view(columns@),
            table_parts_from(cv, 0, seq!["id"@]) == match table_parts_from(cv, i as int, vv(seen@)) {
                Ok(rest) => Ok(vv(parts@) + rest),
                Err(m) => Err(m),
            },
        decreases columns.len() - i,
    {
        let c = &columns[i];
        let raw = chars_of_string(&c.name);
        let tn = trim_vec(&raw);
        assert(cv[i as int] == c@);
        if tn.len() == 0 {
            i += 1;
            continue;
        }
        let name = match validate_column_name_vec(&raw) {
            Ok(n) => n,
            Err(e) => {
                return Err(e);
            },
        };
        let nv = chars_of_string(&name);
        if seen_contains(&seen, &nv) {
            let mut m = String::from_str("カラム名 `");
            m.append(name.as_str());
            m.append("` が重複しています");
            return Err(DomainError::Validation(m));
        }
        let part = match column_definition_vec(&nv, c) {
            Ok(p) => p,
            Err(e) => {
                return Err(e);
            },
        };
        let ghost old_parts = vv(parts@);
        let ghost old_seen = vv(seen@);
        parts.push(part);
        seen.push(nv);
        proof {
            assert(vv(parts@) =~= old_parts.push(part@));
            assert(vv(seen@) =~= old_seen.push(nv@));
            match table_parts_from(cv, i + 1, vv(seen@)) {
                Ok(rest) => {
                    assert(vv(parts@) + rest =~= old_parts + (seq![part@] + rest));
                },
                Err(m) => {},
            }
        }
        i += 1;
    }
    proof {
        assert(vv(parts@) + seq![] =~= vv(parts@));
    }
    Ok(parts)
}

/// Body of `CREATE TABLE` for user columns: an `id INTEGER PRIMARY KEY`
/// followed by one definition per named column; blank names are skipped.
pub fn build_table_definition(columns: &[TableColumnInput]) -> (r: Result<String, DomainError>)
    ensures
        match table_definition_spec(cols_view(columns@)) {
            Ok(s) => r matches Ok(v) && v@ == s,
            Err(m) => is_validation(r, m),
        },
{
    let parts = table_parts(columns)?;
    let mut all: Vec<Vec<char>> = Vec::new();
    all.push(chars_of("id INTEGER PRIMARY KEY"));
    assert(vv(all@) =~= seq!["id INTEGER PRIMARY KEY"@] + vv(parts@).take(0));
    let mut i: usize = 0;
    while i < parts.len()
        invariant
            i <= parts.len(),
            vv(all@) == seq!["id INTEGER PRIMARY KEY"@] + vv(parts@).take(i as int),
        decreases parts.len() - i,
    {
        let p = sub_vec(&parts[i], 0, parts[i].len());
        assert(p@ =~= parts@[i as int]@);
        let ghost old = vv(all@);
        all.push(p);
        assert(vv(all@) =~= old.push(p@));
        assert(vv(parts@).take(i + 1) =~= vv(parts@).take(i as int).push(p@));
        i += 1;
        assert(vv(all@) =~= seq!["id INTEGER PRIMARY KEY"@] + vv(parts@).take(i as int));
    }
    assert(vv(parts@).take(parts.len() as int) =~= vv(parts@));
    let sep = chars_of(", ");
    let body = join_vecs(&all, &sep);
    Ok(string_of(&body))
}

fn copy_column(c: &TableColumnInput) -> (r: TableColumnInput)
    ensures
        r@ == c@,
{
    TableColumnInput {
        name: c.name.clone(),
        type_key: c.type_key.clone(),
        nullable: c.nullable,
        orig_name: match &c.orig_name {
            Some(o) => Some(o.clone()),
            None => None,
        },
    }
}

pub fn normalize_columns(desired: &[TableColumnInput]) -> (r: Result<Vec<TableColumnInput>, DomainError>)
    ensures
        match normalize_from(cols_view(desired@), 0) {
            Ok(n) => r matches Ok(v) && cols_view(v@) == n,
            Err(m) => is_validation(r, m),
        },
{
    let ghost cv = cols_view(desired@);
    let mut out: Vec<TableColumnInput> = Vec::new();
    let mut i: usize = 0;
    while i < desired.len()
        invariant
            i <= desired.len(),
            cv == cols_view(desired@),
            normalize_from(cv, 0) == match normalize_from(cv, i as int) {
                Ok(rest) => Ok(cols_view(out@) + rest),
                Err(m) => Err(m),
            },
        decreases desired.len() - i,
    {
        let c = &desired[i];
        assert(cv[i as int] == c@);
        let raw = chars_of_string(&c.name);
        let tn = trim_vec(&raw);
        if tn.len() == 0 {
            i += 1;
            continue;
        }
        let name = match validate_column_name_vec(&raw) {
            Ok(n) => n,
            Err(e) => {
                return Err(e);
            },
        };
        let nc = TableColumnInput {
            name,
            type_key: c.type_key.clone(),
            nullable: c.nullable,
            orig_name: match &c.orig_name {
                Some(o) => Some(o.clone()),
                None => None,
            },
        };
        let ghost old_out = cols_view(out@);
        out.push(nc);
        proof {
            assert(cols_view(out@) == old_out.push(nc@));
            match normalize_from(cv, i + 1) {
                Ok(rest) => {
                    assert(cols_view(out@) + rest == old_out + (seq![nc@] + rest));
                },
                Err(m) => {},
            }
        }
        i += 1;
    }
    assert(cols_view(out@) + seq![] == cols_view(out@));
    Ok(out)
}

fn lookup_current_exec(current: &[TableColumnInput], name: &Vec<char>) -> (r: Option<usize>)
    ensures
        match lookup_current(cols_view(current@), name@) {
            None => r is None,
            Some(e) => r matches Some(k) && k < current@.len() && current@[k as int]@ == e,
        },
{
    let mut j: usize = current.len();
    assert(cols_view(current@).take(j as int) =~= cols_view(current@));
    while j > 0
        invariant
            j <= current.len(),
            lookup_current(cols_view(current@), name@) == lookup_current(
                cols_view(current@).take(j as int),
                name@,
            ),
        decreases j,
    {
        let ghost pre = cols_view(current@).take(j as int);
        let cn = chars_of_string(&current[j - 1].name);
        assert(pre.last() == current@[j - 1]@);
        if seq_eq(&cn, name) {
            return Some(j - 1);
        }
        assert(pre.drop_last() == cols_view(current@).take(j - 1));
        j -= 1;
    }
    assert(cols_view(current@).take(0).len() == 0);
    assert(cols_view(current@).take(current@.len() as int) == cols_view(current@));
    None
}

fn retained_changes(current: &[TableColumnInput], norm: &Vec<TableColumnInput>) -> (r: Result<
    (Vec<(String, String)>, Vec<String>),
    DomainError,
>)
    ensures
        match retained_changes_from(cols_view(current@), cols_view(norm@), 0) {
            Ok((rn, rl)) => r matches Ok((a, b)) && a.deep_view() == rn && b.deep_view() == rl,
            Err(m) => is_validation(r, m),
        },
{
    let ghost cur = cols_view(current@);
    let ghost nv = cols_view(norm@);
    let mut renames: Vec<(String, String)> = Vec::new();
    let mut relax: Vec<String> = Vec::new();
    let mut i: usize = 0;
    while i < norm.len()
        invariant
            i <= norm.len(),
            cur == cols_view(current@),
            nv == cols_view(norm@),
            retained_changes_from(cur, nv, 0) == match retained_changes_from(cur, nv, i as int) {
                Ok((rn, rl)) => Ok((renames.deep_view() + rn, relax.deep_view() + rl)),
                Err(m) => Err(m),
            },
        decreases norm.len() - i,
    {
        let c = &norm[i];
        assert(nv[i as int] == c@);
        match &c.orig_name {
            None => {},
            Some(o) => {
                let ov = chars_of_string(o);
                let k = match lookup_current_exec(current, &ov) {
                    None => {
                        let mut m = String::from_str("列 `");
                        m.append(o.as_str());
                        m.append("` は存在しません");
                        return Err(DomainError::Validation(m));
                    },
                    Some(k) => k,
                };
                let e = &current[k];
                let et = chars_of_string(&e.type_key);
                let ct = chars_of_string(&c.type_key);
                if !seq_eq(&et, &ct) {
                    let mut m = String::from_str("列 `");
                    m.append(o.as_str());
                    m.append("` の型は変更できません");
                    return Err(DomainError::Validation(m));
                }
                if e.nullable && !c.nullable {
                    let mut m = String::from_str("列 `");
                    m.append(o.as_str());
                    m.append("` を NOT NULL に変更することはできません");
                    return Err(DomainError::Validation(m));
                }
                let ghost old_rn = renames.deep_view();
                let ghost old_rl = relax.deep_view();
                let relaxed = !e.nullable && c.nullable;
                if relaxed {
                    relax.push(o.clone());
                }
                let cn = chars_of_string(&c.name);
                let renamed = !seq_eq(&ov, &cn);
                if renamed {
                    renames.push((o.clone(), c.name.clone()));
                }
                proof {
                    let add_rn: Seq<(Seq<char>, Seq<char>)> = if renamed {
                        seq![(o@, c.name@)]
                    } else {
                        seq![]
                    };
                    let add_rl: Seq<Seq<char>> = if relaxed {
                        seq![o@]
                    } else {
                        seq![]
                    };
                    assert(renames.deep_view() == old_rn + add_rn);
                    assert(relax.deep_view() == old_rl + add_rl);
                    match retained_changes_from(cur, nv, i + 1) {
                        Ok((rn, rl)) => {
                            assert(renames.deep_view() + rn == old_rn + (add_rn + rn));
                            assert(relax.deep_view() + rl == old_rl + (add_rl + rl));
                        },
                        Err(m) => {},
                    }
                }
            },
        }
        i += 1;
    }
    assert(renames.deep_view() + seq![] == renames.deep_view());
    assert(relax.deep_view() + Seq::<Seq<char>>::empty() == relax.deep_view());
    Ok((renames, relax))
}

fn is_retained_exec(norm: &Vec<TableColumnInput>, n: &Vec<char>) -> (r: bool)
    ensures
        r == is_retained(cols_view(norm@), n@),
{
    let ghost nv = cols_view(norm@);
    let mut i: usize = 0;
    while i < norm.len()
        invariant
            i <= norm.len(),
            nv == cols_view(norm@),
            forall|k: int| 0 <= k < i ==> #[trigger] nv[k].orig_name != Some(n@),
        decreases norm.len() - i,
    {
        assert(nv[i as int] == norm@[i as int]@);
        match &norm[i].orig_name {
            Some(o) => {
                let ov = chars_of_string(o);
                if seq_eq(&ov, n) {
                    assert(nv[i as int].orig_name == Some(n@));
                    return true;
                }
            },
            None => {},
        }
        i += 1;
    }
    false
}

/// Plans the migration from the current columns to the edited ones:
/// renames, drops, additions and nullability relaxations.
pub fn plan_column_migration(current: &[TableColumnInput], desired: &[TableColumnInput]) -> (r:
    Result<ColumnMigrationPlan, DomainError>)
    ensures
        match plan_spec(cols_view(current@), cols_view(desired@)) {
            Ok(p) => r matches Ok(plan) && plan@ == p,
            Err(m) => is_validation(r, m),
        },
{
    let normalized = normalize_columns(desired)?;
    let ghost nv = cols_view(normalized@);
    let _def = build_table_definition(normalized.as_slice())?;
    let (renames, relax) = retained_changes(current, &normalized)?;

    let ghost cur = cols_view(current@);
    let mut drops: Vec<String> = Vec::new();
    let mut i: usize = 0;
    while i < current.len()
        invariant
            i <= current.len(),
            cur == cols_view(current@),
            nv == cols_view(normalized@),
            drops.deep_view() == drops_spec(cur.take(i as int), nv),
        decreases current.len() - i,
    {
        let cn = chars_of_string(&current[i].name);
        let ghost pre = cur.take(i + 1);
        assert(pre.drop_last() == cur.take(i as int));
        assert(pre.last() == current@[i as int]@);
        if !is_retained_exec(&normalized, &cn) {
            drops.push(current[i].name.clone());
        }
        i += 1;
    }
    assert(cur.take(current@.len() as int) == cur);

    let mut adds: Vec<TableColumnInput> = Vec::new();
    let mut j: usize = 0;
    while j < normalized.len()
        invariant
            j <= normalized.len(),
            nv == cols_view(normalized@),
            cols_view(adds@) == adds_spec(nv.take(j as int)),
        decreases normalized.len() - j,
    {
        let ghost pre = nv.take(j + 1);
        assert(pre.drop_last() == nv.take(j as int));
        assert(pre.last() == normalized@[j as int]@);
        let ghost old_adds = cols_view(adds@);
        if normalized[j].orig_name.is_none() {
            let c = copy_column(&normalized[j]);
            adds.push(c);
            assert(cols_view(adds@) == old_adds.push(c@));
        }
        j += 1;
    }
    assert(nv.take(normalized@.len() as int) == nv);

    Ok(ColumnMigrationPlan { renames, drops, adds, nullable_relaxations: relax })
}

// ---------------------------------------------------------------------------
// What a migration plan holds
// ---------------------------------------------------------------------------

/// An edited column that is new.
pub open spec fn new_column_pred() -> spec_fn(ColumnSpec) -> bool {
    |c: ColumnSpec| c.orig_name is None
}

/// An edited column that keeps a current column under another name.
pub open spec fn renamed_pred() -> spec_fn(ColumnSpec) -> bool {
    |c: ColumnSpec| c.orig_name is Some && c.orig_name->0 != c.name
}

/// An edited column that keeps a NOT NULL current column and is nullable.
pub open spec fn relaxed_pred(current: Seq<ColumnSpec>) -> spec_fn(ColumnSpec) -> bool {
    |c: ColumnSpec|
        c.orig_name is Some && lookup_current(current, c.orig_name->0) is Some && !lookup_current(
            current,
            c.orig_name->0,
        )->0.nullable && c.nullable
}

pub open spec fn rename_pair() -> spec_fn(ColumnSpec) -> (Seq<char>, Seq<char>) {
    |c: ColumnSpec| (c.orig_name->0, c.name)
}

pub open spec fn orig_of() -> spec_fn(ColumnSpec) -> Seq<char> {
    |c: ColumnSpec| c.orig_name->0
}

pub open spec fn name_of() -> spec_fn(ColumnSpec) -> Seq<char> {
    |c: ColumnSpec| c.name
}

/// A current column named `n` that no edited column keeps.
pub open spec fn dropped_pred(norm: Seq<ColumnSpec>) -> spec_fn(Seq<char>) -> bool {
    |n: Seq<char>| !is_retained(norm, n)
}

/// An edited column that keeps a current column keeps one that exists, of
/// the same type, and does not make it NOT NULL.
pub open spec fn keeps_existing(current: Seq<ColumnSpec>, c: ColumnSpec) -> bool {
    c.orig_name is Some ==> {
        &&& lookup_current(current, c.orig_name->0) is Some
        &&& lookup_current(current, c.orig_name->0)->0.type_key == c.type_key
        &&& !(lookup_current(current, c.orig_name->0)->0.nullable && !c.nullable)
    }
}

proof fn lemma_singleton_filter<A>(x: A, p: spec_fn(A) -> bool)
    ensures
        seq![x].filter(p) == (if p(x) {
            seq![x]
        } else {
            Seq::<A>::empty()
        }),
{
    reveal(Seq::filter);
    assert(seq![x].drop_last() =~= Seq::<A>::empty());
    assert(Seq::<A>::empty().filter(p) =~= Seq::<A>::empty());
}

proof fn lemma_retained_changes(current: Seq<ColumnSpec>, norm: Seq<ColumnSpec>, i: int)
    requires
        0 <= i <= norm.len(),
        retained_changes_from(current, norm, i) is Ok,
    ensures
        retained_changes_from(current, norm, i)->Ok_0.0 == norm.skip(i).filter(renamed_pred()).map_values(
            rename_pair(),
        ),
        retained_changes_from(current, norm, i)->Ok_0.1 == norm.skip(i).filter(relaxed_pred(current)).map_values(
            orig_of(),
        ),
        forall|k: int| i <= k < norm.len() ==> keeps_existing(current, #[trigger] norm[k]),
    decreases norm.len() - i,
{
    broadcast use Seq::filter_distributes_over_add;

    if i == norm.len() {
        assert(norm.skip(i) =~= Seq::<ColumnSpec>::empty());
        reveal(Seq::filter);
        assert(Seq::<ColumnSpec>::empty().filter(renamed_pred()) =~= Seq::<ColumnSpec>::empty());
        assert(Seq::<ColumnSpec>::empty().filter(relaxed_pred(current)) =~= Seq::<ColumnSpec>::empty());
    } else {
        lemma_retained_changes(current, norm, i + 1);
        let c = norm[i];
        let rest = norm.skip(i + 1);
        assert(norm.skip(i) =~= seq![c] + rest);
        lemma_singleton_filter(c, renamed_pred());
        lemma_singleton_filter(c, relaxed_pred(current));
        let fa = seq![c].filter(renamed_pred());
        let fb = rest.filter(renamed_pred());
        assert((fa + fb).map_values(rename_pair()) =~= fa.map_values(rename_pair()) + fb.map_values(rename_pair()));
        let ga = seq![c].filter(relaxed_pred(current));
        let gb = rest.filter(relaxed_pred(current));
        assert((ga + gb).map_values(orig_of()) =~= ga.map_values(orig_of()) + gb.map_values(orig_of()));
        if c.orig_name is Some {
            let e = lookup_current(current, c.orig_name->0)->0;
            assert(fa.map_values(rename_pair()) =~= (if c.orig_name->0 != c.name {
                seq![(c.orig_name->0, c.name)]
            } else {
                Seq::empty()
            }));
            assert(ga.map_values(orig_of()) =~= (if !e.nullable && c.nullable {
                seq![c.orig_name->0]
            } else {
                Seq::empty()
            }));
        } else {
            assert(fa =~= Seq::<ColumnSpec>::empty());
            assert(ga =~= Seq::<ColumnSpec>::empty());
        }
    }
}

proof fn lemma_adds_filter(norm: Seq<ColumnSpec>)
    ensures
        adds_spec(norm) == norm.filter(new_column_pred()),
    decreases norm.len(),
{
    reveal(Seq::filter);
    if norm.len() > 0 {
        lemma_adds_filter(norm.drop_last());
    }
}

proof fn lemma_drops_filter(current: Seq<ColumnSpec>, norm: Seq<ColumnSpec>)
    ensures
        drops_spec(current, norm) == current.map_values(name_of()).filter(dropped_pred(norm)),
    decreases current.len(),
{
    reveal(Seq::filter);
    if current.len() > 0 {
        lemma_drops_filter(current.drop_last(), norm);
        assert(current.map_values(name_of()).drop_last() =~= current.drop_last().map_values(name_of()));
    } else {
        assert(current.map_values(name_of()) =~= Seq::<Seq<char>>::empty());
    }
}

/// What a migration plan holds: the new columns are added in order; the
/// current columns that no edited column keeps are dropped in order; the
/// kept columns that change name are renamed, and the kept NOT NULL columns
/// made nullable are relaxed, in the edited order; and every kept column
/// names a current column of the same type that it does not make NOT NULL.
pub proof fn law_migration_plan(current: Seq<ColumnSpec>, desired: Seq<ColumnSpec>)
    requires
        plan_spec(current, desired) is Ok,
    ensures
        ({
            let norm = normalize_from(desired, 0)->Ok_0;
            let p = plan_spec(current, desired)->Ok_0;
            &&& p.adds == norm.filter(new_column_pred())
            &&& p.drops == current.map_values(name_of()).filter(dropped_pred(norm))
            &&& p.renames == norm.filter(renamed_pred()).map_values(rename_pair())
            &&& p.relaxations == norm.filter(relaxed_pred(current)).map_values(orig_of())
            &&& forall|k: int| 0 <= k < norm.len() ==> keeps_existing(current, #[trigger] norm[k])
        }),
{
    let norm = normalize_from(desired, 0)->Ok_0;
    lemma_retained_changes(current, norm, 0);
    assert(norm.skip(0) =~= norm);
    lemma_adds_filter(norm);
    lemma_drops_filter(current, norm);
}

// ---------------------------------------------------------------------------
// Added columns are the requested new columns
// ---------------------------------------------------------------------------

/// An edited column with a non-blank name.
pub open spec fn named_pred() -> spec_fn(ColumnSpec) -> bool {
    |c: ColumnSpec| trim(c.name).len() > 0
}

/// The column with its name trimmed and everything else as given.
pub open spec fn trimmed_name() -> spec_fn(ColumnSpec) -> ColumnSpec {
    |c: ColumnSpec| ColumnSpec { name: trim(c.name), type_key: c.type_key, nullable: c.nullable, orig_name: c.orig_name }
}

proof fn lemma_normalize_filter(cols: Seq<ColumnSpec>, i: int)
    requires
        0 <= i <= cols.len(),
        normalize_from(cols, i) is Ok,
    ensures
        normalize_from(cols, i)->Ok_0 == cols.skip(i).filter(named_pred()).map_values(trimmed_name()),
    decreases cols.len() - i,
{
    broadcast use Seq::filter_distributes_over_add;

    if i == cols.len() {
        assert(cols.skip(i) =~= Seq::<ColumnSpec>::empty());
        reveal(Seq::filter);
        assert(Seq::<ColumnSpec>::empty().filter(named_pred()) =~= Seq::<ColumnSpec>::empty());
        assert(Seq::<ColumnSpec>::empty().map_values(trimmed_name()) =~= Seq::<ColumnSpec>::empty());
    } else {
        lemma_normalize_filter(cols, i + 1);
        let c = cols[i];
        let rest = cols.skip(i + 1);
        assert(cols.skip(i) =~= seq![c] + rest);
        lemma_singleton_filter(c, named_pred());
        let fa = seq![c].filter(named_pred());
        let fb = rest.filter(named_pred());
        assert((fa + fb).map_values(trimmed_name()) =~= fa.map_values(trimmed_name()) + fb.map_values(
            trimmed_name(),
        ));
        if trim(c.name).len() > 0 {
            assert(fa.map_values(trimmed_name()) =~= seq![trimmed_name()(c)]);
        } else {
            assert(fa.map_values(trimmed_name()) =~= Seq::<ColumnSpec>::empty());
        }
    }
}

proof fn lemma_filter_new_after_trim(s: Seq<ColumnSpec>)
    ensures
        s.map_values(trimmed_name()).filter(new_column_pred()) == s.filter(new_column_pred()).map_values(
            trimmed_name(),
        ),
    decreases s.len(),
{
    reveal(Seq::filter);
    if s.len() > 0 {
        lemma_filter_new_after_trim(s.drop_last());
        assert(s.map_values(trimmed_name()).drop_last() =~= s.drop_last().map_values(trimmed_name()));
        assert(s.map_values(trimmed_name()).last() == trimmed_name()(s.last()));
        let a = s.drop_last().filter(new_column_pred());
        if new_column_pred()(s.last()) {
            assert(a.push(s.last()).map_values(trimmed_name()) =~= a.map_values(trimmed_name()).push(
                trimmed_name()(s.last()),
            ));
        }
    } else {
        assert(s.map_values(trimmed_name()) =~= Seq::<ColumnSpec>::empty());
        assert(s.filter(new_column_pred()) =~= Seq::<ColumnSpec>::empty());
    }
}

/// The columns a migration adds are the requested new columns with a
/// non-blank name, in the requested order, each with its name trimmed and
/// its type and nullability exactly as requested.
pub proof fn law_added_columns_as_requested(current: Seq<ColumnSpec>, desired: Seq<ColumnSpec>)
    requires
        plan_spec(current, desired) is Ok,
    ensures
        plan_spec(current, desired)->Ok_0.adds == desired.filter(named_pred()).filter(new_column_pred()).map_values(
            trimmed_name(),
        ),
{
    law_migration_plan(current, desired);
    lemma_normalize_filter(desired, 0);
    assert(desired.skip(0) =~= desired);
    lemma_filter_new_after_trim(desired.filter(named_pred()));
}

} // verus!
