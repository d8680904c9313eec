//! The DDL statements that create, copy, migrate and rebuild user tables.
use vstd::prelude::*;

use crate::error::{is_validation, DomainError};
use crate::names::{column_name_error, quote_ident_spec, quote_ident_vec, validate_column_name};
use crate::schema::{
    build_table_definition, cols_view, column_def_spec, column_definition_sql, join, table_definition_spec,
    ColumnMigrationPlan, ColumnSpec, PlanSpec, TableColumnInput,
};
use crate::text::{append_vec, chars_of, chars_of_string, seq_eq, string_of, trim, trim_vec, vv};

verus! {

/// `CREATE TABLE "name" (definition)`.
pub open spec fn create_table_spec(name: Seq<char>, definition: Seq<char>) -> Seq<char> {
    "CREATE TABLE "@ + quote_ident_spec(name) + " ("@ + definition + ")"@
}

pub fn create_table_ddl(name: &str, definition: &str) -> (s: String)
    ensures
        s@ == create_table_spec(name@, definition@),
{
    let mut r = chars_of("CREATE TABLE ");
    let n = chars_of(name);
    let q = quote_ident_vec(&n);
    append_vec(&mut r, &q);
    let a = chars_of(" (");
    append_vec(&mut r, &a);
    let d = chars_of(definition);
    append_vec(&mut r, &d);
    let b = chars_of(")");
    append_vec(&mut r, &b);
    string_of(&r)
}

/// `SELECT COUNT(*) FROM "name"`, followed by the WHERE clause when there is one.
pub open spec fn count_sql_spec(name: Seq<char>, where_clause: Seq<char>) -> Seq<char> {
    if where_clause.len() == 0 {
        "SELECT COUNT(*) FROM "@ + quote_ident_spec(name)
    } else {
        "SELECT COUNT(*) FROM "@ + quote_ident_spec(name) + " "@ + where_clause
    }
}

pub fn count_rows_sql(name: &str, where_clause: &str) -> (s: String)
    ensures
        s@ == count_sql_spec(name@, where_clause@),
{
    let mut r = chars_of("SELECT COUNT(*) FROM ");
    let n = chars_of(name);
    let q = quote_ident_vec(&n);
    append_vec(&mut r, &q);
    let w = chars_of(where_clause);
    if w.len() > 0 {
        let sp = chars_of(" ");
        append_vec(&mut r, &sp);
        append_vec(&mut r, &w);
    }
    string_of(&r)
}

// ---------------------------------------------------------------------------
// Migrating columns in place
// ---------------------------------------------------------------------------

/// Whether the plan adds a NOT NULL column (refused on a table with rows).
pub fn has_not_null_add(plan: &ColumnMigrationPlan) -> (b: bool)
    ensures
        b == exists|i: int| 0 <= i < plan.adds@.len() && !(#[trigger] plan.adds@[i]).nullable,
{
    let mut i: usize = 0;
    while i < plan.adds.len()
        invariant
            i <= plan.adds.len(),
            forall|k: int| 0 <= k < i ==> (#[trigger] plan.adds@[k]).nullable,
        decreases plan.adds.len() - i,
    {
        if !plan.adds[i].nullable {
            return true;
        }
        i += 1;
    }
    false
}

/// A NOT NULL column cannot be added to a table that has rows.
pub fn check_not_null_add_rows(row_count: i64) -> (r: Result<(), DomainError>)
    ensures
        row_count <= 0 ==> r is Ok,
        row_count > 0 ==> is_validation(r, "既存データがあるテーブルには NOT NULL な列を追加できません"@),
{
    if row_count > 0 {
        return Err(DomainError::Validation(String::from_str("既存データがあるテーブルには NOT NULL な列を追加できません")));
    }
    Ok(())
}

/// A change that `ALTER TABLE` cannot make (a column relaxed to NULL)
/// rebuilds the table instead.
pub fn migration_needs_rebuild(plan: &ColumnMigrationPlan) -> (b: bool)
    ensures
        b == (plan.nullable_relaxations@.len() > 0),
{
    plan.nullable_relaxations.len() > 0
}

/// The `ALTER TABLE` statements of a plan: renames, then drops, then adds.
pub open spec fn migration_ddl_spec(table: Seq<char>, p: PlanSpec) -> Result<Seq<Seq<char>>, Seq<char>> {
    let q = quote_ident_spec(table);
    let renames = Seq::new(
        p.renames.len(),
        |i: int|
            "ALTER TABLE "@ + q + " RENAME COLUMN "@ + quote_ident_spec(p.renames[i].0) + " TO "@
                + quote_ident_spec(p.renames[i].1),
    );
    let drops = Seq::new(
        p.drops.len(),
        |i: int| "ALTER TABLE "@ + q + " DROP COLUMN "@ + quote_ident_spec(p.drops[i]),
    );
    match add_ddls_spec(q, p.adds) {
        Err(m) => Err(m),
        Ok(adds) => Ok(renames + drops + adds),
    }
}

/// `ADD COLUMN` statements of the added columns; the first bad type is the error.
pub open spec fn add_ddls_spec(q: Seq<char>, adds: Seq<ColumnSpec>) -> Result<Seq<Seq<char>>, Seq<char>>
    decreases adds.len(),
{
    if adds.len() == 0 {
        Ok(seq![])
    } else {
        match add_ddls_spec(q, adds.drop_last()) {
            Err(m) => Err(m),
            Ok(acc) => match column_def_spec(adds.last().name, adds.last()) {
                Err(m) => Err(m),
                Ok(d) => Ok(acc.push("ALTER TABLE "@ + q + " ADD COLUMN "@ + d)),
            },
        }
    }
}

proof fn lemma_add_ddls_err_sticky(q: Seq<char>, adds: Seq<ColumnSpec>, i: int)
    requires
        0 <= i <= adds.len(),
        add_ddls_spec(q, adds.take(i)) is Err,
    ensures
        add_ddls_spec(q, adds) == add_ddls_spec(q, adds.take(i)),
    decreases adds.len() - i,
{
    if i < adds.len() {
        assert(adds.take(i + 1).drop_last() =~= adds.take(i));
        lemma_add_ddls_err_sticky(q, adds, i + 1);
    } else {
        assert(adds.take(i) =~= adds);
    }
}

/// The `ALTER TABLE` statements that carry out a migration plan.
pub fn migration_ddl_statements(table_name: &str, plan: &ColumnMigrationPlan) -> (r: Result<Vec<String>, DomainError>)
    ensures
        match migration_ddl_spec(table_name@, plan@) {
            Ok(s) => r matches Ok(v) && v.deep_view() == s,
            Err(m) => is_validation(r, m),
        },
{
    let tv = chars_of(table_name);
    let q = quote_ident_vec(&tv);
    let ghost p = plan@;
    let mut out: Vec<String> = Vec::new();
    let mut i: usize = 0;
    while i < plan.renames.len()
        invariant
            i <= plan.renames.len(),
            p == plan@,
            q@ == quote_ident_spec(table_name@),
            out.deep_view() =~= Seq::new(
                i as nat,
                |k: int|
                    "ALTER TABLE "@ + q@ + " RENAME COLUMN "@ + quote_ident_spec(p.renames[k].0) + " TO "@
                        + quote_ident_spec(p.renames[k].1),
            ),
        decreases plan.renames.len() - i,
    {
        let mut s = chars_of("ALTER TABLE ");
        append_vec(&mut s, &q);
        let a = chars_of(" RENAME COLUMN ");
        append_vec(&mut s, &a);
        let o = chars_of_string(&plan.renames[i].0);
        append_vec(&mut s, &quote_ident_vec(&o));
        let b = chars_of(" TO ");
        append_vec(&mut s, &b);
        let n = chars_of_string(&plan.renames[i].1);
        append_vec(&mut s, &quote_ident_vec(&n));
        assert(p.renames[i as int] == (plan.renames@[i as int].0@, plan.renames@[i as int].1@));
        let st = string_of(&s);
        let ghost old = out.deep_view();
        out.push(st);
        assert(out.deep_view() =~= old.push(st@));
        i += 1;
    }
    let ghost nr = out.deep_view();
    let mut j: usize = 0;
    while j < plan.drops.len()
        invariant
            j <= plan.drops.len(),
            p == plan@,
            q@ == quote_ident_spec(table_name@),
            out.deep_view() =~= nr + Seq::new(
                j as nat,
                |k: int| "ALTER TABLE "@ + q@ + " DROP COLUMN "@ + quote_ident_spec(p.drops[k]),
            ),
        decreases plan.drops.len() - j,
    {
        let mut s = chars_of("ALTER TABLE ");
        append_vec(&mut s, &q);
        let a = chars_of(" DROP COLUMN ");
        append_vec(&mut s, &a);
        let d = chars_of_string(&plan.drops[j]);
        append_vec(&mut s, &quote_ident_vec(&d));
        assert(p.drops[j as int] == plan.drops@[j as int]@);
        let st = string_of(&s);
        let ghost old = out.deep_view();
        out.push(st);
        assert(out.deep_view() =~= old.push(st@));
        j += 1;
    }
    let ghost nd = out.deep_view();
    let ghost adds = cols_view(plan.adds@);
    let mut k: usize = 0;
    assert(adds.take(0) =~= seq![]);
    assert(out.deep_view() =~= nd + seq![]);
    while k < plan.adds.len()
        invariant
            k <= plan.adds.len(),
            p == plan@,
            adds == cols_view(plan.adds@),
            adds == p.adds,
            q@ == quote_ident_spec(table_name@),
            add_ddls_spec(q@, adds.take(k as int)) matches Ok(acc) && out.deep_view() =~= nd + acc,
        decreases plan.adds.len() - k,
    {
        let ghost t = adds.take(k + 1);
        assert(t.drop_last() =~= adds.take(k as int));
        assert(t.last() == plan.adds@[k as int]@);
        let c = &plan.adds[k];
        match column_definition_sql(c.name.as_str(), c) {
            Err(e) => {
                proof {
                    lemma_add_ddls_err_sticky(q@, adds, k + 1);
                }
                return Err(e);
            },
            Ok(d) => {
                let mut s = chars_of("ALTER TABLE ");
                append_vec(&mut s, &q);
                let a = chars_of(" ADD COLUMN ");
                append_vec(&mut s, &a);
                let dv = chars_of_string(&d);
                append_vec(&mut s, &dv);
                let st = string_of(&s);
                let ghost old = out.deep_view();
                out.push(st);
                assert(out.deep_view() =~= old.push(st@));
            },
        }
        k += 1;
    }
    assert(adds.take(plan.adds@.len() as int) =~= adds);
    Ok(out)
}

// ---------------------------------------------------------------------------
// Rebuilding a table
// ---------------------------------------------------------------------------

/// The statements that rebuild a table and the renames its stored
/// preferences follow.
#[derive(Debug, Clone)]
pub struct RebuildPlan {
    pub create: String,
    pub insert: String,
    pub drop: String,
    pub rename: String,
    pub renames: Vec<(String, String)>,
}

/// The columns of a rebuilt table: non-blank names, checked and trimmed.
pub open spec fn rebuild_columns_spec(desired: Seq<ColumnSpec>) -> Result<Seq<ColumnSpec>, Seq<char>>
    decreases desired.len(),
{
    if desired.len() == 0 {
        Ok(seq![])
    } else {
        match rebuild_columns_spec(desired.drop_last()) {
            Err(m) => Err(m),
            Ok(acc) => {
                let c = desired.last();
                if trim(c.name).len() == 0 {
                    Ok(acc)
                } else {
                    match column_name_error(trim(c.name)) {
                        Some(m) => Err(m),
                        None => Ok(acc.push(ColumnSpec { name: trim(c.name), ..c })),
                    }
                }
            },
        }
    }
}

/// The rebuild statements: a new table, the rows copied by column (new
/// columns left NULL), the old table dropped and the new one renamed.
pub open spec fn rebuild_spec(table: Seq<char>, desired: Seq<ColumnSpec>) -> Result<
    (Seq<char>, Seq<char>, Seq<char>, Seq<char>, Seq<(Seq<char>, Seq<char>)>),
    Seq<char>,
> {
    match rebuild_columns_spec(desired) {
        Err(m) => Err(m),
        Ok(cols) => match table_definition_spec(cols) {
            Err(m) => Err(m),
            Ok(definition) => {
                let temp = table + "__cms_rebuild"@;
                let qt = quote_ident_spec(temp);
                let q = quote_ident_spec(table);
                let dest = seq![quote_ident_spec("id"@)] + Seq::new(cols.len(), |i: int| quote_ident_spec(cols[i].name));
                let src = seq!["id"@] + Seq::new(
                    cols.len(),
                    |i: int|
                        match cols[i].orig_name {
                            Some(o) => quote_ident_spec(o),
                            None => "NULL"@,
                        },
                );
                Ok(
                    (
                        "CREATE TABLE "@ + qt + " ("@ + definition + ")"@,
                        "INSERT INTO "@ + qt + " ("@ + join(dest, ", "@) + ") SELECT "@ + join(src, ", "@) + " FROM "@
                            + q,
                        "DROP TABLE "@ + q,
                        "ALTER TABLE "@ + qt + " RENAME TO "@ + q,
                        rebuild_renames_spec(cols),
                    ),
                )
            },
        },
    }
}

/// `(old, new)` for each column whose name changed.
pub open spec fn rebuild_renames_spec(cols: Seq<ColumnSpec>) -> Seq<(Seq<char>, Seq<char>)>
    decreases cols.len(),
{
    if cols.len() == 0 {
        seq![]
    } else {
        let acc = rebuild_renames_spec(cols.drop_last());
        let c = cols.last();
        match c.orig_name {
            Some(o) => if o == c.name {
                acc
            } else {
                acc.push((o, c.name))
            },
            None => acc,
        }
    }
}

proof fn lemma_rebuild_err_sticky(desired: Seq<ColumnSpec>, i: int)
    requires
        0 <= i <= desired.len(),
        rebuild_columns_spec(desired.take(i)) is Err,
    ensures
        rebuild_columns_spec(desired) == rebuild_columns_spec(desired.take(i)),
    decreases desired.len() - i,
{
    if i < desired.len() {
        assert(desired.take(i + 1).drop_last() =~= desired.take(i));
        lemma_rebuild_err_sticky(desired, i + 1);
    } else {
        assert(desired.take(i) =~= desired);
    }
}

fn copy_opt_string(o: &Option<String>) -> (r: Option<String>)
    ensures
        crate::sql_view::opt_view(r) == crate::sql_view::opt_view(*o),
{
    match o {
        Some(s) => Some(s.clone()),
        None => None,
    }
}

/// The statements that rebuild a table with the desired columns.
pub fn rebuild_table_statements(table_name: &str, desired: &[TableColumnInput]) -> (r: Result<RebuildPlan, DomainError>)
    ensures
        match rebuild_spec(table_name@, cols_view(desired@)) {
            Ok((c, ins, d, ren, rs)) => r matches Ok(p) && p.create@ == c && p.insert@ == ins && p.drop@ == d
                && p.rename@ == ren && crate::prefs::pairs_view(p.renames@) == rs,
            Err(m) => is_validation(r, m),
        },
{
    let ghost dv = cols_view(desired@);
    let mut normalized: Vec<TableColumnInput> = Vec::new();
    let mut i: usize = 0;
    assert(dv.take(0) =~= seq![]);
    assert(cols_view(normalized@) =~= seq![]);
    while i < desired.len()
        invariant
            i <= desired.len(),
            dv == cols_view(desired@),
            rebuild_columns_spec(dv.take(i as int)) == Ok::<Seq<ColumnSpec>, Seq<char>>(cols_view(normalized@)),
        decreases desired.len() - i,
    {
        let ghost t = dv.take(i + 1);
        assert(t.drop_last() =~= dv.take(i as int));
        assert(t.last() == desired@[i as int]@);
        let c = &desired[i];
        let nv = chars_of_string(&c.name);
        if trim_vec(&nv).len() > 0 {
            match validate_column_name(c.name.as_str()) {
                Err(e) => {
                    proof {
                        lemma_rebuild_err_sticky(dv, i + 1);
                    }
                    return Err(e);
                },
                Ok(name) => {
                    let col = TableColumnInput {
                        name,
                        type_key: c.type_key.clone(),
                        nullable: c.nullable,
                        orig_name: copy_opt_string(&c.orig_name),
                    };
                    let ghost old = cols_view(normalized@);
                    normalized.push(col);
                    assert(cols_view(normalized@) =~= old.push(col@));
                },
            }
        }
        i += 1;
    }
    assert(dv.take(desired@.len() as int) =~= dv);
    let ghost cols = cols_view(normalized@);
    let definition = match build_table_definition(normalized.as_slice()) {
        Err(e) => return Err(e),
        Ok(d) => d,
    };
    let tn = chars_of(table_name);
    let q = quote_ident_vec(&tn);
    let mut temp = tn.clone();
    let suffix = chars_of("__cms_rebuild");
    append_vec(&mut temp, &suffix);
    let qt = quote_ident_vec(&temp);
    let idv = chars_of("id");
    let mut dest: Vec<Vec<char>> = Vec::new();
    dest.push(quote_ident_vec(&idv));
    let mut srcs: Vec<Vec<char>> = Vec::new();
    srcs.push(idv.clone());
    let mut renames: Vec<(String, String)> = Vec::new();
    let mut k: usize = 0;
    assert(cols.take(0) =~= seq![]);
    assert(crate::prefs::pairs_view(renames@) =~= seq![]);
    while k < normalized.len()
        invariant
            k <= normalized.len(),
            cols == cols_view(normalized@),
            idv@ == "id"@,
            vv(dest@) =~= seq![quote_ident_spec("id"@)] + Seq::new(k as nat, |x: int| quote_ident_spec(cols[x].name)),
            vv(srcs@) =~= seq!["id"@] + Seq::new(
                k as nat,
                |x: int|
                    match cols[x].orig_name {
                        Some(o) => quote_ident_spec(o),
                        None => "NULL"@,
                    },
            ),
            crate::prefs::pairs_view(renames@) == rebuild_renames_spec(cols.take(k as int)),
        decreases normalized.len() - k,
    {
        let c = &normalized[k];
        assert(cols[k as int] == c@);
        let ghost t = cols.take(k + 1);
        assert(t.drop_last() =~= cols.take(k as int));
        assert(t.last() == c@);
        let nv = chars_of_string(&c.name);
        let ghost od = vv(dest@);
        let qn = quote_ident_vec(&nv);
        dest.push(qn);
        assert(vv(dest@) =~= od.push(qn@));
        let ghost os = vv(srcs@);
        let sv = match &c.orig_name {
            Some(o) => {
                let ov = chars_of_string(o);
                quote_ident_vec(&ov)
            },
            None => chars_of("NULL"),
        };
        srcs.push(sv);
        assert(vv(srcs@) =~= os.push(sv@));
        match &c.orig_name {
            Some(o) => {
                let ov = chars_of_string(o);
                if !seq_eq(&ov, &nv) {
                    let pr = (o.clone(), c.name.clone());
                    let ghost old = crate::prefs::pairs_view(renames@);
                    renames.push(pr);
                    assert(crate::prefs::pairs_view(renames@) =~= old.push((pr.0@, pr.1@)));
                }
            },
            None => {},
        }
        k += 1;
    }
    assert(cols.take(normalized@.len() as int) =~= cols);
    let sep = chars_of(", ");
    let dj = crate::schema::join_vecs(&dest, &sep);
    let sj = crate::schema::join_vecs(&srcs, &sep);
    let dfv = chars_of_string(&definition);
    let mut create = chars_of("CREATE TABLE ");
    append_vec(&mut create, &qt);
    let op = chars_of(" (");
    append_vec(&mut create, &op);
    append_vec(&mut create, &dfv);
    let cp = chars_of(")");
    append_vec(&mut create, &cp);
    let mut insert = chars_of("INSERT INTO ");
    append_vec(&mut insert, &qt);
    append_vec(&mut insert, &op);
    append_vec(&mut insert, &dj);
    let sel = chars_of(") SELECT ");
    append_vec(&mut insert, &sel);
    append_vec(&mut insert, &sj);
    let from = chars_of(" FROM ");
    append_vec(&mut insert, &from);
    append_vec(&mut insert, &q);
    let mut drop = chars_of("DROP TABLE ");
    append_vec(&mut drop, &q);
    let mut rename = chars_of("ALTER TABLE ");
    append_vec(&mut rename, &qt);
    let rt = chars_of(" RENAME TO ");
    append_vec(&mut rename, &rt);
    append_vec(&mut rename, &q);
    Ok(RebuildPlan {
        create: string_of(&create),
        insert: string_of(&insert),
        drop: string_of(&drop),
        rename: string_of(&rename),
        renames,
    })
}

// ---------------------------------------------------------------------------
// Changing a view
// ---------------------------------------------------------------------------

/// One step of changing a view, in a transaction.
#[derive(Debug, Clone)]
pub enum ViewUpdateStep {
    /// Run a DDL statement.
    Execute(String),
    /// Move the stored preferences of the view to its new name.
    MoveStoredPreferences { from: String, to: String },
    /// Drop the stored sort and filter of the view (its columns may have changed).
    ClearSortFilter(String),
}

pub enum StepP {
    Execute(Seq<char>),
    MoveStoredPreferences { from: Seq<char>, to: Seq<char> },
    ClearSortFilter(Seq<char>),
}

impl View for ViewUpdateStep {
    type V = StepP;

    open spec fn view(&self) -> StepP {
        match self {
            ViewUpdateStep::Execute(s) => StepP::Execute(s@),
            ViewUpdateStep::MoveStoredPreferences { from, to } => StepP::MoveStoredPreferences {
                from: from@,
                to: to@,
            },
            ViewUpdateStep::ClearSortFilter(n) => StepP::ClearSortFilter(n@),
        }
    }
}

pub open spec fn steps_view(v: Seq<ViewUpdateStep>) -> Seq<StepP> {
    Seq::new(v.len(), |i: int| v[i]@)
}

/// `DROP VIEW IF EXISTS "name"`.
pub open spec fn drop_view_spec(name: Seq<char>) -> Seq<char> {
    "DROP VIEW IF EXISTS "@ + quote_ident_spec(name)
}

/// The steps that give view `old` the name `new` and the (checked)
/// definition: a renamed view is created under the new name, takes the old
/// one's preferences, and the old one is dropped, its sort and filter cleared
/// only when the definition changed; a view that keeps its name is dropped and
/// created again, and its sort and filter are cleared.
pub open spec fn view_update_spec(old: Seq<char>, new: Seq<char>, definition: Seq<char>, old_definition: Seq<char>) -> Seq<
    StepP,
> {
    if old != new {
        let base = seq![
            StepP::Execute(crate::sql_build::create_view_ddl_spec(new, definition)),
            StepP::MoveStoredPreferences { from: old, to: new },
            StepP::Execute(drop_view_spec(old)),
        ];
        if trim(old_definition) != trim(definition) {
            base.push(StepP::ClearSortFilter(new))
        } else {
            base
        }
    } else {
        seq![
            StepP::Execute(drop_view_spec(old)),
            StepP::Execute(crate::sql_build::create_view_ddl_spec(old, definition)),
            StepP::ClearSortFilter(old),
        ]
    }
}

fn drop_view_ddl(name: &str) -> (s: String)
    ensures
        s@ == drop_view_spec(name@),
{
    let mut r = chars_of("DROP VIEW IF EXISTS ");
    let n = chars_of(name);
    append_vec(&mut r, &quote_ident_vec(&n));
    string_of(&r)
}

fn message3(a: &str, b: &str, c: &str) -> (s: String)
    ensures
        s@ == a@ + b@ + c@,
{
    let mut m = chars_of(a);
    let t = chars_of(b);
    append_vec(&mut m, &t);
    let u = chars_of(c);
    append_vec(&mut m, &u);
    string_of(&m)
}

/// The steps that change view `old_name` (checked to exist) into
/// `new_name` with `definition` (checked), given its current definition and
/// whether a view or a table already has the new name. A rename onto a taken
/// name is a conflict.
pub fn plan_view_update(
    old_name: &str,
    new_name: &str,
    definition: &str,
    old_definition: &str,
    new_name_is_view: bool,
    new_name_is_table: bool,
) -> (r: Result<Vec<ViewUpdateStep>, DomainError>)
    ensures
        old_name@ != new_name@ && new_name_is_view ==> crate::error::is_conflict(
            r,
            "ビュー `"@ + new_name@ + "` は既に存在します"@,
        ),
        old_name@ != new_name@ && !new_name_is_view && new_name_is_table ==> crate::error::is_conflict(
            r,
            "同名のテーブル `"@ + new_name@ + "` が既に存在します"@,
        ),
        old_name@ == new_name@ || (!new_name_is_view && !new_name_is_table) ==> (r matches Ok(v) && steps_view(v@)
            == view_update_spec(old_name@, new_name@, definition@, old_definition@)),
{
    let ov = chars_of(old_name);
    let nv = chars_of(new_name);
    let renaming = !seq_eq(&ov, &nv);
    let mut steps: Vec<ViewUpdateStep> = Vec::new();
    if renaming {
        if new_name_is_view {
            return Err(DomainError::Conflict(message3("ビュー `", new_name, "` は既に存在します")));
        }
        if new_name_is_table {
            return Err(DomainError::Conflict(message3("同名のテーブル `", new_name, "` が既に存在します")));
        }
        steps.push(ViewUpdateStep::Execute(crate::sql_build::create_view_ddl(new_name, definition)));
        steps.push(
            ViewUpdateStep::MoveStoredPreferences { from: String::from_str(old_name), to: String::from_str(new_name) },
        );
        steps.push(ViewUpdateStep::Execute(drop_view_ddl(old_name)));
        let od = chars_of(old_definition);
        let nd = chars_of(definition);
        if !seq_eq(&trim_vec(&od), &trim_vec(&nd)) {
            steps.push(ViewUpdateStep::ClearSortFilter(String::from_str(new_name)));
        }
    } else {
        steps.push(ViewUpdateStep::Execute(drop_view_ddl(old_name)));
        steps.push(ViewUpdateStep::Execute(crate::sql_build::create_view_ddl(old_name, definition)));
        steps.push(ViewUpdateStep::ClearSortFilter(String::from_str(old_name)));
    }
    assert(steps_view(steps@) =~= view_update_spec(old_name@, new_name@, definition@, old_definition@));
    Ok(steps)
}

// ---------------------------------------------------------------------------
// Copying a table
// ---------------------------------------------------------------------------

/// Columns copied into a duplicate: `id` and the source columns the copy
/// keeps (a desired column with a non-blank name), in the source's order.
pub open spec fn copy_columns_spec(source_columns: Seq<Seq<char>>, desired: Seq<ColumnSpec>) -> Seq<Seq<char>> {
    source_columns.filter(
        |n: Seq<char>|
            n == "id"@ || exists|j: int| 0 <= j < desired.len() && trim(desired[j].name).len() > 0 && desired[j].name == n,
    )
}

fn kept_by_copy(desired: &[TableColumnInput], n: &Vec<char>) -> (b: bool)
    ensures
        b == exists|j: int| 0 <= j < desired@.len() && trim(desired@[j]@.name).len() > 0 && desired@[j]@.name == n@,
{
    let mut j: usize = 0;
    while j < desired.len()
        invariant
            j <= desired.len(),
            forall|x: int| 0 <= x < j ==> !(trim(desired@[x]@.name).len() > 0 && desired@[x]@.name == n@),
        decreases desired.len() - j,
    {
        let dn = chars_of_string(&desired[j].name);
        if trim_vec(&dn).len() > 0 && seq_eq(&dn, n) {
            return true;
        }
        j += 1;
    }
    false
}

/// `INSERT INTO "target" (cols) SELECT cols FROM "source"` for the columns a
/// duplicate keeps.
pub fn duplicate_insert_sql(source: &str, target: &str, source_columns: &[String], desired: &[TableColumnInput]) -> (s:
    String)
    ensures
        ({
            let cols = Seq::new(
                copy_columns_spec(crate::prefs::strings_view(source_columns@), cols_view(desired@)).len(),
                |i: int|
                    quote_ident_spec(
                        copy_columns_spec(crate::prefs::strings_view(source_columns@), cols_view(desired@))[i],
                    ),
            );
            s@ == "INSERT INTO "@ + quote_ident_spec(target@) + " ("@ + join(cols, ", "@) + ") SELECT "@ + join(
                cols,
                ", "@,
            ) + " FROM "@ + quote_ident_spec(source@)
        }),
{
    let ghost sv = crate::prefs::strings_view(source_columns@);
    let ghost dv = cols_view(desired@);
    let ghost pred = |n: Seq<char>|
        n == "id"@ || exists|j: int| 0 <= j < dv.len() && trim(dv[j].name).len() > 0 && dv[j].name == n;
    let idv = chars_of("id");
    let mut quoted: Vec<Vec<char>> = Vec::new();
    let mut i: usize = 0;
    proof {
        reveal(Seq::filter);
        assert(sv.take(0) =~= seq![]);
        assert(vv(quoted@) =~= seq![]);
    }
    while i < source_columns.len()
        invariant
            i <= source_columns.len(),
            sv == crate::prefs::strings_view(source_columns@),
            dv == cols_view(desired@),
            idv@ == "id"@,
            pred == (|n: Seq<char>|
                n == "id"@ || exists|j: int| 0 <= j < dv.len() && trim(dv[j].name).len() > 0 && dv[j].name == n),
            vv(quoted@) =~= Seq::new(
                sv.take(i as int).filter(pred).len(),
                |x: int| quote_ident_spec(sv.take(i as int).filter(pred)[x]),
            ),
        decreases source_columns.len() - i,
    {
        proof {
            reveal(Seq::filter);
            assert(sv.take(i + 1).drop_last() =~= sv.take(i as int));
            assert(sv.take(i + 1).last() == source_columns@[i as int]@);
        }
        let ghost prev = sv.take(i as int).filter(pred);
        let n = chars_of_string(&source_columns[i]);
        let keep = seq_eq(&n, &idv) || kept_by_copy(desired, &n);
        assert(keep == pred(n@)) by {
            if exists|j: int| 0 <= j < dv.len() && trim(dv[j].name).len() > 0 && dv[j].name == n@ {
                let j = choose|j: int| 0 <= j < dv.len() && trim(dv[j].name).len() > 0 && dv[j].name == n@;
                assert(dv[j] == desired@[j]@);
            }
            if exists|j: int|
                0 <= j < desired@.len() && trim(desired@[j]@.name).len() > 0 && desired@[j]@.name == n@ {
                let j = choose|j: int|
                    0 <= j < desired@.len() && trim(desired@[j]@.name).len() > 0 && desired@[j]@.name == n@;
                assert(dv[j] == desired@[j]@);
            }
        }
        if keep {
            let qn = quote_ident_vec(&n);
            let ghost old = vv(quoted@);
            quoted.push(qn);
            proof {
                let cur = sv.take(i + 1).filter(pred);
                assert(cur =~= prev.push(n@));
                assert(vv(quoted@) =~= old.push(qn@));
            }
        }
        i += 1;
    }
    assert(sv.take(source_columns@.len() as int) =~= sv);
    let sep = chars_of(", ");
    let body = crate::schema::join_vecs(&quoted, &sep);
    let mut r = chars_of("INSERT INTO ");
    let tv = chars_of(target);
    append_vec(&mut r, &quote_ident_vec(&tv));
    let op = chars_of(" (");
    append_vec(&mut r, &op);
    append_vec(&mut r, &body);
    let sel = chars_of(") SELECT ");
    append_vec(&mut r, &sel);
    append_vec(&mut r, &body);
    let from = chars_of(" FROM ");
    append_vec(&mut r, &from);
    let srcv = chars_of(source);
    append_vec(&mut r, &quote_ident_vec(&srcv));
    string_of(&r)
}

} // verus!
