//! Simple view definitions (`SELECT … FROM table [WHERE …]`): parsing them
//! into the UI builder's state and generating SQL back from that state.
use vstd::prelude::*;

use crate::error::{is_validation, DomainError};
use crate::names::{ident_error, quote_ident_spec, quote_ident_vec, validate_identifier_chars};
use crate::schema::{join, join_vecs};
use crate::sql_scan::{
    first_keyword_from, find_sql_keyword, find_top_level_keyword,
    find_top_level_keyword_with_parens, ident_prefix_spec, keyword_at, keyword_prefix_at,
    keyword_prefix_at_exec, keyword_vec, kw_parens_from, last_space_from, last_top_level_space,
    parse_sql_identifier_prefix, split_and_spec, split_commas_spec, split_top_level_and,
    split_top_level_commas, start_state, strip_comments_spec, strip_sql_comments, top_kw_from,
};
use crate::text::{
    append_vec, chars_of, chars_of_string, contains_char, ends_with, ends_with_exec, seq_eq,
    starts_with, starts_with_exec, string_of, sub_vec, trim, trim_vec, upper_seq, upper_vec, vv,
};

verus! {

// ---------------------------------------------------------------------------
// Data
// ---------------------------------------------------------------------------

/// A column of the parsed SELECT list.
#[derive(Debug, Clone)]
pub struct ParsedViewColumn {
    pub name: String,
    pub alias: Option<String>,
    pub expression: Option<String>,
}

/// The parsed SELECT list.
#[derive(Debug, Clone)]
pub enum ParsedViewColumnList {
    All,
    Columns(Vec<ParsedViewColumn>),
}

/// A simple WHERE condition: a column followed by the rest of the condition.
#[derive(Debug, Clone, PartialEq, Eq)]
pub struct ParsedWhereCondition {
    pub column: String,
    pub suffix: String,
}

/// A parsed `SELECT … FROM table` definition.
#[derive(Debug, Clone)]
pub struct ParsedSimpleViewSelect {
    pub base_table: String,
    pub distinct: bool,
    pub columns: ParsedViewColumnList,
    pub where_conditions: Vec<ParsedWhereCondition>,
}

pub struct ColumnP {
    pub name: Seq<char>,
    pub alias: Option<Seq<char>>,
    pub expression: Option<Seq<char>>,
}

pub struct CondP {
    pub column: Seq<char>,
    pub suffix: Seq<char>,
}

pub enum ListP {
    All,
    Columns(Seq<ColumnP>),
}

pub struct SelectP {
    pub base_table: Seq<char>,
    pub distinct: bool,
    pub columns: ListP,
    pub where_conditions: Seq<CondP>,
}

pub open spec fn opt_view(o: Option<String>) -> Option<Seq<char>> {
    match o {
        Some(s) => Some(s@),
        None => None,
    }
}

impl View for ParsedViewColumn {
    type V = ColumnP;

    open spec fn view(&self) -> ColumnP {
        ColumnP { name: self.name@, alias: opt_view(self.alias), expression: opt_view(self.expression) }
    }
}

impl View for ParsedWhereCondition {
    type V = CondP;

    open spec fn view(&self) -> CondP {
        CondP { column: self.column@, suffix: self.suffix@ }
    }
}

pub open spec fn pcols_view(v: Seq<ParsedViewColumn>) -> Seq<ColumnP> {
    Seq::new(v.len(), |i: int| v[i]@)
}

pub open spec fn conds_view(v: Seq<ParsedWhereCondition>) -> Seq<CondP> {
    Seq::new(v.len(), |i: int| v[i]@)
}

impl View for ParsedViewColumnList {
    type V = ListP;

    open spec fn view(&self) -> ListP {
        match self {
            ParsedViewColumnList::All => ListP::All,
            ParsedViewColumnList::Columns(v) => ListP::Columns(pcols_view(v@)),
        }
    }
}

impl View for ParsedSimpleViewSelect {
    type V = SelectP;

    open spec fn view(&self) -> SelectP {
        SelectP {
            base_table: self.base_table@,
            distinct: self.distinct,
            columns: self.columns@,
            where_conditions: conds_view(self.where_conditions@),
        }
    }
}

// ---------------------------------------------------------------------------
// Parsing specification
// ---------------------------------------------------------------------------

/// `table` or `schema.table` at the start of `input`; the text after it.
pub open spec fn table_ref_spec(input: Seq<char>) -> Option<(Seq<char>, Seq<char>)> {
    match ident_prefix_spec(input) {
        None => None,
        Some((first, rest0)) => {
            let rest = trim(rest0);
            if rest.len() > 0 && rest[0] == '.' {
                ident_prefix_spec(trim(rest.subrange(1, rest.len() as int)))
            } else {
                Some((first, rest))
            }
        },
    }
}

/// A clause keyword that cannot be an implicit alias.
pub open spec fn is_clause_keyword(word: Seq<char>) -> bool {
    let u = upper_seq(word);
    ||| u == "WHERE"@
    ||| u == "JOIN"@
    ||| u == "GROUP"@
    ||| u == "HAVING"@
    ||| u == "ORDER"@
    ||| u == "LIMIT"@
    ||| u == "UNION"@
    ||| u == "EXCEPT"@
    ||| u == "INTERSECT"@
    ||| u == "ON"@
}

/// Some clause the simple view builder does not support follows the table.
pub open spec fn unsupported_clause(rest: Seq<char>) -> bool {
    ||| first_keyword_from(rest, "JOIN"@, 0) is Some
    ||| first_keyword_from(rest, "GROUP"@, 0) is Some
    ||| first_keyword_from(rest, "HAVING"@, 0) is Some
    ||| first_keyword_from(rest, "ORDER"@, 0) is Some
    ||| first_keyword_from(rest, "LIMIT"@, 0) is Some
    ||| first_keyword_from(rest, "UNION"@, 0) is Some
    ||| first_keyword_from(rest, "EXCEPT"@, 0) is Some
    ||| first_keyword_from(rest, "INTERSECT"@, 0) is Some
}

pub open spec fn finish_from(base: Seq<char>, alias: Option<Seq<char>>, rest: Seq<char>) -> Option<
    (Seq<char>, Option<Seq<char>>, Seq<char>),
> {
    if unsupported_clause(rest) {
        None
    } else {
        Some((base, alias, rest))
    }
}

/// The FROM clause: base table, optional alias (`AS x` or implicit) and the
/// text that follows.
pub open spec fn from_clause_spec(input: Seq<char>) -> Option<(Seq<char>, Option<Seq<char>>, Seq<char>)> {
    match table_ref_spec(input) {
        None => None,
        Some((base, rest0)) => {
            let rest = trim(rest0);
            if keyword_prefix_at(rest, "AS"@, 0) {
                match ident_prefix_spec(trim(rest.subrange(2, rest.len() as int))) {
                    None => None,
                    Some((alias, after)) => finish_from(base, Some(alias), trim(after)),
                }
            } else {
                match ident_prefix_spec(rest) {
                    Some((cand, after)) => if !is_clause_keyword(cand) && (trim(after).len() == 0
                        || keyword_prefix_at(trim(after), "WHERE"@, 0)) {
                        finish_from(base, Some(cand), trim(after))
                    } else {
                        finish_from(base, None, rest)
                    },
                    None => finish_from(base, None, rest),
                }
            }
        },
    }
}

pub open spec fn qualifier_matches_spec(q: Seq<char>, base: Seq<char>, alias: Option<Seq<char>>) -> bool {
    q == base || alias == Some(q)
}

/// `q.*` where `q` names the base table or its alias.
pub open spec fn qualified_star_spec(expr: Seq<char>, base: Seq<char>, alias: Option<Seq<char>>) -> bool {
    let e = trim(expr);
    &&& ends_with(e, ".*"@)
    &&& e.len() >= 2
    &&& {
        let q = trim(e.subrange(0, e.len() - 2));
        &&& q.len() > 0
        &&& match ident_prefix_spec(q) {
            Some((n, r)) => trim(r).len() == 0 && qualifier_matches_spec(n, base, alias),
            None => false,
        }
    }
}

/// `qualifier.name` and nothing else.
pub open spec fn dotted_spec(input: Seq<char>) -> Option<(Seq<char>, Seq<char>)> {
    match ident_prefix_spec(input) {
        None => None,
        Some((q, r0)) => {
            let r = trim(r0);
            if !(r.len() > 0 && r[0] == '.') {
                None
            } else {
                match ident_prefix_spec(trim(r.subrange(1, r.len() as int))) {
                    None => None,
                    Some((n, after)) => if trim(after).len() != 0 {
                        None
                    } else {
                        Some((q, n))
                    },
                }
            }
        },
    }
}

pub open spec fn qualified_column_spec(expr: Seq<char>, base: Seq<char>, alias: Option<Seq<char>>) -> Option<
    Seq<char>,
> {
    match dotted_spec(expr) {
        Some((q, n)) => if qualifier_matches_spec(q, base, alias) {
            Some(n)
        } else {
            None
        },
        None => None,
    }
}

/// `expr alias` with the alias after the last top-level whitespace.
pub open spec fn implicit_alias_spec(item: Seq<char>) -> Option<(Seq<char>, Seq<char>)> {
    match last_space_from(item, 0, start_state(), None) {
        None => None,
        Some(k) => {
            let e = trim(item.subrange(0, k));
            let ap = trim(item.subrange(k, item.len() as int));
            if e.len() == 0 || ap.len() == 0 {
                None
            } else {
                match ident_prefix_spec(ap) {
                    None => None,
                    Some((a, r)) => if trim(r).len() != 0 || is_clause_keyword(a) {
                        None
                    } else {
                        Some((e, a))
                    },
                }
            }
        },
    }
}

/// A select item split into its expression and alias.
pub open spec fn alias_split_spec(item: Seq<char>) -> Option<(Seq<char>, Option<Seq<char>>)> {
    match kw_parens_from(item, 0, start_state(), "AS"@) {
        Some(p) => {
            let e = trim(item.subrange(0, p));
            let after = trim(item.subrange(p + 2, item.len() as int));
            match ident_prefix_spec(after) {
                None => None,
                Some((a, r)) => if trim(r).len() != 0 {
                    None
                } else {
                    Some((e, Some(a)))
                },
            }
        },
        None => match implicit_alias_spec(item) {
            Some((e, a)) => Some((e, Some(a))),
            None => Some((item, None)),
        },
    }
}

/// One item of the SELECT list.
pub open spec fn single_item_spec(item: Seq<char>, base: Seq<char>, alias: Option<Seq<char>>) -> Option<ColumnP> {
    let t = trim(item);
    if t == "*"@ || qualified_star_spec(t, base, alias) {
        None
    } else {
        match alias_split_spec(t) {
            None => None,
            Some((e, al)) => if e.len() == 0 {
                None
            } else {
                match qualified_column_spec(e, base, alias) {
                    Some(c) => Some(ColumnP { name: c, alias: al, expression: None }),
                    None => match ident_prefix_spec(e) {
                        Some((n, r)) => if trim(r).len() == 0 {
                            Some(ColumnP { name: n, alias: al, expression: None })
                        } else {
                            Some(ColumnP { name: seq![], alias: al, expression: Some(e) })
                        },
                        None => Some(ColumnP { name: seq![], alias: al, expression: Some(e) }),
                    },
                }
            },
        }
    }
}

pub open spec fn items_from(parts: Seq<Seq<char>>, i: int, base: Seq<char>, alias: Option<Seq<char>>) -> Option<
    Seq<ColumnP>,
>
    decreases parts.len() - i,
{
    if i < 0 || i >= parts.len() {
        Some(seq![])
    } else {
        match single_item_spec(parts[i], base, alias) {
            None => None,
            Some(c) => match items_from(parts, i + 1, base, alias) {
                None => None,
                Some(rest) => Some(seq![c] + rest),
            },
        }
    }
}

/// Name of a select item in the view's output.
pub open spec fn output_name_spec(c: ColumnP) -> Seq<char> {
    match c.alias {
        Some(a) => a,
        None => match c.expression {
            Some(e) => e,
            None => c.name,
        },
    }
}

pub open spec fn output_names_unique(cols: Seq<ColumnP>) -> bool {
    forall|i: int, j: int|
        0 <= i < j < cols.len() ==> output_name_spec(#[trigger] cols[i]) != output_name_spec(
            #[trigger] cols[j],
        )
}

pub open spec fn select_list_spec(sp: Seq<char>, base: Seq<char>, alias: Option<Seq<char>>) -> Option<ListP> {
    if sp == "*"@ || qualified_star_spec(sp, base, alias) {
        Some(ListP::All)
    } else {
        match split_commas_spec(sp) {
            None => None,
            Some(parts) => match items_from(parts, 0, base, alias) {
                None => None,
                Some(items) => if items.len() == 0 || !output_names_unique(items) {
                    None
                } else {
                    Some(ListP::Columns(items))
                },
            },
        }
    }
}

/// One `column suffix` or `qualifier.column suffix` condition.
pub open spec fn column_where_spec(part: Seq<char>, base: Seq<char>, alias: Option<Seq<char>>) -> Option<CondP> {
    let t = trim(part);
    let qualified: Option<Option<CondP>> = match ident_prefix_spec(t) {
        Some((q, r0)) => {
            let r = trim(r0);
            if r.len() > 0 && r[0] == '.' {
                match ident_prefix_spec(trim(r.subrange(1, r.len() as int))) {
                    Some((col, sr)) => Some(
                        if qualifier_matches_spec(q, base, alias) {
                            if trim(sr).len() == 0 {
                                None
                            } else {
                                Some(CondP { column: col, suffix: trim(sr) })
                            }
                        } else {
                            None
                        },
                    ),
                    None => None,
                }
            } else {
                None
            }
        },
        None => None,
    };
    match qualified {
        Some(res) => res,
        None => match ident_prefix_spec(t) {
            None => None,
            Some((col, r)) => if trim(r).len() == 0 {
                None
            } else {
                Some(CondP { column: col, suffix: trim(r) })
            },
        },
    }
}

pub open spec fn conds_from(parts: Seq<Seq<char>>, i: int, base: Seq<char>, alias: Option<Seq<char>>) -> Option<
    Seq<CondP>,
>
    decreases parts.len() - i,
{
    if i < 0 || i >= parts.len() {
        Some(seq![])
    } else {
        match column_where_spec(parts[i], base, alias) {
            None => None,
            Some(c) => match conds_from(parts, i + 1, base, alias) {
                None => None,
                Some(rest) => Some(seq![c] + rest),
            },
        }
    }
}

pub open spec fn where_conditions_spec(wp: Seq<char>, base: Seq<char>, alias: Option<Seq<char>>) -> Option<
    Seq<CondP>,
> {
    if top_kw_from(wp, 0, false, "OR"@) is Some {
        None
    } else {
        match split_and_spec(wp) {
            None => None,
            Some(parts) => conds_from(parts, 0, base, alias),
        }
    }
}

pub open spec fn optional_where_spec(after: Seq<char>, base: Seq<char>, alias: Option<Seq<char>>) -> Option<
    Seq<CondP>,
> {
    if after.len() == 0 {
        Some(seq![])
    } else if !keyword_prefix_at(after, "WHERE"@, 0) {
        None
    } else {
        let wp = trim(after.subrange(5, after.len() as int));
        if wp.len() == 0 {
            None
        } else {
            where_conditions_spec(wp, base, alias)
        }
    }
}

/// `(select list, distinct)` after an optional leading DISTINCT or ALL.
pub open spec fn distinct_split(sp0: Seq<char>) -> (Seq<char>, bool) {
    if keyword_prefix_at(sp0, "DISTINCT"@, 0) {
        (trim(sp0.subrange(8, sp0.len() as int)), true)
    } else if keyword_prefix_at(sp0, "ALL"@, 0) {
        (trim(sp0.subrange(3, sp0.len() as int)), false)
    } else {
        (sp0, false)
    }
}

/// The simple view definition `definition` parsed for the UI builder, or
/// `None` when it is not of the supported form.
pub open spec fn parse_view_spec(definition: Seq<char>) -> Option<SelectP> {
    let t = trim(strip_comments_spec(trim(definition)));
    if !starts_with(upper_seq(t), "SELECT"@) {
        None
    } else {
        match first_keyword_from(t, "FROM"@, 6) {
            None => None,
            Some(p) => {
                let sp0 = trim(t.subrange(6, p));
                let af = trim(t.subrange(p + 4, t.len() as int));
                if af.len() == 0 {
                    None
                } else {
                    let (sp, distinct) = distinct_split(sp0);
                    match from_clause_spec(af) {
                        None => None,
                        Some((base, alias, rem)) => match optional_where_spec(rem, base, alias) {
                            None => None,
                            Some(w) => match select_list_spec(sp, base, alias) {
                                None => None,
                                Some(cols) => Some(
                                    SelectP {
                                        base_table: base,
                                        distinct,
                                        columns: cols,
                                        where_conditions: w,
                                    },
                                ),
                            },
                        },
                    }
                }
            },
        }
    }
}

// ---------------------------------------------------------------------------
// Parsing
// ---------------------------------------------------------------------------

fn vec_is(a: &Vec<char>, b: &str) -> (r: bool)
    ensures
        r == (a@ == b@),
{
    let vb = chars_of(b);
    seq_eq(a, &vb)
}

fn copy_vec(a: &Vec<char>) -> (r: Vec<char>)
    ensures
        r@ == a@,
{
    sub_vec(a, 0, a.len())
}

fn copy_opt(a: &Option<Vec<char>>) -> (r: Option<Vec<char>>)
    ensures
        match a {
            None => r is None,
            Some(x) => r matches Some(y) && y@ == x@,
        },
{
    match a {
        None => None,
        Some(x) => Some(copy_vec(x)),
    }
}

pub open spec fn vopt(o: Option<Vec<char>>) -> Option<Seq<char>> {
    match o {
        Some(v) => Some(v@),
        None => None,
    }
}

fn opt_string(o: &Option<Vec<char>>) -> (r: Option<String>)
    ensures
        opt_view(r) == vopt(*o),
{
    match o {
        None => None,
        Some(v) => Some(string_of(v)),
    }
}

fn parse_table_reference(input: &Vec<char>) -> (r: Option<(Vec<char>, Vec<char>)>)
    ensures
        match table_ref_spec(input@) {
            None => r is None,
            Some((a, b)) => r matches Some((x, y)) && x@ == a && y@ == b,
        },
{
    let (first, rest0) = match parse_sql_identifier_prefix(input) {
        None => return None,
        Some(p) => p,
    };
    let rest = trim_vec(&rest0);
    if rest.len() > 0 && rest[0] == '.' {
        let after = sub_vec(&rest, 1, rest.len());
        let t = trim_vec(&after);
        return parse_sql_identifier_prefix(&t);
    }
    Some((first, rest))
}

/// A clause keyword that cannot be a table or column alias.
pub fn is_sql_clause_keyword(word: &Vec<char>) -> (b: bool)
    ensures
        b == is_clause_keyword(word@),
{
    let u = upper_vec(word);
    vec_is(&u, "WHERE") || vec_is(&u, "JOIN") || vec_is(&u, "GROUP") || vec_is(&u, "HAVING")
        || vec_is(&u, "ORDER") || vec_is(&u, "LIMIT") || vec_is(&u, "UNION") || vec_is(
        &u,
        "EXCEPT",
    ) || vec_is(&u, "INTERSECT") || vec_is(&u, "ON")
}

fn has_keyword(s: &Vec<char>, kw: &str) -> (b: bool)
    ensures
        b == (first_keyword_from(s@, kw@, 0) is Some),
{
    let k = keyword_vec(kw);
    find_sql_keyword(s, &k, 0).is_some()
}

/// The text after the table holds a JOIN, GROUP BY, HAVING, ORDER BY, LIMIT
/// or a compound operator.
pub fn contains_unsupported_trailing_clause(remainder: &Vec<char>) -> (b: bool)
    ensures
        b == unsupported_clause(remainder@),
{
    has_keyword(remainder, "JOIN") || has_keyword(remainder, "GROUP") || has_keyword(
        remainder,
        "HAVING",
    ) || has_keyword(remainder, "ORDER") || has_keyword(remainder, "LIMIT") || has_keyword(
        remainder,
        "UNION",
    ) || has_keyword(remainder, "EXCEPT") || has_keyword(remainder, "INTERSECT")
}

fn finish_from_exec(base: Vec<char>, alias: Option<Vec<char>>, rest: Vec<char>) -> (r: Option<
    (Vec<char>, Option<Vec<char>>, Vec<char>),
>)
    ensures
        match finish_from(base@, vopt(alias), rest@) {
            None => r is None,
            Some((b, a, x)) => r matches Some((b2, a2, x2)) && b2@ == b && vopt(a2) == a && x2@ == x,
        },
{
    if contains_unsupported_trailing_clause(&rest) {
        return None;
    }
    Some((base, alias, rest))
}

/// Parses the FROM clause: base table, optional alias and the remaining text.
pub fn parse_from_clause(input: &Vec<char>) -> (r: Option<(Vec<char>, Option<Vec<char>>, Vec<char>)>)
    ensures
        match from_clause_spec(input@) {
            None => r is None,
            Some((b, a, x)) => r matches Some((b2, a2, x2)) && b2@ == b && vopt(a2) == a && x2@ == x,
        },
{
    let (base, rest0) = match parse_table_reference(input) {
        None => return None,
        Some(p) => p,
    };
    let rest = trim_vec(&rest0);
    let as_kw = keyword_vec("AS");
    if keyword_prefix_at_exec(&rest, &as_kw, 0) {
        proof {
            reveal_strlit("AS");
        }
        let after = sub_vec(&rest, 2, rest.len());
        let t = trim_vec(&after);
        match parse_sql_identifier_prefix(&t) {
            None => return None,
            Some((alias, after_alias)) => {
                let r2 = trim_vec(&after_alias);
                return finish_from_exec(base, Some(alias), r2);
            },
        }
    }
    match parse_sql_identifier_prefix(&rest) {
        Some((cand, after_cand)) => {
            let at = trim_vec(&after_cand);
            let where_kw = keyword_vec("WHERE");
            if !is_sql_clause_keyword(&cand) && (at.len() == 0 || keyword_prefix_at_exec(
                &at,
                &where_kw,
                0,
            )) {
                finish_from_exec(base, Some(cand), at)
            } else {
                finish_from_exec(base, None, rest)
            }
        },
        None => finish_from_exec(base, None, rest),
    }
}

fn qualifier_matches(q: &Vec<char>, base: &Vec<char>, alias: &Option<Vec<char>>) -> (b: bool)
    ensures
        b == qualifier_matches_spec(q@, base@, vopt(*alias)),
{
    if seq_eq(q, base) {
        return true;
    }
    match alias {
        None => false,
        Some(a) => seq_eq(q, a),
    }
}

fn is_matching_qualified_star(expr: &Vec<char>, base: &Vec<char>, alias: &Option<Vec<char>>) -> (b:
    bool)
    ensures
        b == qualified_star_spec(expr@, base@, vopt(*alias)),
{
    let e = trim_vec(expr);
    let suffix = vec!['.', '*'];
    assert(suffix@ =~= ".*"@) by {
        reveal_strlit(".*");
    }
    if !ends_with_exec(&e, &suffix) {
        return false;
    }
    let head = sub_vec(&e, 0, e.len() - 2);
    let q = trim_vec(&head);
    if q.len() == 0 {
        return false;
    }
    match parse_sql_identifier_prefix(&q) {
        Some((name, rest)) => {
            let rt = trim_vec(&rest);
            rt.len() == 0 && qualifier_matches(&name, base, alias)
        },
        None => false,
    }
}

fn parse_dotted_identifier(input: &Vec<char>) -> (r: Option<(Vec<char>, Vec<char>)>)
    ensures
        match dotted_spec(input@) {
            None => r is None,
            Some((a, b)) => r matches Some((x, y)) && x@ == a && y@ == b,
        },
{
    let (q, rest0) = match parse_sql_identifier_prefix(input) {
        None => return None,
        Some(p) => p,
    };
    let rest = trim_vec(&rest0);
    if !(rest.len() > 0 && rest[0] == '.') {
        return None;
    }
    let after = sub_vec(&rest, 1, rest.len());
    let t = trim_vec(&after);
    match parse_sql_identifier_prefix(&t) {
        None => None,
        Some((n, after_name)) => {
            let at = trim_vec(&after_name);
            if at.len() != 0 {
                None
            } else {
                Some((q, n))
            }
        },
    }
}

fn parse_qualified_column_name(expr: &Vec<char>, base: &Vec<char>, alias: &Option<Vec<char>>) -> (r:
    Option<Vec<char>>)
    ensures
        vopt(r) == qualified_column_spec(expr@, base@, vopt(*alias)),
{
    match parse_dotted_identifier(expr) {
        Some((q, n)) => if qualifier_matches(&q, base, alias) {
            Some(n)
        } else {
            None
        },
        None => None,
    }
}

fn split_trailing_implicit_alias(item: &Vec<char>) -> (r: Option<(Vec<char>, Vec<char>)>)
    ensures
        match implicit_alias_spec(item@) {
            None => r is None,
            Some((a, b)) => r matches Some((x, y)) && x@ == a && y@ == b,
        },
{
    let k = match last_top_level_space(item) {
        None => return None,
        Some(k) => k,
    };
    let head = sub_vec(item, 0, k);
    let e = trim_vec(&head);
    let tail = sub_vec(item, k, item.len());
    let ap = trim_vec(&tail);
    if e.len() == 0 || ap.len() == 0 {
        return None;
    }
    match parse_sql_identifier_prefix(&ap) {
        None => None,
        Some((a, rest)) => {
            let rt = trim_vec(&rest);
            if rt.len() != 0 || is_sql_clause_keyword(&a) {
                None
            } else {
                Some((e, a))
            }
        },
    }
}

fn split_select_item_alias(item: &Vec<char>) -> (r: Option<(Vec<char>, Option<Vec<char>>)>)
    ensures
        match alias_split_spec(item@) {
            None => r is None,
            Some((a, b)) => r matches Some((x, y)) && x@ == a && vopt(y) == b,
        },
{
    let as_kw = keyword_vec("AS");
    let found = find_top_level_keyword_with_parens(item, &as_kw);
    match found {
        Some(p) => {
            proof {
                reveal_strlit("AS");
            }
            assert(as_kw@.len() == 2);
            let n = item.len();
            assert(p + 2 <= n);
            let p2 = p + 2;
            let head = sub_vec(item, 0, p);
            let e = trim_vec(&head);
            let tail = sub_vec(item, p2, n);
            let after = trim_vec(&tail);
            match parse_sql_identifier_prefix(&after) {
                None => None,
                Some((a, rest)) => {
                    let rt = trim_vec(&rest);
                    if rt.len() != 0 {
                        None
                    } else {
                        Some((e, Some(a)))
                    }
                },
            }
        },
        None => match split_trailing_implicit_alias(item) {
            Some((e, a)) => Some((e, Some(a))),
            None => Some((copy_vec(item), None)),
        },
    }
}

fn parse_single_select_item(item: &Vec<char>, base: &Vec<char>, alias: &Option<Vec<char>>) -> (r:
    Option<ParsedViewColumn>)
    ensures
        match single_item_spec(item@, base@, vopt(*alias)) {
            None => r is None,
            Some(c) => r matches Some(x) && x@ == c,
        },
{
    let t = trim_vec(item);
    if vec_is(&t, "*") || is_matching_qualified_star(&t, base, alias) {
        return None;
    }
    let (e, al) = match split_select_item_alias(&t) {
        None => return None,
        Some(p) => p,
    };
    if e.len() == 0 {
        return None;
    }
    let als = opt_string(&al);
    match parse_qualified_column_name(&e, base, alias) {
        Some(c) => {
            return Some(ParsedViewColumn { name: string_of(&c), alias: als, expression: None });
        },
        None => {},
    }
    match parse_sql_identifier_prefix(&e) {
        Some((n, rest)) => {
            let rt = trim_vec(&rest);
            if rt.len() == 0 {
                return Some(ParsedViewColumn { name: string_of(&n), alias: als, expression: None });
            }
        },
        None => {},
    }
    Some(ParsedViewColumn { name: String::new(), alias: als, expression: Some(string_of(&e)) })
}

fn parse_comma_separated_select_items(input: &Vec<char>, base: &Vec<char>, alias: &Option<Vec<char>>) -> (r:
    Option<Vec<ParsedViewColumn>>)
    ensures
        match split_commas_spec(input@) {
            None => r is None,
            Some(parts) => match items_from(parts, 0, base@, vopt(*alias)) {
                None => r is None,
                Some(items) => r matches Some(v) && pcols_view(v@) == items,
            },
        },
{
    let parts = match split_top_level_commas(input) {
        None => return None,
        Some(p) => p,
    };
    let ghost ps = vv(parts@);
    let mut out: Vec<ParsedViewColumn> = Vec::new();
    let mut i: usize = 0;
    while i < parts.len()
        invariant
            i <= parts.len(),
            ps == vv(parts@),
            split_commas_spec(input@) == Some(ps),
            items_from(ps, 0, base@, vopt(*alias)) == match items_from(ps, i as int, base@, vopt(*alias)) {
                None => None,
                Some(rest) => Some(pcols_view(out@) + rest),
            },
        decreases parts.len() - i,
    {
        assert(ps[i as int] == parts@[i as int]@);
        let c = match parse_single_select_item(&parts[i], base, alias) {
            None => return None,
            Some(c) => c,
        };
        let ghost old = pcols_view(out@);
        out.push(c);
        proof {
            assert(pcols_view(out@) =~= old.push(c@));
            match items_from(ps, i + 1, base@, vopt(*alias)) {
                None => {},
                Some(rest) => {
                    assert(pcols_view(out@) + rest =~= old + (seq![c@] + rest));
                },
            }
        }
        i += 1;
    }
    assert(pcols_view(out@) + seq![] =~= pcols_view(out@));
    Some(out)
}

fn select_output_name(c: &ParsedViewColumn) -> (r: Vec<char>)
    ensures
        r@ == output_name_spec(c@),
{
    match &c.alias {
        Some(a) => chars_of_string(a),
        None => match &c.expression {
            Some(e) => chars_of_string(e),
            None => chars_of_string(&c.name),
        },
    }
}

fn select_output_names_unique(cols: &Vec<ParsedViewColumn>) -> (b: bool)
    ensures
        b == output_names_unique(pcols_view(cols@)),
{
    let ghost cv = pcols_view(cols@);
    let mut j: usize = 0;
    while j < cols.len()
        invariant
            j <= cols.len(),
            cv == pcols_view(cols@),
            forall|a: int, b: int| 0 <= a < b < j ==> output_name_spec(#[trigger] cv[a]) != output_name_spec(#[trigger] cv[b]),
        decreases cols.len() - j,
    {
        let nj = select_output_name(&cols[j]);
        assert(cv[j as int] == cols@[j as int]@);
        let mut i: usize = 0;
        while i < j
            invariant
                i <= j < cols.len(),
                cv == pcols_view(cols@),
                nj@ == output_name_spec(cv[j as int]),
                forall|a: int| 0 <= a < i ==> output_name_spec(#[trigger] cv[a]) != nj@,
            decreases j - i,
        {
            let ni = select_output_name(&cols[i]);
            assert(cv[i as int] == cols@[i as int]@);
            if seq_eq(&ni, &nj) {
                assert(output_name_spec(cv[i as int]) == output_name_spec(cv[j as int]));
                return false;
            }
            i += 1;
        }
        j += 1;
    }
    true
}

fn parse_select_column_list(select_part: &Vec<char>, base: &Vec<char>, alias: &Option<Vec<char>>) -> (r:
    Option<ParsedViewColumnList>)
    ensures
        match select_list_spec(select_part@, base@, vopt(*alias)) {
            None => r is None,
            Some(l) => r matches Some(x) && x@ == l,
        },
{
    if vec_is(select_part, "*") || is_matching_qualified_star(select_part, base, alias) {
        return Some(ParsedViewColumnList::All);
    }
    let items = match parse_comma_separated_select_items(select_part, base, alias) {
        None => return None,
        Some(v) => v,
    };
    if items.len() == 0 {
        return None;
    }
    if !select_output_names_unique(&items) {
        return None;
    }
    Some(ParsedViewColumnList::Columns(items))
}

fn parse_column_where_condition(part: &Vec<char>, base: &Vec<char>, alias: &Option<Vec<char>>) -> (r:
    Option<ParsedWhereCondition>)
    ensures
        match column_where_spec(part@, base@, vopt(*alias)) {
            None => r is None,
            Some(c) => r matches Some(x) && x@ == c,
        },
{
    let t = trim_vec(part);
    match parse_sql_identifier_prefix(&t) {
        Some((q, rest0)) => {
            let rest = trim_vec(&rest0);
            if rest.len() > 0 && rest[0] == '.' {
                let after = sub_vec(&rest, 1, rest.len());
                let ad = trim_vec(&after);
                match parse_sql_identifier_prefix(&ad) {
                    Some((col, sr)) => {
                        if qualifier_matches(&q, base, alias) {
                            let suffix = trim_vec(&sr);
                            if suffix.len() == 0 {
                                return None;
                            }
                            return Some(
                                ParsedWhereCondition {
                                    column: string_of(&col),
                                    suffix: string_of(&suffix),
                                },
                            );
                        }
                        return None;
                    },
                    None => {},
                }
            }
        },
        None => {},
    }
    let (col, rest) = match parse_sql_identifier_prefix(&t) {
        None => return None,
        Some(p) => p,
    };
    let suffix = trim_vec(&rest);
    if suffix.len() == 0 {
        return None;
    }
    Some(ParsedWhereCondition { column: string_of(&col), suffix: string_of(&suffix) })
}

fn parse_simple_where_conditions(where_part: &Vec<char>, base: &Vec<char>, alias: &Option<Vec<char>>) -> (r:
    Option<Vec<ParsedWhereCondition>>)
    ensures
        match where_conditions_spec(where_part@, base@, vopt(*alias)) {
            None => r is None,
            Some(c) => r matches Some(x) && conds_view(x@) == c,
        },
{
    let or_kw = keyword_vec("OR");
    if find_top_level_keyword(where_part, 0, &or_kw).is_some() {
        return None;
    }
    let parts = match split_top_level_and(where_part) {
        None => return None,
        Some(p) => p,
    };
    let ghost ps = vv(parts@);
    let mut out: Vec<ParsedWhereCondition> = Vec::new();
    let mut i: usize = 0;
    while i < parts.len()
        invariant
            i <= parts.len(),
            ps == vv(parts@),
            where_conditions_spec(where_part@, base@, vopt(*alias)) == conds_from(ps, 0, base@, vopt(*alias)),
            conds_from(ps, 0, base@, vopt(*alias)) == match conds_from(ps, i as int, base@, vopt(*alias)) {
                None => None,
                Some(rest) => Some(conds_view(out@) + rest),
            },
        decreases parts.len() - i,
    {
        assert(ps[i as int] == parts@[i as int]@);
        let c = match parse_column_where_condition(&parts[i], base, alias) {
            None => return None,
            Some(c) => c,
        };
        let ghost old = conds_view(out@);
        out.push(c);
        proof {
            assert(conds_view(out@) =~= old.push(c@));
            match conds_from(ps, i + 1, base@, vopt(*alias)) {
                None => {},
                Some(rest) => {
                    assert(conds_view(out@) + rest =~= old + (seq![c@] + rest));
                },
            }
        }
        i += 1;
    }
    assert(conds_view(out@) + seq![] =~= conds_view(out@));
    Some(out)
}

fn parse_optional_where_conditions(after_table: &Vec<char>, base: &Vec<char>, alias: &Option<Vec<char>>) -> (r:
    Option<Vec<ParsedWhereCondition>>)
    ensures
        match optional_where_spec(after_table@, base@, vopt(*alias)) {
            None => r is None,
            Some(c) => r matches Some(x) && conds_view(x@) == c,
        },
{
    if after_table.len() == 0 {
        let v: Vec<ParsedWhereCondition> = Vec::new();
        assert(conds_view(v@) =~= seq![]);
        return Some(v);
    }
    let where_kw = keyword_vec("WHERE");
    if !keyword_prefix_at_exec(after_table, &where_kw, 0) {
        return None;
    }
    proof {
        reveal_strlit("WHERE");
    }
    let tail = sub_vec(after_table, 5, after_table.len());
    let wp = trim_vec(&tail);
    if wp.len() == 0 {
        return None;
    }
    parse_simple_where_conditions(&wp, base, alias)
}

/// Parses a simple `SELECT … FROM table [WHERE …]` view definition into the
/// UI builder's state; `None` when the definition is not of that form.
pub fn parse_simple_view_select(definition: &str) -> (r: Option<ParsedSimpleViewSelect>)
    ensures
        match parse_view_spec(definition@) {
            None => r is None,
            Some(p) => r matches Some(x) && x@ == p,
        },
{
    let d = chars_of(definition);
    let dt = trim_vec(&d);
    let stripped = strip_sql_comments(&dt);
    let t = trim_vec(&stripped);
    let upper = upper_vec(&t);
    let select_kw = keyword_vec("SELECT");
    if !starts_with_exec(&upper, &select_kw) {
        return None;
    }
    proof {
        reveal_strlit("SELECT");
        reveal_strlit("FROM");
    }
    let from_kw = keyword_vec("FROM");
    let p = match find_sql_keyword(&t, &from_kw, 6) {
        None => return None,
        Some(p) => p,
    };
    let head = sub_vec(&t, 6, p);
    let sp0 = trim_vec(&head);
    let tail = sub_vec(&t, p + 4, t.len());
    let af = trim_vec(&tail);
    if af.len() == 0 {
        return None;
    }
    let distinct_kw = keyword_vec("DISTINCT");
    let all_kw = keyword_vec("ALL");
    proof {
        reveal_strlit("DISTINCT");
        reveal_strlit("ALL");
    }
    let (sp, distinct) = if keyword_prefix_at_exec(&sp0, &distinct_kw, 0) {
        let rest = sub_vec(&sp0, 8, sp0.len());
        (trim_vec(&rest), true)
    } else if keyword_prefix_at_exec(&sp0, &all_kw, 0) {
        let rest = sub_vec(&sp0, 3, sp0.len());
        (trim_vec(&rest), false)
    } else {
        (sp0, false)
    };
    let (base, alias, rem) = match parse_from_clause(&af) {
        None => return None,
        Some(x) => x,
    };
    let wheres = match parse_optional_where_conditions(&rem, &base, &alias) {
        None => return None,
        Some(w) => w,
    };
    let columns = match parse_select_column_list(&sp, &base, &alias) {
        None => return None,
        Some(c) => c,
    };
    Some(
        ParsedSimpleViewSelect {
            base_table: string_of(&base),
            distinct,
            columns,
            where_conditions: wheres,
        },
    )
}

} // verus!
