//! Sort, filter and column-width preferences of the table data view: parsing
//! them from query strings, keeping them in step with the table's columns and
//! turning them into SQL.
use vstd::prelude::*;

use crate::error::{is_validation, DomainError};
use crate::names::{quote_ident_spec, quote_ident_vec};
use crate::schema::join;
use crate::sql_view::opt_view;
use crate::text::{
    char_index_from, chars_of, chars_of_string, find_char, lemma_char_index_from, lower_seq,
    lower_vec, split_char, split_char_vec, string_from_str, string_of, sub_vec, trim, trim_vec, vv,
};

verus! {

/// Direction of a column sort.
#[derive(Debug, Clone, Copy, PartialEq, Eq, Structural)]
pub enum TableSortDirection {
    Asc,
    Desc,
}

/// One column sort; the first entry has the highest priority.
#[derive(Debug, Clone)]
pub struct TableSortEntry {
    pub column: String,
    pub direction: TableSortDirection,
}

/// One column filter; several entries are combined with AND.
#[derive(Debug, Clone)]
pub struct TableFilterEntry {
    pub column: String,
    pub text: String,
}

pub struct SortP {
    pub column: Seq<char>,
    pub direction: TableSortDirection,
}

pub struct FilterP {
    pub column: Seq<char>,
    pub text: Seq<char>,
}

impl View for TableSortEntry {
    type V = SortP;

    open spec fn view(&self) -> SortP {
        SortP { column: self.column@, direction: self.direction }
    }
}

impl View for TableFilterEntry {
    type V = FilterP;

    open spec fn view(&self) -> FilterP {
        FilterP { column: self.column@, text: self.text@ }
    }
}

pub open spec fn sorts_view(v: Seq<TableSortEntry>) -> Seq<SortP> {
    Seq::new(v.len(), |i: int| v[i]@)
}

pub open spec fn filters_view(v: Seq<TableFilterEntry>) -> Seq<FilterP> {
    Seq::new(v.len(), |i: int| v[i]@)
}

pub open spec fn pairs_view(v: Seq<(String, String)>) -> Seq<(Seq<char>, Seq<char>)> {
    Seq::new(v.len(), |i: int| (v[i].0@, v[i].1@))
}

pub open spec fn strings_view(v: Seq<String>) -> Seq<Seq<char>> {
    Seq::new(v.len(), |i: int| v[i]@)
}

// ---------------------------------------------------------------------------
// `col:value,col2:value2` query fragments
// ---------------------------------------------------------------------------

/// One comma-separated piece: skipped when blank, else split at its first `:`
/// into a trimmed column name and the raw value.
pub open spec fn query_piece_spec(p: Seq<char>, kind: Seq<char>) -> Option<
    Result<(Seq<char>, Seq<char>), Seq<char>>,
> {
    let t = trim(p);
    if t.len() == 0 {
        None
    } else {
        match char_index_from(t, ':', 0) {
            None => Some(Err(kind + "指定の形式が不正です: `"@ + t + "`"@)),
            Some(k) => {
                let col = trim(t.subrange(0, k));
                if col.len() == 0 {
                    Some(Err(kind + "指定に列名が含まれていません"@))
                } else {
                    Some(Ok((col, t.subrange(k + 1, t.len() as int))))
                }
            },
        }
    }
}

/// The pieces in order; the first bad piece decides the error.
pub open spec fn query_pieces_spec(ps: Seq<Seq<char>>, kind: Seq<char>) -> Result<
    Seq<(Seq<char>, Seq<char>)>,
    Seq<char>,
>
    decreases ps.len(),
{
    if ps.len() == 0 {
        Ok(seq![])
    } else {
        match query_pieces_spec(ps.drop_last(), kind) {
            Err(m) => Err(m),
            Ok(acc) => match query_piece_spec(ps.last(), kind) {
                None => Ok(acc),
                Some(Err(m)) => Err(m),
                Some(Ok(pair)) => Ok(acc.push(pair)),
            },
        }
    }
}

/// Column/value pairs of a `col:value,...` fragment.
pub open spec fn split_query_spec(raw: Seq<char>, kind: Seq<char>) -> Result<
    Seq<(Seq<char>, Seq<char>)>,
    Seq<char>,
> {
    if raw.len() == 0 {
        Ok(seq![])
    } else {
        query_pieces_spec(split_char(raw, ','), kind)
    }
}

fn query_piece(p: &Vec<char>, kind: &Vec<char>) -> (r: Option<Result<(String, String), String>>)
    ensures
        match query_piece_spec(p@, kind@) {
            None => r is None,
            Some(Err(m)) => r matches Some(Err(x)) && x@ == m,
            Some(Ok(pair)) => r matches Some(Ok(x)) && x.0@ == pair.0 && x.1@ == pair.1,
        },
{
    let t = trim_vec(p);
    if t.len() == 0 {
        return None;
    }
    let found = find_char(&t, ':');
    proof {
        lemma_char_index_from(t@, ':', 0);
    }
    match found {
        None => {
            let mut m: Vec<char> = Vec::new();
            crate::text::append_vec(&mut m, kind);
            let a = chars_of("指定の形式が不正です: `");
            crate::text::append_vec(&mut m, &a);
            crate::text::append_vec(&mut m, &t);
            let b = chars_of("`");
            crate::text::append_vec(&mut m, &b);
            proof {
                assert(m@ =~= kind@ + "指定の形式が不正です: `"@ + t@ + "`"@);
            }
            Some(Err(string_of(&m)))
        },
        Some(k) => {
            let head = sub_vec(&t, 0, k);
            let col = trim_vec(&head);
            if col.len() == 0 {
                let mut m: Vec<char> = Vec::new();
                crate::text::append_vec(&mut m, kind);
                let a = chars_of("指定に列名が含まれていません");
                crate::text::append_vec(&mut m, &a);
                proof {
                    assert(m@ =~= kind@ + "指定に列名が含まれていません"@);
                }
                return Some(Err(string_of(&m)));
            }
            let value = sub_vec(&t, k + 1, t.len());
            Some(Ok((string_of(&col), string_of(&value))))
        },
    }
}

/// Splits a `col:value,col2:value2` fragment into column names and values.
pub fn split_column_value_query_parts(raw: &str, kind_label: &str) -> (r: Result<
    Vec<(String, String)>,
    DomainError,
>)
    ensures
        match split_query_spec(raw@, kind_label@) {
            Ok(ps) => r matches Ok(v) && pairs_view(v@) == ps,
            Err(m) => is_validation(r, m),
        },
{
    let rv = chars_of(raw);
    if rv.len() == 0 {
        let v: Vec<(String, String)> = Vec::new();
        assert(pairs_view(v@) =~= seq![]);
        return Ok(v);
    }
    let kind = chars_of(kind_label);
    let pieces = split_char_vec(&rv, ',');
    let ghost ps = vv(pieces@);
    let mut out: Vec<(String, String)> = Vec::new();
    let mut i: usize = 0;
    assert(ps.take(0) =~= seq![]);
    assert(pairs_view(out@) =~= seq![]);
    while i < pieces.len()
        invariant
            i <= pieces.len(),
            ps == vv(pieces@),
            ps == split_char(raw@, ','),
            kind@ == kind_label@,
            query_pieces_spec(ps.take(i as int), kind@) == Ok::<
                Seq<(Seq<char>, Seq<char>)>,
                Seq<char>,
            >(pairs_view(out@)),
        decreases pieces.len() - i,
    {
        let ghost t = ps.take(i + 1);
        assert(t.drop_last() =~= ps.take(i as int));
        assert(t.last() == pieces@[i as int]@);
        let q = query_piece(&pieces[i], &kind);
        match q {
            None => {},
            Some(Err(m)) => {
                proof {
                    assert(query_pieces_spec(t, kind@) == Err::<Seq<(Seq<char>, Seq<char>)>, Seq<char>>(m@));
                    lemma_pieces_err_sticky(ps, kind@, i + 1);
                    assert(ps.take(ps.len() as int) =~= ps);
                }
                return Err(DomainError::Validation(m));
            },
            Some(Ok(pair)) => {
                let ghost old = pairs_view(out@);
                out.push(pair);
                assert(pairs_view(out@) =~= old.push((pair.0@, pair.1@)));
            },
        }
        i += 1;
    }
    assert(ps.take(ps.len() as int) =~= ps);
    Ok(out)
}

proof fn lemma_pieces_err_sticky(ps: Seq<Seq<char>>, kind: Seq<char>, i: int)
    requires
        0 <= i <= ps.len(),
        query_pieces_spec(ps.take(i), kind) is Err,
    ensures
        query_pieces_spec(ps, kind) == query_pieces_spec(ps.take(i), kind),
    decreases ps.len() - i,
{
    if i < ps.len() {
        let t = ps.take(i + 1);
        assert(t.drop_last() =~= ps.take(i));
        lemma_pieces_err_sticky(ps, kind, i + 1);
    } else {
        assert(ps.take(i) =~= ps);
    }
}

// ---------------------------------------------------------------------------
// Sort and filter query parameters
// ---------------------------------------------------------------------------

/// Direction of one sort entry, by its trimmed, ASCII-lowercased text.
pub open spec fn direction_spec(d: Seq<char>) -> Result<TableSortDirection, Seq<char>> {
    let l = lower_seq(trim(d));
    if l == "asc"@ {
        Ok(TableSortDirection::Asc)
    } else if l == "desc"@ {
        Ok(TableSortDirection::Desc)
    } else {
        Err("ソート方向は asc または desc で指定してください: `"@ + l + "`"@)
    }
}

/// Sort entries of the pairs in order; the first bad direction decides the error.
pub open spec fn sort_entries_spec(ps: Seq<(Seq<char>, Seq<char>)>) -> Result<Seq<SortP>, Seq<char>>
    decreases ps.len(),
{
    if ps.len() == 0 {
        Ok(seq![])
    } else {
        match sort_entries_spec(ps.drop_last()) {
            Err(m) => Err(m),
            Ok(acc) => match direction_spec(ps.last().1) {
                Err(m) => Err(m),
                Ok(d) => Ok(acc.push(SortP { column: ps.last().0, direction: d })),
            },
        }
    }
}

pub open spec fn parse_sort_spec(raw: Seq<char>) -> Result<Seq<SortP>, Seq<char>> {
    match split_query_spec(raw, "ソート"@) {
        Err(m) => Err(m),
        Ok(ps) => sort_entries_spec(ps),
    }
}

proof fn lemma_sort_err_sticky(ps: Seq<(Seq<char>, Seq<char>)>, i: int)
    requires
        0 <= i <= ps.len(),
        sort_entries_spec(ps.take(i)) is Err,
    ensures
        sort_entries_spec(ps) == sort_entries_spec(ps.take(i)),
    decreases ps.len() - i,
{
    if i < ps.len() {
        let t = ps.take(i + 1);
        assert(t.drop_last() =~= ps.take(i));
        lemma_sort_err_sticky(ps, i + 1);
    } else {
        assert(ps.take(i) =~= ps);
    }
}

fn parse_direction(d: &String) -> (r: Result<TableSortDirection, String>)
    ensures
        match direction_spec(d@) {
            Ok(x) => r == Ok::<TableSortDirection, String>(x),
            Err(m) => r matches Err(s) && s@ == m,
        },
{
    let dv = chars_of_string(d);
    let t = trim_vec(&dv);
    let l = lower_vec(&t);
    let asc = chars_of("asc");
    let desc = chars_of("desc");
    if crate::text::seq_eq(&l, &asc) {
        return Ok(TableSortDirection::Asc);
    }
    if crate::text::seq_eq(&l, &desc) {
        return Ok(TableSortDirection::Desc);
    }
    let mut m = chars_of("ソート方向は asc または desc で指定してください: `");
    crate::text::append_vec(&mut m, &l);
    let b = chars_of("`");
    crate::text::append_vec(&mut m, &b);
    Err(string_of(&m))
}

/// Parses the query string `name:asc,age:desc`.
pub fn parse_sort_query_param(raw: &str) -> (r: Result<Vec<TableSortEntry>, DomainError>)
    ensures
        match parse_sort_spec(raw@) {
            Ok(es) => r matches Ok(v) && sorts_view(v@) == es,
            Err(m) => is_validation(r, m),
        },
{
    proof {
        reveal_strlit("ソート");
    }
    let parts = match split_column_value_query_parts(raw, "ソート") {
        Err(e) => return Err(e),
        Ok(p) => p,
    };
    let ghost ps = pairs_view(parts@);
    let mut out: Vec<TableSortEntry> = Vec::new();
    let mut i: usize = 0;
    assert(ps.take(0) =~= seq![]);
    assert(sorts_view(out@) =~= seq![]);
    while i < parts.len()
        invariant
            i <= parts.len(),
            ps == pairs_view(parts@),
            split_query_spec(raw@, "ソート"@) == Ok::<Seq<(Seq<char>, Seq<char>)>, Seq<char>>(ps),
            sort_entries_spec(ps.take(i as int)) == Ok::<Seq<SortP>, Seq<char>>(sorts_view(out@)),
        decreases parts.len() - i,
    {
        let ghost t = ps.take(i + 1);
        assert(t.drop_last() =~= ps.take(i as int));
        assert(t.last() == ps[i as int]);
        assert(ps[i as int].1 == parts@[i as int].1@);
        let pd = parse_direction(&parts[i].1);
        match pd {
            Err(m) => {
                proof {
                    assert(sort_entries_spec(t) == Err::<Seq<SortP>, Seq<char>>(m@));
                    lemma_sort_err_sticky(ps, i + 1);
                    assert(ps.take(ps.len() as int) =~= ps);
                }
                return Err(DomainError::Validation(m));
            },
            Ok(d) => {
                let e = TableSortEntry { column: parts[i].0.clone(), direction: d };
                let ghost old = sorts_view(out@);
                out.push(e);
                assert(sorts_view(out@) =~= old.push(e@));
            },
        }
        i += 1;
    }
    assert(ps.take(ps.len() as int) =~= ps);
    Ok(out)
}

/// What `urlencoding::decode` gives for a text: the decoded text, or `None`
/// when the decoded bytes are not UTF-8.
pub uninterp spec fn url_decoded(raw: Seq<char>) -> Option<Seq<char>>;

/// `urlencoding::decode`. Its result is named by `url_decoded`; the crate's
/// source hands a text that holds no `%` back unchanged.
#[verifier::external_body]
fn url_decode(raw: &str) -> (r: Option<String>)
    ensures
        opt_view(r) == url_decoded(raw@),
        !raw@.contains('%') ==> opt_view(r) == Some(raw@),
{
    match urlencoding::decode(raw) {
        Ok(s) => Some(s.into_owned()),
        Err(_) => None,
    }
}

/// A percent-decoded query component, or the text itself when decoding fails.
pub open spec fn decoded_component(raw: Seq<char>) -> Seq<char> {
    match url_decoded(raw) {
        Some(d) => d,
        None => raw,
    }
}

pub fn percent_decode_query_component(raw: &str) -> (s: String)
    ensures
        s@ == decoded_component(raw@),
{
    match url_decode(raw) {
        Some(d) => d,
        None => string_from_str(raw),
    }
}

pub open spec fn parse_filter_spec(raw: Seq<char>) -> Result<Seq<FilterP>, Seq<char>> {
    match split_query_spec(raw, "フィルター"@) {
        Err(m) => Err(m),
        Ok(ps) => Ok(
            Seq::new(
                ps.len(),
                |i: int|
                    FilterP {
                        column: decoded_component(ps[i].0),
                        text: decoded_component(ps[i].1),
                    },
            ),
        ),
    }
}

/// Parses the query string `name:hello,age:42`; values may be percent-encoded.
pub fn parse_filter_query_param(raw: &str) -> (r: Result<Vec<TableFilterEntry>, DomainError>)
    ensures
        match parse_filter_spec(raw@) {
            Ok(es) => r matches Ok(v) && filters_view(v@) == es,
            Err(m) => is_validation(r, m),
        },
{
    let parts = match split_column_value_query_parts(raw, "フィルター") {
        Err(e) => return Err(e),
        Ok(p) => p,
    };
    let ghost ps = pairs_view(parts@);
    let mut out: Vec<TableFilterEntry> = Vec::new();
    let mut i: usize = 0;
    while i < parts.len()
        invariant
            i <= parts.len(),
            ps == pairs_view(parts@),
            filters_view(out@) =~= Seq::new(
                i as nat,
                |k: int|
                    FilterP { column: decoded_component(ps[k].0), text: decoded_component(ps[k].1) },
            ),
        decreases parts.len() - i,
    {
        let e = TableFilterEntry {
            column: percent_decode_query_component(parts[i].0.as_str()),
            text: percent_decode_query_component(parts[i].1.as_str()),
        };
        let ghost old = filters_view(out@);
        out.push(e);
        assert(filters_view(out@) =~= old.push(e@));
        i += 1;
    }
    Ok(out)
}

// ---------------------------------------------------------------------------
// Keeping preferences in step with the table's columns
// ---------------------------------------------------------------------------

/// Column widths by column name; each name occurs once.
pub open spec fn widths_view(v: Seq<(String, i32)>) -> Seq<(Seq<char>, i32)> {
    Seq::new(v.len(), |i: int| (v[i].0@, v[i].1))
}

pub open spec fn opt_widths_view(o: Option<Vec<(String, i32)>>) -> Option<Seq<(Seq<char>, i32)>> {
    match o {
        Some(v) => Some(widths_view(v@)),
        None => None,
    }
}

/// Filters whose text is not blank.
pub open spec fn compact_filters_spec(es: Seq<FilterP>) -> Seq<FilterP> {
    es.filter(|e: FilterP| trim(e.text).len() > 0)
}

/// Drops filter entries whose text is blank.
pub fn compact_filter_entries(entries: &[TableFilterEntry]) -> (r: Vec<TableFilterEntry>)
    ensures
        filters_view(r@) == compact_filters_spec(filters_view(entries@)),
{
    let ghost es = filters_view(entries@);
    let ghost pred = |e: FilterP| trim(e.text).len() > 0;
    let mut out: Vec<TableFilterEntry> = Vec::new();
    let mut i: usize = 0;
    proof {
        reveal(Seq::filter);
        assert(es.take(0) =~= seq![]);
        assert(filters_view(out@) =~= seq![]);
    }
    while i < entries.len()
        invariant
            i <= entries.len(),
            es == filters_view(entries@),
            pred == (|e: FilterP| trim(e.text).len() > 0),
            filters_view(out@) == es.take(i as int).filter(pred),
        decreases entries.len() - i,
    {
        proof {
            reveal(Seq::filter);
            assert(es.take(i + 1).drop_last() =~= es.take(i as int));
            assert(es.take(i + 1).last() == entries@[i as int]@);
        }
        let tv = chars_of_string(&entries[i].text);
        let t = trim_vec(&tv);
        if t.len() > 0 {
            let e = TableFilterEntry { column: entries[i].column.clone(), text: entries[i].text.clone() };
            let ghost old = filters_view(out@);
            out.push(e);
            assert(filters_view(out@) =~= old.push(e@));
        }
        i += 1;
    }
    assert(es.take(entries@.len() as int) =~= es);
    out
}

/// `\`, `%` and `_` preceded by `\`, for a LIKE pattern with `ESCAPE '\'`.
pub open spec fn escape_like_spec(s: Seq<char>) -> Seq<char>
    decreases s.len(),
{
    if s.len() == 0 {
        seq![]
    } else {
        let c = s.last();
        escape_like_spec(s.drop_last()) + if c == '\\' || c == '%' || c == '_' {
            seq!['\\', c]
        } else {
            seq![c]
        }
    }
}

pub fn escape_like_pattern(text: &Vec<char>) -> (r: Vec<char>)
    ensures
        r@ == escape_like_spec(text@),
{
    let mut r: Vec<char> = Vec::new();
    let mut i: usize = 0;
    assert(text@.take(0) =~= seq![]);
    while i < text.len()
        invariant
            i <= text.len(),
            r@ == escape_like_spec(text@.take(i as int)),
        decreases text.len() - i,
    {
        let ghost t = text@.take(i + 1);
        assert(t.drop_last() =~= text@.take(i as int));
        assert(t.last() == text@[i as int]);
        let c = text[i];
        if c == '\\' || c == '%' || c == '_' {
            r.push('\\');
        }
        r.push(c);
        i += 1;
    }
    assert(text@.take(text@.len() as int) =~= text@);
    r
}

fn contains_name(names: &[String], n: &String) -> (r: bool)
    ensures
        r == strings_view(names@).contains(n@),
{
    let nv = chars_of_string(n);
    let mut i: usize = 0;
    while i < names.len()
        invariant
            i <= names.len(),
            nv@ == n@,
            forall|k: int| 0 <= k < i ==> names@[k]@ != n@,
        decreases names.len() - i,
    {
        let cv = chars_of_string(&names[i]);
        if crate::text::seq_eq(&cv, &nv) {
            assert(strings_view(names@)[i as int] == n@);
            return true;
        }
        i += 1;
    }
    assert forall|k: int| 0 <= k < strings_view(names@).len() implies strings_view(names@)[k] != n@ by {
        assert(strings_view(names@)[k] == names@[k]@);
    }
    false
}

pub open spec fn sorts_in_columns(names: Seq<Seq<char>>, es: Seq<SortP>) -> Seq<SortP> {
    es.filter(|e: SortP| names.contains(e.column))
}

pub open spec fn filters_in_columns(names: Seq<Seq<char>>, es: Seq<FilterP>) -> Seq<FilterP> {
    es.filter(|e: FilterP| names.contains(e.column))
}

/// Sort entries whose column still exists, in their order.
pub fn filter_sort_entries_to_columns(column_names: &[String], entries: &[TableSortEntry]) -> (r: Vec<
    TableSortEntry,
>)
    ensures
        sorts_view(r@) == sorts_in_columns(strings_view(column_names@), sorts_view(entries@)),
{
    let ghost es = sorts_view(entries@);
    let ghost names = strings_view(column_names@);
    let ghost pred = |e: SortP| names.contains(e.column);
    let mut out: Vec<TableSortEntry> = Vec::new();
    let mut i: usize = 0;
    proof {
        reveal(Seq::filter);
        assert(es.take(0) =~= seq![]);
        assert(sorts_view(out@) =~= seq![]);
    }
    while i < entries.len()
        invariant
            i <= entries.len(),
            es == sorts_view(entries@),
            names == strings_view(column_names@),
            pred == (|e: SortP| names.contains(e.column)),
            sorts_view(out@) == es.take(i as int).filter(pred),
        decreases entries.len() - i,
    {
        proof {
            reveal(Seq::filter);
            assert(es.take(i + 1).drop_last() =~= es.take(i as int));
            assert(es.take(i + 1).last() == entries@[i as int]@);
        }
        if contains_name(column_names, &entries[i].column) {
            let e = TableSortEntry { column: entries[i].column.clone(), direction: entries[i].direction };
            let ghost old = sorts_view(out@);
            out.push(e);
            assert(sorts_view(out@) =~= old.push(e@));
        }
        i += 1;
    }
    assert(es.take(entries@.len() as int) =~= es);
    out
}

/// Filter entries whose column still exists, in their order.
pub fn filter_filter_entries_to_columns(column_names: &[String], entries: &[TableFilterEntry]) -> (r:
    Vec<TableFilterEntry>)
    ensures
        filters_view(r@) == filters_in_columns(strings_view(column_names@), filters_view(entries@)),
{
    let ghost es = filters_view(entries@);
    let ghost names = strings_view(column_names@);
    let ghost pred = |e: FilterP| names.contains(e.column);
    let mut out: Vec<TableFilterEntry> = Vec::new();
    let mut i: usize = 0;
    proof {
        reveal(Seq::filter);
        assert(es.take(0) =~= seq![]);
        assert(filters_view(out@) =~= seq![]);
    }
    while i < entries.len()
        invariant
            i <= entries.len(),
            es == filters_view(entries@),
            names == strings_view(column_names@),
            pred == (|e: FilterP| names.contains(e.column)),
            filters_view(out@) == es.take(i as int).filter(pred),
        decreases entries.len() - i,
    {
        proof {
            reveal(Seq::filter);
            assert(es.take(i + 1).drop_last() =~= es.take(i as int));
            assert(es.take(i + 1).last() == entries@[i as int]@);
        }
        if contains_name(column_names, &entries[i].column) {
            let e = TableFilterEntry { column: entries[i].column.clone(), text: entries[i].text.clone() };
            let ghost old = filters_view(out@);
            out.push(e);
            assert(filters_view(out@) =~= old.push(e@));
        }
        i += 1;
    }
    assert(es.take(entries@.len() as int) =~= es);
    out
}

/// Narrowest column width kept, in pixels.
pub const COLUMN_WIDTH_MIN_PX: i32 = 40;

/// Widest column width kept, in pixels.
pub const COLUMN_WIDTH_MAX_PX: i32 = 2000;

/// The widths worth saving: those of existing columns within the allowed range.
pub open spec fn widths_to_save_spec(names: Seq<Seq<char>>, widths: Seq<(Seq<char>, i32)>) -> Seq<(Seq<char>, i32)> {
    widths.filter(
        |e: (Seq<char>, i32)| names.contains(e.0) && COLUMN_WIDTH_MIN_PX <= e.1 && e.1 <= COLUMN_WIDTH_MAX_PX,
    )
}

/// Keeps the widths of existing columns that lie within the allowed range.
pub fn widths_to_save(column_names: &[String], widths: &[(String, i32)]) -> (r: Vec<(String, i32)>)
    ensures
        widths_view(r@) == widths_to_save_spec(strings_view(column_names@), widths_view(widths@)),
{
    let ghost wv = widths_view(widths@);
    let ghost names = strings_view(column_names@);
    let ghost pred = |e: (Seq<char>, i32)| names.contains(e.0) && COLUMN_WIDTH_MIN_PX <= e.1 && e.1 <= COLUMN_WIDTH_MAX_PX;
    let mut out: Vec<(String, i32)> = Vec::new();
    let mut i: usize = 0;
    proof {
        reveal(Seq::filter);
        assert(wv.take(0) =~= seq![]);
        assert(widths_view(out@) =~= seq![]);
    }
    while i < widths.len()
        invariant
            i <= widths.len(),
            wv == widths_view(widths@),
            names == strings_view(column_names@),
            pred == (|e: (Seq<char>, i32)| names.contains(e.0) && COLUMN_WIDTH_MIN_PX <= e.1 && e.1
                <= COLUMN_WIDTH_MAX_PX),
            widths_view(out@) == wv.take(i as int).filter(pred),
        decreases widths.len() - i,
    {
        proof {
            reveal(Seq::filter);
            assert(wv.take(i + 1).drop_last() =~= wv.take(i as int));
            assert(wv.take(i + 1).last() == (widths@[i as int].0@, widths@[i as int].1));
        }
        let w = widths[i].1;
        if contains_name(column_names, &widths[i].0) && COLUMN_WIDTH_MIN_PX <= w && w <= COLUMN_WIDTH_MAX_PX {
            let e = (widths[i].0.clone(), w);
            let ghost old = widths_view(out@);
            out.push(e);
            assert(widths_view(out@) =~= old.push((e.0@, e.1)));
        }
        i += 1;
    }
    assert(wv.take(widths@.len() as int) =~= wv);
    out
}

/// Widths of the columns that still exist; `None` when none is left.
pub open spec fn prune_widths_spec(names: Seq<Seq<char>>, widths: Option<Seq<(Seq<char>, i32)>>) -> Option<
    Seq<(Seq<char>, i32)>,
> {
    match widths {
        None => None,
        Some(w) => {
            let kept = w.filter(|e: (Seq<char>, i32)| names.contains(e.0));
            if kept.len() == 0 {
                None
            } else {
                Some(kept)
            }
        },
    }
}

pub fn prune_column_widths(column_names: &[String], widths: Option<Vec<(String, i32)>>) -> (r: Option<
    Vec<(String, i32)>,
>)
    ensures
        opt_widths_view(r) == prune_widths_spec(strings_view(column_names@), opt_widths_view(widths)),
{
    let w = match widths {
        None => return None,
        Some(w) => w,
    };
    let ghost ws = widths_view(w@);
    let ghost names = strings_view(column_names@);
    let ghost pred = |e: (Seq<char>, i32)| names.contains(e.0);
    let mut out: Vec<(String, i32)> = Vec::new();
    let mut i: usize = 0;
    proof {
        reveal(Seq::filter);
        assert(ws.take(0) =~= seq![]);
        assert(widths_view(out@) =~= seq![]);
    }
    while i < w.len()
        invariant
            i <= w.len(),
            ws == widths_view(w@),
            names == strings_view(column_names@),
            pred == (|e: (Seq<char>, i32)| names.contains(e.0)),
            widths_view(out@) == ws.take(i as int).filter(pred),
        decreases w.len() - i,
    {
        proof {
            reveal(Seq::filter);
            assert(ws.take(i + 1).drop_last() =~= ws.take(i as int));
            assert(ws.take(i + 1).last() == (w@[i as int].0@, w@[i as int].1));
        }
        if contains_name(column_names, &w[i].0) {
            let e = (w[i].0.clone(), w[i].1);
            let ghost old = widths_view(out@);
            out.push(e);
            assert(widths_view(out@) =~= old.push((e.0@, e.1)));
        }
        i += 1;
    }
    assert(ws.take(w@.len() as int) =~= ws);
    if out.len() == 0 {
        None
    } else {
        Some(out)
    }
}

// ---------------------------------------------------------------------------
// Column renames
// ---------------------------------------------------------------------------

/// New name of `name` by the last rename of it (later renames win).
pub open spec fn rename_lookup(renames: Seq<(Seq<char>, Seq<char>)>, name: Seq<char>) -> Option<Seq<char>>
    decreases renames.len(),
{
    if renames.len() == 0 {
        None
    } else if renames.last().0 == name {
        Some(renames.last().1)
    } else {
        rename_lookup(renames.drop_last(), name)
    }
}

/// `name` after the renames.
pub open spec fn renamed(renames: Seq<(Seq<char>, Seq<char>)>, name: Seq<char>) -> Seq<char> {
    match rename_lookup(renames, name) {
        Some(n) => n,
        None => name,
    }
}

fn renamed_exec(renames: &[(String, String)], name: &String) -> (r: String)
    ensures
        r@ == renamed(pairs_view(renames@), name@),
{
    let ghost rv = pairs_view(renames@);
    let nv = chars_of_string(name);
    let mut j: usize = renames.len();
    assert(rv.take(j as int) =~= rv);
    while j > 0
        invariant
            j <= renames.len(),
            rv == pairs_view(renames@),
            nv@ == name@,
            rename_lookup(rv, name@) == rename_lookup(rv.take(j as int), name@),
        decreases j,
    {
        let ghost t = rv.take(j as int);
        assert(t.last() == (renames@[j - 1].0@, renames@[j - 1].1@));
        assert(t.drop_last() =~= rv.take(j - 1));
        let ov = chars_of_string(&renames[j - 1].0);
        if crate::text::seq_eq(&ov, &nv) {
            return renames[j - 1].1.clone();
        }
        j -= 1;
    }
    name.clone()
}

pub open spec fn renamed_sorts(renames: Seq<(Seq<char>, Seq<char>)>, es: Seq<SortP>) -> Seq<SortP> {
    Seq::new(es.len(), |i: int| SortP { column: renamed(renames, es[i].column), direction: es[i].direction })
}

pub open spec fn renamed_filters(renames: Seq<(Seq<char>, Seq<char>)>, es: Seq<FilterP>) -> Seq<FilterP> {
    Seq::new(es.len(), |i: int| FilterP { column: renamed(renames, es[i].column), text: es[i].text })
}

/// Moves sort entries of renamed columns to the new names.
pub fn apply_column_renames_to_sort(entries: &mut Vec<TableSortEntry>, renames: &[(String, String)])
    ensures
        sorts_view(final(entries)@) == renamed_sorts(pairs_view(renames@), sorts_view(old(entries)@)),
{
    let ghost es = sorts_view(entries@);
    let mut out: Vec<TableSortEntry> = Vec::new();
    let mut i: usize = 0;
    while i < entries.len()
        invariant
            i <= entries.len(),
            es == sorts_view(entries@),
            sorts_view(out@) =~= renamed_sorts(pairs_view(renames@), es).take(i as int),
        decreases entries.len() - i,
    {
        let e = TableSortEntry {
            column: renamed_exec(renames, &entries[i].column),
            direction: entries[i].direction,
        };
        let ghost old = sorts_view(out@);
        out.push(e);
        assert(sorts_view(out@) =~= old.push(e@));
        i += 1;
    }
    *entries = out;
}

/// Moves filter entries of renamed columns to the new names.
pub fn apply_column_renames_to_filter(entries: &mut Vec<TableFilterEntry>, renames: &[(String, String)])
    ensures
        filters_view(final(entries)@) == renamed_filters(
            pairs_view(renames@),
            filters_view(old(entries)@),
        ),
{
    let ghost es = filters_view(entries@);
    let mut out: Vec<TableFilterEntry> = Vec::new();
    let mut i: usize = 0;
    while i < entries.len()
        invariant
            i <= entries.len(),
            es == filters_view(entries@),
            filters_view(out@) =~= renamed_filters(pairs_view(renames@), es).take(i as int),
        decreases entries.len() - i,
    {
        let e = TableFilterEntry {
            column: renamed_exec(renames, &entries[i].column),
            text: entries[i].text.clone(),
        };
        let ghost old = filters_view(out@);
        out.push(e);
        assert(filters_view(out@) =~= old.push(e@));
        i += 1;
    }
    *entries = out;
}

/// Index of the entry for `key`.
pub open spec fn width_index(m: Seq<(Seq<char>, i32)>, key: Seq<char>, i: int) -> Option<int>
    decreases m.len() - i,
{
    if i < 0 || i >= m.len() {
        None
    } else if m[i].0 == key {
        Some(i)
    } else {
        width_index(m, key, i + 1)
    }
}

/// Sets the width of `key`, replacing an entry for it or adding one at the end.
pub open spec fn width_insert(m: Seq<(Seq<char>, i32)>, key: Seq<char>, w: i32) -> Seq<(Seq<char>, i32)> {
    match width_index(m, key, 0) {
        Some(j) => m.update(j, (key, w)),
        None => m.push((key, w)),
    }
}

/// The widths re-keyed by the renames, in order; a later entry wins a shared key.
pub open spec fn renamed_widths(renames: Seq<(Seq<char>, Seq<char>)>, ws: Seq<(Seq<char>, i32)>) -> Seq<
    (Seq<char>, i32),
>
    decreases ws.len(),
{
    if ws.len() == 0 {
        seq![]
    } else {
        width_insert(renamed_widths(renames, ws.drop_last()), renamed(renames, ws.last().0), ws.last().1)
    }
}

proof fn lemma_width_index(m: Seq<(Seq<char>, i32)>, key: Seq<char>, i: int)
    requires
        0 <= i,
    ensures
        width_index(m, key, i) matches Some(j) ==> i <= j < m.len() && m[j].0 == key,
    decreases m.len() - i,
{
    if i < m.len() && m[i].0 != key {
        lemma_width_index(m, key, i + 1);
    }
}

fn width_insert_exec(m: &mut Vec<(String, i32)>, key: String, w: i32)
    ensures
        widths_view(final(m)@) == width_insert(widths_view(old(m)@), key@, w),
{
    let ghost mv = widths_view(m@);
    let kv = chars_of_string(&key);
    let mut i: usize = 0;
    while i < m.len()
        invariant
            i <= m.len(),
            mv == widths_view(m@),
            mv == widths_view(old(m)@),
            kv@ == key@,
            width_index(mv, key@, 0) == width_index(mv, key@, i as int),
        decreases m.len() - i,
    {
        assert(mv[i as int] == (m@[i as int].0@, m@[i as int].1));
        let cv = chars_of_string(&m[i].0);
        if crate::text::seq_eq(&cv, &kv) {
            m.set(i, (key, w));
            assert(widths_view(m@) =~= mv.update(i as int, (key@, w)));
            return;
        }
        i += 1;
    }
    m.push((key, w));
    assert(widths_view(m@) =~= mv.push((key@, w)));
}

fn rename_width_list(w: &Vec<(String, i32)>, renames: &[(String, String)]) -> (r: Vec<(String, i32)>)
    ensures
        widths_view(r@) == renamed_widths(pairs_view(renames@), widths_view(w@)),
{
    let ghost ws = widths_view(w@);
    let mut out: Vec<(String, i32)> = Vec::new();
    let mut i: usize = 0;
    assert(ws.take(0) =~= seq![]);
    assert(widths_view(out@) =~= seq![]);
    while i < w.len()
        invariant
            i <= w.len(),
            ws == widths_view(w@),
            widths_view(out@) == renamed_widths(pairs_view(renames@), ws.take(i as int)),
        decreases w.len() - i,
    {
        let ghost t = ws.take(i + 1);
        assert(t.drop_last() =~= ws.take(i as int));
        assert(t.last() == (w@[i as int].0@, w@[i as int].1));
        let k = renamed_exec(renames, &w[i].0);
        width_insert_exec(&mut out, k, w[i].1);
        i += 1;
    }
    assert(ws.take(w@.len() as int) =~= ws);
    out
}

/// Moves the widths of renamed columns to the new names.
pub fn apply_column_renames_to_widths(widths: &mut Option<Vec<(String, i32)>>, renames: &[(String, String)])
    ensures
        opt_widths_view(*final(widths)) == match opt_widths_view(*old(widths)) {
            Some(ws) => Some(renamed_widths(pairs_view(renames@), ws)),
            None => None::<Seq<(Seq<char>, i32)>>,
        },
{
    let out = match widths {
        None => return,
        Some(w) => rename_width_list(w, renames),
    };
    *widths = Some(out);
}

// ---------------------------------------------------------------------------
// Stored preferences
// ---------------------------------------------------------------------------

/// Preferences stored for a table.
#[derive(Debug, Default)]
pub struct TableUiMeta {
    pub sort: Option<Vec<TableSortEntry>>,
    pub filter: Option<Vec<TableFilterEntry>>,
    pub column_widths: Option<Vec<(String, i32)>>,
}

/// A stored preference column holds nothing: it is empty or the empty JSON
/// form of its kind (`{}` for widths, `[]` for sort and filter).
pub fn stored_json_is_empty(text: &str, empty_form: &str) -> (b: bool)
    ensures
        b == (text@.len() == 0 || text@ == empty_form@),
{
    let t = chars_of(text);
    let e = chars_of(empty_form);
    t.len() == 0 || crate::text::seq_eq(&t, &e)
}

/// The stored preferences from the three decoded columns; an empty list or
/// map counts as none.
pub fn table_ui_meta_from_decoded(
    column_widths: Option<Vec<(String, i32)>>,
    sort: Option<Vec<TableSortEntry>>,
    filter: Option<Vec<TableFilterEntry>>,
) -> (m: TableUiMeta)
    ensures
        m.column_widths == (match column_widths {
            Some(w) => if w@.len() == 0 {
                None
            } else {
                Some(w)
            },
            None => None,
        }),
        m.sort == (match sort {
            Some(v) => if v@.len() == 0 {
                None
            } else {
                Some(v)
            },
            None => None,
        }),
        m.filter == (match filter {
            Some(v) => if v@.len() == 0 {
                None
            } else {
                Some(v)
            },
            None => None,
        }),
{
    let column_widths = match column_widths {
        Some(w) => if w.len() == 0 {
            None
        } else {
            Some(w)
        },
        None => None,
    };
    let sort = match sort {
        Some(v) => if v.len() == 0 {
            None
        } else {
            Some(v)
        },
        None => None,
    };
    let filter = match filter {
        Some(v) => if v.len() == 0 {
            None
        } else {
            Some(v)
        },
        None => None,
    };
    TableUiMeta { sort, filter, column_widths }
}

/// How stored preferences are brought in step with a changed table.
pub struct SanitizeUiPreferencesOptions<'a> {
    pub clear_sort_filter: bool,
    pub column_renames: &'a [(String, String)],
}

/// Preferences after they were brought in step with the table's columns.
#[derive(Debug)]
pub struct SanitizedUiPreferencesValues {
    pub sort: Vec<TableSortEntry>,
    pub filter: Vec<TableFilterEntry>,
    pub column_widths: Option<Vec<(String, i32)>>,
}

pub open spec fn opt_sorts_view(o: Option<Vec<TableSortEntry>>) -> Seq<SortP> {
    match o {
        Some(v) => sorts_view(v@),
        None => seq![],
    }
}

pub open spec fn opt_filters_view(o: Option<Vec<TableFilterEntry>>) -> Seq<FilterP> {
    match o {
        Some(v) => filters_view(v@),
        None => seq![],
    }
}

/// Stored sort and filter, dropped when `clear`, moved along the renames
/// (when there are any and nothing is cleared), then cut down to the columns
/// that exist; widths likewise.
pub open spec fn sanitized_spec(
    names: Seq<Seq<char>>,
    sort: Seq<SortP>,
    filter: Seq<FilterP>,
    widths: Option<Seq<(Seq<char>, i32)>>,
    clear: bool,
    renames: Seq<(Seq<char>, Seq<char>)>,
) -> (Seq<SortP>, Seq<FilterP>, Option<Seq<(Seq<char>, i32)>>) {
    let s0 = if clear { seq![] } else { sort };
    let f0 = if clear { seq![] } else { filter };
    let apply = !clear && renames.len() > 0;
    let s1 = if apply { renamed_sorts(renames, s0) } else { s0 };
    let f1 = if apply { renamed_filters(renames, f0) } else { f0 };
    let w1 = if apply {
        match widths {
            Some(w) => Some(renamed_widths(renames, w)),
            None => None,
        }
    } else {
        widths
    };
    (sorts_in_columns(names, s1), filters_in_columns(names, f1), prune_widths_spec(names, w1))
}

/// After preferences are brought in step with a table, every sort entry,
/// filter entry and width they keep names one of the table's columns, and
/// widths are kept only when some are left.
pub proof fn law_sanitized_preferences_name_existing_columns(
    names: Seq<Seq<char>>,
    sort: Seq<SortP>,
    filter: Seq<FilterP>,
    widths: Option<Seq<(Seq<char>, i32)>>,
    clear: bool,
    renames: Seq<(Seq<char>, Seq<char>)>,
)
    ensures
        ({
            let (s, f, w) = sanitized_spec(names, sort, filter, widths, clear, renames);
            &&& forall|i: int| 0 <= i < s.len() ==> names.contains(#[trigger] s[i].column)
            &&& forall|i: int| 0 <= i < f.len() ==> names.contains(#[trigger] f[i].column)
            &&& w matches Some(ws) ==> ws.len() > 0 && forall|i: int| 0 <= i < ws.len() ==> names.contains(
                #[trigger] ws[i].0,
            )
            &&& clear ==> s.len() == 0 && f.len() == 0
        }),
{
    let s0 = if clear { seq![] } else { sort };
    let f0 = if clear { seq![] } else { filter };
    let apply = !clear && renames.len() > 0;
    let s1 = if apply { renamed_sorts(renames, s0) } else { s0 };
    let f1 = if apply { renamed_filters(renames, f0) } else { f0 };
    let w1 = if apply {
        match widths {
            Some(w) => Some(renamed_widths(renames, w)),
            None => None,
        }
    } else {
        widths
    };
    let sp = |e: SortP| names.contains(e.column);
    let fp = |e: FilterP| names.contains(e.column);
    let (s, f, w) = sanitized_spec(names, sort, filter, widths, clear, renames);
    assert(s == s1.filter(sp));
    assert(f == f1.filter(fp));
    assert forall|i: int| 0 <= i < s.len() implies names.contains(#[trigger] s[i].column) by {
        s1.lemma_filter_pred(sp, i);
    }
    assert forall|i: int| 0 <= i < f.len() implies names.contains(#[trigger] f[i].column) by {
        f1.lemma_filter_pred(fp, i);
    }
    match w1 {
        Some(ww) => {
            let wp = |e: (Seq<char>, i32)| names.contains(e.0);
            assert forall|i: int| 0 <= i < ww.filter(wp).len() implies names.contains(#[trigger] ww.filter(wp)[i].0) by {
                ww.lemma_filter_pred(wp, i);
            }
        },
        None => {},
    }
    if clear {
        reveal(Seq::filter);
        assert(s =~= Seq::<SortP>::empty().filter(sp));
        assert(f =~= Seq::<FilterP>::empty().filter(fp));
    }
}

fn copy_sorts(v: &Vec<TableSortEntry>) -> (r: Vec<TableSortEntry>)
    ensures
        sorts_view(r@) == sorts_view(v@),
{
    let mut out: Vec<TableSortEntry> = Vec::new();
    let mut i: usize = 0;
    while i < v.len()
        invariant
            i <= v.len(),
            sorts_view(out@) =~= sorts_view(v@).take(i as int),
        decreases v.len() - i,
    {
        let e = TableSortEntry { column: v[i].column.clone(), direction: v[i].direction };
        let ghost old = sorts_view(out@);
        out.push(e);
        assert(sorts_view(out@) =~= old.push(e@));
        i += 1;
    }
    out
}

fn copy_filters(v: &Vec<TableFilterEntry>) -> (r: Vec<TableFilterEntry>)
    ensures
        filters_view(r@) == filters_view(v@),
{
    let mut out: Vec<TableFilterEntry> = Vec::new();
    let mut i: usize = 0;
    while i < v.len()
        invariant
            i <= v.len(),
            filters_view(out@) =~= filters_view(v@).take(i as int),
        decreases v.len() - i,
    {
        let e = TableFilterEntry { column: v[i].column.clone(), text: v[i].text.clone() };
        let ghost old = filters_view(out@);
        out.push(e);
        assert(filters_view(out@) =~= old.push(e@));
        i += 1;
    }
    out
}

fn copy_widths(v: &Vec<(String, i32)>) -> (r: Vec<(String, i32)>)
    ensures
        widths_view(r@) == widths_view(v@),
{
    let mut out: Vec<(String, i32)> = Vec::new();
    let mut i: usize = 0;
    while i < v.len()
        invariant
            i <= v.len(),
            widths_view(out@) =~= widths_view(v@).take(i as int),
        decreases v.len() - i,
    {
        let e = (v[i].0.clone(), v[i].1);
        let ghost old = widths_view(out@);
        out.push(e);
        assert(widths_view(out@) =~= old.push((e.0@, e.1)));
        i += 1;
    }
    out
}

/// Brings stored preferences in step with the table's current columns.
pub fn compute_sanitized_ui_preferences(
    column_names: &[String],
    meta: &TableUiMeta,
    options: SanitizeUiPreferencesOptions<'_>,
) -> (r: SanitizedUiPreferencesValues)
    ensures
        (sorts_view(r.sort@), filters_view(r.filter@), opt_widths_view(r.column_widths)) == sanitized_spec(
            strings_view(column_names@),
            opt_sorts_view(meta.sort),
            opt_filters_view(meta.filter),
            opt_widths_view(meta.column_widths),
            options.clear_sort_filter,
            pairs_view(options.column_renames@),
        ),
{
    let mut sort: Vec<TableSortEntry> = if options.clear_sort_filter {
        Vec::new()
    } else {
        match &meta.sort {
            Some(v) => copy_sorts(v),
            None => Vec::new(),
        }
    };
    let mut filter: Vec<TableFilterEntry> = if options.clear_sort_filter {
        Vec::new()
    } else {
        match &meta.filter {
            Some(v) => copy_filters(v),
            None => Vec::new(),
        }
    };
    let mut column_widths: Option<Vec<(String, i32)>> = match &meta.column_widths {
        Some(v) => Some(copy_widths(v)),
        None => None,
    };
    proof {
        if options.clear_sort_filter || meta.sort is None {
            assert(sorts_view(sort@) =~= seq![]);
        }
        if options.clear_sort_filter || meta.filter is None {
            assert(filters_view(filter@) =~= seq![]);
        }
    }
    if !options.clear_sort_filter && options.column_renames.len() > 0 {
        apply_column_renames_to_sort(&mut sort, options.column_renames);
        apply_column_renames_to_filter(&mut filter, options.column_renames);
        apply_column_renames_to_widths(&mut column_widths, options.column_renames);
    }
    let s = filter_sort_entries_to_columns(column_names, sort.as_slice());
    let f = filter_filter_entries_to_columns(column_names, filter.as_slice());
    let w = prune_column_widths(column_names, column_widths);
    SanitizedUiPreferencesValues { sort: s, filter: f, column_widths: w }
}

/// Nothing needs storing: no row yet and no preference to keep.
pub fn should_skip_ui_meta_persist(
    has_meta_row: bool,
    sort: &[TableSortEntry],
    filter: &[TableFilterEntry],
    column_widths: Option<&Vec<(String, i32)>>,
) -> (b: bool)
    ensures
        b == (!has_meta_row && sort@.len() == 0 && filter@.len() == 0 && column_widths is None),
{
    !has_meta_row && sort.len() == 0 && filter.len() == 0 && column_widths.is_none()
}

// ---------------------------------------------------------------------------
// SQL from preferences
// ---------------------------------------------------------------------------

/// `LOWER(CAST("col" AS TEXT)) LIKE ? ESCAPE '\'` for a filter entry.
pub open spec fn filter_condition_spec(column: Seq<char>) -> Seq<char> {
    "LOWER(CAST("@ + quote_ident_spec(column) + " AS TEXT)) LIKE ? ESCAPE '\\'"@
}

/// `%text%` with the text lowercased and its LIKE wildcards escaped.
pub open spec fn filter_pattern_spec(text: Seq<char>) -> Seq<char> {
    "%"@ + escape_like_spec(lower_seq(text)) + "%"@
}

/// WHERE clause and bound patterns of the entries with a non-empty text.
pub open spec fn where_from_filter_spec(entries: Seq<FilterP>) -> (Seq<char>, Seq<Seq<char>>) {
    let active = entries.filter(|e: FilterP| e.text.len() > 0);
    if active.len() == 0 {
        (seq![], seq![])
    } else {
        (
            "WHERE "@ + join(Seq::new(active.len(), |i: int| filter_condition_spec(active[i].column)), " AND "@),
            Seq::new(active.len(), |i: int| filter_pattern_spec(active[i].text)),
        )
    }
}

/// Builds the WHERE clause (and its bound patterns) of a filter.
pub fn build_where_from_filter(_column_names: &[String], _table_name: &str, entries: &[TableFilterEntry]) -> (r:
    Result<(String, Vec<String>), DomainError>)
    ensures
        r matches Ok(p) && (p.0@, strings_view(p.1@)) == where_from_filter_spec(filters_view(entries@)),
{
    let ghost es = filters_view(entries@);
    let ghost pred = |e: FilterP| e.text.len() > 0;
    let ghost active = es.filter(pred);
    let mut parts: Vec<Vec<char>> = Vec::new();
    let mut binds: Vec<String> = Vec::new();
    let mut i: usize = 0;
    proof {
        reveal(Seq::filter);
        assert(es.take(0) =~= seq![]);
        assert(vv(parts@) =~= seq![]);
        assert(strings_view(binds@) =~= seq![]);
    }
    while i < entries.len()
        invariant
            i <= entries.len(),
            es == filters_view(entries@),
            pred == (|e: FilterP| e.text.len() > 0),
            vv(parts@) == Seq::new(
                es.take(i as int).filter(pred).len(),
                |k: int| filter_condition_spec(es.take(i as int).filter(pred)[k].column),
            ),
            strings_view(binds@) == Seq::new(
                es.take(i as int).filter(pred).len(),
                |k: int| filter_pattern_spec(es.take(i as int).filter(pred)[k].text),
            ),
        decreases entries.len() - i,
    {
        proof {
            reveal(Seq::filter);
            assert(es.take(i + 1).drop_last() =~= es.take(i as int));
            assert(es.take(i + 1).last() == entries@[i as int]@);
        }
        let ghost prev = es.take(i as int).filter(pred);
        let tv = chars_of_string(&entries[i].text);
        if tv.len() > 0 {
            let low = lower_vec(&tv);
            let esc = escape_like_pattern(&low);
            let mut pat = chars_of("%");
            crate::text::append_vec(&mut pat, &esc);
            let pct = chars_of("%");
            crate::text::append_vec(&mut pat, &pct);
            let cv = chars_of_string(&entries[i].column);
            let q = quote_ident_vec(&cv);
            let mut cond = chars_of("LOWER(CAST(");
            crate::text::append_vec(&mut cond, &q);
            let tail = chars_of(" AS TEXT)) LIKE ? ESCAPE '\\'");
            crate::text::append_vec(&mut cond, &tail);
            let ghost oldp = vv(parts@);
            let ghost oldb = strings_view(binds@);
            parts.push(cond);
            let ps = string_of(&pat);
            binds.push(ps);
            proof {
                let cur = es.take(i + 1).filter(pred);
                assert(cur =~= prev.push(entries@[i as int]@));
                assert(vv(parts@) =~= oldp.push(cond@));
                assert(strings_view(binds@) =~= oldb.push(ps@));
                assert(vv(parts@) =~= Seq::new(cur.len(), |k: int| filter_condition_spec(cur[k].column)));
                assert(strings_view(binds@) =~= Seq::new(cur.len(), |k: int| filter_pattern_spec(cur[k].text)));
            }
        }
        i += 1;
    }
    assert(es.take(entries@.len() as int) =~= es);
    if parts.len() == 0 {
        return Ok((String::new(), binds));
    }
    let mut w = chars_of("WHERE ");
    let sep = chars_of(" AND ");
    let body = crate::schema::join_vecs(&parts, &sep);
    crate::text::append_vec(&mut w, &body);
    Ok((string_of(&w), binds))
}

/// `"col" ASC` / `"col" DESC` for a sort entry.
pub open spec fn order_item_spec(e: SortP) -> Seq<char> {
    quote_ident_spec(e.column) + match e.direction {
        TableSortDirection::Asc => " ASC"@,
        TableSortDirection::Desc => " DESC"@,
    }
}

/// Builds the ORDER BY list of a sort.
pub fn build_order_by_from_sort(_column_names: &[String], _table_name: &str, sort_entries: &[TableSortEntry]) -> (r:
    Result<String, DomainError>)
    ensures
        r matches Ok(s) && s@ == join(
            Seq::new(sort_entries@.len(), |i: int| order_item_spec(sort_entries@[i]@)),
            ", "@,
        ),
{
    let mut parts: Vec<Vec<char>> = Vec::new();
    let mut i: usize = 0;
    while i < sort_entries.len()
        invariant
            i <= sort_entries.len(),
            vv(parts@) =~= Seq::new(i as nat, |k: int| order_item_spec(sort_entries@[k]@)),
        decreases sort_entries.len() - i,
    {
        let cv = chars_of_string(&sort_entries[i].column);
        let mut item = quote_ident_vec(&cv);
        let d = match sort_entries[i].direction {
            TableSortDirection::Asc => chars_of(" ASC"),
            TableSortDirection::Desc => chars_of(" DESC"),
        };
        crate::text::append_vec(&mut item, &d);
        let ghost old = vv(parts@);
        parts.push(item);
        assert(vv(parts@) =~= old.push(item@));
        i += 1;
    }
    let sep = chars_of(", ");
    let body = crate::schema::join_vecs(&parts, &sep);
    Ok(string_of(&body))
}

/// `PRAGMA table_info("name")`.
pub fn pragma_table_info_sql(table_name: &str) -> (s: String)
    ensures
        s@ == "PRAGMA table_info("@ + quote_ident_spec(table_name@) + ")"@,
{
    let nv = chars_of(table_name);
    let q = quote_ident_vec(&nv);
    let mut r = chars_of("PRAGMA table_info(");
    crate::text::append_vec(&mut r, &q);
    let c = chars_of(")");
    crate::text::append_vec(&mut r, &c);
    string_of(&r)
}

} // verus!
