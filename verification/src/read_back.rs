//! Reading back what was written: the columns of a table created from a
//! column list are found again in its `CREATE TABLE` statement.
use vstd::prelude::*;

use crate::create_sql::{
    column_def_parse_spec, columns_from_parts, create_body_spec, detect_type, first_index_from, is_id_pk_def,
    last_index_before, name_and_rest_spec, quoted_from, quoted_identifier_spec, split_defs_from, strip_ws,
    user_columns_spec,
};
use crate::ddl::create_table_spec;
use crate::names::{column_name_error, ident_error, is_forbidden_ident_char, is_id_name, quote_ident_spec};
use crate::schema::{column_def_spec, join, sql_type_of, table_definition_spec, table_parts_from, ColumnSpec};
use crate::text::{
    contains_seq, first_non_ws_from, is_ws, last_non_ws_end, occurs_at, replace_char, starts_with, trim,
    trim_end, trim_start, upper_seq, upper_spec,
};

verus! {

// ---------------------------------------------------------------------------
// Trimming
// ---------------------------------------------------------------------------

proof fn lemma_first_non_ws_skip(s: Seq<char>, i: int)
    requires
        0 <= i <= s.len(),
        forall|k: int| 0 <= k < i ==> is_ws(#[trigger] s[k]),
    ensures
        first_non_ws_from(s, 0) == first_non_ws_from(s, i),
    decreases i,
{
    if i > 0 {
        lemma_first_non_ws_skip(s, i - 1);
    }
}

/// A text whose first and last characters are not whitespace is its own trim.
proof fn lemma_trim_fixed(s: Seq<char>)
    requires
        s.len() > 0,
        !is_ws(s[0]),
        !is_ws(s.last()),
    ensures
        trim(s) == s,
{
    assert(first_non_ws_from(s, 0) == 0);
    assert(trim_start(s) =~= s);
    assert(last_non_ws_end(s, s.len() as int) == s.len());
    assert(trim_end(s) =~= s);
}

/// One space in front is trimmed away.
proof fn lemma_trim_space_prefix(x: Seq<char>)
    requires
        x.len() > 0,
        !is_ws(x[0]),
        !is_ws(x.last()),
    ensures
        trim(seq![' '] + x) == x,
{
    let s = seq![' '] + x;
    assert(is_ws(' '));
    assert(first_non_ws_from(s, 1) == 1);
    assert(first_non_ws_from(s, 0) == 1);
    assert(trim_start(s) =~= x);
    assert(last_non_ws_end(x, x.len() as int) == x.len());
    assert(trim_end(x) =~= x);
}

/// A text with a non-whitespace character somewhere has a non-empty trim.
proof fn lemma_trim_nonempty(s: Seq<char>, k: int)
    requires
        0 <= k < s.len(),
        !is_ws(s[k]),
    ensures
        trim(s).len() > 0,
{
    crate::text::lemma_first_non_ws_bounds(s, 0);
    let a = first_non_ws_from(s, 0);
    assert(a <= k);
    let t = trim_start(s);
    assert(t[k - a] == s[k]);
    lemma_last_non_ws_end_bound(t, t.len() as int, k - a);
    lemma_last_non_ws_end_le(t, t.len() as int);
    assert(trim(s) == trim_end(t));
}

proof fn lemma_last_non_ws_end_le(t: Seq<char>, j: int)
    requires
        0 <= j <= t.len(),
    ensures
        0 <= last_non_ws_end(t, j) <= j,
    decreases j,
{
    if j > 0 && is_ws(t[j - 1]) {
        lemma_last_non_ws_end_le(t, j - 1);
    }
}

proof fn lemma_last_non_ws_end_bound(t: Seq<char>, j: int, k: int)
    requires
        0 <= k < j <= t.len(),
        !is_ws(t[k]),
    ensures
        last_non_ws_end(t, j) > k,
    decreases j,
{
    if j - 1 != k && is_ws(t[j - 1]) {
        lemma_last_non_ws_end_bound(t, j - 1, k);
    }
}

// ---------------------------------------------------------------------------
// Splitting the body of CREATE TABLE
// ---------------------------------------------------------------------------

/// No character that the splitting of a table body looks at.
pub open spec fn plain_piece(x: Seq<char>) -> bool {
    forall|k: int| 0 <= k < x.len() ==> (#[trigger] x[k] != ',' && x[k] != '(' && x[k] != ')')
}

proof fn lemma_split_run(s: Seq<char>, i: int, cur: Seq<char>, x: Seq<char>)
    requires
        0 <= i,
        i + x.len() <= s.len(),
        s.subrange(i, i + x.len()) == x,
        plain_piece(x),
    ensures
        split_defs_from(s, i, 0, cur) == split_defs_from(s, i + x.len(), 0, cur + x),
    decreases x.len(),
{
    if x.len() > 0 {
        assert(s[i] == x[0]);
        assert(s.subrange(i + 1, i + x.len()) =~= x.drop_first());
        assert(plain_piece(x.drop_first()));
        lemma_split_run(s, i + 1, cur.push(x[0]), x.drop_first());
        assert(cur.push(x[0]) + x.drop_first() =~= cur + x);
    } else {
        assert(cur + x =~= cur);
    }
}

proof fn lemma_join_front(ps: Seq<Seq<char>>, sep: Seq<char>)
    requires
        ps.len() >= 2,
    ensures
        join(ps, sep) == ps[0] + sep + join(ps.drop_first(), sep),
    decreases ps.len(),
{
    if ps.len() > 2 {
        lemma_join_front(ps.drop_last(), sep);
        let df = ps.drop_first();
        assert(ps.drop_last().drop_first() =~= df.drop_last());
        assert(df.last() == ps.last());
        assert(ps.drop_last()[0] == ps[0]);
        assert(join(df, sep) == join(df.drop_last(), sep) + sep + df.last());
        assert(join(ps, sep) == join(ps.drop_last(), sep) + sep + ps.last());
        assert(join(ps, sep) =~= ps[0] + sep + join(df, sep));
    } else {
        assert(ps.drop_last() =~= seq![ps[0]]);
        assert(ps.drop_first() =~= seq![ps[1]]);
        assert(join(seq![ps[0]], sep) == ps[0]);
        assert(join(seq![ps[1]], sep) == ps[1]);
        assert(join(ps, sep) == join(ps.drop_last(), sep) + sep + ps.last());
    }
}

/// Splitting the join of plain pieces gives the pieces back, each after the
/// first with the space that followed its comma trimmed off.
proof fn lemma_split_join(ps: Seq<Seq<char>>, s: Seq<char>, i: int, cur: Seq<char>)
    requires
        ps.len() >= 1,
        0 <= i <= s.len(),
        s.subrange(i, s.len() as int) == join(ps, ", "@),
        forall|k: int| 0 <= k < ps.len() ==> plain_piece(#[trigger] ps[k]),
        forall|k: int| 0 <= k < ps.len() ==> (#[trigger] ps[k]).len() > 0 && !is_ws(ps[k][0]),
        trim(cur + ps[0]).len() > 0,
    ensures
        split_defs_from(s, i, 0, cur) == seq![trim(cur + ps[0])] + Seq::new(
            (ps.len() - 1) as nat,
            |k: int| trim(seq![' '] + ps[k + 1]),
        ),
    decreases ps.len(),
{
    reveal_strlit(", ");
    let p0 = ps[0];
    if ps.len() == 1 {
        assert(join(ps, ", "@) == p0);
        assert(s.subrange(i, i + p0.len()) =~= p0);
        lemma_split_run(s, i, cur, p0);
        assert(i + p0.len() == s.len());
        assert(Seq::new(0nat, |k: int| trim(seq![' '] + ps[k + 1])) =~= Seq::<Seq<char>>::empty());
        assert(seq![trim(cur + p0)] + Seq::<Seq<char>>::empty() =~= seq![trim(cur + p0)]);
    } else {
        let rest = ps.drop_first();
        lemma_join_front(ps, ", "@);
        let j = join(rest, ", "@);
        assert(s.subrange(i, s.len() as int) =~= p0 + (", "@ + j));
        assert(s.subrange(i, i + p0.len()) =~= p0);
        lemma_split_run(s, i, cur, p0);
        let a = i + p0.len();
        assert(", "@[0] == ',' && ", "@[1] == ' ' && ", "@.len() == 2);
        assert(s.subrange(i, s.len() as int)[p0.len() as int] == ',');
        assert(s[a] == ',');
        assert(s.subrange(i, s.len() as int)[p0.len() + 1int] == ' ');
        assert(s[a + 1] == ' ');
        assert forall|k: int| 0 <= k < j.len() implies s[a + 2 + k] == j[k] by {
            assert(s.subrange(i, s.len() as int)[p0.len() + 2 + k] == j[k]);
        }
        assert(s.subrange(a + 2, s.len() as int) =~= j);
        assert(split_defs_from(s, a, 0, cur + p0) == seq![trim(cur + p0)] + split_defs_from(s, a + 1, 0, seq![]));
        assert(split_defs_from(s, a + 1, 0, seq![]) == split_defs_from(s, a + 2, 0, seq![' '])) by {
            assert(Seq::<char>::empty().push(' ') =~= seq![' ']);
        }
        assert(plain_piece(rest[0]));
        assert(forall|k: int| 0 <= k < rest.len() ==> plain_piece(#[trigger] rest[k])) by {
            assert forall|k: int| 0 <= k < rest.len() implies plain_piece(#[trigger] rest[k]) by {
                assert(rest[k] == ps[k + 1]);
            }
        }
        assert(forall|k: int| 0 <= k < rest.len() ==> (#[trigger] rest[k]).len() > 0 && !is_ws(rest[k][0])) by {
            assert forall|k: int| 0 <= k < rest.len() implies (#[trigger] rest[k]).len() > 0 && !is_ws(rest[k][0]) by {
                assert(rest[k] == ps[k + 1]);
            }
        }
        assert((seq![' '] + rest[0])[1] == rest[0][0]);
        lemma_trim_nonempty(seq![' '] + rest[0], 1);
        lemma_split_join(rest, s, a + 2, seq![' ']);
        assert(Seq::new((ps.len() - 1) as nat, |k: int| trim(seq![' '] + ps[k + 1])) =~= seq![
            trim(seq![' '] + rest[0]),
        ] + Seq::new((rest.len() - 1) as nat, |k: int| trim(seq![' '] + rest[k + 1])));
    }
}

// ---------------------------------------------------------------------------
// Small facts about the text functions
// ---------------------------------------------------------------------------

proof fn lemma_plain_concat(a: Seq<char>, b: Seq<char>)
    requires
        plain_piece(a),
        plain_piece(b),
    ensures
        plain_piece(a + b),
{
    assert forall|k: int| 0 <= k < (a + b).len() implies ((#[trigger] (a + b)[k]) != ',' && (a + b)[k] != '('
        && (a + b)[k] != ')') by {
        if k < a.len() {
            assert((a + b)[k] == a[k]);
        } else {
            assert((a + b)[k] == b[k - a.len()]);
        }
    }
}

/// Trimming keeps a piece plain.
proof fn lemma_trim_plain(x: Seq<char>)
    requires
        plain_piece(x),
    ensures
        plain_piece(trim(x)),
{
    crate::text::lemma_first_non_ws_bounds(x, 0);
    let a = first_non_ws_from(x, 0);
    let t = trim_start(x);
    crate::text::lemma_last_non_ws_bounds(t, t.len() as int);
    assert forall|k: int| 0 <= k < trim(x).len() implies ((#[trigger] trim(x)[k]) != ',' && trim(x)[k] != '('
        && trim(x)[k] != ')') by {
        assert(trim(x)[k] == t[k]);
        assert(t[k] == x[a + k]);
    }
}

proof fn lemma_replace_without_quote(s: Seq<char>, to: Seq<char>)
    requires
        !s.contains('"'),
    ensures
        replace_char(s, '"', to) == s,
    decreases s.len(),
{
    if s.len() > 0 {
        assert(s.last() == s[s.len() - 1]);
        assert(!s.drop_last().contains('"')) by {
            if s.drop_last().contains('"') {
                let k = choose|k: int| 0 <= k < s.drop_last().len() && s.drop_last()[k] == '"';
                assert(s[k] == '"');
            }
        }
        lemma_replace_without_quote(s.drop_last(), to);
        assert(s.drop_last() + seq![s.last()] =~= s);
    }
}

proof fn lemma_replace_keeps_absent(s: Seq<char>, c: char)
    requires
        c != '"',
        !s.contains(c),
    ensures
        !replace_char(s, '"', seq!['"', '"']).contains(c),
    decreases s.len(),
{
    if s.len() > 0 {
        assert(s.last() == s[s.len() - 1]);
        assert(!s.drop_last().contains(c)) by {
            if s.drop_last().contains(c) {
                let k = choose|k: int| 0 <= k < s.drop_last().len() && s.drop_last()[k] == c;
                assert(s[k] == c);
            }
        }
        lemma_replace_keeps_absent(s.drop_last(), c);
        let a = replace_char(s.drop_last(), '"', seq!['"', '"']);
        let b: Seq<char> = if s.last() == '"' {
            seq!['"', '"']
        } else {
            seq![s.last()]
        };
        assert(replace_char(s, '"', seq!['"', '"']) == a + b);
        if (a + b).contains(c) {
            let k = choose|k: int| 0 <= k < (a + b).len() && (a + b)[k] == c;
            if k < a.len() {
                assert(a[k] == c);
            } else {
                assert(b[k - a.len()] == c);
            }
        }
    }
}

proof fn lemma_first_index_at(s: Seq<char>, c: char, i: int, j: int)
    requires
        0 <= i <= j < s.len(),
        s[j] == c,
        forall|k: int| i <= k < j ==> #[trigger] s[k] != c,
    ensures
        first_index_from(s, c, i) == Some(j),
    decreases j - i,
{
    if i < j {
        lemma_first_index_at(s, c, i + 1, j);
    }
}

proof fn lemma_strip_ws_first(s: Seq<char>)
    requires
        s.len() > 0,
        !is_ws(s[0]),
    ensures
        strip_ws(s).len() > 0,
        strip_ws(s)[0] == s[0],
    decreases s.len(),
{
    if s.len() == 1 {
        assert(s.drop_last() =~= Seq::<char>::empty());
        assert(strip_ws(s.drop_last()) =~= Seq::<char>::empty());
        assert(s.last() == s[0]);
    } else {
        assert(s.drop_last()[0] == s[0]);
        lemma_strip_ws_first(s.drop_last());
    }
}

proof fn lemma_strip_ws_concat(a: Seq<char>, b: Seq<char>)
    ensures
        strip_ws(a + b) == strip_ws(a) + strip_ws(b),
    decreases b.len(),
{
    if b.len() == 0 {
        assert(a + b =~= a);
        assert(strip_ws(a) + strip_ws(b) =~= strip_ws(a));
    } else {
        assert((a + b).drop_last() =~= a + b.drop_last());
        assert((a + b).last() == b.last());
        lemma_strip_ws_concat(a, b.drop_last());
        assert(strip_ws(a + b) =~= strip_ws(a) + strip_ws(b));
    }
}

proof fn lemma_strip_ws_word(s: Seq<char>)
    requires
        forall|k: int| 0 <= k < s.len() ==> !is_ws(#[trigger] s[k]),
    ensures
        strip_ws(s) == s,
    decreases s.len(),
{
    if s.len() > 0 {
        assert(!is_ws(s[s.len() - 1]));
        lemma_strip_ws_word(s.drop_last());
        assert(s.drop_last() + seq![s.last()] =~= s);
    }
}

/// Scanning a quoted identifier whose name holds no quote.
proof fn lemma_quoted_scan(d: Seq<char>, n: Seq<char>, k: int)
    requires
        0 <= k <= n.len(),
        d.len() > n.len() + 2,
        d.subrange(1, n.len() as int + 1) == n,
        !n.contains('"'),
        d[n.len() as int + 1] == '"',
        d[n.len() as int + 2] != '"',
    ensures
        quoted_from(d, k + 1, n.subrange(0, k)) == Ok::<(Seq<char>, Seq<char>), Seq<char>>(
            (n, trim_start(d.subrange(n.len() as int + 2, d.len() as int))),
        ),
    decreases n.len() - k,
{
    if k < n.len() {
        assert(d[k + 1] == n[k]);
        assert(n[k] != '"');
        assert(n.subrange(0, k).push(n[k]) =~= n.subrange(0, k + 1));
        lemma_quoted_scan(d, n, k + 1);
    } else {
        assert(n.subrange(0, k) =~= n);
    }
}

// ---------------------------------------------------------------------------
// The type words of a column definition
// ---------------------------------------------------------------------------

/// ` NOT NULL` after the type of a required column.
pub open spec fn not_null_suffix(nullable: bool) -> Seq<char> {
    if nullable {
        seq![]
    } else {
        " NOT NULL"@
    }
}

/// What reading the type words `r` of a definition gives back.
pub open spec fn words_read_back(r: Seq<char>, key: Seq<char>, nullable: bool) -> bool {
    &&& r.len() > 0
    &&& !is_ws(r[0])
    &&& !is_ws(r.last())
    &&& plain_piece(r)
    &&& upper_seq(r) == r
    &&& detect_type(r) == Some(key)
    &&& contains_seq(r, "NOT NULL"@) == !nullable
}

proof fn lemma_pair_absent(r: Seq<char>, w: Seq<char>)
    requires
        w.len() >= 2,
        forall|p: int| 0 <= p && p + 1 < r.len() ==> !(#[trigger] r[p] == w[0] && r[p + 1] == w[1]),
    ensures
        !contains_seq(r, w),
{
    assert forall|p: int| !occurs_at(r, w, p) by {
        if occurs_at(r, w, p) {
            assert(r.subrange(p, p + w.len())[0] == w[0]);
            assert(r.subrange(p, p + w.len())[1] == w[1]);
        }
    }
}

proof fn lemma_not_starting(r: Seq<char>, w: Seq<char>)
    requires
        w.len() >= 2,
        r.len() < w.len() || r[0] != w[0] || r[1] != w[1],
    ensures
        !starts_with(r, w),
{
    if occurs_at(r, w, 0) {
        assert(r.subrange(0, w.len() as int)[0] == w[0]);
        assert(r.subrange(0, w.len() as int)[1] == w[1]);
    }
}

proof fn lemma_starting(r: Seq<char>, w: Seq<char>)
    requires
        w.len() <= r.len(),
        r.subrange(0, w.len() as int) == w,
    ensures
        starts_with(r, w),
{
}

/// The suffix decides whether `NOT NULL` is found.
proof fn lemma_not_null_found(t: Seq<char>, nullable: bool)
    requires
        t.len() < 8 || (t.len() < 10 && t[0] != 'N' && t[1] != 'N'),
        t.len() > 0,
        forall|k: int| 0 <= k < t.len() ==> #[trigger] t[k] != ' ',
    ensures
        contains_seq(t + not_null_suffix(nullable), "NOT NULL"@) == !nullable,
{
    reveal_strlit("NOT NULL");
    reveal_strlit(" NOT NULL");
    let r = t + not_null_suffix(nullable);
    if nullable {
        assert(r =~= t);
        assert forall|p: int| !occurs_at(r, "NOT NULL"@, p) by {
            if occurs_at(r, "NOT NULL"@, p) {
                assert(r.subrange(p, p + 8)[0] == 'N');
                assert(r.subrange(p, p + 8)[1] == 'O');
                assert(r.subrange(p, p + 8)[3] == ' ');
            }
        }
    } else {
        assert(r.subrange(t.len() as int + 1, t.len() as int + 9) =~= "NOT NULL"@);
        assert(occurs_at(r, "NOT NULL"@, t.len() as int + 1));
    }
}

proof fn lemma_words_integer(nullable: bool)
    ensures
        words_read_back("INTEGER"@ + not_null_suffix(nullable), "integer"@, nullable),
{
    reveal_strlit("INTEGER");
    reveal_strlit(" NOT NULL");
    reveal_strlit("integer");
    let r = "INTEGER"@ + not_null_suffix(nullable);
    lemma_not_null_found("INTEGER"@, nullable);
    assert(r.subrange(0, 7) =~= "INTEGER"@);
    lemma_starting(r, "INTEGER"@);
    assert(upper_seq(r) =~= r);
}

proof fn lemma_words_real(nullable: bool)
    ensures
        words_read_back("REAL"@ + not_null_suffix(nullable), "real"@, nullable),
{
    reveal_strlit("REAL");
    reveal_strlit(" NOT NULL");
    reveal_strlit("real");
    let r = "REAL"@ + not_null_suffix(nullable);
    lemma_not_null_found("REAL"@, nullable);
    reveal_strlit(" INTEGER");
    reveal_strlit("INTEGER");
    lemma_pair_absent(r, " INTEGER"@);
    lemma_not_starting(r, "INTEGER"@);
    assert(r.subrange(0, 4) =~= "REAL"@);
    lemma_starting(r, "REAL"@);
    assert(upper_seq(r) =~= r);
}

proof fn lemma_words_text(nullable: bool)
    ensures
        words_read_back("TEXT"@ + not_null_suffix(nullable), "text"@, nullable),
{
    reveal_strlit("TEXT");
    reveal_strlit(" NOT NULL");
    reveal_strlit("text");
    let r = "TEXT"@ + not_null_suffix(nullable);
    lemma_not_null_found("TEXT"@, nullable);
    reveal_strlit(" INTEGER");
    reveal_strlit("INTEGER");
    lemma_pair_absent(r, " INTEGER"@);
    lemma_not_starting(r, "INTEGER"@);
    reveal_strlit(" REAL");
    reveal_strlit("REAL");
    lemma_pair_absent(r, " REAL"@);
    lemma_not_starting(r, "REAL"@);
    assert(r.subrange(0, 4) =~= "TEXT"@);
    lemma_starting(r, "TEXT"@);
    assert(upper_seq(r) =~= r);
}

proof fn lemma_words_blob(nullable: bool)
    ensures
        words_read_back("BLOB"@ + not_null_suffix(nullable), "blob"@, nullable),
{
    reveal_strlit("BLOB");
    reveal_strlit(" NOT NULL");
    reveal_strlit("blob");
    let r = "BLOB"@ + not_null_suffix(nullable);
    lemma_not_null_found("BLOB"@, nullable);
    reveal_strlit(" INTEGER");
    reveal_strlit("INTEGER");
    lemma_pair_absent(r, " INTEGER"@);
    lemma_not_starting(r, "INTEGER"@);
    reveal_strlit(" REAL");
    reveal_strlit("REAL");
    lemma_pair_absent(r, " REAL"@);
    lemma_not_starting(r, "REAL"@);
    reveal_strlit(" TEXT");
    reveal_strlit("TEXT");
    lemma_pair_absent(r, " TEXT"@);
    lemma_not_starting(r, "TEXT"@);
    assert(r.subrange(0, 4) =~= "BLOB"@);
    lemma_starting(r, "BLOB"@);
    assert(upper_seq(r) =~= r);
}

proof fn lemma_words_timestamp(nullable: bool)
    ensures
        words_read_back("TIMESTAMP"@ + not_null_suffix(nullable), "timestamp"@, nullable),
{
    reveal_strlit("TIMESTAMP");
    reveal_strlit(" NOT NULL");
    reveal_strlit("timestamp");
    let r = "TIMESTAMP"@ + not_null_suffix(nullable);
    lemma_not_null_found("TIMESTAMP"@, nullable);
    reveal_strlit(" INTEGER");
    reveal_strlit("INTEGER");
    lemma_pair_absent(r, " INTEGER"@);
    lemma_not_starting(r, "INTEGER"@);
    reveal_strlit(" REAL");
    reveal_strlit("REAL");
    lemma_pair_absent(r, " REAL"@);
    lemma_not_starting(r, "REAL"@);
    reveal_strlit(" TEXT");
    reveal_strlit("TEXT");
    lemma_pair_absent(r, " TEXT"@);
    lemma_not_starting(r, "TEXT"@);
    reveal_strlit(" BLOB");
    reveal_strlit("BLOB");
    lemma_pair_absent(r, " BLOB"@);
    lemma_not_starting(r, "BLOB"@);
    assert(r.subrange(0, 9) =~= "TIMESTAMP"@);
    lemma_starting(r, "TIMESTAMP"@);
    assert(upper_seq(r) =~= r);
}

proof fn lemma_words_boolean(nullable: bool)
    ensures
        words_read_back("BOOLEAN"@ + not_null_suffix(nullable), "boolean"@, nullable),
{
    reveal_strlit("BOOLEAN");
    reveal_strlit(" NOT NULL");
    reveal_strlit("boolean");
    let r = "BOOLEAN"@ + not_null_suffix(nullable);
    lemma_not_null_found("BOOLEAN"@, nullable);
    reveal_strlit(" INTEGER");
    reveal_strlit("INTEGER");
    lemma_pair_absent(r, " INTEGER"@);
    lemma_not_starting(r, "INTEGER"@);
    reveal_strlit(" REAL");
    reveal_strlit("REAL");
    lemma_pair_absent(r, " REAL"@);
    lemma_not_starting(r, "REAL"@);
    reveal_strlit(" TEXT");
    reveal_strlit("TEXT");
    lemma_pair_absent(r, " TEXT"@);
    lemma_not_starting(r, "TEXT"@);
    reveal_strlit(" BLOB");
    reveal_strlit("BLOB");
    lemma_pair_absent(r, " BLOB"@);
    lemma_not_starting(r, "BLOB"@);
    reveal_strlit(" TIMESTAMP");
    reveal_strlit("TIMESTAMP");
    lemma_pair_absent(r, " TIMESTAMP"@);
    lemma_not_starting(r, "TIMESTAMP"@);
    assert(r.subrange(0, 7) =~= "BOOLEAN"@);
    lemma_starting(r, "BOOLEAN"@);
    assert(upper_seq(r) =~= r);
}

/// The type words written for a column are read back as its type and
/// nullability.
proof fn lemma_words(key: Seq<char>, nullable: bool)
    requires
        sql_type_of(key) is Some,
    ensures
        words_read_back(sql_type_of(key)->0 + not_null_suffix(nullable), key, nullable),
{
    if key == "integer"@ {
        lemma_words_integer(nullable);
    }     else if key == "real"@ {
        lemma_words_real(nullable);
    }     else if key == "text"@ {
        lemma_words_text(nullable);
    }     else if key == "blob"@ {
        lemma_words_blob(nullable);
    }     else if key == "timestamp"@ {
        lemma_words_timestamp(nullable);
    }     else if key == "boolean"@ {
        lemma_words_boolean(nullable);
    }
}

// ---------------------------------------------------------------------------
// One column definition
// ---------------------------------------------------------------------------

/// A definition piece that survives splitting and trimming unchanged and is
/// not taken for the primary key.
pub open spec fn stable_part(p: Seq<char>) -> bool {
    &&& p.len() > 0
    &&& !is_ws(p[0])
    &&& !is_ws(p.last())
    &&& plain_piece(p)
    &&& trim(p) == p
    &&& trim(seq![' '] + p) == p
    &&& !is_id_pk_def(p)
}

proof fn lemma_valid_name_unquoted(n: Seq<char>)
    requires
        column_name_error(n) is None,
    ensures
        !n.contains('"'),
        n.len() > 0,
        !is_id_name(n),
{
    if n.contains('"') {
        let k = choose|k: int| 0 <= k < n.len() && n[k] == '"';
        assert(is_forbidden_ident_char(n[k]));
        assert(ident_error(n, "カラム名"@) is Some);
    }
}

/// The definition written for a valid, plain column name is read back as
/// that column.
proof fn lemma_part(n: Seq<char>, c: ColumnSpec, part: Seq<char>)
    requires
        column_def_spec(n, c) == Ok::<Seq<char>, Seq<char>>(part),
        column_name_error(n) is None,
        plain_piece(n),
        trim(n) == n,
    ensures
        stable_part(part),
        column_def_parse_spec(part) == Ok::<ColumnSpec, Seq<char>>(
            ColumnSpec { name: n, type_key: c.type_key, nullable: c.nullable, orig_name: None },
        ),
{
    reveal_strlit(" ");
    reveal_strlit(" NOT NULL");
    lemma_valid_name_unquoted(n);
    lemma_words(c.type_key, c.nullable);
    let t = sql_type_of(c.type_key)->0;
    let r = t + not_null_suffix(c.nullable);
    lemma_replace_without_quote(n, seq!['"', '"']);
    assert(quote_ident_spec(n) == seq!['"'] + n + seq!['"']);
    let tail = seq!['"', ' '] + r;
    assert(part =~= seq!['"'] + n + tail);
    // shape
    assert(part[0] == '"');
    assert(part.last() == r.last());
    assert(plain_piece(seq!['"']));
    assert(plain_piece(seq!['"', ' ']));
    lemma_plain_concat(seq!['"', ' '], r);
    lemma_plain_concat(seq!['"'], n);
    lemma_plain_concat(seq!['"'] + n, tail);
    lemma_trim_fixed(part);
    lemma_trim_space_prefix(part);
    // not the primary key
    reveal_strlit("IDINTEGERPRIMARYKEY");
    lemma_strip_ws_first(part);
    if starts_with(upper_seq(strip_ws(part)), "IDINTEGERPRIMARYKEY"@) {
        assert(upper_seq(strip_ws(part)).subrange(0, 19)[0] == 'I');
        assert(upper_seq(strip_ws(part))[0] == upper_spec('"'));
    }
    // the quoted name and the rest
    let d = part;
    assert(d.subrange(1, n.len() as int + 1) =~= n);
    assert(d[n.len() as int + 1] == '"');
    assert(d[n.len() as int + 2] == ' ');
    lemma_quoted_scan(d, n, 0);
    assert(n.subrange(0, 0) =~= Seq::<char>::empty());
    let after = d.subrange(n.len() as int + 2, d.len() as int);
    assert(after =~= seq![' '] + r);
    assert(first_non_ws_from(after, 1) == 1);
    assert(first_non_ws_from(after, 0) == 1);
    assert(trim_start(after) =~= r);
    assert(quoted_identifier_spec(d) == Ok::<(Seq<char>, Seq<char>), Seq<char>>((n, r)));
    assert(name_and_rest_spec(part) == Ok::<(Seq<char>, Seq<char>), Seq<char>>((n, r)));
}

// ---------------------------------------------------------------------------
// The whole table
// ---------------------------------------------------------------------------

/// The columns that a table written from `cols[i..]` holds: those with a
/// non-blank name, under the trimmed name, with their type and nullability.
pub open spec fn stored_columns_from(cols: Seq<ColumnSpec>, i: int) -> Seq<ColumnSpec>
    decreases cols.len() - i,
{
    if i < 0 || i >= cols.len() {
        seq![]
    } else {
        let n = trim(cols[i].name);
        if n.len() == 0 {
            stored_columns_from(cols, i + 1)
        } else {
            seq![
                ColumnSpec {
                    name: n,
                    type_key: cols[i].type_key,
                    nullable: cols[i].nullable,
                    orig_name: None,
                },
            ] + stored_columns_from(cols, i + 1)
        }
    }
}

/// Every column name is free of the characters that split a table body.
pub open spec fn plain_names(cols: Seq<ColumnSpec>) -> bool {
    forall|k: int| 0 <= k < cols.len() ==> plain_piece(#[trigger] cols[k].name)
}

proof fn lemma_parts_read(
    cols: Seq<ColumnSpec>,
    i: int,
    seen: Seq<Seq<char>>,
    parts: Seq<Seq<char>>,
    pre: Seq<Seq<char>>,
)
    requires
        0 <= i,
        table_parts_from(cols, i, seen) == Ok::<Seq<Seq<char>>, Seq<char>>(parts),
        plain_names(cols),
    ensures
        forall|j: int| 0 <= j < parts.len() ==> stable_part(#[trigger] parts[j]),
        columns_from_parts(pre + parts, pre.len() as int) == Ok::<Seq<ColumnSpec>, Seq<char>>(
            stored_columns_from(cols, i),
        ),
    decreases cols.len() - i,
{
    if i >= cols.len() {
        assert(parts =~= Seq::<Seq<char>>::empty());
        assert(pre + parts =~= pre);
    } else {
        let c = cols[i];
        let n = trim(c.name);
        if n.len() == 0 {
            lemma_parts_read(cols, i + 1, seen, parts, pre);
        } else {
            let part = column_def_spec(n, c)->Ok_0;
            let rest = table_parts_from(cols, i + 1, seen.push(n))->Ok_0;
            assert(parts == seq![part] + rest);
            assert(plain_piece(cols[i].name));
            lemma_trim_plain(c.name);
            crate::layouts::lemma_trim_idempotent(c.name);
            lemma_part(n, c, part);
            lemma_parts_read(cols, i + 1, seen.push(n), rest, pre.push(part));
            assert(pre + parts =~= pre.push(part) + rest);
            assert((pre + parts)[pre.len() as int] == part);
            assert forall|j: int| 0 <= j < parts.len() implies stable_part(#[trigger] parts[j]) by {
                if j > 0 {
                    assert(parts[j] == rest[j - 1]);
                }
            }
        }
    }
}

/// The `id` definition is kept apart as the primary key.
proof fn lemma_id_part()
    ensures
        plain_piece("id INTEGER PRIMARY KEY"@),
        "id INTEGER PRIMARY KEY"@.len() > 0,
        !is_ws("id INTEGER PRIMARY KEY"@[0]),
        trim("id INTEGER PRIMARY KEY"@) == "id INTEGER PRIMARY KEY"@,
        is_id_pk_def("id INTEGER PRIMARY KEY"@),
{
    reveal_strlit("id INTEGER PRIMARY KEY");
    reveal_strlit("IDINTEGERPRIMARYKEY");
    let id = "id INTEGER PRIMARY KEY"@;
    lemma_trim_fixed(id);
    reveal_strlit("id");
    reveal_strlit(" ");
    reveal_strlit("INTEGER");
    reveal_strlit("PRIMARY");
    reveal_strlit("KEY");
    let sp = " "@;
    let w = seq!["id"@, "INTEGER"@, "PRIMARY"@, "KEY"@];
    assert(id =~= w[0] + sp + w[1] + sp + w[2] + sp + w[3]);
    lemma_strip_ws_word(w[0]);
    lemma_strip_ws_word(w[1]);
    lemma_strip_ws_word(w[2]);
    lemma_strip_ws_word(w[3]);
    assert(strip_ws(sp) =~= Seq::<char>::empty()) by {
        assert(sp.drop_last() =~= Seq::<char>::empty());
        assert(strip_ws(Seq::<char>::empty()) =~= Seq::<char>::empty());
        assert(sp.last() == ' ');
        assert(is_ws(' '));
    }
    lemma_strip_ws_concat(w[0], sp);
    lemma_strip_ws_concat(w[0] + sp, w[1]);
    lemma_strip_ws_concat(w[0] + sp + w[1], sp);
    lemma_strip_ws_concat(w[0] + sp + w[1] + sp, w[2]);
    lemma_strip_ws_concat(w[0] + sp + w[1] + sp + w[2], sp);
    lemma_strip_ws_concat(w[0] + sp + w[1] + sp + w[2] + sp, w[3]);
    reveal_strlit("idINTEGERPRIMARYKEY");
    let e = Seq::<char>::empty();
    assert(strip_ws(id) == w[0] + e + w[1] + e + w[2] + e + w[3]);
    assert(w[0] + e + w[1] + e + w[2] + e + w[3] =~= "idINTEGERPRIMARYKEY"@);
    assert(upper_seq(strip_ws(id)).subrange(0, 19) =~= "IDINTEGERPRIMARYKEY"@);
}

/// The body between the parentheses of a `CREATE TABLE` statement is the
/// definition it was written with, when the table name holds no `(`.
proof fn lemma_create_body(table: Seq<char>, definition: Seq<char>)
    requires
        !table.contains('('),
    ensures
        create_body_spec(create_table_spec(table, definition)) == Ok::<Seq<char>, Seq<char>>(definition),
{
    reveal_strlit("CREATE TABLE ");
    reveal_strlit(" (");
    reveal_strlit(")");
    let sql = create_table_spec(table, definition);
    let lead = "CREATE TABLE "@;
    let q = quote_ident_spec(table);
    let inner = replace_char(table, '"', seq!['"', '"']);
    lemma_replace_keeps_absent(table, '(');
    let open: int = lead.len() + q.len() + 1int;
    assert(sql[open] == '(');
    assert forall|k: int| 0 <= k < open implies #[trigger] sql[k] != '(' by {
        if k < lead.len() {
            assert(sql[k] == lead[k]);
        } else if k < lead.len() + q.len() {
            assert(sql[k] == q[k - lead.len()]);
            if k > lead.len() && k < lead.len() + q.len() - 1 {
                assert(q[k - lead.len()] == inner[k - lead.len() - 1]);
            }
        } else {
            assert(sql[k] == ' ');
        }
    }
    lemma_first_index_at(sql, '(', 0, open);
    assert(sql[sql.len() - 1] == ')');
    assert(last_index_before(sql, ')', sql.len() as int) == Some(sql.len() - 1));
    assert(sql.subrange(open + 1, sql.len() - 1) =~= definition);
}

/// A table created from a column list is read back as those columns:
/// reading the user columns of the `CREATE TABLE` statement written for a
/// table definition gives each column with a non-blank name, under its
/// trimmed name, with its type and nullability, in order. This holds when
/// the table name holds no `(` and no column name holds `,`, `(` or `)`.
pub proof fn law_created_table_columns_read_back(table: Seq<char>, cols: Seq<ColumnSpec>, definition: Seq<char>)
    requires
        table_definition_spec(cols) == Ok::<Seq<char>, Seq<char>>(definition),
        !table.contains('('),
        plain_names(cols),
    ensures
        user_columns_spec(create_table_spec(table, definition)) == Ok::<Seq<ColumnSpec>, Seq<char>>(
            stored_columns_from(cols, 0),
        ),
{
    reveal_strlit(", ");
    let id = "id INTEGER PRIMARY KEY"@;
    let parts = table_parts_from(cols, 0, seq!["id"@])->Ok_0;
    let ps = seq![id] + parts;
    assert(definition == join(ps, ", "@));
    lemma_id_part();
    lemma_parts_read(cols, 0, seq!["id"@], parts, seq![id]);
    lemma_create_body(table, definition);
    // splitting the body
    assert forall|k: int| 0 <= k < ps.len() implies plain_piece(#[trigger] ps[k]) by {
        if k > 0 {
            assert(ps[k] == parts[k - 1]);
            assert(stable_part(parts[k - 1]));
        }
    }
    assert forall|k: int| 0 <= k < ps.len() implies (#[trigger] ps[k]).len() > 0 && !is_ws(ps[k][0]) by {
        if k > 0 {
            assert(ps[k] == parts[k - 1]);
            assert(stable_part(parts[k - 1]));
        }
    }
    assert(Seq::<char>::empty() + id =~= id);
    assert(definition.subrange(0, definition.len() as int) =~= definition);
    lemma_split_join(ps, definition, 0, seq![]);
    let split = split_defs_from(definition, 0, 0, seq![]);
    assert(split =~= ps) by {
        assert forall|k: int| 0 <= k < ps.len() implies #[trigger] split[k] == ps[k] by {
            if k > 0 {
                assert(ps[k] == parts[k - 1]);
                assert(stable_part(parts[k - 1]));
            }
        }
    }
    // reading the pieces
    assert(columns_from_parts(ps, 0) == columns_from_parts(ps, 1));
}

} // verus!
