//! Lexical helpers for the simple SQL the view builder understands: comment
//! stripping, keyword search, identifiers and top-level splitting.
use vstd::prelude::*;

use crate::text::{
    first_non_ws_from, is_ident_char, is_ident_spec, is_ws, lemma_first_non_ws_bounds, lower_spec,
    replace_all, replace_all_vec, starts_with, sub_vec, to_lower, trim, trim_vec, vv,
};

verus! {

// ---------------------------------------------------------------------------
// Comment stripping
// ---------------------------------------------------------------------------

/// Where the comment stripper is.
pub enum ScanMode {
    Code,
    SingleQuoted,
    DoubleQuoted,
    LineComment,
    BlockComment,
}

/// Output of the comment stripper from position `i` on in mode `m`: comments
/// are removed (each line break inside them, and the end of each comment
/// that ends, leaves one space); quoted text is kept as it is.
pub open spec fn strip_from(s: Seq<char>, i: int, m: ScanMode) -> Seq<char>
    decreases s.len() - i,
{
    if i < 0 || i >= s.len() {
        seq![]
    } else {
        let c = s[i];
        let next_is = |x: char| i + 1 < s.len() && s[i + 1] == x;
        match m {
            ScanMode::SingleQuoted => if c == '\'' {
                if next_is('\'') {
                    seq!['\'', '\''] + strip_from(s, i + 2, ScanMode::SingleQuoted)
                } else {
                    seq![c] + strip_from(s, i + 1, ScanMode::Code)
                }
            } else {
                seq![c] + strip_from(s, i + 1, ScanMode::SingleQuoted)
            },
            ScanMode::DoubleQuoted => if c == '"' {
                if next_is('"') {
                    seq!['"', '"'] + strip_from(s, i + 2, ScanMode::DoubleQuoted)
                } else {
                    seq![c] + strip_from(s, i + 1, ScanMode::Code)
                }
            } else {
                seq![c] + strip_from(s, i + 1, ScanMode::DoubleQuoted)
            },
            ScanMode::LineComment => if c == '\n' || c == '\r' {
                seq![' '] + strip_from(s, i + 1, ScanMode::Code)
            } else {
                strip_from(s, i + 1, ScanMode::LineComment)
            },
            ScanMode::BlockComment => if c == '*' && next_is('/') {
                seq![' '] + strip_from(s, i + 2, ScanMode::Code)
            } else if c == '\n' || c == '\r' {
                seq![' '] + strip_from(s, i + 1, ScanMode::BlockComment)
            } else {
                strip_from(s, i + 1, ScanMode::BlockComment)
            },
            ScanMode::Code => if c == '\'' {
                seq![c] + strip_from(s, i + 1, ScanMode::SingleQuoted)
            } else if c == '"' {
                seq![c] + strip_from(s, i + 1, ScanMode::DoubleQuoted)
            } else if c == '-' && next_is('-') {
                strip_from(s, i + 2, ScanMode::LineComment)
            } else if c == '/' && next_is('*') {
                strip_from(s, i + 2, ScanMode::BlockComment)
            } else {
                seq![c] + strip_from(s, i + 1, ScanMode::Code)
            },
        }
    }
}

/// `sql` with its `--` and `/* */` comments removed.
pub open spec fn strip_comments_spec(sql: Seq<char>) -> Seq<char> {
    strip_from(sql, 0, ScanMode::Code)
}

/// No `--` and no `/*` anywhere in `s`.
pub open spec fn no_comment_marks(s: Seq<char>) -> bool {
    forall|k: int|
        0 <= k < s.len() - 1 ==> !(#[trigger] s[k] == '-' && s[k + 1] == '-') && !(s[k] == '/' && s[k + 1] == '*')
}

proof fn lemma_strip_without_marks(s: Seq<char>, i: int, m: ScanMode)
    requires
        0 <= i <= s.len(),
        no_comment_marks(s),
        m is Code || m is SingleQuoted || m is DoubleQuoted,
    ensures
        strip_from(s, i, m) == s.skip(i),
    decreases s.len() - i,
{
    if i < s.len() {
        let c = s[i];
        let two = i + 1 < s.len() && ((m is SingleQuoted && c == '\'' && s[i + 1] == '\'') || (m is DoubleQuoted
            && c == '"' && s[i + 1] == '"'));
        if two {
            lemma_strip_without_marks(s, i + 2, m);
            assert(s.skip(i) =~= seq![s[i], s[i + 1]] + s.skip(i + 2));
        } else {
            if m is Code && c == '-' && i + 1 < s.len() {
                assert(!(s[i] == '-' && s[i + 1] == '-'));
            }
            if m is Code && c == '/' && i + 1 < s.len() {
                assert(!(s[i] == '/' && s[i + 1] == '*'));
            }
            let next = if m is Code {
                if c == '\'' {
                    ScanMode::SingleQuoted
                } else if c == '"' {
                    ScanMode::DoubleQuoted
                } else {
                    ScanMode::Code
                }
            } else if m is SingleQuoted {
                if c == '\'' {
                    ScanMode::Code
                } else {
                    ScanMode::SingleQuoted
                }
            } else {
                if c == '"' {
                    ScanMode::Code
                } else {
                    ScanMode::DoubleQuoted
                }
            };
            lemma_strip_without_marks(s, i + 1, next);
            assert(s.skip(i) =~= seq![s[i]] + s.skip(i + 1));
        }
    } else {
        assert(s.skip(i) =~= Seq::<char>::empty());
    }
}

/// SQL without `--` and without `/*` has no comment to strip: it comes back
/// unchanged.
pub proof fn law_strip_without_comment_marks(s: Seq<char>)
    requires
        no_comment_marks(s),
    ensures
        strip_comments_spec(s) == s,
{
    lemma_strip_without_marks(s, 0, ScanMode::Code);
    assert(s.skip(0) =~= s);
}

proof fn lemma_strip_len(s: Seq<char>, i: int, m: ScanMode)
    requires
        0 <= i <= s.len(),
    ensures
        strip_from(s, i, m).len() <= s.len() - i,
    decreases s.len() - i,
{
    if i < s.len() {
        lemma_strip_len(s, i + 1, ScanMode::Code);
        lemma_strip_len(s, i + 1, ScanMode::SingleQuoted);
        lemma_strip_len(s, i + 1, ScanMode::DoubleQuoted);
        lemma_strip_len(s, i + 1, ScanMode::LineComment);
        lemma_strip_len(s, i + 1, ScanMode::BlockComment);
        if i + 2 <= s.len() {
            lemma_strip_len(s, i + 2, ScanMode::Code);
            lemma_strip_len(s, i + 2, ScanMode::SingleQuoted);
            lemma_strip_len(s, i + 2, ScanMode::DoubleQuoted);
            lemma_strip_len(s, i + 2, ScanMode::LineComment);
            lemma_strip_len(s, i + 2, ScanMode::BlockComment);
        }
    }
}

/// Stripping comments never makes SQL longer.
pub proof fn law_strip_never_lengthens(s: Seq<char>)
    ensures
        strip_comments_spec(s).len() <= s.len(),
{
    lemma_strip_len(s, 0, ScanMode::Code);
}

/// `--` or `/*` starts at `i`.
pub open spec fn mark_at(s: Seq<char>, i: int) -> bool {
    0 <= i && i + 1 < s.len() && ((s[i] == '-' && s[i + 1] == '-') || (s[i] == '/' && s[i + 1] == '*'))
}

proof fn lemma_marks_cons(x: char, rest: Seq<char>)
    requires
        no_comment_marks(rest),
        rest.len() == 0 || !((x == '-' && rest[0] == '-') || (x == '/' && rest[0] == '*')),
    ensures
        no_comment_marks(seq![x] + rest),
{
    let t = seq![x] + rest;
    assert forall|k: int| 0 <= k < t.len() - 1 implies !(#[trigger] t[k] == '-' && t[k + 1] == '-') && !(t[k]
        == '/' && t[k + 1] == '*') by {
        if k > 0 {
            assert(t[k] == rest[k - 1] && t[k + 1] == rest[k]);
        }
    }
}

proof fn lemma_strip_unquoted(s: Seq<char>, i: int, m: ScanMode)
    requires
        0 <= i <= s.len(),
        forall|k: int| 0 <= k < s.len() ==> #[trigger] s[k] != '\'' && s[k] != '"',
        !(m is SingleQuoted || m is DoubleQuoted),
    ensures
        no_comment_marks(strip_from(s, i, m)),
        strip_from(s, i, m).len() == 0 || strip_from(s, i, m)[0] == ' ' || (m is Code && i < s.len()
            && strip_from(s, i, m)[0] == s[i] && !mark_at(s, i)),
    decreases s.len() - i,
{
    if i < s.len() {
        let c = s[i];
        let out = strip_from(s, i, m);
        if m is Code {
            if mark_at(s, i) {
                if c == '-' {
                    lemma_strip_unquoted(s, i + 2, ScanMode::LineComment);
                } else {
                    lemma_strip_unquoted(s, i + 2, ScanMode::BlockComment);
                }
            } else {
                lemma_strip_unquoted(s, i + 1, ScanMode::Code);
                let rest = strip_from(s, i + 1, ScanMode::Code);
                assert(out == seq![c] + rest);
                lemma_marks_cons(c, rest);
            }
        } else if m is LineComment {
            if c == '\n' || c == '\r' {
                lemma_strip_unquoted(s, i + 1, ScanMode::Code);
                lemma_marks_cons(' ', strip_from(s, i + 1, ScanMode::Code));
            } else {
                lemma_strip_unquoted(s, i + 1, ScanMode::LineComment);
            }
        } else {
            if c == '*' && i + 1 < s.len() && s[i + 1] == '/' {
                lemma_strip_unquoted(s, i + 2, ScanMode::Code);
                lemma_marks_cons(' ', strip_from(s, i + 2, ScanMode::Code));
            } else if c == '\n' || c == '\r' {
                lemma_strip_unquoted(s, i + 1, ScanMode::BlockComment);
                lemma_marks_cons(' ', strip_from(s, i + 1, ScanMode::BlockComment));
            } else {
                lemma_strip_unquoted(s, i + 1, ScanMode::BlockComment);
            }
        }
    }
}

/// SQL without quotes has no `--` and no `/*` left once its comments are
/// stripped.
pub proof fn law_stripped_unquoted_has_no_comment_marks(s: Seq<char>)
    requires
        forall|k: int| 0 <= k < s.len() ==> #[trigger] s[k] != '\'' && s[k] != '"',
    ensures
        no_comment_marks(strip_comments_spec(s)),
{
    lemma_strip_unquoted(s, 0, ScanMode::Code);
}

/// Removes SQL `--` and `/* */` comments, leaving string and identifier
/// literals untouched.
pub fn strip_sql_comments(sql: &Vec<char>) -> (r: Vec<char>)
    ensures
        r@ == strip_comments_spec(sql@),
{
    let mut r: Vec<char> = Vec::new();
    let mut mode = ScanMode::Code;
    let mut i: usize = 0;
    let n = sql.len();
    while i < n
        invariant
            n == sql.len(),
            r@ + strip_from(sql@, i as int, mode) == strip_comments_spec(sql@),
        decreases n - i,
    {
        let c = sql[i];
        let next = if i + 1 < n {
            Some(sql[i + 1])
        } else {
            None
        };
        let ghost old_r = r@;
        let ghost old_i = i;
        let ghost old_mode = mode;
        match mode {
            ScanMode::SingleQuoted => {
                if c == '\'' {
                    if next == Some('\'') {
                        r.push('\'');
                        r.push('\'');
                        i += 2;
                    } else {
                        r.push(c);
                        mode = ScanMode::Code;
                        i += 1;
                    }
                } else {
                    r.push(c);
                    i += 1;
                }
            },
            ScanMode::DoubleQuoted => {
                if c == '"' {
                    if next == Some('"') {
                        r.push('"');
                        r.push('"');
                        i += 2;
                    } else {
                        r.push(c);
                        mode = ScanMode::Code;
                        i += 1;
                    }
                } else {
                    r.push(c);
                    i += 1;
                }
            },
            ScanMode::LineComment => {
                if c == '\n' || c == '\r' {
                    r.push(' ');
                    mode = ScanMode::Code;
                }
                i += 1;
            },
            ScanMode::BlockComment => {
                if c == '*' && next == Some('/') {
                    r.push(' ');
                    mode = ScanMode::Code;
                    i += 2;
                } else {
                    if c == '\n' || c == '\r' {
                        r.push(' ');
                    }
                    i += 1;
                }
            },
            ScanMode::Code => {
                if c == '\'' {
                    r.push(c);
                    mode = ScanMode::SingleQuoted;
                    i += 1;
                } else if c == '"' {
                    r.push(c);
                    mode = ScanMode::DoubleQuoted;
                    i += 1;
                } else if c == '-' && next == Some('-') {
                    mode = ScanMode::LineComment;
                    i += 2;
                } else if c == '/' && next == Some('*') {
                    mode = ScanMode::BlockComment;
                    i += 2;
                } else {
                    r.push(c);
                    i += 1;
                }
            },
        }
        proof {
            let tail = strip_from(sql@, i as int, mode);
            assert(r@.subrange(0, old_r.len() as int) == old_r);
            assert(old_r + strip_from(sql@, old_i as int, old_mode) == r@ + tail) by {
                assert(strip_from(sql@, old_i as int, old_mode) == r@.subrange(
                    old_r.len() as int,
                    r@.len() as int,
                ) + tail);
            }
        }
    }
    assert(r@ + seq![] == r@);
    r
}

// ---------------------------------------------------------------------------
// Keywords
// ---------------------------------------------------------------------------

/// The ASCII keyword `kw` starts at `p` (ignoring ASCII case) and is not
/// followed by an identifier character.
pub open spec fn keyword_prefix_at(s: Seq<char>, kw: Seq<char>, p: int) -> bool {
    &&& 0 <= p
    &&& p + kw.len() <= s.len()
    &&& forall|j: int| 0 <= j < kw.len() ==> #[trigger] lower_spec(s[p + j]) == lower_spec(kw[j])
    &&& (p + kw.len() == s.len() || !is_ident_spec(s[p + kw.len()]))
}

/// The keyword `kw` stands at `p` as a whole word.
pub open spec fn keyword_at(s: Seq<char>, kw: Seq<char>, p: int) -> bool {
    keyword_prefix_at(s, kw, p) && (p == 0 || !is_ident_spec(s[p - 1]))
}

/// First whole-word occurrence of `kw` at or after `start`.
pub open spec fn find_keyword_spec(s: Seq<char>, kw: Seq<char>, start: int, r: Option<usize>) -> bool {
    match r {
        Some(p) => kw.len() > 0 && start <= p && keyword_at(s, kw, p as int) && forall|q: int|
            start <= q < p ==> !keyword_at(s, kw, q),
        None => kw.len() == 0 || forall|q: int| start <= q ==> !keyword_at(s, kw, q),
    }
}

/// Functional form: first whole-word occurrence of `kw` at or after `i`.
pub open spec fn first_keyword_from(s: Seq<char>, kw: Seq<char>, i: int) -> Option<int>
    decreases s.len() - i,
{
    if kw.len() == 0 || i < 0 || i + kw.len() > s.len() {
        None
    } else if keyword_at(s, kw, i) {
        Some(i)
    } else {
        first_keyword_from(s, kw, i + 1)
    }
}

pub fn keyword_prefix_at_exec(s: &Vec<char>, kw: &Vec<char>, p: usize) -> (b: bool)
    ensures
        b == keyword_prefix_at(s@, kw@, p as int),
{
    if p > s.len() || kw.len() > s.len() - p {
        return false;
    }
    let mut j: usize = 0;
    while j < kw.len()
        invariant
            p + kw.len() <= s.len(),
            j <= kw.len(),
            forall|k: int| 0 <= k < j ==> #[trigger] lower_spec(s@[p + k]) == lower_spec(kw@[k]),
        decreases kw.len() - j,
    {
        if to_lower(s[p + j]) != to_lower(kw[j]) {
            return false;
        }
        j += 1;
    }
    p + kw.len() == s.len() || !is_ident_char(s[p + kw.len()])
}

pub fn keyword_at_exec(s: &Vec<char>, kw: &Vec<char>, p: usize) -> (b: bool)
    ensures
        b == keyword_at(s@, kw@, p as int),
{
    keyword_prefix_at_exec(s, kw, p) && (p == 0 || !is_ident_char(s[p - 1]))
}

/// Position of the first whole-word, ASCII case-insensitive occurrence of
/// `keyword` at or after `start`.
pub fn find_sql_keyword(sql: &Vec<char>, keyword: &Vec<char>, start: usize) -> (r: Option<usize>)
    ensures
        find_keyword_spec(sql@, keyword@, start as int, r),
        match first_keyword_from(sql@, keyword@, start as int) {
            None => r is None,
            Some(p) => r matches Some(x) && x as int == p,
        },
        r matches Some(x) ==> x + keyword@.len() <= sql@.len(),
{
    if keyword.len() == 0 {
        return None;
    }
    if start >= sql.len() {
        return None;
    }
    if keyword.len() > sql.len() {
        return None;
    }
    let mut pos = start;
    while pos <= sql.len() - keyword.len()
        invariant
            keyword.len() > 0,
            keyword.len() <= sql.len(),
            start <= pos,
            forall|q: int| start <= q < pos ==> !keyword_at(sql@, keyword@, q),
            first_keyword_from(sql@, keyword@, start as int) == first_keyword_from(
                sql@,
                keyword@,
                pos as int,
            ),
        decreases sql.len() - pos,
    {
        if keyword_at_exec(sql, keyword, pos) {
            return Some(pos);
        }
        pos += 1;
    }
    None
}

pub fn keyword_vec(kw: &str) -> (v: Vec<char>)
    ensures
        v@ == kw@,
{
    crate::text::chars_of(kw)
}

// ---------------------------------------------------------------------------
// Identifiers
// ---------------------------------------------------------------------------

/// End (exclusive) of a quoted identifier that starts at index 0, scanning from `i`.
pub open spec fn quoted_ident_end(t: Seq<char>, i: int) -> Option<int>
    decreases t.len() - i,
{
    if i < 1 || i >= t.len() {
        None
    } else if t[i] == '"' {
        if i + 1 < t.len() && t[i + 1] == '"' {
            quoted_ident_end(t, i + 2)
        } else {
            Some(i + 1)
        }
    } else {
        quoted_ident_end(t, i + 1)
    }
}

/// Length of the run of identifier characters starting at `i`.
pub open spec fn ident_run_end(t: Seq<char>, i: int) -> int
    decreases t.len() - i,
{
    if i < 0 || i >= t.len() {
        i
    } else if is_ident_spec(t[i]) {
        ident_run_end(t, i + 1)
    } else {
        i
    }
}

/// The identifier at the start of `input` (after trimming) and the text after it.
pub open spec fn ident_prefix_spec(input: Seq<char>) -> Option<(Seq<char>, Seq<char>)> {
    let t = trim(input);
    if t.len() == 0 {
        None
    } else if t[0] == '"' {
        match quoted_ident_end(t, 1) {
            None => None,
            Some(e) => Some(
                (
                    replace_all(t.subrange(1, e - 1), seq!['"', '"'], seq!['"']),
                    t.subrange(e, t.len() as int),
                ),
            ),
        }
    } else {
        let e = ident_run_end(t, 0);
        if e == 0 {
            None
        } else {
            Some((t.subrange(0, e), t.subrange(e, t.len() as int)))
        }
    }
}

proof fn lemma_quoted_end_bounds(t: Seq<char>, i: int)
    requires
        1 <= i,
    ensures
        quoted_ident_end(t, i) matches Some(e) ==> i + 1 <= e <= t.len(),
    decreases t.len() - i,
{
    if i < t.len() {
        if t[i] == '"' {
            if i + 1 < t.len() && t[i + 1] == '"' {
                lemma_quoted_end_bounds(t, i + 2);
            }
        } else {
            lemma_quoted_end_bounds(t, i + 1);
        }
    }
}

proof fn lemma_ident_run_bounds(t: Seq<char>, i: int)
    requires
        0 <= i <= t.len(),
    ensures
        i <= ident_run_end(t, i) <= t.len(),
    decreases t.len() - i,
{
    if i < t.len() && is_ident_spec(t[i]) {
        lemma_ident_run_bounds(t, i + 1);
    }
}

/// The quote-doubling of a name, built from the front.
pub open spec fn doubled_quotes(n: Seq<char>) -> Seq<char>
    decreases n.len(),
{
    if n.len() == 0 {
        seq![]
    } else {
        (if n[0] == '"' {
            seq!['"', '"']
        } else {
            seq![n[0]]
        }) + doubled_quotes(n.drop_first())
    }
}

proof fn lemma_doubled_quotes_push(n: Seq<char>, c: char)
    ensures
        doubled_quotes(n.push(c)) == doubled_quotes(n) + (if c == '"' {
            seq!['"', '"']
        } else {
            seq![c]
        }),
    decreases n.len(),
{
    if n.len() == 0 {
        assert(n.push(c).drop_first() =~= Seq::<char>::empty());
        assert(doubled_quotes(Seq::<char>::empty()) =~= Seq::<char>::empty());
    } else {
        assert(n.push(c).drop_first() =~= n.drop_first().push(c));
        lemma_doubled_quotes_push(n.drop_first(), c);
    }
}

proof fn lemma_doubled_is_replace(n: Seq<char>)
    ensures
        doubled_quotes(n) == crate::text::replace_char(n, '"', seq!['"', '"']),
    decreases n.len(),
{
    if n.len() > 0 {
        lemma_doubled_is_replace(n.drop_last());
        assert(n =~= n.drop_last().push(n.last()));
        lemma_doubled_quotes_push(n.drop_last(), n.last());
    }
}

proof fn lemma_undouble(n: Seq<char>)
    ensures
        replace_all(doubled_quotes(n), seq!['"', '"'], seq!['"']) == n,
    decreases n.len(),
{
    let d = doubled_quotes(n);
    if n.len() > 0 {
        lemma_undouble(n.drop_first());
        if n[0] == '"' {
            assert(d =~= seq!['"', '"'] + doubled_quotes(n.drop_first()));
            assert(d.subrange(0, 2) =~= seq!['"', '"']);
            assert(starts_with(d, seq!['"', '"']));
            assert(d.skip(2) =~= doubled_quotes(n.drop_first()));
            assert(n =~= seq!['"'] + n.drop_first());
        } else {
            assert(d =~= seq![n[0]] + doubled_quotes(n.drop_first()));
            assert(d[0] != '"');
            assert(!starts_with(d, seq!['"', '"'])) by {
                if d.len() >= 2 {
                    assert(d.subrange(0, 2)[0] == d[0]);
                }
            }
            assert(d.drop_first() =~= doubled_quotes(n.drop_first()));
            assert(n =~= seq![n[0]] + n.drop_first());
        }
    }
}

proof fn lemma_quoted_end_of_doubled(t: Seq<char>, i: int, m: Seq<char>)
    requires
        1 <= i,
        i + doubled_quotes(m).len() + 1 == t.len(),
        t.subrange(i, i + doubled_quotes(m).len()) == doubled_quotes(m),
        t[t.len() - 1] == '"',
    ensures
        quoted_ident_end(t, i) == Some(t.len() as int),
    decreases m.len(),
{
    let d = doubled_quotes(m);
    if m.len() > 0 {
        let rest = doubled_quotes(m.drop_first());
        if m[0] == '"' {
            assert(d =~= seq!['"', '"'] + rest);
            assert(t[i] == t.subrange(i, i + d.len())[0]);
            assert(t[i + 1] == t.subrange(i, i + d.len())[1]);
            assert(t.subrange(i + 2, i + 2 + rest.len()) =~= t.subrange(i, i + d.len()).subrange(2, d.len() as int));
            assert(d.subrange(2, d.len() as int) =~= rest);
            lemma_quoted_end_of_doubled(t, i + 2, m.drop_first());
        } else {
            assert(d =~= seq![m[0]] + rest);
            assert(t[i] == t.subrange(i, i + d.len())[0]);
            assert(t.subrange(i + 1, i + 1 + rest.len()) =~= t.subrange(i, i + d.len()).subrange(1, d.len() as int));
            assert(d.subrange(1, d.len() as int) =~= rest);
            lemma_quoted_end_of_doubled(t, i + 1, m.drop_first());
        }
    }
}

/// A quoted identifier reads back as the name that was quoted, with nothing
/// after it: quoting (`"` around, `"` doubled) and reading undo each other.
pub proof fn law_quoted_identifier_reads_back(n: Seq<char>)
    ensures
        ident_prefix_spec(crate::names::quote_ident_spec(n)) == Some((n, Seq::<char>::empty())),
{
    let q = crate::names::quote_ident_spec(n);
    let d = doubled_quotes(n);
    lemma_doubled_is_replace(n);
    assert(q =~= seq!['"'] + d + seq!['"']);
    // the quotes at both ends are not whitespace, so trimming keeps `q`
    assert(!is_ws('"'));
    assert(first_non_ws_from(q, 0) == 0);
    assert(crate::text::trim_start(q) =~= q);
    assert(crate::text::last_non_ws_end(q, q.len() as int) == q.len());
    assert(crate::text::trim_end(q) =~= q);
    assert(trim(q) == q);
    assert(q.subrange(1, 1 + d.len() as int) =~= d);
    lemma_quoted_end_of_doubled(q, 1, n);
    assert(q.subrange(1, q.len() - 1) =~= d);
    lemma_undouble(n);
    assert(q.subrange(q.len() as int, q.len() as int) =~= Seq::<char>::empty());
}

/// Parses the identifier at the start of `input` (double-quoted with `""`
/// escapes, or a run of ASCII letters, digits and `_`); returns it with the
/// rest of the trimmed input.
pub fn parse_sql_identifier_prefix(input: &Vec<char>) -> (r: Option<(Vec<char>, Vec<char>)>)
    ensures
        match ident_prefix_spec(input@) {
            None => r is None,
            Some((n, rest)) => r matches Some((a, b)) && a@ == n && b@ == rest,
        },
{
    let t = trim_vec(input);
    if t.len() == 0 {
        return None;
    }
    if t[0] == '"' {
        let mut i: usize = 1;
        while i < t.len()
            invariant
                1 <= i,
                t@ == trim(input@),
                t@.len() > 0 && t@[0] == '"',
                quoted_ident_end(t@, 1) == quoted_ident_end(t@, i as int),
            decreases t.len() - i,
        {
            if t[i] == '"' {
                if i + 1 < t.len() && t[i + 1] == '"' {
                    i += 2;
                    continue;
                }
                let inner = sub_vec(&t, 1, i);
                let pat = vec!['"', '"'];
                let one = vec!['"'];
                assert(pat@ =~= seq!['"', '"']);
                assert(one@ =~= seq!['"']);
                let name = replace_all_vec(&inner, &pat, &one);
                let rest = sub_vec(&t, i + 1, t.len());
                return Some((name, rest));
            }
            i += 1;
        }
        return None;
    }
    let mut e: usize = 0;
    while e < t.len() && is_ident_char(t[e])
        invariant
            e <= t.len(),
            ident_run_end(t@, 0) == ident_run_end(t@, e as int),
        decreases t.len() - e,
    {
        e += 1;
    }
    if e == 0 {
        return None;
    }
    Some((sub_vec(&t, 0, e), sub_vec(&t, e, t.len())))
}

/// `"…"` → the name inside with `""` collapsed to `"`.
pub open spec fn unquote_spec(input: Seq<char>) -> Option<Seq<char>> {
    if input.len() < 2 || input[0] != '"' || input[input.len() - 1] != '"' {
        None
    } else {
        Some(replace_all(input.subrange(1, input.len() - 1), seq!['"', '"'], seq!['"']))
    }
}

/// Removes the surrounding double quotes of an identifier and its `""` escapes.
pub fn unquote_sql_identifier(input: &Vec<char>) -> (r: Option<Vec<char>>)
    ensures
        match unquote_spec(input@) {
            None => r is None,
            Some(n) => r matches Some(v) && v@ == n,
        },
{
    if input.len() < 2 || input[0] != '"' || input[input.len() - 1] != '"' {
        return None;
    }
    let inner = sub_vec(input, 1, input.len() - 1);
    let pat = vec!['"', '"'];
    let one = vec!['"'];
    assert(pat@ =~= seq!['"', '"']);
    assert(one@ =~= seq!['"']);
    Some(replace_all_vec(&inner, &pat, &one))
}

// ---------------------------------------------------------------------------
// Top-level scanning (outside quotes and parentheses)
// ---------------------------------------------------------------------------

/// Quote and parenthesis state of a left-to-right scan.
pub struct QuoteState {
    pub depth: nat,
    pub single: bool,
    pub double: bool,
}

/// The character at `i` is outside quotes, at parenthesis depth 0, and is not
/// itself a quote or a parenthesis.
pub open spec fn free_top(s: Seq<char>, i: int, st: QuoteState) -> bool {
    !st.single && !st.double && st.depth == 0 && s[i] != '\'' && s[i] != '"' && s[i] != '('
        && s[i] != ')'
}

/// Position and state after the character at `i` (a doubled `""` inside a
/// double-quoted identifier is consumed at once).
pub open spec fn scan_next(s: Seq<char>, i: int, st: QuoteState) -> (int, QuoteState) {
    let c = s[i];
    if st.single {
        if c == '\'' {
            (i + 1, QuoteState { single: false, ..st })
        } else {
            (i + 1, st)
        }
    } else if st.double {
        if c == '"' {
            if i + 1 < s.len() && s[i + 1] == '"' {
                (i + 2, st)
            } else {
                (i + 1, QuoteState { double: false, ..st })
            }
        } else {
            (i + 1, st)
        }
    } else if c == '\'' {
        (i + 1, QuoteState { single: true, ..st })
    } else if c == '"' {
        (i + 1, QuoteState { double: true, ..st })
    } else if c == '(' {
        (i + 1, QuoteState { depth: st.depth + 1, ..st })
    } else if c == ')' {
        (
            i + 1,
            QuoteState {
                depth: if st.depth > 0 {
                    (st.depth - 1) as nat
                } else {
                    0
                },
                ..st
            },
        )
    } else {
        (i + 1, st)
    }
}

pub open spec fn start_state() -> QuoteState {
    QuoteState { depth: 0, single: false, double: false }
}

/// Executable scan state.
pub struct ScanState {
    pub depth: usize,
    pub single: bool,
    pub double: bool,
}

impl View for ScanState {
    type V = QuoteState;

    open spec fn view(&self) -> QuoteState {
        QuoteState { depth: self.depth as nat, single: self.single, double: self.double }
    }
}

pub fn scan_step(s: &Vec<char>, i: usize, st: &ScanState) -> (r: (usize, ScanState))
    requires
        i < s.len(),
        st.depth <= i,
    ensures
        r.0 as int == scan_next(s@, i as int, st@).0,
        r.1@ == scan_next(s@, i as int, st@).1,
        i < r.0 <= s.len(),
        r.1.depth <= r.0,
{
    let c = s[i];
    if st.single {
        if c == '\'' {
            (i + 1, ScanState { depth: st.depth, single: false, double: st.double })
        } else {
            (i + 1, ScanState { depth: st.depth, single: st.single, double: st.double })
        }
    } else if st.double {
        if c == '"' {
            if i + 1 < s.len() && s[i + 1] == '"' {
                (i + 2, ScanState { depth: st.depth, single: st.single, double: st.double })
            } else {
                (i + 1, ScanState { depth: st.depth, single: st.single, double: false })
            }
        } else {
            (i + 1, ScanState { depth: st.depth, single: st.single, double: st.double })
        }
    } else if c == '\'' {
        (i + 1, ScanState { depth: st.depth, single: true, double: st.double })
    } else if c == '"' {
        (i + 1, ScanState { depth: st.depth, single: st.single, double: true })
    } else if c == '(' {
        (i + 1, ScanState { depth: st.depth + 1, single: st.single, double: st.double })
    } else if c == ')' {
        (
            i + 1,
            ScanState {
                depth: if st.depth > 0 {
                    st.depth - 1
                } else {
                    0
                },
                single: st.single,
                double: st.double,
            },
        )
    } else {
        (i + 1, ScanState { depth: st.depth, single: st.single, double: st.double })
    }
}

pub fn free_top_exec(s: &Vec<char>, i: usize, st: &ScanState) -> (b: bool)
    requires
        i < s.len(),
    ensures
        b == free_top(s@, i as int, st@),
{
    let c = s[i];
    !st.single && !st.double && st.depth == 0 && c != '\'' && c != '"' && c != '(' && c != ')'
}

/// Odd number of `'` characters.
pub open spec fn unclosed_quote_from(s: Seq<char>, i: int, open: bool) -> bool
    decreases s.len() - i,
{
    if i < 0 || i >= s.len() {
        open
    } else if s[i] == '\'' {
        unclosed_quote_from(s, i + 1, !open)
    } else {
        unclosed_quote_from(s, i + 1, open)
    }
}

pub fn has_unclosed_string_literal(input: &Vec<char>) -> (b: bool)
    ensures
        b == unclosed_quote_from(input@, 0, false),
{
    let mut open = false;
    let mut i: usize = 0;
    while i < input.len()
        invariant
            i <= input.len(),
            unclosed_quote_from(input@, 0, false) == unclosed_quote_from(input@, i as int, open),
        decreases input.len() - i,
    {
        if input[i] == '\'' {
            open = !open;
        }
        i += 1;
    }
    open
}

/// Top-level comma split from `i`: the trimmed pieces, or `None` when a piece
/// is blank (a blank last piece is allowed after at least one comma).
pub open spec fn commas_from(s: Seq<char>, i: int, st: QuoteState, start: int, any: bool) -> Option<
    Seq<Seq<char>>,
>
    decreases s.len() - i,
{
    if i < 0 || i >= s.len() {
        let last = trim(s.subrange(start, s.len() as int));
        if last.len() == 0 {
            if any {
                Some(seq![])
            } else {
                None
            }
        } else {
            Some(seq![last])
        }
    } else if free_top(s, i, st) && s[i] == ',' {
        let seg = trim(s.subrange(start, i));
        if seg.len() == 0 {
            None
        } else {
            match commas_from(s, i + 1, st, i + 1, true) {
                None => None,
                Some(rest) => Some(seq![seg] + rest),
            }
        }
    } else {
        let (j, st2) = scan_next(s, i, st);
        if j <= i {
            None
        } else {
            commas_from(s, j, st2, start, any)
        }
    }
}

/// Splits at commas outside quotes and parentheses.
pub open spec fn split_commas_spec(s: Seq<char>) -> Option<Seq<Seq<char>>> {
    if unclosed_quote_from(s, 0, false) {
        None
    } else {
        commas_from(s, 0, start_state(), 0, false)
    }
}

pub fn split_top_level_commas(input: &Vec<char>) -> (r: Option<Vec<Vec<char>>>)
    ensures
        match split_commas_spec(input@) {
            None => r is None,
            Some(p) => r matches Some(v) && vv(v@) == p,
        },
{
    if has_unclosed_string_literal(input) {
        return None;
    }
    let mut parts: Vec<Vec<char>> = Vec::new();
    let mut start: usize = 0;
    let mut st = ScanState { depth: 0, single: false, double: false };
    let mut i: usize = 0;
    assert(vv(parts@) =~= seq![]);
    while i < input.len()
        invariant
            start <= i <= input.len(),
            st.depth <= i,
            !unclosed_quote_from(input@, 0, false),
            split_commas_spec(input@) == match commas_from(input@, i as int, st@, start as int, parts.len() > 0) {
                None => None,
                Some(rest) => Some(vv(parts@) + rest),
            },
        decreases input.len() - i,
    {
        if free_top_exec(input, i, &st) && input[i] == ',' {
            let piece = sub_vec(input, start, i);
            let seg = trim_vec(&piece);
            if seg.len() == 0 {
                return None;
            }
            let ghost old = vv(parts@);
            parts.push(seg);
            proof {
                assert(vv(parts@) =~= old.push(seg@));
                match commas_from(input@, i + 1, st@, i + 1, true) {
                    None => {},
                    Some(rest) => {
                        assert(vv(parts@) + rest =~= old + (seq![seg@] + rest));
                    },
                }
            }
            i += 1;
            start = i;
        } else {
            let (j, st2) = scan_step(input, i, &st);
            i = j;
            st = st2;
        }
    }
    let piece = sub_vec(input, start, input.len());
    let last = trim_vec(&piece);
    if last.len() == 0 {
        if parts.len() > 0 {
            assert(vv(parts@) + seq![] =~= vv(parts@));
            return Some(parts);
        }
        return None;
    }
    let ghost old = vv(parts@);
    parts.push(last);
    assert(vv(parts@) =~= old + seq![last@]);
    Some(parts)
}

/// First free top-level position from `i` where `kw` starts as a keyword
/// (only its end is checked against identifier characters).
pub open spec fn kw_parens_from(s: Seq<char>, i: int, st: QuoteState, kw: Seq<char>) -> Option<int>
    decreases s.len() - i,
{
    if i < 0 || i >= s.len() {
        None
    } else if free_top(s, i, st) && keyword_prefix_at(s, kw, i) {
        Some(i)
    } else {
        let (j, st2) = scan_next(s, i, st);
        if j <= i {
            None
        } else {
            kw_parens_from(s, j, st2, kw)
        }
    }
}

pub fn find_top_level_keyword_with_parens(input: &Vec<char>, keyword: &Vec<char>) -> (r: Option<usize>)
    ensures
        match kw_parens_from(input@, 0, start_state(), keyword@) {
            None => r is None,
            Some(p) => r matches Some(x) && x as int == p,
        },
        r matches Some(x) ==> x + keyword@.len() <= input@.len(),
{
    let mut st = ScanState { depth: 0, single: false, double: false };
    let mut i: usize = 0;
    while i < input.len()
        invariant
            i <= input.len(),
            st.depth <= i,
            kw_parens_from(input@, 0, start_state(), keyword@) == kw_parens_from(
                input@,
                i as int,
                st@,
                keyword@,
            ),
        decreases input.len() - i,
    {
        if free_top_exec(input, i, &st) && keyword_prefix_at_exec(input, keyword, i) {
            return Some(i);
        }
        let (j, st2) = scan_step(input, i, &st);
        i = j;
        st = st2;
    }
    None
}

/// Last free top-level whitespace position (the split point of an implicit alias).
pub open spec fn last_space_from(s: Seq<char>, i: int, st: QuoteState, last: Option<int>) -> Option<int>
    decreases s.len() - i,
{
    if i < 0 || i >= s.len() {
        last
    } else if free_top(s, i, st) && is_ws(s[i]) {
        last_space_from(s, i + 1, st, Some(i))
    } else {
        let (j, st2) = scan_next(s, i, st);
        if j <= i {
            last
        } else {
            last_space_from(s, j, st2, last)
        }
    }
}

pub fn last_top_level_space(input: &Vec<char>) -> (r: Option<usize>)
    ensures
        match last_space_from(input@, 0, start_state(), None) {
            None => r is None,
            Some(p) => r matches Some(x) && x as int == p,
        },
        r matches Some(x) ==> x < input@.len(),
{
    let mut st = ScanState { depth: 0, single: false, double: false };
    let mut last: Option<usize> = None;
    let mut i: usize = 0;
    while i < input.len()
        invariant
            i <= input.len(),
            st.depth <= i,
            last matches Some(x) ==> x < input@.len(),
            last_space_from(input@, 0, start_state(), None) == last_space_from(
                input@,
                i as int,
                st@,
                match last {
                    None => None,
                    Some(x) => Some(x as int),
                },
            ),
        decreases input.len() - i,
    {
        if free_top_exec(input, i, &st) && crate::text::is_whitespace(input[i]) {
            last = Some(i);
            i += 1;
        } else {
            let (j, st2) = scan_step(input, i, &st);
            i = j;
            st = st2;
        }
    }
    last
}

/// First position from `i` outside `'…'` where `kw` starts as a keyword
/// (only its end is checked against identifier characters).
pub open spec fn top_kw_from(s: Seq<char>, i: int, in_single: bool, kw: Seq<char>) -> Option<int>
    decreases s.len() - i,
{
    if i < 0 || i >= s.len() {
        None
    } else if s[i] == '\'' {
        top_kw_from(s, i + 1, !in_single, kw)
    } else if !in_single && keyword_prefix_at(s, kw, i) {
        Some(i)
    } else {
        top_kw_from(s, i + 1, in_single, kw)
    }
}

pub fn find_top_level_keyword(input: &Vec<char>, from: usize, keyword: &Vec<char>) -> (r: Option<usize>)
    ensures
        match top_kw_from(input@, from as int, false, keyword@) {
            None => r is None,
            Some(p) => r matches Some(x) && x as int == p,
        },
        r matches Some(x) ==> from <= x && x + keyword@.len() <= input@.len(),
{
    let mut in_single = false;
    let mut i: usize = from;
    while i < input.len()
        invariant
            from <= i,
            top_kw_from(input@, from as int, false, keyword@) == top_kw_from(
                input@,
                i as int,
                in_single,
                keyword@,
            ),
        decreases input.len() - i,
    {
        if input[i] == '\'' {
            in_single = !in_single;
            i += 1;
            continue;
        }
        if !in_single && keyword_prefix_at_exec(input, keyword, i) {
            return Some(i);
        }
        i += 1;
    }
    None
}

/// Top-level `AND` split from `i` (segments trimmed, whitespace after each
/// `AND` skipped); `None` when a segment is blank.
pub open spec fn and_split_from(s: Seq<char>, i: int, any: bool) -> Option<Seq<Seq<char>>>
    decreases s.len() - i,
{
    match top_kw_from(s, i, false, "AND"@) {
        None => {
            let last = trim(s.subrange(i, s.len() as int));
            if last.len() == 0 {
                if any {
                    Some(seq![])
                } else {
                    None
                }
            } else {
                Some(seq![last])
            }
        },
        Some(p) => {
            let seg = trim(s.subrange(i, p));
            if seg.len() == 0 {
                None
            } else {
                let j = first_non_ws_from(s, p + 3);
                if j <= i || j > s.len() {
                    None
                } else {
                    match and_split_from(s, j, true) {
                        None => None,
                        Some(rest) => Some(seq![seg] + rest),
                    }
                }
            }
        },
    }
}

pub open spec fn split_and_spec(s: Seq<char>) -> Option<Seq<Seq<char>>> {
    if unclosed_quote_from(s, 0, false) {
        None
    } else {
        and_split_from(s, 0, false)
    }
}

pub fn split_top_level_and(input: &Vec<char>) -> (r: Option<Vec<Vec<char>>>)
    ensures
        match split_and_spec(input@) {
            None => r is None,
            Some(p) => r matches Some(v) && vv(v@) == p,
        },
{
    if has_unclosed_string_literal(input) {
        return None;
    }
    let and_kw = keyword_vec("AND");
    let mut parts: Vec<Vec<char>> = Vec::new();
    let mut i: usize = 0;
    assert(vv(parts@) =~= seq![]);
    loop
        invariant
            i <= input.len(),
            and_kw@ == "AND"@,
            !unclosed_quote_from(input@, 0, false),
            split_and_spec(input@) == match and_split_from(input@, i as int, parts.len() > 0) {
                None => None,
                Some(rest) => Some(vv(parts@) + rest),
            },
        decreases input.len() - i,
    {
        match find_top_level_keyword(input, i, &and_kw) {
            None => {
                let piece = sub_vec(input, i, input.len());
                let last = trim_vec(&piece);
                if last.len() == 0 {
                    if parts.len() > 0 {
                        assert(vv(parts@) + seq![] =~= vv(parts@));
                        return Some(parts);
                    }
                    return None;
                }
                let ghost old = vv(parts@);
                parts.push(last);
                assert(vv(parts@) =~= old + seq![last@]);
                return Some(parts);
            },
            Some(p) => {
                let piece = sub_vec(input, i, p);
                let seg = trim_vec(&piece);
                if seg.len() == 0 {
                    return None;
                }
                proof {
                    reveal_strlit("AND");
                }
                let mut j = p + 3;
                proof {
                    lemma_first_non_ws_bounds(input@, j as int);
                }
                while j < input.len() && crate::text::is_whitespace(input[j])
                    invariant
                        p + 3 <= j <= input.len(),
                        first_non_ws_from(input@, p + 3) == first_non_ws_from(input@, j as int),
                    decreases input.len() - j,
                {
                    j += 1;
                }
                let ghost old = vv(parts@);
                parts.push(seg);
                proof {
                    assert(vv(parts@) =~= old.push(seg@));
                    match and_split_from(input@, j as int, true) {
                        None => {},
                        Some(rest) => {
                            assert(vv(parts@) + rest =~= old + (seq![seg@] + rest));
                        },
                    }
                }
                i = j;
            },
        }
    }
}

} // verus!
