//! Character-level text utilities shared by the SQL, path and template helpers.
//!
//! Strings are handled as sequences of Unicode scalar values (`Seq<char>`);
//! executable code works on `Vec<char>` and converts at the public boundary.
use vstd::prelude::*;

verus! {

/// The views of a sequence of character vectors.
pub open spec fn vv(v: Seq<Vec<char>>) -> Seq<Seq<char>> {
    Seq::new(v.len(), |i: int| v[i]@)
}

// ---------------------------------------------------------------------------
// Character classes
// ---------------------------------------------------------------------------

/// Unicode `White_Space` property (what `char::is_whitespace` tests).
pub open spec fn is_ws(c: char) -> bool {
    let u = c as u32;
    ||| (0x09 <= u && u <= 0x0d)
    ||| u == 0x20
    ||| u == 0x85
    ||| u == 0xa0
    ||| u == 0x1680
    ||| (0x2000 <= u && u <= 0x200a)
    ||| u == 0x2028
    ||| u == 0x2029
    ||| u == 0x202f
    ||| u == 0x205f
    ||| u == 0x3000
}

/// Unicode general category `Cc` (what `char::is_control` tests).
pub open spec fn is_ctrl(c: char) -> bool {
    let u = c as u32;
    u < 0x20 || (0x7f <= u && u <= 0x9f)
}

pub open spec fn is_ascii_digit_spec(c: char) -> bool {
    '0' <= c && c <= '9'
}

pub open spec fn is_ascii_upper_spec(c: char) -> bool {
    'A' <= c && c <= 'Z'
}

pub open spec fn is_ascii_lower_spec(c: char) -> bool {
    'a' <= c && c <= 'z'
}

pub open spec fn is_ascii_alnum_spec(c: char) -> bool {
    is_ascii_digit_spec(c) || is_ascii_upper_spec(c) || is_ascii_lower_spec(c)
}

/// ASCII alphanumeric or `_`.
pub open spec fn is_ident_spec(c: char) -> bool {
    is_ascii_alnum_spec(c) || c == '_'
}

pub open spec fn is_ascii_hex_spec(c: char) -> bool {
    is_ascii_digit_spec(c) || ('a' <= c && c <= 'f') || ('A' <= c && c <= 'F')
}

/// ASCII upper-casing of one character (non-ASCII letters are unchanged).
pub open spec fn upper_spec(c: char) -> char {
    if is_ascii_lower_spec(c) {
        ((c as u32) - 32) as char
    } else {
        c
    }
}

/// ASCII lower-casing of one character (non-ASCII letters are unchanged).
pub open spec fn lower_spec(c: char) -> char {
    if is_ascii_upper_spec(c) {
        ((c as u32) + 32) as char
    } else {
        c
    }
}

pub open spec fn upper_seq(s: Seq<char>) -> Seq<char> {
    Seq::new(s.len(), |i: int| upper_spec(s[i]))
}

pub open spec fn lower_seq(s: Seq<char>) -> Seq<char> {
    Seq::new(s.len(), |i: int| lower_spec(s[i]))
}

/// ASCII case-insensitive equality of two sequences.
pub open spec fn eq_ignore_case(a: Seq<char>, b: Seq<char>) -> bool {
    a.len() == b.len() && forall|i: int| 0 <= i < a.len() ==> #[trigger] lower_spec(a[i]) == lower_spec(b[i])
}

pub fn is_whitespace(c: char) -> (b: bool)
    ensures
        b == is_ws(c),
{
    let u = c as u32;
    (0x09 <= u && u <= 0x0d) || u == 0x20 || u == 0x85 || u == 0xa0 || u == 0x1680 || (0x2000
        <= u && u <= 0x200a) || u == 0x2028 || u == 0x2029 || u == 0x202f || u == 0x205f || u
        == 0x3000
}

pub fn is_control(c: char) -> (b: bool)
    ensures
        b == is_ctrl(c),
{
    let u = c as u32;
    u < 0x20 || (0x7f <= u && u <= 0x9f)
}

pub fn is_ascii_digit(c: char) -> (b: bool)
    ensures
        b == is_ascii_digit_spec(c),
{
    '0' <= c && c <= '9'
}

pub fn is_ascii_lower(c: char) -> (b: bool)
    ensures
        b == is_ascii_lower_spec(c),
{
    'a' <= c && c <= 'z'
}

pub fn is_ascii_alnum(c: char) -> (b: bool)
    ensures
        b == is_ascii_alnum_spec(c),
{
    ('0' <= c && c <= '9') || ('A' <= c && c <= 'Z') || ('a' <= c && c <= 'z')
}

pub fn is_ident_char(c: char) -> (b: bool)
    ensures
        b == is_ident_spec(c),
{
    is_ascii_alnum(c) || c == '_'
}

pub fn is_ascii_hex(c: char) -> (b: bool)
    ensures
        b == is_ascii_hex_spec(c),
{
    ('0' <= c && c <= '9') || ('a' <= c && c <= 'f') || ('A' <= c && c <= 'F')
}

pub fn to_upper(c: char) -> (r: char)
    ensures
        r == upper_spec(c),
{
    if 'a' <= c && c <= 'z' {
        ((c as u8) - 32) as char
    } else {
        c
    }
}

pub fn to_lower(c: char) -> (r: char)
    ensures
        r == lower_spec(c),
{
    if 'A' <= c && c <= 'Z' {
        ((c as u8) + 32) as char
    } else {
        c
    }
}

pub fn upper_vec(v: &Vec<char>) -> (r: Vec<char>)
    ensures
        r@ == upper_seq(v@),
{
    let mut r: Vec<char> = Vec::new();
    let mut i: usize = 0;
    while i < v.len()
        invariant
            i <= v.len(),
            r@ == Seq::new(i as nat, |k: int| upper_spec(v@[k])),
        decreases v.len() - i,
    {
        r.push(to_upper(v[i]));
        i += 1;
    }
    r
}

pub fn lower_vec(v: &Vec<char>) -> (r: Vec<char>)
    ensures
        r@ == lower_seq(v@),
{
    let mut r: Vec<char> = Vec::new();
    let mut i: usize = 0;
    while i < v.len()
        invariant
            i <= v.len(),
            r@ == Seq::new(i as nat, |k: int| lower_spec(v@[k])),
        decreases v.len() - i,
    {
        r.push(to_lower(v[i]));
        i += 1;
    }
    r
}

// ---------------------------------------------------------------------------
// Trimming
// ---------------------------------------------------------------------------

/// Index of the first non-whitespace character at or after `i` (or the length).
pub open spec fn first_non_ws_from(s: Seq<char>, i: int) -> int
    decreases s.len() - i,
{
    if i >= s.len() {
        s.len() as int
    } else if is_ws(s[i]) {
        first_non_ws_from(s, i + 1)
    } else {
        i
    }
}

/// End index after dropping the whitespace that precedes position `j`.
pub open spec fn last_non_ws_end(s: Seq<char>, j: int) -> int
    decreases j,
{
    if j <= 0 {
        0
    } else if is_ws(s[j - 1]) {
        last_non_ws_end(s, j - 1)
    } else {
        j
    }
}

/// `str::trim_start`.
pub open spec fn trim_start(s: Seq<char>) -> Seq<char> {
    s.subrange(first_non_ws_from(s, 0), s.len() as int)
}

/// `str::trim_end`.
pub open spec fn trim_end(s: Seq<char>) -> Seq<char> {
    s.subrange(0, last_non_ws_end(s, s.len() as int))
}

/// `str::trim`.
pub open spec fn trim(s: Seq<char>) -> Seq<char> {
    trim_end(trim_start(s))
}

pub proof fn lemma_first_non_ws_bounds(s: Seq<char>, i: int)
    requires
        0 <= i <= s.len(),
    ensures
        i <= first_non_ws_from(s, i) <= s.len(),
        forall|k: int| i <= k < first_non_ws_from(s, i) ==> is_ws(#[trigger] s[k]),
        first_non_ws_from(s, i) < s.len() ==> !is_ws(s[first_non_ws_from(s, i)]),
    decreases s.len() - i,
{
    if i < s.len() && is_ws(s[i]) {
        lemma_first_non_ws_bounds(s, i + 1);
    }
}

pub proof fn lemma_last_non_ws_bounds(s: Seq<char>, j: int)
    requires
        0 <= j <= s.len(),
    ensures
        0 <= last_non_ws_end(s, j) <= j,
        forall|k: int| last_non_ws_end(s, j) <= k < j ==> is_ws(#[trigger] s[k]),
        last_non_ws_end(s, j) > 0 ==> !is_ws(s[last_non_ws_end(s, j) - 1]),
    decreases j,
{
    if j > 0 && is_ws(s[j - 1]) {
        lemma_last_non_ws_bounds(s, j - 1);
    }
}

/// The trimmed text is empty exactly when every character is whitespace.
pub proof fn lemma_trim_empty(s: Seq<char>)
    ensures
        (trim(s).len() == 0) <==> (forall|k: int| 0 <= k < s.len() ==> is_ws(#[trigger] s[k])),
{
    lemma_first_non_ws_bounds(s, 0);
    let t = trim_start(s);
    lemma_last_non_ws_bounds(t, t.len() as int);
    let a = first_non_ws_from(s, 0);
    if trim(s).len() == 0 {
        if a < s.len() {
            assert(t[0] == s[a]);
            assert(last_non_ws_end(t, t.len() as int) == 0);
            assert(is_ws(t[0]));
        }
    } else {
        if forall|k: int| 0 <= k < s.len() ==> is_ws(#[trigger] s[k]) {
            assert(a == s.len());
        }
    }
}

/// Trimming yields a sequence with no whitespace at either end.
pub proof fn lemma_trim_ends(s: Seq<char>)
    ensures
        trim(s).len() > 0 ==> !is_ws(trim(s)[0]) && !is_ws(trim(s)[trim(s).len() - 1]),
        trim(s).len() <= s.len(),
{
    lemma_first_non_ws_bounds(s, 0);
    let t = trim_start(s);
    lemma_last_non_ws_bounds(t, t.len() as int);
    if trim(s).len() > 0 {
        assert(trim(s)[0] == t[0]);
    }
}

/// Text without whitespace is its own trim.
pub proof fn lemma_trim_no_ws(s: Seq<char>)
    requires
        forall|i: int| 0 <= i < s.len() ==> !is_ws(#[trigger] s[i]),
    ensures
        trim(s) == s,
{
    assert(first_non_ws_from(s, 0) == 0);
    assert(trim_start(s) =~= s);
    if s.len() > 0 {
        assert(last_non_ws_end(s, s.len() as int) == s.len());
    }
    assert(trim_end(s) =~= s);
}

pub fn trim_start_index(v: &Vec<char>) -> (i: usize)
    ensures
        i == first_non_ws_from(v@, 0),
{
    let mut i: usize = 0;
    while i < v.len() && is_whitespace(v[i])
        invariant
            i <= v.len(),
            first_non_ws_from(v@, 0) == first_non_ws_from(v@, i as int),
        decreases v.len() - i,
    {
        i += 1;
    }
    i
}

pub fn trim_end_index(v: &Vec<char>, end: usize) -> (j: usize)
    requires
        end <= v.len(),
    ensures
        j == last_non_ws_end(v@, end as int),
{
    let mut j: usize = end;
    while j > 0 && is_whitespace(v[j - 1])
        invariant
            j <= end <= v.len(),
            last_non_ws_end(v@, end as int) == last_non_ws_end(v@, j as int),
        decreases j,
    {
        j -= 1;
    }
    j
}

/// Copy of `v[a..b]`.
pub fn sub_vec(v: &Vec<char>, a: usize, b: usize) -> (r: Vec<char>)
    requires
        a <= b <= v.len(),
    ensures
        r@ == v@.subrange(a as int, b as int),
{
    let mut r: Vec<char> = Vec::new();
    let mut i: usize = a;
    while i < b
        invariant
            a <= i <= b <= v.len(),
            r@ == v@.subrange(a as int, i as int),
        decreases b - i,
    {
        r.push(v[i]);
        i += 1;
        assert(r@ == v@.subrange(a as int, i as int));
    }
    r
}

pub fn trim_vec(v: &Vec<char>) -> (r: Vec<char>)
    ensures
        r@ == trim(v@),
{
    let a = trim_start_index(v);
    proof {
        lemma_first_non_ws_bounds(v@, 0);
    }
    let t = sub_vec(v, a, v.len());
    let b = trim_end_index(&t, t.len());
    proof {
        lemma_last_non_ws_bounds(t@, t@.len() as int);
    }
    sub_vec(&t, 0, b)
}

pub fn trim_start_vec(v: &Vec<char>) -> (r: Vec<char>)
    ensures
        r@ == trim_start(v@),
{
    let a = trim_start_index(v);
    proof {
        lemma_first_non_ws_bounds(v@, 0);
    }
    sub_vec(v, a, v.len())
}

// ---------------------------------------------------------------------------
// Comparisons and searches
// ---------------------------------------------------------------------------

pub fn seq_eq(a: &Vec<char>, b: &Vec<char>) -> (r: bool)
    ensures
        r == (a@ == b@),
{
    if a.len() != b.len() {
        return false;
    }
    let mut i: usize = 0;
    while i < a.len()
        invariant
            i <= a.len() == b.len(),
            a@.subrange(0, i as int) == b@.subrange(0, i as int),
        decreases a.len() - i,
    {
        if a[i] != b[i] {
            assert(a@[i as int] != b@[i as int]);
            return false;
        }
        i += 1;
        assert(a@.subrange(0, i as int) == b@.subrange(0, i as int)) by {
            assert forall|k: int| 0 <= k < i implies a@.subrange(0, i as int)[k] == b@.subrange(
                0,
                i as int,
            )[k] by {
                if k < i - 1 {
                    assert(a@.subrange(0, i - 1)[k] == b@.subrange(0, i - 1)[k]);
                }
            }
        }
    }
    assert(a@ == a@.subrange(0, a@.len() as int));
    assert(b@ == b@.subrange(0, b@.len() as int));
    true
}

/// `needle` occurs in `s` at position `p`.
pub open spec fn occurs_at(s: Seq<char>, needle: Seq<char>, p: int) -> bool {
    0 <= p && p + needle.len() <= s.len() && s.subrange(p, p + needle.len()) == needle
}

pub open spec fn starts_with(s: Seq<char>, prefix: Seq<char>) -> bool {
    occurs_at(s, prefix, 0)
}

pub open spec fn ends_with(s: Seq<char>, suffix: Seq<char>) -> bool {
    occurs_at(s, suffix, s.len() - suffix.len())
}

pub open spec fn contains_seq(s: Seq<char>, needle: Seq<char>) -> bool {
    exists|p: int| occurs_at(s, needle, p)
}

pub fn occurs_at_exec(s: &Vec<char>, needle: &Vec<char>, p: usize) -> (r: bool)
    ensures
        r == occurs_at(s@, needle@, p as int),
{
    if p > s.len() || needle.len() > s.len() - p {
        return false;
    }
    let mut i: usize = 0;
    while i < needle.len()
        invariant
            p + needle.len() <= s.len(),
            i <= needle.len(),
            forall|k: int| 0 <= k < i ==> s@[p + k] == needle@[k],
        decreases needle.len() - i,
    {
        if s[p + i] != needle[i] {
            assert(s@.subrange(p as int, p + needle.len())[i as int] != needle@[i as int]);
            return false;
        }
        i += 1;
    }
    assert(s@.subrange(p as int, p + needle.len()) == needle@);
    true
}

pub fn starts_with_exec(s: &Vec<char>, prefix: &Vec<char>) -> (r: bool)
    ensures
        r == starts_with(s@, prefix@),
{
    occurs_at_exec(s, prefix, 0)
}

pub fn ends_with_exec(s: &Vec<char>, suffix: &Vec<char>) -> (r: bool)
    ensures
        r == ends_with(s@, suffix@),
{
    if suffix.len() > s.len() {
        return false;
    }
    occurs_at_exec(s, suffix, s.len() - suffix.len())
}

/// Position of the first occurrence of `needle` at or after `from`.
pub open spec fn is_first_occurrence_from(s: Seq<char>, needle: Seq<char>, from: int, p: int) -> bool {
    from <= p && occurs_at(s, needle, p) && forall|q: int| from <= q < p ==> !occurs_at(s, needle, q)
}

/// The first position at or after `from` where `needle` occurs.
pub open spec fn first_occurrence_from(s: Seq<char>, needle: Seq<char>, from: int) -> Option<int>
    decreases s.len() + 1 - from,
{
    if from < 0 || from > s.len() {
        None
    } else if occurs_at(s, needle, from) {
        Some(from)
    } else {
        first_occurrence_from(s, needle, from + 1)
    }
}

/// `first_occurrence_from` finds exactly the first occurrence.
pub proof fn lemma_first_occurrence_from(s: Seq<char>, needle: Seq<char>, from: int)
    requires
        0 <= from,
    ensures
        first_occurrence_from(s, needle, from) matches Some(p) ==> is_first_occurrence_from(s, needle, from, p),
        first_occurrence_from(s, needle, from) is None ==> forall|q: int| from <= q ==> !occurs_at(s, needle, q),
    decreases s.len() + 1 - from,
{
    if from <= s.len() && !occurs_at(s, needle, from) {
        lemma_first_occurrence_from(s, needle, from + 1);
    }
}

pub fn find_from(s: &Vec<char>, needle: &Vec<char>, from: usize) -> (r: Option<usize>)
    ensures
        match r {
            Some(p) => is_first_occurrence_from(s@, needle@, from as int, p as int),
            None => forall|q: int| from <= q ==> !occurs_at(s@, needle@, q),
        },
{
    let mut p: usize = from;
    while p < s.len()
        invariant
            from <= p,
            forall|q: int| from <= q < p ==> !occurs_at(s@, needle@, q),
        decreases s.len() - p,
    {
        if occurs_at_exec(s, needle, p) {
            return Some(p);
        }
        p += 1;
    }
    if p == s.len() && occurs_at_exec(s, needle, p) {
        return Some(p);
    }
    assert forall|q: int| from <= q implies !occurs_at(s@, needle@, q) by {
        if q >= p {
            assert(q >= s@.len());
            if q == s@.len() && q == p {
            } else {
                assert(q > s@.len() || p > s@.len() || q > p);
            }
        }
    }
    None
}

pub fn contains_exec(s: &Vec<char>, needle: &Vec<char>) -> (r: bool)
    ensures
        r == contains_seq(s@, needle@),
{
    match find_from(s, needle, 0) {
        Some(p) => true,
        None => {
            assert forall|q: int| !occurs_at(s@, needle@, q) by {
                if q < 0 {
                } else {
                    assert(!occurs_at(s@, needle@, q));
                }
            }
            false
        },
    }
}

pub fn contains_char(s: &Vec<char>, c: char) -> (r: bool)
    ensures
        r == s@.contains(c),
{
    let mut i: usize = 0;
    while i < s.len()
        invariant
            i <= s.len(),
            forall|k: int| 0 <= k < i ==> s@[k] != c,
        decreases s.len() - i,
    {
        if s[i] == c {
            return true;
        }
        i += 1;
    }
    false
}

// ---------------------------------------------------------------------------
// Replacement
// ---------------------------------------------------------------------------

/// Every character `from` replaced by the sequence `to`.
pub open spec fn replace_char(s: Seq<char>, from: char, to: Seq<char>) -> Seq<char>
    decreases s.len(),
{
    if s.len() == 0 {
        seq![]
    } else {
        replace_char(s.drop_last(), from, to) + (if s.last() == from {
            to
        } else {
            seq![s.last()]
        })
    }
}

pub fn replace_char_vec(v: &Vec<char>, from: char, to: &Vec<char>) -> (r: Vec<char>)
    ensures
        r@ == replace_char(v@, from, to@),
{
    let mut r: Vec<char> = Vec::new();
    let mut i: usize = 0;
    while i < v.len()
        invariant
            i <= v.len(),
            r@ == replace_char(v@.subrange(0, i as int), from, to@),
        decreases v.len() - i,
    {
        let ghost prev = r@;
        if v[i] == from {
            let mut j: usize = 0;
            while j < to.len()
                invariant
                    j <= to.len(),
                    r@ == prev + to@.subrange(0, j as int),
                decreases to.len() - j,
            {
                r.push(to[j]);
                j += 1;
                assert(r@ == prev + to@.subrange(0, j as int));
            }
            assert(to@.subrange(0, to@.len() as int) == to@);
        } else {
            r.push(v[i]);
        }
        assert(v@.subrange(0, i + 1).drop_last() == v@.subrange(0, i as int));
        i += 1;
    }
    assert(v@.subrange(0, v@.len() as int) == v@);
    r
}

/// Non-overlapping, left-to-right replacement of every occurrence of a
/// non-empty `pat` (what `str::replace` does).
pub open spec fn replace_all(s: Seq<char>, pat: Seq<char>, to: Seq<char>) -> Seq<char>
    decreases s.len(),
{
    if s.len() == 0 || pat.len() == 0 {
        s
    } else if starts_with(s, pat) {
        to + replace_all(s.skip(pat.len() as int), pat, to)
    } else {
        seq![s[0]] + replace_all(s.drop_first(), pat, to)
    }
}

pub fn append_vec(r: &mut Vec<char>, extra: &Vec<char>)
    ensures
        final(r)@ == old(r)@ + extra@,
{
    let ghost prev = r@;
    let mut j: usize = 0;
    while j < extra.len()
        invariant
            j <= extra.len(),
            r@ == prev + extra@.subrange(0, j as int),
        decreases extra.len() - j,
    {
        r.push(extra[j]);
        j += 1;
        assert(r@ == prev + extra@.subrange(0, j as int));
    }
    assert(extra@.subrange(0, extra@.len() as int) == extra@);
}

pub fn replace_all_vec(v: &Vec<char>, pat: &Vec<char>, to: &Vec<char>) -> (r: Vec<char>)
    ensures
        r@ == replace_all(v@, pat@, to@),
{
    if pat.len() == 0 {
        return sub_vec(v, 0, v.len());
    }
    let mut r: Vec<char> = Vec::new();
    let mut i: usize = 0;
    assert(v@.skip(0) == v@);
    while i < v.len()
        invariant
            i <= v.len(),
            pat@.len() > 0,
            r@ + replace_all(v@.skip(i as int), pat@, to@) == replace_all(v@, pat@, to@),
        decreases v.len() - i,
    {
        let ghost rest = v@.skip(i as int);
        if occurs_at_exec(v, pat, i) {
            assert(rest.subrange(0, pat@.len() as int) == v@.subrange(i as int, i + pat@.len()));
            assert(starts_with(rest, pat@));
            assert(rest.skip(pat@.len() as int) == v@.skip(i + pat@.len()));
            append_vec(&mut r, to);
            assert(r@ + replace_all(v@.skip(i + pat@.len()), pat@, to@) == replace_all(
                v@,
                pat@,
                to@,
            )) by {
                assert(replace_all(rest, pat@, to@) == to@ + replace_all(
                    rest.skip(pat@.len() as int),
                    pat@,
                    to@,
                ));
            }
            i += pat.len();
        } else {
            proof {
                if i + pat@.len() <= v@.len() {
                    assert(rest.subrange(0, pat@.len() as int) == v@.subrange(
                        i as int,
                        i + pat@.len(),
                    ));
                }
            }
            assert(!starts_with(rest, pat@));
            assert(rest.drop_first() == v@.skip(i + 1));
            r.push(v[i]);
            assert(replace_all(rest, pat@, to@) == seq![rest[0]] + replace_all(
                rest.drop_first(),
                pat@,
                to@,
            ));
            i += 1;
        }
    }
    assert(v@.skip(i as int).len() == 0);
    r
}


// ---------------------------------------------------------------------------
// Splitting on a character
// ---------------------------------------------------------------------------

/// Index of the first `c` at or after `i`.
pub open spec fn char_index_from(s: Seq<char>, c: char, i: int) -> Option<int>
    decreases s.len() - i,
{
    if i < 0 || i >= s.len() {
        None
    } else if s[i] == c {
        Some(i)
    } else {
        char_index_from(s, c, i + 1)
    }
}

pub proof fn lemma_char_index_from(s: Seq<char>, c: char, i: int)
    requires
        0 <= i,
    ensures
        char_index_from(s, c, i) matches Some(k) ==> i <= k < s.len() && s[k] == c && forall|q: int|
            i <= q < k ==> s[q] != c,
        char_index_from(s, c, i) is None ==> forall|q: int| i <= q < s.len() ==> s[q] != c,
    decreases s.len() - i,
{
    if i < s.len() && s[i] != c {
        lemma_char_index_from(s, c, i + 1);
    }
}

pub fn find_char(v: &Vec<char>, c: char) -> (r: Option<usize>)
    ensures
        match char_index_from(v@, c, 0) {
            Some(k) => r matches Some(x) && x as int == k,
            None => r is None,
        },
{
    let mut i: usize = 0;
    while i < v.len()
        invariant
            i <= v.len(),
            char_index_from(v@, c, 0) == char_index_from(v@, c, i as int),
        decreases v.len() - i,
    {
        if v[i] == c {
            return Some(i);
        }
        i += 1;
    }
    None
}

/// The pieces of `s` between occurrences of `sep` (one piece when there is none).
pub open spec fn split_char(s: Seq<char>, sep: char) -> Seq<Seq<char>>
    decreases s.len(),
{
    if s.len() == 0 {
        seq![seq![]]
    } else {
        let p = split_char(s.drop_last(), sep);
        if s.last() == sep {
            p.push(seq![])
        } else {
            p.update(p.len() - 1, p.last().push(s.last()))
        }
    }
}

pub proof fn lemma_split_char_len(s: Seq<char>, sep: char)
    ensures
        split_char(s, sep).len() >= 1,
    decreases s.len(),
{
    if s.len() > 0 {
        lemma_split_char_len(s.drop_last(), sep);
    }
}

pub fn split_char_vec(v: &Vec<char>, sep: char) -> (r: Vec<Vec<char>>)
    ensures
        vv(r@) == split_char(v@, sep),
{
    let mut pieces: Vec<Vec<char>> = Vec::new();
    let mut cur: Vec<char> = Vec::new();
    let mut i: usize = 0;
    assert(v@.take(0) =~= seq![]);
    assert(vv(pieces@).push(cur@) =~= seq![seq![]]);
    while i < v.len()
        invariant
            i <= v.len(),
            split_char(v@.take(i as int), sep) == vv(pieces@).push(cur@),
        decreases v.len() - i,
    {
        let ghost t = v@.take(i + 1);
        assert(t.drop_last() =~= v@.take(i as int));
        assert(t.last() == v@[i as int]);
        let ghost oldp = vv(pieces@);
        let ghost oldc = cur@;
        if v[i] == sep {
            pieces.push(cur);
            cur = Vec::new();
            assert(vv(pieces@) =~= oldp.push(oldc));
            assert(vv(pieces@).push(cur@) =~= oldp.push(oldc).push(seq![]));
        } else {
            cur.push(v[i]);
            assert(vv(pieces@).push(cur@) =~= oldp.push(oldc).update(oldp.len() as int, oldc.push(v@[i as int])));
        }
        i += 1;
    }
    assert(v@.take(v@.len() as int) =~= v@);
    let ghost oldp = vv(pieces@);
    let ghost lastc = cur@;
    pieces.push(cur);
    assert(vv(pieces@) =~= oldp.push(lastc));
    pieces
}

// ---------------------------------------------------------------------------
// Conversions between `str`/`String` and `Vec<char>`
// ---------------------------------------------------------------------------

/// Collects the characters of a string slice into a vector.
pub fn chars_of(s: &str) -> (res: Vec<char>)
    ensures
        res@ == s@,
{
    let mut res: Vec<char> = Vec::new();
    for c in it: s.chars()
        invariant
            res@ == it.seq().take(it.index() as int),
    {
        res.push(c);
    }
    res
}

/// `String::push` from the standard library.
#[verifier::external_body]
pub(crate) fn push_char(s: &mut String, c: char)
    ensures
        final(s)@ == old(s)@.push(c),
{
    s.push(c);
}

/// Builds a `String` holding exactly the given characters.
pub fn string_of(v: &Vec<char>) -> (s: String)
    ensures
        s@ == v@,
{
    let mut s = String::new();
    let mut i: usize = 0;
    while i < v.len()
        invariant
            i <= v.len(),
            s@ == v@.subrange(0, i as int),
        decreases v.len() - i,
    {
        push_char(&mut s, v[i]);
        i += 1;
        assert(s@ == v@.subrange(0, i as int));
    }
    assert(v@.subrange(0, v@.len() as int) == v@);
    s
}

pub fn string_from_str(s: &str) -> (r: String)
    ensures
        r@ == s@,
{
    let v = chars_of(s);
    string_of(&v)
}

pub fn chars_of_string(s: &String) -> (v: Vec<char>)
    ensures
        v@ == s@,
{
    chars_of(s.as_str())
}

} // verus!
