//! Decimal and hexadecimal text: reading integers the way `str::parse` does,
//! and blobs written as hex digits.
use vstd::prelude::*;

use crate::error::{is_validation, DomainError};
use crate::text::{
    append_vec, chars_of, is_ascii_digit_spec, is_ascii_hex_spec, is_ws, lemma_trim_no_ws, starts_with,
    starts_with_exec, string_of, sub_vec, trim, trim_vec,
};

verus! {

// ---------------------------------------------------------------------------
// Decimal integers
// ---------------------------------------------------------------------------

pub open spec fn all_digits(s: Seq<char>) -> bool {
    forall|i: int| 0 <= i < s.len() ==> is_ascii_digit_spec(#[trigger] s[i])
}

pub open spec fn digit_value(c: char) -> nat {
    ((c as u32) - ('0' as u32)) as nat
}

/// Value of a run of decimal digits.
pub open spec fn digits_value(s: Seq<char>) -> nat
    decreases s.len(),
{
    if s.len() == 0 {
        0
    } else {
        digits_value(s.drop_last()) * 10 + digit_value(s.last())
    }
}

/// What `str::parse::<i64>` gives: an optional sign and at least one digit,
/// nothing else, within range.
pub open spec fn parse_i64_spec(s: Seq<char>) -> Option<i64> {
    if s.len() == 0 || ((s[0] == '+' || s[0] == '-') && s.len() == 1) {
        None
    } else {
        let neg = s[0] == '-';
        let ds = if s[0] == '+' || s[0] == '-' { s.skip(1) } else { s };
        if !all_digits(ds) {
            None
        } else if neg {
            if digits_value(ds) <= 0x8000_0000_0000_0000 {
                Some((0 - digits_value(ds)) as i64)
            } else {
                None
            }
        } else if digits_value(ds) <= 0x7fff_ffff_ffff_ffff {
            Some(digits_value(ds) as i64)
        } else {
            None
        }
    }
}

/// What `str::parse::<u32>` gives: an optional `+` and at least one digit,
/// nothing else, within range.
pub open spec fn parse_u32_spec(s: Seq<char>) -> Option<u32> {
    if s.len() == 0 || (s[0] == '+' && s.len() == 1) {
        None
    } else {
        let ds = if s[0] == '+' { s.skip(1) } else { s };
        if all_digits(ds) && digits_value(ds) <= 0xffff_ffff {
            Some(digits_value(ds) as u32)
        } else {
            None
        }
    }
}

proof fn lemma_digits_value_prefix(s: Seq<char>, i: int)
    requires
        0 <= i <= s.len(),
    ensures
        digits_value(s.take(i)) <= digits_value(s),
    decreases s.len() - i,
{
    if i < s.len() {
        lemma_digits_value_prefix(s, i + 1);
        assert(s.take(i + 1).drop_last() =~= s.take(i));
    } else {
        assert(s.take(i) =~= s);
    }
}

/// Reads the digits of `s[start..]`; `None` when one is not a digit or the
/// value passes `bound`.
fn read_digits(s: &Vec<char>, start: usize, bound: u128) -> (r: Option<u128>)
    requires
        start <= s.len(),
        bound < 0x1_0000_0000_0000_0000_0000,
    ensures
        match r {
            Some(v) => all_digits(s@.skip(start as int)) && v == digits_value(s@.skip(start as int))
                && v <= bound,
            None => !all_digits(s@.skip(start as int)) || digits_value(s@.skip(start as int)) > bound,
        },
{
    let ghost ds = s@.skip(start as int);
    let mut acc: u128 = 0;
    let mut i: usize = start;
    assert(ds.take(0) =~= seq![]);
    while i < s.len()
        invariant
            start <= i <= s.len(),
            bound < 0x1_0000_0000_0000_0000_0000,
            ds == s@.skip(start as int),
            all_digits(ds.take(i - start)),
            acc == digits_value(ds.take(i - start)),
            acc <= bound,
        decreases s.len() - i,
    {
        let c = s[i];
        let ghost k = i - start;
        assert(ds[k] == c);
        if !('0' <= c && c <= '9') {
            return None;
        }
        let d = (c as u32 - '0' as u32) as u128;
        assert(ds.take(k + 1).drop_last() =~= ds.take(k));
        assert(ds.take(k + 1).last() == c);
        acc = acc * 10 + d;
        assert(all_digits(ds.take(k + 1))) by {
            assert forall|q: int| 0 <= q < k + 1 implies is_ascii_digit_spec(#[trigger] ds.take(k + 1)[q]) by {
                if q < k {
                    assert(ds.take(k + 1)[q] == ds.take(k)[q]);
                }
            }
        }
        i += 1;
        if acc > bound {
            proof {
                let j = i - start;
                assert(ds.take(j) =~= ds.take(k + 1));
                if all_digits(ds) {
                    lemma_digits_value_prefix(ds, j);
                }
            }
            return None;
        }
    }
    assert(ds.take(i - start) =~= ds);
    Some(acc)
}

/// `str::parse::<i64>`.
pub fn parse_i64(s: &Vec<char>) -> (r: Option<i64>)
    ensures
        r == parse_i64_spec(s@),
{
    if s.len() == 0 {
        return None;
    }
    let c0 = s[0];
    if (c0 == '+' || c0 == '-') && s.len() == 1 {
        return None;
    }
    let start: usize = if c0 == '+' || c0 == '-' { 1 } else { 0 };
    assert(s@.skip(0) =~= s@);
    if c0 == '-' {
        match read_digits(s, start, 0x8000_0000_0000_0000) {
            None => None,
            Some(v) => {
                if v == 0x8000_0000_0000_0000 {
                    Some(i64::MIN)
                } else {
                    let x = v as i64;
                    Some(-x)
                }
            },
        }
    } else {
        match read_digits(s, start, 0x7fff_ffff_ffff_ffff) {
            None => None,
            Some(v) => Some(v as i64),
        }
    }
}

/// `str::parse::<u32>`.
pub fn parse_u32(s: &Vec<char>) -> (r: Option<u32>)
    ensures
        r == parse_u32_spec(s@),
{
    if s.len() == 0 {
        return None;
    }
    let c0 = s[0];
    if c0 == '+' && s.len() == 1 {
        return None;
    }
    let start: usize = if c0 == '+' { 1 } else { 0 };
    assert(s@.skip(0) =~= s@);
    match read_digits(s, start, 0xffff_ffff) {
        None => None,
        Some(v) => Some(v as u32),
    }
}

// ---------------------------------------------------------------------------
// Hexadecimal blobs
// ---------------------------------------------------------------------------

pub open spec fn hex_value(c: char) -> int {
    if is_ascii_digit_spec(c) {
        (c as u32) - ('0' as u32)
    } else if 'a' <= c && c <= 'f' {
        (c as u32) - ('a' as u32) + 10
    } else {
        (c as u32) - ('A' as u32) + 10
    }
}

pub open spec fn all_hex(s: Seq<char>) -> bool {
    forall|i: int| 0 <= i < s.len() ==> is_ascii_hex_spec(#[trigger] s[i])
}

/// The hex digits of a blob cell after trimming and dropping a `0x`/`0X`.
pub open spec fn hex_body(raw: Seq<char>) -> Seq<char> {
    let t = trim(raw);
    if starts_with(t, "0x"@) || starts_with(t, "0X"@) {
        t.skip(2)
    } else {
        t
    }
}

/// Bytes of an even run of hex digits, two digits a byte.
pub open spec fn hex_bytes(h: Seq<char>) -> Seq<u8> {
    Seq::new(h.len() / 2, |i: int| (hex_value(h[2 * i]) * 16 + hex_value(h[2 * i + 1])) as u8)
}

/// The bytes of a blob cell written as hex, or the error text.
pub open spec fn parse_hex_blob_spec(raw: Seq<char>, column: Seq<char>) -> Result<Seq<u8>, Seq<char>> {
    let h = hex_body(raw);
    if h.len() == 0 {
        Ok(seq![])
    } else if h.len() % 2 != 0 || !all_hex(h) {
        Err(column + "は16進数（偶数桁）で指定してください"@)
    } else {
        Ok(hex_bytes(h))
    }
}

fn hex_digit_value(c: char) -> (r: u8)
    requires
        is_ascii_hex_spec(c),
    ensures
        r as int == hex_value(c),
        r < 16,
{
    if '0' <= c && c <= '9' {
        (c as u32 - '0' as u32) as u8
    } else if 'a' <= c && c <= 'f' {
        (c as u32 - 'a' as u32 + 10) as u8
    } else {
        (c as u32 - 'A' as u32 + 10) as u8
    }
}

/// Reads a blob written as (an even number of) hex digits, `0x` allowed.
pub fn parse_hex_blob(raw: &str, column_name: &str) -> (r: Result<Vec<u8>, DomainError>)
    ensures
        match parse_hex_blob_spec(raw@, column_name@) {
            Ok(b) => r matches Ok(v) && v@ == b,
            Err(m) => is_validation(r, m),
        },
{
    let rv = chars_of(raw);
    let t = trim_vec(&rv);
    let p1 = chars_of("0x");
    let p2 = chars_of("0X");
    let h = if starts_with_exec(&t, &p1) || starts_with_exec(&t, &p2) {
        proof {
            reveal_strlit("0x");
            reveal_strlit("0X");
        }
        let h = sub_vec(&t, 2, t.len());
        assert(h@ =~= t@.skip(2));
        h
    } else {
        let h = sub_vec(&t, 0, t.len());
        assert(h@ =~= t@);
        h
    };
    assert(h@ == hex_body(raw@));
    if h.len() == 0 {
        return Ok(Vec::new());
    }
    let mut ok = h.len() % 2 == 0;
    let mut i: usize = 0;
    while i < h.len()
        invariant
            i <= h.len(),
            ok ==> h@.len() % 2 == 0,
            ok ==> forall|q: int| 0 <= q < i ==> is_ascii_hex_spec(#[trigger] h@[q]),
            !ok ==> (h@.len() % 2 != 0 || !all_hex(h@)),
        decreases h.len() - i,
    {
        let c = h[i];
        if !(('0' <= c && c <= '9') || ('a' <= c && c <= 'f') || ('A' <= c && c <= 'F')) {
            ok = false;
        }
        i += 1;
    }
    if !ok {
        let mut m = chars_of(column_name);
        let tail = chars_of("は16進数（偶数桁）で指定してください");
        append_vec(&mut m, &tail);
        return Err(DomainError::Validation(string_of(&m)));
    }
    let mut bytes: Vec<u8> = Vec::new();
    let mut j: usize = 0;
    while j + 1 < h.len()
        invariant
            all_hex(h@),
            h@.len() % 2 == 0,
            j % 2 == 0,
            j <= h@.len(),
            bytes@ =~= hex_bytes(h@).take(j as int / 2),
        decreases h.len() - j,
    {
        let hi = hex_digit_value(h[j]);
        let lo = hex_digit_value(h[j + 1]);
        let b: u8 = hi * 16 + lo;
        let ghost old = bytes@;
        bytes.push(b);
        assert(bytes@ =~= hex_bytes(h@).take(j as int / 2 + 1)) by {
            assert(hex_bytes(h@)[j as int / 2] == b);
        }
        j += 2;
    }
    assert(hex_bytes(h@).take(j as int / 2) =~= hex_bytes(h@));
    Ok(bytes)
}

/// The lowercase hex digit of a value below 16.
pub open spec fn hex_digit_char(n: int) -> char {
    if n < 10 {
        (n + 48) as char
    } else {
        (n + 87) as char
    }
}

/// Two lowercase hex digits a byte.
pub open spec fn hex_of_bytes(b: Seq<u8>) -> Seq<char> {
    Seq::new(2 * b.len(), |i: int| if i % 2 == 0 { hex_digit_char((b[i / 2] / 16) as int) } else { hex_digit_char((b[i / 2] % 16) as int) })
}

fn hex_digit(n: u8) -> (c: char)
    requires
        n < 16,
    ensures
        c == hex_digit_char(n as int),
{
    if n < 10 {
        (n + 48) as char
    } else {
        (n + 87) as char
    }
}

/// The bytes as lowercase hex digits.
pub fn bytes_to_hex(bytes: &[u8]) -> (s: String)
    ensures
        s@ == hex_of_bytes(bytes@),
{
    let mut out: Vec<char> = Vec::new();
    let mut i: usize = 0;
    while i < bytes.len()
        invariant
            i <= bytes.len(),
            out@ =~= hex_of_bytes(bytes@).take(2 * i),
        decreases bytes.len() - i,
    {
        let b = bytes[i];
        out.push(hex_digit(b / 16));
        out.push(hex_digit(b % 16));
        i += 1;
    }
    string_of(&out)
}

proof fn lemma_hex_digit_roundtrip(n: int)
    requires
        0 <= n < 16,
    ensures
        is_ascii_hex_spec(hex_digit_char(n)),
        hex_value(hex_digit_char(n)) == n,
        !is_ws(hex_digit_char(n)),
        hex_digit_char(n) != 'x' && hex_digit_char(n) != 'X',
{
}

/// A blob shown as hex (with or without the `0x` of the data view) reads back
/// as the same bytes.
pub proof fn law_hex_blob_roundtrip(b: Seq<u8>, column: Seq<char>)
    ensures
        parse_hex_blob_spec(hex_of_bytes(b), column) == Ok::<Seq<u8>, Seq<char>>(b),
        parse_hex_blob_spec("0x"@ + hex_of_bytes(b), column) == Ok::<Seq<u8>, Seq<char>>(b),
{
    let h = hex_of_bytes(b);
    assert forall|i: int| 0 <= i < h.len() implies is_ascii_hex_spec(#[trigger] h[i]) && !is_ws(h[i])
        && h[i] != 'x' && h[i] != 'X' by {
        if i % 2 == 0 {
            lemma_hex_digit_roundtrip((b[i / 2] / 16) as int);
        } else {
            lemma_hex_digit_roundtrip((b[i / 2] % 16) as int);
        }
    }
    reveal_strlit("0x");
    reveal_strlit("0X");
    lemma_trim_no_ws(h);
    let p = "0x"@ + h;
    assert forall|i: int| 0 <= i < p.len() implies !is_ws(#[trigger] p[i]) by {
        if i >= 2 {
            assert(p[i] == h[i - 2]);
        }
    }
    lemma_trim_no_ws(p);
    if h.len() > 0 {
        assert(!starts_with(h, "0x"@)) by {
            assert(h.subrange(0, 2)[1] == h[1]);
        }
        assert(!starts_with(h, "0X"@)) by {
            assert(h.subrange(0, 2)[1] == h[1]);
        }
    }
    assert(starts_with(p, "0x"@)) by {
        assert(p.subrange(0, 2) =~= "0x"@);
    }
    assert(p.skip(2) =~= h);
    assert(hex_bytes(h) =~= b) by {
        assert forall|i: int| 0 <= i < b.len() implies #[trigger] hex_bytes(h)[i] == b[i] by {
            lemma_hex_digit_roundtrip((b[i] / 16) as int);
            lemma_hex_digit_roundtrip((b[i] % 16) as int);
            assert(h[2 * i] == hex_digit_char((b[i] / 16) as int));
            assert(h[2 * i + 1] == hex_digit_char((b[i] % 16) as int));
            assert(((b[i] / 16) as int) * 16 + b[i] % 16 == b[i]);
        }
    }
    if h.len() == 0 {
        assert(b.len() == 0);
        assert(b =~= seq![]);
    }
}

// ---------------------------------------------------------------------------
// Writing integers
// ---------------------------------------------------------------------------

/// Decimal digits of a non-negative integer.
pub open spec fn nat_digits(n: nat) -> Seq<char>
    decreases n,
{
    if n < 10 {
        seq![((n + 48) as char)]
    } else {
        nat_digits(n / 10) + seq![(((n % 10) + 48) as char)]
    }
}

/// `i64` as `Display` writes it.
pub open spec fn i64_text(v: i64) -> Seq<char> {
    if v < 0 {
        seq!['-'] + nat_digits((0 - v) as nat)
    } else {
        nat_digits(v as nat)
    }
}

fn nat_digits_exec(n: u64) -> (r: Vec<char>)
    ensures
        r@ == nat_digits(n as nat),
    decreases n,
{
    if n < 10 {
        let c = ((n as u8) + 48) as char;
        let mut v: Vec<char> = Vec::new();
        v.push(c);
        assert(v@ =~= seq![c]);
        v
    } else {
        let mut v = nat_digits_exec(n / 10);
        let c = (((n % 10) as u8) + 48) as char;
        v.push(c);
        v
    }
}

/// Writes an `i64` in decimal.
pub fn i64_to_text(v: i64) -> (r: Vec<char>)
    ensures
        r@ == i64_text(v),
{
    if v < 0 {
        let m: u64 = if v == i64::MIN {
            0x8000_0000_0000_0000
        } else {
            (-v) as u64
        };
        let d = nat_digits_exec(m);
        let mut r: Vec<char> = Vec::new();
        r.push('-');
        append_vec(&mut r, &d);
        assert(r@ =~= seq!['-'] + d@);
        r
    } else {
        nat_digits_exec(v as u64)
    }
}


fn u64_to_text(n: u64) -> (r: Vec<char>)
    ensures
        r@ == nat_digits(n as nat),
{
    nat_digits_exec(n)
}

/// `u64` as `Display` writes it.
pub fn u64_text(n: u64) -> (s: String)
    ensures
        s@ == nat_digits(n as nat),
{
    string_of(&nat_digits_exec(n))
}

/// What `str::parse::<u64>` gives: an optional `+` and at least one digit,
/// nothing else, within range.
pub open spec fn parse_u64_spec(s: Seq<char>) -> Option<u64> {
    if s.len() == 0 || (s[0] == '+' && s.len() == 1) {
        None
    } else {
        let ds = if s[0] == '+' { s.skip(1) } else { s };
        if all_digits(ds) && digits_value(ds) <= 0xffff_ffff_ffff_ffff {
            Some(digits_value(ds) as u64)
        } else {
            None
        }
    }
}

/// `str::parse::<u64>`.
pub fn parse_u64(s: &Vec<char>) -> (r: Option<u64>)
    ensures
        r == parse_u64_spec(s@),
{
    if s.len() == 0 {
        return None;
    }
    let c0 = s[0];
    if c0 == '+' && s.len() == 1 {
        return None;
    }
    let start: usize = if c0 == '+' { 1 } else { 0 };
    assert(s@.skip(0) =~= s@);
    match read_digits(s, start, 0xffff_ffff_ffff_ffff) {
        None => None,
        Some(v) => Some(v as u64),
    }
}

/// The digits written for `n` read back as `n`.
pub proof fn lemma_nat_digits(n: nat)
    ensures
        all_digits(nat_digits(n)),
        digits_value(nat_digits(n)) == n,
        nat_digits(n).len() > 0,
    decreases n,
{
    if n < 10 {
        let s = nat_digits(n);
        assert(s.drop_last() =~= seq![]);
        assert(((n + 48) as char) as u32 == n + 48);
        assert(digit_value(s.last()) == n);
        assert(digits_value(s.drop_last()) == 0);
        assert(digits_value(s) == digits_value(s.drop_last()) * 10 + digit_value(s.last()));
    } else {
        lemma_nat_digits(n / 10);
        let s = nat_digits(n);
        assert(s.drop_last() =~= nat_digits(n / 10));
        let d = n % 10;
        assert(s.last() == ((d + 48) as char));
        assert(((d + 48) as char) as u32 == d + 48);
        assert(digit_value(s.last()) == d);
        assert((n / 10) * 10 + d == n) by (nonlinear_arith)
            requires
                d == n % 10,
        ;
        assert(digits_value(s.drop_last()) == n / 10);
        assert(digits_value(s) == digits_value(s.drop_last()) * 10 + digit_value(s.last()));
    }
}

/// An `i64` written in decimal reads back as itself.
pub proof fn law_i64_text_roundtrip(v: i64)
    ensures
        parse_i64_spec(i64_text(v)) == Some(v),
{
    if v < 0 {
        let m = (0 - v) as nat;
        lemma_nat_digits(m);
        let s = i64_text(v);
        assert(s.skip(1) =~= nat_digits(m));
    } else {
        lemma_nat_digits(v as nat);
        let s = nat_digits(v as nat);
        assert(is_ascii_digit_spec(s[0]));
    }
}

/// A `u64` written in decimal reads back as itself.
pub proof fn law_u64_text_roundtrip(n: u64)
    ensures
        parse_u64_spec(nat_digits(n as nat)) == Some(n),
{
    lemma_nat_digits(n as nat);
    let s = nat_digits(n as nat);
    assert(is_ascii_digit_spec(s[0]));
}

// ---------------------------------------------------------------------------
// Floating point literals
// ---------------------------------------------------------------------------

/// Every character is an ASCII digit.
pub open spec fn ascii_digits(s: Seq<char>) -> bool {
    forall|i: int| 0 <= i < s.len() ==> is_ascii_digit_spec(#[trigger] s[i])
}

/// Digits with at most one `.` among them, and at least one digit.
pub open spec fn float_mantissa_ok(m: Seq<char>) -> bool {
    match crate::text::char_index_from(m, '.', 0) {
        None => m.len() > 0 && ascii_digits(m),
        Some(d) => m.len() > 1 && ascii_digits(m.take(d)) && ascii_digits(m.skip(d + 1)),
    }
}

/// `e`, an optional sign and at least one digit.
pub open spec fn float_exponent_ok(x: Seq<char>) -> bool {
    let body = if x.len() > 1 && (x[1] == '+' || x[1] == '-') {
        x.skip(2)
    } else {
        x.skip(1)
    };
    x.len() > 0 && x[0] == 'e' && body.len() > 0 && ascii_digits(body)
}

/// A lower-cased number without its sign: a mantissa and an optional
/// exponent.
pub open spec fn float_number_ok(u: Seq<char>) -> bool {
    match crate::text::char_index_from(u, 'e', 0) {
        None => float_mantissa_ok(u),
        Some(k) => float_mantissa_ok(u.take(k)) && float_exponent_ok(u.skip(k)),
    }
}

/// The texts that `f64::from_str` accepts, as its documentation gives them:
/// ASCII case aside, an optional sign followed by `inf`, `infinity`, `nan`
/// or a decimal number with an optional exponent; no whitespace.
pub open spec fn f64_literal_ok(s: Seq<char>) -> bool {
    let t = crate::text::lower_seq(s);
    let u = if t.len() > 0 && (t[0] == '+' || t[0] == '-') {
        t.skip(1)
    } else {
        t
    };
    u == "inf"@ || u == "infinity"@ || u == "nan"@ || float_number_ok(u)
}

fn ascii_digits_exec(v: &Vec<char>) -> (b: bool)
    ensures
        b == ascii_digits(v@),
{
    let mut i: usize = 0;
    while i < v.len()
        invariant
            i <= v.len(),
            forall|k: int| 0 <= k < i ==> is_ascii_digit_spec(#[trigger] v@[k]),
        decreases v.len() - i,
    {
        if !crate::text::is_ascii_digit(v[i]) {
            return false;
        }
        i += 1;
    }
    true
}

fn float_mantissa_exec(m: &Vec<char>) -> (b: bool)
    ensures
        b == float_mantissa_ok(m@),
{
    proof {
        crate::text::lemma_char_index_from(m@, '.', 0);
    }
    match crate::text::find_char(m, '.') {
        None => m.len() > 0 && ascii_digits_exec(m),
        Some(d) => {
            let before = sub_vec(m, 0, d);
            let after = sub_vec(m, d + 1, m.len());
            assert(before@ =~= m@.take(d as int));
            assert(after@ =~= m@.skip(d + 1));
            m.len() > 1 && ascii_digits_exec(&before) && ascii_digits_exec(&after)
        },
    }
}

fn float_exponent_exec(x: &Vec<char>) -> (b: bool)
    ensures
        b == float_exponent_ok(x@),
{
    if x.len() == 0 || x[0] != 'e' {
        return false;
    }
    let start: usize = if x.len() > 1 && (x[1] == '+' || x[1] == '-') {
        2
    } else {
        1
    };
    let body = sub_vec(x, start, x.len());
    assert(body@ =~= x@.skip(start as int));
    body.len() > 0 && ascii_digits_exec(&body)
}

/// Whether `f64::from_str` accepts the text.
pub fn is_f64_literal(s: &Vec<char>) -> (b: bool)
    ensures
        b == f64_literal_ok(s@),
{
    proof {
        reveal_strlit("inf");
        reveal_strlit("infinity");
        reveal_strlit("nan");
    }
    let t = crate::text::lower_vec(s);
    let u = if t.len() > 0 && (t[0] == '+' || t[0] == '-') {
        let r = sub_vec(&t, 1, t.len());
        assert(r@ =~= t@.skip(1));
        r
    } else {
        t
    };
    let inf = chars_of("inf");
    let infinity = chars_of("infinity");
    let nan = chars_of("nan");
    if crate::text::seq_eq(&u, &inf) || crate::text::seq_eq(&u, &infinity) || crate::text::seq_eq(&u, &nan) {
        return true;
    }
    proof {
        crate::text::lemma_char_index_from(u@, 'e', 0);
    }
    match crate::text::find_char(&u, 'e') {
        None => float_mantissa_exec(&u),
        Some(k) => {
            let m = sub_vec(&u, 0, k);
            let x = sub_vec(&u, k, u.len());
            assert(m@ =~= u@.take(k as int));
            assert(x@ =~= u@.skip(k as int));
            float_mantissa_exec(&m) && float_exponent_exec(&x)
        },
    }
}

} // verus!
