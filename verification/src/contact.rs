//! The contact-form widget: signed form tokens (`placeholder:expiry:signature`,
//! signed with HMAC-SHA256 and written in URL-safe base64) and the checks on
//! a submission.
use vstd::prelude::*;

use base64::Engine;
use hmac::Mac;

use crate::error::{is_validation, DomainError};
use crate::numbers::{
    i64_text, i64_to_text, law_i64_text_roundtrip, law_u64_text_roundtrip, lemma_nat_digits, nat_digits,
    parse_i64, parse_i64_spec, parse_u64, parse_u64_spec, u64_text,
};
use crate::static_files::last_index_of;
use crate::text::{
    append_vec, char_index_from, chars_of, chars_of_string, is_ascii_alnum_spec, is_ascii_digit_spec, is_ws,
    lemma_char_index_from, lemma_trim_no_ws, string_of, sub_vec, trim, trim_vec,
};

verus! {

/// How long an issued token stays valid, in seconds.
pub const TOKEN_TTL_SECS: u64 = 3600;

/// What the contact form posts.
#[derive(Debug, Clone)]
pub struct ContactFormSubmission {
    pub name: String,
    pub email: String,
    pub phone: Option<String>,
    pub message: String,
    pub token: String,
}

// ---------------------------------------------------------------------------
// The outside work: HMAC-SHA256, base64 and the clock
// ---------------------------------------------------------------------------

/// What HMAC-SHA256 gives for the UTF-8 bytes of `key` and `msg`.
pub uninterp spec fn hmac_sha256_tag(key: Seq<char>, msg: Seq<char>) -> Seq<u8>;

/// What URL-safe base64 without padding gives for `bytes`.
pub uninterp spec fn b64_url_no_pad(bytes: Seq<u8>) -> Seq<char>;

/// The alphabet of URL-safe base64.
pub open spec fn is_b64_url_char(c: char) -> bool {
    is_ascii_alnum_spec(c) || c == '-' || c == '_'
}

/// `Hmac::<Sha256>::new_from_slice`, `update` and `finalize` from the hmac and
/// sha2 crates. The key may have any length (the crate hashes a long key), so
/// the tag is always produced; SHA-256 tags are 32 bytes.
#[verifier::external_body]
fn hmac_sha256(key: &str, msg: &str) -> (tag: Vec<u8>)
    ensures
        tag@ == hmac_sha256_tag(key@, msg@),
        tag@.len() == 32,
{
    match <hmac::Hmac<sha2::Sha256> as Mac>::new_from_slice(key.as_bytes()) {
        Ok(mut mac) => {
            mac.update(msg.as_bytes());
            mac.finalize().into_bytes().to_vec()
        },
        Err(_) => Vec::new(),
    }
}

/// base64's `URL_SAFE_NO_PAD.encode`: its output uses only the URL-safe
/// alphabet (`A-Z`, `a-z`, `0-9`, `-`, `_`) and no padding.
#[verifier::external_body]
fn b64_url_encode(bytes: &[u8]) -> (s: String)
    ensures
        s@ == b64_url_no_pad(bytes@),
        forall|i: int| 0 <= i < s@.len() ==> is_b64_url_char(#[trigger] s@[i]),
{
    base64::engine::general_purpose::URL_SAFE_NO_PAD.encode(bytes)
}

/// The current Unix time in seconds (`SystemTime::now` since `UNIX_EPOCH`,
/// 0 for a clock before the epoch). Nothing is stated of it.
#[verifier::external_body]
fn unix_now() -> (t: u64) {
    std::time::SystemTime::now().duration_since(std::time::UNIX_EPOCH).unwrap_or_default().as_secs()
}

// ---------------------------------------------------------------------------
// Tokens
// ---------------------------------------------------------------------------

pub open spec fn secret_message() -> Seq<char> {
    "session secret is required for contact form tokens"@
}

pub open spec fn expired_message() -> Seq<char> {
    "フォームの有効期限が切れています。ページを再読み込みしてください。"@
}

pub open spec fn invalid_message() -> Seq<char> {
    "無効なフォームトークンです。"@
}

/// Expiry of a token issued at `now` (saturating).
pub open spec fn expiry_of(now: u64) -> u64 {
    if now as int + TOKEN_TTL_SECS as int > u64::MAX as int {
        u64::MAX
    } else {
        (now + TOKEN_TTL_SECS) as u64
    }
}

/// `placeholder:expiry`.
pub open spec fn payload_spec(placeholder_id: i64, expiry: u64) -> Seq<char> {
    i64_text(placeholder_id) + ":"@ + nat_digits(expiry as nat)
}

/// The signature of a payload under a key.
pub open spec fn signature_spec(payload: Seq<char>, key: Seq<char>) -> Seq<char> {
    b64_url_no_pad(hmac_sha256_tag(key, payload))
}

/// The signature is written in the URL-safe base64 alphabet (as every
/// signature that `sign_payload` produces is).
pub open spec fn signature_well_formed(payload: Seq<char>, key: Seq<char>) -> bool {
    forall|i: int| 0 <= i < signature_spec(payload, key).len() ==> is_b64_url_char(#[trigger] signature_spec(payload, key)[i])
}

/// The token for a placeholder, expiry and (trimmed) secret.
pub open spec fn token_spec(placeholder_id: i64, expiry: u64, key: Seq<char>) -> Seq<char> {
    payload_spec(placeholder_id, expiry) + ":"@ + signature_spec(payload_spec(placeholder_id, expiry), key)
}

/// The signing key: the secret without surrounding whitespace, which may not be empty.
pub fn resolve_secret(secret: &str) -> (r: Result<String, DomainError>)
    ensures
        trim(secret@).len() == 0 ==> (r matches Err(DomainError::Internal(m)) && m@ == secret_message()),
        trim(secret@).len() > 0 ==> (r matches Ok(k) && k@ == trim(secret@)),
{
    let sv = chars_of(secret);
    let t = trim_vec(&sv);
    if t.len() == 0 {
        return Err(DomainError::Internal(String::from_str("session secret is required for contact form tokens")));
    }
    Ok(string_of(&t))
}

/// The signature of `payload` under `key`.
pub fn sign_payload(payload: &str, key: &str) -> (s: String)
    ensures
        s@ == signature_spec(payload@, key@),
        forall|i: int| 0 <= i < s@.len() ==> is_b64_url_char(#[trigger] s@[i]),
{
    let tag = hmac_sha256(key, payload);
    b64_url_encode(tag.as_slice())
}

fn payload_of(placeholder_id: i64, expiry: u64) -> (p: Vec<char>)
    ensures
        p@ == payload_spec(placeholder_id, expiry),
{
    let mut p = i64_to_text(placeholder_id);
    p.push(':');
    let e = u64_text(expiry);
    let ev = chars_of_string(&e);
    append_vec(&mut p, &ev);
    proof {
        reveal_strlit(":");
    }
    assert(p@ =~= i64_text(placeholder_id) + ":"@ + nat_digits(expiry as nat));
    p
}

/// The token issued at time `now` for a placeholder.
pub fn issue_token_at(placeholder_id: i64, secret: &str, now: u64) -> (r: Result<String, DomainError>)
    ensures
        trim(secret@).len() == 0 ==> (r matches Err(DomainError::Internal(m)) && m@ == secret_message()),
        trim(secret@).len() > 0 ==> (r matches Ok(t) && t@ == token_spec(
            placeholder_id,
            expiry_of(now),
            trim(secret@),
        ) && signature_well_formed(payload_spec(placeholder_id, expiry_of(now)), trim(secret@))),
{
    let key = match resolve_secret(secret) {
        Err(e) => return Err(e),
        Ok(k) => k,
    };
    let expiry = now.saturating_add(TOKEN_TTL_SECS);
    let payload = payload_of(placeholder_id, expiry);
    let ps = string_of(&payload);
    let sig = sign_payload(ps.as_str(), key.as_str());
    let mut t = payload.clone();
    t.push(':');
    let sv = chars_of_string(&sig);
    append_vec(&mut t, &sv);
    proof {
        reveal_strlit(":");
    }
    assert(t@ =~= payload@ + ":"@ + sig@);
    Ok(string_of(&t))
}

/// Issues a signed token for a placeholder, valid for an hour from now.
pub fn issue_token(placeholder_id: i64, secret: &str) -> (r: Result<String, DomainError>)
    ensures
        trim(secret@).len() == 0 ==> (r matches Err(DomainError::Internal(m)) && m@ == secret_message()),
        trim(secret@).len() > 0 ==> (r matches Ok(t) && exists|now: u64|
            t@ == token_spec(placeholder_id, expiry_of(now), trim(secret@))),
{
    let now = unix_now();
    issue_token_at(placeholder_id, secret, now)
}

/// Why a token is refused at time `now`, if it is; the flag marks the error
/// of a missing secret (an internal error) apart from the validation errors.
pub open spec fn verify_error(token: Seq<char>, placeholder_id: i64, secret: Seq<char>, now: u64) -> Option<
    (bool, Seq<char>),
> {
    let key = trim(secret);
    let t = trim(token);
    if key.len() == 0 {
        Some((true, secret_message()))
    } else if t.len() == 0 {
        Some((false, expired_message()))
    } else {
        match last_index_of(t, ':') {
            None => Some((false, invalid_message())),
            Some(k) => {
                let sig = t.subrange(k + 1, t.len() as int);
                let payload = t.subrange(0, k);
                match char_index_from(payload, ':', 0) {
                    None => Some((false, invalid_message())),
                    Some(j) => match parse_i64_spec(payload.subrange(0, j)) {
                        None => Some((false, invalid_message())),
                        Some(x) => if x != placeholder_id {
                            Some((false, invalid_message()))
                        } else {
                            match parse_u64_spec(payload.subrange(j + 1, payload.len() as int)) {
                                None => Some((false, invalid_message())),
                                Some(e) => if now > e {
                                    Some((false, expired_message()))
                                } else if sig != signature_spec(payload, key) {
                                    Some((false, invalid_message()))
                                } else {
                                    None
                                },
                            }
                        },
                    },
                }
            },
        }
    }
}

/// `r` is the outcome that `verify_error` describes.
pub open spec fn verify_outcome(r: Result<(), DomainError>, e: Option<(bool, Seq<char>)>) -> bool {
    match e {
        None => r is Ok,
        Some((true, m)) => r matches Err(DomainError::Internal(x)) && x@ == m,
        Some((false, m)) => is_validation(r, m),
    }
}

/// Compares two byte strings in time that depends only on their length.
pub fn constant_time_eq(a: &[u8], b: &[u8]) -> (r: bool)
    ensures
        r == (a@ == b@),
{
    if a.len() != b.len() {
        return false;
    }
    let mut acc: u8 = 0;
    let mut i: usize = 0;
    while i < a.len()
        invariant
            i <= a.len(),
            a@.len() == b@.len(),
            (acc == 0) == (forall|k: int| 0 <= k < i ==> a@[k] == b@[k]),
        decreases a.len() - i,
    {
        let x = a[i];
        let y = b[i];
        let next = acc | (x ^ y);
        assert((next == 0) == (acc == 0 && x == y)) by (bit_vector)
            requires
                next == acc | (x ^ y),
        ;
        proof {
            if next == 0 {
                assert forall|k: int| 0 <= k < i + 1 implies a@[k] == b@[k] by {
                    if k == i {
                        assert(a@[k] == x && b@[k] == y);
                    }
                }
            } else {
                if acc == 0 {
                    assert(a@[i as int] != b@[i as int]);
                }
            }
        }
        acc = next;
        i += 1;
    }
    proof {
        if acc == 0 {
            assert(a@ =~= b@);
        }
    }
    acc == 0
}

fn str_equal(a: &str, b: &str) -> (r: bool)
    ensures
        r == (a@ == b@),
{
    let r = constant_time_eq(a.as_bytes(), b.as_bytes());
    proof {
        vstd::utf8::encode_utf8_decode_utf8(a@);
        vstd::utf8::encode_utf8_decode_utf8(b@);
    }
    r
}

fn last_colon(v: &Vec<char>) -> (r: Option<usize>)
    ensures
        match last_index_of(v@, ':') {
            Some(k) => r matches Some(x) && x as int == k,
            None => r is None,
        },
{
    let mut j: usize = v.len();
    assert(v@.take(j as int) =~= v@);
    while j > 0
        invariant
            j <= v.len(),
            last_index_of(v@, ':') == last_index_of(v@.take(j as int), ':'),
        decreases j,
    {
        assert(v@.take(j as int).drop_last() =~= v@.take(j - 1));
        if v[j - 1] == ':' {
            return Some(j - 1);
        }
        j -= 1;
    }
    None
}

fn invalid() -> (r: Result<(), DomainError>)
    ensures
        is_validation(r, invalid_message()),
{
    Err(DomainError::Validation(String::from_str("無効なフォームトークンです。")))
}

fn expired() -> (r: Result<(), DomainError>)
    ensures
        is_validation(r, expired_message()),
{
    Err(DomainError::Validation(String::from_str("フォームの有効期限が切れています。ページを再読み込みしてください。")))
}

/// Checks a token at time `now`: it names the placeholder, has not expired and
/// carries the signature of its payload.
pub fn verify_token_at(token: &str, placeholder_id: i64, secret: &str, now: u64) -> (r: Result<(), DomainError>)
    ensures
        verify_outcome(r, verify_error(token@, placeholder_id, secret@, now)),
{
    let key = match resolve_secret(secret) {
        Err(e) => return Err(e),
        Ok(k) => k,
    };
    let tv0 = chars_of(token);
    let t = trim_vec(&tv0);
    if t.len() == 0 {
        return expired();
    }
    let k = match last_colon(&t) {
        None => return invalid(),
        Some(k) => k,
    };
    proof {
        crate::static_files::lemma_last_index_of(t@, ':');
    }
    let sig = sub_vec(&t, k + 1, t.len());
    let payload = sub_vec(&t, 0, k);
    let j = match crate::text::find_char(&payload, ':') {
        None => return invalid(),
        Some(j) => j,
    };
    proof {
        lemma_char_index_from(payload@, ':', 0);
    }
    let id_text = sub_vec(&payload, 0, j);
    let exp_text = sub_vec(&payload, j + 1, payload.len());
    let x = match parse_i64(&id_text) {
        None => return invalid(),
        Some(x) => x,
    };
    if x != placeholder_id {
        return invalid();
    }
    let e = match parse_u64(&exp_text) {
        None => return invalid(),
        Some(e) => e,
    };
    if now > e {
        return expired();
    }
    let ps = string_of(&payload);
    let expected = sign_payload(ps.as_str(), key.as_str());
    let ss = string_of(&sig);
    if !str_equal(ss.as_str(), expected.as_str()) {
        return invalid();
    }
    Ok(())
}

/// Checks a token now.
pub fn verify_token(token: &str, placeholder_id: i64, secret: &str) -> (r: Result<(), DomainError>)
    ensures
        exists|now: u64| verify_outcome(r, #[trigger] verify_error(token@, placeholder_id, secret@, now)),
{
    let now = unix_now();
    let r = verify_token_at(token, placeholder_id, secret, now);
    assert(verify_outcome(r, verify_error(token@, placeholder_id, secret@, now)));
    r
}

// ---------------------------------------------------------------------------
// Laws of tokens
// ---------------------------------------------------------------------------

proof fn lemma_token_parts(placeholder_id: i64, expiry: u64, key: Seq<char>)
    requires
        signature_well_formed(payload_spec(placeholder_id, expiry), key),
    ensures
        ({
            let payload = payload_spec(placeholder_id, expiry);
            let t = token_spec(placeholder_id, expiry, key);
            let sig = signature_spec(payload, key);
            &&& trim(t) == t
            &&& forall|q: int| 0 <= q < t.len() ==> !is_ws(#[trigger] t[q])
            &&& t.len() > 0
            &&& last_index_of(t, ':') == Some(payload.len() as int)
            &&& t.subrange(0, payload.len() as int) == payload
            &&& t.subrange(payload.len() as int + 1, t.len() as int) == sig
            &&& char_index_from(payload, ':', 0) == Some(i64_text(placeholder_id).len() as int)
            &&& payload.subrange(0, i64_text(placeholder_id).len() as int) == i64_text(placeholder_id)
            &&& payload.subrange(i64_text(placeholder_id).len() as int + 1, payload.len() as int) == nat_digits(
                expiry as nat,
            )
        }),
{
    let payload = payload_spec(placeholder_id, expiry);
    let t = token_spec(placeholder_id, expiry, key);
    let sig = signature_spec(payload, key);
    let it = i64_text(placeholder_id);
    let dt = nat_digits(expiry as nat);
    reveal_strlit(":");
    lemma_nat_digits(expiry as nat);
    assert forall|i: int| 0 <= i < it.len() implies #[trigger] it[i] == '-' || is_ascii_digit_spec(it[i]) by {
        lemma_i64_text_chars(placeholder_id, i);
    }
    assert(t =~= it + seq![':'] + dt + seq![':'] + sig);
    assert forall|i: int| 0 <= i < t.len() implies !is_ws(#[trigger] t[i]) by {
        if i < it.len() {
            assert(t[i] == it[i]);
        } else if i == it.len() {
        } else if i < it.len() + 1 + dt.len() {
            assert(t[i] == dt[i - it.len() - 1]);
        } else if i == it.len() + 1 + dt.len() {
        } else {
            assert(t[i] == sig[i - it.len() - 2 - dt.len()]);
        }
    }
    lemma_trim_no_ws(t);
    assert(payload =~= it + seq![':'] + dt);
    let k = payload.len() as int;
    crate::static_files::lemma_last_index_of(t, ':');
    assert(t[k] == ':');
    match last_index_of(t, ':') {
        None => {
            assert(false);
        },
        Some(q) => {
            if q > k {
                assert(t[q] == sig[q - k - 1]);
                assert(is_b64_url_char(sig[q - k - 1]));
            }
            if q < k {
                assert(false);
            }
        },
    }
    assert(t.subrange(0, k) =~= payload);
    assert(t.subrange(k + 1, t.len() as int) =~= sig);
    lemma_char_index_from(payload, ':', 0);
    let n = it.len() as int;
    assert(payload[n] == ':');
    match char_index_from(payload, ':', 0) {
        None => {
            assert(false);
        },
        Some(q) => {
            if q < n {
                assert(payload[q] == it[q]);
            }
            if q > n {
                assert(false);
            }
        },
    }
    assert(payload.subrange(0, n) =~= it);
    assert(payload.subrange(n + 1, payload.len() as int) =~= dt);
}

proof fn lemma_i64_text_chars(v: i64, i: int)
    requires
        0 <= i < i64_text(v).len(),
    ensures
        i64_text(v)[i] == '-' || is_ascii_digit_spec(i64_text(v)[i]),
{
    if v < 0 {
        lemma_nat_digits((0 - v) as nat);
        if i > 0 {
            assert(i64_text(v)[i] == nat_digits((0 - v) as nat)[i - 1]);
        }
    } else {
        lemma_nat_digits(v as nat);
    }
}

/// A token verifies for its placeholder, under the secret it was issued with,
/// at any time up to its expiry.
pub proof fn law_token_roundtrip(placeholder_id: i64, secret: Seq<char>, expiry: u64, later: u64)
    requires
        trim(secret).len() > 0,
        signature_well_formed(payload_spec(placeholder_id, expiry), trim(secret)),
        later <= expiry,
    ensures
        verify_error(token_spec(placeholder_id, expiry, trim(secret)), placeholder_id, secret, later) is None,
{
    lemma_token_parts(placeholder_id, expiry, trim(secret));
    law_i64_text_roundtrip(placeholder_id);
    law_u64_text_roundtrip(expiry);
}

/// A token issued at `now` verifies at any time up to an hour later.
pub proof fn law_issued_token_verifies(placeholder_id: i64, secret: Seq<char>, now: u64, later: u64)
    requires
        trim(secret).len() > 0,
        signature_well_formed(payload_spec(placeholder_id, expiry_of(now)), trim(secret)),
        later <= expiry_of(now),
    ensures
        verify_error(token_spec(placeholder_id, expiry_of(now), trim(secret)), placeholder_id, secret, later) is None,
{
    law_token_roundtrip(placeholder_id, secret, expiry_of(now), later);
}

/// A token is refused for any other placeholder.
pub proof fn law_token_bound_to_placeholder(
    placeholder_id: i64,
    other_id: i64,
    secret: Seq<char>,
    expiry: u64,
    later: u64,
)
    requires
        placeholder_id != other_id,
        trim(secret).len() > 0,
        signature_well_formed(payload_spec(placeholder_id, expiry), trim(secret)),
    ensures
        verify_error(token_spec(placeholder_id, expiry, trim(secret)), other_id, secret, later) == Some(
            (false, invalid_message()),
        ),
{
    lemma_token_parts(placeholder_id, expiry, trim(secret));
    law_i64_text_roundtrip(placeholder_id);
}

/// A token is refused once it has expired.
pub proof fn law_token_expires(placeholder_id: i64, secret: Seq<char>, expiry: u64, later: u64)
    requires
        trim(secret).len() > 0,
        signature_well_formed(payload_spec(placeholder_id, expiry), trim(secret)),
        later > expiry,
    ensures
        verify_error(token_spec(placeholder_id, expiry, trim(secret)), placeholder_id, secret, later) == Some(
            (false, expired_message()),
        ),
{
    lemma_token_parts(placeholder_id, expiry, trim(secret));
    law_i64_text_roundtrip(placeholder_id);
    law_u64_text_roundtrip(expiry);
}

/// A token with a character appended to its signature (neither whitespace,
/// which trimming removes, nor `:`) is refused.
pub proof fn law_tampered_token_rejected(placeholder_id: i64, secret: Seq<char>, expiry: u64, later: u64, c: char)
    requires
        trim(secret).len() > 0,
        signature_well_formed(payload_spec(placeholder_id, expiry), trim(secret)),
        later <= expiry,
        !is_ws(c),
        c != ':',
    ensures
        verify_error(token_spec(placeholder_id, expiry, trim(secret)).push(c), placeholder_id, secret, later)
            == Some((false, invalid_message())),
{
    let key = trim(secret);
    lemma_token_parts(placeholder_id, expiry, key);
    law_i64_text_roundtrip(placeholder_id);
    law_u64_text_roundtrip(expiry);
    let t = token_spec(placeholder_id, expiry, key);
    let t2 = t.push(c);
    let payload = payload_spec(placeholder_id, expiry);
    let k = payload.len() as int;
    let sig = signature_spec(payload, key);
    crate::text::lemma_trim_ends(t);
    assert forall|i: int| 0 <= i < t2.len() implies !is_ws(#[trigger] t2[i]) by {
        if i < t.len() {
            assert(t2[i] == t[i]);
        }
    }
    lemma_trim_no_ws(t2);
    assert(t2.drop_last() =~= t);
    assert(last_index_of(t2, ':') == last_index_of(t, ':'));
    assert(t2.subrange(0, k) =~= t.subrange(0, k));
    assert(t2.subrange(k + 1, t2.len() as int) =~= t.subrange(k + 1, t.len() as int).push(c));
    assert(t2.subrange(k + 1, t2.len() as int).len() != sig.len());
}

// ---------------------------------------------------------------------------
// Submissions
// ---------------------------------------------------------------------------

/// Settings of a contact-form widget.
#[derive(Debug, Clone)]
pub struct ContactFormWidgetConfig {
    pub heading: String,
    pub submit_label: String,
    pub success_message: String,
    pub show_phone: bool,
}

fn override_trimmed(current: &mut String, value: Option<&str>)
    ensures
        final(current)@ == match value {
            Some(v) => if trim(v@).len() > 0 {
                trim(v@)
            } else {
                old(current)@
            },
            None => old(current)@,
        },
{
    match value {
        Some(v) => {
            let vv = chars_of(v);
            let t = trim_vec(&vv);
            if t.len() > 0 {
                *current = string_of(&t);
            }
        },
        None => {},
    }
}

/// Applies a placeholder's own settings over the widget type's: texts when
/// given and not blank (trimmed), the phone switch when given.
pub fn merge_contact_config(
    cfg: &mut ContactFormWidgetConfig,
    heading: Option<&str>,
    submit_label: Option<&str>,
    success_message: Option<&str>,
    show_phone: Option<bool>,
)
    ensures
        final(cfg).heading@ == match heading {
            Some(v) => if trim(v@).len() > 0 {
                trim(v@)
            } else {
                old(cfg).heading@
            },
            None => old(cfg).heading@,
        },
        final(cfg).submit_label@ == match submit_label {
            Some(v) => if trim(v@).len() > 0 {
                trim(v@)
            } else {
                old(cfg).submit_label@
            },
            None => old(cfg).submit_label@,
        },
        final(cfg).success_message@ == match success_message {
            Some(v) => if trim(v@).len() > 0 {
                trim(v@)
            } else {
                old(cfg).success_message@
            },
            None => old(cfg).success_message@,
        },
        final(cfg).show_phone == match show_phone {
            Some(b) => b,
            None => old(cfg).show_phone,
        },
{
    override_trimmed(&mut cfg.heading, heading);
    override_trimmed(&mut cfg.submit_label, submit_label);
    override_trimmed(&mut cfg.success_message, success_message);
    match show_phone {
        Some(b) => {
            cfg.show_phone = b;
        },
        None => {},
    }
}

/// Length of a text in UTF-8 bytes (what `str::len` counts).
pub open spec fn byte_len(s: Seq<char>) -> nat {
    vstd::utf8::encode_utf8(s).len()
}

/// Why a submission is refused, if it is.
pub open spec fn submission_error(name: Seq<char>, email: Seq<char>, message: Seq<char>, phone: Option<Seq<char>>) -> Option<
    Seq<char>,
> {
    let n = trim(name);
    let e = trim(email);
    let m = trim(message);
    if n.len() == 0 || byte_len(n) > 100 {
        Some("お名前を正しく入力してください。"@)
    } else if e.len() == 0 || byte_len(e) > 254 || !e.contains('@') {
        Some("メールアドレスを正しく入力してください。"@)
    } else if m.len() == 0 || byte_len(m) > 5000 {
        Some("お問い合わせ内容を正しく入力してください。"@)
    } else {
        match phone {
            Some(p) => if trim(p).len() > 0 && byte_len(trim(p)) > 30 {
                Some("電話番号は 30 文字以内で入力してください。"@)
            } else {
                None
            },
            None => None,
        }
    }
}

/// Only the empty text has no bytes.
pub proof fn lemma_byte_len_zero(s: Seq<char>)
    ensures
        (byte_len(s) == 0) == (s.len() == 0),
{
    if s.len() > 0 {
        assert(vstd::utf8::encode_scalar(s[0] as u32).len() > 0);
    }
}

fn trimmed_string(s: &String) -> (r: String)
    ensures
        r@ == trim(s@),
{
    let v = chars_of_string(s);
    string_of(&trim_vec(&v))
}

pub(crate) fn byte_count(s: &String) -> (n: usize)
    ensures
        n as int == byte_len(s@),
{
    let b = s.as_str().as_bytes();
    b.len()
}

/// Checks the fields of a submission (the phone number stays optional).
pub fn validate_submission(input: &ContactFormSubmission, cfg: &ContactFormWidgetConfig) -> (r: Result<(), DomainError>)
    ensures
        match submission_error(input.name@, input.email@, input.message@, crate::sql_view::opt_view(input.phone)) {
            None => r is Ok,
            Some(m) => is_validation(r, m),
        },
{
    let name = trimmed_string(&input.name);
    proof {
        lemma_byte_len_zero(name@);
    }
    if byte_count(&name) == 0 || byte_count(&name) > 100 {
        return Err(DomainError::Validation(String::from_str("お名前を正しく入力してください。")));
    }
    let email = trimmed_string(&input.email);
    let ev = chars_of_string(&email);
    proof {
        lemma_byte_len_zero(email@);
    }
    if byte_count(&email) == 0 || byte_count(&email) > 254 || !crate::text::contains_char(&ev, '@') {
        return Err(DomainError::Validation(String::from_str("メールアドレスを正しく入力してください。")));
    }
    let message = trimmed_string(&input.message);
    proof {
        lemma_byte_len_zero(message@);
    }
    if byte_count(&message) == 0 || byte_count(&message) > 5000 {
        return Err(DomainError::Validation(String::from_str("お問い合わせ内容を正しく入力してください。")));
    }
    match &input.phone {
        Some(p) => {
            let pt = trimmed_string(p);
            let pv = chars_of_string(&pt);
            if pv.len() > 0 && byte_count(&pt) > 30 {
                return Err(DomainError::Validation(String::from_str("電話番号は 30 文字以内で入力してください。")));
            }
        },
        None => {},
    }
    Ok(())
}

/// The post stored for a submission: its title, content and excerpt (the
/// first 120 characters of the message).
pub fn contact_post_texts(input: &ContactFormSubmission) -> (r: (String, String, String))
    ensures
        r.0@ == "お問い合わせ: "@ + trim(input.name@),
        r.1@ == trim(input.message@),
        r.2@ == (if input.message@.len() <= 120 {
            input.message@
        } else {
            input.message@.take(120)
        }),
{
    let mut title = chars_of("お問い合わせ: ");
    let nv = chars_of_string(&input.name);
    let nt = trim_vec(&nv);
    append_vec(&mut title, &nt);
    let content = trimmed_string(&input.message);
    let mv = chars_of_string(&input.message);
    let n: usize = if mv.len() <= 120 {
        mv.len()
    } else {
        120
    };
    let ex = sub_vec(&mv, 0, n);
    assert(mv@.len() <= 120 ==> ex@ =~= mv@);
    assert(mv@.len() > 120 ==> ex@ =~= mv@.take(120));
    (string_of(&title), content, string_of(&ex))
}

/// The meta stored with a submission: name and e-mail (trimmed), and the
/// phone number when it is given and not blank.
pub fn contact_meta(input: &ContactFormSubmission) -> (r: Vec<(String, String)>)
    ensures
        crate::prefs::pairs_view(r@) == seq![("contact_name"@, trim(input.name@)), ("contact_email"@, trim(input.email@))]
            + match input.phone {
            Some(p) => if trim(p@).len() > 0 {
                seq![("contact_phone"@, trim(p@))]
            } else {
                seq![]
            },
            None => seq![],
        },
{
    let mut r: Vec<(String, String)> = Vec::new();
    r.push((String::from_str("contact_name"), trimmed_string(&input.name)));
    r.push((String::from_str("contact_email"), trimmed_string(&input.email)));
    match &input.phone {
        Some(p) => {
            let pt = trimmed_string(p);
            let pv = chars_of_string(&pt);
            if pv.len() > 0 {
                r.push((String::from_str("contact_phone"), pt));
            }
        },
        None => {},
    }
    assert(crate::prefs::pairs_view(r@) =~= seq![("contact_name"@, trim(input.name@)), ("contact_email"@, trim(input.email@))]
        + match input.phone {
        Some(p) => if trim(p@).len() > 0 {
            seq![("contact_phone"@, trim(p@))]
        } else {
            seq![]
        },
        None => seq![],
    });
    r
}

/// A submission is only taken by a contact-form placeholder.
pub fn check_contact_form_type(type_key: &str) -> (r: Result<(), DomainError>)
    ensures
        type_key@ == "contact_form"@ ==> r is Ok,
        type_key@ != "contact_form"@ ==> (r matches Err(DomainError::BadRequest(m)) && m@
            == "このプレースホルダーはお問い合わせフォームではありません。"@),
{
    let k = chars_of(type_key);
    let expected = chars_of("contact_form");
    if !crate::text::seq_eq(&k, &expected) {
        return Err(DomainError::BadRequest(String::from_str("このプレースホルダーはお問い合わせフォームではありません。")));
    }
    Ok(())
}

/// `rand::random::<u32>()`: any number.
#[verifier::external_body]
fn random_u32() -> (n: u32) {
    rand::random::<u32>()
}

/// The slug of a submission stored now: `contact-{unix time}-{random number}`.
pub fn new_contact_slug() -> (s: String)
    ensures
        exists|now: u64, nonce: u32| s@ == #[trigger] contact_slug_spec(now, nonce),
{
    let now = unix_now();
    let nonce = random_u32();
    let s = contact_slug(now, nonce);
    assert(s@ == contact_slug_spec(now, nonce));
    s
}

/// `contact-{time}-{nonce}`.
pub open spec fn contact_slug_spec(now: u64, nonce: u32) -> Seq<char> {
    "contact-"@ + nat_digits(now as nat) + "-"@ + nat_digits(nonce as nat)
}

/// The slug of a stored submission: `contact-{time}-{nonce}`.
pub fn contact_slug(now: u64, nonce: u32) -> (s: String)
    ensures
        s@ == contact_slug_spec(now, nonce),
{
    let mut r = chars_of("contact-");
    let a = chars_of_string(&u64_text(now));
    append_vec(&mut r, &a);
    let d = chars_of("-");
    append_vec(&mut r, &d);
    let b = chars_of_string(&u64_text(nonce as u64));
    append_vec(&mut r, &b);
    string_of(&r)
}

} // verus!
