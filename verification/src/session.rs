//! The application settings the library reads, and the secret that signs
//! session cookies and contact-form tokens.
use vstd::prelude::*;

use crate::text::{chars_of, string_of, trim, trim_vec};

verus! {

/// Fallback secret for development, used when no session secret is set.
pub const DEV_SESSION_SECRET: &'static str = "rust-sqlite-cms-dev-insecure-session-secret";

/// Security settings.
#[derive(Debug, Clone)]
pub struct SecurityConfig {
    pub session_secret: Option<String>,
}

/// Directories of the site.
#[derive(Debug, Clone)]
pub struct PathsConfig {
    pub work_dir: String,
    pub uploads_dir: String,
}

/// Session cookie settings.
#[derive(Debug, Clone)]
pub struct SessionConfig {
    pub cookie_name: String,
    pub max_age_secs: i64,
}

/// Database settings.
#[derive(Debug, Clone)]
pub struct DatabaseConfig {
    pub path: String,
}

/// The application settings.
#[derive(Debug, Clone)]
pub struct AppConfig {
    pub security: SecurityConfig,
    pub paths: PathsConfig,
    pub session: SessionConfig,
    pub database: DatabaseConfig,
}

impl Default for AppConfig {
    fn default() -> (c: Self)
        ensures
            c.security.session_secret is None,
            c.paths.work_dir@ == "work"@,
            c.paths.uploads_dir@ == "uploads"@,
            c.session.cookie_name@ == "cms_session"@,
            c.session.max_age_secs == 86400,
            c.database.path@ == "cms.db"@,
    {
        AppConfig {
            security: SecurityConfig { session_secret: None },
            paths: PathsConfig { work_dir: String::from_str("work"), uploads_dir: String::from_str("uploads") },
            session: SessionConfig { cookie_name: String::from_str("cms_session"), max_age_secs: 86400 },
            database: DatabaseConfig { path: String::from_str("cms.db") },
        }
    }
}

/// The configured secret without surrounding whitespace when it is set and
/// not blank, else the development fallback.
pub open spec fn session_secret_spec(configured: Option<Seq<char>>) -> Seq<char> {
    match configured {
        Some(s) => if trim(s).len() > 0 {
            trim(s)
        } else {
            DEV_SESSION_SECRET@
        },
        None => DEV_SESSION_SECRET@,
    }
}

/// The secret that signs session cookies and contact-form tokens.
pub fn resolve_session_secret(config: &AppConfig) -> (s: String)
    ensures
        s@ == session_secret_spec(crate::sql_view::opt_view(config.security.session_secret)),
{
    match &config.security.session_secret {
        Some(secret) => {
            let v = chars_of(secret.as_str());
            let t = trim_vec(&v);
            if t.len() > 0 {
                return string_of(&t);
            }
        },
        None => {},
    }
    String::from_str(DEV_SESSION_SECRET)
}

/// The 64 bytes of a cookie key made from a secret: its UTF-8 bytes repeated
/// (zeros when it has none).
pub open spec fn session_key_spec(bytes: Seq<u8>) -> Seq<u8> {
    Seq::new(64, |i: int| if bytes.len() == 0 { 0u8 } else { bytes[i % (bytes.len() as int)] })
}

/// The bytes of the session cookie key for a secret.
pub fn session_key_bytes(secret: &str) -> (r: Vec<u8>)
    ensures
        r@ == session_key_spec(vstd::utf8::encode_utf8(secret@)),
{
    let b = secret.as_bytes();
    let mut r: Vec<u8> = Vec::new();
    let mut i: usize = 0;
    while i < 64
        invariant
            i <= 64,
            b@ == vstd::utf8::encode_utf8(secret@),
            r@ =~= session_key_spec(b@).take(i as int),
        decreases 64 - i,
    {
        let v = if b.len() == 0 {
            0u8
        } else {
            b[i % b.len()]
        };
        r.push(v);
        i += 1;
    }
    assert(session_key_spec(b@).take(64) =~= session_key_spec(b@));
    r
}

/// A session secret is never empty: a set secret is used only when it is not
/// blank, and the fallback is not empty.
pub proof fn law_session_secret_not_blank(configured: Option<Seq<char>>)
    ensures
        trim(session_secret_spec(configured)).len() > 0,
{
    reveal_strlit("rust-sqlite-cms-dev-insecure-session-secret");
    let d = DEV_SESSION_SECRET@;
    assert(!crate::text::is_ws(d[0]));
    crate::text::lemma_trim_empty(d);
    match configured {
        Some(s) => if trim(s).len() > 0 {
            crate::text::lemma_trim_ends(s);
            crate::text::lemma_trim_empty(trim(s));
        },
        None => {},
    }
}

#[verifier::external_type_specification]
#[verifier::external_body]
pub struct ExCookieKey(tower_sessions::cookie::Key);

/// What a cookie key holds: its 64 master bytes, the slice that
/// `Key::master` returns.
pub uninterp spec fn key_master_bytes(key: tower_sessions::cookie::Key) -> Seq<u8>;

/// `Key::from` of the `cookie` crate, re-exported by `tower_sessions`: a key
/// that holds the first 64 bytes of `master` (its source copies them into
/// the key). It panics on fewer than 64 bytes, which `requires` rules out.
#[verifier::external_body]
fn cookie_key_from(master: &[u8]) -> (k: tower_sessions::cookie::Key)
    requires
        master@.len() >= 64,
    ensures
        key_master_bytes(k) == master@.subrange(0, 64),
{
    tower_sessions::cookie::Key::from(master)
}

/// The key that signs session cookies: it holds the 64 bytes that
/// [`session_key_bytes`] gives for the configured secret.
pub fn resolve_session_key(config: &AppConfig) -> (k: tower_sessions::cookie::Key)
    ensures
        key_master_bytes(k) == session_key_spec(
            vstd::utf8::encode_utf8(session_secret_spec(crate::sql_view::opt_view(config.security.session_secret))),
        ),
{
    let secret = resolve_session_secret(config);
    let bytes = session_key_bytes(secret.as_str());
    assert(bytes@.subrange(0, 64) =~= bytes@);
    cookie_key_from(bytes.as_slice())
}

} // verus!
