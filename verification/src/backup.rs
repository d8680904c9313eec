//! Site backups: the checks on a backup package and where each of its files
//! is restored to.
use vstd::prelude::*;

use crate::error::{is_validation, DomainError};
use crate::layouts::{is_safe_zip_relative_path, normalize_zip_entry_name, safe_zip_path, strip_dot_slash};
use crate::numbers::{nat_digits, u64_text};
use crate::session::AppConfig;
use crate::static_files::{join_path, path_join};
use crate::text::{
    append_vec, chars_of, chars_of_string, replace_char, seq_eq, split_char, starts_with, starts_with_exec,
    string_of, sub_vec, trim, trim_vec,
};

verus! {

/// Format version written by this version.
pub const FORMAT_VERSION: u32 = 1;

/// Where the database file sits in a backup package.
pub open spec fn db_zip_path() -> Seq<char> {
    "database/cms.db"@
}

/// Counts shown in the backup screen.
#[derive(Debug, Clone)]
pub struct BackupStats {
    pub posts_count: i64,
    pub pages_count: i64,
    pub media_count: i64,
    pub layouts_count: i64,
    pub users_count: i64,
}

/// What a restore did.
#[derive(Debug, Clone)]
pub struct BackupRestoreResult {
    pub message: String,
    pub restored_files_count: usize,
    pub backup_created_at: Option<String>,
}

/// Directories recorded in a backup's manifest.
#[derive(Debug, Clone)]
pub struct BackupManifestPaths {
    pub work_dir: String,
    pub uploads_dir: String,
}

/// The manifest of a backup package.
#[derive(Debug, Clone)]
pub struct BackupManifest {
    pub format_version: u32,
    pub cms_version: String,
    pub created_at: String,
    pub database_path: String,
    pub paths: BackupManifestPaths,
}

/// Why a backup package is refused, if it is.
pub open spec fn backup_error(version: u32, files: Seq<Seq<char>>) -> Option<Seq<char>> {
    if version != FORMAT_VERSION {
        Some("未対応のバックアップ形式です (format_version="@ + nat_digits(version as nat) + ")"@)
    } else if !files.contains(db_zip_path()) {
        Some("必須ファイル database/cms.db が ZIP に含まれていません"@)
    } else {
        None
    }
}

fn contains_path(files: &[String], p: &str) -> (b: bool)
    ensures
        b == crate::prefs::strings_view(files@).contains(p@),
{
    let pv = chars_of(p);
    let mut i: usize = 0;
    while i < files.len()
        invariant
            i <= files.len(),
            pv@ == p@,
            forall|k: int| 0 <= k < i ==> files@[k]@ != p@,
        decreases files.len() - i,
    {
        let f = chars_of_string(&files[i]);
        if seq_eq(&f, &pv) {
            assert(crate::prefs::strings_view(files@)[i as int] == p@);
            return true;
        }
        i += 1;
    }
    assert forall|k: int| 0 <= k < crate::prefs::strings_view(files@).len() implies crate::prefs::strings_view(
        files@,
    )[k] != p@ by {
        assert(crate::prefs::strings_view(files@)[k] == files@[k]@);
    }
    false
}

/// Checks a backup's manifest against the paths of the package's files.
pub fn validate_backup_zip(manifest: &BackupManifest, zip_files: &[String]) -> (r: Result<(), DomainError>)
    ensures
        match backup_error(manifest.format_version, crate::prefs::strings_view(zip_files@)) {
            None => r is Ok,
            Some(m) => is_validation(r, m),
        },
{
    if manifest.format_version != FORMAT_VERSION {
        let mut m = chars_of("未対応のバックアップ形式です (format_version=");
        let v = chars_of_string(&u64_text(manifest.format_version as u64));
        append_vec(&mut m, &v);
        let e = chars_of(")");
        append_vec(&mut m, &e);
        return Err(DomainError::Validation(string_of(&m)));
    }
    if !contains_path(zip_files, "database/cms.db") {
        return Err(DomainError::Validation(String::from_str("必須ファイル database/cms.db が ZIP に含まれていません")));
    }
    Ok(())
}

/// The text without leading and trailing `/`s.
pub open spec fn trim_slashes(s: Seq<char>) -> Seq<char>
    decreases s.len(),
{
    if s.len() > 0 && s[0] == '/' {
        trim_slashes(s.drop_first())
    } else if s.len() > 0 && s.last() == '/' {
        trim_slashes(s.drop_last())
    } else {
        s
    }
}

/// A directory recorded in a manifest, as used to prefix paths in the package.
pub fn normalized_path_prefix(prefix: &str) -> (s: String)
    ensures
        s@ == trim_slashes(trim(prefix@)),
{
    let pv = chars_of(prefix);
    let t = trim_vec(&pv);
    let mut a: usize = 0;
    let mut b: usize = t.len();
    assert(t@.subrange(0, t@.len() as int) =~= t@);
    while a < b && (t[a] == '/' || t[b - 1] == '/')
        invariant
            a <= b <= t.len(),
            trim_slashes(t@) == trim_slashes(t@.subrange(a as int, b as int)),
        decreases b - a,
    {
        let ghost s = t@.subrange(a as int, b as int);
        if t[a] == '/' {
            assert(s.drop_first() =~= t@.subrange(a + 1, b as int));
            a += 1;
        } else {
            assert(s.drop_last() =~= t@.subrange(a as int, b - 1));
            b -= 1;
        }
    }
    let r = sub_vec(&t, a, b);
    proof {
        if a == b {
            assert(r@ =~= seq![]);
        }
    }
    string_of(&r)
}

/// The components of a Unix path (as `Path::components` gives them for a
/// path without `..`): a root marker, then the non-empty parts other than `.`.
pub open spec fn path_components(p: Seq<char>) -> Seq<Seq<char>> {
    let parts = split_char(p, '/').filter(|c: Seq<char>| c.len() > 0 && c != "."@);
    if p.len() > 0 && p[0] == '/' {
        seq![seq!['/']] + parts
    } else {
        parts
    }
}

/// `Path::starts_with`: the base's components begin the path's.
pub open spec fn path_starts_with(p: Seq<char>, base: Seq<char>) -> bool {
    let pc = path_components(p);
    let bc = path_components(base);
    bc.len() <= pc.len() && pc.subrange(0, bc.len() as int) == bc
}

/// Where a file of a backup package is restored to: the database file to the
/// configured database, files under the recorded work directory below the
/// work directory, and (when the recorded uploads directory is not inside the
/// work directory) files under it below the uploads directory.
pub open spec fn restore_dest_spec(
    zip_path: Seq<char>,
    manifest_work: Seq<char>,
    manifest_uploads: Seq<char>,
    db_path: Seq<char>,
    work_dir: Seq<char>,
    uploads_dir: Seq<char>,
) -> Option<Seq<char>> {
    let wp = trim_slashes(trim(manifest_work)) + "/"@;
    let up = trim_slashes(trim(manifest_uploads)) + "/"@;
    if zip_path == db_zip_path() {
        Some(db_path)
    } else if starts_with(zip_path, wp) {
        Some(path_join(work_dir, zip_path.skip(wp.len() as int)))
    } else if !path_starts_with(manifest_uploads, manifest_work) && starts_with(zip_path, up) {
        Some(path_join(uploads_dir, zip_path.skip(up.len() as int)))
    } else {
        None
    }
}

fn path_components_exec(p: &Vec<char>) -> (r: Vec<Vec<char>>)
    ensures
        crate::text::vv(r@) == path_components(p@),
{
    let parts = crate::text::split_char_vec(p, '/');
    let ghost ps = crate::text::vv(parts@);
    let ghost pred = |c: Seq<char>| c.len() > 0 && c != "."@;
    let mut out: Vec<Vec<char>> = Vec::new();
    if p.len() > 0 && p[0] == '/' {
        let mut root: Vec<char> = Vec::new();
        root.push('/');
        assert(root@ =~= seq!['/']);
        out.push(root);
        assert(crate::text::vv(out@) =~= seq![seq!['/']]);
    }
    let ghost start = crate::text::vv(out@);
    let mut i: usize = 0;
    proof {
        reveal(Seq::filter);
        assert(ps.take(0) =~= seq![]);
        assert(crate::text::vv(out@) =~= start + ps.take(0).filter(pred));
    }
    while i < parts.len()
        invariant
            i <= parts.len(),
            ps == crate::text::vv(parts@),
            pred == (|c: Seq<char>| c.len() > 0 && c != "."@),
            crate::text::vv(out@) =~= start + ps.take(i as int).filter(pred),
        decreases parts.len() - i,
    {
        proof {
            reveal(Seq::filter);
            assert(ps.take(i + 1).drop_last() =~= ps.take(i as int));
            assert(ps.take(i + 1).last() == parts@[i as int]@);
            reveal_strlit(".");
        }
        let part = &parts[i];
        let is_dot = part.len() == 1 && part[0] == '.';
        proof {
            assert("."@ =~= seq!['.']);
            if part@ == "."@ {
                assert(part@[0] == '.');
            }
            if is_dot {
                assert(part@ =~= seq!['.']);
            }
        }
        if part.len() > 0 && !is_dot {
            let c = sub_vec(part, 0, part.len());
            assert(c@ =~= part@);
            let ghost old = crate::text::vv(out@);
            out.push(c);
            assert(crate::text::vv(out@) =~= old.push(c@));
        }
        i += 1;
    }
    assert(ps.take(parts@.len() as int) =~= ps);
    proof {
        if p@.len() > 0 && p@[0] == '/' {
            assert(start =~= seq![seq!['/']]);
        } else {
            assert(start =~= seq![]);
        }
    }
    out
}

fn path_starts_with_exec(p: &Vec<char>, base: &Vec<char>) -> (b: bool)
    ensures
        b == path_starts_with(p@, base@),
{
    let pc = path_components_exec(p);
    let bc = path_components_exec(base);
    if bc.len() > pc.len() {
        return false;
    }
    let mut i: usize = 0;
    while i < bc.len()
        invariant
            i <= bc.len() <= pc.len(),
            crate::text::vv(pc@) == path_components(p@),
            crate::text::vv(bc@) == path_components(base@),
            forall|k: int| 0 <= k < i ==> pc@[k]@ == bc@[k]@,
        decreases bc.len() - i,
    {
        if !seq_eq(&pc[i], &bc[i]) {
            assert(crate::text::vv(pc@).subrange(0, bc@.len() as int)[i as int] != crate::text::vv(bc@)[i as int]);
            assert(crate::text::vv(pc@).subrange(0, bc@.len() as int) != crate::text::vv(bc@));
            return false;
        }
        i += 1;
    }
    assert(crate::text::vv(pc@).subrange(0, bc@.len() as int) =~= crate::text::vv(bc@));
    true
}

/// Where a file of a backup package is restored to, if anywhere.
pub fn map_zip_path_to_dest(zip_path: &str, manifest: &BackupManifest, config: &AppConfig) -> (r: Option<String>)
    ensures
        match restore_dest_spec(
            zip_path@,
            manifest.paths.work_dir@,
            manifest.paths.uploads_dir@,
            config.database.path@,
            config.paths.work_dir@,
            config.paths.uploads_dir@,
        ) {
            Some(d) => r matches Some(x) && x@ == d,
            None => r is None,
        },
{
    let zp = chars_of(zip_path);
    let db = chars_of("database/cms.db");
    if seq_eq(&zp, &db) {
        return Some(config.database.path.clone());
    }
    let mut wp = chars_of_string(&normalized_path_prefix(manifest.paths.work_dir.as_str()));
    wp.push('/');
    proof {
        reveal_strlit("/");
    }
    assert(wp@ =~= trim_slashes(trim(manifest.paths.work_dir@)) + "/"@);
    if starts_with_exec(&zp, &wp) {
        let rest = sub_vec(&zp, wp.len(), zp.len());
        assert(rest@ =~= zp@.skip(wp@.len() as int));
        let w = chars_of_string(&config.paths.work_dir);
        return Some(string_of(&join_path(&w, &rest)));
    }
    let mut up = chars_of_string(&normalized_path_prefix(manifest.paths.uploads_dir.as_str()));
    up.push('/');
    assert(up@ =~= trim_slashes(trim(manifest.paths.uploads_dir@)) + "/"@);
    let mu = chars_of_string(&manifest.paths.uploads_dir);
    let mw = chars_of_string(&manifest.paths.work_dir);
    if !path_starts_with_exec(&mu, &mw) && starts_with_exec(&zp, &up) {
        let rest = sub_vec(&zp, up.len(), zp.len());
        assert(rest@ =~= zp@.skip(up@.len() as int));
        let u = chars_of_string(&config.paths.uploads_dir);
        return Some(string_of(&join_path(&u, &rest)));
    }
    None
}

/// Every entry of a backup package must be a safe relative path.
pub fn check_backup_entry_name(name: &str) -> (r: Result<(), DomainError>)
    ensures
        crate::layouts::safe_zip_path(name@) ==> r is Ok,
        !crate::layouts::safe_zip_path(name@) ==> is_validation(r, "安全でない ZIP エントリパスです: "@ + name@),
{
    if !crate::layouts::is_safe_zip_relative_path(name) {
        let mut m = chars_of("安全でない ZIP エントリパスです: ");
        let nv = chars_of(name);
        append_vec(&mut m, &nv);
        return Err(DomainError::Validation(string_of(&m)));
    }
    Ok(())
}

/// The uploads directory lies inside the work directory (and is cleared
/// with it on a restore).
pub fn uploads_inside_work(config: &AppConfig) -> (b: bool)
    ensures
        b == path_starts_with(config.paths.uploads_dir@, config.paths.work_dir@),
{
    let u = chars_of_string(&config.paths.uploads_dir);
    let w = chars_of_string(&config.paths.work_dir);
    path_starts_with_exec(&u, &w)
}

/// What a finished restore reports.
pub fn restore_result(restored_files_count: usize, manifest: &BackupManifest) -> (r: BackupRestoreResult)
    ensures
        r.message@ == "バックアップからのリストアが完了しました。サーバーを再起動することを強くおすすめします。"@,
        r.restored_files_count == restored_files_count,
        r.backup_created_at matches Some(c) && c@ == manifest.created_at@,
{
    BackupRestoreResult {
        message: String::from_str("バックアップからのリストアが完了しました。サーバーを再起動することを強くおすすめします。"),
        restored_files_count,
        backup_created_at: Some(manifest.created_at.clone()),
    }
}

/// The suggested file name of a backup taken at `timestamp`.
pub fn backup_filename(timestamp: &str) -> (s: String)
    ensures
        s@ == "cms-backup-"@ + timestamp@ + ".zip"@,
{
    let mut m = chars_of("cms-backup-");
    let t = chars_of(timestamp);
    append_vec(&mut m, &t);
    let e = chars_of(".zip");
    append_vec(&mut m, &e);
    string_of(&m)
}

/// chrono's `Utc::now().format(fmt)`: the current UTC time. Nothing is
/// stated of it. `to_string` panics where chrono reports a bad format
/// specifier, so the format is the one backups are named with.
#[verifier::external_body]
fn utc_now_compact(fmt: &str) -> (s: String)
    requires
        fmt@ == "%Y%m%d-%H%M%S"@,
{
    chrono::Utc::now().format(fmt).to_string()
}

/// The suggested file name of a backup taken now.
pub fn export_filename() -> (s: String)
    ensures
        exists|t: Seq<char>| s@ == "cms-backup-"@ + t + ".zip"@,
{
    let ts = utc_now_compact("%Y%m%d-%H%M%S");
    let r = backup_filename(ts.as_str());
    assert(r@ == "cms-backup-"@ + ts@ + ".zip"@);
    r
}

/// The path inside a backup package of a file found under a directory:
/// `prefix/relative`, with `\` read as `/`.
pub fn backup_zip_path(zip_prefix: &str, relative: &str) -> (s: String)
    ensures
        s@ == zip_prefix@ + "/"@ + replace_char(relative@, '\\', seq!['/']),
{
    let mut m = chars_of(zip_prefix);
    m.push('/');
    let rv = chars_of(relative);
    let slash = vec!['/'];
    let rel = crate::text::replace_char_vec(&rv, '\\', &slash);
    assert(slash@ =~= seq!['/']);
    append_vec(&mut m, &rel);
    proof {
        reveal_strlit("/");
        assert(m@ =~= zip_prefix@ + "/"@ + rel@);
    }
    string_of(&m)
}

} // verus!
