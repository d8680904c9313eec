use sqlite_cms::accounts::{check_login, hash_password, login_to_look_up, login_unchanged, verify_password};
use sqlite_cms::backup::{
    backup_filename, backup_zip_path, export_filename, map_zip_path_to_dest, normalized_path_prefix,
    validate_backup_zip, BackupManifest, BackupManifestPaths, FORMAT_VERSION,
};
use sqlite_cms::error::DomainError;
use sqlite_cms::numbers::{bytes_to_hex, parse_hex_blob};
use sqlite_cms::samples::{abort, format_labeled, is_reserved_media_public_url, upload_file_conflict_label, upload_files_to_check};
use sqlite_cms::session::{session_key_bytes, AppConfig};
use sqlite_cms::static_files::{content_type_for_path, layout_static_dir, layouts_dir};
use sqlite_cms::timestamps::{parse_and_canonicalize_cell_timestamp, parse_form_datetime};

fn validation_message<T: std::fmt::Debug>(r: Result<T, DomainError>) -> String {
    match r {
        Err(DomainError::Validation(m)) => m,
        other => panic!("expected a validation error, got {other:?}"),
    }
}

#[test]
fn password_hash_verifies_only_its_password() {
    let h = hash_password("correct horse").expect("hash");
    assert!(h.starts_with("$argon2"));
    assert!(verify_password("correct horse", &h));
    assert!(!verify_password("wrong", &h));
    assert!(!verify_password("correct horse", "not a hash"));
    assert!(check_login("correct horse", Some(&h)).is_ok());
    assert_eq!(validation_message(check_login("wrong", Some(&h))), "ログイン名またはパスワードが正しくありません");
    assert_eq!(validation_message(check_login("x", None)), "ログイン名またはパスワードが正しくありません");
}

#[test]
fn login_inputs() {
    assert_eq!(login_to_look_up(" admin ", "pw").expect("login"), "admin");
    assert_eq!(validation_message(login_to_look_up("  ", "pw")), "ログイン名またはパスワードが正しくありません");
    assert_eq!(validation_message(login_to_look_up("admin", "")), "ログイン名またはパスワードが正しくありません");
    assert!(login_unchanged(" Admin ", "admin"));
    assert!(!login_unchanged("admin2", "admin"));
}

#[test]
fn hex_blobs_round_trip() {
    let bytes = vec![0x00, 0x7f, 0xab, 0xff];
    let hex = bytes_to_hex(&bytes);
    assert_eq!(hex, "007fabff");
    assert_eq!(parse_hex_blob(&format!("0x{hex}"), "データ").expect("blob"), bytes);
    assert_eq!(parse_hex_blob(" 0XAbCd ", "データ").expect("blob"), vec![0xab, 0xcd]);
    assert_eq!(parse_hex_blob("", "データ").expect("blob"), Vec::<u8>::new());
    assert!(parse_hex_blob("abc", "データ").is_err());
    assert!(parse_hex_blob("zz", "データ").is_err());
}

#[test]
fn cell_timestamps_are_canonical_with_an_offset() {
    assert_eq!(
        parse_and_canonicalize_cell_timestamp("2026-05-01T10:00:00+09:00", "日時").expect("ts"),
        "2026-05-01T10:00:00+09:00"
    );
    assert_eq!(
        parse_and_canonicalize_cell_timestamp(" 2026-05-01 10:00 ", "日時").expect("ts"),
        "2026-05-01T10:00:00+09:00"
    );
    assert_eq!(
        parse_and_canonicalize_cell_timestamp("2026-05-01T01:02:03Z", "日時").expect("ts"),
        "2026-05-01T01:02:03+00:00"
    );
    assert_eq!(validation_message(parse_and_canonicalize_cell_timestamp("  ", "日時")), "日時を指定してください");
    assert_eq!(
        validation_message(parse_and_canonicalize_cell_timestamp("tomorrow", "日時")),
        "日時は YYYY-MM-DDTHH:MM:SS+HH:MM 形式で指定してください"
    );
}

#[test]
fn form_datetimes_are_seconds_since_the_epoch() {
    assert_eq!(parse_form_datetime("1970-01-02T00:00", "開始日時").expect("secs"), 86_400);
    assert_eq!(parse_form_datetime("1970-01-01 00:01:05Z", "開始日時").expect("secs"), 65);
    assert_eq!(
        validation_message(parse_form_datetime("01/02/1970", "開始日時")),
        "開始日時は YYYY-MM-DDTHH:MM 形式で指定してください"
    );
}

fn manifest(work: &str, uploads: &str) -> BackupManifest {
    BackupManifest {
        format_version: FORMAT_VERSION,
        cms_version: "0.1.0".to_string(),
        created_at: "2026-01-01T00:00:00Z".to_string(),
        database_path: "cms.db".to_string(),
        paths: BackupManifestPaths { work_dir: work.to_string(), uploads_dir: uploads.to_string() },
    }
}

fn site_config() -> AppConfig {
    let mut c = AppConfig::default();
    c.paths.work_dir = "/srv/work".to_string();
    c.paths.uploads_dir = "/srv/up".to_string();
    c.database.path = "/srv/cms.db".to_string();
    c
}

#[test]
fn backup_files_are_restored_by_directory() {
    let m = manifest("/data/work", "/data/uploads");
    let c = site_config();
    assert_eq!(map_zip_path_to_dest("database/cms.db", &m, &c).as_deref(), Some("/srv/cms.db"));
    assert_eq!(
        map_zip_path_to_dest("data/work/layouts/a/shell.html", &m, &c).as_deref(),
        Some("/srv/work/layouts/a/shell.html")
    );
    assert_eq!(map_zip_path_to_dest("data/uploads/x.png", &m, &c).as_deref(), Some("/srv/up/x.png"));
    assert_eq!(map_zip_path_to_dest("other/x.png", &m, &c), None);
    let nested = manifest("/data/work", "/data/work/uploads");
    assert_eq!(
        map_zip_path_to_dest("data/work/uploads/x.png", &nested, &c).as_deref(),
        Some("/srv/work/uploads/x.png")
    );
    assert_eq!(normalized_path_prefix(" /data/work/ "), "data/work");
}

#[test]
fn backup_packages_are_checked() {
    let files = vec!["database/cms.db".to_string()];
    assert!(validate_backup_zip(&manifest("w", "u"), &files).is_ok());
    assert_eq!(
        validation_message(validate_backup_zip(&manifest("w", "u"), &[])),
        "必須ファイル database/cms.db が ZIP に含まれていません"
    );
    let mut old = manifest("w", "u");
    old.format_version = 7;
    assert_eq!(validation_message(validate_backup_zip(&old, &files)), "未対応のバックアップ形式です (format_version=7)");
    assert_eq!(backup_filename("20260101-000000"), "cms-backup-20260101-000000.zip");
    let name = export_filename();
    assert!(name.starts_with("cms-backup-") && name.ends_with(".zip"));
    assert_eq!(name.len(), "cms-backup-20260101-000000.zip".len());
    assert_eq!(backup_zip_path("data/work", "layouts/a.html"), "data/work/layouts/a.html");
}

#[test]
fn session_key_repeats_the_secret_bytes() {
    let key = session_key_bytes("abc");
    assert_eq!(key.len(), 64);
    assert_eq!(&key[..6], b"abcabc");
    assert_eq!(key[63], b'a');
    assert_eq!(session_key_bytes(""), vec![0u8; 64]);
}

#[test]
fn sample_install_conflicts() {
    match abort(vec!["レイアウト \"corp\"".to_string(), "投稿スラッグ \"a\"".to_string()]) {
        DomainError::Conflict(m) => assert_eq!(
            m,
            "以下の名前が既に存在するため、インストールを中止しました: レイアウト \"corp\", 投稿スラッグ \"a\""
        ),
        other => panic!("unexpected: {other:?}"),
    }
    assert_eq!(
        format_labeled("プレースホルダー", vec!["a".to_string(), "b".to_string()]),
        vec!["プレースホルダー \"a\"".to_string(), "プレースホルダー \"b\"".to_string()]
    );
    assert_eq!(upload_files_to_check(&["a.png", "b.png"], &["a.png".to_string()]), vec!["b.png".to_string()]);
    assert_eq!(upload_file_conflict_label("b.png"), "アップロードファイル \"b.png\"");
    assert!(is_reserved_media_public_url("/admin/x"));
    assert!(is_reserved_media_public_url("/"));
    assert!(!is_reserved_media_public_url("/administrator"));
    assert!(!is_reserved_media_public_url("/favicon.ico"));
}

#[test]
fn static_paths_and_content_types() {
    assert_eq!(layouts_dir("/w"), "/w/layouts");
    assert_eq!(layout_static_dir("/w", "corp"), "/w/layouts/corp/static");
    assert_eq!(content_type_for_path("a/site.css"), "text/css; charset=utf-8");
    assert_eq!(content_type_for_path("logo.JPEG"), "application/octet-stream");
    assert_eq!(content_type_for_path("logo.jpeg"), "image/jpeg");
    assert_eq!(content_type_for_path("favicon.ico"), "image/x-icon");
    assert_eq!(content_type_for_path("noext"), "application/octet-stream");
}
