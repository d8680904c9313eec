use sqlite_cms::error::DomainError;
use sqlite_cms::layouts::{
    check_duplicate_target_free, copy_post_slug_base, duplicate_message, duplicate_target_key, listed_delete_path,
    numbered_copy_slug, package_page_text, package_shell_text, package_static_uploads, shell_admin_file,
    static_delete_path, static_text_write_path,
};

fn file(path: &str, bytes: &[u8]) -> (String, Vec<u8>) {
    (path.to_string(), bytes.to_vec())
}

fn validation<T: std::fmt::Debug>(r: Result<T, DomainError>) -> String {
    match r {
        Err(DomainError::Validation(m)) => m,
        other => panic!("expected a validation error, got {other:?}"),
    }
}

fn conflict<T: std::fmt::Debug>(r: Result<T, DomainError>) -> String {
    match r {
        Err(DomainError::Conflict(m)) => m,
        other => panic!("expected a conflict, got {other:?}"),
    }
}

#[test]
fn package_shell_and_pages_are_read_as_text() {
    let files = vec![
        file("corp/shell.html", b"<html>old</html>"),
        file("corp/pages/home.html", "ようこそ".as_bytes()),
        file("corp/pages/bad.html", &[0xff, 0xfe]),
        file("corp/shell.html", b"<html>new</html>"),
    ];
    assert_eq!(package_shell_text("corp", &files).unwrap(), "<html>new</html>");
    assert_eq!(package_page_text("corp", "pages/home.html", &files).unwrap(), "ようこそ");
    assert_eq!(
        validation(package_page_text("corp", "pages/bad.html", &files)),
        "pages/bad.html は UTF-8 テキストである必要があります"
    );
    assert_eq!(
        validation(package_page_text("corp", "pages/none.html", &files)),
        "corp/pages/none.html が見つかりません"
    );
    assert_eq!(validation(package_shell_text("other", &files)), "shell.html が見つかりません");
    let broken = vec![file("corp/shell.html", &[0xc3])];
    assert_eq!(
        validation(package_shell_text("corp", &broken)),
        "shell.html は UTF-8 テキストである必要があります"
    );
}

#[test]
fn package_static_uploads_keep_safe_allowed_files() {
    let files = vec![
        file("corp/static/site.css", b"body{}"),
        file("corp/static/a/../b.css", b""),
        file("corp/static/tool.exe", b""),
        file("corp/shell.html", b""),
        file("other/static/b.png", b""),
        file("corp/static/img/logo.png", &[0x89, 0x50]),
        file("corp/static//x.png", b""),
    ];
    let uploads = package_static_uploads("corp", &files);
    assert_eq!(uploads, vec![(0, "site.css".to_string()), (5, "img/logo.png".to_string())]);
}

#[test]
fn duplicate_target_is_checked() {
    assert_eq!(duplicate_target_key("corp", "  corp-v2 ").unwrap(), "corp-v2");
    assert_eq!(
        validation(duplicate_target_key("corp", " corp ")),
        "複製先の layout key は元の key と異なる必要があります"
    );
    assert_eq!(
        conflict(duplicate_target_key("corp", "bad key")),
        "レイアウト key は英数字・ハイフン・アンダースコアのみ（先頭に _ は不可）"
    );
    assert!(check_duplicate_target_free("corp-v2", false).is_ok());
    assert_eq!(
        conflict(check_duplicate_target_free("corp-v2", true)),
        "レイアウト key「corp-v2」は既に使われています"
    );
}

#[test]
fn duplicate_message_reports_copied_posts() {
    assert_eq!(duplicate_message("企業", "corp-v2", None), "レイアウト「企業」を「corp-v2」として複製しました");
    assert_eq!(
        duplicate_message("企業", "corp-v2", Some((0, 0))),
        "レイアウト「企業」を「corp-v2」として複製しました（投稿対象のプレースホルダーは見つかりませんでした）"
    );
    assert_eq!(
        duplicate_message("企業", "corp-v2", Some((2, 15))),
        "レイアウト「企業」を「corp-v2」として複製しました（プレースホルダー 2 件・投稿 15 件をコピー）"
    );
}

#[test]
fn copied_post_slugs() {
    let base = copy_post_slug_base("corp_v2", Some("spring-sale"));
    assert_eq!(base, "corp_v2-spring-sale");
    assert_eq!(copy_post_slug_base("corp_v2", None), "corp_v2-post");
    assert_eq!(numbered_copy_slug(&base, 2), "corp_v2-spring-sale-2");
    assert_eq!(numbered_copy_slug(&base, 10), "corp_v2-spring-sale-10");
}

#[test]
fn edited_text_paths_are_normalized_and_checked() {
    assert_eq!(static_text_write_path(" /css/site.css ").unwrap(), "css/site.css");
    assert_eq!(validation(static_text_write_path(" / ")), "ファイルパスは必須です");
    assert_eq!(validation(static_text_write_path("../site.css")), "ファイルパスが不正です");
    assert_eq!(
        validation(static_text_write_path("img/logo.png")),
        "「img/logo.png」はテキストエディタで編集できないファイルです"
    );
}

#[test]
fn deleted_paths_are_trimmed_and_checked() {
    assert_eq!(static_delete_path(" img/logo.png ").unwrap(), "img/logo.png");
    assert_eq!(validation(static_delete_path("_hidden.css")), "ファイルパスが不正です");
    assert_eq!(validation(static_delete_path("tool.exe")), "この拡張子のファイルは許可されていません");
    assert_eq!(validation(static_delete_path("  ")), "ファイルパスは必須です");
    assert_eq!(listed_delete_path("   ").unwrap(), None);
    assert_eq!(listed_delete_path(" site.css ").unwrap(), Some("site.css".to_string()));
    assert_eq!(validation(listed_delete_path("a/../b.css")), "ファイルパスが不正です");
}

#[test]
fn shell_row_of_the_file_list() {
    let row = shell_admin_file("2.0 KB".to_string());
    assert_eq!(row.display_path, "shell.html");
    assert_eq!(row.kind_label, "テンプレート");
    assert_eq!(row.size_label, "2.0 KB");
    assert_eq!(row.public_url, "—");
    assert!(row.is_text_editable);
    assert!(!row.is_deletable);
    assert_eq!(row.delete_path, None);
}
