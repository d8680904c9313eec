use sqlite_cms::static_files::{sort_static_entries, static_file_entry};
use sqlite_cms::static_files::{
    is_allowed_static_upload, is_editable_text_static, static_file_candidate, validate_static_relative_path,
    StaticFileEntry, StaticFileKind,
};

#[test]
fn static_file_candidate_points_into_layout_static_dir() {
    let work = "/tmp/work";
    assert!(static_file_candidate(work, "example/../shell.html").is_none());
    assert_eq!(
        static_file_candidate(work, "example/site.css").as_deref(),
        Some("/tmp/work/layouts/example/static/site.css")
    );
}

#[test]
fn validate_static_relative_path_rejects_unsafe_paths() {
    assert!(validate_static_relative_path("").is_err());
    assert!(validate_static_relative_path("../site.css").is_err());
    assert!(validate_static_relative_path("_hidden.css").is_err());
    assert!(validate_static_relative_path("img/../site.css").is_err());
}

#[test]
fn static_file_entry_kind_label() {
    let text = StaticFileEntry {
        relative_path: "site.css".to_string(),
        kind: StaticFileKind::Text,
        size_bytes: 10,
        public_url: "/static/example/site.css".to_string(),
    };
    assert_eq!(text.kind_label(), "テキスト");

    let image = StaticFileEntry {
        relative_path: "logo.png".to_string(),
        kind: StaticFileKind::Binary,
        size_bytes: 10,
        public_url: "/static/example/logo.png".to_string(),
    };
    assert_eq!(image.kind_label(), "画像");
}

#[test]
fn is_editable_text_static_and_upload_allowed() {
    assert!(is_editable_text_static("site.css"));
    assert!(is_editable_text_static("js/app.js"));
    assert!(!is_editable_text_static("logo.png"));
    assert!(is_allowed_static_upload("logo.png"));
    assert!(!is_allowed_static_upload("evil.exe"));
}

#[test]
fn listing_is_sorted_by_path() {
    let entries = vec![
        static_file_entry("corp", "img/b.png", 1).expect("entry"),
        static_file_entry("corp", "a.css", 2).expect("entry"),
        static_file_entry("corp", "img\\a.png", 3).expect("entry"),
        static_file_entry("corp", "Z.js", 4).expect("entry"),
    ];
    assert!(static_file_entry("corp", "_private/x.css", 1).is_none());
    let sorted = sort_static_entries(entries);
    let paths: Vec<&str> = sorted.iter().map(|e| e.relative_path.as_str()).collect();
    assert_eq!(paths, vec!["Z.js", "a.css", "img/a.png", "img/b.png"]);
    assert_eq!(sorted[2].public_url, "/static/corp/img/a.png");
    assert_eq!(sorted[2].size_bytes, 3);
}
